//! Decoding schemas from the generic structured tree and re-encoding them.
//!
//! Decode is a two-phase procedure: every field any schema kind could use is
//! first extracted into one superset record, and the kind resolver then
//! classifies that record.  Unknown fields with the extension prefix are
//! captured; other unknown fields are dropped without error.  A value is
//! decoded as a reference exactly when it is an object holding nothing but
//! the pointer field.

use vstd::prelude::*;
use vstd::string::StrSliceExecFns;
use crate::error::DecodeError;
use crate::kind::{
    boolean_entry, classify, classify_rel, integer_entry, number_entry, string_entry, RawSchema,
};
use crate::reference::{as_reference, gv_is_reference, gv_reference_text, ReferenceOr};
use crate::schema::{
    AdditionalProperties, AnySchema, Discriminator, ExternalDocumentation, Schema, SchemaData,
    SchemaKind, Type,
};
use crate::variant_or::VariantOrUnknownOrEmpty;
use crate::strmap::{Entry, StringMap};
use crate::value::{
    lookup, str_eq, unique_keys, GMember, GValue, Member, Number, Value,
};

verus! {

/// Whether a key carries the reserved extension prefix.
pub open spec fn is_ext_key(k: Seq<char>) -> bool {
    k.len() >= 2 && k[0] == 'x' && k[1] == '-'
}

/// The members whose keys carry the extension prefix, in order.
pub open spec fn ext_of(ms: Seq<Member>) -> Seq<Member>
    decreases ms,
{
    if ms.len() == 0 {
        Seq::empty()
    } else {
        let rest = ext_of(ms.drop_last());
        if is_ext_key(ms.last().name@) {
            rest.push(ms.last())
        } else {
            rest
        }
    }
}

/// An absent field, or one holding a string.
pub open spec fn text_ok(o: Option<Value>) -> bool {
    match o {
        None => true,
        Some(v) => v is Text,
    }
}

/// An absent field, or one holding a boolean.
pub open spec fn bool_ok(o: Option<Value>) -> bool {
    match o {
        None => true,
        Some(v) => v is Bool,
    }
}

/// An absent field, or one holding a number.
pub open spec fn num_ok(o: Option<Value>) -> bool {
    match o {
        None => true,
        Some(v) => v is Num,
    }
}

/// An absent field, or one holding a machine-size count.
pub open spec fn size_ok(o: Option<Value>) -> bool {
    match o {
        None => true,
        Some(v) => v matches Value::Num(n) && n matches Number::Int(i) && 0 <= i <= usize::MAX,
    }
}

/// An absent field, or one holding a sequence of strings.
pub open spec fn text_list_ok(o: Option<Value>) -> bool {
    match o {
        None => true,
        Some(v) => v matches Value::List(vs) && forall|i: int|
            0 <= i < vs@.len() ==> vs@[i] is Text,
    }
}

/// An absent field, or one holding a sequence of any values.
pub open spec fn list_ok(o: Option<Value>) -> bool {
    match o {
        None => true,
        Some(v) => v is List,
    }
}

/// The decoded optional string: the same characters the field held.
pub open spec fn text_rel(o: Option<Value>, d: Option<String>) -> bool {
    match o {
        None => d is None,
        Some(v) => v matches Value::Text(s) && d == Some(s),
    }
}

/// The decoded flag of an optional boolean field, absence meaning unset.
pub open spec fn flag_rel(o: Option<Value>, d: bool) -> bool {
    match o {
        None => d == false,
        Some(v) => v matches Value::Bool(b) && d == b,
    }
}

/// The decoded optional boolean.
pub open spec fn opt_bool_rel(o: Option<Value>, d: Option<bool>) -> bool {
    match o {
        None => d is None,
        Some(v) => v matches Value::Bool(b) && d == Some(b),
    }
}

/// The decoded optional number.
pub open spec fn opt_num_rel(o: Option<Value>, d: Option<Number>) -> bool {
    match o {
        None => d is None,
        Some(v) => v matches Value::Num(n) && d == Some(n),
    }
}

/// The decoded optional machine-size count.
pub open spec fn opt_size_rel(o: Option<Value>, d: Option<usize>) -> bool {
    match o {
        None => d is None,
        Some(v) => v matches Value::Num(n) && n matches Number::Int(i) && d == Some(i as usize)
            && 0 <= i <= usize::MAX,
    }
}

/// The decoded optional string list.
pub open spec fn text_vec_rel(o: Option<Value>, d: Option<Vec<String>>) -> bool {
    match o {
        None => d is None,
        Some(v) => v matches Value::List(vs) && d matches Some(ds) && ds@.len() == vs@.len()
            && forall|i: int|
            0 <= i < vs@.len() ==> ((#[trigger] vs@[i]) matches Value::Text(s) && ds@[i] == s),
    }
}

/// The decoded copy of an optional raw value, same shape.
pub open spec fn opt_value_rel(o: Option<Value>, d: Option<Value>) -> bool {
    match o {
        None => d is None,
        Some(v) => d matches Some(dv) && dv.gv() == v.gv(),
    }
}

/// The decoded copies of an optional raw list, same shapes.
pub open spec fn value_vec_rel(o: Option<Value>, d: Option<Vec<Value>>) -> bool {
    match o {
        None => d is None,
        Some(v) => v matches Value::List(vs) && d matches Some(ds) && ds@.len() == vs@.len()
            && forall|i: int| 0 <= i < vs@.len() ==> (#[trigger] ds@[i]).gv() == vs@[i].gv(),
    }
}

/// The captured extension map: exactly the members with the extension
/// prefix, in order, with their shapes kept.  (The capture deduplicates by
/// key, so the pointwise statement holds of inputs without repeated keys.)
pub open spec fn ext_rel(ms: Seq<Member>, d: StringMap<Value>) -> bool {
    &&& d.wf()
    &&& unique_keys(ms) ==> {
        &&& d.spec_len() == ext_of(ms).len()
        &&& forall|i: int|
            0 <= i < d.spec_len() ==> #[trigger] d.key_at(i) == ext_of(ms)[i].name@ && d.value_at(
                i,
            ).gv() == ext_of(ms)[i].value.gv()
    }
}

/// An absent field, or an external-documentation record: a `url` string,
/// required, and an optional `description`.
pub open spec fn extdocs_ok(o: Option<Value>) -> bool {
    match o {
        None => true,
        Some(v) => v matches Value::Object(ms) && {
            &&& lookup(ms@, "url"@) matches Some(u) && u is Text
            &&& text_ok(lookup(ms@, "description"@))
        },
    }
}

/// The decoded external documentation.
pub open spec fn extdocs_rel(o: Option<Value>, d: Option<ExternalDocumentation>) -> bool {
    match o {
        None => d is None,
        Some(v) => v matches Value::Object(ms) && d matches Some(ed) && {
            &&& lookup(ms@, "url"@) matches Some(u) && u matches Value::Text(s) && ed.url == s
            &&& text_rel(lookup(ms@, "description"@), ed.description)
        },
    }
}

/// An absent field, or a discriminator record: a `propertyName` string,
/// required, and an optional mapping from strings to strings.
pub open spec fn discriminator_ok(o: Option<Value>) -> bool {
    match o {
        None => true,
        Some(v) => v matches Value::Object(ms) && {
            &&& lookup(ms@, "propertyName"@) matches Some(p) && p is Text
            &&& match lookup(ms@, "mapping"@) {
                None => true,
                Some(m) => m matches Value::Object(mms) && forall|i: int|
                    0 <= i < mms@.len() ==> ((#[trigger] mms@[i]).value) is Text,
            }
        },
    }
}

/// The decoded discriminator.
pub open spec fn discriminator_rel(o: Option<Value>, d: Option<Discriminator>) -> bool {
    match o {
        None => d is None,
        Some(v) => v matches Value::Object(ms) && d matches Some(dc) && {
            &&& lookup(ms@, "propertyName"@) matches Some(p) && p matches Value::Text(s)
                && dc.property_name == s
            &&& dc.mapping.wf()
            &&& match lookup(ms@, "mapping"@) {
                None => dc.mapping.spec_len() == 0,
                Some(m) => m matches Value::Object(mms) && (unique_keys(mms@) ==> {
                    &&& dc.mapping.spec_len() == mms@.len()
                    &&& forall|i: int|
                        0 <= i < mms@.len() ==> #[trigger] dc.mapping.key_at(i) == mms@[i].name@
                            && (mms@[i].value matches Value::Text(s) && dc.mapping.value_at(i)
                            == s)
                }),
            }
        },
    }
}

/// A looked-up field is the value of one of the object's members.
pub(crate) proof fn lemma_lookup_is_member(ms: Seq<Member>, k: Seq<char>)
    ensures
        lookup(ms, k) matches Some(p) ==> exists|j: int|
            0 <= j < ms.len() && #[trigger] ms[j].value == p,
{
    lemma_lookup_is_member_from(ms, k, 0);
}

proof fn lemma_lookup_is_member_from(ms: Seq<Member>, k: Seq<char>, p: int)
    requires
        0 <= p,
    ensures
        crate::value::lookup_from(ms, k, p) matches Some(v) ==> exists|j: int|
            0 <= j < ms.len() && #[trigger] ms[j].value == v,
    decreases ms.len() - p,
{
    if p < ms.len() {
        lemma_lookup_is_member_from(ms, k, p + 1);
    }
}

/// A member's value stands below the whole object.
pub(crate) proof fn lemma_member_value_decreases(v: Value, p: Value)
    requires
        v matches Value::Object(ms) && exists|j: int|
            0 <= j < ms@.len() && #[trigger] ms@[j].value == p,
    ensures
        decreases_to!(v => p),
{
    match v {
        Value::Object(ms) => {
            let j = choose|j: int| 0 <= j < ms@.len() && #[trigger] ms@[j].value == p;
            assert(decreases_to!(v => v->Object_0));
            assert(v->Object_0 == ms);
            assert(decreases_to!(ms => ms@));
            vstd::std_specs::vec::axiom_vec_index_decreases(ms, j);
            assert(decreases_to!(ms@[j] => ms@[j].value));
            assert(decreases_to!(v => p));
        },
        _ => (),
    }
}

/// A list element of a member's value stands below the whole object.
proof fn lemma_list_element_decreases(v: Value, p: Value, i: int)
    requires
        decreases_to!(v => p),
        p matches Value::List(vs) && 0 <= i < vs@.len(),
    ensures
        p matches Value::List(vs) ==> decreases_to!(v => vs@[i]),
{
    match p {
        Value::List(vs) => {
            assert(decreases_to!(p => p->List_0));
            assert(p->List_0 == vs);
            assert(decreases_to!(vs => vs@));
            vstd::std_specs::vec::axiom_vec_index_decreases(vs, i);
            assert(decreases_to!(v => vs@[i]));
        },
        _ => (),
    }
}

/// An object member's value inside a member's value stands below the whole
/// object.
pub(crate) proof fn lemma_inner_member_decreases(v: Value, p: Value, i: int)
    requires
        decreases_to!(v => p),
        p matches Value::Object(pms) && 0 <= i < pms@.len(),
    ensures
        p matches Value::Object(pms) ==> decreases_to!(v => pms@[i].value),
{
    match p {
        Value::Object(pms) => {
            assert(decreases_to!(p => p->Object_0));
            assert(p->Object_0 == pms);
            assert(decreases_to!(pms => pms@));
            vstd::std_specs::vec::axiom_vec_index_decreases(pms, i);
            assert(decreases_to!(pms@[i] => pms@[i].value));
            assert(decreases_to!(v => pms@[i].value));
        },
        _ => (),
    }
}

/// Whether a schema node can be decoded: it is an object whose recognized
/// fields all hold values of the right kinds, recursively.
pub open spec fn schema_decode_ok(v: Value) -> bool
    decreases v, 0int via schema_decode_ok_decreases
{
    match v {
        Value::Object(ms) => {
            &&& bool_ok(lookup(ms@, "nullable"@))
            &&& bool_ok(lookup(ms@, "readOnly"@))
            &&& bool_ok(lookup(ms@, "writeOnly"@))
            &&& bool_ok(lookup(ms@, "deprecated"@))
            &&& extdocs_ok(lookup(ms@, "externalDocs"@))
            &&& text_ok(lookup(ms@, "title"@))
            &&& text_ok(lookup(ms@, "description"@))
            &&& discriminator_ok(lookup(ms@, "discriminator"@))
            &&& text_ok(lookup(ms@, "type"@))
            &&& text_ok(lookup(ms@, "pattern"@))
            &&& num_ok(lookup(ms@, "multipleOf"@))
            &&& bool_ok(lookup(ms@, "exclusiveMinimum"@))
            &&& bool_ok(lookup(ms@, "exclusiveMaximum"@))
            &&& num_ok(lookup(ms@, "minimum"@))
            &&& num_ok(lookup(ms@, "maximum"@))
            &&& match lookup(ms@, "properties"@) {
                None => true,
                Some(p) => p matches Value::Object(pms) && forall|i: int|
                    0 <= i < pms@.len() ==> schema_ref_ok((#[trigger] pms@[i]).value),
            }
            &&& text_list_ok(lookup(ms@, "required"@))
            &&& match lookup(ms@, "additionalProperties"@) {
                None => true,
                Some(p) => p is Bool || schema_ref_ok(p),
            }
            &&& size_ok(lookup(ms@, "minProperties"@))
            &&& size_ok(lookup(ms@, "maxProperties"@))
            &&& match lookup(ms@, "items"@) {
                None => true,
                Some(p) => schema_ref_ok(p),
            }
            &&& size_ok(lookup(ms@, "minItems"@))
            &&& size_ok(lookup(ms@, "maxItems"@))
            &&& bool_ok(lookup(ms@, "uniqueItems"@))
            &&& list_ok(lookup(ms@, "enum"@))
            &&& text_ok(lookup(ms@, "format"@))
            &&& size_ok(lookup(ms@, "minLength"@))
            &&& size_ok(lookup(ms@, "maxLength"@))
            &&& match lookup(ms@, "oneOf"@) {
                None => true,
                Some(p) => p matches Value::List(vs) && forall|i: int|
                    0 <= i < vs@.len() ==> schema_ref_ok(#[trigger] vs@[i]),
            }
            &&& match lookup(ms@, "allOf"@) {
                None => true,
                Some(p) => p matches Value::List(vs) && forall|i: int|
                    0 <= i < vs@.len() ==> schema_ref_ok(#[trigger] vs@[i]),
            }
            &&& match lookup(ms@, "anyOf"@) {
                None => true,
                Some(p) => p matches Value::List(vs) && forall|i: int|
                    0 <= i < vs@.len() ==> schema_ref_ok(#[trigger] vs@[i]),
            }
            &&& match lookup(ms@, "not"@) {
                None => true,
                Some(p) => schema_ref_ok(p),
            }
        },
        _ => false,
    }
}

#[via_fn]
proof fn schema_decode_ok_decreases(v: Value) {
    match v {
        Value::Object(ms) => {
            lemma_lookup_is_member(ms@, "properties"@);
            lemma_lookup_is_member(ms@, "additionalProperties"@);
            lemma_lookup_is_member(ms@, "items"@);
            lemma_lookup_is_member(ms@, "not"@);
            lemma_lookup_is_member(ms@, "oneOf"@);
            lemma_lookup_is_member(ms@, "allOf"@);
            lemma_lookup_is_member(ms@, "anyOf"@);
            match lookup(ms@, "properties"@) {
                Some(p) => {
                    lemma_member_value_decreases(v, p);
                    match p {
                        Value::Object(pms) => {
                            assert forall|i: int| 0 <= i < pms@.len() implies decreases_to!(
                                v => (#[trigger] pms@[i]).value) by {
                                lemma_inner_member_decreases(v, p, i);
                            }
                        },
                        _ => (),
                    }
                },
                None => (),
            }
            match lookup(ms@, "additionalProperties"@) {
                Some(p) => lemma_member_value_decreases(v, p),
                None => (),
            }
            match lookup(ms@, "items"@) {
                Some(p) => lemma_member_value_decreases(v, p),
                None => (),
            }
            match lookup(ms@, "not"@) {
                Some(p) => lemma_member_value_decreases(v, p),
                None => (),
            }
            match lookup(ms@, "oneOf"@) {
                Some(p) => {
                    lemma_member_value_decreases(v, p);
                    match p {
                        Value::List(vs) => {
                            assert forall|i: int| 0 <= i < vs@.len() implies decreases_to!(
                                v => #[trigger] vs@[i]) by {
                                lemma_list_element_decreases(v, p, i);
                            }
                        },
                        _ => (),
                    }
                },
                None => (),
            }
            match lookup(ms@, "allOf"@) {
                Some(p) => {
                    lemma_member_value_decreases(v, p);
                    match p {
                        Value::List(vs) => {
                            assert forall|i: int| 0 <= i < vs@.len() implies decreases_to!(
                                v => #[trigger] vs@[i]) by {
                                lemma_list_element_decreases(v, p, i);
                            }
                        },
                        _ => (),
                    }
                },
                None => (),
            }
            match lookup(ms@, "anyOf"@) {
                Some(p) => {
                    lemma_member_value_decreases(v, p);
                    match p {
                        Value::List(vs) => {
                            assert forall|i: int| 0 <= i < vs@.len() implies decreases_to!(
                                v => #[trigger] vs@[i]) by {
                                lemma_list_element_decreases(v, p, i);
                            }
                        },
                        _ => (),
                    }
                },
                None => (),
            }
        },
        _ => (),
    }
}




/// Whether a value decodes as a pointer or as an inline schema.
pub open spec fn schema_ref_ok(v: Value) -> bool
    decreases v, 1int,
{
    gv_is_reference(v.gv()) || schema_decode_ok(v)
}



/// Whether the object's type tag is present and holds exactly `s`.
pub open spec fn vtyp_is(ms: Seq<Member>, s: Seq<char>) -> bool {
    lookup(ms, "type"@) matches Some(t) && t matches Value::Text(ts) && ts@ == s
}

/// Whether the object lacks the given field.
pub open spec fn vabs(ms: Seq<Member>, k: Seq<char>) -> bool {
    lookup(ms, k) is None
}

/// None of the object-only fields is present.
pub open spec fn vno_object_fields(ms: Seq<Member>) -> bool {
    &&& vabs(ms, "properties"@)
    &&& vabs(ms, "required"@)
    &&& vabs(ms, "additionalProperties"@)
    &&& vabs(ms, "minProperties"@)
    &&& vabs(ms, "maxProperties"@)
}

/// None of the array-only fields is present.
pub open spec fn vno_array_fields(ms: Seq<Member>) -> bool {
    &&& vabs(ms, "items"@)
    &&& vabs(ms, "minItems"@)
    &&& vabs(ms, "maxItems"@)
    &&& vabs(ms, "uniqueItems"@)
}

/// None of the numeric-range fields is present.
pub open spec fn vno_number_fields(ms: Seq<Member>) -> bool {
    &&& vabs(ms, "multipleOf"@)
    &&& vabs(ms, "exclusiveMinimum"@)
    &&& vabs(ms, "exclusiveMaximum"@)
    &&& vabs(ms, "minimum"@)
    &&& vabs(ms, "maximum"@)
}

/// None of the string-only fields is present.
pub open spec fn vno_string_fields(ms: Seq<Member>) -> bool {
    &&& vabs(ms, "pattern"@)
    &&& vabs(ms, "minLength"@)
    &&& vabs(ms, "maxLength"@)
}

/// None of the four combinator fields is present.
pub open spec fn vno_combinators(ms: Seq<Member>) -> bool {
    &&& vabs(ms, "oneOf"@)
    &&& vabs(ms, "allOf"@)
    &&& vabs(ms, "anyOf"@)
    &&& vabs(ms, "not"@)
}

/// The enumeration field is absent or holds only strings and nulls.
pub open spec fn venum_strings(ms: Seq<Member>) -> bool {
    match lookup(ms, "enum"@) {
        None => true,
        Some(e) => e matches Value::List(vs) && forall|i: int|
            0 <= i < vs@.len() ==> string_entry(#[trigger] vs@[i]),
    }
}

/// The enumeration field is absent or holds only numbers and nulls.
pub open spec fn venum_numbers(ms: Seq<Member>) -> bool {
    match lookup(ms, "enum"@) {
        None => true,
        Some(e) => e matches Value::List(vs) && forall|i: int|
            0 <= i < vs@.len() ==> number_entry(#[trigger] vs@[i]),
    }
}

/// The enumeration field is absent or holds only exact integers and nulls.
pub open spec fn venum_ints(ms: Seq<Member>) -> bool {
    match lookup(ms, "enum"@) {
        None => true,
        Some(e) => e matches Value::List(vs) && forall|i: int|
            0 <= i < vs@.len() ==> integer_entry(#[trigger] vs@[i]),
    }
}

/// The enumeration field is absent or holds only booleans and nulls.
pub open spec fn venum_bools(ms: Seq<Member>) -> bool {
    match lookup(ms, "enum"@) {
        None => true,
        Some(e) => e matches Value::List(vs) && forall|i: int|
            0 <= i < vs@.len() ==> boolean_entry(#[trigger] vs@[i]),
    }
}

/// The numeric field is absent or holds an exact integer.
pub open spec fn vnum_int(ms: Seq<Member>, k: Seq<char>) -> bool {
    match lookup(ms, k) {
        None => true,
        Some(p) => p matches Value::Num(n) && n is Int,
    }
}

/// The object's field set is exactly the legal field set of `string`.
pub open spec fn vshape_string(ms: Seq<Member>) -> bool {
    &&& vtyp_is(ms, "string"@)
    &&& vno_number_fields(ms)
    &&& vno_object_fields(ms)
    &&& vno_array_fields(ms)
    &&& vno_combinators(ms)
    &&& venum_strings(ms)
}

/// The object's field set is exactly the legal field set of `number`.
pub open spec fn vshape_number(ms: Seq<Member>) -> bool {
    &&& vtyp_is(ms, "number"@)
    &&& vno_string_fields(ms)
    &&& vno_object_fields(ms)
    &&& vno_array_fields(ms)
    &&& vno_combinators(ms)
    &&& venum_numbers(ms)
}

/// The object's field set is exactly the legal field set of `integer`, its
/// numeric fields holding exact integers.
pub open spec fn vshape_integer(ms: Seq<Member>) -> bool {
    &&& vtyp_is(ms, "integer"@)
    &&& vno_string_fields(ms)
    &&& vno_object_fields(ms)
    &&& vno_array_fields(ms)
    &&& vno_combinators(ms)
    &&& venum_ints(ms)
    &&& vnum_int(ms, "multipleOf"@)
    &&& vnum_int(ms, "minimum"@)
    &&& vnum_int(ms, "maximum"@)
}

/// The object's field set is exactly the legal field set of `boolean`.
pub open spec fn vshape_boolean(ms: Seq<Member>) -> bool {
    &&& vtyp_is(ms, "boolean"@)
    &&& vno_string_fields(ms)
    &&& vno_number_fields(ms)
    &&& vno_object_fields(ms)
    &&& vno_array_fields(ms)
    &&& vno_combinators(ms)
    &&& vabs(ms, "format"@)
    &&& venum_bools(ms)
}

/// The object's field set is exactly the legal field set of `object`.
pub open spec fn vshape_object(ms: Seq<Member>) -> bool {
    &&& vtyp_is(ms, "object"@)
    &&& vno_string_fields(ms)
    &&& vno_number_fields(ms)
    &&& vno_array_fields(ms)
    &&& vno_combinators(ms)
    &&& vabs(ms, "enum"@)
    &&& vabs(ms, "format"@)
}

/// The object's field set is exactly the legal field set of `array`.
pub open spec fn vshape_array(ms: Seq<Member>) -> bool {
    &&& vtyp_is(ms, "array"@)
    &&& vno_string_fields(ms)
    &&& vno_number_fields(ms)
    &&& vno_object_fields(ms)
    &&& vno_combinators(ms)
    &&& vabs(ms, "enum"@)
    &&& vabs(ms, "format"@)
}

/// Besides one combinator field, nothing at all is present.
pub open spec fn vonly_combinator_left(ms: Seq<Member>) -> bool {
    &&& vabs(ms, "type"@)
    &&& vno_string_fields(ms)
    &&& vno_number_fields(ms)
    &&& vno_object_fields(ms)
    &&& vno_array_fields(ms)
    &&& vabs(ms, "enum"@)
    &&& vabs(ms, "format"@)
}

/// Exactly the `oneOf` field is present.
pub open spec fn vshape_one_of(ms: Seq<Member>) -> bool {
    &&& vonly_combinator_left(ms)
    &&& lookup(ms, "oneOf"@) is Some
    &&& vabs(ms, "allOf"@)
    &&& vabs(ms, "anyOf"@)
    &&& vabs(ms, "not"@)
}

/// Exactly the `allOf` field is present.
pub open spec fn vshape_all_of(ms: Seq<Member>) -> bool {
    &&& vonly_combinator_left(ms)
    &&& vabs(ms, "oneOf"@)
    &&& lookup(ms, "allOf"@) is Some
    &&& vabs(ms, "anyOf"@)
    &&& vabs(ms, "not"@)
}

/// Exactly the `anyOf` field is present.
pub open spec fn vshape_any_of(ms: Seq<Member>) -> bool {
    &&& vonly_combinator_left(ms)
    &&& vabs(ms, "oneOf"@)
    &&& vabs(ms, "allOf"@)
    &&& lookup(ms, "anyOf"@) is Some
    &&& vabs(ms, "not"@)
}

/// Exactly the `not` field is present.
pub open spec fn vshape_not(ms: Seq<Member>) -> bool {
    &&& vonly_combinator_left(ms)
    &&& vabs(ms, "oneOf"@)
    &&& vabs(ms, "allOf"@)
    &&& vabs(ms, "anyOf"@)
    &&& lookup(ms, "not"@) is Some
}

/// The decoded format field of a string schema.
pub open spec fn vformat_string_rel(
    ms: Seq<Member>,
    f: VariantOrUnknownOrEmpty<crate::schema::StringFormat>,
) -> bool {
    match lookup(ms, "format"@) {
        None => f is Empty,
        Some(p) => p matches Value::Text(s) && f == crate::variant_or::string_format_from(
            Some(s),
        ),
    }
}

/// The decoded format field of a number schema.
pub open spec fn vformat_number_rel(
    ms: Seq<Member>,
    f: VariantOrUnknownOrEmpty<crate::schema::NumberFormat>,
) -> bool {
    match lookup(ms, "format"@) {
        None => f is Empty,
        Some(p) => p matches Value::Text(s) && f == crate::variant_or::number_format_from(
            Some(s),
        ),
    }
}

/// The decoded format field of an integer schema.
pub open spec fn vformat_integer_rel(
    ms: Seq<Member>,
    f: VariantOrUnknownOrEmpty<crate::schema::IntegerFormat>,
) -> bool {
    match lookup(ms, "format"@) {
        None => f is Empty,
        Some(p) => p matches Value::Text(s) && f == crate::variant_or::integer_format_from(
            Some(s),
        ),
    }
}

/// The decoded string enumeration: each stored string's characters, with
/// `None` for the explicit null entry.
pub open spec fn venum_strings_rel(ms: Seq<Member>, out: Seq<Option<String>>) -> bool {
    match lookup(ms, "enum"@) {
        None => out.len() == 0,
        Some(e) => e matches Value::List(vs) && out.len() == vs@.len() && forall|i: int|
            0 <= i < vs@.len() ==> {
                &&& ((#[trigger] vs@[i]) is Null ==> out[i] is None)
                &&& (vs@[i] matches Value::Text(s) ==> out[i] matches Some(d) && d@ == s@)
            },
    }
}

/// The decoded number enumeration, with `None` for the explicit null entry.
pub open spec fn venum_numbers_rel(ms: Seq<Member>, out: Seq<Option<Number>>) -> bool {
    match lookup(ms, "enum"@) {
        None => out.len() == 0,
        Some(e) => e matches Value::List(vs) && out.len() == vs@.len() && forall|i: int|
            0 <= i < vs@.len() ==> {
                &&& ((#[trigger] vs@[i]) is Null ==> out[i] is None)
                &&& (vs@[i] matches Value::Num(n) ==> out[i] == Some(n))
            },
    }
}

/// The decoded integer enumeration, with `None` for the explicit null entry.
pub open spec fn venum_ints_rel(ms: Seq<Member>, out: Seq<Option<i64>>) -> bool {
    match lookup(ms, "enum"@) {
        None => out.len() == 0,
        Some(e) => e matches Value::List(vs) && out.len() == vs@.len() && forall|i: int|
            0 <= i < vs@.len() ==> {
                &&& ((#[trigger] vs@[i]) is Null ==> out[i] is None)
                &&& (vs@[i] matches Value::Num(n) ==> out[i] == Some(n->Int_0))
            },
    }
}

/// The decoded boolean enumeration, with `None` for the explicit null entry.
pub open spec fn venum_bools_rel(ms: Seq<Member>, out: Seq<Option<bool>>) -> bool {
    match lookup(ms, "enum"@) {
        None => out.len() == 0,
        Some(e) => e matches Value::List(vs) && out.len() == vs@.len() && forall|i: int|
            0 <= i < vs@.len() ==> {
                &&& ((#[trigger] vs@[i]) is Null ==> out[i] is None)
                &&& (vs@[i] matches Value::Bool(b) ==> out[i] == Some(b))
            },
    }
}

/// The decoded integer field: absent stays absent.
pub open spec fn vint_rel(o: Option<Value>, d: Option<i64>) -> bool {
    match o {
        None => d is None,
        Some(p) => p matches Value::Num(n) && n matches Number::Int(i) && d == Some(i),
    }
}

/// The decoded flag of an optional boolean field kept optional.
pub open spec fn vreq_rel(ms: Seq<Member>, req: Seq<String>) -> bool {
    match lookup(ms, "required"@) {
        None => req.len() == 0,
        Some(p) => p matches Value::List(vs) && req.len() == vs@.len() && forall|i: int|
            0 <= i < vs@.len() ==> ((#[trigger] vs@[i]) matches Value::Text(s) && req[i] == s),
    }
}

/// The decoded property map: names bound to pointer-or-schemas, in order,
/// each inline schema decoding from its own node; an absent field gives the
/// empty map.
pub open spec fn vprops_rel(v: Value, m: StringMap<ReferenceOr<Box<Schema>>>) -> bool
    decreases v, 0int, 0int via vprops_rel_decreases
{
    match v {
        Value::Object(ms) => match lookup(ms@, "properties"@) {
            None => m.spec_len() == 0 && m.wf(),
            Some(p) => p matches Value::Object(pms) && m.wf() && (unique_keys(pms@) ==> {
                &&& m.spec_len() == pms@.len()
                &&& forall|i: int|
                    0 <= i < pms@.len() ==> #[trigger] m.key_at(i) == pms@[i].name@
                        && boxed_ref_rel(pms@[i].value, m.value_at(i))
            }),
        },
        _ => false,
    }
}

/// How one schema kind corresponds to the fields of the object it was
/// decoded from: the disjoint case analysis of the resolver, composed with
/// the field extraction, with every nested inline schema decoding
/// recursively from its own node.
pub open spec fn kind_rel(v: Value, k: SchemaKind) -> bool
    decreases v, 1int, 0int via kind_rel_decreases
{
    match v {
        Value::Object(ms) => {
            if vshape_string(ms@) {
                k matches SchemaKind::Type(t) && t matches Type::String(st) && {
                    &&& vformat_string_rel(ms@, st.format)
                    &&& text_rel(lookup(ms@, "pattern"@), st.pattern)
                    &&& venum_strings_rel(ms@, st.enumeration@)
                    &&& opt_size_rel(lookup(ms@, "minLength"@), st.min_length)
                    &&& opt_size_rel(lookup(ms@, "maxLength"@), st.max_length)
                }
            } else if vshape_number(ms@) {
                k matches SchemaKind::Type(t) && t matches Type::Number(nt) && {
                    &&& vformat_number_rel(ms@, nt.format)
                    &&& opt_num_rel(lookup(ms@, "multipleOf"@), nt.multiple_of)
                    &&& flag_rel(lookup(ms@, "exclusiveMinimum"@), nt.exclusive_minimum)
                    &&& flag_rel(lookup(ms@, "exclusiveMaximum"@), nt.exclusive_maximum)
                    &&& opt_num_rel(lookup(ms@, "minimum"@), nt.minimum)
                    &&& opt_num_rel(lookup(ms@, "maximum"@), nt.maximum)
                    &&& venum_numbers_rel(ms@, nt.enumeration@)
                }
            } else if vshape_integer(ms@) {
                k matches SchemaKind::Type(t) && t matches Type::Integer(it) && {
                    &&& vformat_integer_rel(ms@, it.format)
                    &&& vint_rel(lookup(ms@, "multipleOf"@), it.multiple_of)
                    &&& flag_rel(lookup(ms@, "exclusiveMinimum"@), it.exclusive_minimum)
                    &&& flag_rel(lookup(ms@, "exclusiveMaximum"@), it.exclusive_maximum)
                    &&& vint_rel(lookup(ms@, "minimum"@), it.minimum)
                    &&& vint_rel(lookup(ms@, "maximum"@), it.maximum)
                    &&& venum_ints_rel(ms@, it.enumeration@)
                }
            } else if vshape_boolean(ms@) {
                k matches SchemaKind::Type(t) && t matches Type::Boolean(bt) && venum_bools_rel(
                    ms@,
                    bt.enumeration@,
                )
            } else if vshape_object(ms@) {
                k matches SchemaKind::Type(t) && t matches Type::Object(ot) && {
                    &&& vprops_rel(v, ot.properties)
                    &&& vreq_rel(ms@, ot.required@)
                    &&& match lookup(ms@, "additionalProperties"@) {
                        None => ot.additional_properties is None,
                        Some(p) => ot.additional_properties matches Some(ap) && match ap {
                            AdditionalProperties::Any(b) => p matches Value::Bool(pb) && b == pb,
                            AdditionalProperties::Schema(bx) => !(p is Bool) && schema_ref_rel(
                                p,
                                *bx,
                            ),
                        },
                    }
                    &&& opt_size_rel(lookup(ms@, "minProperties"@), ot.min_properties)
                    &&& opt_size_rel(lookup(ms@, "maxProperties"@), ot.max_properties)
                }
            } else if vshape_array(ms@) {
                k matches SchemaKind::Type(t) && t matches Type::Array(at) && {
                    &&& match lookup(ms@, "items"@) {
                        None => at.items is None,
                        Some(p) => at.items matches Some(r) && boxed_ref_rel(p, r),
                    }
                    &&& opt_size_rel(lookup(ms@, "minItems"@), at.min_items)
                    &&& opt_size_rel(lookup(ms@, "maxItems"@), at.max_items)
                    &&& flag_rel(lookup(ms@, "uniqueItems"@), at.unique_items)
                }
            } else if vshape_one_of(ms@) {
                k matches SchemaKind::OneOf { one_of } && (lookup(ms@, "oneOf"@) matches Some(p)
                    && p matches Value::List(vs) && one_of@.len() == vs@.len() && forall|i: int|
                    0 <= i < vs@.len() ==> schema_ref_rel(#[trigger] vs@[i], one_of@[i]))
            } else if vshape_all_of(ms@) {
                k matches SchemaKind::AllOf { all_of } && (lookup(ms@, "allOf"@) matches Some(p)
                    && p matches Value::List(vs) && all_of@.len() == vs@.len() && forall|i: int|
                    0 <= i < vs@.len() ==> schema_ref_rel(#[trigger] vs@[i], all_of@[i]))
            } else if vshape_any_of(ms@) {
                k matches SchemaKind::AnyOf { any_of } && (lookup(ms@, "anyOf"@) matches Some(p)
                    && p matches Value::List(vs) && any_of@.len() == vs@.len() && forall|i: int|
                    0 <= i < vs@.len() ==> schema_ref_rel(#[trigger] vs@[i], any_of@[i]))
            } else if vshape_not(ms@) {
                k matches SchemaKind::Not { not } && (lookup(ms@, "not"@) matches Some(p)
                    && schema_ref_rel(p, *not))
            } else {
                k matches SchemaKind::Any(a) && {
                    &&& text_rel(lookup(ms@, "type"@), a.typ)
                    &&& text_rel(lookup(ms@, "pattern"@), a.pattern)
                    &&& opt_num_rel(lookup(ms@, "multipleOf"@), a.multiple_of)
                    &&& opt_bool_rel(lookup(ms@, "exclusiveMinimum"@), a.exclusive_minimum)
                    &&& opt_bool_rel(lookup(ms@, "exclusiveMaximum"@), a.exclusive_maximum)
                    &&& opt_num_rel(lookup(ms@, "minimum"@), a.minimum)
                    &&& opt_num_rel(lookup(ms@, "maximum"@), a.maximum)
                    &&& vprops_rel(v, a.properties)
                    &&& vreq_rel(ms@, a.required@)
                    &&& match lookup(ms@, "additionalProperties"@) {
                        None => a.additional_properties is None,
                        Some(p) => a.additional_properties matches Some(ap) && match ap {
                            AdditionalProperties::Any(b) => p matches Value::Bool(pb) && b == pb,
                            AdditionalProperties::Schema(bx) => !(p is Bool) && schema_ref_rel(
                                p,
                                *bx,
                            ),
                        },
                    }
                    &&& opt_size_rel(lookup(ms@, "minProperties"@), a.min_properties)
                    &&& opt_size_rel(lookup(ms@, "maxProperties"@), a.max_properties)
                    &&& match lookup(ms@, "items"@) {
                        None => a.items is None,
                        Some(p) => a.items matches Some(r) && boxed_ref_rel(p, r),
                    }
                    &&& opt_size_rel(lookup(ms@, "minItems"@), a.min_items)
                    &&& opt_size_rel(lookup(ms@, "maxItems"@), a.max_items)
                    &&& opt_bool_rel(lookup(ms@, "uniqueItems"@), a.unique_items)
                    &&& match lookup(ms@, "enum"@) {
                        None => a.enumeration@.len() == 0,
                        Some(p) => p matches Value::List(vs) && a.enumeration@.len() == vs@.len()
                            && forall|i: int|
                            0 <= i < vs@.len() ==> (#[trigger] a.enumeration@[i]).gv()
                                == vs@[i].gv(),
                    }
                    &&& text_rel(lookup(ms@, "format"@), a.format)
                    &&& opt_size_rel(lookup(ms@, "minLength"@), a.min_length)
                    &&& opt_size_rel(lookup(ms@, "maxLength"@), a.max_length)
                    &&& match lookup(ms@, "oneOf"@) {
                        None => a.one_of@.len() == 0,
                        Some(p) => p matches Value::List(vs) && a.one_of@.len() == vs@.len()
                            && forall|i: int|
                            0 <= i < vs@.len() ==> schema_ref_rel(#[trigger] vs@[i], a.one_of@[i]),
                    }
                    &&& match lookup(ms@, "allOf"@) {
                        None => a.all_of@.len() == 0,
                        Some(p) => p matches Value::List(vs) && a.all_of@.len() == vs@.len()
                            && forall|i: int|
                            0 <= i < vs@.len() ==> schema_ref_rel(#[trigger] vs@[i], a.all_of@[i]),
                    }
                    &&& match lookup(ms@, "anyOf"@) {
                        None => a.any_of@.len() == 0,
                        Some(p) => p matches Value::List(vs) && a.any_of@.len() == vs@.len()
                            && forall|i: int|
                            0 <= i < vs@.len() ==> schema_ref_rel(#[trigger] vs@[i], a.any_of@[i]),
                    }
                    &&& match lookup(ms@, "not"@) {
                        None => a.not is None,
                        Some(p) => a.not matches Some(bx) && schema_ref_rel(p, *bx),
                    }
                }
            }
        },
        _ => false,
    }
}

#[via_fn]
proof fn kind_rel_decreases(v: Value, k: SchemaKind) {
    match v {
        Value::Object(ms) => {
            lemma_lookup_is_member(ms@, "properties"@);
            lemma_lookup_is_member(ms@, "additionalProperties"@);
            lemma_lookup_is_member(ms@, "items"@);
            lemma_lookup_is_member(ms@, "not"@);
            lemma_lookup_is_member(ms@, "oneOf"@);
            lemma_lookup_is_member(ms@, "allOf"@);
            lemma_lookup_is_member(ms@, "anyOf"@);
            match lookup(ms@, "properties"@) {
                Some(p) => {
                    lemma_member_value_decreases(v, p);
                    match p {
                        Value::Object(pms) => {
                            assert forall|i: int| 0 <= i < pms@.len() implies decreases_to!(
                                v => (#[trigger] pms@[i]).value) by {
                                lemma_inner_member_decreases(v, p, i);
                            }
                        },
                        _ => (),
                    }
                },
                None => (),
            }
            match lookup(ms@, "additionalProperties"@) {
                Some(p) => lemma_member_value_decreases(v, p),
                None => (),
            }
            match lookup(ms@, "items"@) {
                Some(p) => lemma_member_value_decreases(v, p),
                None => (),
            }
            match lookup(ms@, "not"@) {
                Some(p) => lemma_member_value_decreases(v, p),
                None => (),
            }
            match lookup(ms@, "oneOf"@) {
                Some(p) => {
                    lemma_member_value_decreases(v, p);
                    match p {
                        Value::List(vs) => {
                            assert forall|i: int| 0 <= i < vs@.len() implies decreases_to!(
                                v => #[trigger] vs@[i]) by {
                                lemma_list_element_decreases(v, p, i);
                            }
                        },
                        _ => (),
                    }
                },
                None => (),
            }
            match lookup(ms@, "allOf"@) {
                Some(p) => {
                    lemma_member_value_decreases(v, p);
                    match p {
                        Value::List(vs) => {
                            assert forall|i: int| 0 <= i < vs@.len() implies decreases_to!(
                                v => #[trigger] vs@[i]) by {
                                lemma_list_element_decreases(v, p, i);
                            }
                        },
                        _ => (),
                    }
                },
                None => (),
            }
            match lookup(ms@, "anyOf"@) {
                Some(p) => {
                    lemma_member_value_decreases(v, p);
                    match p {
                        Value::List(vs) => {
                            assert forall|i: int| 0 <= i < vs@.len() implies decreases_to!(
                                v => #[trigger] vs@[i]) by {
                                lemma_list_element_decreases(v, p, i);
                            }
                        },
                        _ => (),
                    }
                },
                None => (),
            }
        },
        _ => (),
    }
}

#[via_fn]
proof fn vprops_rel_decreases(v: Value, m: StringMap<ReferenceOr<Box<Schema>>>) {
    match v {
        Value::Object(ms) => {
            lemma_lookup_is_member(ms@, "properties"@);
            match lookup(ms@, "properties"@) {
                Some(p) => {
                    lemma_member_value_decreases(v, p);
                    match p {
                        Value::Object(pms) => {
                            assert forall|i: int| 0 <= i < pms@.len() implies decreases_to!(
                                v => (#[trigger] pms@[i]).value) by {
                                lemma_inner_member_decreases(v, p, i);
                            }
                        },
                        _ => (),
                    }
                },
                None => (),
            }
        },
        _ => (),
    }
}

/// The extracted superset record: every recognized field of the object,
/// each of the right kind, with sub-schemas decoded recursively.
pub open spec fn raw_rel(v: Value, raw: RawSchema) -> bool
    decreases v, 1int, 0int via raw_rel_decreases
{
    match v {
        Value::Object(ms) => {
            &&& text_rel(lookup(ms@, "type"@), raw.typ)
            &&& text_rel(lookup(ms@, "pattern"@), raw.pattern)
            &&& opt_num_rel(lookup(ms@, "multipleOf"@), raw.multiple_of)
            &&& opt_bool_rel(lookup(ms@, "exclusiveMinimum"@), raw.exclusive_minimum)
            &&& opt_bool_rel(lookup(ms@, "exclusiveMaximum"@), raw.exclusive_maximum)
            &&& opt_num_rel(lookup(ms@, "minimum"@), raw.minimum)
            &&& opt_num_rel(lookup(ms@, "maximum"@), raw.maximum)
            &&& match lookup(ms@, "properties"@) {
                None => raw.properties is None,
                Some(p) => p matches Value::Object(pms) && raw.properties matches Some(m) && {
                    &&& m.wf()
                    &&& unique_keys(pms@) ==> {
                        &&& m.spec_len() == pms@.len()
                        &&& forall|i: int|
                            0 <= i < pms@.len() ==> #[trigger] m.key_at(i) == pms@[i].name@
                                && boxed_ref_rel(pms@[i].value, m.value_at(i))
                    }
                },
            }
            &&& text_vec_rel(lookup(ms@, "required"@), raw.required)
            &&& match lookup(ms@, "additionalProperties"@) {
                None => raw.additional_properties is None,
                Some(p) => raw.additional_properties matches Some(ap) && match ap {
                    AdditionalProperties::Any(b) => p matches Value::Bool(pb) && b == pb,
                    AdditionalProperties::Schema(bx) => !(p is Bool) && schema_ref_rel(p, *bx),
                },
            }
            &&& opt_size_rel(lookup(ms@, "minProperties"@), raw.min_properties)
            &&& opt_size_rel(lookup(ms@, "maxProperties"@), raw.max_properties)
            &&& match lookup(ms@, "items"@) {
                None => raw.items is None,
                Some(p) => raw.items matches Some(r) && boxed_ref_rel(p, r),
            }
            &&& opt_size_rel(lookup(ms@, "minItems"@), raw.min_items)
            &&& opt_size_rel(lookup(ms@, "maxItems"@), raw.max_items)
            &&& opt_bool_rel(lookup(ms@, "uniqueItems"@), raw.unique_items)
            &&& value_vec_rel(lookup(ms@, "enum"@), raw.enumeration)
            &&& text_rel(lookup(ms@, "format"@), raw.format)
            &&& opt_size_rel(lookup(ms@, "minLength"@), raw.min_length)
            &&& opt_size_rel(lookup(ms@, "maxLength"@), raw.max_length)
            &&& match lookup(ms@, "oneOf"@) {
                None => raw.one_of is None,
                Some(p) => p matches Value::List(vs) && raw.one_of matches Some(rs) && rs@.len()
                    == vs@.len() && forall|i: int|
                    0 <= i < vs@.len() ==> schema_ref_rel(#[trigger] vs@[i], rs@[i]),
            }
            &&& match lookup(ms@, "allOf"@) {
                None => raw.all_of is None,
                Some(p) => p matches Value::List(vs) && raw.all_of matches Some(rs) && rs@.len()
                    == vs@.len() && forall|i: int|
                    0 <= i < vs@.len() ==> schema_ref_rel(#[trigger] vs@[i], rs@[i]),
            }
            &&& match lookup(ms@, "anyOf"@) {
                None => raw.any_of is None,
                Some(p) => p matches Value::List(vs) && raw.any_of matches Some(rs) && rs@.len()
                    == vs@.len() && forall|i: int|
                    0 <= i < vs@.len() ==> schema_ref_rel(#[trigger] vs@[i], rs@[i]),
            }
            &&& match lookup(ms@, "not"@) {
                None => raw.not is None,
                Some(p) => raw.not matches Some(bx) && schema_ref_rel(p, *bx),
            }
        },
        _ => false,
    }
}

#[via_fn]
proof fn raw_rel_decreases(v: Value, raw: RawSchema) {
    match v {
        Value::Object(ms) => {
            lemma_lookup_is_member(ms@, "properties"@);
            lemma_lookup_is_member(ms@, "additionalProperties"@);
            lemma_lookup_is_member(ms@, "items"@);
            lemma_lookup_is_member(ms@, "not"@);
            lemma_lookup_is_member(ms@, "oneOf"@);
            lemma_lookup_is_member(ms@, "allOf"@);
            lemma_lookup_is_member(ms@, "anyOf"@);
            match lookup(ms@, "properties"@) {
                Some(p) => {
                    lemma_member_value_decreases(v, p);
                    match p {
                        Value::Object(pms) => {
                            assert forall|i: int| 0 <= i < pms@.len() implies decreases_to!(
                                v => (#[trigger] pms@[i]).value) by {
                                lemma_inner_member_decreases(v, p, i);
                            }
                        },
                        _ => (),
                    }
                },
                None => (),
            }
            match lookup(ms@, "additionalProperties"@) {
                Some(p) => lemma_member_value_decreases(v, p),
                None => (),
            }
            match lookup(ms@, "items"@) {
                Some(p) => lemma_member_value_decreases(v, p),
                None => (),
            }
            match lookup(ms@, "not"@) {
                Some(p) => lemma_member_value_decreases(v, p),
                None => (),
            }
            match lookup(ms@, "oneOf"@) {
                Some(p) => {
                    lemma_member_value_decreases(v, p);
                    match p {
                        Value::List(vs) => {
                            assert forall|i: int| 0 <= i < vs@.len() implies decreases_to!(
                                v => #[trigger] vs@[i]) by {
                                lemma_list_element_decreases(v, p, i);
                            }
                        },
                        _ => (),
                    }
                },
                None => (),
            }
            match lookup(ms@, "allOf"@) {
                Some(p) => {
                    lemma_member_value_decreases(v, p);
                    match p {
                        Value::List(vs) => {
                            assert forall|i: int| 0 <= i < vs@.len() implies decreases_to!(
                                v => #[trigger] vs@[i]) by {
                                lemma_list_element_decreases(v, p, i);
                            }
                        },
                        _ => (),
                    }
                },
                None => (),
            }
            match lookup(ms@, "anyOf"@) {
                Some(p) => {
                    lemma_member_value_decreases(v, p);
                    match p {
                        Value::List(vs) => {
                            assert forall|i: int| 0 <= i < vs@.len() implies decreases_to!(
                                v => #[trigger] vs@[i]) by {
                                lemma_list_element_decreases(v, p, i);
                            }
                        },
                        _ => (),
                    }
                },
                None => (),
            }
        },
        _ => (),
    }
}


/// The decoded shared data of a schema node.
pub open spec fn data_rel(ms: Seq<Member>, d: SchemaData) -> bool {
    &&& flag_rel(lookup(ms, "nullable"@), d.nullable)
    &&& flag_rel(lookup(ms, "readOnly"@), d.read_only)
    &&& flag_rel(lookup(ms, "writeOnly"@), d.write_only)
    &&& flag_rel(lookup(ms, "deprecated"@), d.deprecated)
    &&& extdocs_rel(lookup(ms, "externalDocs"@), d.external_docs)
    &&& opt_value_rel(lookup(ms, "example"@), d.example)
    &&& text_rel(lookup(ms, "title"@), d.title)
    &&& text_rel(lookup(ms, "description"@), d.description)
    &&& discriminator_rel(lookup(ms, "discriminator"@), d.discriminator)
    &&& opt_value_rel(lookup(ms, "default"@), d.default)
    &&& ext_rel(ms, d.extensions)
}

/// The full decoding relation of one schema node: the value is an object,
/// its shared data decodes field by field, and its kind is the resolver's
/// classification of the fields, with every nested inline schema related
/// recursively to its own node.
pub open spec fn schema_decodes(v: Value, s: Schema) -> bool
    decreases v, 2int, 0int,
{
    match v {
        Value::Object(ms) => {
            &&& data_rel(ms@, s.schema_data)
            &&& kind_rel(v, s.schema_kind)
        },
        _ => false,
    }
}

/// A value decodes as a pointer exactly when it has reference shape, and as
/// an inline schema otherwise, the item decoding from the same node by the
/// schema's own decode rules.
pub open spec fn schema_ref_rel(v: Value, r: ReferenceOr<Schema>) -> bool
    decreases v, 3int, 0int,
{
    if gv_is_reference(v.gv()) {
        r matches ReferenceOr::Reference { reference } && reference@ == gv_reference_text(v.gv())
    } else {
        r matches ReferenceOr::Item(s) && schema_decodes(v, s)
    }
}

/// A value decodes as a pointer exactly when it has reference shape, and as
/// a boxed inline schema otherwise, the item decoding from the same node by
/// the schema's own decode rules.
pub open spec fn boxed_ref_rel(v: Value, r: ReferenceOr<Box<Schema>>) -> bool
    decreases v, 3int, 0int,
{
    if gv_is_reference(v.gv()) {
        r matches ReferenceOr::Reference { reference } && reference@ == gv_reference_text(v.gv())
    } else {
        r matches ReferenceOr::Item(b) && schema_decodes(v, *b)
    }
}

/// Looks a field up and decodes its optional string.
pub(crate) fn get_text(ms: &Vec<Member>, k: &str) -> (r: Result<Option<String>, DecodeError>)
    ensures
        r matches Ok(d) ==> text_rel(lookup(ms@, k@), d),
        r is Ok <==> text_ok(lookup(ms@, k@)),
        r matches Err(e) ==> e matches DecodeError::BadField(f) && f@ == k@,
{
    match crate::value::obj_get(ms, k) {
        None => Ok(None),
        Some(Value::Text(s)) => Ok(Some(s.clone())),
        Some(_) => Err(DecodeError::BadField(k.to_owned())),
    }
}

/// Looks a field up and decodes its flag; absence means unset.
pub(crate) fn get_flag(ms: &Vec<Member>, k: &str) -> (r: Result<bool, DecodeError>)
    ensures
        r matches Ok(d) ==> flag_rel(lookup(ms@, k@), d),
        r is Ok <==> bool_ok(lookup(ms@, k@)),
        r matches Err(e) ==> e matches DecodeError::BadField(f) && f@ == k@,
{
    match crate::value::obj_get(ms, k) {
        None => Ok(false),
        Some(Value::Bool(b)) => Ok(*b),
        Some(_) => Err(DecodeError::BadField(k.to_owned())),
    }
}

/// Looks a field up and decodes its optional boolean.
pub(crate) fn get_opt_bool(ms: &Vec<Member>, k: &str) -> (r: Result<Option<bool>, DecodeError>)
    ensures
        r matches Ok(d) ==> opt_bool_rel(lookup(ms@, k@), d),
        r is Ok <==> bool_ok(lookup(ms@, k@)),
        r matches Err(e) ==> e matches DecodeError::BadField(f) && f@ == k@,
{
    match crate::value::obj_get(ms, k) {
        None => Ok(None),
        Some(Value::Bool(b)) => Ok(Some(*b)),
        Some(_) => Err(DecodeError::BadField(k.to_owned())),
    }
}

/// Looks a field up and decodes its optional number.
fn get_num(ms: &Vec<Member>, k: &str) -> (r: Result<Option<Number>, DecodeError>)
    ensures
        r matches Ok(d) ==> opt_num_rel(lookup(ms@, k@), d),
        r is Ok <==> num_ok(lookup(ms@, k@)),
        r matches Err(e) ==> e matches DecodeError::BadField(f) && f@ == k@,
{
    match crate::value::obj_get(ms, k) {
        None => Ok(None),
        Some(Value::Num(n)) => Ok(Some(*n)),
        Some(_) => Err(DecodeError::BadField(k.to_owned())),
    }
}

/// Looks a field up and decodes its optional machine-size count.
fn get_size(ms: &Vec<Member>, k: &str) -> (r: Result<Option<usize>, DecodeError>)
    ensures
        r matches Ok(d) ==> opt_size_rel(lookup(ms@, k@), d),
        r is Ok <==> size_ok(lookup(ms@, k@)),
        r matches Err(e) ==> e matches DecodeError::BadField(f) && f@ == k@,
{
    match crate::value::obj_get(ms, k) {
        None => Ok(None),
        Some(Value::Num(Number::Int(i))) => {
            let i = *i;
            if 0 <= i && (i as u64) <= (usize::MAX as u64) {
                Ok(Some(i as usize))
            } else {
                Err(DecodeError::BadField(k.to_owned()))
            }
        },
        Some(_) => Err(DecodeError::BadField(k.to_owned())),
    }
}

/// Looks a field up and decodes its optional string list.
fn get_text_vec(ms: &Vec<Member>, k: &str) -> (r: Result<Option<Vec<String>>, DecodeError>)
    ensures
        r matches Ok(d) ==> text_vec_rel(lookup(ms@, k@), d),
        r is Ok <==> text_list_ok(lookup(ms@, k@)),
        r matches Err(e) ==> e matches DecodeError::BadField(f) && f@ == k@,
{
    match crate::value::obj_get(ms, k) {
        None => Ok(None),
        Some(Value::List(vs)) => {
            let mut out: Vec<String> = Vec::new();
            let mut i: usize = 0;
            while i < vs.len()
                invariant
                    i <= vs@.len(),
                    out@.len() == i,
                    lookup(ms@, k@) == Some(Value::List(*vs)),
                    forall|j: int|
                        0 <= j < i ==> ((#[trigger] vs@[j]) matches Value::Text(s) && out@[j]
                            == s),
                decreases vs@.len() - i,
            {
                match &vs[i] {
                    Value::Text(s) => out.push(s.clone()),
                    _ => {
                        proof {
                            assert(!(vs@[i as int] is Text));
                        }
                        return Err(DecodeError::BadField(k.to_owned()));
                    },
                }
                i += 1;
            }
            Ok(Some(out))
        },
        Some(_) => Err(DecodeError::BadField(k.to_owned())),
    }
}

/// Looks a field up and copies its raw value, shape and all.
pub(crate) fn get_value(ms: &Vec<Member>, k: &str) -> (r: Option<Value>)
    ensures
        opt_value_rel(lookup(ms@, k@), r),
{
    match crate::value::obj_get(ms, k) {
        None => None,
        Some(v) => Some(v.clone()),
    }
}

/// Looks a field up and copies its raw list elementwise.
fn get_value_vec(ms: &Vec<Member>, k: &str) -> (r: Result<Option<Vec<Value>>, DecodeError>)
    ensures
        r matches Ok(d) ==> value_vec_rel(lookup(ms@, k@), d),
        r is Ok <==> list_ok(lookup(ms@, k@)),
        r matches Err(e) ==> e matches DecodeError::BadField(f) && f@ == k@,
{
    match crate::value::obj_get(ms, k) {
        None => Ok(None),
        Some(Value::List(vs)) => {
            let mut out: Vec<Value> = Vec::new();
            let mut i: usize = 0;
            while i < vs.len()
                invariant
                    i <= vs@.len(),
                    out@.len() == i,
                    forall|j: int| 0 <= j < i ==> (#[trigger] out@[j]).gv() == vs@[j].gv(),
                decreases vs@.len() - i,
            {
                out.push(vs[i].clone());
                i += 1;
            }
            Ok(Some(out))
        },
        Some(_) => Err(DecodeError::BadField(k.to_owned())),
    }
}

/// Whether the key carries the reserved extension prefix.
fn is_ext_key_exec(k: &str) -> (r: bool)
    ensures
        r == is_ext_key(k@),
{
    if k.unicode_len() < 2 {
        return false;
    }
    k.get_char(0) == 'x' && k.get_char(1) == '-'
}

/// Every captured extension stands somewhere among the members.
proof fn lemma_ext_of_members(ms: Seq<Member>)
    ensures
        forall|i: int|
            0 <= i < ext_of(ms).len() ==> exists|j: int|
                0 <= j < ms.len() && ms[j] == #[trigger] ext_of(ms)[i],
    decreases ms,
{
    if ms.len() > 0 {
        lemma_ext_of_members(ms.drop_last());
        assert forall|i: int| 0 <= i < ext_of(ms).len() implies exists|j: int|
            0 <= j < ms.len() && ms[j] == #[trigger] ext_of(ms)[i] by {
            if i < ext_of(ms.drop_last()).len() {
                let j = choose|j: int|
                    0 <= j < ms.drop_last().len() && ms.drop_last()[j] == ext_of(ms.drop_last())[i];
                assert(ms[j] == ext_of(ms)[i]);
            } else {
                assert(ms[ms.len() - 1] == ext_of(ms)[i]);
            }
        }
    }
}

/// Captures the members whose keys carry the extension prefix, in order;
/// a repeated key keeps its first value.
#[verifier::loop_isolation(false)]
pub(crate) fn capture_extensions(ms: &Vec<Member>) -> (r: StringMap<Value>)
    ensures
        ext_rel(ms@, r),
{
    let mut out: StringMap<Value> = StringMap::new();
    let mut i: usize = 0;
    while i < ms.len()
        invariant
            i <= ms@.len(),
            out.wf(),
            unique_keys(ms@) ==> {
                &&& out.spec_len() == ext_of(ms@.take(i as int)).len()
                &&& forall|j: int|
                    0 <= j < out.spec_len() ==> #[trigger] out.key_at(j) == ext_of(
                        ms@.take(i as int),
                    )[j].name@ && out.value_at(j).gv() == ext_of(ms@.take(i as int))[j].value.gv()
            },
        decreases ms@.len() - i,
    {
        let ghost pre = out.entries@;
        proof {
            assert(ms@.take(i as int + 1).drop_last() =~= ms@.take(i as int));
            assert(ms@.take(i as int + 1).last() == ms@[i as int]);
            if unique_keys(ms@) {
                assert(pre.len() == ext_of(ms@.take(i as int)).len());
                assert forall|j: int| 0 <= j < pre.len() implies (#[trigger] pre[j]).key@
                    == ext_of(ms@.take(i as int))[j].name@ && pre[j].value.gv() == ext_of(
                    ms@.take(i as int),
                )[j].value.gv() by {
                    assert(out.key_at(j) == ext_of(ms@.take(i as int))[j].name@ && out.value_at(
                        j,
                    ).gv() == ext_of(ms@.take(i as int))[j].value.gv());
                }
            }
        }
        if is_ext_key_exec(ms[i].name.as_str()) {
            if !out.contains_key(ms[i].name.as_str()) {
                out.insert(ms[i].name.clone(), ms[i].value.clone());
            } else {
                proof {
                    // Only a repeated member key can already be bound.
                    if unique_keys(ms@) {
                        out.lemma_contains_at(ms@[i as int].name@);
                        let j = choose|j: int|
                            0 <= j < out.spec_len() && out.key_at(j) == ms@[i as int].name@
                                && out.spec_get(ms@[i as int].name@) == Some(out.value_at(j));
                        lemma_ext_of_members(ms@.take(i as int));
                        let l = choose|l: int|
                            0 <= l < ms@.take(i as int).len() && ms@.take(i as int)[l] == ext_of(
                                ms@.take(i as int),
                            )[j];
                        assert(ms@[l].name@ == ms@[i as int].name@);
                        assert(false);
                    }
                }
            }
        }
        proof {
            if unique_keys(ms@) {
                let taken = ext_of(ms@.take(i as int + 1));
                assert(out.spec_len() == taken.len());
                assert forall|j: int| 0 <= j < out.spec_len() implies #[trigger] out.key_at(j)
                    == taken[j].name@ && out.value_at(j).gv() == taken[j].value.gv() by {
                    if j < pre.len() {
                        assert(pre[j].key@ == ext_of(ms@.take(i as int))[j].name@ && pre[j].value.gv()
                            == ext_of(ms@.take(i as int))[j].value.gv());
                        assert(out.entries@[j] == pre[j]);
                    }
                }
            }
        }
        i += 1;
    }
    proof {
        assert(ms@.take(ms@.len() as int) =~= ms@);
    }
    out
}

/// Looks the external-documentation field up and decodes it.
fn get_extdocs(ms: &Vec<Member>) -> (r: Result<Option<ExternalDocumentation>, DecodeError>)
    ensures
        r matches Ok(d) ==> extdocs_rel(lookup(ms@, "externalDocs"@), d),
        r is Ok <==> extdocs_ok(lookup(ms@, "externalDocs"@)),
        r matches Err(e) ==> e matches DecodeError::BadField(f) && f@ == "externalDocs"@,
{
    match crate::value::obj_get(ms, "externalDocs") {
        None => Ok(None),
        Some(Value::Object(ems)) => {
            let url = match crate::value::obj_get(ems, "url") {
                Some(Value::Text(u)) => u.clone(),
                _ => {
                    return Err(DecodeError::BadField("externalDocs".to_owned()));
                },
            };
            let description = match get_text(ems, "description") {
                Ok(d) => d,
                Err(_) => {
                    return Err(DecodeError::BadField("externalDocs".to_owned()));
                },
            };
            Ok(Some(ExternalDocumentation { description, url }))
        },
        Some(_) => Err(DecodeError::BadField("externalDocs".to_owned())),
    }
}

/// Looks the discriminator field up and decodes it.
fn get_discriminator(ms: &Vec<Member>) -> (r: Result<Option<Discriminator>, DecodeError>)
    ensures
        r matches Ok(d) ==> discriminator_rel(lookup(ms@, "discriminator"@), d),
        r is Ok <==> discriminator_ok(lookup(ms@, "discriminator"@)),
        r matches Err(e) ==> e matches DecodeError::BadField(f) && f@ == "discriminator"@,
{
    match crate::value::obj_get(ms, "discriminator") {
        None => Ok(None),
        Some(Value::Object(dms)) => {
            let property_name = match crate::value::obj_get(dms, "propertyName") {
                Some(Value::Text(p)) => p.clone(),
                _ => {
                    return Err(DecodeError::BadField("discriminator".to_owned()));
                },
            };
            let mut mapping: StringMap<String> = StringMap::new();
            match crate::value::obj_get(dms, "mapping") {
                None => (),
                Some(Value::Object(mms)) => {
                    let mut i: usize = 0;
                    while i < mms.len()
                        invariant
                            i <= mms@.len(),
                            mapping.wf(),
                            lookup(ms@, "discriminator"@) == Some(Value::Object(*dms)),
                            lookup(dms@, "mapping"@) == Some(Value::Object(*mms)),
                            forall|j: int|
                                0 <= j < i ==> ((#[trigger] mms@[j]).value) is Text,
                            unique_keys(mms@) ==> {
                                &&& mapping.spec_len() == i
                                &&& forall|j: int|
                                    0 <= j < i ==> #[trigger] mapping.key_at(j) == mms@[j].name@
                                        && (mms@[j].value matches Value::Text(s)
                                        && mapping.value_at(j) == s)
                            },
                        decreases mms@.len() - i,
                    {
                        let ghost m0 = mapping;
                        match &mms[i].value {
                            Value::Text(sv) => {
                                if !mapping.contains_key(mms[i].name.as_str()) {
                                    mapping.insert(mms[i].name.clone(), sv.clone());
                                } else {
                                    proof {
                                        if unique_keys(mms@) {
                                            mapping.lemma_contains_at(mms@[i as int].name@);
                                            let j = choose|j: int|
                                                0 <= j < mapping.spec_len() && mapping.key_at(j)
                                                    == mms@[i as int].name@ && mapping.spec_get(
                                                    mms@[i as int].name@,
                                                ) == Some(mapping.value_at(j));
                                            assert(mms@[j].name@ == mms@[i as int].name@);
                                            assert(false);
                                        }
                                    }
                                }
                            },
                            _ => {
                                proof {
                                    assert(!((mms@[i as int].value) is Text));
                                }
                                return Err(DecodeError::BadField("discriminator".to_owned()));
                            },
                        }
                        proof {
                            if unique_keys(mms@) {
                                assert(mapping.spec_len() == i + 1);
                                assert(mapping.key_at(i as int) == mms@[i as int].name@);
                                assert(mms@[i as int].value matches Value::Text(s)
                                    && mapping.value_at(i as int) == s);
                                assert forall|j: int| 0 <= j < i implies #[trigger] mapping.key_at(
                                    j,
                                ) == mms@[j].name@ && (mms@[j].value matches Value::Text(s)
                                    && mapping.value_at(j) == s) by {
                                    assert(m0.key_at(j) == mms@[j].name@ && (mms@[j].value
                                        matches Value::Text(s) && m0.value_at(j) == s));
                                    assert(mapping.entries@[j] == m0.entries@[j]);
                                }
                            }
                        }
                        i += 1;
                    }
                },
                Some(_) => {
                    return Err(DecodeError::BadField("discriminator".to_owned()));
                },
            }
            Ok(Some(Discriminator { property_name, mapping }))
        },
        Some(_) => Err(DecodeError::BadField("discriminator".to_owned())),
    }
}


/// What a schema decode error looks like: a value that is no object is
/// reported as such, and a broken field somewhere in an object is reported
/// under that field's own name.  A failing inline item hands its own error
/// through unchanged: there is no catch-all "no variant matched" report.
pub open spec fn decode_err_shape(v: Value, e: DecodeError) -> bool {
    &&& (e is ExpectedObject || e is BadField)
    &&& (!(v is Object) ==> e is ExpectedObject)
    &&& (v is Object && e is ExpectedObject ==> !schema_decode_ok(v))
}

/// Decodes a value as a pointer or an inline schema: the pointer exactly
/// when the value is an object holding nothing but the pointer field.
pub fn decode_schema_ref(v: &Value) -> (r: Result<ReferenceOr<Schema>, DecodeError>)
    ensures
        r is Ok <==> schema_ref_ok(*v),
        r matches Ok(d) ==> schema_ref_rel(*v, d),
        r matches Err(e) ==> !gv_is_reference(v.gv()) && decode_err_shape(*v, e),
    decreases v, 5int,
{
    match as_reference(v) {
        Some(reference) => Ok(ReferenceOr::Reference { reference }),
        None => match decode_schema(v) {
            Ok(s) => Ok(ReferenceOr::Item(s)),
            Err(e) => Err(e),
        },
    }
}

/// Decodes a value as a pointer or a boxed inline schema.
pub fn decode_boxed_schema_ref(v: &Value) -> (r: Result<ReferenceOr<Box<Schema>>, DecodeError>)
    ensures
        r is Ok <==> schema_ref_ok(*v),
        r matches Ok(d) ==> boxed_ref_rel(*v, d),
        r matches Err(e) ==> !gv_is_reference(v.gv()) && decode_err_shape(*v, e),
    decreases v, 6int,
{
    match as_reference(v) {
        Some(reference) => Ok(ReferenceOr::Reference { reference }),
        None => match decode_schema(v) {
            Ok(s) => Ok(ReferenceOr::Item(Box::new(s))),
            Err(e) => Err(e),
        },
    }
}

/// Decodes a combinator field: a sequence of pointer-or-schemas.
fn decode_ref_list(p: &Value, k: &str) -> (r: Result<Vec<ReferenceOr<Schema>>, DecodeError>)
    ensures
        r is Ok <==> (p matches Value::List(vs) && forall|i: int|
            0 <= i < vs@.len() ==> schema_ref_ok(#[trigger] vs@[i])),
        r matches Ok(d) ==> p matches Value::List(vs) && d@.len() == vs@.len() && forall|i: int|
            0 <= i < vs@.len() ==> schema_ref_rel(#[trigger] vs@[i], d@[i]),
        r matches Err(e) ==> e is ExpectedObject || e is BadField,
    decreases p, 7int,
{
    match p {
        Value::List(vs) => {
            let mut out: Vec<ReferenceOr<Schema>> = Vec::new();
            let mut i: usize = 0;
            while i < vs.len()
                invariant
                    i <= vs@.len(),
                    out@.len() == i,
                    *p == Value::List(*vs),
                    forall|j: int|
                        0 <= j < i ==> schema_ref_ok(#[trigger] vs@[j]) && schema_ref_rel(
                            vs@[j],
                            out@[j],
                        ),
                decreases vs@.len() - i,
            {
                proof {
                    assert(decreases_to!(*p => p->List_0));
                    assert(p->List_0 == *vs);
                    vstd::std_specs::vec::axiom_vec_index_decreases(*vs, i as int);
                }
                match decode_schema_ref(&vs[i]) {
                    Ok(d) => out.push(d),
                    Err(e) => {
                        proof {
                            assert(!schema_ref_ok(vs@[i as int]));
                        }
                        return Err(e);
                    },
                }
                i += 1;
            }
            Ok(out)
        },
        _ => Err(DecodeError::BadField(k.to_owned())),
    }
}

/// Decodes a property map: names bound to pointer-or-schemas, in order; a
/// repeated name keeps its first binding.
#[verifier::spinoff_prover]
fn decode_props(p: &Value) -> (r: Result<StringMap<ReferenceOr<Box<Schema>>>, DecodeError>)
    ensures
        r is Ok <==> (p matches Value::Object(pms) && forall|i: int|
            0 <= i < pms@.len() ==> schema_ref_ok((#[trigger] pms@[i]).value)),
        r matches Ok(m) ==> p matches Value::Object(pms) && m.wf() && (unique_keys(pms@) ==> {
            &&& m.spec_len() == pms@.len()
            &&& forall|i: int|
                0 <= i < pms@.len() ==> #[trigger] m.key_at(i) == pms@[i].name@ && boxed_ref_rel(
                    pms@[i].value,
                    m.value_at(i),
                )
        }),
        r matches Err(e) ==> e is ExpectedObject || e is BadField,
    decreases p, 7int,
{
    match p {
        Value::Object(pms) => {
            let mut out: StringMap<ReferenceOr<Box<Schema>>> = StringMap::new();
            let mut i: usize = 0;
            while i < pms.len()
                invariant
                    i <= pms@.len(),
                    out.wf(),
                    *p == Value::Object(*pms),
                    forall|j: int| 0 <= j < i ==> schema_ref_ok((#[trigger] pms@[j]).value),
                    unique_keys(pms@) ==> {
                        &&& out.spec_len() == i
                        &&& forall|j: int|
                            0 <= j < i ==> #[trigger] out.key_at(j) == pms@[j].name@
                                && boxed_ref_rel(pms@[j].value, out.value_at(j))
                    },
                decreases pms@.len() - i,
            {
                proof {
                    assert(decreases_to!(*p => p->Object_0));
                    assert(p->Object_0 == *pms);
                    vstd::std_specs::vec::axiom_vec_index_decreases(*pms, i as int);
                    assert(decreases_to!(pms@[i as int] => pms@[i as int].value));
                }
                let ghost pre = out.entries@;
                let d = match decode_boxed_schema_ref(&pms[i].value) {
                    Ok(d) => d,
                    Err(e) => {
                        proof {
                            assert(!schema_ref_ok(pms@[i as int].value));
                        }
                        return Err(e);
                    },
                };
                proof {
                    if unique_keys(pms@) {
                        assert forall|j: int| 0 <= j < pre.len() implies (#[trigger] pre[j]).key@
                            == pms@[j].name@ && boxed_ref_rel(pms@[j].value, pre[j].value) by {
                            assert(out.key_at(j) == pms@[j].name@ && boxed_ref_rel(
                                pms@[j].value,
                                out.value_at(j),
                            ));
                        }
                    }
                }
                if !out.contains_key(pms[i].name.as_str()) {
                    out.insert(pms[i].name.clone(), d);
                } else {
                    proof {
                        if unique_keys(pms@) {
                            out.lemma_contains_at(pms@[i as int].name@);
                            let j = choose|j: int|
                                0 <= j < out.spec_len() && out.key_at(j) == pms@[i as int].name@
                                    && out.spec_get(pms@[i as int].name@) == Some(out.value_at(j));
                            assert(pms@[j].name@ == pms@[i as int].name@);
                            assert(false);
                        }
                    }
                }
                proof {
                    if unique_keys(pms@) {
                        assert(out.spec_len() == i + 1);
                        assert forall|j: int| 0 <= j < i + 1 implies #[trigger] out.key_at(j)
                            == pms@[j].name@ && boxed_ref_rel(pms@[j].value, out.value_at(j)) by {
                            if j < pre.len() {
                                assert(pre[j].key@ == pms@[j].name@ && boxed_ref_rel(
                                    pms@[j].value,
                                    pre[j].value,
                                ));
                                assert(out.entries@[j] == pre[j]);
                            }
                        }
                    }
                }
                i += 1;
            }
            Ok(out)
        },
        _ => Err(DecodeError::BadField("properties".to_owned())),
    }
}

/// Decodes the additional-properties policy: a bare flag, or a
/// pointer-or-schema.
fn decode_additional(p: &Value) -> (r: Result<AdditionalProperties, DecodeError>)
    ensures
        r is Ok <==> (p is Bool || schema_ref_ok(*p)),
        r matches Ok(ap) ==> match ap {
            AdditionalProperties::Any(b) => p matches Value::Bool(pb) && b == pb,
            AdditionalProperties::Schema(bx) => !(*p is Bool) && schema_ref_rel(*p, *bx),
        },
        r matches Err(e) ==> e is ExpectedObject || e is BadField,
    decreases p, 7int,
{
    match p {
        Value::Bool(b) => Ok(AdditionalProperties::Any(*b)),
        _ => match decode_schema_ref(p) {
            Ok(d) => Ok(AdditionalProperties::Schema(Box::new(d))),
            Err(e) => Err(e),
        },
    }
}

/// Decodes one schema node: extracts the shared data and the superset
/// record of every recognized field, then classifies the record into
/// exactly one kind.  Unknown fields with the extension prefix are
/// captured; other unknown fields are dropped.  The decode fails exactly
/// when the value is no object or some recognized field holds a value of
/// the wrong kind.
#[verifier::rlimit(100)]
#[verifier::spinoff_prover]
pub fn decode_schema(v: &Value) -> (r: Result<Schema, DecodeError>)
    ensures
        r is Ok <==> schema_decode_ok(*v),
        r matches Ok(s) ==> schema_decodes(*v, s),
        r matches Err(e) ==> decode_err_shape(*v, e),
    decreases v, 4int,
{
    let ms = match v {
        Value::Object(ms) => ms,
        _ => {
            return Err(DecodeError::ExpectedObject);
        },
    };
    proof {
        assert(decreases_to!(*v => v->Object_0));
        assert(v->Object_0 == *ms);
        schema_exec_subvalues_decrease(v, *ms);
    }
    let nullable = get_flag(ms, "nullable")?;
    let read_only = get_flag(ms, "readOnly")?;
    let write_only = get_flag(ms, "writeOnly")?;
    let deprecated = get_flag(ms, "deprecated")?;
    let external_docs = get_extdocs(ms)?;
    let example = get_value(ms, "example");
    let title = get_text(ms, "title")?;
    let description = get_text(ms, "description")?;
    let discriminator = get_discriminator(ms)?;
    let default = get_value(ms, "default");
    let extensions = capture_extensions(ms);

    let typ = get_text(ms, "type")?;
    let pattern = get_text(ms, "pattern")?;
    let multiple_of = get_num(ms, "multipleOf")?;
    let exclusive_minimum = get_opt_bool(ms, "exclusiveMinimum")?;
    let exclusive_maximum = get_opt_bool(ms, "exclusiveMaximum")?;
    let minimum = get_num(ms, "minimum")?;
    let maximum = get_num(ms, "maximum")?;
    let properties = match crate::value::obj_get(ms, "properties") {
        None => None,
        Some(p) => Some(decode_props(p)?),
    };
    let required = get_text_vec(ms, "required")?;
    let additional_properties = match crate::value::obj_get(ms, "additionalProperties") {
        None => None,
        Some(p) => Some(decode_additional(p)?),
    };
    let min_properties = get_size(ms, "minProperties")?;
    let max_properties = get_size(ms, "maxProperties")?;
    let items = match crate::value::obj_get(ms, "items") {
        None => None,
        Some(p) => Some(decode_boxed_schema_ref(p)?),
    };
    let min_items = get_size(ms, "minItems")?;
    let max_items = get_size(ms, "maxItems")?;
    let unique_items = get_opt_bool(ms, "uniqueItems")?;
    let enumeration = get_value_vec(ms, "enum")?;
    let format = get_text(ms, "format")?;
    let min_length = get_size(ms, "minLength")?;
    let max_length = get_size(ms, "maxLength")?;
    let one_of = match crate::value::obj_get(ms, "oneOf") {
        None => None,
        Some(p) => Some(decode_ref_list(p, "oneOf")?),
    };
    let all_of = match crate::value::obj_get(ms, "allOf") {
        None => None,
        Some(p) => Some(decode_ref_list(p, "allOf")?),
    };
    let any_of = match crate::value::obj_get(ms, "anyOf") {
        None => None,
        Some(p) => Some(decode_ref_list(p, "anyOf")?),
    };
    let not = match crate::value::obj_get(ms, "not") {
        None => None,
        Some(p) => Some(Box::new(decode_schema_ref(p)?)),
    };

    let raw = RawSchema {
        typ,
        pattern,
        multiple_of,
        exclusive_minimum,
        exclusive_maximum,
        minimum,
        maximum,
        properties,
        required,
        additional_properties,
        min_properties,
        max_properties,
        items,
        min_items,
        max_items,
        unique_items,
        enumeration,
        format,
        min_length,
        max_length,
        one_of,
        all_of,
        any_of,
        not,
    };
    let ghost graw = raw;
    let schema_kind = classify(raw);
    let schema_data = SchemaData {
        nullable,
        read_only,
        write_only,
        deprecated,
        external_docs,
        example,
        title,
        description,
        discriminator,
        default,
        extensions,
    };
    proof {
        assert(raw_rel(*v, graw)) by {
            assert(text_rel(lookup(ms@, "type"@), graw.typ));
            assert(text_rel(lookup(ms@, "pattern"@), graw.pattern));
            assert(opt_num_rel(lookup(ms@, "multipleOf"@), graw.multiple_of));
            assert(opt_bool_rel(lookup(ms@, "exclusiveMinimum"@), graw.exclusive_minimum));
            assert(opt_bool_rel(lookup(ms@, "exclusiveMaximum"@), graw.exclusive_maximum));
            assert(opt_num_rel(lookup(ms@, "minimum"@), graw.minimum));
            assert(opt_num_rel(lookup(ms@, "maximum"@), graw.maximum));
            assert(text_vec_rel(lookup(ms@, "required"@), graw.required));
            assert(opt_size_rel(lookup(ms@, "minProperties"@), graw.min_properties));
            assert(opt_size_rel(lookup(ms@, "maxProperties"@), graw.max_properties));
            assert(opt_size_rel(lookup(ms@, "minItems"@), graw.min_items));
            assert(opt_size_rel(lookup(ms@, "maxItems"@), graw.max_items));
            assert(opt_bool_rel(lookup(ms@, "uniqueItems"@), graw.unique_items));
            assert(value_vec_rel(lookup(ms@, "enum"@), graw.enumeration));
            assert(text_rel(lookup(ms@, "format"@), graw.format));
            assert(opt_size_rel(lookup(ms@, "minLength"@), graw.min_length));
            assert(opt_size_rel(lookup(ms@, "maxLength"@), graw.max_length));
        }
        assert(classify_rel(graw, schema_kind));
        assert(schema_decode_ok(*v));
        assert(data_rel(ms@, schema_data)) by {
            assert(flag_rel(lookup(ms@, "nullable"@), schema_data.nullable));
            assert(flag_rel(lookup(ms@, "readOnly"@), schema_data.read_only));
            assert(flag_rel(lookup(ms@, "writeOnly"@), schema_data.write_only));
            assert(flag_rel(lookup(ms@, "deprecated"@), schema_data.deprecated));
            assert(extdocs_rel(lookup(ms@, "externalDocs"@), schema_data.external_docs));
            assert(opt_value_rel(lookup(ms@, "example"@), schema_data.example));
            assert(text_rel(lookup(ms@, "title"@), schema_data.title));
            assert(text_rel(lookup(ms@, "description"@), schema_data.description));
            assert(discriminator_rel(lookup(ms@, "discriminator"@), schema_data.discriminator));
            assert(opt_value_rel(lookup(ms@, "default"@), schema_data.default));
            assert(ext_rel(ms@, schema_data.extensions));
        }
        lemma_assemble_schema(
            *v,
            *ms,
            graw,
            Schema { schema_data, schema_kind },
        );
    }
    Ok(Schema { schema_data, schema_kind })
}

/// A decoded data block and a classified record assemble into the decoding
/// relation for the whole node.
proof fn lemma_assemble_schema(v: Value, ms: Vec<Member>, graw: RawSchema, s: Schema)
    requires
        v == Value::Object(ms),
        data_rel(ms@, s.schema_data),
        raw_rel(v, graw),
        classify_rel(graw, s.schema_kind),
    ensures
        schema_decodes(v, s),
{
    lemma_compose_kind(v, ms, graw, s.schema_kind);
}

/// Two values of the same shape are the same kind of value, with equal
/// payloads where the payload is scalar and equal characters where it is a
/// string.
proof fn lemma_gv_same_variant(a: Value, b: Value)
    requires
        a.gv() == b.gv(),
    ensures
        a is Null <==> b is Null,
        a is Bool <==> b is Bool,
        a is Num <==> b is Num,
        a is Text <==> b is Text,
        a is List <==> b is List,
        a is Object <==> b is Object,
        a matches Value::Num(n) ==> b == Value::Num(n),
        a matches Value::Bool(x) ==> b == Value::Bool(x),
        forall|s1: String, s2: String|
            a == Value::Text(s1) && b == Value::Text(s2) ==> s1@ == s2@,
{
}

/// A field set and its extracted record pick the same resolver case, and
/// the classified kind then satisfies the field-level correspondence.
#[verifier::rlimit(100)]
#[verifier::spinoff_prover]
proof fn lemma_compose_kind(v: Value, ms: Vec<Member>, graw: RawSchema, k: SchemaKind)
    requires
        v == Value::Object(ms),
        raw_rel(v, graw),
        classify_rel(graw, k),
    ensures
        kind_rel(v, k),
{
    // The field shapes agree between the object and the extracted record.
    assert(vtyp_is(ms@, "string"@) == crate::kind::typ_is(graw, "string"@));
    assert(vtyp_is(ms@, "number"@) == crate::kind::typ_is(graw, "number"@));
    assert(vtyp_is(ms@, "integer"@) == crate::kind::typ_is(graw, "integer"@));
    assert(vtyp_is(ms@, "boolean"@) == crate::kind::typ_is(graw, "boolean"@));
    assert(vtyp_is(ms@, "object"@) == crate::kind::typ_is(graw, "object"@));
    assert(vtyp_is(ms@, "array"@) == crate::kind::typ_is(graw, "array"@));
    assert(vno_object_fields(ms@) == crate::kind::no_object_fields(graw));
    assert(vno_array_fields(ms@) == crate::kind::no_array_fields(graw));
    assert(vno_number_fields(ms@) == crate::kind::no_number_fields(graw));
    assert(vno_string_fields(ms@) == crate::kind::no_string_fields(graw));
    assert(vno_combinators(ms@) == crate::kind::no_combinators(graw));
    assert(vnum_int(ms@, "multipleOf"@) == crate::kind::none_or_int_spec(graw.multiple_of));
    assert(vnum_int(ms@, "minimum"@) == crate::kind::none_or_int_spec(graw.minimum));
    assert(vnum_int(ms@, "maximum"@) == crate::kind::none_or_int_spec(graw.maximum));
    lemma_enum_shapes(v, ms, graw);

    let lk = lookup(ms@, "enum"@);
    if vshape_string(ms@) {
        match k {
            SchemaKind::Type(Type::String(st)) => {
                assert(venum_strings_rel(ms@, st.enumeration@)) by {
                    match lk {
                        Some(e) => {
                            match (e, graw.enumeration) {
                                (Value::List(vs), Some(ds)) => {
                                    assert forall|i: int| 0 <= i < vs@.len() implies {
                                        &&& ((#[trigger] vs@[i]) is Null ==> st.enumeration@[i]
                                            is None)
                                        &&& (vs@[i] matches Value::Text(sx)
                                            ==> st.enumeration@[i] matches Some(d) && d@ == sx@)
                                    } by {
                                        lemma_gv_same_variant(ds@[i], vs@[i]);
                                    }
                                },
                                _ => (),
                            }
                        },
                        None => (),
                    }
                }
            },
            _ => (),
        }
    } else if vshape_number(ms@) {
        match k {
            SchemaKind::Type(Type::Number(nt)) => {
                assert(venum_numbers_rel(ms@, nt.enumeration@)) by {
                    match lk {
                        Some(e) => {
                            match (e, graw.enumeration) {
                                (Value::List(vs), Some(ds)) => {
                                    assert forall|i: int| 0 <= i < vs@.len() implies {
                                        &&& ((#[trigger] vs@[i]) is Null ==> nt.enumeration@[i]
                                            is None)
                                        &&& (vs@[i] matches Value::Num(n) ==> nt.enumeration@[i]
                                            == Some(n))
                                    } by {
                                        lemma_gv_same_variant(ds@[i], vs@[i]);
                                    }
                                },
                                _ => (),
                            }
                        },
                        None => (),
                    }
                }
            },
            _ => (),
        }
    } else if vshape_integer(ms@) {
        match k {
            SchemaKind::Type(Type::Integer(it)) => {
                assert(venum_ints_rel(ms@, it.enumeration@)) by {
                    match lk {
                        Some(e) => {
                            match (e, graw.enumeration) {
                                (Value::List(vs), Some(ds)) => {
                                    assert forall|i: int| 0 <= i < vs@.len() implies {
                                        &&& ((#[trigger] vs@[i]) is Null ==> it.enumeration@[i]
                                            is None)
                                        &&& (vs@[i] matches Value::Num(n) ==> it.enumeration@[i]
                                            == Some(n->Int_0))
                                    } by {
                                        lemma_gv_same_variant(ds@[i], vs@[i]);
                                    }
                                },
                                _ => (),
                            }
                        },
                        None => (),
                    }
                }
            },
            _ => (),
        }
    } else if vshape_boolean(ms@) {
        match k {
            SchemaKind::Type(Type::Boolean(bt)) => {
                assert(venum_bools_rel(ms@, bt.enumeration@)) by {
                    match lk {
                        Some(e) => {
                            match (e, graw.enumeration) {
                                (Value::List(vs), Some(ds)) => {
                                    assert forall|i: int| 0 <= i < vs@.len() implies {
                                        &&& ((#[trigger] vs@[i]) is Null ==> bt.enumeration@[i]
                                            is None)
                                        &&& (vs@[i] matches Value::Bool(b) ==> bt.enumeration@[i]
                                            == Some(b))
                                    } by {
                                        lemma_gv_same_variant(ds@[i], vs@[i]);
                                    }
                                },
                                _ => (),
                            }
                        },
                        None => (),
                    }
                }
            },
            _ => (),
        }
    } else if vshape_object(ms@) {
        match k {
            SchemaKind::Type(Type::Object(ot)) => {
                lemma_props_substitute(v, ms, graw, ot.properties);
            },
            _ => (),
        }
    } else if vshape_array(ms@) {
    } else if vshape_one_of(ms@) {
    } else if vshape_all_of(ms@) {
    } else if vshape_any_of(ms@) {
    } else if vshape_not(ms@) {
    } else {
        match k {
            SchemaKind::Any(a) => {
                lemma_props_substitute(v, ms, graw, a.properties);
                assert(match lookup(ms@, "enum"@) {
                    None => a.enumeration@.len() == 0,
                    Some(p) => p matches Value::List(vs) && a.enumeration@.len() == vs@.len()
                        && forall|i: int|
                        0 <= i < vs@.len() ==> (#[trigger] a.enumeration@[i]).gv()
                            == vs@[i].gv(),
                });
            },
            _ => (),
        }
    }
}

/// The enumeration shape checks agree between the object and its record.
proof fn lemma_enum_shapes(v: Value, ms: Vec<Member>, graw: RawSchema)
    requires
        v == Value::Object(ms),
        raw_rel(v, graw),
    ensures
        venum_strings(ms@) == crate::kind::enum_all_strings(graw.enumeration),
        venum_numbers(ms@) == crate::kind::enum_all_numbers(graw.enumeration),
        venum_ints(ms@) == crate::kind::enum_all_ints(graw.enumeration),
        venum_bools(ms@) == crate::kind::enum_all_bools(graw.enumeration),
{
    match lookup(ms@, "enum"@) {
        None => (),
        Some(e) => {
            match (e, graw.enumeration) {
                (Value::List(vs), Some(ds)) => {
                    assert forall|i: int| 0 <= i < vs@.len() implies {
                        &&& string_entry(vs@[i]) == string_entry(#[trigger] ds@[i])
                        &&& number_entry(vs@[i]) == number_entry(ds@[i])
                        &&& integer_entry(vs@[i]) == integer_entry(ds@[i])
                        &&& boolean_entry(vs@[i]) == boolean_entry(ds@[i])
                    } by {
                        lemma_gv_same_variant(ds@[i], vs@[i]);
                        match (ds@[i], vs@[i]) {
                            (Value::Num(n1), Value::Num(n2)) => {
                                assert(n1 == n2);
                            },
                            _ => (),
                        }
                    }
                    assert(venum_strings(ms@) == crate::kind::enum_all_strings(
                        graw.enumeration,
                    )) by {
                        if venum_strings(ms@) {
                            assert forall|i: int| 0 <= i < ds@.len() implies string_entry(
                                #[trigger] ds@[i],
                            ) by {
                                assert(string_entry(vs@[i]));
                            }
                        }
                        if crate::kind::enum_all_strings(graw.enumeration) {
                            assert forall|i: int| 0 <= i < vs@.len() implies string_entry(
                                #[trigger] vs@[i],
                            ) by {
                                assert(string_entry(ds@[i]));
                            }
                        }
                    }
                    assert(venum_numbers(ms@) == crate::kind::enum_all_numbers(
                        graw.enumeration,
                    )) by {
                        if venum_numbers(ms@) {
                            assert forall|i: int| 0 <= i < ds@.len() implies number_entry(
                                #[trigger] ds@[i],
                            ) by {
                                assert(number_entry(vs@[i]));
                            }
                        }
                        if crate::kind::enum_all_numbers(graw.enumeration) {
                            assert forall|i: int| 0 <= i < vs@.len() implies number_entry(
                                #[trigger] vs@[i],
                            ) by {
                                assert(number_entry(ds@[i]));
                            }
                        }
                    }
                    assert(venum_ints(ms@) == crate::kind::enum_all_ints(graw.enumeration)) by {
                        if venum_ints(ms@) {
                            assert forall|i: int| 0 <= i < ds@.len() implies integer_entry(
                                #[trigger] ds@[i],
                            ) by {
                                assert(integer_entry(vs@[i]));
                            }
                        }
                        if crate::kind::enum_all_ints(graw.enumeration) {
                            assert forall|i: int| 0 <= i < vs@.len() implies integer_entry(
                                #[trigger] vs@[i],
                            ) by {
                                assert(integer_entry(ds@[i]));
                            }
                        }
                    }
                    assert(venum_bools(ms@) == crate::kind::enum_all_bools(graw.enumeration)) by {
                        if venum_bools(ms@) {
                            assert forall|i: int| 0 <= i < ds@.len() implies boolean_entry(
                                #[trigger] ds@[i],
                            ) by {
                                assert(boolean_entry(vs@[i]));
                            }
                        }
                        if crate::kind::enum_all_bools(graw.enumeration) {
                            assert forall|i: int| 0 <= i < vs@.len() implies boolean_entry(
                                #[trigger] vs@[i],
                            ) by {
                                assert(boolean_entry(ds@[i]));
                            }
                        }
                    }
                },
                _ => (),
            }
        },
    }
}

/// A property map equal to the record's extracted one, or empty where the
/// field is absent, satisfies the field-level property correspondence.
proof fn lemma_props_substitute(
    v: Value,
    ms: Vec<Member>,
    graw: RawSchema,
    m: StringMap<ReferenceOr<Box<Schema>>>,
)
    requires
        v == Value::Object(ms),
        raw_rel(v, graw),
        match graw.properties {
            Some(gm) => m == gm,
            None => m.spec_len() == 0,
        },
    ensures
        vprops_rel(v, m),
{
    match lookup(ms@, "properties"@) {
        None => {
            assert(m.spec_len() == 0);
            assert(m.wf());
        },
        Some(p) => {
            match (p, graw.properties) {
                (Value::Object(pms), Some(gm)) => {
                    assert(m == gm);
                    if unique_keys(pms@) {
                        assert forall|i: int| 0 <= i < pms@.len() implies #[trigger] m.key_at(i)
                            == pms@[i].name@ && boxed_ref_rel(pms@[i].value, m.value_at(i)) by {
                            assert(gm.key_at(i) == pms@[i].name@ && boxed_ref_rel(
                                pms@[i].value,
                                gm.value_at(i),
                            ));
                        }
                    }
                },
                _ => (),
            }
        },
    }
}

/// Every recursive field value of the object stands strictly below it.
proof fn schema_exec_subvalues_decrease(v: &Value, ms: Vec<Member>)
    requires
        *v == Value::Object(ms),
    ensures
        lookup(ms@, "properties"@) matches Some(p) ==> decreases_to!(*v => p),
        lookup(ms@, "additionalProperties"@) matches Some(p) ==> decreases_to!(*v => p),
        lookup(ms@, "items"@) matches Some(p) ==> decreases_to!(*v => p),
        lookup(ms@, "oneOf"@) matches Some(p) ==> decreases_to!(*v => p),
        lookup(ms@, "allOf"@) matches Some(p) ==> decreases_to!(*v => p),
        lookup(ms@, "anyOf"@) matches Some(p) ==> decreases_to!(*v => p),
        lookup(ms@, "not"@) matches Some(p) ==> decreases_to!(*v => p),
{
    lemma_lookup_is_member(ms@, "properties"@);
    lemma_lookup_is_member(ms@, "additionalProperties"@);
    lemma_lookup_is_member(ms@, "items"@);
    lemma_lookup_is_member(ms@, "oneOf"@);
    lemma_lookup_is_member(ms@, "allOf"@);
    lemma_lookup_is_member(ms@, "anyOf"@);
    lemma_lookup_is_member(ms@, "not"@);
    match lookup(ms@, "properties"@) {
        Some(p) => lemma_member_value_decreases(*v, p),
        None => (),
    }
    match lookup(ms@, "additionalProperties"@) {
        Some(p) => lemma_member_value_decreases(*v, p),
        None => (),
    }
    match lookup(ms@, "items"@) {
        Some(p) => lemma_member_value_decreases(*v, p),
        None => (),
    }
    match lookup(ms@, "oneOf"@) {
        Some(p) => lemma_member_value_decreases(*v, p),
        None => (),
    }
    match lookup(ms@, "allOf"@) {
        Some(p) => lemma_member_value_decreases(*v, p),
        None => (),
    }
    match lookup(ms@, "anyOf"@) {
        Some(p) => lemma_member_value_decreases(*v, p),
        None => (),
    }
    match lookup(ms@, "not"@) {
        Some(p) => lemma_member_value_decreases(*v, p),
        None => (),
    }
}


// ---------------------------------------------------------------------
// Encoding: from the model back to the generic tree.  The shape of the
// emitted tree is a function of the model value, so re-encoding the same
// value twice gives the same tree.

/// One emitted member, by shape.
pub open spec fn gm(name: Seq<char>, value: GValue) -> GMember {
    GMember { name, value }
}

/// A boolean field, emitted only when set.
pub open spec fn flag_gms(k: Seq<char>, b: bool) -> Seq<GMember> {
    if b {
        seq![gm(k, GValue::Bool(true))]
    } else {
        Seq::empty()
    }
}

/// An optional string field.
pub open spec fn opt_text_gms(k: Seq<char>, o: Option<String>) -> Seq<GMember> {
    match o {
        None => Seq::empty(),
        Some(t) => seq![gm(k, GValue::Text(t@))],
    }
}

/// An optional raw value field, emitted with its shape kept.
pub open spec fn opt_value_gms(k: Seq<char>, o: Option<Value>) -> Seq<GMember> {
    match o {
        None => Seq::empty(),
        Some(x) => seq![gm(k, x.gv())],
    }
}

/// An optional boolean field kept optional.
pub open spec fn opt_bool_gms(k: Seq<char>, o: Option<bool>) -> Seq<GMember> {
    match o {
        None => Seq::empty(),
        Some(b) => seq![gm(k, GValue::Bool(b))],
    }
}

/// An optional numeric field.
pub open spec fn opt_num_gms(k: Seq<char>, o: Option<Number>) -> Seq<GMember> {
    match o {
        None => Seq::empty(),
        Some(n) => seq![gm(k, GValue::Num(n))],
    }
}

/// An optional count field.  A count beyond the signed range of the tree's
/// integral numbers is emitted truncated, as the cast defines it.
pub open spec fn opt_size_gms(k: Seq<char>, o: Option<usize>) -> Seq<GMember> {
    match o {
        None => Seq::empty(),
        Some(n) => seq![gm(k, GValue::Num(Number::Int(n as i64)))],
    }
}

/// An optional exact-integer field.
pub open spec fn opt_int_gms(k: Seq<char>, o: Option<i64>) -> Seq<GMember> {
    match o {
        None => Seq::empty(),
        Some(n) => seq![gm(k, GValue::Num(Number::Int(n)))],
    }
}

/// The spliced extension members, in stored order.
pub open spec fn ext_gms(m: StringMap<Value>) -> Seq<GMember> {
    Seq::new(m.spec_len(), |i: int| gm(m.key_at(i), m.value_at(i).gv()))
}

/// The external-documentation member, where the record is present.
pub open spec fn opt_extdocs_gms(o: Option<ExternalDocumentation>) -> Seq<GMember> {
    match o {
        None => Seq::empty(),
        Some(ed) => seq![
            gm(
                "externalDocs"@,
                GValue::Object(
                    opt_text_gms("description"@, ed.description) + seq![
                        gm("url"@, GValue::Text(ed.url@)),
                    ],
                ),
            ),
        ],
    }
}

/// The discriminator member, where the record is present; an empty mapping
/// is left out.
pub open spec fn opt_discriminator_gms(o: Option<Discriminator>) -> Seq<GMember> {
    match o {
        None => Seq::empty(),
        Some(dc) => seq![
            gm(
                "discriminator"@,
                GValue::Object(
                    seq![gm("propertyName"@, GValue::Text(dc.property_name@))] + (
                    if dc.mapping.spec_len() == 0 {
                        Seq::empty()
                    } else {
                        seq![
                            gm(
                                "mapping"@,
                                GValue::Object(
                                    Seq::new(
                                        dc.mapping.spec_len(),
                                        |i: int|
                                            gm(
                                                dc.mapping.key_at(i),
                                                GValue::Text(dc.mapping.value_at(i)@),
                                            ),
                                    ),
                                ),
                            ),
                        ]
                    }),
                ),
            ),
        ],
    }
}

/// A string-list field, left out when empty.
pub open spec fn text_list_gms(k: Seq<char>, v: Seq<String>) -> Seq<GMember> {
    if v.len() == 0 {
        Seq::empty()
    } else {
        seq![gm(k, GValue::List(Seq::new(v.len(), |i: int| GValue::Text(v[i]@))))]
    }
}

/// The string enumeration, left out when empty; a `None` entry is the
/// explicit null.
pub open spec fn strenum_gms(es: Seq<Option<String>>) -> Seq<GMember> {
    if es.len() == 0 {
        Seq::empty()
    } else {
        seq![
            gm(
                "enum"@,
                GValue::List(
                    Seq::new(
                        es.len(),
                        |i: int|
                            match es[i] {
                                None => GValue::Null,
                                Some(t) => GValue::Text(t@),
                            },
                    ),
                ),
            ),
        ]
    }
}

/// The number enumeration, left out when empty.
pub open spec fn numenum_gms(es: Seq<Option<Number>>) -> Seq<GMember> {
    if es.len() == 0 {
        Seq::empty()
    } else {
        seq![
            gm(
                "enum"@,
                GValue::List(
                    Seq::new(
                        es.len(),
                        |i: int|
                            match es[i] {
                                None => GValue::Null,
                                Some(n) => GValue::Num(n),
                            },
                    ),
                ),
            ),
        ]
    }
}

/// The integer enumeration, left out when empty.
pub open spec fn intenum_gms(es: Seq<Option<i64>>) -> Seq<GMember> {
    if es.len() == 0 {
        Seq::empty()
    } else {
        seq![
            gm(
                "enum"@,
                GValue::List(
                    Seq::new(
                        es.len(),
                        |i: int|
                            match es[i] {
                                None => GValue::Null,
                                Some(n) => GValue::Num(Number::Int(n)),
                            },
                    ),
                ),
            ),
        ]
    }
}

/// The boolean enumeration, left out when empty.
pub open spec fn boolenum_gms(es: Seq<Option<bool>>) -> Seq<GMember> {
    if es.len() == 0 {
        Seq::empty()
    } else {
        seq![
            gm(
                "enum"@,
                GValue::List(
                    Seq::new(
                        es.len(),
                        |i: int|
                            match es[i] {
                                None => GValue::Null,
                                Some(b) => GValue::Bool(b),
                            },
                    ),
                ),
            ),
        ]
    }
}

/// The raw-value enumeration of the catch-all, left out when empty.
pub open spec fn rawenum_gms(es: Seq<Value>) -> Seq<GMember> {
    if es.len() == 0 {
        Seq::empty()
    } else {
        seq![gm("enum"@, GValue::List(Seq::new(es.len(), |i: int| es[i].gv())))]
    }
}

/// The name a recognized string format is written as.
pub open spec fn string_format_name(f: crate::schema::StringFormat) -> Seq<char> {
    match f {
        crate::schema::StringFormat::Date => "date"@,
        crate::schema::StringFormat::DateTime => "date-time"@,
        crate::schema::StringFormat::Password => "password"@,
        crate::schema::StringFormat::Byte => "byte"@,
        crate::schema::StringFormat::Binary => "binary"@,
    }
}

/// The name a recognized number format is written as.
pub open spec fn number_format_name(f: crate::schema::NumberFormat) -> Seq<char> {
    match f {
        crate::schema::NumberFormat::Float => "float"@,
        crate::schema::NumberFormat::Double => "double"@,
    }
}

/// The name a recognized integer format is written as.
pub open spec fn integer_format_name(f: crate::schema::IntegerFormat) -> Seq<char> {
    match f {
        crate::schema::IntegerFormat::Int32 => "int32"@,
        crate::schema::IntegerFormat::Int64 => "int64"@,
    }
}

/// The format member of a string schema, left out when absent.
pub open spec fn fmt_string_gms(f: VariantOrUnknownOrEmpty<crate::schema::StringFormat>) -> Seq<
    GMember,
> {
    match f {
        VariantOrUnknownOrEmpty::Empty => Seq::empty(),
        VariantOrUnknownOrEmpty::Item(x) => seq![
            gm("format"@, GValue::Text(string_format_name(x))),
        ],
        VariantOrUnknownOrEmpty::Unknown(u) => seq![gm("format"@, GValue::Text(u@))],
    }
}

/// The format member of a number schema, left out when absent.
pub open spec fn fmt_number_gms(f: VariantOrUnknownOrEmpty<crate::schema::NumberFormat>) -> Seq<
    GMember,
> {
    match f {
        VariantOrUnknownOrEmpty::Empty => Seq::empty(),
        VariantOrUnknownOrEmpty::Item(x) => seq![
            gm("format"@, GValue::Text(number_format_name(x))),
        ],
        VariantOrUnknownOrEmpty::Unknown(u) => seq![gm("format"@, GValue::Text(u@))],
    }
}

/// The format member of an integer schema, left out when absent.
pub open spec fn fmt_integer_gms(f: VariantOrUnknownOrEmpty<crate::schema::IntegerFormat>) -> Seq<
    GMember,
> {
    match f {
        VariantOrUnknownOrEmpty::Empty => Seq::empty(),
        VariantOrUnknownOrEmpty::Item(x) => seq![
            gm("format"@, GValue::Text(integer_format_name(x))),
        ],
        VariantOrUnknownOrEmpty::Unknown(u) => seq![gm("format"@, GValue::Text(u@))],
    }
}

/// The type tag member.
pub open spec fn typ_gms(t: Seq<char>) -> Seq<GMember> {
    seq![gm("type"@, GValue::Text(t))]
}

/// The emitted members of the shared data: named attributes in declaration
/// order, then the extension map spliced back in.
pub open spec fn data_gmembers(d: SchemaData) -> Seq<GMember> {
    flag_gms("nullable"@, d.nullable) + flag_gms("readOnly"@, d.read_only) + flag_gms(
        "writeOnly"@,
        d.write_only,
    ) + flag_gms("deprecated"@, d.deprecated) + opt_extdocs_gms(d.external_docs) + opt_value_gms(
        "example"@,
        d.example,
    ) + opt_text_gms("title"@, d.title) + opt_text_gms("description"@, d.description)
        + opt_discriminator_gms(d.discriminator) + opt_value_gms("default"@, d.default) + ext_gms(
        d.extensions,
    )
}

/// The whole emitted tree of one schema: its shared data's members followed
/// by its kind's members.
pub open spec fn schema_gv(s: Schema) -> GValue
    decreases s, 9int, 0int,
{
    GValue::Object(data_gmembers(s.schema_data) + kind_gmembers(s.schema_kind))
}

/// The emitted pointer-or-item: a pointer as an object holding only the
/// pointer field, an item by the schema's own encoding.
pub open spec fn refor_gv(r: ReferenceOr<Schema>) -> GValue
    decreases r, 10int, 0int,
{
    match r {
        ReferenceOr::Reference { reference } => GValue::Object(
            seq![gm("$ref"@, GValue::Text(reference@))],
        ),
        ReferenceOr::Item(sx) => schema_gv(sx),
    }
}

/// The emitted boxed pointer-or-item.
pub open spec fn boxed_refor_gv(r: ReferenceOr<Box<Schema>>) -> GValue
    decreases r, 10int, 0int,
{
    match r {
        ReferenceOr::Reference { reference } => GValue::Object(
            seq![gm("$ref"@, GValue::Text(reference@))],
        ),
        ReferenceOr::Item(b) => schema_gv(*b),
    }
}

/// The emitted elements of a combinator's branch list.
pub open spec fn list_gvs(rs: Seq<ReferenceOr<Schema>>) -> Seq<GValue>
    decreases rs, 8int, 0int,
{
    if rs.len() == 0 {
        Seq::empty()
    } else {
        list_gvs(rs.drop_last()).push(refor_gv(rs.last()))
    }
}

/// The emitted entries of a property map.
pub open spec fn prop_entries_gms(es: Seq<Entry<ReferenceOr<Box<Schema>>>>) -> Seq<GMember>
    decreases es, 8int, 0int,
{
    if es.len() == 0 {
        Seq::empty()
    } else {
        prop_entries_gms(es.drop_last()).push(
            gm(es.last().key@, boxed_refor_gv(es.last().value)),
        )
    }
}

/// The properties member, left out when the map is empty.
pub open spec fn props_gms(m: StringMap<ReferenceOr<Box<Schema>>>) -> Seq<GMember>
    decreases m, 9int, 0int,
{
    if m.spec_len() == 0 {
        Seq::empty()
    } else {
        seq![gm("properties"@, GValue::Object(prop_entries_gms(m.entries@)))]
    }
}

/// The items member, where present.
pub open spec fn opt_items_gms(o: Option<ReferenceOr<Box<Schema>>>) -> Seq<GMember>
    decreases o, 11int, 0int,
{
    match o {
        None => Seq::empty(),
        Some(r) => seq![gm("items"@, boxed_refor_gv(r))],
    }
}

/// The additional-properties member, where present: a bare flag or an
/// encoded pointer-or-schema.
pub open spec fn opt_addl_gms(o: Option<AdditionalProperties>) -> Seq<GMember>
    decreases o, 11int, 0int,
{
    match o {
        None => Seq::empty(),
        Some(ap) => match ap {
            AdditionalProperties::Any(b) => seq![gm("additionalProperties"@, GValue::Bool(b))],
            AdditionalProperties::Schema(bx) => seq![gm("additionalProperties"@, refor_gv(*bx))],
        },
    }
}

/// The negation member, where present.
pub open spec fn opt_not_gms(o: Option<Box<ReferenceOr<Schema>>>) -> Seq<GMember>
    decreases o, 11int, 0int,
{
    match o {
        None => Seq::empty(),
        Some(bx) => seq![gm("not"@, refor_gv(*bx))],
    }
}

/// A combinator member holding the encoded branch list; the catch-all
/// leaves an empty list out, the dedicated combinator kinds always emit it.
pub open spec fn comb_gms(k: Seq<char>, rs: Seq<ReferenceOr<Schema>>, skip_empty: bool) -> Seq<
    GMember,
>
    decreases rs, 9int, 0int,
{
    if skip_empty && rs.len() == 0 {
        Seq::empty()
    } else {
        seq![gm(k, GValue::List(list_gvs(rs)))]
    }
}

/// The emitted members of one schema kind, mirroring the fields the decoder
/// reads back: a pure type emits its tag and its legal fields, a combinator
/// emits its one field, and the catch-all re-emits every populated field —
/// nothing is lost.
/// The emitted members of one primitive type: its tag and its legal fields.
pub open spec fn type_gmembers(t: Type) -> Seq<GMember>
    decreases t, 12int, 0int,
{
    match t {
        Type::String(st) => typ_gms("string"@) + fmt_string_gms(st.format) + opt_text_gms(
            "pattern"@,
            st.pattern,
        ) + strenum_gms(st.enumeration@) + opt_size_gms("minLength"@, st.min_length)
            + opt_size_gms("maxLength"@, st.max_length),
        Type::Number(nt) => typ_gms("number"@) + fmt_number_gms(nt.format) + opt_num_gms(
            "multipleOf"@,
            nt.multiple_of,
        ) + flag_gms("exclusiveMinimum"@, nt.exclusive_minimum) + flag_gms(
            "exclusiveMaximum"@,
            nt.exclusive_maximum,
        ) + opt_num_gms("minimum"@, nt.minimum) + opt_num_gms("maximum"@, nt.maximum)
            + numenum_gms(nt.enumeration@),
        Type::Integer(it) => typ_gms("integer"@) + fmt_integer_gms(it.format) + opt_int_gms(
            "multipleOf"@,
            it.multiple_of,
        ) + flag_gms("exclusiveMinimum"@, it.exclusive_minimum) + flag_gms(
            "exclusiveMaximum"@,
            it.exclusive_maximum,
        ) + opt_int_gms("minimum"@, it.minimum) + opt_int_gms("maximum"@, it.maximum)
            + intenum_gms(it.enumeration@),
        Type::Object(ot) => typ_gms("object"@) + props_gms(ot.properties) + text_list_gms(
            "required"@,
            ot.required@,
        ) + opt_addl_gms(ot.additional_properties) + opt_size_gms(
            "minProperties"@,
            ot.min_properties,
        ) + opt_size_gms("maxProperties"@, ot.max_properties),
        Type::Array(at) => typ_gms("array"@) + opt_items_gms(at.items) + opt_size_gms(
            "minItems"@,
            at.min_items,
        ) + opt_size_gms("maxItems"@, at.max_items) + flag_gms("uniqueItems"@, at.unique_items),
        Type::Boolean(bt) => typ_gms("boolean"@) + boolenum_gms(bt.enumeration@),
    }
}

/// The emitted members of the catch-all: every populated field, in
/// declaration order — nothing is lost.
pub open spec fn any_gmembers(a: AnySchema) -> Seq<GMember>
    decreases a, 12int, 0int,
{
    opt_text_gms("type"@, a.typ) + opt_text_gms("pattern"@, a.pattern) + opt_num_gms(
        "multipleOf"@,
        a.multiple_of,
    ) + opt_bool_gms("exclusiveMinimum"@, a.exclusive_minimum) + opt_bool_gms(
        "exclusiveMaximum"@,
        a.exclusive_maximum,
    ) + opt_num_gms("minimum"@, a.minimum) + opt_num_gms("maximum"@, a.maximum) + props_gms(
        a.properties,
    ) + text_list_gms("required"@, a.required@) + opt_addl_gms(a.additional_properties)
        + opt_size_gms("minProperties"@, a.min_properties) + opt_size_gms(
        "maxProperties"@,
        a.max_properties,
    ) + opt_items_gms(a.items) + opt_size_gms("minItems"@, a.min_items) + opt_size_gms(
        "maxItems"@,
        a.max_items,
    ) + opt_bool_gms("uniqueItems"@, a.unique_items) + rawenum_gms(a.enumeration@) + opt_text_gms(
        "format"@,
        a.format,
    ) + opt_size_gms("minLength"@, a.min_length) + opt_size_gms("maxLength"@, a.max_length)
        + comb_gms("oneOf"@, a.one_of@, true) + comb_gms("allOf"@, a.all_of@, true) + comb_gms(
        "anyOf"@,
        a.any_of@,
        true,
    ) + opt_not_gms(a.not)
}

/// The emitted members of one schema kind, mirroring the fields the decoder
/// reads back: a pure type emits its tag and its legal fields, a combinator
/// emits its one field, and the catch-all re-emits every populated field.
pub open spec fn kind_gmembers(k: SchemaKind) -> Seq<GMember>
    decreases k, 13int, 0int,
{
    match k {
        SchemaKind::Type(t) => type_gmembers(t),
        SchemaKind::OneOf { one_of } => comb_gms("oneOf"@, one_of@, false),
        SchemaKind::AllOf { all_of } => comb_gms("allOf"@, all_of@, false),
        SchemaKind::AnyOf { any_of } => comb_gms("anyOf"@, any_of@, false),
        SchemaKind::Not { not } => seq![gm("not"@, refor_gv(*not))],
        SchemaKind::Any(a) => any_gmembers(a),
    }
}


/// Appending one member appends its shape.
proof fn lemma_gvm_push(ms: Seq<Member>, m: Member)
    ensures
        crate::value::gv_members(ms.push(m)) == crate::value::gv_members(ms).push(m.gv()),
{
    assert(ms.push(m).drop_last() =~= ms);
    assert(ms.push(m).last() == m);
}

/// Member shapes distribute over concatenation.
proof fn lemma_gvm_concat(a: Seq<Member>, b: Seq<Member>)
    ensures
        crate::value::gv_members(a + b) == crate::value::gv_members(a)
            + crate::value::gv_members(b),
    decreases b.len(),
{
    if b.len() == 0 {
        assert(a + b =~= a);
        assert(crate::value::gv_members(a) + crate::value::gv_members(b)
            =~= crate::value::gv_members(a));
    } else {
        lemma_gvm_concat(a, b.drop_last());
        assert((a + b).drop_last() =~= a + b.drop_last());
        assert((a + b).len() == a.len() + b.len());
        assert((a + b).last() == b.last());
        assert(crate::value::gv_members(a) + crate::value::gv_members(b.drop_last()).push(
            b.last().gv(),
        ) =~= (crate::value::gv_members(a) + crate::value::gv_members(b.drop_last())).push(
            b.last().gv(),
        ));
    }
}

/// Appends one member with the given key and value.
fn push_member(out: &mut Vec<Member>, k: &str, v: Value)
    ensures
        crate::value::gv_members(final(out)@) == crate::value::gv_members(old(out)@).push(
            gm(k@, v.gv()),
        ),
{
    let name = k.to_owned();
    out.push(Member { name, value: v });
    proof {
        lemma_gvm_push(old(out)@, final(out)@.last());
    }
}

/// Appends the boolean field only when it is set.
fn push_flag(out: &mut Vec<Member>, k: &str, b: bool)
    ensures
        crate::value::gv_members(final(out)@) == crate::value::gv_members(old(out)@) + flag_gms(
            k@,
            b,
        ),
{
    if !crate::util::is_false(&b) {
        push_member(out, k, Value::Bool(true));
    }
    proof {
        assert(crate::value::gv_members(final(out)@) =~= crate::value::gv_members(old(out)@)
            + flag_gms(k@, b));
    }
}

/// Appends the optional string field.
fn push_opt_text(out: &mut Vec<Member>, k: &str, o: &Option<String>)
    ensures
        crate::value::gv_members(final(out)@) == crate::value::gv_members(old(out)@)
            + opt_text_gms(k@, *o),
{
    match o {
        None => (),
        Some(t) => push_member(out, k, Value::Text(t.clone())),
    }
    proof {
        assert(crate::value::gv_members(final(out)@) =~= crate::value::gv_members(old(out)@)
            + opt_text_gms(k@, *o));
    }
}

/// Appends the optional raw value field, shape kept.
fn push_opt_value(out: &mut Vec<Member>, k: &str, o: &Option<Value>)
    ensures
        crate::value::gv_members(final(out)@) == crate::value::gv_members(old(out)@)
            + opt_value_gms(k@, *o),
{
    match o {
        None => (),
        Some(x) => push_member(out, k, x.clone()),
    }
    proof {
        assert(crate::value::gv_members(final(out)@) =~= crate::value::gv_members(old(out)@)
            + opt_value_gms(k@, *o));
    }
}

/// Appends the optional boolean field.
fn push_opt_bool(out: &mut Vec<Member>, k: &str, o: &Option<bool>)
    ensures
        crate::value::gv_members(final(out)@) == crate::value::gv_members(old(out)@)
            + opt_bool_gms(k@, *o),
{
    match o {
        None => (),
        Some(b) => push_member(out, k, Value::Bool(*b)),
    }
    proof {
        assert(crate::value::gv_members(final(out)@) =~= crate::value::gv_members(old(out)@)
            + opt_bool_gms(k@, *o));
    }
}

/// Appends the optional numeric field.
fn push_opt_num(out: &mut Vec<Member>, k: &str, o: &Option<Number>)
    ensures
        crate::value::gv_members(final(out)@) == crate::value::gv_members(old(out)@)
            + opt_num_gms(k@, *o),
{
    match o {
        None => (),
        Some(n) => push_member(out, k, Value::Num(*n)),
    }
    proof {
        assert(crate::value::gv_members(final(out)@) =~= crate::value::gv_members(old(out)@)
            + opt_num_gms(k@, *o));
    }
}

/// Appends the optional count field.
fn push_opt_size(out: &mut Vec<Member>, k: &str, o: &Option<usize>)
    ensures
        crate::value::gv_members(final(out)@) == crate::value::gv_members(old(out)@)
            + opt_size_gms(k@, *o),
{
    match o {
        None => (),
        Some(n) => push_member(out, k, Value::Num(Number::Int(*n as i64))),
    }
    proof {
        assert(crate::value::gv_members(final(out)@) =~= crate::value::gv_members(old(out)@)
            + opt_size_gms(k@, *o));
    }
}

/// Appends the optional exact-integer field.
fn push_opt_int(out: &mut Vec<Member>, k: &str, o: &Option<i64>)
    ensures
        crate::value::gv_members(final(out)@) == crate::value::gv_members(old(out)@)
            + opt_int_gms(k@, *o),
{
    match o {
        None => (),
        Some(n) => push_member(out, k, Value::Num(Number::Int(*n))),
    }
    proof {
        assert(crate::value::gv_members(final(out)@) =~= crate::value::gv_members(old(out)@)
            + opt_int_gms(k@, *o));
    }
}

/// Splices the extension map back in as additional members, in order.
fn push_extensions(out: &mut Vec<Member>, m: &StringMap<Value>)
    ensures
        crate::value::gv_members(final(out)@) == crate::value::gv_members(old(out)@) + ext_gms(
            *m,
        ),
{
    let ghost base = crate::value::gv_members(old(out)@);
    let mut i: usize = 0;
    while i < m.len()
        invariant
            i <= m.spec_len(),
            crate::value::gv_members(out@).len() == base.len() + i,
            forall|j: int|
                0 <= j < base.len() ==> crate::value::gv_members(out@)[j] == base[j],
            forall|j: int|
                0 <= j < i ==> crate::value::gv_members(out@)[base.len() + j] == gm(
                    m.key_at(j),
                    m.value_at(j).gv(),
                ),
        decreases m.spec_len() - i,
    {
        let key = m.key(i).clone();
        let value = m.value(i).clone();
        let ghost pre = out@;
        out.push(Member { name: key, value });
        proof {
            lemma_gvm_push(pre, out@.last());
        }
        i += 1;
    }
    proof {
        assert(crate::value::gv_members(out@) =~= base + ext_gms(*m));
    }
}

/// Appends the external-documentation member, where present.
fn push_extdocs(out: &mut Vec<Member>, o: &Option<ExternalDocumentation>)
    ensures
        crate::value::gv_members(final(out)@) == crate::value::gv_members(old(out)@)
            + opt_extdocs_gms(*o),
{
    match o {
        None => (),
        Some(ed) => {
            let mut em: Vec<Member> = Vec::new();
            push_opt_text(&mut em, "description", &ed.description);
            push_member(&mut em, "url", Value::Text(ed.url.clone()));
            proof {
                assert(crate::value::gv_members(em@) =~= opt_text_gms(
                    "description"@,
                    ed.description,
                ) + seq![gm("url"@, GValue::Text(ed.url@))]);
            }
            push_member(out, "externalDocs", Value::Object(em));
        },
    }
    proof {
        assert(crate::value::gv_members(final(out)@) =~= crate::value::gv_members(old(out)@)
            + opt_extdocs_gms(*o));
    }
}

/// Appends the discriminator member, where present; an empty mapping is
/// left out.
fn push_discriminator(out: &mut Vec<Member>, o: &Option<Discriminator>)
    ensures
        crate::value::gv_members(final(out)@) == crate::value::gv_members(old(out)@)
            + opt_discriminator_gms(*o),
{
    match o {
        None => (),
        Some(dc) => {
            let mut dm: Vec<Member> = Vec::new();
            push_member(&mut dm, "propertyName", Value::Text(dc.property_name.clone()));
            if dc.mapping.len() > 0 {
                let mut mm: Vec<Member> = Vec::new();
                let mut i: usize = 0;
                while i < dc.mapping.len()
                    invariant
                        i <= dc.mapping.spec_len(),
                        crate::value::gv_members(mm@).len() == i,
                        forall|j: int|
                            0 <= j < i ==> crate::value::gv_members(mm@)[j] == gm(
                                dc.mapping.key_at(j),
                                GValue::Text(dc.mapping.value_at(j)@),
                            ),
                    decreases dc.mapping.spec_len() - i,
                {
                    let key = dc.mapping.key(i).clone();
                    let value = Value::Text(dc.mapping.value(i).clone());
                    let ghost pre = mm@;
                    mm.push(Member { name: key, value });
                    proof {
                        lemma_gvm_push(pre, mm@.last());
                    }
                    i += 1;
                }
                proof {
                    assert(crate::value::gv_members(mm@) =~= Seq::new(
                        dc.mapping.spec_len(),
                        |i: int| gm(dc.mapping.key_at(i), GValue::Text(dc.mapping.value_at(i)@)),
                    ));
                }
                push_member(&mut dm, "mapping", Value::Object(mm));
            }
            proof {
                assert(crate::value::gv_members(dm@) =~= seq![
                    gm("propertyName"@, GValue::Text(dc.property_name@)),
                ] + (if dc.mapping.spec_len() == 0 {
                    Seq::<GMember>::empty()
                } else {
                    seq![
                        gm(
                            "mapping"@,
                            GValue::Object(
                                Seq::new(
                                    dc.mapping.spec_len(),
                                    |i: int|
                                        gm(
                                            dc.mapping.key_at(i),
                                            GValue::Text(dc.mapping.value_at(i)@),
                                        ),
                                ),
                            ),
                        ),
                    ]
                }));
            }
            push_member(out, "discriminator", Value::Object(dm));
        },
    }
    proof {
        assert(crate::value::gv_members(final(out)@) =~= crate::value::gv_members(old(out)@)
            + opt_discriminator_gms(*o));
    }
}

/// Appends the string-list field, left out when empty.
fn push_text_list(out: &mut Vec<Member>, k: &str, v: &Vec<String>)
    ensures
        crate::value::gv_members(final(out)@) == crate::value::gv_members(old(out)@)
            + text_list_gms(k@, v@),
{
    if v.len() > 0 {
        let mut items: Vec<Value> = Vec::new();
        let mut i: usize = 0;
        while i < v.len()
            invariant
                i <= v@.len(),
                items@.len() == i,
                forall|j: int|
                    0 <= j < i ==> (#[trigger] items@[j]).gv() == GValue::Text(v@[j]@),
            decreases v@.len() - i,
        {
            items.push(Value::Text(v[i].clone()));
            i += 1;
        }
        proof {
            crate::value::lemma_gv_list(items@);
            assert(crate::value::gv_list(items@) =~= Seq::new(
                v@.len(),
                |i: int| GValue::Text(v@[i]@),
            ));
        }
        push_member(out, k, Value::List(items));
    }
    proof {
        assert(crate::value::gv_members(final(out)@) =~= crate::value::gv_members(old(out)@)
            + text_list_gms(k@, v@));
    }
}

/// Appends the raw-value enumeration, left out when empty.
fn push_raw_enum(out: &mut Vec<Member>, es: &Vec<Value>)
    ensures
        crate::value::gv_members(final(out)@) == crate::value::gv_members(old(out)@)
            + rawenum_gms(es@),
{
    if es.len() > 0 {
        let mut items: Vec<Value> = Vec::new();
        let mut i: usize = 0;
        while i < es.len()
            invariant
                i <= es@.len(),
                items@.len() == i,
                forall|j: int| 0 <= j < i ==> (#[trigger] items@[j]).gv() == es@[j].gv(),
            decreases es@.len() - i,
        {
            items.push(es[i].clone());
            i += 1;
        }
        proof {
            crate::value::lemma_gv_list(items@);
            assert(crate::value::gv_list(items@) =~= Seq::new(
                es@.len(),
                |i: int| es@[i].gv(),
            ));
        }
        push_member(out, "enum", Value::List(items));
    }
    proof {
        assert(crate::value::gv_members(final(out)@) =~= crate::value::gv_members(old(out)@)
            + rawenum_gms(es@));
    }
}

/// Appends the string enumeration, left out when empty.
fn push_str_enum(out: &mut Vec<Member>, es: &Vec<Option<String>>)
    ensures
        crate::value::gv_members(final(out)@) == crate::value::gv_members(old(out)@)
            + strenum_gms(es@),
{
    if es.len() > 0 {
        let mut items: Vec<Value> = Vec::new();
        let mut i: usize = 0;
        while i < es.len()
            invariant
                i <= es@.len(),
                items@.len() == i,
                forall|j: int|
                    0 <= j < i ==> (#[trigger] items@[j]).gv() == (match es@[j] {
                        None => GValue::Null,
                        Some(t) => GValue::Text(t@),
                    }),
            decreases es@.len() - i,
        {
            match &es[i] {
                None => items.push(Value::Null),
                Some(t) => items.push(Value::Text(t.clone())),
            }
            i += 1;
        }
        proof {
            crate::value::lemma_gv_list(items@);
            assert(crate::value::gv_list(items@) =~= Seq::new(
                es@.len(),
                |i: int|
                    match es@[i] {
                        None => GValue::Null,
                        Some(t) => GValue::Text(t@),
                    },
            ));
        }
        push_member(out, "enum", Value::List(items));
    }
    proof {
        assert(crate::value::gv_members(final(out)@) =~= crate::value::gv_members(old(out)@)
            + strenum_gms(es@));
    }
}

/// Appends the number enumeration, left out when empty.
fn push_num_enum(out: &mut Vec<Member>, es: &Vec<Option<Number>>)
    ensures
        crate::value::gv_members(final(out)@) == crate::value::gv_members(old(out)@)
            + numenum_gms(es@),
{
    if es.len() > 0 {
        let mut items: Vec<Value> = Vec::new();
        let mut i: usize = 0;
        while i < es.len()
            invariant
                i <= es@.len(),
                items@.len() == i,
                forall|j: int|
                    0 <= j < i ==> (#[trigger] items@[j]).gv() == (match es@[j] {
                        None => GValue::Null,
                        Some(n) => GValue::Num(n),
                    }),
            decreases es@.len() - i,
        {
            match &es[i] {
                None => items.push(Value::Null),
                Some(n) => items.push(Value::Num(*n)),
            }
            i += 1;
        }
        proof {
            crate::value::lemma_gv_list(items@);
            assert(crate::value::gv_list(items@) =~= Seq::new(
                es@.len(),
                |i: int|
                    match es@[i] {
                        None => GValue::Null,
                        Some(n) => GValue::Num(n),
                    },
            ));
        }
        push_member(out, "enum", Value::List(items));
    }
    proof {
        assert(crate::value::gv_members(final(out)@) =~= crate::value::gv_members(old(out)@)
            + numenum_gms(es@));
    }
}

/// Appends the integer enumeration, left out when empty.
fn push_int_enum(out: &mut Vec<Member>, es: &Vec<Option<i64>>)
    ensures
        crate::value::gv_members(final(out)@) == crate::value::gv_members(old(out)@)
            + intenum_gms(es@),
{
    if es.len() > 0 {
        let mut items: Vec<Value> = Vec::new();
        let mut i: usize = 0;
        while i < es.len()
            invariant
                i <= es@.len(),
                items@.len() == i,
                forall|j: int|
                    0 <= j < i ==> (#[trigger] items@[j]).gv() == (match es@[j] {
                        None => GValue::Null,
                        Some(n) => GValue::Num(Number::Int(n)),
                    }),
            decreases es@.len() - i,
        {
            match &es[i] {
                None => items.push(Value::Null),
                Some(n) => items.push(Value::Num(Number::Int(*n))),
            }
            i += 1;
        }
        proof {
            crate::value::lemma_gv_list(items@);
            assert(crate::value::gv_list(items@) =~= Seq::new(
                es@.len(),
                |i: int|
                    match es@[i] {
                        None => GValue::Null,
                        Some(n) => GValue::Num(Number::Int(n)),
                    },
            ));
        }
        push_member(out, "enum", Value::List(items));
    }
    proof {
        assert(crate::value::gv_members(final(out)@) =~= crate::value::gv_members(old(out)@)
            + intenum_gms(es@));
    }
}

/// Appends the boolean enumeration, left out when empty.
fn push_bool_enum(out: &mut Vec<Member>, es: &Vec<Option<bool>>)
    ensures
        crate::value::gv_members(final(out)@) == crate::value::gv_members(old(out)@)
            + boolenum_gms(es@),
{
    if es.len() > 0 {
        let mut items: Vec<Value> = Vec::new();
        let mut i: usize = 0;
        while i < es.len()
            invariant
                i <= es@.len(),
                items@.len() == i,
                forall|j: int|
                    0 <= j < i ==> (#[trigger] items@[j]).gv() == (match es@[j] {
                        None => GValue::Null,
                        Some(b) => GValue::Bool(b),
                    }),
            decreases es@.len() - i,
        {
            match &es[i] {
                None => items.push(Value::Null),
                Some(b) => items.push(Value::Bool(*b)),
            }
            i += 1;
        }
        proof {
            crate::value::lemma_gv_list(items@);
            assert(crate::value::gv_list(items@) =~= Seq::new(
                es@.len(),
                |i: int|
                    match es@[i] {
                        None => GValue::Null,
                        Some(b) => GValue::Bool(b),
                    },
            ));
        }
        push_member(out, "enum", Value::List(items));
    }
    proof {
        assert(crate::value::gv_members(final(out)@) =~= crate::value::gv_members(old(out)@)
            + boolenum_gms(es@));
    }
}

/// The written name of a recognized string format.
fn string_format_str(f: &crate::schema::StringFormat) -> (r: &'static str)
    ensures
        r@ == string_format_name(*f),
{
    proof {
        reveal_strlit("date");
        reveal_strlit("date-time");
        reveal_strlit("password");
        reveal_strlit("byte");
        reveal_strlit("binary");
    }
    match f {
        crate::schema::StringFormat::Date => "date",
        crate::schema::StringFormat::DateTime => "date-time",
        crate::schema::StringFormat::Password => "password",
        crate::schema::StringFormat::Byte => "byte",
        crate::schema::StringFormat::Binary => "binary",
    }
}

/// The written name of a recognized number format.
fn number_format_str(f: &crate::schema::NumberFormat) -> (r: &'static str)
    ensures
        r@ == number_format_name(*f),
{
    proof {
        reveal_strlit("float");
        reveal_strlit("double");
    }
    match f {
        crate::schema::NumberFormat::Float => "float",
        crate::schema::NumberFormat::Double => "double",
    }
}

/// The written name of a recognized integer format.
fn integer_format_str(f: &crate::schema::IntegerFormat) -> (r: &'static str)
    ensures
        r@ == integer_format_name(*f),
{
    proof {
        reveal_strlit("int32");
        reveal_strlit("int64");
    }
    match f {
        crate::schema::IntegerFormat::Int32 => "int32",
        crate::schema::IntegerFormat::Int64 => "int64",
    }
}

/// Appends the string-format member, left out when absent.
fn push_fmt_string(out: &mut Vec<Member>, f: &VariantOrUnknownOrEmpty<crate::schema::StringFormat>)
    ensures
        crate::value::gv_members(final(out)@) == crate::value::gv_members(old(out)@)
            + fmt_string_gms(*f),
{
    match f {
        VariantOrUnknownOrEmpty::Empty => (),
        VariantOrUnknownOrEmpty::Item(x) => {
            let name = string_format_str(x).to_owned();
            push_member(out, "format", Value::Text(name));
        },
        VariantOrUnknownOrEmpty::Unknown(u) => push_member(out, "format", Value::Text(u.clone())),
    }
    proof {
        assert(crate::value::gv_members(final(out)@) =~= crate::value::gv_members(old(out)@)
            + fmt_string_gms(*f));
    }
}

/// Appends the number-format member, left out when absent.
fn push_fmt_number(out: &mut Vec<Member>, f: &VariantOrUnknownOrEmpty<crate::schema::NumberFormat>)
    ensures
        crate::value::gv_members(final(out)@) == crate::value::gv_members(old(out)@)
            + fmt_number_gms(*f),
{
    match f {
        VariantOrUnknownOrEmpty::Empty => (),
        VariantOrUnknownOrEmpty::Item(x) => {
            let name = number_format_str(x).to_owned();
            push_member(out, "format", Value::Text(name));
        },
        VariantOrUnknownOrEmpty::Unknown(u) => push_member(out, "format", Value::Text(u.clone())),
    }
    proof {
        assert(crate::value::gv_members(final(out)@) =~= crate::value::gv_members(old(out)@)
            + fmt_number_gms(*f));
    }
}

/// Appends the integer-format member, left out when absent.
fn push_fmt_integer(
    out: &mut Vec<Member>,
    f: &VariantOrUnknownOrEmpty<crate::schema::IntegerFormat>,
)
    ensures
        crate::value::gv_members(final(out)@) == crate::value::gv_members(old(out)@)
            + fmt_integer_gms(*f),
{
    match f {
        VariantOrUnknownOrEmpty::Empty => (),
        VariantOrUnknownOrEmpty::Item(x) => {
            let name = integer_format_str(x).to_owned();
            push_member(out, "format", Value::Text(name));
        },
        VariantOrUnknownOrEmpty::Unknown(u) => push_member(out, "format", Value::Text(u.clone())),
    }
    proof {
        assert(crate::value::gv_members(final(out)@) =~= crate::value::gv_members(old(out)@)
            + fmt_integer_gms(*f));
    }
}


/// Encodes the shared data: named attributes in declaration order, then the
/// extension map spliced back in.
fn encode_data(d: &SchemaData) -> (out: Vec<Member>)
    ensures
        crate::value::gv_members(out@) == data_gmembers(*d),
{
    let mut out: Vec<Member> = Vec::new();
    push_flag(&mut out, "nullable", d.nullable);
    push_flag(&mut out, "readOnly", d.read_only);
    push_flag(&mut out, "writeOnly", d.write_only);
    push_flag(&mut out, "deprecated", d.deprecated);
    push_extdocs(&mut out, &d.external_docs);
    push_opt_value(&mut out, "example", &d.example);
    push_opt_text(&mut out, "title", &d.title);
    push_opt_text(&mut out, "description", &d.description);
    push_discriminator(&mut out, &d.discriminator);
    push_opt_value(&mut out, "default", &d.default);
    push_extensions(&mut out, &d.extensions);
    proof {
        assert(crate::value::gv_members(out@) =~= data_gmembers(*d));
    }
    out
}

/// Encodes the elements of a combinator's branch list.
fn encode_ref_items(rs: &Vec<ReferenceOr<Schema>>) -> (items: Vec<Value>)
    ensures
        crate::value::gv_list(items@) == list_gvs(rs@),
    decreases rs, 8int, 0int,
{
    let mut items: Vec<Value> = Vec::new();
    let mut i: usize = 0;
    while i < rs.len()
        invariant
            i <= rs@.len(),
            items@.len() == i,
            forall|j: int| 0 <= j < i ==> (#[trigger] items@[j]).gv() == refor_gv(rs@[j]),
        decreases rs@.len() - i,
    {
        proof {
            assert(decreases_to!(*rs => rs@));
            vstd::std_specs::vec::axiom_vec_index_decreases(*rs, i as int);
        }
        let v = encode_refor(&rs[i]);
        items.push(v);
        i += 1;
    }
    proof {
        crate::value::lemma_gv_list(items@);
        lemma_list_gvs_index(rs@);
        assert(crate::value::gv_list(items@) =~= list_gvs(rs@));
    }
    items
}

/// The encoded branch list maps the branches elementwise.
proof fn lemma_list_gvs_index(rs: Seq<ReferenceOr<Schema>>)
    ensures
        list_gvs(rs).len() == rs.len(),
        forall|i: int| 0 <= i < rs.len() ==> list_gvs(rs)[i] == refor_gv(rs[i]),
    decreases rs.len(),
{
    if rs.len() > 0 {
        lemma_list_gvs_index(rs.drop_last());
    }
}

/// Encodes the entries of a property map as an object's members.
fn encode_props_obj(m: &StringMap<ReferenceOr<Box<Schema>>>) -> (pm: Vec<Member>)
    ensures
        crate::value::gv_members(pm@) == prop_entries_gms(m.entries@),
    decreases m, 9int, 0int,
{
    let mut pm: Vec<Member> = Vec::new();
    let mut i: usize = 0;
    while i < m.entries.len()
        invariant
            i <= m.entries@.len(),
            crate::value::gv_members(pm@).len() == i,
            forall|j: int|
                0 <= j < i ==> crate::value::gv_members(pm@)[j] == gm(
                    m.entries@[j].key@,
                    boxed_refor_gv(m.entries@[j].value),
                ),
        decreases m.entries@.len() - i,
    {
        proof {
            assert(decreases_to!(*m => m.entries));
            assert(decreases_to!(m.entries => m.entries@));
            vstd::std_specs::vec::axiom_vec_index_decreases(m.entries, i as int);
            assert(decreases_to!(m.entries@[i as int] => m.entries@[i as int].value));
        }
        let v = encode_boxed_refor(&m.entries[i].value);
        let key = m.entries[i].key.clone();
        let ghost pre = pm@;
        pm.push(Member { name: key, value: v });
        proof {
            lemma_gvm_push(pre, pm@.last());
        }
        i += 1;
    }
    proof {
        lemma_prop_entries_index(m.entries@);
        assert(crate::value::gv_members(pm@) =~= prop_entries_gms(m.entries@));
    }
    pm
}

/// The encoded property entries map the stored entries elementwise.
proof fn lemma_prop_entries_index(es: Seq<Entry<ReferenceOr<Box<Schema>>>>)
    ensures
        prop_entries_gms(es).len() == es.len(),
        forall|i: int|
            0 <= i < es.len() ==> prop_entries_gms(es)[i] == gm(
                es[i].key@,
                boxed_refor_gv(es[i].value),
            ),
    decreases es.len(),
{
    if es.len() > 0 {
        lemma_prop_entries_index(es.drop_last());
    }
}

/// Encodes an additional-properties policy as the member's value.
fn encode_addl(ap: &AdditionalProperties) -> (v: Value)
    ensures
        v.gv() == (match *ap {
            AdditionalProperties::Any(b) => GValue::Bool(b),
            AdditionalProperties::Schema(bx) => refor_gv(*bx),
        }),
    decreases ap, 11int, 0int,
{
    match ap {
        AdditionalProperties::Any(b) => Value::Bool(*b),
        AdditionalProperties::Schema(bx) => {
            proof {
                assert(decreases_to!(*ap => ap->Schema_0));
            }
            encode_refor(&**bx)
        },
    }
}

/// Encodes one primitive type: its tag and its legal fields.
#[verifier::rlimit(100)]
#[verifier::spinoff_prover]
fn encode_type(t: &Type) -> (out: Vec<Member>)
    ensures
        crate::value::gv_members(out@) == type_gmembers(*t),
    decreases t, 12int, 0int,
{
    let mut out: Vec<Member> = Vec::new();
    match t {
    Type::String(st) => {
        push_member(&mut out, "type", Value::Text("string".to_owned()));
        push_fmt_string(&mut out, &st.format);
        push_opt_text(&mut out, "pattern", &st.pattern);
        push_str_enum(&mut out, &st.enumeration);
        push_opt_size(&mut out, "minLength", &st.min_length);
        push_opt_size(&mut out, "maxLength", &st.max_length);
    },
    Type::Number(nt) => {
        push_member(&mut out, "type", Value::Text("number".to_owned()));
        push_fmt_number(&mut out, &nt.format);
        push_opt_num(&mut out, "multipleOf", &nt.multiple_of);
        push_flag(&mut out, "exclusiveMinimum", nt.exclusive_minimum);
        push_flag(&mut out, "exclusiveMaximum", nt.exclusive_maximum);
        push_opt_num(&mut out, "minimum", &nt.minimum);
        push_opt_num(&mut out, "maximum", &nt.maximum);
        push_num_enum(&mut out, &nt.enumeration);
    },
    Type::Integer(it) => {
        push_member(&mut out, "type", Value::Text("integer".to_owned()));
        push_fmt_integer(&mut out, &it.format);
        push_opt_int(&mut out, "multipleOf", &it.multiple_of);
        push_flag(&mut out, "exclusiveMinimum", it.exclusive_minimum);
        push_flag(&mut out, "exclusiveMaximum", it.exclusive_maximum);
        push_opt_int(&mut out, "minimum", &it.minimum);
        push_opt_int(&mut out, "maximum", &it.maximum);
        push_int_enum(&mut out, &it.enumeration);
    },
    Type::Object(ot) => {
        push_member(&mut out, "type", Value::Text("object".to_owned()));
        if ot.properties.len() > 0 {
            proof {
                assert(decreases_to!(*t => t->Object_0));
                assert(decreases_to!(t->Object_0 => ot.properties));
            }
            let pm = encode_props_obj(&ot.properties);
            push_member(&mut out, "properties", Value::Object(pm));
        }
        push_text_list(&mut out, "required", &ot.required);
        match &ot.additional_properties {
            None => (),
            Some(ap) => {
                proof {
                    assert(decreases_to!(*t => t->Object_0));
                    assert(decreases_to!(t->Object_0 => ot.additional_properties));
                    assert(decreases_to!(ot.additional_properties => *ap));
                }
                let v = encode_addl(ap);
                push_member(&mut out, "additionalProperties", v);
            },
        }
        push_opt_size(&mut out, "minProperties", &ot.min_properties);
        push_opt_size(&mut out, "maxProperties", &ot.max_properties);
    },
    Type::Array(at) => {
        push_member(&mut out, "type", Value::Text("array".to_owned()));
        match &at.items {
            None => (),
            Some(r) => {
                proof {
                    assert(decreases_to!(*t => t->Array_0));
                    assert(decreases_to!(t->Array_0 => at.items));
                    assert(decreases_to!(at.items => *r));
                }
                let v = encode_boxed_refor(r);
                push_member(&mut out, "items", v);
            },
        }
        push_opt_size(&mut out, "minItems", &at.min_items);
        push_opt_size(&mut out, "maxItems", &at.max_items);
        push_flag(&mut out, "uniqueItems", at.unique_items);
    },
    Type::Boolean(bt) => {
        push_member(&mut out, "type", Value::Text("boolean".to_owned()));
        push_bool_enum(&mut out, &bt.enumeration);
    },
    }
    proof {
        reveal_strlit("string");
        reveal_strlit("number");
        reveal_strlit("integer");
        reveal_strlit("object");
        reveal_strlit("array");
        reveal_strlit("boolean");
        assert(crate::value::gv_members(out@) =~= type_gmembers(*t));
    }
    out
}

/// Encodes the catch-all: every populated field, in declaration order.
#[verifier::rlimit(100)]
#[verifier::spinoff_prover]
fn encode_any(a: &AnySchema) -> (out: Vec<Member>)
    ensures
        crate::value::gv_members(out@) == any_gmembers(*a),
    decreases a, 12int, 0int,
{
    let mut out: Vec<Member> = Vec::new();

    push_opt_text(&mut out, "type", &a.typ);
    push_opt_text(&mut out, "pattern", &a.pattern);
    push_opt_num(&mut out, "multipleOf", &a.multiple_of);
    push_opt_bool(&mut out, "exclusiveMinimum", &a.exclusive_minimum);
    push_opt_bool(&mut out, "exclusiveMaximum", &a.exclusive_maximum);
    push_opt_num(&mut out, "minimum", &a.minimum);
    push_opt_num(&mut out, "maximum", &a.maximum);
    if a.properties.len() > 0 {
        proof {
            assert(decreases_to!(*a => a.properties));
        }
        let pm = encode_props_obj(&a.properties);
        push_member(&mut out, "properties", Value::Object(pm));
    }
    push_text_list(&mut out, "required", &a.required);
    match &a.additional_properties {
        None => (),
        Some(ap) => {
            proof {
                assert(decreases_to!(*a => a.additional_properties));
                assert(decreases_to!(a.additional_properties => *ap));
            }
            let v = encode_addl(ap);
            push_member(&mut out, "additionalProperties", v);
        },
    }
    push_opt_size(&mut out, "minProperties", &a.min_properties);
    push_opt_size(&mut out, "maxProperties", &a.max_properties);
    match &a.items {
        None => (),
        Some(r) => {
            proof {
                assert(decreases_to!(*a => a.items));
                assert(decreases_to!(a.items => *r));
            }
            let v = encode_boxed_refor(r);
            push_member(&mut out, "items", v);
        },
    }
    push_opt_size(&mut out, "minItems", &a.min_items);
    push_opt_size(&mut out, "maxItems", &a.max_items);
    push_opt_bool(&mut out, "uniqueItems", &a.unique_items);
    push_raw_enum(&mut out, &a.enumeration);
    push_opt_text(&mut out, "format", &a.format);
    push_opt_size(&mut out, "minLength", &a.min_length);
    push_opt_size(&mut out, "maxLength", &a.max_length);
    if a.one_of.len() > 0 {
        proof {
            assert(decreases_to!(*a => a.one_of));
        }
        let items = encode_ref_items(&a.one_of);
        push_member(&mut out, "oneOf", Value::List(items));
    }
    if a.all_of.len() > 0 {
        proof {
            assert(decreases_to!(*a => a.all_of));
        }
        let items = encode_ref_items(&a.all_of);
        push_member(&mut out, "allOf", Value::List(items));
    }
    if a.any_of.len() > 0 {
        proof {
            assert(decreases_to!(*a => a.any_of));
        }
        let items = encode_ref_items(&a.any_of);
        push_member(&mut out, "anyOf", Value::List(items));
    }
    match &a.not {
        None => (),
        Some(bx) => {
            proof {
                assert(decreases_to!(*a => a.not));
                assert(decreases_to!(a.not => *bx));
            }
            let v = encode_refor(&**bx);
            push_member(&mut out, "not", v);
        },
    }

    proof {
        assert(crate::value::gv_members(out@) =~= any_gmembers(*a));
    }
    out
}

/// Encodes one schema kind: a pure type emits its tag and its legal fields,
/// a combinator its one field, and the catch-all every populated field.
fn encode_kind(k: &SchemaKind) -> (out: Vec<Member>)
    ensures
        crate::value::gv_members(out@) == kind_gmembers(*k),
    decreases k, 13int, 0int,
{
    let mut out: Vec<Member> = Vec::new();
    match k {
        SchemaKind::Type(t) => {
            proof {
                assert(decreases_to!(*k => k->Type_0));
            }
            out = encode_type(t);
        },
        SchemaKind::OneOf { one_of } => {
            proof {
                assert(decreases_to!(*k => k->OneOf_one_of));
            }
            let items = encode_ref_items(one_of);
            push_member(&mut out, "oneOf", Value::List(items));
        },
        SchemaKind::AllOf { all_of } => {
            proof {
                assert(decreases_to!(*k => k->AllOf_all_of));
            }
            let items = encode_ref_items(all_of);
            push_member(&mut out, "allOf", Value::List(items));
        },
        SchemaKind::AnyOf { any_of } => {
            proof {
                assert(decreases_to!(*k => k->AnyOf_any_of));
            }
            let items = encode_ref_items(any_of);
            push_member(&mut out, "anyOf", Value::List(items));
        },
        SchemaKind::Not { not } => {
            proof {
                assert(decreases_to!(*k => k->Not_not));
            }
            let v = encode_refor(&**not);
            push_member(&mut out, "not", v);
        },
        SchemaKind::Any(a) => {
            proof {
                assert(decreases_to!(*k => k->Any_0));
            }
            out = encode_any(a);
        },
    }
    proof {
        assert(crate::value::gv_members(out@) =~= kind_gmembers(*k));
    }
    out
}

/// Encodes a pointer or an inline schema: the pointer as an object holding
/// nothing but the pointer field.
pub fn encode_schema_ref(r: &ReferenceOr<Schema>) -> (v: Value)
    ensures
        v.gv() == refor_gv(*r),
    decreases r, 10int, 0int,
{
    encode_refor(r)
}

fn encode_refor(r: &ReferenceOr<Schema>) -> (v: Value)
    ensures
        v.gv() == refor_gv(*r),
    decreases r, 10int, 1int,
{
    match r {
        ReferenceOr::Reference { reference } => {
            let mut ms: Vec<Member> = Vec::new();
            push_member(&mut ms, "$ref", Value::Text(reference.clone()));
            proof {
                assert(crate::value::gv_members(ms@) =~= seq![
                    gm("$ref"@, GValue::Text(reference@)),
                ]);
            }
            Value::Object(ms)
        },
        ReferenceOr::Item(sx) => {
            proof {
                assert(decreases_to!(*r => r->Item_0));
            }
            encode_schema(sx)
        },
    }
}

fn encode_boxed_refor(r: &ReferenceOr<Box<Schema>>) -> (v: Value)
    ensures
        v.gv() == boxed_refor_gv(*r),
    decreases r, 10int, 1int,
{
    match r {
        ReferenceOr::Reference { reference } => {
            let mut ms: Vec<Member> = Vec::new();
            push_member(&mut ms, "$ref", Value::Text(reference.clone()));
            proof {
                assert(crate::value::gv_members(ms@) =~= seq![
                    gm("$ref"@, GValue::Text(reference@)),
                ]);
            }
            Value::Object(ms)
        },
        ReferenceOr::Item(b) => {
            proof {
                assert(decreases_to!(*r => r->Item_0));
            }
            encode_schema(&**b)
        },
    }
}

/// Re-encodes one schema to the generic tree: the shared data's members in
/// declaration order, the extension map spliced back in, then the kind's
/// members — for the catch-all, every populated field, so nothing is lost.
/// The emitted tree is a function of the model value alone: encoding the
/// same schema twice gives the same shape.
pub fn encode_schema(s: &Schema) -> (v: Value)
    ensures
        v.gv() == schema_gv(*s),
    decreases s, 9int, 0int,
{
    let mut out = encode_data(&s.schema_data);
    proof {
        assert(decreases_to!(*s => s.schema_kind));
    }
    let mut kind_ms = encode_kind(&s.schema_kind);
    let ghost out0 = out@;
    let ghost kind0 = kind_ms@;
    out.append(&mut kind_ms);
    proof {
        lemma_gvm_concat(out0, kind0);
        assert(crate::value::gv_members(out@) =~= data_gmembers(s.schema_data) + kind_gmembers(
            s.schema_kind,
        ));
    }
    Value::Object(out)
}

} // verus!
