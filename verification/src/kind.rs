//! The kind resolver: classifies a raw schema field-set into exactly one
//! schema kind, most specific first.
//!
//! A field set that is exactly the legal field set of one primitive type
//! gives that type; a single combinator with nothing else gives that
//! combinator; everything else falls back to the catch-all, keeping every
//! recognized field.  The resolver never fails.

use vstd::prelude::*;
use crate::reference::ReferenceOr;
use crate::schema::{
    AdditionalProperties, AnySchema, ArrayType, BooleanType, IntegerType, NumberType, ObjectType,
    Schema, SchemaKind, StringType, Type,
};
use crate::strmap::StringMap;
use crate::value::{str_eq, Number, Value};
use crate::variant_or::{
    integer_format_from, number_format_from, string_format_from, VariantOrUnknownOrEmpty,
};

verus! {

/// The record of every field any schema kind could use, as decoded from one
/// raw object.
#[derive(Debug)]
pub struct RawSchema {
    pub typ: Option<String>,
    pub pattern: Option<String>,
    pub multiple_of: Option<Number>,
    pub exclusive_minimum: Option<bool>,
    pub exclusive_maximum: Option<bool>,
    pub minimum: Option<Number>,
    pub maximum: Option<Number>,
    pub properties: Option<StringMap<ReferenceOr<Box<Schema>>>>,
    pub required: Option<Vec<String>>,
    pub additional_properties: Option<AdditionalProperties>,
    pub min_properties: Option<usize>,
    pub max_properties: Option<usize>,
    pub items: Option<ReferenceOr<Box<Schema>>>,
    pub min_items: Option<usize>,
    pub max_items: Option<usize>,
    pub unique_items: Option<bool>,
    pub enumeration: Option<Vec<Value>>,
    pub format: Option<String>,
    pub min_length: Option<usize>,
    pub max_length: Option<usize>,
    pub one_of: Option<Vec<ReferenceOr<Schema>>>,
    pub all_of: Option<Vec<ReferenceOr<Schema>>>,
    pub any_of: Option<Vec<ReferenceOr<Schema>>>,
    pub not: Option<Box<ReferenceOr<Schema>>>,
}

/// Whether the type tag is present and holds exactly `s`.
pub open spec fn typ_is(r: RawSchema, s: Seq<char>) -> bool {
    r.typ matches Some(t) && t@ == s
}

/// A legal `string` enumeration entry: a string or the explicit null.
pub open spec fn string_entry(v: Value) -> bool {
    v is Null || v is Text
}

/// A legal `number` enumeration entry: a number or the explicit null.
pub open spec fn number_entry(v: Value) -> bool {
    v is Null || v is Num
}

/// A legal `integer` enumeration entry: an integral number or the explicit
/// null; a fractional literal is rejected.
pub open spec fn integer_entry(v: Value) -> bool {
    v is Null || (v matches Value::Num(n) && n is Int)
}

/// A legal `boolean` enumeration entry: a boolean or the explicit null.
pub open spec fn boolean_entry(v: Value) -> bool {
    v is Null || v is Bool
}

/// Whether every present enumeration entry is a string or null.
pub open spec fn enum_all_strings(e: Option<Vec<Value>>) -> bool {
    match e {
        None => true,
        Some(vs) => forall|i: int| 0 <= i < vs@.len() ==> string_entry(vs@[i]),
    }
}

/// Whether every present enumeration entry is a number or null.
pub open spec fn enum_all_numbers(e: Option<Vec<Value>>) -> bool {
    match e {
        None => true,
        Some(vs) => forall|i: int| 0 <= i < vs@.len() ==> number_entry(vs@[i]),
    }
}

/// Whether every present enumeration entry is an exact integer or null.
pub open spec fn enum_all_ints(e: Option<Vec<Value>>) -> bool {
    match e {
        None => true,
        Some(vs) => forall|i: int| 0 <= i < vs@.len() ==> integer_entry(vs@[i]),
    }
}

/// Whether every present enumeration entry is a boolean or null.
pub open spec fn enum_all_bools(e: Option<Vec<Value>>) -> bool {
    match e {
        None => true,
        Some(vs) => forall|i: int| 0 <= i < vs@.len() ==> boolean_entry(vs@[i]),
    }
}

/// An absent numeric field, or one holding an exact integer.
pub open spec fn none_or_int_spec(v: Option<Number>) -> bool {
    match v {
        None => true,
        Some(n) => n is Int,
    }
}

/// No field outside the shared data is present except those legal for every
/// primitive type case below its own allowances.
pub open spec fn no_object_fields(r: RawSchema) -> bool {
    &&& r.properties is None
    &&& r.required is None
    &&& r.additional_properties is None
    &&& r.min_properties is None
    &&& r.max_properties is None
}

/// None of the array-only fields is present.
pub open spec fn no_array_fields(r: RawSchema) -> bool {
    &&& r.items is None
    &&& r.min_items is None
    &&& r.max_items is None
    &&& r.unique_items is None
}

/// None of the numeric-range fields is present.
pub open spec fn no_number_fields(r: RawSchema) -> bool {
    &&& r.multiple_of is None
    &&& r.exclusive_minimum is None
    &&& r.exclusive_maximum is None
    &&& r.minimum is None
    &&& r.maximum is None
}

/// None of the string-only fields is present.
pub open spec fn no_string_fields(r: RawSchema) -> bool {
    &&& r.pattern is None
    &&& r.min_length is None
    &&& r.max_length is None
}

/// None of the four combinator fields is present.
pub open spec fn no_combinators(r: RawSchema) -> bool {
    &&& r.one_of is None
    &&& r.all_of is None
    &&& r.any_of is None
    &&& r.not is None
}

/// The field set is exactly the legal field set of the `string` type.
pub open spec fn shape_string(r: RawSchema) -> bool {
    &&& typ_is(r, "string"@)
    &&& no_number_fields(r)
    &&& no_object_fields(r)
    &&& no_array_fields(r)
    &&& no_combinators(r)
    &&& enum_all_strings(r.enumeration)
}

/// The field set is exactly the legal field set of the `number` type.
pub open spec fn shape_number(r: RawSchema) -> bool {
    &&& typ_is(r, "number"@)
    &&& no_string_fields(r)
    &&& no_object_fields(r)
    &&& no_array_fields(r)
    &&& no_combinators(r)
    &&& enum_all_numbers(r.enumeration)
}

/// The field set is exactly the legal field set of the `integer` type, and
/// its numeric fields hold exact integers.
pub open spec fn shape_integer(r: RawSchema) -> bool {
    &&& typ_is(r, "integer"@)
    &&& no_string_fields(r)
    &&& no_object_fields(r)
    &&& no_array_fields(r)
    &&& no_combinators(r)
    &&& enum_all_ints(r.enumeration)
    &&& none_or_int_spec(r.multiple_of)
    &&& none_or_int_spec(r.minimum)
    &&& none_or_int_spec(r.maximum)
}

/// The field set is exactly the legal field set of the `boolean` type.
pub open spec fn shape_boolean(r: RawSchema) -> bool {
    &&& typ_is(r, "boolean"@)
    &&& no_string_fields(r)
    &&& no_number_fields(r)
    &&& no_object_fields(r)
    &&& no_array_fields(r)
    &&& no_combinators(r)
    &&& r.format is None
    &&& enum_all_bools(r.enumeration)
}

/// The field set is exactly the legal field set of the `object` type.
pub open spec fn shape_object(r: RawSchema) -> bool {
    &&& typ_is(r, "object"@)
    &&& no_string_fields(r)
    &&& no_number_fields(r)
    &&& no_array_fields(r)
    &&& no_combinators(r)
    &&& r.enumeration is None
    &&& r.format is None
}

/// The field set is exactly the legal field set of the `array` type.
pub open spec fn shape_array(r: RawSchema) -> bool {
    &&& typ_is(r, "array"@)
    &&& no_string_fields(r)
    &&& no_number_fields(r)
    &&& no_object_fields(r)
    &&& no_combinators(r)
    &&& r.enumeration is None
    &&& r.format is None
}

/// Besides one combinator field, nothing at all is present.
pub open spec fn only_combinator_left(r: RawSchema) -> bool {
    &&& r.typ is None
    &&& no_string_fields(r)
    &&& no_number_fields(r)
    &&& no_object_fields(r)
    &&& no_array_fields(r)
    &&& r.enumeration is None
    &&& r.format is None
}

/// Exactly the `oneOf` field is present.
pub open spec fn shape_one_of(r: RawSchema) -> bool {
    &&& only_combinator_left(r)
    &&& r.one_of is Some
    &&& r.all_of is None
    &&& r.any_of is None
    &&& r.not is None
}

/// Exactly the `allOf` field is present.
pub open spec fn shape_all_of(r: RawSchema) -> bool {
    &&& only_combinator_left(r)
    &&& r.one_of is None
    &&& r.all_of is Some
    &&& r.any_of is None
    &&& r.not is None
}

/// Exactly the `anyOf` field is present.
pub open spec fn shape_any_of(r: RawSchema) -> bool {
    &&& only_combinator_left(r)
    &&& r.one_of is None
    &&& r.all_of is None
    &&& r.any_of is Some
    &&& r.not is None
}

/// Exactly the `not` field is present.
pub open spec fn shape_not(r: RawSchema) -> bool {
    &&& only_combinator_left(r)
    &&& r.one_of is None
    &&& r.all_of is None
    &&& r.any_of is None
    &&& r.not is Some
}

/// The flag a stored optional boolean stands for; absence means unset.
pub open spec fn opt_flag(o: Option<bool>) -> bool {
    match o {
        Some(b) => b,
        None => false,
    }
}

/// The exact integers of integral numeric fields.
pub open spec fn int_of(o: Option<Number>) -> Option<i64> {
    match o {
        None => None,
        Some(n) => Some(n->Int_0),
    }
}

/// The decoded string enumeration: each entry a string, or `None` for the
/// explicit null.
pub open spec fn enum_strings_rel(e: Option<Vec<Value>>, out: Seq<Option<String>>) -> bool {
    match e {
        None => out.len() == 0,
        Some(vs) => out.len() == vs@.len() && forall|i: int|
            0 <= i < vs@.len() ==> {
                &&& (vs@[i] is Null ==> out[i] is None)
                &&& (vs@[i] matches Value::Text(s) ==> out[i] == Some(s))
            },
    }
}

/// The decoded number enumeration: each entry a number, or `None` for the
/// explicit null.
pub open spec fn enum_numbers_rel(e: Option<Vec<Value>>, out: Seq<Option<Number>>) -> bool {
    match e {
        None => out.len() == 0,
        Some(vs) => out.len() == vs@.len() && forall|i: int|
            0 <= i < vs@.len() ==> {
                &&& (vs@[i] is Null ==> out[i] is None)
                &&& (vs@[i] matches Value::Num(n) ==> out[i] == Some(n))
            },
    }
}

/// The decoded integer enumeration: each entry an exact integer, or `None`
/// for the explicit null.
pub open spec fn enum_ints_rel(e: Option<Vec<Value>>, out: Seq<Option<i64>>) -> bool {
    match e {
        None => out.len() == 0,
        Some(vs) => out.len() == vs@.len() && forall|i: int|
            0 <= i < vs@.len() ==> {
                &&& (vs@[i] is Null ==> out[i] is None)
                &&& (vs@[i] matches Value::Num(n) ==> out[i] == Some(n->Int_0))
            },
    }
}

/// The decoded boolean enumeration: each entry a boolean, or `None` for the
/// explicit null.
pub open spec fn enum_bools_rel(e: Option<Vec<Value>>, out: Seq<Option<bool>>) -> bool {
    match e {
        None => out.len() == 0,
        Some(vs) => out.len() == vs@.len() && forall|i: int|
            0 <= i < vs@.len() ==> {
                &&& (vs@[i] is Null ==> out[i] is None)
                &&& (vs@[i] matches Value::Bool(b) ==> out[i] == Some(b))
            },
    }
}

/// The string case keeps the string fields and coerces the enumeration.
pub open spec fn string_rel(r: RawSchema, st: StringType) -> bool {
    &&& st.format == string_format_from(r.format)
    &&& st.pattern == r.pattern
    &&& enum_strings_rel(r.enumeration, st.enumeration@)
    &&& st.min_length == r.min_length
    &&& st.max_length == r.max_length
}

/// The number case keeps the numeric fields and coerces the enumeration.
pub open spec fn number_rel(r: RawSchema, nt: NumberType) -> bool {
    &&& nt.format == number_format_from(r.format)
    &&& nt.multiple_of == r.multiple_of
    &&& nt.exclusive_minimum == opt_flag(r.exclusive_minimum)
    &&& nt.exclusive_maximum == opt_flag(r.exclusive_maximum)
    &&& nt.minimum == r.minimum
    &&& nt.maximum == r.maximum
    &&& enum_numbers_rel(r.enumeration, nt.enumeration@)
}

/// The integer case keeps the numeric fields as exact integers.
pub open spec fn integer_rel(r: RawSchema, it: IntegerType) -> bool {
    &&& it.format == integer_format_from(r.format)
    &&& it.multiple_of == int_of(r.multiple_of)
    &&& it.exclusive_minimum == opt_flag(r.exclusive_minimum)
    &&& it.exclusive_maximum == opt_flag(r.exclusive_maximum)
    &&& it.minimum == int_of(r.minimum)
    &&& it.maximum == int_of(r.maximum)
    &&& enum_ints_rel(r.enumeration, it.enumeration@)
}

/// The boolean case coerces the enumeration.
pub open spec fn boolean_rel(r: RawSchema, bt: BooleanType) -> bool {
    enum_bools_rel(r.enumeration, bt.enumeration@)
}

/// The object case keeps the object fields, absent maps and lists becoming
/// empty ones.
pub open spec fn object_rel(r: RawSchema, ot: ObjectType) -> bool {
    &&& match r.properties {
        Some(m) => ot.properties == m,
        None => ot.properties.spec_len() == 0,
    }
    &&& match r.required {
        Some(v) => ot.required == v,
        None => ot.required@.len() == 0,
    }
    &&& ot.additional_properties == r.additional_properties
    &&& ot.min_properties == r.min_properties
    &&& ot.max_properties == r.max_properties
}

/// The array case keeps the array fields.
pub open spec fn array_rel(r: RawSchema, at: ArrayType) -> bool {
    &&& at.items == r.items
    &&& at.min_items == r.min_items
    &&& at.max_items == r.max_items
    &&& at.unique_items == opt_flag(r.unique_items)
}

/// The catch-all keeps every recognized field that was present, absent maps
/// and lists becoming empty ones: nothing is lost.
pub open spec fn any_rel(r: RawSchema, a: AnySchema) -> bool {
    &&& a.typ == r.typ
    &&& a.pattern == r.pattern
    &&& a.multiple_of == r.multiple_of
    &&& a.exclusive_minimum == r.exclusive_minimum
    &&& a.exclusive_maximum == r.exclusive_maximum
    &&& a.minimum == r.minimum
    &&& a.maximum == r.maximum
    &&& match r.properties {
        Some(m) => a.properties == m,
        None => a.properties.spec_len() == 0,
    }
    &&& match r.required {
        Some(v) => a.required == v,
        None => a.required@.len() == 0,
    }
    &&& a.additional_properties == r.additional_properties
    &&& a.min_properties == r.min_properties
    &&& a.max_properties == r.max_properties
    &&& a.items == r.items
    &&& a.min_items == r.min_items
    &&& a.max_items == r.max_items
    &&& a.unique_items == r.unique_items
    &&& match r.enumeration {
        Some(v) => a.enumeration == v,
        None => a.enumeration@.len() == 0,
    }
    &&& a.format == r.format
    &&& a.min_length == r.min_length
    &&& a.max_length == r.max_length
    &&& match r.one_of {
        Some(v) => a.one_of == v,
        None => a.one_of@.len() == 0,
    }
    &&& match r.all_of {
        Some(v) => a.all_of == v,
        None => a.all_of@.len() == 0,
    }
    &&& match r.any_of {
        Some(v) => a.any_of == v,
        None => a.any_of@.len() == 0,
    }
    &&& a.not == r.not
}

/// The disjoint case analysis of the resolver, most specific first: a pure
/// primitive-type field set gives that type, a lone combinator gives that
/// combinator, and everything else falls back to the catch-all.
pub open spec fn classify_rel(r: RawSchema, k: SchemaKind) -> bool {
    if shape_string(r) {
        k matches SchemaKind::Type(t) && t matches Type::String(st) && string_rel(r, st)
    } else if shape_number(r) {
        k matches SchemaKind::Type(t) && t matches Type::Number(nt) && number_rel(r, nt)
    } else if shape_integer(r) {
        k matches SchemaKind::Type(t) && t matches Type::Integer(it) && integer_rel(r, it)
    } else if shape_boolean(r) {
        k matches SchemaKind::Type(t) && t matches Type::Boolean(bt) && boolean_rel(r, bt)
    } else if shape_object(r) {
        k matches SchemaKind::Type(t) && t matches Type::Object(ot) && object_rel(r, ot)
    } else if shape_array(r) {
        k matches SchemaKind::Type(t) && t matches Type::Array(at) && array_rel(r, at)
    } else if shape_one_of(r) {
        k matches SchemaKind::OneOf { one_of } && Some(one_of) == r.one_of
    } else if shape_all_of(r) {
        k matches SchemaKind::AllOf { all_of } && Some(all_of) == r.all_of
    } else if shape_any_of(r) {
        k matches SchemaKind::AnyOf { any_of } && Some(any_of) == r.any_of
    } else if shape_not(r) {
        k matches SchemaKind::Not { not } && Some(not) == r.not
    } else {
        k matches SchemaKind::Any(a) && any_rel(r, a)
    }
}


/// One entry of the wrong kind refutes the whole enumeration check.
proof fn lemma_refute_enum_all_strings(e: Option<Vec<Value>>, i: int)
    requires
        e matches Some(vs) && 0 <= i < vs@.len() && !string_entry(vs@[i]),
    ensures
        !enum_all_strings(e),
{
}

/// One entry of the wrong kind refutes the whole enumeration check.
proof fn lemma_refute_enum_all_numbers(e: Option<Vec<Value>>, i: int)
    requires
        e matches Some(vs) && 0 <= i < vs@.len() && !number_entry(vs@[i]),
    ensures
        !enum_all_numbers(e),
{
}

/// One entry of the wrong kind refutes the whole enumeration check.
proof fn lemma_refute_enum_all_ints(e: Option<Vec<Value>>, i: int)
    requires
        e matches Some(vs) && 0 <= i < vs@.len() && !integer_entry(vs@[i]),
    ensures
        !enum_all_ints(e),
{
}

/// One entry of the wrong kind refutes the whole enumeration check.
proof fn lemma_refute_enum_all_bools(e: Option<Vec<Value>>, i: int)
    requires
        e matches Some(vs) && 0 <= i < vs@.len() && !boolean_entry(vs@[i]),
    ensures
        !enum_all_bools(e),
{
}

/// Whether every present enumeration entry is a string or null.
fn enum_ok_strings(e: &Option<Vec<Value>>) -> (r: bool)
    ensures
        r == enum_all_strings(*e),
{
    match e {
        None => true,
        Some(vs) => {
            let mut i: usize = 0;
            while i < vs.len()
                invariant
                    *e == Some(*vs),
                    i <= vs@.len(),
                    forall|j: int| 0 <= j < i ==> string_entry(vs@[j]),
                decreases vs@.len() - i,
            {
                match &vs[i] {
                    Value::Null => (),
                    Value::Text(_) => (),
                    _ => {
                        proof {
                            lemma_refute_enum_all_strings(*e, i as int);
                        }
                        return false;
                    },
                }
                i += 1;
            }
            true
        },
    }
}

/// Whether every present enumeration entry is a number or null.
fn enum_ok_numbers(e: &Option<Vec<Value>>) -> (r: bool)
    ensures
        r == enum_all_numbers(*e),
{
    match e {
        None => true,
        Some(vs) => {
            let mut i: usize = 0;
            while i < vs.len()
                invariant
                    *e == Some(*vs),
                    i <= vs@.len(),
                    forall|j: int| 0 <= j < i ==> number_entry(vs@[j]),
                decreases vs@.len() - i,
            {
                match &vs[i] {
                    Value::Null => (),
                    Value::Num(_) => (),
                    _ => {
                        proof {
                            lemma_refute_enum_all_numbers(*e, i as int);
                        }
                        return false;
                    },
                }
                i += 1;
            }
            true
        },
    }
}

/// Whether every present enumeration entry is an exact integer or null.
fn enum_ok_ints(e: &Option<Vec<Value>>) -> (r: bool)
    ensures
        r == enum_all_ints(*e),
{
    match e {
        None => true,
        Some(vs) => {
            let mut i: usize = 0;
            while i < vs.len()
                invariant
                    *e == Some(*vs),
                    i <= vs@.len(),
                    forall|j: int| 0 <= j < i ==> integer_entry(vs@[j]),
                decreases vs@.len() - i,
            {
                match &vs[i] {
                    Value::Null => (),
                    Value::Num(Number::Int(_)) => (),
                    _ => {
                        proof {
                            lemma_refute_enum_all_ints(*e, i as int);
                        }
                        return false;
                    },
                }
                i += 1;
            }
            true
        },
    }
}

/// Whether every present enumeration entry is a boolean or null.
fn enum_ok_bools(e: &Option<Vec<Value>>) -> (r: bool)
    ensures
        r == enum_all_bools(*e),
{
    match e {
        None => true,
        Some(vs) => {
            let mut i: usize = 0;
            while i < vs.len()
                invariant
                    *e == Some(*vs),
                    i <= vs@.len(),
                    forall|j: int| 0 <= j < i ==> boolean_entry(vs@[j]),
                decreases vs@.len() - i,
            {
                match &vs[i] {
                    Value::Null => (),
                    Value::Bool(_) => (),
                    _ => {
                        proof {
                            lemma_refute_enum_all_bools(*e, i as int);
                        }
                        return false;
                    },
                }
                i += 1;
            }
            true
        },
    }
}

/// An absent numeric field, or one holding an exact integer.
pub fn none_or_int(value: &Option<Number>) -> (r: bool)
    ensures
        r == none_or_int_spec(*value),
{
    match value {
        None => true,
        Some(n) => n.is_int(),
    }
}

/// The string enumeration: each stored string, with `None` for the explicit
/// null entry.
fn enum_strings(vs: &Vec<Value>) -> (r: Vec<Option<String>>)
    requires
        forall|i: int| 0 <= i < vs@.len() ==> string_entry(vs@[i]),
    ensures
        enum_strings_rel(Some(*vs), r@),
{
    let mut out: Vec<Option<String>> = Vec::new();
    let mut i: usize = 0;
    while i < vs.len()
        invariant
            i <= vs@.len(),
            out@.len() == i,
            forall|j: int| 0 <= j < vs@.len() ==> string_entry(vs@[j]),
            forall|j: int|
                0 <= j < i ==> {
                    &&& (vs@[j] is Null ==> out@[j] is None)
                    &&& (vs@[j] matches Value::Text(s) ==> out@[j] == Some(s))
                },
        decreases vs@.len() - i,
    {
        match &vs[i] {
            Value::Null => out.push(None),
            Value::Text(s) => out.push(Some(s.clone())),
            _ => {
                proof {
                    assert(string_entry(vs@[i as int]));
                }
                out.push(unreached())
            },
        }
        i += 1;
    }
    out
}

/// The number enumeration: each stored number, with `None` for the explicit
/// null entry.
fn enum_numbers(vs: &Vec<Value>) -> (r: Vec<Option<Number>>)
    requires
        forall|i: int| 0 <= i < vs@.len() ==> number_entry(vs@[i]),
    ensures
        enum_numbers_rel(Some(*vs), r@),
{
    let mut out: Vec<Option<Number>> = Vec::new();
    let mut i: usize = 0;
    while i < vs.len()
        invariant
            i <= vs@.len(),
            out@.len() == i,
            forall|j: int| 0 <= j < vs@.len() ==> number_entry(vs@[j]),
            forall|j: int|
                0 <= j < i ==> {
                    &&& (vs@[j] is Null ==> out@[j] is None)
                    &&& (vs@[j] matches Value::Num(n) ==> out@[j] == Some(n))
                },
        decreases vs@.len() - i,
    {
        match &vs[i] {
            Value::Null => out.push(None),
            Value::Num(n) => out.push(Some(*n)),
            _ => {
                proof {
                    assert(number_entry(vs@[i as int]));
                }
                out.push(unreached())
            },
        }
        i += 1;
    }
    out
}

/// The integer enumeration: each stored exact integer, with `None` for the
/// explicit null entry.
fn enum_ints(vs: &Vec<Value>) -> (r: Vec<Option<i64>>)
    requires
        forall|i: int| 0 <= i < vs@.len() ==> integer_entry(vs@[i]),
    ensures
        enum_ints_rel(Some(*vs), r@),
{
    let mut out: Vec<Option<i64>> = Vec::new();
    let mut i: usize = 0;
    while i < vs.len()
        invariant
            i <= vs@.len(),
            out@.len() == i,
            forall|j: int| 0 <= j < vs@.len() ==> integer_entry(vs@[j]),
            forall|j: int|
                0 <= j < i ==> {
                    &&& (vs@[j] is Null ==> out@[j] is None)
                    &&& (vs@[j] matches Value::Num(n) ==> out@[j] == Some(n->Int_0))
                },
        decreases vs@.len() - i,
    {
        match &vs[i] {
            Value::Null => out.push(None),
            Value::Num(Number::Int(n)) => out.push(Some(*n)),
            _ => {
                proof {
                    assert(integer_entry(vs@[i as int]));
                }
                out.push(unreached())
            },
        }
        i += 1;
    }
    out
}

/// The boolean enumeration: each stored flag, with `None` for the explicit
/// null entry.
fn enum_bools(vs: &Vec<Value>) -> (r: Vec<Option<bool>>)
    requires
        forall|i: int| 0 <= i < vs@.len() ==> boolean_entry(vs@[i]),
    ensures
        enum_bools_rel(Some(*vs), r@),
{
    let mut out: Vec<Option<bool>> = Vec::new();
    let mut i: usize = 0;
    while i < vs.len()
        invariant
            i <= vs@.len(),
            out@.len() == i,
            forall|j: int| 0 <= j < vs@.len() ==> boolean_entry(vs@[j]),
            forall|j: int|
                0 <= j < i ==> {
                    &&& (vs@[j] is Null ==> out@[j] is None)
                    &&& (vs@[j] matches Value::Bool(b) ==> out@[j] == Some(b))
                },
        decreases vs@.len() - i,
    {
        match &vs[i] {
            Value::Null => out.push(None),
            Value::Bool(b) => out.push(Some(*b)),
            _ => {
                proof {
                    assert(boolean_entry(vs@[i as int]));
                }
                out.push(unreached())
            },
        }
        i += 1;
    }
    out
}

/// The exact integers of integral numeric fields.
fn opt_num_int(o: Option<Number>) -> (r: Option<i64>)
    requires
        none_or_int_spec(o),
    ensures
        r == int_of(o),
{
    match o {
        None => None,
        Some(Number::Int(n)) => Some(n),
        Some(Number::Frac(_)) => unreached(),
    }
}

/// The stored flag of an optional boolean; absence means unset.
fn opt_flag_exec(o: Option<bool>) -> (r: bool)
    ensures
        r == opt_flag(o),
{
    match o {
        Some(b) => b,
        None => false,
    }
}

/// Classifies a raw field set into exactly one schema kind, by the disjoint
/// case analysis of [`classify_rel`].  The resolver never fails: a field
/// combination matching no pure shape is kept whole in the catch-all.
pub fn classify(raw: RawSchema) -> (k: SchemaKind)
    ensures
        classify_rel(raw, k),
{
    let typ_string = match &raw.typ {
        Some(t) => str_eq(t.as_str(), "string"),
        None => false,
    };
    let typ_number = match &raw.typ {
        Some(t) => str_eq(t.as_str(), "number"),
        None => false,
    };
    let typ_integer = match &raw.typ {
        Some(t) => str_eq(t.as_str(), "integer"),
        None => false,
    };
    let typ_boolean = match &raw.typ {
        Some(t) => str_eq(t.as_str(), "boolean"),
        None => false,
    };
    let typ_object = match &raw.typ {
        Some(t) => str_eq(t.as_str(), "object"),
        None => false,
    };
    let typ_array = match &raw.typ {
        Some(t) => str_eq(t.as_str(), "array"),
        None => false,
    };
    let no_number = raw.multiple_of.is_none() && raw.exclusive_minimum.is_none()
        && raw.exclusive_maximum.is_none() && raw.minimum.is_none() && raw.maximum.is_none();
    let no_object = raw.properties.is_none() && raw.required.is_none()
        && raw.additional_properties.is_none() && raw.min_properties.is_none()
        && raw.max_properties.is_none();
    let no_array = raw.items.is_none() && raw.min_items.is_none() && raw.max_items.is_none()
        && raw.unique_items.is_none();
    let no_string = raw.pattern.is_none() && raw.min_length.is_none() && raw.max_length.is_none();
    let no_comb = raw.one_of.is_none() && raw.all_of.is_none() && raw.any_of.is_none()
        && raw.not.is_none();
    let enum_str = enum_ok_strings(&raw.enumeration);
    let enum_num = enum_ok_numbers(&raw.enumeration);
    let enum_int = enum_ok_ints(&raw.enumeration);
    let enum_bool = enum_ok_bools(&raw.enumeration);
    let ints_only = none_or_int(&raw.multiple_of) && none_or_int(&raw.minimum) && none_or_int(
        &raw.maximum,
    );
    let no_comb_left = raw.typ.is_none() && no_string && no_number && no_object && no_array
        && raw.enumeration.is_none() && raw.format.is_none();

    let RawSchema {
        typ,
        pattern,
        multiple_of,
        exclusive_minimum,
        exclusive_maximum,
        minimum,
        maximum,
        properties,
        required,
        additional_properties,
        min_properties,
        max_properties,
        items,
        min_items,
        max_items,
        unique_items,
        enumeration,
        format,
        min_length,
        max_length,
        one_of,
        all_of,
        any_of,
        not,
    } = raw;

    if typ_string && no_number && no_object && no_array && no_comb && enum_str {
        SchemaKind::Type(
            Type::String(
                StringType {
                    format: VariantOrUnknownOrEmpty::from(format),
                    pattern,
                    enumeration: match &enumeration {
                        Some(vs) => enum_strings(vs),
                        None => Vec::new(),
                    },
                    min_length,
                    max_length,
                },
            ),
        )
    } else if typ_number && no_string && no_object && no_array && no_comb && enum_num {
        SchemaKind::Type(
            Type::Number(
                NumberType {
                    format: VariantOrUnknownOrEmpty::from(format),
                    multiple_of,
                    exclusive_minimum: opt_flag_exec(exclusive_minimum),
                    exclusive_maximum: opt_flag_exec(exclusive_maximum),
                    minimum,
                    maximum,
                    enumeration: match &enumeration {
                        Some(vs) => enum_numbers(vs),
                        None => Vec::new(),
                    },
                },
            ),
        )
    } else if typ_integer && no_string && no_object && no_array && no_comb && enum_int
        && ints_only {
        SchemaKind::Type(
            Type::Integer(
                IntegerType {
                    format: VariantOrUnknownOrEmpty::from(format),
                    multiple_of: opt_num_int(multiple_of),
                    exclusive_minimum: opt_flag_exec(exclusive_minimum),
                    exclusive_maximum: opt_flag_exec(exclusive_maximum),
                    minimum: opt_num_int(minimum),
                    maximum: opt_num_int(maximum),
                    enumeration: match &enumeration {
                        Some(vs) => enum_ints(vs),
                        None => Vec::new(),
                    },
                },
            ),
        )
    } else if typ_boolean && no_string && no_number && no_object && no_array && no_comb
        && format.is_none() && enum_bool {
        SchemaKind::Type(
            Type::Boolean(
                BooleanType {
                    enumeration: match &enumeration {
                        Some(vs) => enum_bools(vs),
                        None => Vec::new(),
                    },
                },
            ),
        )
    } else if typ_object && no_string && no_number && no_array && no_comb && enumeration.is_none()
        && format.is_none() {
        SchemaKind::Type(
            Type::Object(
                ObjectType {
                    properties: match properties {
                        Some(m) => m,
                        None => StringMap::new(),
                    },
                    required: match required {
                        Some(v) => v,
                        None => Vec::new(),
                    },
                    additional_properties,
                    min_properties,
                    max_properties,
                },
            ),
        )
    } else if typ_array && no_string && no_number && no_object && no_comb && enumeration.is_none()
        && format.is_none() {
        SchemaKind::Type(
            Type::Array(
                ArrayType {
                    items,
                    min_items,
                    max_items,
                    unique_items: opt_flag_exec(unique_items),
                },
            ),
        )
    } else if no_comb_left && one_of.is_some() && all_of.is_none() && any_of.is_none()
        && not.is_none() {
        match one_of {
            Some(one_of) => SchemaKind::OneOf { one_of },
            None => unreached(),
        }
    } else if no_comb_left && one_of.is_none() && all_of.is_some() && any_of.is_none()
        && not.is_none() {
        match all_of {
            Some(all_of) => SchemaKind::AllOf { all_of },
            None => unreached(),
        }
    } else if no_comb_left && one_of.is_none() && all_of.is_none() && any_of.is_some()
        && not.is_none() {
        match any_of {
            Some(any_of) => SchemaKind::AnyOf { any_of },
            None => unreached(),
        }
    } else if no_comb_left && one_of.is_none() && all_of.is_none() && any_of.is_none()
        && not.is_some() {
        match not {
            Some(not) => SchemaKind::Not { not },
            None => unreached(),
        }
    } else {
        SchemaKind::Any(
            AnySchema {
                typ,
                pattern,
                multiple_of,
                exclusive_minimum,
                exclusive_maximum,
                minimum,
                maximum,
                properties: match properties {
                    Some(m) => m,
                    None => StringMap::new(),
                },
                required: match required {
                    Some(v) => v,
                    None => Vec::new(),
                },
                additional_properties,
                min_properties,
                max_properties,
                items,
                min_items,
                max_items,
                unique_items,
                enumeration: match enumeration {
                    Some(v) => v,
                    None => Vec::new(),
                },
                format,
                min_length,
                max_length,
                one_of: match one_of {
                    Some(v) => v,
                    None => Vec::new(),
                },
                all_of: match all_of {
                    Some(v) => v,
                    None => Vec::new(),
                },
                any_of: match any_of {
                    Some(v) => v,
                    None => Vec::new(),
                },
                not,
            },
        )
    }
}

/// A field set that is exactly the legal field set of one primitive type is
/// resolved to that type's variant, never to the catch-all.
pub proof fn lemma_pure_type_resolves(r: RawSchema, k: SchemaKind)
    requires
        classify_rel(r, k),
        shape_string(r) || shape_number(r) || shape_integer(r) || shape_boolean(r)
            || shape_object(r) || shape_array(r),
    ensures
        k is Type,
        shape_string(r) ==> (k matches SchemaKind::Type(t) && t is String),
        shape_number(r) ==> (k matches SchemaKind::Type(t) && t is Number),
        shape_integer(r) ==> (k matches SchemaKind::Type(t) && t is Integer),
        shape_boolean(r) ==> (k matches SchemaKind::Type(t) && t is Boolean),
        shape_object(r) ==> (k matches SchemaKind::Type(t) && t is Object),
        shape_array(r) ==> (k matches SchemaKind::Type(t) && t is Array),
{
    reveal_strlit("string");
    reveal_strlit("number");
    reveal_strlit("integer");
    reveal_strlit("boolean");
    reveal_strlit("object");
    reveal_strlit("array");
    assert("string"@[0] == 's');
    assert("number"@[0] == 'n');
    assert("integer"@[0] == 'i');
    assert("boolean"@[0] == 'b');
    assert("object"@[0] == 'o');
    assert("array"@[0] == 'a');
    assert("string"@ != "number"@);
    assert("string"@ != "integer"@);
    assert("string"@ != "boolean"@);
    assert("string"@ != "object"@);
    assert("string"@ != "array"@);
    assert("number"@ != "integer"@);
    assert("number"@ != "boolean"@);
    assert("number"@ != "object"@);
    assert("number"@ != "array"@);
    assert("integer"@ != "boolean"@);
    assert("integer"@ != "object"@);
    assert("integer"@ != "array"@);
    assert("boolean"@ != "object"@);
    assert("boolean"@ != "array"@);
    assert("object"@ != "array"@);
}

/// A type tag mixed with fields foreign to it falls back to the catch-all,
/// which keeps every recognized field: the type tag, the foreign fields and
/// the combinators all stay.
pub proof fn lemma_mixed_fields_resolve_to_any(r: RawSchema, k: SchemaKind)
    requires
        classify_rel(r, k),
        r.typ is Some,
        r.one_of is Some || r.all_of is Some || r.any_of is Some || r.not is Some,
    ensures
        (k matches SchemaKind::Any(a) && any_rel(r, a)),
        (k matches SchemaKind::Any(a) && a.typ == r.typ),
        (k matches SchemaKind::Any(a) && a.not == r.not),
        r.one_of matches Some(v) ==> (k matches SchemaKind::Any(a) && a.one_of == v),
        r.all_of matches Some(v) ==> (k matches SchemaKind::Any(a) && a.all_of == v),
        r.any_of matches Some(v) ==> (k matches SchemaKind::Any(a) && a.any_of == v),
        r.properties matches Some(m) ==> (k matches SchemaKind::Any(a) && a.properties == m),
{
}

} // verus!
