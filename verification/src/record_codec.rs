//! Decoding response maps and the records beneath them: the status-keyed
//! response table of an operation, and the mechanical field containers a
//! response carries (media types, headers, links, examples, encodings,
//! servers).
//!
//! The response map follows the predicate-keyed map rule: a member whose key
//! decodes as a status code fills the typed map (the first occurrence wins),
//! the `default` member fills the default slot, members with the extension
//! prefix are captured, and every other member is dropped without error.

use vstd::prelude::*;
use crate::codec::{
    bool_ok, capture_extensions, decode_schema_ref, ext_rel, flag_rel, get_flag, get_opt_bool,
    get_text, get_value, opt_bool_rel, opt_value_rel, schema_ref_ok, schema_ref_rel, text_ok,
    text_rel,
};
use crate::encoding::Encoding;
use crate::error::DecodeError;
use crate::example::Example;
use crate::header::Header;
use crate::link::Link;
use crate::media_type::MediaType;
use crate::parameter::{HeaderStyle, ParameterSchemaOrContent, QueryStyle};
use crate::reference::{as_reference, gv_is_reference, gv_reference_text, ReferenceOr};
use crate::responses::{Response, ResponseEntry, Responses};
use crate::server::{Server, ServerVariable};
use crate::status_code::{status_of_text, StatusCode};
use crate::strmap::StringMap;
use crate::value::{lookup, unique_keys, Member, Value};

verus! {

/// An example record: three optional strings.
pub open spec fn example_ok(v: Value) -> bool {
    v matches Value::Object(ms) && {
        &&& text_ok(lookup(ms@, "summary"@))
        &&& text_ok(lookup(ms@, "description"@))
        &&& text_ok(lookup(ms@, "externalValue"@))
    }
}

/// The decoded example.
pub open spec fn example_rel(v: Value, e: Example) -> bool {
    v matches Value::Object(ms) && {
        &&& text_rel(lookup(ms@, "summary"@), e.summary)
        &&& text_rel(lookup(ms@, "description"@), e.description)
        &&& text_rel(lookup(ms@, "externalValue"@), e.external_value)
    }
}

/// A pointer, or an inline example.
pub open spec fn example_ref_ok(v: Value) -> bool {
    gv_is_reference(v.gv()) || example_ok(v)
}

/// The decoded pointer-or-example.
pub open spec fn example_ref_rel(v: Value, r: ReferenceOr<Example>) -> bool {
    if gv_is_reference(v.gv()) {
        r matches ReferenceOr::Reference { reference } && reference@ == gv_reference_text(v.gv())
    } else {
        r matches ReferenceOr::Item(e) && example_rel(v, e)
    }
}

/// A server variable record: an optional name list, a required default, an
/// optional description.
pub open spec fn server_variable_ok(v: Value) -> bool {
    v matches Value::Object(ms) && {
        &&& match lookup(ms@, "enum"@) {
            None => true,
            Some(p) => p matches Value::List(vs) && forall|i: int|
                0 <= i < vs@.len() ==> (#[trigger] vs@[i]) is Text,
        }
        &&& lookup(ms@, "default"@) matches Some(d) && d is Text
        &&& text_ok(lookup(ms@, "description"@))
    }
}

/// The decoded server variable.
pub open spec fn server_variable_rel(v: Value, sv: ServerVariable) -> bool {
    v matches Value::Object(ms) && {
        &&& match lookup(ms@, "enum"@) {
            None => sv.enumeration@.len() == 0,
            Some(p) => p matches Value::List(vs) && sv.enumeration@.len() == vs@.len()
                && forall|i: int|
                0 <= i < vs@.len() ==> ((#[trigger] vs@[i]) matches Value::Text(t)
                    && sv.enumeration@[i] == t),
        }
        &&& lookup(ms@, "default"@) matches Some(d) && d matches Value::Text(t) && sv.default == t
        &&& text_rel(lookup(ms@, "description"@), sv.description)
    }
}

/// A server record: a required URL, an optional description, an optional
/// variable map.
pub open spec fn server_ok(v: Value) -> bool {
    v matches Value::Object(ms) && {
        &&& lookup(ms@, "url"@) matches Some(u) && u is Text
        &&& text_ok(lookup(ms@, "description"@))
        &&& match lookup(ms@, "variables"@) {
            None => true,
            Some(p) => p matches Value::Object(vms) && forall|i: int|
                0 <= i < vms@.len() ==> server_variable_ok((#[trigger] vms@[i]).value),
        }
    }
}

/// The decoded server.
pub open spec fn server_rel(v: Value, s: Server) -> bool {
    v matches Value::Object(ms) && {
        &&& lookup(ms@, "url"@) matches Some(u) && u matches Value::Text(t) && s.url == t
        &&& text_rel(lookup(ms@, "description"@), s.description)
        &&& match lookup(ms@, "variables"@) {
            None => s.variables is None,
            Some(p) => p matches Value::Object(vms) && s.variables matches Some(m) && m.wf() && (
            unique_keys(vms@) ==> {
                &&& m.spec_len() == vms@.len()
                &&& forall|i: int|
                    0 <= i < vms@.len() ==> #[trigger] m.key_at(i) == vms@[i].name@
                        && server_variable_rel(vms@[i].value, m.value_at(i))
            }),
        }
    }
}

/// A link record: optional strings, an optional parameter map, an optional
/// server.
pub open spec fn link_ok(v: Value) -> bool {
    v matches Value::Object(ms) && {
        &&& text_ok(lookup(ms@, "description"@))
        &&& text_ok(lookup(ms@, "operationRef"@))
        &&& text_ok(lookup(ms@, "operationId"@))
        &&& text_ok(lookup(ms@, "requestBody"@))
        &&& match lookup(ms@, "parameters"@) {
            None => true,
            Some(p) => p matches Value::Object(pms) && forall|i: int|
                0 <= i < pms@.len() ==> ((#[trigger] pms@[i]).value) is Text,
        }
        &&& match lookup(ms@, "server"@) {
            None => true,
            Some(p) => server_ok(p),
        }
    }
}

/// The decoded link.
pub open spec fn link_rel(v: Value, l: Link) -> bool {
    v matches Value::Object(ms) && {
        &&& text_rel(lookup(ms@, "description"@), l.description)
        &&& text_rel(lookup(ms@, "operationRef"@), l.operation_ref)
        &&& text_rel(lookup(ms@, "operationId"@), l.operation_id)
        &&& text_rel(lookup(ms@, "requestBody"@), l.request_body)
        &&& match lookup(ms@, "parameters"@) {
            None => l.parameters.spec_len() == 0 && l.parameters.wf(),
            Some(p) => p matches Value::Object(pms) && l.parameters.wf() && (unique_keys(pms@)
                ==> {
                &&& l.parameters.spec_len() == pms@.len()
                &&& forall|i: int|
                    0 <= i < pms@.len() ==> #[trigger] l.parameters.key_at(i) == pms@[i].name@
                        && (pms@[i].value matches Value::Text(t) && l.parameters.value_at(i) == t)
            }),
        }
        &&& match lookup(ms@, "server"@) {
            None => l.server is None,
            Some(p) => l.server matches Some(s) && server_rel(p, s),
        }
    }
}

/// A pointer, or an inline link.
pub open spec fn link_ref_ok(v: Value) -> bool {
    gv_is_reference(v.gv()) || link_ok(v)
}

/// The decoded pointer-or-link.
pub open spec fn link_ref_rel(v: Value, r: ReferenceOr<Link>) -> bool {
    if gv_is_reference(v.gv()) {
        r matches ReferenceOr::Reference { reference } && reference@ == gv_reference_text(v.gv())
    } else {
        r matches ReferenceOr::Item(l) && link_rel(v, l)
    }
}

/// The query style a field name stands for.
pub open spec fn qstyle_of(s: Seq<char>) -> Option<QueryStyle> {
    if s == "form"@ {
        Some(QueryStyle::Form)
    } else if s == "spaceDelimited"@ {
        Some(QueryStyle::SpaceDelimited)
    } else if s == "pipeDelimited"@ {
        Some(QueryStyle::PipeDelimited)
    } else if s == "deepObject"@ {
        Some(QueryStyle::DeepObject)
    } else {
        None
    }
}

/// An encoding record, recursively holding headers.
pub open spec fn encoding_ok(v: Value) -> bool
    decreases v, 22int via encoding_ok_decreases
{
    v matches Value::Object(ms) && {
        &&& text_ok(lookup(ms@, "contentType"@))
        &&& match lookup(ms@, "headers"@) {
            None => true,
            Some(p) => p matches Value::Object(pms) && forall|i: int|
                0 <= i < pms@.len() ==> header_ref_ok((#[trigger] pms@[i]).value),
        }
        &&& match lookup(ms@, "style"@) {
            None => true,
            Some(p) => p matches Value::Text(t) && qstyle_of(t@) is Some,
        }
        &&& bool_ok(lookup(ms@, "explode"@))
        &&& bool_ok(lookup(ms@, "allowReserved"@))
    }
}

/// The decoded encoding.
pub open spec fn encoding_rel(v: Value, e: Encoding) -> bool
    decreases v, 23int via encoding_rel_decreases
{
    v matches Value::Object(ms) && {
        &&& text_rel(lookup(ms@, "contentType"@), e.content_type)
        &&& match lookup(ms@, "headers"@) {
            None => e.headers.spec_len() == 0 && e.headers.wf(),
            Some(p) => p matches Value::Object(pms) && e.headers.wf() && (unique_keys(pms@) ==> {
                &&& e.headers.spec_len() == pms@.len()
                &&& forall|i: int|
                    0 <= i < pms@.len() ==> #[trigger] e.headers.key_at(i) == pms@[i].name@
                        && header_ref_rel(pms@[i].value, e.headers.value_at(i))
            }),
        }
        &&& match lookup(ms@, "style"@) {
            None => e.style is None,
            Some(p) => p matches Value::Text(t) && e.style == qstyle_of(t@),
        }
        &&& flag_rel(lookup(ms@, "explode"@), e.explode)
        &&& flag_rel(lookup(ms@, "allowReserved"@), e.allow_reserved)
        &&& ext_rel(ms@, e.extensions)
    }
}

/// A header record: its style, flags, and its schema or its content map;
/// exactly one of the two format fields is present.
pub open spec fn header_ok(v: Value) -> bool
    decreases v, 24int via header_ok_decreases
{
    v matches Value::Object(ms) && {
        &&& text_ok(lookup(ms@, "description"@))
        &&& match lookup(ms@, "style"@) {
            None => true,
            Some(p) => p matches Value::Text(t) && t@ == "simple"@,
        }
        &&& bool_ok(lookup(ms@, "required"@))
        &&& bool_ok(lookup(ms@, "deprecated"@))
        &&& match (lookup(ms@, "schema"@), lookup(ms@, "content"@)) {
            (Option::Some(sp), Option::None) => schema_ref_ok(sp),
            (Option::None, Option::Some(cp)) => cp matches Value::Object(cms) && forall|i: int|
                0 <= i < cms@.len() ==> media_type_ok((#[trigger] cms@[i]).value),
            _ => false,
        }
        &&& match lookup(ms@, "examples"@) {
            None => true,
            Some(p) => p matches Value::Object(pms) && forall|i: int|
                0 <= i < pms@.len() ==> example_ref_ok((#[trigger] pms@[i]).value),
        }
    }
}

/// The decoded header.
pub open spec fn header_rel(v: Value, h: Header) -> bool
    decreases v, 25int via header_rel_decreases
{
    v matches Value::Object(ms) && {
        &&& text_rel(lookup(ms@, "description"@), h.description)
        &&& h.style == HeaderStyle::Simple
        &&& flag_rel(lookup(ms@, "required"@), h.required)
        &&& opt_bool_rel(lookup(ms@, "deprecated"@), h.deprecated)
        &&& match (lookup(ms@, "schema"@), lookup(ms@, "content"@)) {
            (Option::Some(sp), Option::None) => h.format matches
                ParameterSchemaOrContent::Schema(sr) && schema_ref_rel(sp, sr),
            (Option::None, Option::Some(cp)) => cp matches Value::Object(cms) && h.format matches
                ParameterSchemaOrContent::Content(cm) && cm.wf() && (unique_keys(cms@) ==> {
                &&& cm.spec_len() == cms@.len()
                &&& forall|i: int|
                    0 <= i < cms@.len() ==> #[trigger] cm.key_at(i) == cms@[i].name@
                        && media_type_rel(cms@[i].value, cm.value_at(i))
            }),
            _ => false,
        }
        &&& opt_value_rel(lookup(ms@, "example"@), h.example)
        &&& match lookup(ms@, "examples"@) {
            None => h.examples.spec_len() == 0 && h.examples.wf(),
            Some(p) => p matches Value::Object(pms) && h.examples.wf() && (unique_keys(pms@) ==> {
                &&& h.examples.spec_len() == pms@.len()
                &&& forall|i: int|
                    0 <= i < pms@.len() ==> #[trigger] h.examples.key_at(i) == pms@[i].name@
                        && example_ref_rel(pms@[i].value, h.examples.value_at(i))
            }),
        }
    }
}

/// A pointer, or an inline header.
pub open spec fn header_ref_ok(v: Value) -> bool
    decreases v, 25int,
{
    gv_is_reference(v.gv()) || header_ok(v)
}

/// The decoded pointer-or-header.
pub open spec fn header_ref_rel(v: Value, r: ReferenceOr<Header>) -> bool
    decreases v, 26int,
{
    if gv_is_reference(v.gv()) {
        r matches ReferenceOr::Reference { reference } && reference@ == gv_reference_text(v.gv())
    } else {
        r matches ReferenceOr::Item(h) && header_rel(v, h)
    }
}

/// A media-type record: an optional schema, examples, and per-property
/// encodings.
pub open spec fn media_type_ok(v: Value) -> bool
    decreases v, 23int via media_type_ok_decreases
{
    v matches Value::Object(ms) && {
        &&& match lookup(ms@, "schema"@) {
            None => true,
            Some(p) => schema_ref_ok(p),
        }
        &&& match lookup(ms@, "examples"@) {
            None => true,
            Some(p) => p matches Value::Object(pms) && forall|i: int|
                0 <= i < pms@.len() ==> example_ref_ok((#[trigger] pms@[i]).value),
        }
        &&& match lookup(ms@, "encoding"@) {
            None => true,
            Some(p) => p matches Value::Object(pms) && forall|i: int|
                0 <= i < pms@.len() ==> encoding_ok((#[trigger] pms@[i]).value),
        }
    }
}

/// The decoded media type.
pub open spec fn media_type_rel(v: Value, m: MediaType) -> bool
    decreases v, 24int via media_type_rel_decreases
{
    v matches Value::Object(ms) && {
        &&& match lookup(ms@, "schema"@) {
            None => m.schema is None,
            Some(p) => m.schema matches Some(sr) && schema_ref_rel(p, sr),
        }
        &&& opt_value_rel(lookup(ms@, "example"@), m.example)
        &&& match lookup(ms@, "examples"@) {
            None => m.examples.spec_len() == 0 && m.examples.wf(),
            Some(p) => p matches Value::Object(pms) && m.examples.wf() && (unique_keys(pms@)
                ==> {
                &&& m.examples.spec_len() == pms@.len()
                &&& forall|i: int|
                    0 <= i < pms@.len() ==> #[trigger] m.examples.key_at(i) == pms@[i].name@
                        && example_ref_rel(pms@[i].value, m.examples.value_at(i))
            }),
        }
        &&& match lookup(ms@, "encoding"@) {
            None => m.encoding.spec_len() == 0 && m.encoding.wf(),
            Some(p) => p matches Value::Object(pms) && m.encoding.wf() && (unique_keys(pms@)
                ==> {
                &&& m.encoding.spec_len() == pms@.len()
                &&& forall|i: int|
                    0 <= i < pms@.len() ==> #[trigger] m.encoding.key_at(i) == pms@[i].name@
                        && encoding_rel(pms@[i].value, m.encoding.value_at(i))
            }),
        }
        &&& ext_rel(ms@, m.extensions)
    }
}

/// A response record: a required description, header, content and link
/// maps, and extensions.
pub open spec fn response_ok(v: Value) -> bool
    decreases v, 25int,
{
    v matches Value::Object(ms) && {
        &&& lookup(ms@, "description"@) matches Some(d) && d is Text
        &&& match lookup(ms@, "headers"@) {
            None => true,
            Some(p) => p matches Value::Object(pms) && forall|i: int|
                0 <= i < pms@.len() ==> header_ref_ok((#[trigger] pms@[i]).value),
        }
        &&& match lookup(ms@, "content"@) {
            None => true,
            Some(p) => p matches Value::Object(pms) && forall|i: int|
                0 <= i < pms@.len() ==> media_type_ok((#[trigger] pms@[i]).value),
        }
        &&& match lookup(ms@, "links"@) {
            None => true,
            Some(p) => p matches Value::Object(pms) && forall|i: int|
                0 <= i < pms@.len() ==> link_ref_ok((#[trigger] pms@[i]).value),
        }
    }
}

/// The decoded response.
pub open spec fn response_rel(v: Value, resp: Response) -> bool
    decreases v, 26int,
{
    v matches Value::Object(ms) && {
        &&& lookup(ms@, "description"@) matches Some(d) && d matches Value::Text(t)
            && resp.description == t
        &&& match lookup(ms@, "headers"@) {
            None => resp.headers.spec_len() == 0 && resp.headers.wf(),
            Some(p) => p matches Value::Object(pms) && resp.headers.wf() && (unique_keys(pms@)
                ==> {
                &&& resp.headers.spec_len() == pms@.len()
                &&& forall|i: int|
                    0 <= i < pms@.len() ==> #[trigger] resp.headers.key_at(i) == pms@[i].name@
                        && header_ref_rel(pms@[i].value, resp.headers.value_at(i))
            }),
        }
        &&& match lookup(ms@, "content"@) {
            None => resp.content.spec_len() == 0 && resp.content.wf(),
            Some(p) => p matches Value::Object(pms) && resp.content.wf() && (unique_keys(pms@)
                ==> {
                &&& resp.content.spec_len() == pms@.len()
                &&& forall|i: int|
                    0 <= i < pms@.len() ==> #[trigger] resp.content.key_at(i) == pms@[i].name@
                        && media_type_rel(pms@[i].value, resp.content.value_at(i))
            }),
        }
        &&& match lookup(ms@, "links"@) {
            None => resp.links.spec_len() == 0 && resp.links.wf(),
            Some(p) => p matches Value::Object(pms) && resp.links.wf() && (unique_keys(pms@)
                ==> {
                &&& resp.links.spec_len() == pms@.len()
                &&& forall|i: int|
                    0 <= i < pms@.len() ==> #[trigger] resp.links.key_at(i) == pms@[i].name@
                        && link_ref_rel(pms@[i].value, resp.links.value_at(i))
            }),
        }
        &&& ext_rel(ms@, resp.extensions)
    }
}

/// A pointer, or an inline response.
pub open spec fn response_ref_ok(v: Value) -> bool
    decreases v, 27int,
{
    gv_is_reference(v.gv()) || response_ok(v)
}

/// The decoded pointer-or-response.
pub open spec fn response_ref_rel(v: Value, r: ReferenceOr<Response>) -> bool
    decreases v, 28int,
{
    if gv_is_reference(v.gv()) {
        r matches ReferenceOr::Reference { reference } && reference@ == gv_reference_text(v.gv())
    } else {
        r matches ReferenceOr::Item(resp) && response_rel(v, resp)
    }
}

/// The members of a responses object whose keys decode as status codes, in
/// order: the typed part of the predicate-keyed map.
pub open spec fn status_members(ms: Seq<Member>) -> Seq<Member>
    decreases ms,
{
    if ms.len() == 0 {
        Seq::empty()
    } else {
        let rest = status_members(ms.drop_last());
        if status_of_text(ms.last().name@) is Some {
            rest.push(ms.last())
        } else {
            rest
        }
    }
}

/// Whether a responses object can be decoded: its `default` member and
/// every status-keyed member hold a pointer-or-response; members with other
/// keys are dropped and never fail.
pub open spec fn responses_decode_ok(v: Value) -> bool
    decreases v, 29int,
{
    v matches Value::Object(ms) && forall|i: int|
        0 <= i < ms@.len() ==> ((status_of_text((#[trigger] ms@[i]).name@) is Some || ms@[i].name@
            == "default"@) ==> response_ref_ok(ms@[i].value))
}

/// The decoded responses object: the `default` member fills the default
/// slot, the status-keyed members fill the typed map in order (a repeated
/// code keeps its first response), members with the extension prefix are
/// captured, and every other member is dropped.
pub open spec fn responses_rel(v: Value, r: Responses) -> bool
    decreases v, 30int,
{
    v matches Value::Object(ms) && {
        &&& match lookup(ms@, "default"@) {
            None => r.default is None,
            Some(dv) => r.default matches Some(d) && response_ref_rel(dv, d),
        }
        &&& r.wf()
        &&& unique_keys(ms@) ==> {
            &&& r.responses@.len() == status_members(ms@).len()
            &&& forall|i: int|
                0 <= i < r.responses@.len() ==> status_of_text(
                    status_members(ms@)[i].name@,
                ) == Some((#[trigger] r.responses@[i]).code) && response_ref_rel(
                    status_members(ms@)[i].value,
                    r.responses@[i].response,
                )
        }
        &&& ext_rel(ms@, r.extensions)
    }
}

#[via_fn]
proof fn encoding_ok_decreases(v: Value) {
    match v {
        Value::Object(ms) => {
            crate::codec::lemma_lookup_is_member(ms@, "headers"@);
            match lookup(ms@, "headers"@) {
                Some(p) => {
                    crate::codec::lemma_member_value_decreases(v, p);
                    match p {
                        Value::Object(pms) => {
                            assert forall|i: int| 0 <= i < pms@.len() implies decreases_to!(
                                v => (#[trigger] pms@[i]).value) by {
                                crate::codec::lemma_inner_member_decreases(v, p, i);
                            }
                        },
                        _ => (),
                    }
                },
                None => (),
            }
        },
        _ => (),
    }
}

#[via_fn]
proof fn encoding_rel_decreases(v: Value, e: Encoding) {
    match v {
        Value::Object(ms) => {
            crate::codec::lemma_lookup_is_member(ms@, "headers"@);
            match lookup(ms@, "headers"@) {
                Some(p) => {
                    crate::codec::lemma_member_value_decreases(v, p);
                    match p {
                        Value::Object(pms) => {
                            assert forall|i: int| 0 <= i < pms@.len() implies decreases_to!(
                                v => (#[trigger] pms@[i]).value) by {
                                crate::codec::lemma_inner_member_decreases(v, p, i);
                            }
                        },
                        _ => (),
                    }
                },
                None => (),
            }
        },
        _ => (),
    }
}

#[via_fn]
proof fn header_ok_decreases(v: Value) {
    match v {
        Value::Object(ms) => {
            crate::codec::lemma_lookup_is_member(ms@, "content"@);
            match lookup(ms@, "content"@) {
                Some(p) => {
                    crate::codec::lemma_member_value_decreases(v, p);
                    match p {
                        Value::Object(pms) => {
                            assert forall|i: int| 0 <= i < pms@.len() implies decreases_to!(
                                v => (#[trigger] pms@[i]).value) by {
                                crate::codec::lemma_inner_member_decreases(v, p, i);
                            }
                        },
                        _ => (),
                    }
                },
                None => (),
            }
        },
        _ => (),
    }
}

#[via_fn]
proof fn header_rel_decreases(v: Value, h: Header) {
    match v {
        Value::Object(ms) => {
            crate::codec::lemma_lookup_is_member(ms@, "content"@);
            match lookup(ms@, "content"@) {
                Some(p) => {
                    crate::codec::lemma_member_value_decreases(v, p);
                    match p {
                        Value::Object(pms) => {
                            assert forall|i: int| 0 <= i < pms@.len() implies decreases_to!(
                                v => (#[trigger] pms@[i]).value) by {
                                crate::codec::lemma_inner_member_decreases(v, p, i);
                            }
                        },
                        _ => (),
                    }
                },
                None => (),
            }
        },
        _ => (),
    }
}

#[via_fn]
proof fn media_type_ok_decreases(v: Value) {
    match v {
        Value::Object(ms) => {
            crate::codec::lemma_lookup_is_member(ms@, "encoding"@);
            match lookup(ms@, "encoding"@) {
                Some(p) => {
                    crate::codec::lemma_member_value_decreases(v, p);
                    match p {
                        Value::Object(pms) => {
                            assert forall|i: int| 0 <= i < pms@.len() implies decreases_to!(
                                v => (#[trigger] pms@[i]).value) by {
                                crate::codec::lemma_inner_member_decreases(v, p, i);
                            }
                        },
                        _ => (),
                    }
                },
                None => (),
            }
        },
        _ => (),
    }
}

#[via_fn]
proof fn media_type_rel_decreases(v: Value, m: MediaType) {
    match v {
        Value::Object(ms) => {
            crate::codec::lemma_lookup_is_member(ms@, "encoding"@);
            match lookup(ms@, "encoding"@) {
                Some(p) => {
                    crate::codec::lemma_member_value_decreases(v, p);
                    match p {
                        Value::Object(pms) => {
                            assert forall|i: int| 0 <= i < pms@.len() implies decreases_to!(
                                v => (#[trigger] pms@[i]).value) by {
                                crate::codec::lemma_inner_member_decreases(v, p, i);
                            }
                        },
                        _ => (),
                    }
                },
                None => (),
            }
        },
        _ => (),
    }
}

/// Decodes the `variables` map; a repeated key keeps its first binding.
#[verifier::spinoff_prover]
fn decode_vars_map(p: &Value) -> (r: Result<StringMap<ServerVariable>, DecodeError>)
    ensures
        r is Ok <==> (p matches Value::Object(pms) && forall|i: int|
            0 <= i < pms@.len() ==> server_variable_ok((#[trigger] pms@[i]).value)),
        r matches Ok(m) ==> p matches Value::Object(pms) && m.wf() && (unique_keys(pms@) ==> {
            &&& m.spec_len() == pms@.len()
            &&& forall|i: int|
                0 <= i < pms@.len() ==> #[trigger] m.key_at(i) == pms@[i].name@ && server_variable_rel(
                    pms@[i].value,
                    m.value_at(i),
                )
        }),
        r matches Err(e) ==> (e is ExpectedObject || e is BadField || e is MissingField),
    decreases p, 21int,
{
    match p {
        Value::Object(pms) => {
            let mut out: StringMap<ServerVariable> = StringMap::new();
            let mut i: usize = 0;
            while i < pms.len()
                invariant
                    i <= pms@.len(),
                    out.wf(),
                    *p == Value::Object(*pms),
                    forall|j: int| 0 <= j < i ==> server_variable_ok((#[trigger] pms@[j]).value),
                    unique_keys(pms@) ==> {
                        &&& out.spec_len() == i
                        &&& forall|j: int|
                            0 <= j < i ==> #[trigger] out.key_at(j) == pms@[j].name@
                                && server_variable_rel(pms@[j].value, out.value_at(j))
                    },
                decreases pms@.len() - i,
            {
                proof {
                    assert(decreases_to!(*p => p->Object_0));
                    assert(p->Object_0 == *pms);
                    vstd::std_specs::vec::axiom_vec_index_decreases(*pms, i as int);
                    assert(decreases_to!(pms@[i as int] => pms@[i as int].value));
                }
                let ghost pre = out.entries@;
                let d = match decode_server_variable(&pms[i].value) {
                    Ok(d) => d,
                    Err(e) => {
                        proof {
                            assert(!server_variable_ok(pms@[i as int].value));
                        }
                        return Err(e);
                    },
                };
                proof {
                    if unique_keys(pms@) {
                        assert(pre.len() == i);
                        assert forall|j: int| 0 <= j < pre.len() implies (#[trigger] pre[j]).key@
                            == pms@[j].name@ && server_variable_rel(pms@[j].value, pre[j].value) by {
                            assert(out.key_at(j) == pms@[j].name@ && server_variable_rel(
                                pms@[j].value,
                                out.value_at(j),
                            ));
                        }
                    }
                }
                if !out.contains_key(pms[i].name.as_str()) {
                    out.insert(pms[i].name.clone(), d);
                } else {
                    proof {
                        if unique_keys(pms@) {
                            out.lemma_contains_at(pms@[i as int].name@);
                            let j = choose|j: int|
                                0 <= j < out.spec_len() && out.key_at(j) == pms@[i as int].name@
                                    && out.spec_get(pms@[i as int].name@) == Some(out.value_at(j));
                            assert(pms@[j].name@ == pms@[i as int].name@);
                            assert(false);
                        }
                    }
                }
                proof {
                    if unique_keys(pms@) {
                        assert(out.spec_len() == i + 1);
                        assert forall|j: int| 0 <= j < i + 1 implies #[trigger] out.key_at(j)
                            == pms@[j].name@ && server_variable_rel(pms@[j].value, out.value_at(j)) by {
                            if j < pre.len() {
                                assert(pre[j].key@ == pms@[j].name@ && server_variable_rel(
                                    pms@[j].value,
                                    pre[j].value,
                                ));
                                assert(out.entries@[j] == pre[j]);
                            }
                        }
                    }
                }
                i += 1;
            }
            Ok(out)
        },
        _ => Err(DecodeError::BadField("variables".to_owned())),
    }
}

/// Decodes the `parameters` map; a repeated key keeps its first binding.
#[verifier::spinoff_prover]
fn decode_params_map(p: &Value) -> (r: Result<StringMap<String>, DecodeError>)
    ensures
        r is Ok <==> (p matches Value::Object(pms) && forall|i: int|
            0 <= i < pms@.len() ==> text_value_ok((#[trigger] pms@[i]).value)),
        r matches Ok(m) ==> p matches Value::Object(pms) && m.wf() && (unique_keys(pms@) ==> {
            &&& m.spec_len() == pms@.len()
            &&& forall|i: int|
                0 <= i < pms@.len() ==> #[trigger] m.key_at(i) == pms@[i].name@ && text_value_rel(
                    pms@[i].value,
                    m.value_at(i),
                )
        }),
        r matches Err(e) ==> (e is ExpectedObject || e is BadField || e is MissingField),
    decreases p, 21int,
{
    match p {
        Value::Object(pms) => {
            let mut out: StringMap<String> = StringMap::new();
            let mut i: usize = 0;
            while i < pms.len()
                invariant
                    i <= pms@.len(),
                    out.wf(),
                    *p == Value::Object(*pms),
                    forall|j: int| 0 <= j < i ==> text_value_ok((#[trigger] pms@[j]).value),
                    unique_keys(pms@) ==> {
                        &&& out.spec_len() == i
                        &&& forall|j: int|
                            0 <= j < i ==> #[trigger] out.key_at(j) == pms@[j].name@
                                && text_value_rel(pms@[j].value, out.value_at(j))
                    },
                decreases pms@.len() - i,
            {
                proof {
                    assert(decreases_to!(*p => p->Object_0));
                    assert(p->Object_0 == *pms);
                    vstd::std_specs::vec::axiom_vec_index_decreases(*pms, i as int);
                    assert(decreases_to!(pms@[i as int] => pms@[i as int].value));
                }
                let ghost pre = out.entries@;
                let d = match decode_text_value(&pms[i].value) {
                    Ok(d) => d,
                    Err(e) => {
                        proof {
                            assert(!text_value_ok(pms@[i as int].value));
                        }
                        return Err(e);
                    },
                };
                proof {
                    if unique_keys(pms@) {
                        assert(pre.len() == i);
                        assert forall|j: int| 0 <= j < pre.len() implies (#[trigger] pre[j]).key@
                            == pms@[j].name@ && text_value_rel(pms@[j].value, pre[j].value) by {
                            assert(out.key_at(j) == pms@[j].name@ && text_value_rel(
                                pms@[j].value,
                                out.value_at(j),
                            ));
                        }
                    }
                }
                if !out.contains_key(pms[i].name.as_str()) {
                    out.insert(pms[i].name.clone(), d);
                } else {
                    proof {
                        if unique_keys(pms@) {
                            out.lemma_contains_at(pms@[i as int].name@);
                            let j = choose|j: int|
                                0 <= j < out.spec_len() && out.key_at(j) == pms@[i as int].name@
                                    && out.spec_get(pms@[i as int].name@) == Some(out.value_at(j));
                            assert(pms@[j].name@ == pms@[i as int].name@);
                            assert(false);
                        }
                    }
                }
                proof {
                    if unique_keys(pms@) {
                        assert(out.spec_len() == i + 1);
                        assert forall|j: int| 0 <= j < i + 1 implies #[trigger] out.key_at(j)
                            == pms@[j].name@ && text_value_rel(pms@[j].value, out.value_at(j)) by {
                            if j < pre.len() {
                                assert(pre[j].key@ == pms@[j].name@ && text_value_rel(
                                    pms@[j].value,
                                    pre[j].value,
                                ));
                                assert(out.entries@[j] == pre[j]);
                            }
                        }
                    }
                }
                i += 1;
            }
            Ok(out)
        },
        _ => Err(DecodeError::BadField("parameters".to_owned())),
    }
}

/// Decodes the `headers` map; a repeated key keeps its first binding.
#[verifier::spinoff_prover]
fn decode_headers_map(p: &Value) -> (r: Result<StringMap<ReferenceOr<Header>>, DecodeError>)
    ensures
        r is Ok <==> (p matches Value::Object(pms) && forall|i: int|
            0 <= i < pms@.len() ==> header_ref_ok((#[trigger] pms@[i]).value)),
        r matches Ok(m) ==> p matches Value::Object(pms) && m.wf() && (unique_keys(pms@) ==> {
            &&& m.spec_len() == pms@.len()
            &&& forall|i: int|
                0 <= i < pms@.len() ==> #[trigger] m.key_at(i) == pms@[i].name@ && header_ref_rel(
                    pms@[i].value,
                    m.value_at(i),
                )
        }),
        r matches Err(e) ==> (e is ExpectedObject || e is BadField || e is MissingField),
    decreases p, 27int,
{
    match p {
        Value::Object(pms) => {
            let mut out: StringMap<ReferenceOr<Header>> = StringMap::new();
            let mut i: usize = 0;
            while i < pms.len()
                invariant
                    i <= pms@.len(),
                    out.wf(),
                    *p == Value::Object(*pms),
                    forall|j: int| 0 <= j < i ==> header_ref_ok((#[trigger] pms@[j]).value),
                    unique_keys(pms@) ==> {
                        &&& out.spec_len() == i
                        &&& forall|j: int|
                            0 <= j < i ==> #[trigger] out.key_at(j) == pms@[j].name@
                                && header_ref_rel(pms@[j].value, out.value_at(j))
                    },
                decreases pms@.len() - i,
            {
                proof {
                    assert(decreases_to!(*p => p->Object_0));
                    assert(p->Object_0 == *pms);
                    vstd::std_specs::vec::axiom_vec_index_decreases(*pms, i as int);
                    assert(decreases_to!(pms@[i as int] => pms@[i as int].value));
                }
                let ghost pre = out.entries@;
                let d = match decode_header_ref(&pms[i].value) {
                    Ok(d) => d,
                    Err(e) => {
                        proof {
                            assert(!header_ref_ok(pms@[i as int].value));
                        }
                        return Err(e);
                    },
                };
                proof {
                    if unique_keys(pms@) {
                        assert(pre.len() == i);
                        assert forall|j: int| 0 <= j < pre.len() implies (#[trigger] pre[j]).key@
                            == pms@[j].name@ && header_ref_rel(pms@[j].value, pre[j].value) by {
                            assert(out.key_at(j) == pms@[j].name@ && header_ref_rel(
                                pms@[j].value,
                                out.value_at(j),
                            ));
                        }
                    }
                }
                if !out.contains_key(pms[i].name.as_str()) {
                    out.insert(pms[i].name.clone(), d);
                } else {
                    proof {
                        if unique_keys(pms@) {
                            out.lemma_contains_at(pms@[i as int].name@);
                            let j = choose|j: int|
                                0 <= j < out.spec_len() && out.key_at(j) == pms@[i as int].name@
                                    && out.spec_get(pms@[i as int].name@) == Some(out.value_at(j));
                            assert(pms@[j].name@ == pms@[i as int].name@);
                            assert(false);
                        }
                    }
                }
                proof {
                    if unique_keys(pms@) {
                        assert(out.spec_len() == i + 1);
                        assert forall|j: int| 0 <= j < i + 1 implies #[trigger] out.key_at(j)
                            == pms@[j].name@ && header_ref_rel(pms@[j].value, out.value_at(j)) by {
                            if j < pre.len() {
                                assert(pre[j].key@ == pms@[j].name@ && header_ref_rel(
                                    pms@[j].value,
                                    pre[j].value,
                                ));
                                assert(out.entries@[j] == pre[j]);
                            }
                        }
                    }
                }
                i += 1;
            }
            Ok(out)
        },
        _ => Err(DecodeError::BadField("headers".to_owned())),
    }
}

/// Decodes the `content` map; a repeated key keeps its first binding.
#[verifier::spinoff_prover]
fn decode_content_map(p: &Value) -> (r: Result<StringMap<MediaType>, DecodeError>)
    ensures
        r is Ok <==> (p matches Value::Object(pms) && forall|i: int|
            0 <= i < pms@.len() ==> media_type_ok((#[trigger] pms@[i]).value)),
        r matches Ok(m) ==> p matches Value::Object(pms) && m.wf() && (unique_keys(pms@) ==> {
            &&& m.spec_len() == pms@.len()
            &&& forall|i: int|
                0 <= i < pms@.len() ==> #[trigger] m.key_at(i) == pms@[i].name@ && media_type_rel(
                    pms@[i].value,
                    m.value_at(i),
                )
        }),
        r matches Err(e) ==> (e is ExpectedObject || e is BadField || e is MissingField),
    decreases p, 26int,
{
    match p {
        Value::Object(pms) => {
            let mut out: StringMap<MediaType> = StringMap::new();
            let mut i: usize = 0;
            while i < pms.len()
                invariant
                    i <= pms@.len(),
                    out.wf(),
                    *p == Value::Object(*pms),
                    forall|j: int| 0 <= j < i ==> media_type_ok((#[trigger] pms@[j]).value),
                    unique_keys(pms@) ==> {
                        &&& out.spec_len() == i
                        &&& forall|j: int|
                            0 <= j < i ==> #[trigger] out.key_at(j) == pms@[j].name@
                                && media_type_rel(pms@[j].value, out.value_at(j))
                    },
                decreases pms@.len() - i,
            {
                proof {
                    assert(decreases_to!(*p => p->Object_0));
                    assert(p->Object_0 == *pms);
                    vstd::std_specs::vec::axiom_vec_index_decreases(*pms, i as int);
                    assert(decreases_to!(pms@[i as int] => pms@[i as int].value));
                }
                let ghost pre = out.entries@;
                let d = match decode_media_type(&pms[i].value) {
                    Ok(d) => d,
                    Err(e) => {
                        proof {
                            assert(!media_type_ok(pms@[i as int].value));
                        }
                        return Err(e);
                    },
                };
                proof {
                    if unique_keys(pms@) {
                        assert(pre.len() == i);
                        assert forall|j: int| 0 <= j < pre.len() implies (#[trigger] pre[j]).key@
                            == pms@[j].name@ && media_type_rel(pms@[j].value, pre[j].value) by {
                            assert(out.key_at(j) == pms@[j].name@ && media_type_rel(
                                pms@[j].value,
                                out.value_at(j),
                            ));
                        }
                    }
                }
                if !out.contains_key(pms[i].name.as_str()) {
                    out.insert(pms[i].name.clone(), d);
                } else {
                    proof {
                        if unique_keys(pms@) {
                            out.lemma_contains_at(pms@[i as int].name@);
                            let j = choose|j: int|
                                0 <= j < out.spec_len() && out.key_at(j) == pms@[i as int].name@
                                    && out.spec_get(pms@[i as int].name@) == Some(out.value_at(j));
                            assert(pms@[j].name@ == pms@[i as int].name@);
                            assert(false);
                        }
                    }
                }
                proof {
                    if unique_keys(pms@) {
                        assert(out.spec_len() == i + 1);
                        assert forall|j: int| 0 <= j < i + 1 implies #[trigger] out.key_at(j)
                            == pms@[j].name@ && media_type_rel(pms@[j].value, out.value_at(j)) by {
                            if j < pre.len() {
                                assert(pre[j].key@ == pms@[j].name@ && media_type_rel(
                                    pms@[j].value,
                                    pre[j].value,
                                ));
                                assert(out.entries@[j] == pre[j]);
                            }
                        }
                    }
                }
                i += 1;
            }
            Ok(out)
        },
        _ => Err(DecodeError::BadField("content".to_owned())),
    }
}

/// Decodes the `examples` map; a repeated key keeps its first binding.
#[verifier::spinoff_prover]
fn decode_examples_map(p: &Value) -> (r: Result<StringMap<ReferenceOr<Example>>, DecodeError>)
    ensures
        r is Ok <==> (p matches Value::Object(pms) && forall|i: int|
            0 <= i < pms@.len() ==> example_ref_ok((#[trigger] pms@[i]).value)),
        r matches Ok(m) ==> p matches Value::Object(pms) && m.wf() && (unique_keys(pms@) ==> {
            &&& m.spec_len() == pms@.len()
            &&& forall|i: int|
                0 <= i < pms@.len() ==> #[trigger] m.key_at(i) == pms@[i].name@ && example_ref_rel(
                    pms@[i].value,
                    m.value_at(i),
                )
        }),
        r matches Err(e) ==> (e is ExpectedObject || e is BadField || e is MissingField),
    decreases p, 22int,
{
    match p {
        Value::Object(pms) => {
            let mut out: StringMap<ReferenceOr<Example>> = StringMap::new();
            let mut i: usize = 0;
            while i < pms.len()
                invariant
                    i <= pms@.len(),
                    out.wf(),
                    *p == Value::Object(*pms),
                    forall|j: int| 0 <= j < i ==> example_ref_ok((#[trigger] pms@[j]).value),
                    unique_keys(pms@) ==> {
                        &&& out.spec_len() == i
                        &&& forall|j: int|
                            0 <= j < i ==> #[trigger] out.key_at(j) == pms@[j].name@
                                && example_ref_rel(pms@[j].value, out.value_at(j))
                    },
                decreases pms@.len() - i,
            {
                proof {
                    assert(decreases_to!(*p => p->Object_0));
                    assert(p->Object_0 == *pms);
                    vstd::std_specs::vec::axiom_vec_index_decreases(*pms, i as int);
                    assert(decreases_to!(pms@[i as int] => pms@[i as int].value));
                }
                let ghost pre = out.entries@;
                let d = match decode_example_ref(&pms[i].value) {
                    Ok(d) => d,
                    Err(e) => {
                        proof {
                            assert(!example_ref_ok(pms@[i as int].value));
                        }
                        return Err(e);
                    },
                };
                proof {
                    if unique_keys(pms@) {
                        assert(pre.len() == i);
                        assert forall|j: int| 0 <= j < pre.len() implies (#[trigger] pre[j]).key@
                            == pms@[j].name@ && example_ref_rel(pms@[j].value, pre[j].value) by {
                            assert(out.key_at(j) == pms@[j].name@ && example_ref_rel(
                                pms@[j].value,
                                out.value_at(j),
                            ));
                        }
                    }
                }
                if !out.contains_key(pms[i].name.as_str()) {
                    out.insert(pms[i].name.clone(), d);
                } else {
                    proof {
                        if unique_keys(pms@) {
                            out.lemma_contains_at(pms@[i as int].name@);
                            let j = choose|j: int|
                                0 <= j < out.spec_len() && out.key_at(j) == pms@[i as int].name@
                                    && out.spec_get(pms@[i as int].name@) == Some(out.value_at(j));
                            assert(pms@[j].name@ == pms@[i as int].name@);
                            assert(false);
                        }
                    }
                }
                proof {
                    if unique_keys(pms@) {
                        assert(out.spec_len() == i + 1);
                        assert forall|j: int| 0 <= j < i + 1 implies #[trigger] out.key_at(j)
                            == pms@[j].name@ && example_ref_rel(pms@[j].value, out.value_at(j)) by {
                            if j < pre.len() {
                                assert(pre[j].key@ == pms@[j].name@ && example_ref_rel(
                                    pms@[j].value,
                                    pre[j].value,
                                ));
                                assert(out.entries@[j] == pre[j]);
                            }
                        }
                    }
                }
                i += 1;
            }
            Ok(out)
        },
        _ => Err(DecodeError::BadField("examples".to_owned())),
    }
}

/// Decodes the `encoding` map; a repeated key keeps its first binding.
#[verifier::spinoff_prover]
fn decode_encoding_map(p: &Value) -> (r: Result<StringMap<Encoding>, DecodeError>)
    ensures
        r is Ok <==> (p matches Value::Object(pms) && forall|i: int|
            0 <= i < pms@.len() ==> encoding_ok((#[trigger] pms@[i]).value)),
        r matches Ok(m) ==> p matches Value::Object(pms) && m.wf() && (unique_keys(pms@) ==> {
            &&& m.spec_len() == pms@.len()
            &&& forall|i: int|
                0 <= i < pms@.len() ==> #[trigger] m.key_at(i) == pms@[i].name@ && encoding_rel(
                    pms@[i].value,
                    m.value_at(i),
                )
        }),
        r matches Err(e) ==> (e is ExpectedObject || e is BadField || e is MissingField),
    decreases p, 26int,
{
    match p {
        Value::Object(pms) => {
            let mut out: StringMap<Encoding> = StringMap::new();
            let mut i: usize = 0;
            while i < pms.len()
                invariant
                    i <= pms@.len(),
                    out.wf(),
                    *p == Value::Object(*pms),
                    forall|j: int| 0 <= j < i ==> encoding_ok((#[trigger] pms@[j]).value),
                    unique_keys(pms@) ==> {
                        &&& out.spec_len() == i
                        &&& forall|j: int|
                            0 <= j < i ==> #[trigger] out.key_at(j) == pms@[j].name@
                                && encoding_rel(pms@[j].value, out.value_at(j))
                    },
                decreases pms@.len() - i,
            {
                proof {
                    assert(decreases_to!(*p => p->Object_0));
                    assert(p->Object_0 == *pms);
                    vstd::std_specs::vec::axiom_vec_index_decreases(*pms, i as int);
                    assert(decreases_to!(pms@[i as int] => pms@[i as int].value));
                }
                let ghost pre = out.entries@;
                let d = match decode_encoding(&pms[i].value) {
                    Ok(d) => d,
                    Err(e) => {
                        proof {
                            assert(!encoding_ok(pms@[i as int].value));
                        }
                        return Err(e);
                    },
                };
                proof {
                    if unique_keys(pms@) {
                        assert(pre.len() == i);
                        assert forall|j: int| 0 <= j < pre.len() implies (#[trigger] pre[j]).key@
                            == pms@[j].name@ && encoding_rel(pms@[j].value, pre[j].value) by {
                            assert(out.key_at(j) == pms@[j].name@ && encoding_rel(
                                pms@[j].value,
                                out.value_at(j),
                            ));
                        }
                    }
                }
                if !out.contains_key(pms[i].name.as_str()) {
                    out.insert(pms[i].name.clone(), d);
                } else {
                    proof {
                        if unique_keys(pms@) {
                            out.lemma_contains_at(pms@[i as int].name@);
                            let j = choose|j: int|
                                0 <= j < out.spec_len() && out.key_at(j) == pms@[i as int].name@
                                    && out.spec_get(pms@[i as int].name@) == Some(out.value_at(j));
                            assert(pms@[j].name@ == pms@[i as int].name@);
                            assert(false);
                        }
                    }
                }
                proof {
                    if unique_keys(pms@) {
                        assert(out.spec_len() == i + 1);
                        assert forall|j: int| 0 <= j < i + 1 implies #[trigger] out.key_at(j)
                            == pms@[j].name@ && encoding_rel(pms@[j].value, out.value_at(j)) by {
                            if j < pre.len() {
                                assert(pre[j].key@ == pms@[j].name@ && encoding_rel(
                                    pms@[j].value,
                                    pre[j].value,
                                ));
                                assert(out.entries@[j] == pre[j]);
                            }
                        }
                    }
                }
                i += 1;
            }
            Ok(out)
        },
        _ => Err(DecodeError::BadField("encoding".to_owned())),
    }
}

/// Decodes the `links` map; a repeated key keeps its first binding.
#[verifier::spinoff_prover]
fn decode_links_map(p: &Value) -> (r: Result<StringMap<ReferenceOr<Link>>, DecodeError>)
    ensures
        r is Ok <==> (p matches Value::Object(pms) && forall|i: int|
            0 <= i < pms@.len() ==> link_ref_ok((#[trigger] pms@[i]).value)),
        r matches Ok(m) ==> p matches Value::Object(pms) && m.wf() && (unique_keys(pms@) ==> {
            &&& m.spec_len() == pms@.len()
            &&& forall|i: int|
                0 <= i < pms@.len() ==> #[trigger] m.key_at(i) == pms@[i].name@ && link_ref_rel(
                    pms@[i].value,
                    m.value_at(i),
                )
        }),
        r matches Err(e) ==> (e is ExpectedObject || e is BadField || e is MissingField),
    decreases p, 24int,
{
    match p {
        Value::Object(pms) => {
            let mut out: StringMap<ReferenceOr<Link>> = StringMap::new();
            let mut i: usize = 0;
            while i < pms.len()
                invariant
                    i <= pms@.len(),
                    out.wf(),
                    *p == Value::Object(*pms),
                    forall|j: int| 0 <= j < i ==> link_ref_ok((#[trigger] pms@[j]).value),
                    unique_keys(pms@) ==> {
                        &&& out.spec_len() == i
                        &&& forall|j: int|
                            0 <= j < i ==> #[trigger] out.key_at(j) == pms@[j].name@
                                && link_ref_rel(pms@[j].value, out.value_at(j))
                    },
                decreases pms@.len() - i,
            {
                proof {
                    assert(decreases_to!(*p => p->Object_0));
                    assert(p->Object_0 == *pms);
                    vstd::std_specs::vec::axiom_vec_index_decreases(*pms, i as int);
                    assert(decreases_to!(pms@[i as int] => pms@[i as int].value));
                }
                let ghost pre = out.entries@;
                let d = match decode_link_ref(&pms[i].value) {
                    Ok(d) => d,
                    Err(e) => {
                        proof {
                            assert(!link_ref_ok(pms@[i as int].value));
                        }
                        return Err(e);
                    },
                };
                proof {
                    if unique_keys(pms@) {
                        assert(pre.len() == i);
                        assert forall|j: int| 0 <= j < pre.len() implies (#[trigger] pre[j]).key@
                            == pms@[j].name@ && link_ref_rel(pms@[j].value, pre[j].value) by {
                            assert(out.key_at(j) == pms@[j].name@ && link_ref_rel(
                                pms@[j].value,
                                out.value_at(j),
                            ));
                        }
                    }
                }
                if !out.contains_key(pms[i].name.as_str()) {
                    out.insert(pms[i].name.clone(), d);
                } else {
                    proof {
                        if unique_keys(pms@) {
                            out.lemma_contains_at(pms@[i as int].name@);
                            let j = choose|j: int|
                                0 <= j < out.spec_len() && out.key_at(j) == pms@[i as int].name@
                                    && out.spec_get(pms@[i as int].name@) == Some(out.value_at(j));
                            assert(pms@[j].name@ == pms@[i as int].name@);
                            assert(false);
                        }
                    }
                }
                proof {
                    if unique_keys(pms@) {
                        assert(out.spec_len() == i + 1);
                        assert forall|j: int| 0 <= j < i + 1 implies #[trigger] out.key_at(j)
                            == pms@[j].name@ && link_ref_rel(pms@[j].value, out.value_at(j)) by {
                            if j < pre.len() {
                                assert(pre[j].key@ == pms@[j].name@ && link_ref_rel(
                                    pms@[j].value,
                                    pre[j].value,
                                ));
                                assert(out.entries@[j] == pre[j]);
                            }
                        }
                    }
                }
                i += 1;
            }
            Ok(out)
        },
        _ => Err(DecodeError::BadField("links".to_owned())),
    }
}

/// A string value: the element shape of a parameter map.
pub open spec fn text_value_ok(v: Value) -> bool {
    v is Text
}

/// The decoded string value.
pub open spec fn text_value_rel(v: Value, s: String) -> bool {
    v matches Value::Text(t) && s == t
}

/// Decodes a string value.
fn decode_text_value(v: &Value) -> (r: Result<String, DecodeError>)
    ensures
        r is Ok <==> text_value_ok(*v),
        r matches Ok(s) ==> text_value_rel(*v, s),
        r matches Err(e) ==> (e is ExpectedObject || e is BadField || e is MissingField),
    decreases v, 20int,
{
    match v {
        Value::Text(t) => Ok(t.clone()),
        _ => Err(DecodeError::BadField("parameters".to_owned())),
    }
}

/// Decodes an example record.
pub fn decode_example(v: &Value) -> (r: Result<Example, DecodeError>)
    ensures
        r is Ok <==> example_ok(*v),
        r matches Ok(e) ==> example_rel(*v, e),
        r matches Err(e) ==> (e is ExpectedObject || e is BadField || e is MissingField),
    decreases v, 20int,
{
    let ms = match v {
        Value::Object(ms) => ms,
        _ => {
            return Err(DecodeError::ExpectedObject);
        },
    };
    let summary = get_text(ms, "summary")?;
    let description = get_text(ms, "description")?;
    let external_value = get_text(ms, "externalValue")?;
    Ok(Example { summary, description, external_value })
}

/// Decodes a pointer or an inline example.
fn decode_example_ref(v: &Value) -> (r: Result<ReferenceOr<Example>, DecodeError>)
    ensures
        r is Ok <==> example_ref_ok(*v),
        r matches Ok(d) ==> example_ref_rel(*v, d),
        r matches Err(e) ==> (e is ExpectedObject || e is BadField || e is MissingField),
    decreases v, 21int,
{
    match as_reference(v) {
        Some(reference) => Ok(ReferenceOr::Reference { reference }),
        None => match decode_example(v) {
            Ok(e) => Ok(ReferenceOr::Item(e)),
            Err(e) => Err(e),
        },
    }
}

/// Decodes a server variable.
fn decode_server_variable(v: &Value) -> (r: Result<ServerVariable, DecodeError>)
    ensures
        r is Ok <==> server_variable_ok(*v),
        r matches Ok(sv) ==> server_variable_rel(*v, sv),
        r matches Err(e) ==> (e is ExpectedObject || e is BadField || e is MissingField),
    decreases v, 20int,
{
    let ms = match v {
        Value::Object(ms) => ms,
        _ => {
            return Err(DecodeError::ExpectedObject);
        },
    };
    let mut enumeration: Vec<String> = Vec::new();
    match crate::value::obj_get(ms, "enum") {
        None => (),
        Some(Value::List(vs)) => {
            let mut i: usize = 0;
            while i < vs.len()
                invariant
                    i <= vs@.len(),
                    enumeration@.len() == i,
                    *v == Value::Object(*ms),
                    lookup(ms@, "enum"@) == Some(Value::List(*vs)),
                    forall|j: int|
                        0 <= j < i ==> ((#[trigger] vs@[j]) matches Value::Text(t)
                            && enumeration@[j] == t),
                decreases vs@.len() - i,
            {
                match &vs[i] {
                    Value::Text(t) => enumeration.push(t.clone()),
                    _ => {
                        proof {
                            assert(!((vs@[i as int]) is Text));
                        }
                        return Err(DecodeError::BadField("enum".to_owned()));
                    },
                }
                i += 1;
            }
        },
        Some(_) => {
            return Err(DecodeError::BadField("enum".to_owned()));
        },
    }
    let default = match crate::value::obj_get(ms, "default") {
        Some(Value::Text(t)) => t.clone(),
        Some(_) => {
            return Err(DecodeError::BadField("default".to_owned()));
        },
        None => {
            return Err(DecodeError::MissingField("default".to_owned()));
        },
    };
    let description = get_text(ms, "description")?;
    Ok(ServerVariable { enumeration, default, description })
}

/// Decodes a server record.
#[verifier::spinoff_prover]
#[verifier::rlimit(60)]
pub fn decode_server(v: &Value) -> (r: Result<Server, DecodeError>)
    ensures
        r is Ok <==> server_ok(*v),
        r matches Ok(s) ==> server_rel(*v, s),
        r matches Err(e) ==> (e is ExpectedObject || e is BadField || e is MissingField),
    decreases v, 22int,
{
    let ms = match v {
        Value::Object(ms) => ms,
        _ => {
            return Err(DecodeError::ExpectedObject);
        },
    };
    let url = match crate::value::obj_get(ms, "url") {
        Some(Value::Text(t)) => t.clone(),
        Some(_) => {
            return Err(DecodeError::BadField("url".to_owned()));
        },
        None => {
            return Err(DecodeError::MissingField("url".to_owned()));
        },
    };
    let description = get_text(ms, "description")?;
    let variables = match crate::value::obj_get(ms, "variables") {
        None => None,
        Some(p) => {
            proof {
                crate::codec::lemma_lookup_is_member(ms@, "variables"@);
                crate::codec::lemma_member_value_decreases(*v, *p);
            }
            Some(decode_vars_map(p)?)
        },
    };
    Ok(Server { url, description, variables })
}

/// Decodes a link record.
#[verifier::spinoff_prover]
#[verifier::rlimit(60)]
fn decode_link(v: &Value) -> (r: Result<Link, DecodeError>)
    ensures
        r is Ok <==> link_ok(*v),
        r matches Ok(l) ==> link_rel(*v, l),
        r matches Err(e) ==> (e is ExpectedObject || e is BadField || e is MissingField),
    decreases v, 23int,
{
    let ms = match v {
        Value::Object(ms) => ms,
        _ => {
            return Err(DecodeError::ExpectedObject);
        },
    };
    let description = get_text(ms, "description")?;
    let operation_ref = get_text(ms, "operationRef")?;
    let operation_id = get_text(ms, "operationId")?;
    let request_body = get_text(ms, "requestBody")?;
    let parameters = match crate::value::obj_get(ms, "parameters") {
        None => StringMap::new(),
        Some(p) => {
            proof {
                crate::codec::lemma_lookup_is_member(ms@, "parameters"@);
                crate::codec::lemma_member_value_decreases(*v, *p);
            }
            decode_params_map(p)?
        },
    };
    let server = match crate::value::obj_get(ms, "server") {
        None => None,
        Some(p) => {
            proof {
                crate::codec::lemma_lookup_is_member(ms@, "server"@);
                crate::codec::lemma_member_value_decreases(*v, *p);
            }
            Some(decode_server(p)?)
        },
    };
    Ok(Link { description, operation_ref, operation_id, request_body, parameters, server })
}

/// Decodes a pointer or an inline link.
fn decode_link_ref(v: &Value) -> (r: Result<ReferenceOr<Link>, DecodeError>)
    ensures
        r is Ok <==> link_ref_ok(*v),
        r matches Ok(d) ==> link_ref_rel(*v, d),
        r matches Err(e) ==> (e is ExpectedObject || e is BadField || e is MissingField),
    decreases v, 23int, 1int,
{
    match as_reference(v) {
        Some(reference) => Ok(ReferenceOr::Reference { reference }),
        None => match decode_link(v) {
            Ok(l) => Ok(ReferenceOr::Item(l)),
            Err(e) => Err(e),
        },
    }
}

/// Decodes an encoding record.
#[verifier::spinoff_prover]
#[verifier::rlimit(60)]
fn decode_encoding(v: &Value) -> (r: Result<Encoding, DecodeError>)
    ensures
        r is Ok <==> encoding_ok(*v),
        r matches Ok(e) ==> encoding_rel(*v, e),
        r matches Err(e) ==> (e is ExpectedObject || e is BadField || e is MissingField),
    decreases v, 24int,
{
    let ms = match v {
        Value::Object(ms) => ms,
        _ => {
            return Err(DecodeError::ExpectedObject);
        },
    };
    let content_type = get_text(ms, "contentType")?;
    let headers = match crate::value::obj_get(ms, "headers") {
        None => StringMap::new(),
        Some(p) => {
            proof {
                crate::codec::lemma_lookup_is_member(ms@, "headers"@);
                crate::codec::lemma_member_value_decreases(*v, *p);
            }
            decode_headers_map(p)?
        },
    };
    let style = match crate::value::obj_get(ms, "style") {
        None => None,
        Some(Value::Text(t)) => {
            proof {
                reveal_strlit("form");
                reveal_strlit("spaceDelimited");
                reveal_strlit("pipeDelimited");
                reveal_strlit("deepObject");
            }
            if crate::value::str_eq(t.as_str(), "form") {
                Some(QueryStyle::Form)
            } else if crate::value::str_eq(t.as_str(), "spaceDelimited") {
                Some(QueryStyle::SpaceDelimited)
            } else if crate::value::str_eq(t.as_str(), "pipeDelimited") {
                Some(QueryStyle::PipeDelimited)
            } else if crate::value::str_eq(t.as_str(), "deepObject") {
                Some(QueryStyle::DeepObject)
            } else {
                return Err(DecodeError::BadField("style".to_owned()));
            }
        },
        Some(_) => {
            return Err(DecodeError::BadField("style".to_owned()));
        },
    };
    let explode = get_flag(ms, "explode")?;
    let allow_reserved = get_flag(ms, "allowReserved")?;
    let extensions = capture_extensions(ms);
    Ok(Encoding { content_type, headers, style, explode, allow_reserved, extensions })
}

/// Decodes a header record.
#[verifier::spinoff_prover]
#[verifier::rlimit(60)]
fn decode_header(v: &Value) -> (r: Result<Header, DecodeError>)
    ensures
        r is Ok <==> header_ok(*v),
        r matches Ok(h) ==> header_rel(*v, h),
        r matches Err(e) ==> (e is ExpectedObject || e is BadField || e is MissingField),
    decreases v, 25int,
{
    let ms = match v {
        Value::Object(ms) => ms,
        _ => {
            return Err(DecodeError::ExpectedObject);
        },
    };
    let description = get_text(ms, "description")?;
    match crate::value::obj_get(ms, "style") {
        None => (),
        Some(Value::Text(t)) => {
            proof {
                reveal_strlit("simple");
            }
            if !crate::value::str_eq(t.as_str(), "simple") {
                return Err(DecodeError::BadField("style".to_owned()));
            }
        },
        Some(_) => {
            return Err(DecodeError::BadField("style".to_owned()));
        },
    }
    let required = get_flag(ms, "required")?;
    let deprecated = get_opt_bool(ms, "deprecated")?;
    let format = match (crate::value::obj_get(ms, "schema"), crate::value::obj_get(ms, "content")) {
        (Some(sp), None) => {
            proof {
                crate::codec::lemma_lookup_is_member(ms@, "schema"@);
                crate::codec::lemma_member_value_decreases(*v, *sp);
            }
            ParameterSchemaOrContent::Schema(decode_schema_ref(sp)?)
        },
        (None, Some(cp)) => {
            proof {
                crate::codec::lemma_lookup_is_member(ms@, "content"@);
                crate::codec::lemma_member_value_decreases(*v, *cp);
            }
            ParameterSchemaOrContent::Content(decode_content_map(cp)?)
        },
        _ => {
            return Err(DecodeError::MissingField("schema".to_owned()));
        },
    };
    let example = get_value(ms, "example");
    let examples = match crate::value::obj_get(ms, "examples") {
        None => StringMap::new(),
        Some(p) => {
            proof {
                crate::codec::lemma_lookup_is_member(ms@, "examples"@);
                crate::codec::lemma_member_value_decreases(*v, *p);
            }
            decode_examples_map(p)?
        },
    };
    Ok(Header { description, style: HeaderStyle::Simple, required, deprecated, format, example, examples })
}

/// Decodes a pointer or an inline header.
fn decode_header_ref(v: &Value) -> (r: Result<ReferenceOr<Header>, DecodeError>)
    ensures
        r is Ok <==> header_ref_ok(*v),
        r matches Ok(d) ==> header_ref_rel(*v, d),
        r matches Err(e) ==> (e is ExpectedObject || e is BadField || e is MissingField),
    decreases v, 26int,
{
    match as_reference(v) {
        Some(reference) => Ok(ReferenceOr::Reference { reference }),
        None => match decode_header(v) {
            Ok(h) => Ok(ReferenceOr::Item(h)),
            Err(e) => Err(e),
        },
    }
}

/// Decodes a media-type record.
#[verifier::spinoff_prover]
#[verifier::rlimit(100)]
pub fn decode_media_type(v: &Value) -> (r: Result<MediaType, DecodeError>)
    ensures
        r is Ok <==> media_type_ok(*v),
        r matches Ok(m) ==> media_type_rel(*v, m),
        r matches Err(e) ==> (e is ExpectedObject || e is BadField || e is MissingField),
    decreases v, 25int,
{
    let ms = match v {
        Value::Object(ms) => ms,
        _ => {
            return Err(DecodeError::ExpectedObject);
        },
    };
    let schema = match crate::value::obj_get(ms, "schema") {
        None => None,
        Some(p) => {
            proof {
                crate::codec::lemma_lookup_is_member(ms@, "schema"@);
                crate::codec::lemma_member_value_decreases(*v, *p);
            }
            Some(decode_schema_ref(p)?)
        },
    };
    let example = get_value(ms, "example");
    let examples = match crate::value::obj_get(ms, "examples") {
        None => StringMap::new(),
        Some(p) => {
            proof {
                crate::codec::lemma_lookup_is_member(ms@, "examples"@);
                crate::codec::lemma_member_value_decreases(*v, *p);
            }
            decode_examples_map(p)?
        },
    };
    let encoding = match crate::value::obj_get(ms, "encoding") {
        None => StringMap::new(),
        Some(p) => {
            proof {
                crate::codec::lemma_lookup_is_member(ms@, "encoding"@);
                crate::codec::lemma_member_value_decreases(*v, *p);
            }
            decode_encoding_map(p)?
        },
    };
    let extensions = capture_extensions(ms);
    proof {
        let gmt = MediaType { schema, example, examples, encoding, extensions };
        assert(match lookup(ms@, "schema"@) {
            None => gmt.schema is None,
            Some(p) => gmt.schema matches Some(sr) && schema_ref_rel(p, sr),
        });
        assert(opt_value_rel(lookup(ms@, "example"@), gmt.example));
        assert(ext_rel(ms@, gmt.extensions));
        assert(media_type_rel(*v, gmt));
    }
    Ok(MediaType { schema, example, examples, encoding, extensions })
}

/// Decodes a response record; a missing description is reported under that
/// field's name.
#[verifier::spinoff_prover]
#[verifier::rlimit(100)]
pub fn decode_response(v: &Value) -> (r: Result<Response, DecodeError>)
    ensures
        r is Ok <==> response_ok(*v),
        r matches Ok(resp) ==> response_rel(*v, resp),
        r matches Err(e) ==> (e is ExpectedObject || e is BadField || e is MissingField),
    decreases v, 27int,
{
    let ms = match v {
        Value::Object(ms) => ms,
        _ => {
            return Err(DecodeError::ExpectedObject);
        },
    };
    let description = match crate::value::obj_get(ms, "description") {
        Some(Value::Text(t)) => t.clone(),
        Some(_) => {
            return Err(DecodeError::BadField("description".to_owned()));
        },
        None => {
            return Err(DecodeError::MissingField("description".to_owned()));
        },
    };
    let headers = match crate::value::obj_get(ms, "headers") {
        None => StringMap::new(),
        Some(p) => {
            proof {
                crate::codec::lemma_lookup_is_member(ms@, "headers"@);
                crate::codec::lemma_member_value_decreases(*v, *p);
            }
            decode_headers_map(p)?
        },
    };
    let content = match crate::value::obj_get(ms, "content") {
        None => StringMap::new(),
        Some(p) => {
            proof {
                crate::codec::lemma_lookup_is_member(ms@, "content"@);
                crate::codec::lemma_member_value_decreases(*v, *p);
            }
            decode_content_map(p)?
        },
    };
    let links = match crate::value::obj_get(ms, "links") {
        None => StringMap::new(),
        Some(p) => {
            proof {
                crate::codec::lemma_lookup_is_member(ms@, "links"@);
                crate::codec::lemma_member_value_decreases(*v, *p);
            }
            decode_links_map(p)?
        },
    };
    let extensions = capture_extensions(ms);
    proof {
        let gr = Response { description, headers, content, links, extensions };
        assert(lookup(ms@, "description"@) matches Some(d) && d matches Value::Text(t)
            && gr.description == t);
        assert(ext_rel(ms@, gr.extensions));
        assert(response_rel(*v, gr));
    }
    Ok(Response { description, headers, content, links, extensions })
}

/// Decodes a pointer or an inline response.
pub fn decode_response_ref(v: &Value) -> (r: Result<ReferenceOr<Response>, DecodeError>)
    ensures
        r is Ok <==> response_ref_ok(*v),
        r matches Ok(d) ==> response_ref_rel(*v, d),
        r matches Err(e) ==> (e is ExpectedObject || e is BadField || e is MissingField),
    decreases v, 28int,
{
    match as_reference(v) {
        Some(reference) => Ok(ReferenceOr::Reference { reference }),
        None => match decode_response(v) {
            Ok(resp) => Ok(ReferenceOr::Item(resp)),
            Err(e) => Err(e),
        },
    }
}

/// Looking a key up after appending a member: the old binding wins where it
/// exists; otherwise only the appended member's own key gains a binding.
proof fn lemma_lookup_push_member(ms: Seq<Member>, m: Member, key: Seq<char>)
    ensures
        lookup(ms.push(m), key) == (if lookup(ms, key) is Some {
            lookup(ms, key)
        } else if m.name@ == key {
            Some(m.value)
        } else {
            None
        }),
{
    lemma_lookup_push_member_from(ms, m, key, 0);
}

proof fn lemma_lookup_push_member_from(ms: Seq<Member>, m: Member, key: Seq<char>, i: int)
    requires
        0 <= i <= ms.len(),
    ensures
        crate::value::lookup_from(ms.push(m), key, i) == (if crate::value::lookup_from(
            ms,
            key,
            i,
        ) is Some {
            crate::value::lookup_from(ms, key, i)
        } else if m.name@ == key {
            Some(m.value)
        } else {
            None
        }),
    decreases ms.len() - i,
{
    if i < ms.len() {
        lemma_lookup_push_member_from(ms, m, key, i + 1);
    } else {
        assert(crate::value::lookup_from(ms.push(m), key, i + 1) is None);
        assert(ms.push(m)[i] == m);
    }
}

/// Every status-keyed member stands somewhere among the members.
proof fn lemma_status_members_members(ms: Seq<Member>)
    ensures
        forall|i: int|
            0 <= i < status_members(ms).len() ==> exists|j: int|
                0 <= j < ms.len() && ms[j] == #[trigger] status_members(ms)[i],
    decreases ms,
{
    if ms.len() > 0 {
        lemma_status_members_members(ms.drop_last());
        assert forall|i: int| 0 <= i < status_members(ms).len() implies exists|j: int|
            0 <= j < ms.len() && ms[j] == #[trigger] status_members(ms)[i] by {
            if i < status_members(ms.drop_last()).len() {
                let j = choose|j: int|
                    0 <= j < ms.drop_last().len() && ms.drop_last()[j] == status_members(
                        ms.drop_last(),
                    )[i];
                assert(ms[j] == status_members(ms)[i]);
            } else {
                assert(ms[ms.len() - 1] == status_members(ms)[i]);
            }
        }
    }
}

/// Whether some entry already carries the code.
fn has_code(entries: &Vec<ResponseEntry>, code: &StatusCode) -> (r: bool)
    ensures
        r == exists|k: int| 0 <= k < entries@.len() && (#[trigger] entries@[k]).code == *code,
{
    let mut k: usize = 0;
    while k < entries.len()
        invariant
            k <= entries@.len(),
            forall|j: int| 0 <= j < k ==> (#[trigger] entries@[j]).code != *code,
        decreases entries@.len() - k,
    {
        if entries[k].code == *code {
            return true;
        }
        k += 1;
    }
    false
}

/// Decodes a responses object by the predicate-keyed map rule: a member
/// whose key decodes as a status code fills the typed map in order (a
/// repeated code keeps its first response), the `default` member fills the
/// default slot, members with the extension prefix are captured, and every
/// other member is dropped without error.
#[verifier::rlimit(100)]
#[verifier::spinoff_prover]
pub fn decode_responses(v: &Value) -> (r: Result<Responses, DecodeError>)
    ensures
        r is Ok <==> responses_decode_ok(*v),
        r matches Ok(d) ==> responses_rel(*v, d),
        r matches Err(e) ==> (e is ExpectedObject || e is BadField || e is MissingField),
{
    let ms = match v {
        Value::Object(ms) => ms,
        _ => {
            return Err(DecodeError::ExpectedObject);
        },
    };
    let extensions = capture_extensions(ms);
    let mut default_slot: Option<ReferenceOr<Response>> = None;
    let mut entries: Vec<ResponseEntry> = Vec::new();
    let mut i: usize = 0;
    while i < ms.len()
        invariant
            i <= ms@.len(),
            *v == Value::Object(*ms),
            forall|j: int|
                0 <= j < i ==> ((status_of_text((#[trigger] ms@[j]).name@) is Some || ms@[j].name@
                    == "default"@) ==> response_ref_ok(ms@[j].value)),
            match lookup(ms@.take(i as int), "default"@) {
                None => default_slot is None,
                Some(dv) => default_slot matches Some(d) && response_ref_rel(dv, d),
            },
            forall|a: int, b: int|
                0 <= a < b < entries@.len() ==> (#[trigger] entries@[a]).code
                    != (#[trigger] entries@[b]).code,
            unique_keys(ms@) ==> {
                &&& entries@.len() == status_members(ms@.take(i as int)).len()
                &&& forall|j: int|
                    0 <= j < entries@.len() ==> status_of_text(
                        status_members(ms@.take(i as int))[j].name@,
                    ) == Some((#[trigger] entries@[j]).code) && response_ref_rel(
                        status_members(ms@.take(i as int))[j].value,
                        entries@[j].response,
                    )
            },
        decreases ms@.len() - i,
    {
        proof {
            assert(ms@.take(i as int + 1).drop_last() =~= ms@.take(i as int));
            assert(ms@.take(i as int + 1).last() == ms@[i as int]);
            assert(ms@.take(i as int + 1) =~= ms@.take(i as int).push(ms@[i as int]));
            lemma_lookup_push_member(ms@.take(i as int), ms@[i as int], "default"@);
            reveal_strlit("default");
        }
        let ghost entries0 = entries@;
        if crate::value::str_eq(ms[i].name.as_str(), "default") {
            proof {
                // A 7-character key is no 3-character status key.
                assert(status_of_text(ms@[i as int].name@) is None);
            }
            let d = match decode_response_ref(&ms[i].value) {
                Ok(d) => d,
                Err(e) => {
                    proof {
                        assert(!response_ref_ok(ms@[i as int].value));
                    }
                    return Err(e);
                },
            };
            if default_slot.is_none() {
                default_slot = Some(d);
            }
        } else {
            match StatusCode::parse_str(ms[i].name.as_str()) {
                Ok(code) => {
                    let d = match decode_response_ref(&ms[i].value) {
                        Ok(d) => d,
                        Err(e) => {
                            proof {
                                assert(!response_ref_ok(ms@[i as int].value));
                            }
                            return Err(e);
                        },
                    };
                    if !has_code(&entries, &code) {
                        entries.push(ResponseEntry { code, response: d });
                    } else {
                        proof {
                            if unique_keys(ms@) {
                                let k = choose|k: int|
                                    0 <= k < entries0.len() && (#[trigger] entries0[k]).code
                                        == code;
                                lemma_status_members_members(ms@.take(i as int));
                                let l = choose|l: int|
                                    0 <= l < ms@.take(i as int).len() && ms@.take(i as int)[l]
                                        == status_members(ms@.take(i as int))[k];
                                crate::status_code::lemma_status_text_canonical(
                                    ms@[l].name@,
                                    code,
                                );
                                crate::status_code::lemma_status_text_canonical(
                                    ms@[i as int].name@,
                                    code,
                                );
                                assert(ms@[l].name@ =~= ms@[i as int].name@);
                                assert(false);
                            }
                        }
                    }
                },
                Err(_) => (),
            }
        }
        i += 1;
    }
    proof {
        assert(ms@.take(ms@.len() as int) =~= ms@);
    }
    Ok(Responses { default: default_slot, responses: entries, extensions })
}

} // verus!
