//! Responses: one expected response per status-code key, plus a default.

use vstd::prelude::*;
use crate::header::Header;
use crate::link::Link;
use crate::media_type::MediaType;
use crate::reference::ReferenceOr;
use crate::status_code::StatusCode;
use crate::strmap::StringMap;
use crate::value::Value;

verus! {

/// A single response of an operation.
#[derive(Debug, PartialEq)]
pub struct Response {
    /// A description of the response.
    pub description: String,
    /// The headers sent with the response.
    pub headers: StringMap<ReferenceOr<Header>>,
    /// Potential response payloads, keyed by media type.
    pub content: StringMap<MediaType>,
    /// Links to other operations, keyed by link name.
    pub links: StringMap<ReferenceOr<Link>>,
    /// Inline extensions to this object.
    pub extensions: StringMap<Value>,
}

/// One entry of a response map: a status-code key and its response.
#[derive(Debug, PartialEq)]
pub struct ResponseEntry {
    pub code: StatusCode,
    pub response: ReferenceOr<Response>,
}

/// The expected responses of an operation: a documentation fallback plus an
/// order-preserving map from status-code keys to responses.
#[derive(Debug, PartialEq)]
pub struct Responses {
    /// The documentation of responses other than the ones declared for
    /// specific status codes.
    pub default: Option<ReferenceOr<Response>>,
    /// The declared responses, keyed by status code or range, in insertion
    /// order and without a repeated key.
    pub responses: Vec<ResponseEntry>,
    /// Inline extensions to this object.
    pub extensions: StringMap<Value>,
}

/// The response stored under a status-code key, scanning forward from `i`.
pub open spec fn response_lookup_from(es: Seq<ResponseEntry>, code: StatusCode, i: int) -> Option<
    ReferenceOr<Response>,
>
    decreases es.len() - i,
{
    if i < 0 || i >= es.len() {
        None
    } else if es[i].code == code {
        Some(es[i].response)
    } else {
        response_lookup_from(es, code, i + 1)
    }
}

/// The response stored under a status-code key.
pub open spec fn response_lookup(es: Seq<ResponseEntry>, code: StatusCode) -> Option<
    ReferenceOr<Response>,
> {
    response_lookup_from(es, code, 0)
}

impl Responses {
    /// Well-formedness: no status-code key occurs twice.
    pub open spec fn wf(self) -> bool {
        forall|i: int, j: int|
            0 <= i < j < self.responses@.len() ==> self.responses@[i].code
                != self.responses@[j].code
    }

    /// The responses with no declared entries and no default.
    pub fn new() -> (r: Self)
        ensures
            r.default is None,
            r.responses@.len() == 0,
            r.extensions.spec_len() == 0,
            r.wf(),
    {
        Responses {
            default: None,
            responses: Vec::new(),
            extensions: StringMap::new(),
        }
    }

    /// The response declared for a status-code key, where there is one.
    pub fn get(&self, code: &StatusCode) -> (r: Option<&ReferenceOr<Response>>)
        ensures
            match r {
                Some(resp) => response_lookup(self.responses@, *code) == Some(*resp),
                None => response_lookup(self.responses@, *code) is None,
            },
    {
        let mut i: usize = 0;
        while i < self.responses.len()
            invariant
                i <= self.responses@.len(),
                response_lookup(self.responses@, *code) == response_lookup_from(
                    self.responses@,
                    *code,
                    i as int,
                ),
            decreases self.responses@.len() - i,
        {
            if self.responses[i].code == *code {
                return Some(&self.responses[i].response);
            }
            i += 1;
        }
        None
    }
}

} // verus!
