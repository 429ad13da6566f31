//! The request body of an operation.

use vstd::prelude::*;
use crate::media_type::MediaType;
use crate::strmap::StringMap;

verus! {

/// The content of a request body, keyed by media type.
#[derive(Debug, PartialEq)]
pub struct RequestBody {
    /// A brief description of the request body.
    pub description: Option<String>,
    /// The content of the request body, keyed by media type or range.
    pub content: StringMap<MediaType>,
    /// Whether the request body is required; unset means it is not.
    pub required: bool,
}

} // verus!
