//! How a single schema property is serialized inside a request body.

use vstd::prelude::*;
use crate::header::Header;
use crate::parameter::QueryStyle;
use crate::reference::ReferenceOr;
use crate::strmap::StringMap;
use crate::value::Value;

verus! {

/// A single encoding definition applied to a single schema property.
#[derive(Debug, PartialEq)]
pub struct Encoding {
    /// The content type for encoding this property.
    pub content_type: Option<String>,
    /// Additional headers, such as a content disposition.
    pub headers: StringMap<ReferenceOr<Header>>,
    /// How the property value will be serialized.
    pub style: Option<QueryStyle>,
    /// Whether array and object values generate separate parameters.
    pub explode: bool,
    /// Whether reserved characters may be included without encoding.
    pub allow_reserved: bool,
    /// Inline extensions to this object.
    pub extensions: StringMap<Value>,
}

} // verus!
