//! Header records: parameters whose name and location are implied by the
//! map that holds them.

use vstd::prelude::*;
use crate::example::Example;
use crate::parameter::{HeaderStyle, ParameterSchemaOrContent};
use crate::reference::ReferenceOr;
use crate::strmap::StringMap;
use crate::value::Value;

verus! {

/// A header definition, following the structure of a parameter.
#[derive(Debug, PartialEq)]
pub struct Header {
    /// A brief description of the header.
    pub description: Option<String>,
    /// How the header value will be serialized.
    pub style: HeaderStyle,
    /// Whether this header is mandatory.
    pub required: bool,
    /// Whether the header is deprecated.
    pub deprecated: Option<bool>,
    /// Its schema, or its representations per media type.
    pub format: ParameterSchemaOrContent,
    /// Example of the header's potential value.
    pub example: Option<Value>,
    /// Named examples of the header's potential value.
    pub examples: StringMap<ReferenceOr<Example>>,
}

} // verus!
