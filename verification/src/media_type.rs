//! Media type records: schema and examples for one content type.

use vstd::prelude::*;
use crate::encoding::Encoding;
use crate::example::Example;
use crate::reference::ReferenceOr;
use crate::schema::Schema;
use crate::strmap::StringMap;
use crate::value::Value;

verus! {

/// Schema and examples for the media type identified by this record's key.
#[derive(Debug, PartialEq)]
pub struct MediaType {
    /// The schema defining the content.
    pub schema: Option<ReferenceOr<Schema>>,
    /// Example of the media type.
    pub example: Option<Value>,
    /// Named examples of the media type.
    pub examples: StringMap<ReferenceOr<Example>>,
    /// Encoding information per property name.
    pub encoding: StringMap<Encoding>,
    /// Inline extensions to this object.
    pub extensions: StringMap<Value>,
}

} // verus!
