//! Tag metadata for grouping operations.

use vstd::prelude::*;
use crate::schema::ExternalDocumentation;

verus! {

/// Metadata for a single tag used by operations.
#[derive(Debug, PartialEq)]
pub struct Tag {
    /// The name of the tag.
    pub name: String,
    /// A short description for the tag.
    pub description: Option<String>,
    /// Additional external documentation for this tag.
    pub external_docs: Option<ExternalDocumentation>,
}

} // verus!
