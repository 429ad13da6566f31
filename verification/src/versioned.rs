//! A document tagged with the format generation it belongs to.

use vstd::prelude::*;
use crate::openapi::OpenAPI;

verus! {

/// An API description of whichever format generation was decoded.  This
/// build carries only the current generation.
#[derive(Debug, PartialEq)]
pub enum VersionedOpenAPI {
    V3(OpenAPI),
}

impl VersionedOpenAPI {
    /// The document brought up to the current format generation; a document
    /// already there is handed back unchanged.
    pub fn upgrade(self) -> (r: OpenAPI)
        ensures
            self matches VersionedOpenAPI::V3(d) && r == d,
    {
        match self {
            VersionedOpenAPI::V3(d) => d,
        }
    }
}

} // verus!
