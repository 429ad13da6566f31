//! A reusable example object.

use vstd::prelude::*;

verus! {

/// A named example attached to media types, parameters and headers.
#[derive(Debug, PartialEq)]
pub struct Example {
    /// Short description for the example.
    pub summary: Option<String>,
    /// Long description for the example.
    pub description: Option<String>,
    /// A URL pointing to a literal example that cannot be embedded.
    pub external_value: Option<String>,
}

} // verus!
