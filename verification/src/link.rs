//! A design-time link between a response and another operation.

use vstd::prelude::*;
use crate::server::Server;
use crate::strmap::StringMap;

verus! {

/// A possible design-time link for a response.
#[derive(Debug, PartialEq)]
pub struct Link {
    /// A description of the link.
    pub description: Option<String>,
    /// A relative or absolute reference to an operation.
    pub operation_ref: Option<String>,
    /// The name of an existing, resolvable operation.
    pub operation_id: Option<String>,
    /// A value to use as the request body when calling the target.
    pub request_body: Option<String>,
    /// Parameters to pass to the linked operation.
    pub parameters: StringMap<String>,
    /// A server to be used by the target operation.
    pub server: Option<Server>,
}

} // verus!
