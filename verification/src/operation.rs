//! A single API operation on a path.

use vstd::prelude::*;
use crate::parameter::Parameter;
use crate::reference::ReferenceOr;
use crate::request_body::RequestBody;
use crate::responses::Responses;
use crate::schema::ExternalDocumentation;
use crate::server::Server;
use crate::strmap::StringMap;
use crate::value::Value;

verus! {

/// Describes a single API operation on a path.
#[derive(Debug, PartialEq)]
pub struct Operation {
    /// Tags for API documentation control.
    pub tags: Vec<String>,
    /// A short summary of what the operation does.
    pub summary: Option<String>,
    /// A verbose explanation of the operation behavior.
    pub description: Option<String>,
    /// Additional external documentation for this operation.
    pub external_docs: Option<ExternalDocumentation>,
    /// A string unique among all operations described in the API.
    pub operation_id: Option<String>,
    /// The parameters applicable for this operation.
    pub parameters: Vec<ReferenceOr<Parameter>>,
    /// The request body applicable for this operation.
    pub request_body: Option<ReferenceOr<RequestBody>>,
    /// The possible responses returned from executing this operation.
    pub responses: Responses,
    /// Possible out-of-band callbacks related to this operation, keyed by
    /// a runtime expression that identifies the callback URL.
    pub callbacks: StringMap<crate::paths::Callback>,
    /// Whether this operation is deprecated.
    pub deprecated: bool,
    /// Which security mechanisms can be used for this operation,
    /// overriding any declared top-level security.
    pub security: Option<Vec<crate::openapi::SecurityRequirement>>,
    /// An alternative server list to service this operation.
    pub servers: Vec<Server>,
    /// Inline extensions to this object.
    pub extensions: StringMap<Value>,
}

} // verus!
