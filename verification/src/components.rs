//! The document's named tables of reusable objects.

use vstd::prelude::*;
use crate::example::Example;
use crate::header::Header;
use crate::link::Link;
use crate::parameter::Parameter;
use crate::paths::Callback;
use crate::reference::ReferenceOr;
use crate::request_body::RequestBody;
use crate::responses::Response;
use crate::schema::Schema;
use crate::security_scheme::SecurityScheme;
use crate::strmap::StringMap;

verus! {

/// A set of reusable objects: one named table per resolvable kind.  Objects
/// here have no effect on the API unless something outside the tables
/// points at them.
#[derive(Debug, PartialEq)]
pub struct Components {
    /// Reusable security schemes.
    pub security_schemes: StringMap<ReferenceOr<SecurityScheme>>,
    /// Reusable responses.
    pub responses: StringMap<ReferenceOr<Response>>,
    /// Reusable parameters.
    pub parameters: StringMap<ReferenceOr<Parameter>>,
    /// Reusable examples.
    pub examples: StringMap<ReferenceOr<Example>>,
    /// Reusable request bodies.
    pub request_bodies: StringMap<ReferenceOr<RequestBody>>,
    /// Reusable headers.
    pub headers: StringMap<ReferenceOr<Header>>,
    /// Reusable schemas.
    pub schemas: StringMap<ReferenceOr<Schema>>,
    /// Reusable links.
    pub links: StringMap<ReferenceOr<Link>>,
    /// Reusable callbacks.
    pub callbacks: StringMap<ReferenceOr<Callback>>,
}

impl Components {
    /// Well-formedness: every table has unique keys.
    pub open spec fn wf(self) -> bool {
        &&& self.security_schemes.wf()
        &&& self.responses.wf()
        &&& self.parameters.wf()
        &&& self.examples.wf()
        &&& self.request_bodies.wf()
        &&& self.headers.wf()
        &&& self.schemas.wf()
        &&& self.links.wf()
        &&& self.callbacks.wf()
    }

    /// Component tables with no entries.
    pub fn new() -> (r: Self)
        ensures
            r.wf(),
            r.security_schemes.spec_len() == 0,
            r.responses.spec_len() == 0,
            r.parameters.spec_len() == 0,
            r.examples.spec_len() == 0,
            r.request_bodies.spec_len() == 0,
            r.headers.spec_len() == 0,
            r.schemas.spec_len() == 0,
            r.links.spec_len() == 0,
            r.callbacks.spec_len() == 0,
            forall|k: Seq<char>| r.schemas.spec_get(k) is None,
    {
        Components {
            security_schemes: StringMap::new(),
            responses: StringMap::new(),
            parameters: StringMap::new(),
            examples: StringMap::new(),
            request_bodies: StringMap::new(),
            headers: StringMap::new(),
            schemas: StringMap::new(),
            links: StringMap::new(),
            callbacks: StringMap::new(),
        }
    }
}

} // verus!
