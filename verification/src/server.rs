//! Server records: connectivity information for a target host.

use vstd::prelude::*;
use crate::strmap::StringMap;

verus! {

/// An object representing a server.
#[derive(Debug, PartialEq)]
pub struct Server {
    /// A URL to the target host; variable substitutions are made when a
    /// variable is named in braces.
    pub url: String,
    /// An optional string describing the host designated by the URL.
    pub description: Option<String>,
    /// A map between a variable name and its value, used for substitution
    /// in the server's URL template.
    pub variables: Option<StringMap<ServerVariable>>,
}

/// One substitutable variable of a server's URL template.
#[derive(Debug, PartialEq)]
pub struct ServerVariable {
    /// The values the variable may take, where limited.
    pub enumeration: Vec<String>,
    /// The value used when no other is supplied.
    pub default: String,
    /// An optional description of the variable.
    pub description: Option<String>,
}

} // verus!
