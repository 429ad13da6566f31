//! Security schemes: HTTP authentication, API keys, OAuth2 flows and
//! OpenID Connect discovery.

use vstd::prelude::*;
use crate::strmap::StringMap;
use crate::value::Value;

verus! {

/// A security scheme usable by the operations.
#[derive(Debug, PartialEq)]
pub enum SecurityScheme {
    APIKey {
        /// Where the API key is carried.
        location: APIKeyLocation,
        /// The name of the header, query or cookie parameter to be used.
        name: String,
        /// A short description for the security scheme.
        description: Option<String>,
        /// Inline extensions to this object.
        extensions: StringMap<Value>,
    },
    HTTP {
        /// The name of the HTTP authorization scheme.
        scheme: String,
        /// A hint to the client about how the bearer token is formatted.
        bearer_format: Option<String>,
        /// A short description for the security scheme.
        description: Option<String>,
        /// Inline extensions to this object.
        extensions: StringMap<Value>,
    },
    OAuth2 {
        /// Configuration for the supported flow types.
        flows: OAuth2Flows,
        /// A short description for the security scheme.
        description: Option<String>,
        /// Inline extensions to this object.
        extensions: StringMap<Value>,
    },
    OpenIDConnect {
        /// The URL to discover OAuth2 configuration values from.
        open_id_connect_url: String,
        /// A short description for the security scheme.
        description: Option<String>,
        /// Inline extensions to this object.
        extensions: StringMap<Value>,
    },
}

/// Where an API key is carried.
#[derive(Debug, Clone, Copy, PartialEq, Eq, Structural)]
pub enum APIKeyLocation {
    Query,
    Header,
    Cookie,
}

/// Configuration for the flow types an OAuth2 scheme supports.
#[derive(Debug, PartialEq)]
pub struct OAuth2Flows {
    /// Configuration for the implicit flow.
    pub implicit: Option<ImplicitOAuth2Flow>,
    /// Configuration for the resource-owner password flow.
    pub password: Option<PasswordOAuth2Flow>,
    /// Configuration for the client-credentials flow.
    pub client_credentials: Option<ClientCredentialsOAuth2Flow>,
    /// Configuration for the authorization-code flow.
    pub authorization_code: Option<AuthorizationCodeOAuth2Flow>,
    /// Inline extensions to this object.
    pub extensions: StringMap<Value>,
}

/// Configuration for the OAuth implicit flow.
#[derive(Debug, PartialEq)]
pub struct ImplicitOAuth2Flow {
    /// The authorization URL for this flow.
    pub authorization_url: String,
    /// The URL for obtaining refresh tokens.
    pub refresh_url: Option<String>,
    /// The available scopes, each with a short description.
    pub scopes: StringMap<String>,
    /// Inline extensions to this object.
    pub extensions: StringMap<Value>,
}

/// Configuration for the OAuth resource-owner password flow.
#[derive(Debug, PartialEq)]
pub struct PasswordOAuth2Flow {
    /// The URL for obtaining refresh tokens.
    pub refresh_url: Option<String>,
    /// The token URL for this flow.
    pub token_url: String,
    /// The available scopes, each with a short description.
    pub scopes: StringMap<String>,
    /// Inline extensions to this object.
    pub extensions: StringMap<Value>,
}

/// Configuration for the OAuth client-credentials flow.
#[derive(Debug, PartialEq)]
pub struct ClientCredentialsOAuth2Flow {
    /// The URL for obtaining refresh tokens.
    pub refresh_url: Option<String>,
    /// The token URL for this flow.
    pub token_url: String,
    /// The available scopes, each with a short description.
    pub scopes: StringMap<String>,
    /// Inline extensions to this object.
    pub extensions: StringMap<Value>,
}

/// Configuration for the OAuth authorization-code flow.
#[derive(Debug, PartialEq)]
pub struct AuthorizationCodeOAuth2Flow {
    /// The authorization URL for this flow.
    pub authorization_url: String,
    /// The token URL for this flow.
    pub token_url: String,
    /// The URL for obtaining refresh tokens.
    pub refresh_url: Option<String>,
    /// The available scopes, each with a short description.
    pub scopes: StringMap<String>,
    /// Inline extensions to this object.
    pub extensions: StringMap<Value>,
}

} // verus!
