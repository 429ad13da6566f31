//! A typed in-memory model for OpenAPI documents.
//!
//! Documents arrive as a generic structured-data tree ([`Value`]) of maps,
//! sequences, strings, numbers, booleans and null.  The library decodes that
//! tree into a typed model, re-encodes the model to a tree, resolves
//! `#/components/...` references against a document's component tables, and
//! merges two documents under an explicit conflict policy.

pub mod codec;
pub mod components;
pub mod encoding;
pub mod error;
pub mod example;
pub mod header;
pub mod info;
pub mod kind;
pub mod link;
pub mod media_type;
pub mod merge;
pub mod openapi;
pub mod operation;
pub mod parameter;
pub mod paths;
pub mod record_codec;
pub mod request_body;
pub mod resolve;
pub mod responses;
pub mod security_scheme;
pub mod server;
pub mod tag;
pub mod reference;
pub mod schema;
pub mod status_code;
pub mod strmap;
pub mod util;
pub mod value;
pub mod variant_or;
pub mod versioned;

pub use codec::{decode_schema, decode_schema_ref, encode_schema, encode_schema_ref};
pub use components::Components;
pub use encoding::Encoding;
pub use error::{DecodeError, MergeError, ResolveError};
pub use example::Example;
pub use header::Header;
pub use info::{Contact, Info, License};
pub use link::Link;
pub use media_type::MediaType;
pub use merge::{merge, merge_entries, merge_servers};
pub use openapi::{OpenAPI, SecurityRequirement};
pub use operation::Operation;
pub use parameter::{
    CookieStyle, HeaderStyle, Parameter, ParameterData, ParameterSchemaOrContent, PathStyle,
    QueryStyle,
};
pub use paths::{Callback, PathItem, Paths};
pub use record_codec::{
    decode_example, decode_media_type, decode_response, decode_response_ref, decode_responses,
    decode_server,
};
pub use request_body::RequestBody;
pub use resolve::{resolve_parameter, resolve_request_body, resolve_response, resolve_schema, Resolution};
pub use responses::{Response, ResponseEntry, Responses};
pub use security_scheme::{
    APIKeyLocation, AuthorizationCodeOAuth2Flow, ClientCredentialsOAuth2Flow,
    ImplicitOAuth2Flow, OAuth2Flows, PasswordOAuth2Flow, SecurityScheme,
};
pub use server::{Server, ServerVariable};
pub use tag::Tag;
pub use kind::{classify, classify_rel, RawSchema};
pub use reference::ReferenceOr;
pub use schema::{
    AdditionalProperties, AnySchema, ArrayType, BooleanType, Discriminator,
    ExternalDocumentation, IntegerFormat, IntegerType, NumberFormat, NumberType, ObjectType,
    Schema, SchemaData, SchemaKind, StringFormat, StringType, Type,
};
pub use status_code::StatusCode;
pub use strmap::{Entry, StringMap};
pub use util::is_false;
pub use value::{Member, Number, Value};
pub use versioned::VersionedOpenAPI;
pub use variant_or::{VariantOrUnknown, VariantOrUnknownOrEmpty};
