//! Operation parameters: shared data plus the location that carries them.

use vstd::prelude::*;
use crate::example::Example;
use crate::media_type::MediaType;
use crate::reference::ReferenceOr;
use crate::schema::Schema;
use crate::strmap::StringMap;
use crate::value::Value;

verus! {

/// The fields shared by parameters of every location.
#[derive(Debug, PartialEq)]
pub struct ParameterData {
    /// The case-sensitive name of the parameter.
    pub name: String,
    /// A brief description of the parameter.
    pub description: Option<String>,
    /// Whether this parameter is mandatory.
    pub required: bool,
    /// Whether the parameter is deprecated.
    pub deprecated: Option<bool>,
    /// Its schema, or its representations per media type.
    pub format: ParameterSchemaOrContent,
    /// Example of the parameter's potential value.
    pub example: Option<Value>,
    /// Named examples of the parameter's potential value.
    pub examples: StringMap<ReferenceOr<Example>>,
    /// Whether array and object values generate separate parameters.
    pub explode: Option<bool>,
    /// Inline extensions to this object.
    pub extensions: StringMap<Value>,
}

/// Either a schema or a map of representations for a parameter.
#[derive(Debug, PartialEq)]
pub enum ParameterSchemaOrContent {
    /// The schema defining the type used for the parameter.
    Schema(ReferenceOr<Schema>),
    /// The representations for the parameter, keyed by media type.
    Content(StringMap<MediaType>),
}

/// A single operation parameter, by location.
#[derive(Debug, PartialEq)]
pub enum Parameter {
    /// A parameter appended to the URL.
    Query {
        parameter_data: ParameterData,
        /// Whether reserved characters may be included without encoding.
        allow_reserved: bool,
        /// How the parameter value will be serialized.
        style: QueryStyle,
        /// Whether empty-valued parameters may be sent.
        allow_empty_value: Option<bool>,
    },
    /// A custom header expected as part of the request.
    Header {
        parameter_data: ParameterData,
        /// How the parameter value will be serialized.
        style: HeaderStyle,
    },
    /// A parameter that is part of the operation's URL.
    Path {
        parameter_data: ParameterData,
        /// How the parameter value will be serialized.
        style: PathStyle,
    },
    /// A cookie value passed to the API.
    Cookie {
        parameter_data: ParameterData,
        /// How the parameter value will be serialized.
        style: CookieStyle,
    },
}

impl Parameter {
    /// The shared data of this parameter, whatever its location.
    pub open spec fn spec_parameter_data(self) -> ParameterData {
        match self {
            Parameter::Query { parameter_data, .. } => parameter_data,
            Parameter::Header { parameter_data, .. } => parameter_data,
            Parameter::Path { parameter_data, .. } => parameter_data,
            Parameter::Cookie { parameter_data, .. } => parameter_data,
        }
    }

    /// The shared data of this parameter.
    pub fn parameter_data(self) -> (r: ParameterData)
        ensures
            r == self.spec_parameter_data(),
    {
        match self {
            Parameter::Query { parameter_data, .. } => parameter_data,
            Parameter::Header { parameter_data, .. } => parameter_data,
            Parameter::Path { parameter_data, .. } => parameter_data,
            Parameter::Cookie { parameter_data, .. } => parameter_data,
        }
    }

    /// The shared data of this parameter, by reference.
    pub fn parameter_data_ref(&self) -> (r: &ParameterData)
        ensures
            *r == self.spec_parameter_data(),
    {
        match self {
            Parameter::Query { parameter_data, .. } => parameter_data,
            Parameter::Header { parameter_data, .. } => parameter_data,
            Parameter::Path { parameter_data, .. } => parameter_data,
            Parameter::Cookie { parameter_data, .. } => parameter_data,
        }
    }
}

/// How a path parameter is serialized.
#[derive(Debug, Clone, Copy, PartialEq, Eq, Structural)]
pub enum PathStyle {
    /// Path-style expansion.
    Matrix,
    /// Label expansion, prefixed by a dot.
    Label,
    /// Simple comma-separated values.
    Simple,
}

impl Default for PathStyle {
    /// Path parameters default to simple style.
    fn default() -> (r: Self)
        ensures
            r is Simple,
    {
        PathStyle::Simple
    }
}

/// How a query parameter is serialized.
#[derive(Debug, Clone, Copy, PartialEq, Eq, Structural)]
pub enum QueryStyle {
    /// Ampersand-separated form values.
    Form,
    /// Space-separated array values.
    SpaceDelimited,
    /// Pipe-separated array values.
    PipeDelimited,
    /// Nested objects rendered as form parameters.
    DeepObject,
}

impl Default for QueryStyle {
    /// Query parameters default to form style.
    fn default() -> (r: Self)
        ensures
            r is Form,
    {
        QueryStyle::Form
    }
}

/// How a cookie parameter is serialized.
#[derive(Debug, Clone, Copy, PartialEq, Eq, Structural)]
pub enum CookieStyle {
    /// Ampersand-separated form values.
    Form,
}

impl Default for CookieStyle {
    /// Cookie parameters default to form style.
    fn default() -> (r: Self)
        ensures
            r is Form,
    {
        CookieStyle::Form
    }
}

/// How a header parameter is serialized.
#[derive(Debug, Clone, Copy, PartialEq, Eq, Structural)]
pub enum HeaderStyle {
    /// Simple comma-separated values.
    Simple,
}

impl Default for HeaderStyle {
    /// Header parameters default to simple style.
    fn default() -> (r: Self)
        ensures
            r is Simple,
    {
        HeaderStyle::Simple
    }
}

} // verus!
