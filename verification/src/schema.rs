//! The schema model: shared descriptive data plus exactly one kind — a
//! primitive type, a combinator, or the catch-all that keeps every
//! recognized field of an input matching no pure shape.

use vstd::prelude::*;
use crate::reference::ReferenceOr;
use crate::strmap::StringMap;
use crate::value::{str_eq, Number, Value};
use crate::variant_or::VariantOrUnknownOrEmpty;

verus! {

/// Allows referencing an external resource for extended documentation.
#[derive(Debug, Clone, PartialEq)]
pub struct ExternalDocumentation {
    /// A short description of the target documentation.
    pub description: Option<String>,
    /// The URL for the target documentation.
    pub url: String,
}

/// Informs consumers of an alternative schema based on the value of a named
/// property.
#[derive(Debug, Clone, PartialEq)]
pub struct Discriminator {
    /// The name of the property that holds the discriminator value.
    pub property_name: String,
    /// Mappings between payload values and schema names or references.
    pub mapping: StringMap<String>,
}

/// Descriptive attributes shared by every schema kind.
#[derive(Debug, PartialEq)]
pub struct SchemaData {
    pub nullable: bool,
    pub read_only: bool,
    pub write_only: bool,
    pub deprecated: bool,
    pub external_docs: Option<ExternalDocumentation>,
    pub example: Option<Value>,
    pub title: Option<String>,
    pub description: Option<String>,
    pub discriminator: Option<Discriminator>,
    pub default: Option<Value>,
    /// Inline extensions to this object.
    pub extensions: StringMap<Value>,
}

/// A unit of type description: shared data and exactly one kind.
#[derive(Debug, PartialEq)]
pub struct Schema {
    pub schema_data: SchemaData,
    pub schema_kind: SchemaKind,
}

/// Exactly one of several mutually exclusive schema shapes.
#[derive(Debug, PartialEq)]
pub enum SchemaKind {
    Type(Type),
    OneOf { one_of: Vec<ReferenceOr<Schema>> },
    AllOf { all_of: Vec<ReferenceOr<Schema>> },
    AnyOf { any_of: Vec<ReferenceOr<Schema>> },
    Not { not: Box<ReferenceOr<Schema>> },
    Any(AnySchema),
}

/// A primitive type with its type-specific constraints.
#[derive(Debug, PartialEq)]
pub enum Type {
    String(StringType),
    Number(NumberType),
    Integer(IntegerType),
    Object(ObjectType),
    Array(ArrayType),
    Boolean(BooleanType),
}

/// The policy for properties beyond the declared ones.
#[derive(Debug, PartialEq)]
pub enum AdditionalProperties {
    Any(bool),
    Schema(Box<ReferenceOr<Schema>>),
}

/// Catch-all for any combination of recognized fields that matches no pure
/// shape: every field that was present is kept, so nothing is lost.
#[derive(Debug, PartialEq)]
pub struct AnySchema {
    pub typ: Option<String>,
    pub pattern: Option<String>,
    pub multiple_of: Option<Number>,
    pub exclusive_minimum: Option<bool>,
    pub exclusive_maximum: Option<bool>,
    pub minimum: Option<Number>,
    pub maximum: Option<Number>,
    pub properties: StringMap<ReferenceOr<Box<Schema>>>,
    pub required: Vec<String>,
    pub additional_properties: Option<AdditionalProperties>,
    pub min_properties: Option<usize>,
    pub max_properties: Option<usize>,
    pub items: Option<ReferenceOr<Box<Schema>>>,
    pub min_items: Option<usize>,
    pub max_items: Option<usize>,
    pub unique_items: Option<bool>,
    pub enumeration: Vec<Value>,
    pub format: Option<String>,
    pub min_length: Option<usize>,
    pub max_length: Option<usize>,
    pub one_of: Vec<ReferenceOr<Schema>>,
    pub all_of: Vec<ReferenceOr<Schema>>,
    pub any_of: Vec<ReferenceOr<Schema>>,
    pub not: Option<Box<ReferenceOr<Schema>>>,
}

/// Constraints of a `string` schema.
#[derive(Debug, PartialEq)]
pub struct StringType {
    pub format: VariantOrUnknownOrEmpty<StringFormat>,
    pub pattern: Option<String>,
    /// Enumeration entries; a `None` entry is the explicit literal `null`.
    pub enumeration: Vec<Option<String>>,
    pub min_length: Option<usize>,
    pub max_length: Option<usize>,
}

/// Constraints of a `number` schema.
#[derive(Debug, PartialEq)]
pub struct NumberType {
    pub format: VariantOrUnknownOrEmpty<NumberFormat>,
    pub multiple_of: Option<Number>,
    pub exclusive_minimum: bool,
    pub exclusive_maximum: bool,
    pub minimum: Option<Number>,
    pub maximum: Option<Number>,
    /// Enumeration entries; a `None` entry is the explicit literal `null`.
    pub enumeration: Vec<Option<Number>>,
}

/// Constraints of an `integer` schema; its numeric fields reject
/// non-integral literals.
#[derive(Debug, PartialEq)]
pub struct IntegerType {
    pub format: VariantOrUnknownOrEmpty<IntegerFormat>,
    pub multiple_of: Option<i64>,
    pub exclusive_minimum: bool,
    pub exclusive_maximum: bool,
    pub minimum: Option<i64>,
    pub maximum: Option<i64>,
    /// Enumeration entries; a `None` entry is the explicit literal `null`.
    pub enumeration: Vec<Option<i64>>,
}

/// Constraints of an `object` schema.
#[derive(Debug, PartialEq)]
pub struct ObjectType {
    pub properties: StringMap<ReferenceOr<Box<Schema>>>,
    pub required: Vec<String>,
    pub additional_properties: Option<AdditionalProperties>,
    pub min_properties: Option<usize>,
    pub max_properties: Option<usize>,
}

/// Constraints of an `array` schema.
#[derive(Debug, PartialEq)]
pub struct ArrayType {
    pub items: Option<ReferenceOr<Box<Schema>>>,
    pub min_items: Option<usize>,
    pub max_items: Option<usize>,
    pub unique_items: bool,
}

/// Constraints of a `boolean` schema.
#[derive(Debug, PartialEq)]
pub struct BooleanType {
    /// Enumeration entries; a `None` entry is the explicit literal `null`.
    pub enumeration: Vec<Option<bool>>,
}

/// The recognized `number` formats.
#[derive(Debug, Clone, Copy, PartialEq, Eq, Structural)]
pub enum NumberFormat {
    Float,
    Double,
}

impl NumberFormat {
    /// The variant a format name stands for.
    pub open spec fn spec_from_str(s: Seq<char>) -> Option<NumberFormat> {
        if s == "float"@ {
            Some(NumberFormat::Float)
        } else if s == "double"@ {
            Some(NumberFormat::Double)
        } else {
            None
        }
    }

    /// Parses a format name.
    pub fn from_str(s: &str) -> (r: Result<Self, ()>)
        ensures
            r == match Self::spec_from_str(s@) {
                Some(f) => Ok::<NumberFormat, ()>(f),
                None => Err(()),
            },
    {
        if str_eq(s, "float") {
            Ok(NumberFormat::Float)
        } else if str_eq(s, "double") {
            Ok(NumberFormat::Double)
        } else {
            Err(())
        }
    }
}

/// The recognized `integer` formats.
#[derive(Debug, Clone, Copy, PartialEq, Eq, Structural)]
pub enum IntegerFormat {
    Int32,
    Int64,
}

impl IntegerFormat {
    /// The variant a format name stands for.
    pub open spec fn spec_from_str(s: Seq<char>) -> Option<IntegerFormat> {
        if s == "int32"@ {
            Some(IntegerFormat::Int32)
        } else if s == "int64"@ {
            Some(IntegerFormat::Int64)
        } else {
            None
        }
    }

    /// Parses a format name.
    pub fn from_str(s: &str) -> (r: Result<Self, ()>)
        ensures
            r == match Self::spec_from_str(s@) {
                Some(f) => Ok::<IntegerFormat, ()>(f),
                None => Err(()),
            },
    {
        if str_eq(s, "int32") {
            Ok(IntegerFormat::Int32)
        } else if str_eq(s, "int64") {
            Ok(IntegerFormat::Int64)
        } else {
            Err(())
        }
    }
}

/// The recognized `string` formats.
#[derive(Debug, Clone, Copy, PartialEq, Eq, Structural)]
pub enum StringFormat {
    Date,
    DateTime,
    Password,
    Byte,
    Binary,
}

impl StringFormat {
    /// The variant a format name stands for.
    pub open spec fn spec_from_str(s: Seq<char>) -> Option<StringFormat> {
        if s == "date"@ {
            Some(StringFormat::Date)
        } else if s == "date-time"@ {
            Some(StringFormat::DateTime)
        } else if s == "password"@ {
            Some(StringFormat::Password)
        } else if s == "byte"@ {
            Some(StringFormat::Byte)
        } else if s == "binary"@ {
            Some(StringFormat::Binary)
        } else {
            None
        }
    }

    /// Parses a format name.
    pub fn from_str(s: &str) -> (r: Result<Self, ()>)
        ensures
            r == match Self::spec_from_str(s@) {
                Some(f) => Ok::<StringFormat, ()>(f),
                None => Err(()),
            },
    {
        if str_eq(s, "date") {
            Ok(StringFormat::Date)
        } else if str_eq(s, "date-time") {
            Ok(StringFormat::DateTime)
        } else if str_eq(s, "password") {
            Ok(StringFormat::Password)
        } else if str_eq(s, "byte") {
            Ok(StringFormat::Byte)
        } else if str_eq(s, "binary") {
            Ok(StringFormat::Binary)
        } else {
            Err(())
        }
    }
}

} // verus!
