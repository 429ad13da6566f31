//! A known variant, an unrecognized textual value, or nothing at all:
//! the shape of the optional `format` field of typed schemas.

use vstd::prelude::*;
use crate::schema::{IntegerFormat, NumberFormat, StringFormat};

verus! {

/// A recognized variant or an unrecognized textual value.
#[derive(Debug, Clone, PartialEq)]
pub enum VariantOrUnknown<T> {
    Item(T),
    Unknown(String),
}

/// A recognized variant, an unrecognized textual value, or absence.
#[derive(Debug, Clone, PartialEq)]
pub enum VariantOrUnknownOrEmpty<T> {
    Item(T),
    Unknown(String),
    Empty,
}

impl<T> VariantOrUnknownOrEmpty<T> {
    /// True exactly for the absent case.
    pub fn is_empty(&self) -> (r: bool)
        ensures
            r == (self is Empty),
    {
        match self {
            VariantOrUnknownOrEmpty::Empty => true,
            _ => false,
        }
    }
}

impl<T> Default for VariantOrUnknownOrEmpty<T> {
    /// The default format is absence.
    fn default() -> (r: Self)
        ensures
            r is Empty,
    {
        VariantOrUnknownOrEmpty::Empty
    }
}

/// The format field a stored string stands for: absence gives `Empty`, a
/// recognized name its variant, any other string `Unknown`.
pub open spec fn string_format_from(v: Option<String>) -> VariantOrUnknownOrEmpty<StringFormat> {
    match v {
        None => VariantOrUnknownOrEmpty::Empty,
        Some(s) => match StringFormat::spec_from_str(s@) {
            Some(f) => VariantOrUnknownOrEmpty::Item(f),
            None => VariantOrUnknownOrEmpty::Unknown(s),
        },
    }
}

impl vstd::std_specs::convert::FromSpecImpl<Option<String>> for VariantOrUnknownOrEmpty<StringFormat> {
    open spec fn obeys_from_spec() -> bool {
        true
    }

    open spec fn from_spec(v: Option<String>) -> Self {
        string_format_from(v)
    }
}

impl From<Option<String>> for VariantOrUnknownOrEmpty<StringFormat> {
    /// An absent string gives `Empty`; a recognized format name gives its
    /// variant; any other string is kept as `Unknown`.
    fn from(v: Option<String>) -> Self {
        match v {
            None => VariantOrUnknownOrEmpty::Empty,
            Some(s) => match StringFormat::from_str(s.as_str()) {
                Ok(f) => VariantOrUnknownOrEmpty::Item(f),
                Err(()) => VariantOrUnknownOrEmpty::Unknown(s),
            },
        }
    }
}

/// The format field a stored string stands for: absence gives `Empty`, a
/// recognized name its variant, any other string `Unknown`.
pub open spec fn number_format_from(v: Option<String>) -> VariantOrUnknownOrEmpty<NumberFormat> {
    match v {
        None => VariantOrUnknownOrEmpty::Empty,
        Some(s) => match NumberFormat::spec_from_str(s@) {
            Some(f) => VariantOrUnknownOrEmpty::Item(f),
            None => VariantOrUnknownOrEmpty::Unknown(s),
        },
    }
}

impl vstd::std_specs::convert::FromSpecImpl<Option<String>> for VariantOrUnknownOrEmpty<NumberFormat> {
    open spec fn obeys_from_spec() -> bool {
        true
    }

    open spec fn from_spec(v: Option<String>) -> Self {
        number_format_from(v)
    }
}

impl From<Option<String>> for VariantOrUnknownOrEmpty<NumberFormat> {
    /// An absent string gives `Empty`; a recognized format name gives its
    /// variant; any other string is kept as `Unknown`.
    fn from(v: Option<String>) -> Self {
        match v {
            None => VariantOrUnknownOrEmpty::Empty,
            Some(s) => match NumberFormat::from_str(s.as_str()) {
                Ok(f) => VariantOrUnknownOrEmpty::Item(f),
                Err(()) => VariantOrUnknownOrEmpty::Unknown(s),
            },
        }
    }
}

/// The format field a stored string stands for: absence gives `Empty`, a
/// recognized name its variant, any other string `Unknown`.
pub open spec fn integer_format_from(v: Option<String>) -> VariantOrUnknownOrEmpty<IntegerFormat> {
    match v {
        None => VariantOrUnknownOrEmpty::Empty,
        Some(s) => match IntegerFormat::spec_from_str(s@) {
            Some(f) => VariantOrUnknownOrEmpty::Item(f),
            None => VariantOrUnknownOrEmpty::Unknown(s),
        },
    }
}

impl vstd::std_specs::convert::FromSpecImpl<Option<String>> for VariantOrUnknownOrEmpty<IntegerFormat> {
    open spec fn obeys_from_spec() -> bool {
        true
    }

    open spec fn from_spec(v: Option<String>) -> Self {
        integer_format_from(v)
    }
}

impl From<Option<String>> for VariantOrUnknownOrEmpty<IntegerFormat> {
    /// An absent string gives `Empty`; a recognized format name gives its
    /// variant; any other string is kept as `Unknown`.
    fn from(v: Option<String>) -> Self {
        match v {
            None => VariantOrUnknownOrEmpty::Empty,
            Some(s) => match IntegerFormat::from_str(s.as_str()) {
                Ok(f) => VariantOrUnknownOrEmpty::Item(f),
                Err(()) => VariantOrUnknownOrEmpty::Unknown(s),
            },
        }
    }
}

} // verus!
