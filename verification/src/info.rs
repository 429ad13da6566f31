//! The document's metadata block.

use vstd::prelude::*;
use crate::strmap::StringMap;
use crate::value::Value;

verus! {

/// Contact information for the exposed API.
#[derive(Debug, PartialEq)]
pub struct Contact {
    /// The identifying name of the contact person or organization.
    pub name: Option<String>,
    /// A URL pointing to the contact information.
    pub url: Option<String>,
    /// The email address of the contact person or organization.
    pub email: Option<String>,
}

/// License information for the exposed API.
#[derive(Debug, PartialEq)]
pub struct License {
    /// The license name used for the API.
    pub name: String,
    /// A URL to the license used for the API.
    pub url: Option<String>,
    /// Inline extensions to this object.
    pub extensions: StringMap<Value>,
}

/// Metadata about the API.
#[derive(Debug, PartialEq)]
pub struct Info {
    /// The title of the application.
    pub title: String,
    /// A short description of the application.
    pub description: Option<String>,
    /// A URL to the terms of service for the API.
    pub terms_of_service: Option<String>,
    /// Contact information for the exposed API.
    pub contact: Option<Contact>,
    /// License information for the exposed API.
    pub license: Option<License>,
    /// The version of this API description document.
    pub version: String,
    /// Inline extensions to this object.
    pub extensions: StringMap<Value>,
}

} // verus!
