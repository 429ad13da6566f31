//! Error types for decoding, reference resolution and merging.
//!
//! Every failure is reported synchronously to the caller of the operation
//! that hit it; no operation retries or yields a partial document.

use vstd::prelude::*;

verus! {

/// Why a generic structured value could not be decoded into the model.
#[derive(Debug, Clone, PartialEq)]
pub enum DecodeError {
    /// A record or map was expected but another kind of value stood there.
    ExpectedObject,
    /// The named field held a value of the wrong kind.
    BadField(String),
    /// A required field was absent.
    MissingField(String),
    /// A response-map key was neither a 3-digit code in 100..=999 nor a
    /// digit followed by `XX`.
    BadStatusCode,
    /// The document's format-version tag was absent or unusable.
    BadVersion,
}

/// Why a reference could not be resolved against a document.
#[derive(Debug, Clone, PartialEq)]
pub enum ResolveError {
    /// The pointer does not follow `#/components/<group>/<name>` for the
    /// group that was asked for.
    InvalidReference(String),
    /// No entry of the requested name stands in the relevant table.
    NotFound(String),
    /// A table entry was itself a reference where chaining is not allowed,
    /// or a schema chain ran past the depth the table could justify.
    Circular(String),
}

/// Why two documents could not be merged.
#[derive(Debug, Clone, PartialEq)]
pub enum MergeError {
    /// A path entry was a reference rather than an inline path item, which
    /// the merge does not support.
    PathItemIsReference(String),
    /// Two definitions of the same path disagree on their parameter lists:
    /// different lengths, or names that do not match pairwise.
    ParameterMismatch(String),
}

} // verus!
