//! The error type shared by every extractor and resolver in this crate.

use vstd::prelude::*;

verus! {

/// Why an extraction or resolution failed.
///
/// Every extractor-level failure is terminal for the single comic or video
/// being resolved: no partial record is ever returned.
#[derive(Debug, Clone)]
pub enum Error {
    /// The input URL does not match the shape the site's extractor expects.
    UrlPatternMismatch,
    /// An expected embedded fragment (JSON blob, HTML node, API field) is
    /// absent. The payload names the missing fragment.
    MissingFragment(String),
    /// A fragment was present but structurally invalid. The payload names
    /// the fragment or field that failed to decode.
    DecodeFailure(String),
    /// The metadata API answered, but with zero records.
    EmptyResult,
    /// Opaque passthrough from the fetch collaborator.
    NetworkFailure(String),
}

impl Error {
    /// A short human-readable description, usable where `Display` would be.
    pub fn describe(&self) -> String {
        match self {
            Error::UrlPatternMismatch => String::from_str("url pattern mismatch"),
            Error::MissingFragment(which) => String::from_str("missing fragment: ").concat(
                which.as_str(),
            ),
            Error::DecodeFailure(which) => String::from_str("decode failure: ").concat(
                which.as_str(),
            ),
            Error::EmptyResult => String::from_str("empty result"),
            Error::NetworkFailure(what) => String::from_str("network failure: ").concat(
                what.as_str(),
            ),
        }
    }
}

} // verus!
