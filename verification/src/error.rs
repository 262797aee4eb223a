//! Error and result types shared across the crate and its ports.

use vstd::prelude::*;

verus! {

/// The error type used by every port of the library.
///
/// Adapters and sinks wrap their own failures with [`Error::Other`] or
/// [`Error::Message`]; core never needs to know a backend's error types.
#[derive(Debug)]
pub enum Error {
    /// A JSON (de)serialization failure, with its description.
    Json(String),
    /// A backend/schema version string could not be parsed.
    InvalidVersion {
        /// The string that failed to parse.
        input: String,
        /// Why parsing failed.
        reason: String,
    },
    /// A field manifest failed its consistency checks and cannot be trusted
    /// for verification.
    InvalidManifest(String),
    /// A plain-message error, for cases that do not warrant a typed variant.
    Message(String),
    /// Any other failure coming from an adapter or sink implementation,
    /// with its description.
    Other(String),
}

/// Convenience alias used across the library and implemented by adapters.
pub type Result<T> = core::result::Result<T, Error>;

} // verus!
