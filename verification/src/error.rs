//! What the version manager can fail with.

use vstd::prelude::*;

verus! {

/// The error that `semver` gives for text that is no version.
#[verifier::external_type_specification]
#[verifier::external_body]
pub struct ExSemverError(semver::Error);

/// The error that `url` gives for text that is no URL.
#[verifier::external_type_specification]
#[verifier::external_body]
pub struct ExUrlParseError(url::ParseError);

/// An error of the version manager.
#[derive(Debug)]
pub enum VyperVmError {
    /// The global version was asked for but never set.
    GlobalVersionNotSet,
    /// No artifact, or no readable version, stands behind what was asked for.
    UnknownVersion,
    /// The digest of a downloaded binary is not the expected one.
    ChecksumMismatch(String),
    /// A filesystem operation failed; the text names the path and the cause.
    IoError(String),
    /// The transport failed before a response came.
    ReqwestError(String),
    /// Text that should have been a version was none.
    SemverError(semver::Error),
    /// Text that should have been a URL was none.
    UrlError(url::ParseError),
    /// The server answered the URL with a status that is no success.
    UnsuccessfulResponse(String, u16),
}

} // verus!
