//! What the wrapper around the compiler can fail with.

use crate::error::VyperVmError;
use vstd::prelude::*;

verus! {

/// The error of an operation of the operating system.
#[verifier::external_type_specification]
#[verifier::external_body]
pub struct ExIoError(std::io::Error);

/// The error that `serde_json` gives for a document it cannot read or
/// write.
#[verifier::external_type_specification]
#[verifier::external_body]
pub struct ExJsonError(serde_json::Error);

/// An I/O error together with the path it happened at.
#[derive(Debug)]
pub struct VyperIoError {
    pub io: std::io::Error,
    pub path: String,
}

/// Error types
#[derive(Debug)]
pub enum VyperError {
    /// The cache file could not be read or written as a document.
    SerdeJson(serde_json::Error),
    /// A file could not be read or written.
    Io(VyperIoError),
    /// The version manager failed.
    VvmError(VyperVmError),
    /// General purpose message
    Message(String),
}

impl VyperIoError {
    /// The error `io` that happened at `path`.
    pub fn new(io: std::io::Error, path: String) -> (r: Self)
        ensures
            r.io == io,
            r.path == path,
    {
        Self { io, path }
    }

    /// The error of the operating system alone.
    pub fn into_io(self) -> (r: std::io::Error)
        ensures
            r == self.io,
    {
        self.io
    }
}

impl VyperError {
    /// The error `err` that happened at `path`.
    pub fn io(err: std::io::Error, path: String) -> (r: Self)
        ensures
            r matches VyperError::Io(e) && e.io == err && e.path == path,
    {
        VyperError::Io(VyperIoError::new(err, path))
    }

    /// An error that is a message and nothing else.
    pub fn msg(msg: String) -> (r: Self)
        ensures
            r matches VyperError::Message(m) && m == msg,
    {
        VyperError::Message(msg)
    }
}

} // verus!
