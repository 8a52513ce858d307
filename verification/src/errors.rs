//! Error taxonomy of the engine, and the IPC error type of the surrounding
//! client.
//!
//! The engine never recovers from an error locally: every failure is
//! returned to the caller with enough context to tell "wrong key" from
//! "not found" from "corrupt data".

use vstd::prelude::*;

verus! {

/// Failures of the packing, unpacking and directory-entry logic.
///
/// `NotFound`, `VisibilityMismatch` and `UnderlyingStorage` originate in
/// the external chunk store and content encryptor; the caller that drives
/// those capabilities maps their failures onto these variants and the
/// engine propagates them verbatim.
#[derive(Debug, Clone, PartialEq, Eq)]
pub enum CoreError {
    /// Malformed or truncated tagged-encoding, chunk-map, record or file
    /// bytes.
    DecodeError,
    /// Ciphertext failed to authenticate under the supplied key, or the
    /// key expectation of the bytes did not match the key supplied.
    DecryptError,
    /// A chunk record exceeded the maximum size after packing; this marks
    /// a bug in the caller's driving loop, not user error.
    SizeInvariantViolation,
    /// The chunk store holds nothing at the requested address.
    NotFound,
    /// A chunk reached during unpacking does not carry the visibility of
    /// the top-level record.
    VisibilityMismatch,
    /// An opaque failure of the chunk store or content encryptor.
    UnderlyingStorage(String),
}

/// IPC error of the surrounding client, carried across the process
/// boundary.
#[derive(Debug, Clone, PartialEq, Eq)]
pub enum IpcError {
    /// Authentication denied
    AuthDenied,
    /// Containers denied
    ContainersDenied,
    /// Invalid IPC message
    InvalidMsg,
    /// Generic encoding / decoding failure.
    EncodeDecodeError,
    /// App is already authorised
    AlreadyAuthorised,
    /// App is not registered
    UnknownApp,
    /// Unexpected error
    Unexpected(String),
}

impl From<String> for IpcError {
    fn from(s: String) -> (r: IpcError) {
        IpcError::Unexpected(s)
    }
}

impl vstd::std_specs::convert::FromSpecImpl<String> for IpcError {
    open spec fn obeys_from_spec() -> bool {
        true
    }

    open spec fn from_spec(s: String) -> IpcError {
        IpcError::Unexpected(s)
    }
}

impl From<&str> for IpcError {
    fn from(s: &str) -> (r: IpcError) {
        ipc_error_from_str(s)
    }
}

/// The conversion wraps the message's characters in `Unexpected`.  A
/// `String` value is specified only through its view, so the trait-level
/// claim names a string with those characters without being held to it;
/// the callable contract stands on `ipc_error_from_str`.
impl vstd::std_specs::convert::FromSpecImpl<&str> for IpcError {
    open spec fn obeys_from_spec() -> bool {
        false
    }

    open spec fn from_spec(s: &str) -> IpcError {
        IpcError::Unexpected(choose|t: String| t@ == s@)
    }
}

/// Wraps a message in `Unexpected`, character for character.
pub fn ipc_error_from_str(s: &str) -> (r: IpcError)
    ensures
        r matches IpcError::Unexpected(m) && m@ == s@,
{
    IpcError::Unexpected(
        <String as vstd::string::StringExecFns>::from_str(s),
    )
}

} // verus!
