//! The library's error type.

use vstd::prelude::*;

verus! {

/// `std::io::Error`, carried through unchanged.
#[verifier::external_type_specification]
#[verifier::external_body]
pub struct ExIoError(std::io::Error);

/// `serde_json::Error`, carried through unchanged.
#[verifier::external_type_specification]
#[verifier::external_body]
pub struct ExJsonError(serde_json::Error);

/// What can go wrong in Marty.
#[derive(Debug)]
pub enum MartyError {
    /// A failed read or write.
    Io(std::io::Error),
    /// A JSON document that could not be read or written.
    Json(serde_json::Error),
    /// Configuration that could not be used.
    Config(String),
    /// The HTTP side (server, metrics).
    Http(String),
    /// A refused request, with its explanation.
    Internal(String),
}

/// The error that carries `msg` as an internal error.
pub open spec fn is_internal(e: MartyError, msg: Seq<char>) -> bool {
    e matches MartyError::Internal(m) && m@ == msg
}

/// `r` is the internal error that carries `msg`.
pub open spec fn is_internal_err<T>(r: Result<T, MartyError>, msg: Seq<char>) -> bool {
    r matches Err(e) && is_internal(e, msg)
}

} // verus!
