//! Errors that request handling can end in.
use vstd::prelude::*;

verus! {

/// The ways a request can be refused.
#[derive(Debug)]
pub enum AppError {
    /// No valid session.
    Unauthorized,
    /// A mutating request without the `X-Requested-With` header.
    Forbidden,
    /// The named item does not exist.
    NotFound,
    /// The request is malformed; the text says how.
    BadRequest(String),
    /// Unknown user or wrong password; the two are not told apart.
    BadCredentials,
    /// The account is locked for this many more seconds.
    AccountLocked(u64),
    /// An internal failure, with its description.
    Other(String),
}

} // verus!
