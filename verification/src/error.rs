//! The error kinds that the gateway reports to its callers.

use vstd::prelude::*;

verus! {

/// An application error, by the HTTP meaning it is answered with.
#[derive(Debug, Clone)]
pub enum AppError {
    /// The request is invalid (HTTP 400).
    BadRequest(String),
    /// The addressed item does not exist (HTTP 404).
    NotFound(String),
    /// An upstream service failed (HTTP 502).
    Upstream(String),
    /// Anything else (HTTP 500).
    Internal(String),
}

/// Whether `r` is a bad request answered with `message`.
pub open spec fn is_bad_request(r: AppError, message: Seq<char>) -> bool {
    r matches AppError::BadRequest(m) && m@ == message
}

/// Whether `r` is an upstream failure answered with `message`.
pub open spec fn is_upstream(r: AppError, message: Seq<char>) -> bool {
    r matches AppError::Upstream(m) && m@ == message
}

/// Whether `r` is an internal error answered with `message`.
pub open spec fn is_internal(r: AppError, message: Seq<char>) -> bool {
    r matches AppError::Internal(m) && m@ == message
}

} // verus!
