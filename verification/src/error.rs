//! The error taxonomy every failure is mapped into, once, at the operation
//! boundary. Raw library error text never reaches a client: each variant
//! carries the fixed client-facing message for its call site.
use vstd::prelude::*;

verus! {

/// A client-visible failure: the variant fixes the status code, the carried
/// text the uniform message.
#[derive(Debug)]
pub enum ApiError {
    /// A request field was rejected; the detail is safe to expose (400).
    Validation(&'static str),
    /// Login failed; one uniform message whatever the cause (401).
    InvalidCredentials(&'static str),
    /// A bearer token was missing, malformed, tampered with, expired or of
    /// the wrong kind; one uniform message (401).
    InvalidToken(&'static str),
    /// Authenticated but not entitled (403).
    Forbidden(&'static str),
    /// No such record (404).
    NotFound(&'static str),
    /// A uniqueness constraint was hit (409).
    Conflict(&'static str),
    /// Anything internal; the client sees only a generic message (500).
    Internal(&'static str),
}

impl ApiError {
    /// The HTTP status of each variant.
    pub open spec fn spec_status(self) -> u16 {
        match self {
            ApiError::Validation(_) => 400,
            ApiError::InvalidCredentials(_) => 401,
            ApiError::InvalidToken(_) => 401,
            ApiError::Forbidden(_) => 403,
            ApiError::NotFound(_) => 404,
            ApiError::Conflict(_) => 409,
            ApiError::Internal(_) => 500,
        }
    }

    /// The client-facing message.
    pub open spec fn spec_message(self) -> Seq<char> {
        match self {
            ApiError::Validation(m) => m@,
            ApiError::InvalidCredentials(m) => m@,
            ApiError::InvalidToken(m) => m@,
            ApiError::Forbidden(m) => m@,
            ApiError::NotFound(m) => m@,
            ApiError::Conflict(m) => m@,
            ApiError::Internal(m) => m@,
        }
    }

    /// The HTTP status code this error presents as.
    pub fn status_code(&self) -> (s: u16)
        ensures
            s == self.spec_status(),
    {
        match self {
            ApiError::Validation(_) => 400,
            ApiError::InvalidCredentials(_) => 401,
            ApiError::InvalidToken(_) => 401,
            ApiError::Forbidden(_) => 403,
            ApiError::NotFound(_) => 404,
            ApiError::Conflict(_) => 409,
            ApiError::Internal(_) => 500,
        }
    }

    /// The client-facing message text.
    pub fn message(&self) -> (m: &'static str)
        ensures
            m@ == self.spec_message(),
    {
        match self {
            ApiError::Validation(m) => m,
            ApiError::InvalidCredentials(m) => m,
            ApiError::InvalidToken(m) => m,
            ApiError::Forbidden(m) => m,
            ApiError::NotFound(m) => m,
            ApiError::Conflict(m) => m,
            ApiError::Internal(m) => m,
        }
    }
}

} // verus!
