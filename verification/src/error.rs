use vstd::prelude::*;

verus! {

/// The error kinds surfaced at the request boundary. Domain failures carry
/// a precise meaning for the client; internal failures map to a generic
/// server-error status.
#[derive(Clone, Copy, PartialEq, Eq, Structural, Debug)]
pub enum ApiError {
    /// No matching row for the supplied identifier.
    NotFound,
    /// Missing or invalid session, or a credential mismatch.
    Unauthorized,
    /// Malformed, unknown, or email-mismatched verification token.
    InvalidToken,
    /// Verification token past its validity window.
    TokenExpired,
    /// Malformed input.
    ValidationFailure,
    /// Internal cryptographic operation failure.
    HashingFailure,
    /// Underlying store failure, propagated opaquely.
    PersistenceFailure,
}

impl ApiError {
    /// The HTTP-style status code carried by each error kind.
    pub fn status_code(&self) -> (code: u16)
        ensures
            code == self.spec_status_code(),
    {
        match self {
            ApiError::NotFound => 404,
            ApiError::Unauthorized => 401,
            ApiError::InvalidToken => 403,
            ApiError::TokenExpired => 403,
            ApiError::ValidationFailure => 400,
            ApiError::HashingFailure => 500,
            ApiError::PersistenceFailure => 500,
        }
    }

    pub open spec fn spec_status_code(self) -> u16 {
        match self {
            ApiError::NotFound => 404,
            ApiError::Unauthorized => 401,
            ApiError::InvalidToken => 403,
            ApiError::TokenExpired => 403,
            ApiError::ValidationFailure => 400,
            ApiError::HashingFailure => 500,
            ApiError::PersistenceFailure => 500,
        }
    }
}

} // verus!
