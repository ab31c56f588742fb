use vstd::prelude::*;

verus! {

/// A single input-validation violation, identifying the offending field.
#[derive(Clone, Copy, Debug, PartialEq, Eq, Structural)]
pub enum FieldError {
    /// The email address is not well-formed.
    EmailMalformed,
    /// The password has fewer than the minimum number of characters.
    PasswordTooShort,
    /// No password was supplied at all.
    PasswordEmpty,
    /// The first name is empty.
    FirstNameEmpty,
    /// The last name is empty.
    LastNameEmpty,
    /// The supplied token is empty.
    TokenEmpty,
}

/// Why a bearer token failed verification.
#[derive(Clone, Copy, Debug, PartialEq, Eq, Structural)]
pub enum TokenError {
    /// The token's signature does not match the signing secret.
    InvalidSignature,
    /// The token's signature is valid but its expiry has passed.
    Expired,
    /// The token does not have the structure of a signed token.
    Malformed,
}

/// The service-wide error taxonomy. Domain errors carry no internal detail;
/// infrastructure failures surface only as `Internal` or `StoreUnavailable`.
#[derive(Debug, PartialEq, Eq)]
pub enum AuthError {
    /// One or more request fields failed validation; every violation is
    /// reported, not only the first.
    ValidationFailed(Vec<FieldError>),
    /// A record with the same unique key already exists.
    AlreadyExists,
    /// The credentials presented do not grant access; deliberately
    /// indistinguishable between an unknown account and a wrong password.
    Unauthorized,
    /// A single-use or time-limited token was not found, already consumed,
    /// or past its time-to-live.
    InvalidOrExpiredToken,
    /// The requested record does not exist.
    NotFound,
    /// The backing store could not be reached; never to be read as
    /// "not found".
    StoreUnavailable,
    /// An internal failure whose detail must not reach the caller.
    Internal,
}

impl AuthError {
    /// The caller-facing message: safe wording only, no internal detail.
    pub fn message(&self) -> (r: &'static str)
        ensures
            r@ == self.message_spec(),
    {
        match self {
            AuthError::ValidationFailed(_) => "validation failed",
            AuthError::AlreadyExists => "already exists",
            AuthError::Unauthorized => "unauthorized",
            AuthError::InvalidOrExpiredToken => "invalid or expired token",
            AuthError::NotFound => "not found",
            AuthError::StoreUnavailable => "service temporarily unavailable",
            AuthError::Internal => "internal error",
        }
    }

    /// The message each error variant carries to the wire.
    pub open spec fn message_spec(&self) -> Seq<char> {
        match self {
            AuthError::ValidationFailed(_) => "validation failed"@,
            AuthError::AlreadyExists => "already exists"@,
            AuthError::Unauthorized => "unauthorized"@,
            AuthError::InvalidOrExpiredToken => "invalid or expired token"@,
            AuthError::NotFound => "not found"@,
            AuthError::StoreUnavailable => "service temporarily unavailable"@,
            AuthError::Internal => "internal error"@,
        }
    }
}

} // verus!
