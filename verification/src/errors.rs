//! Typed failure taxonomy: token validation failures, store-level
//! conflicts and the user-facing three-way outcome.

use vstd::prelude::*;

verus! {

/// Outcome of token validation. All variants are expected, recoverable
/// conditions for the caller.
#[derive(Clone, Copy, PartialEq, Eq, Structural, Debug)]
pub enum JwtError {
    /// The `nbf` field lies after the injected clock's reading.
    TooEarly,
    /// The `exp` field lies before the injected clock's reading.
    TooLate,
    /// The signature does not verify against the configured key.
    InvalidSig,
    /// Any other malformation of the token.
    Unknown,
}

/// Store-level failure. A uniqueness violation is kept apart from other
/// storage failures so the service can map it to a domain-level outcome.
#[derive(Clone, Copy, PartialEq, Eq, Structural, Debug)]
pub enum DbError {
    /// A record with the same unique field already exists.
    AlreadyExists,
    /// Any other storage failure.
    Other,
}

/// Failure of the password hashing engine; unexpected, propagated as-is.
#[derive(Clone, Copy, PartialEq, Eq, Structural, Debug)]
pub struct HashError;

/// The service-level, user-facing outcome. Bad credentials, missing or
/// invalid tokens and signature failures are deliberately unified under
/// `Auth` so that internal failure modes are indistinguishable to callers.
#[derive(Clone, Copy, PartialEq, Eq, Structural, Debug)]
pub enum ApiError {
    /// Authentication or authorization was denied.
    Auth,
    /// An infrastructure failure: hashing engine, storage or signing.
    Unknown,
    /// Registration conflict: the email or identifier is already taken.
    AlreadyInUse,
}

impl ApiError {
    /// The HTTP status this outcome travels under: 403 for a denied
    /// authentication, 500 for an infrastructure failure, 400 for a
    /// registration conflict.
    pub fn code(&self) -> (r: u16)
        ensures
            r == (match *self {
                ApiError::Auth => 403u16,
                ApiError::Unknown => 500u16,
                ApiError::AlreadyInUse => 400u16,
            }),
    {
        match *self {
            ApiError::Auth => 403,
            ApiError::Unknown => 500,
            ApiError::AlreadyInUse => 400,
        }
    }
}

} // verus!
