//! The request and response payloads of the HTTP surface: plain data,
//! handed over the boundary as values.

use vstd::prelude::*;

use crate::jwt::Jwt;
use crate::model::{Email, Password};

verus! {

/// Body of the create-account endpoint.
pub struct CreateUserRequest {
    pub email: Email,
    pub password: Password,
}

/// Reply of the create-account endpoint.
pub struct CreateUserResponse {
    pub jwt: Jwt,
}

/// Body of the login endpoint.
pub struct LoginRequest {
    pub email: Email,
    pub password: Password,
}

/// Reply of the login endpoint.
pub struct LoginResponse {
    pub jwt: Jwt,
}

} // verus!
