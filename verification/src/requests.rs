//! Request payloads of the companion web service.
//!
//! These are the plain shapes the service's handlers receive; the
//! transport layer deserializes into its own copies and converts.

use vstd::prelude::*;

verus! {

/// A request to register a new account.
#[derive(Debug)]
pub struct RegisterRequest {
    pub email: String,
    pub username: String,
    pub password: String,
}

/// A request to log in.
#[derive(Debug)]
pub struct LoginRequest {
    pub email: String,
    pub password: String,
}

/// A request to create a named permission.
#[derive(Debug)]
pub struct CreatePermission {
    pub name: String,
}

/// A request to create a named role.
#[derive(Debug)]
pub struct CreateRole {
    pub name: String,
}

/// The fields of a user account to create.
#[derive(Debug)]
pub struct NewUser {
    pub username: String,
    pub email: String,
}

} // verus!
