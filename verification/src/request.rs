//! Request payloads accepted at the boundary, with their validation
//! rules. Malformed input is rejected here, before it reaches the core.

use vstd::prelude::*;

use crate::error::AppError;
use crate::error::ErrorKind;
use crate::model::Pk;

verus! {

/// A path parameter holding an auto-increment id.
#[derive(Debug)]
pub struct AutoIdPath {
    /// The entity id; must be at least 1.
    pub id: Pk,
}

impl AutoIdPath {
    /// Accepts ids of 1 and above, the range an auto-increment column
    /// hands out.
    pub fn validate(&self) -> (r: Result<(), AppError>)
        ensures
            r is Ok <==> self.id >= 1,
            r is Err ==> r->Err_0.kind == ErrorKind::ValidationFailed,
    {
        if self.id >= 1 {
            Ok(())
        } else {
            Err(ErrorKind::ValidationFailed.with_message(String::from_str(
                "id must be at least 1",
            )))
        }
    }
}

/// The greeting request.
#[derive(Debug)]
pub struct HelloRequest {
    /// The name to greet.
    pub name: String,
}

/// Pagination parameters of the list endpoints.
#[derive(Debug)]
pub struct PaginationQuery {
    /// The zero-based page number.
    pub page: u64,
    /// The number of items per page.
    pub per_page: u64,
}

impl Default for PaginationQuery {
    /// The first page, ten items.
    fn default() -> (r: PaginationQuery)
        ensures
            r.page == 0,
            r.per_page == 10,
    {
        PaginationQuery { page: 0, per_page: 10 }
    }
}

/// A login request: the credentials as sent by the client.
#[derive(Debug)]
pub struct LoginRequest {
    /// The claimed username.
    pub username: String,
    /// The plaintext password.
    pub password: String,
}

/// A user-registration request.
#[derive(Debug)]
pub struct CreateUserRequest {
    /// The requested username.
    pub username: String,
    /// The plaintext password.
    pub password: String,
}

impl CreateUserRequest {
    /// Accepts usernames of 3 to 20 characters and passwords of 8 to 32.
    pub fn validate(&self) -> (r: Result<(), AppError>)
        ensures
            r is Ok <==> (3 <= self.username@.len() <= 20 && 8 <= self.password@.len() <= 32),
            r is Err ==> r->Err_0.kind == ErrorKind::ValidationFailed,
    {
        let ul = self.username.as_str().unicode_len();
        if ul < 3 || ul > 20 {
            return Err(ErrorKind::ValidationFailed.with_message(String::from_str(
                "Username must be between 3 and 20 characters",
            )));
        }
        let pl = self.password.as_str().unicode_len();
        if pl < 8 || pl > 32 {
            return Err(ErrorKind::ValidationFailed.with_message(String::from_str(
                "Password must be between 8 and 32 characters",
            )));
        }
        Ok(())
    }
}

/// A username-change request.
#[derive(Debug)]
pub struct UpdateUsernameRequest {
    /// The new username.
    pub username: String,
}

/// A password-change request, carrying the current password as proof.
#[derive(Debug)]
pub struct ChangePasswordRequest {
    /// The current password.
    pub old_password: String,
    /// The password to change to.
    pub new_password: String,
}

/// An administrative password-reset request.
#[derive(Debug)]
pub struct ResetPasswordRequest {
    /// The password to set.
    pub new_password: String,
}

} // verus!
