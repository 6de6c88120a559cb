//! The error surface of the HTTP layer around the repository.
//!
//! The HTTP layer only ever sees the three repository error kinds plus
//! absence, and maps them to user-visible responses without inspecting
//! causes; that mapping is verified here.

use vstd::prelude::*;

use crate::users::User;
use crate::users::UserRepoError;

verus! {

/// What the HTTP layer answers when a request cannot be served.
#[derive(Debug)]
pub enum ApiError {
    /// The request violated a uniqueness constraint.
    Conflict,
    /// The request itself is malformed.
    BadRequest(String),
    /// The repository failed; the cause is not surfaced.
    Internal,
    /// No record under the requested identifier.
    NotFound,
}

/// How a repository failure surfaces over HTTP: a conflict keeps its
/// kind, everything else is an internal failure.
pub open spec fn api_error_of(e: UserRepoError) -> ApiError {
    match e {
        UserRepoError::Conflict { .. } => ApiError::Conflict,
        UserRepoError::Unavailable => ApiError::Internal,
        UserRepoError::Unexpected { .. } => ApiError::Internal,
    }
}

impl From<UserRepoError> for ApiError {
    fn from(e: UserRepoError) -> (r: ApiError) {
        match e {
            UserRepoError::Conflict { .. } => ApiError::Conflict,
            UserRepoError::Unavailable => ApiError::Internal,
            UserRepoError::Unexpected { .. } => ApiError::Internal,
        }
    }
}

impl vstd::std_specs::convert::FromSpecImpl<UserRepoError> for ApiError {
    open spec fn obeys_from_spec() -> bool {
        true
    }

    open spec fn from_spec(e: UserRepoError) -> ApiError {
        api_error_of(e)
    }
}

impl ApiError {
    /// The status code of each kind: conflict 409, bad request 400,
    /// internal failure 500, absence 404.
    pub fn status_code(&self) -> (r: u16)
        ensures
            r == (match self {
                ApiError::Conflict => 409u16,
                ApiError::BadRequest(_) => 400u16,
                ApiError::Internal => 500u16,
                ApiError::NotFound => 404u16,
            }),
    {
        match self {
            ApiError::Conflict => 409,
            ApiError::BadRequest(_) => 400,
            ApiError::Internal => 500,
            ApiError::NotFound => 404,
        }
    }
}

/// What the fetch-by-identifier handlers answer: the record when the
/// repository found one, the not-found error on absence.
pub fn found_or_not_found(found: Option<User>) -> (r: Result<User, ApiError>)
    ensures
        match found {
            Some(u) => r matches Ok(ret) && ret == u,
            None => r matches Err(e) && e is NotFound,
        },
{
    match found {
        Some(u) => Ok(u),
        None => Err(ApiError::NotFound),
    }
}

} // verus!
