//! The categories in which a request can fail.
use vstd::prelude::*;

verus! {

/// Why a request was turned down.
#[derive(Clone, Copy, Debug, PartialEq, Eq, Structural)]
pub enum UserError {
    /// The token is missing, malformed or belongs to nobody.
    Unauthorized,
    /// The token is valid but does not carry the administrator capability.
    Forbidden,
    /// The path parameter is not a user identifier.
    BadRequest,
    /// No record exists for the identifier.
    NotFound,
    /// The store failed; the cause is not shown to the caller.
    Internal,
}

/// Why the store turned an operation down.
#[derive(Clone, Copy, Debug, PartialEq, Eq, Structural)]
pub enum StoreError {
    /// The store holds as many records as it was made for.
    Full,
}

/// The HTTP status that stands for each category.
pub open spec fn status_of(e: UserError) -> u16 {
    match e {
        UserError::Unauthorized => 401,
        UserError::Forbidden => 403,
        UserError::BadRequest => 400,
        UserError::NotFound => 404,
        UserError::Internal => 500,
    }
}

impl UserError {
    /// The HTTP status of this category.
    pub fn status_code(&self) -> (code: u16)
        ensures
            code == status_of(*self),
    {
        match self {
            UserError::Unauthorized => 401,
            UserError::Forbidden => 403,
            UserError::BadRequest => 400,
            UserError::NotFound => 404,
            UserError::Internal => 500,
        }
    }

    /// What a failure of the store looks like from outside: always
    /// `Internal`, whatever the cause.
    pub fn from_store(e: StoreError) -> (r: UserError)
        ensures
            r == UserError::Internal,
    {
        match e {
            StoreError::Full => UserError::Internal,
        }
    }
}

} // verus!
