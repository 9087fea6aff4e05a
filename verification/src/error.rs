//! The domain error taxonomy shared by every service.

use vstd::prelude::*;

verus! {

/// Every failure a core operation can report.
///
/// Storage failures are wrapped as `DbError` by the adapters that talk to a
/// database; the in-memory repositories never produce them. `NotFound` and
/// `DbError` carry a human-readable message.
#[derive(Clone, Debug, PartialEq, Eq)]
pub enum AppError {
    EmailAlreadyExists,
    InvalidCredentials,
    NotFound(String),
    HashingError,
    InvalidToken,
    TokenExpired,
    Unauthenticated,
    DbError(String),
}

impl AppError {
    /// A short label for the error kind, used by the response envelope.
    pub fn kind_label(&self) -> (r: &'static str)
        ensures
            r@ == self.spec_kind_label(),
    {
        match self {
            AppError::EmailAlreadyExists => "email already exists",
            AppError::InvalidCredentials => "invalid credentials",
            AppError::NotFound(_) => "not found",
            AppError::HashingError => "hashing error",
            AppError::InvalidToken => "invalid token",
            AppError::TokenExpired => "token expired",
            AppError::Unauthenticated => "unauthenticated",
            AppError::DbError(_) => "database error",
        }
    }

    pub open spec fn spec_kind_label(&self) -> Seq<char> {
        match self {
            AppError::EmailAlreadyExists => "email already exists"@,
            AppError::InvalidCredentials => "invalid credentials"@,
            AppError::NotFound(_) => "not found"@,
            AppError::HashingError => "hashing error"@,
            AppError::InvalidToken => "invalid token"@,
            AppError::TokenExpired => "token expired"@,
            AppError::Unauthenticated => "unauthenticated"@,
            AppError::DbError(_) => "database error"@,
        }
    }
}

} // verus!
