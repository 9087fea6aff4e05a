//! The uniform response envelope: every payload is wrapped with a status
//! discriminator and a human-readable message, so each endpoint has a
//! predictable shape. The discriminator is consistent with the outcome:
//! `success` only ever wraps a non-error result; errors carry `fail` for
//! conditions the caller can mend and `error` for internal failures.

use vstd::prelude::*;
use crate::error::AppError;

verus! {

#[derive(Debug)]
pub struct ApiResponse<T> {
    pub status: String,
    pub message: String,
    pub data: T,
}

impl<T> ApiResponse<T> {
    /// The success envelope around a non-error payload.
    pub fn success(message: &str, data: T) -> (r: Self)
        ensures
            r.status@ == "success"@,
            r.message@ == message@,
            r.data == data,
    {
        ApiResponse { status: "success".to_owned(), message: message.to_owned(), data }
    }
}

#[derive(Debug)]
pub struct ErrorResponse {
    pub status: String,
    pub message: String,
}

/// `fail` for conditions the caller can mend (absence, bad credentials, a
/// bad or expired token, a duplicate email); `error` for internal failures.
pub open spec fn spec_error_status(e: AppError) -> Seq<char> {
    match e {
        AppError::HashingError => "error"@,
        AppError::DbError(_) => "error"@,
        _ => "fail"@,
    }
}

pub open spec fn spec_error_message(e: AppError) -> Seq<char> {
    match e {
        AppError::NotFound(m) => m@,
        AppError::DbError(m) => m@,
        _ => e.spec_kind_label(),
    }
}

impl ErrorResponse {
    /// The envelope an error is reported through at the boundary.
    pub fn of_error(e: &AppError) -> (r: ErrorResponse)
        ensures
            r.status@ == spec_error_status(*e),
            r.message@ == spec_error_message(*e),
    {
        let status = match e {
            AppError::HashingError => "error",
            AppError::DbError(_) => "error",
            _ => "fail",
        };
        let message = match e {
            AppError::NotFound(m) => m.clone(),
            AppError::DbError(m) => m.clone(),
            _ => e.kind_label().to_owned(),
        };
        ErrorResponse { status: status.to_owned(), message }
    }
}

} // verus!
