//! Request failures: the HTTP status and message a handler answers with, and
//! the database failures the handlers act on.
use vstd::prelude::*;

verus! {

/// The HTTP status of a refused or failed request.
#[derive(Clone, Copy, Debug, PartialEq, Eq, Structural)]
pub enum Status {
    BadRequest,
    Unauthorized,
    Forbidden,
    NotFound,
    Conflict,
    InternalServerError,
}

/// A request answered with an error status and a message body.
#[derive(Clone, Debug)]
pub struct ApiError {
    pub status: Status,
    pub message: String,
}

/// `r` is an error with the given status and message.
pub open spec fn fails_with<T>(r: Result<T, ApiError>, status: Status, message: Seq<char>) -> bool {
    r matches Err(e) && e.status == status && e.message@ == message
}

impl ApiError {
    /// An error with the given status and message text.
    pub fn new(status: Status, message: &str) -> (e: ApiError)
        ensures
            e.status == status,
            e.message@ == message@,
    {
        ApiError { status, message: String::from_str(message) }
    }

    /// A server error that carries the text of a database failure.
    pub fn from_db(failure: &DbFailure) -> (e: ApiError)
        ensures
            e.status == Status::InternalServerError,
            e.message@ == failure.message@,
    {
        ApiError { status: Status::InternalServerError, message: failure.message.clone() }
    }
}

/// A failed database operation: its display text and, where the failure is a
/// single-document write error, that write error's server code.
#[derive(Clone, Debug)]
pub struct DbFailure {
    pub write_error_code: Option<i32>,
    pub message: String,
}

/// The server code of a duplicate-key write error.
pub const DUPLICATE_KEY_CODE: i32 = 11000;

impl DbFailure {
    /// Whether the failure is a write rejected for a duplicate unique key.
    pub fn is_duplicate_key_error(&self) -> (dup: bool)
        ensures
            dup == (self.write_error_code == Some(DUPLICATE_KEY_CODE)),
    {
        match self.write_error_code {
            Some(code) => code == DUPLICATE_KEY_CODE,
            None => false,
        }
    }
}

} // verus!
