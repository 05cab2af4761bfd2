//! Application errors carry a stable machine code and a user-facing message.
use vstd::prelude::*;

verus! {

/// Result type of the library's fallible operations.
pub type AppResult<T> = Result<T, AppError>;

/// An error with a stable code (what callers and tests match on) and a message.
#[derive(Debug)]
pub struct AppError {
    pub code: String,
    pub message: String,
}

impl AppError {
    pub fn new(code: &str, message: &str) -> (r: AppError)
        ensures
            r.code@ == code@,
            r.message@ == message@,
    {
        AppError { code: code.to_string(), message: message.to_string() }
    }
}

} // verus!
