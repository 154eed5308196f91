//! The errors of the service.

use vstd::prelude::*;
use vstd::string::StringExecFns;

verus! {

/// Why a request failed.
#[derive(Debug)]
pub enum AppError {
    /// The backend failed; the text is for the log, not for the caller.
    Internal(String),
    /// No game has the id; the text names the id.
    NotFound(String),
    /// The request is malformed or out of range; the text says how.
    BadRequest(String),
    /// The caller does not own the game.
    Unauthorized,
}

pub type AppResult<T> = Result<T, AppError>;

impl AppError {
    /// The HTTP status that stands for the error.
    pub open spec fn spec_status_code(&self) -> u16 {
        match *self {
            AppError::Internal(_) => 500,
            AppError::NotFound(_) => 404,
            AppError::BadRequest(_) => 400,
            AppError::Unauthorized => 401,
        }
    }

    /// What the caller is told. The text of an internal error stays out
    /// of it: such an error is reported in general terms only.
    pub open spec fn spec_message(&self) -> Seq<char> {
        match *self {
            AppError::Internal(_) => "Internal Server Error"@,
            AppError::NotFound(text) => "Not Found: "@ + text@,
            AppError::BadRequest(text) => "Bad Request: "@ + text@,
            AppError::Unauthorized => "Unauthorized"@,
        }
    }

    pub fn message(&self) -> (text: String)
        ensures
            text@ == self.spec_message(),
    {
        match self {
            AppError::Internal(_) => "Internal Server Error".to_owned(),
            AppError::NotFound(text) => "Not Found: ".to_owned().concat(text.as_str()),
            AppError::BadRequest(text) => "Bad Request: ".to_owned().concat(text.as_str()),
            AppError::Unauthorized => "Unauthorized".to_owned(),
        }
    }

    #[verifier::when_used_as_spec(spec_status_code)]
    pub fn status_code(&self) -> (code: u16)
        ensures
            code == self.spec_status_code(),
    {
        match self {
            AppError::Internal(_) => 500,
            AppError::NotFound(_) => 404,
            AppError::BadRequest(_) => 400,
            AppError::Unauthorized => 401,
        }
    }
}

} // verus!
