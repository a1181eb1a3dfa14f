//! Error taxonomy of the relay server and the client session manager.

use vstd::prelude::*;

verus! {

/// Server-side error taxonomy; each variant maps to one HTTP status.
#[derive(Debug)]
pub enum AppError {
    Unauthorized,
    InvalidCredentials,
    Forbidden,
    NotFound(String),
    UserAlreadyExists,
    BadRequest(String),
    RateLimited,
    FileTooLarge,
    Database(String),
    Io(String),
    Internal(String),
}

impl AppError {
    /// The HTTP status this error maps to.
    pub open spec fn http_status_spec(&self) -> u16 {
        match self {
            AppError::Unauthorized => 401,
            AppError::InvalidCredentials => 401,
            AppError::Forbidden => 403,
            AppError::NotFound(_) => 404,
            AppError::UserAlreadyExists => 409,
            AppError::BadRequest(_) => 400,
            AppError::RateLimited => 429,
            AppError::FileTooLarge => 413,
            AppError::Database(_) => 500,
            AppError::Io(_) => 500,
            AppError::Internal(_) => 500,
        }
    }

    pub fn http_status(&self) -> (s: u16)
        ensures
            s == self.http_status_spec(),
    {
        match self {
            AppError::Unauthorized => 401,
            AppError::InvalidCredentials => 401,
            AppError::Forbidden => 403,
            AppError::NotFound(_) => 404,
            AppError::UserAlreadyExists => 409,
            AppError::BadRequest(_) => 400,
            AppError::RateLimited => 429,
            AppError::FileTooLarge => 413,
            AppError::Database(_) => 500,
            AppError::Io(_) => 500,
            AppError::Internal(_) => 500,
        }
    }

    /// The wire error code for this error.
    pub open spec fn code_spec(&self) -> Seq<char> {
        match self {
            AppError::Unauthorized => "UNAUTHORIZED"@,
            AppError::InvalidCredentials => "INVALID_CREDENTIALS"@,
            AppError::Forbidden => "FORBIDDEN"@,
            AppError::NotFound(_) => "NOT_FOUND"@,
            AppError::UserAlreadyExists => "USER_EXISTS"@,
            AppError::BadRequest(_) => "BAD_REQUEST"@,
            AppError::RateLimited => "RATE_LIMITED"@,
            AppError::FileTooLarge => "FILE_TOO_LARGE"@,
            AppError::Database(_) => "DATABASE_ERROR"@,
            AppError::Io(_) => "IO_ERROR"@,
            AppError::Internal(_) => "INTERNAL_ERROR"@,
        }
    }

    pub fn code(&self) -> (c: String)
        ensures
            c@ == self.code_spec(),
    {
        match self {
            AppError::Unauthorized => "UNAUTHORIZED".to_owned(),
            AppError::InvalidCredentials => "INVALID_CREDENTIALS".to_owned(),
            AppError::Forbidden => "FORBIDDEN".to_owned(),
            AppError::NotFound(_) => "NOT_FOUND".to_owned(),
            AppError::UserAlreadyExists => "USER_EXISTS".to_owned(),
            AppError::BadRequest(_) => "BAD_REQUEST".to_owned(),
            AppError::RateLimited => "RATE_LIMITED".to_owned(),
            AppError::FileTooLarge => "FILE_TOO_LARGE".to_owned(),
            AppError::Database(_) => "DATABASE_ERROR".to_owned(),
            AppError::Io(_) => "IO_ERROR".to_owned(),
            AppError::Internal(_) => "INTERNAL_ERROR".to_owned(),
        }
    }
}

/// Client-side failure kinds of the E2EE session manager.
#[derive(Clone, Copy, PartialEq, Eq, Structural, Debug)]
pub enum ClientError {
    NoIdentity,
    BadKeyLength,
    NoSession,
    EncryptFailed,
    DecryptFailed,
    InvalidUtf8,
    InvalidBase64,
}

} // verus!
