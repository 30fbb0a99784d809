//! The failures that the library reports, and how each shows to a client.

use vstd::prelude::*;
use vstd::string::StringExecFns;

verus! {

/// A failure of one of the library's operations.
///
/// Several causes share one kind on purpose: a client must not learn
/// whether a token was malformed or unknown, nor whether an email or a
/// password was wrong.
#[derive(Debug, Clone, Copy, PartialEq, Eq, Structural)]
pub enum ApiError {
    /// The token cannot be decoded, is unknown, or was issued for another email.
    InvalidToken,
    /// The token is the right one, but its time has passed.
    TokenExpired,
    /// Unknown email or wrong password.
    InvalidCredentials,
    /// The session carries no identity.
    Unauthorized,
    /// No record has the key that was asked for.
    NotFound,
    /// A record with the same unique key exists already.
    Conflict,
    /// Hashing or another inner service failed.
    Internal,
}

impl ApiError {
    /// The HTTP status that stands for this failure.
    pub open spec fn status(self) -> int {
        match self {
            ApiError::InvalidToken => 403,
            ApiError::TokenExpired => 403,
            ApiError::InvalidCredentials => 401,
            ApiError::Unauthorized => 401,
            ApiError::NotFound => 404,
            ApiError::Conflict => 409,
            ApiError::Internal => 500,
        }
    }

    /// The text that a client is shown.
    pub open spec fn text(self) -> Seq<char> {
        match self {
            ApiError::InvalidToken => "Invalid token"@,
            ApiError::TokenExpired => "Token expired"@,
            ApiError::InvalidCredentials => "Credentials not valid!"@,
            ApiError::Unauthorized => "Unauthorized"@,
            ApiError::NotFound => "Not found"@,
            ApiError::Conflict => "Already exists"@,
            ApiError::Internal => "Internal server error"@,
        }
    }

    /// The HTTP status that stands for this failure.
    pub fn status_code(&self) -> (code: u16)
        ensures
            code == self.status(),
    {
        match self {
            ApiError::InvalidToken => 403,
            ApiError::TokenExpired => 403,
            ApiError::InvalidCredentials => 401,
            ApiError::Unauthorized => 401,
            ApiError::NotFound => 404,
            ApiError::Conflict => 409,
            ApiError::Internal => 500,
        }
    }

    /// The text that a client is shown.
    pub fn message(&self) -> (text: String)
        ensures
            text@ == self.text(),
    {
        match self {
            ApiError::InvalidToken => String::from_str("Invalid token"),
            ApiError::TokenExpired => String::from_str("Token expired"),
            ApiError::InvalidCredentials => String::from_str("Credentials not valid!"),
            ApiError::Unauthorized => String::from_str("Unauthorized"),
            ApiError::NotFound => String::from_str("Not found"),
            ApiError::Conflict => String::from_str("Already exists"),
            ApiError::Internal => String::from_str("Internal server error"),
        }
    }
}

} // verus!
