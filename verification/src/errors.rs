use vstd::prelude::*;
use vstd::string::StringExecFns;

verus! {

/// The failures that the authentication flows surface to their callers.
#[derive(Debug, Clone, Copy, PartialEq, Eq, Structural)]
pub enum AuthAPIError {
    /// Malformed input: email, password or code of the wrong shape.
    InvalidCredentials,
    /// Signup for an email that is already registered.
    UserAlreadyExists,
    /// The password, attempt id or code did not match the stored one.
    IncorrectCredentials,
    /// An infrastructure failure: never a statement about the credentials.
    UnexpectedError,
    /// The presented session token did not validate.
    InvalidToken,
    /// No session token was presented at all.
    MissingToken,
}

impl AuthAPIError {
    /// The HTTP-style status that a transport layer should answer with.
    pub open spec fn spec_status_code(self) -> u16 {
        match self {
            AuthAPIError::InvalidCredentials => 400u16,
            AuthAPIError::UserAlreadyExists => 409u16,
            AuthAPIError::IncorrectCredentials => 401u16,
            AuthAPIError::UnexpectedError => 500u16,
            AuthAPIError::InvalidToken => 401u16,
            AuthAPIError::MissingToken => 400u16,
        }
    }

    /// The message that goes into the error body answered to the caller.
    pub open spec fn spec_message(self) -> Seq<char> {
        match self {
            AuthAPIError::InvalidCredentials => "Invalid Credentials"@,
            AuthAPIError::UserAlreadyExists => "User already exists"@,
            AuthAPIError::IncorrectCredentials => "IncorrectCredentials"@,
            AuthAPIError::UnexpectedError => "Unexpected error"@,
            AuthAPIError::InvalidToken => "InvalidToken"@,
            AuthAPIError::MissingToken => "MissingToken"@,
        }
    }

    pub fn status_code(&self) -> (r: u16)
        ensures
            r == self.spec_status_code(),
    {
        match *self {
            AuthAPIError::InvalidCredentials => 400,
            AuthAPIError::UserAlreadyExists => 409,
            AuthAPIError::IncorrectCredentials => 401,
            AuthAPIError::UnexpectedError => 500,
            AuthAPIError::InvalidToken => 401,
            AuthAPIError::MissingToken => 400,
        }
    }

    pub fn message(&self) -> (r: String)
        ensures
            r@ == self.spec_message(),
    {
        match *self {
            AuthAPIError::InvalidCredentials => String::from_str("Invalid Credentials"),
            AuthAPIError::UserAlreadyExists => String::from_str("User already exists"),
            AuthAPIError::IncorrectCredentials => String::from_str("IncorrectCredentials"),
            AuthAPIError::UnexpectedError => String::from_str("Unexpected error"),
            AuthAPIError::InvalidToken => String::from_str("InvalidToken"),
            AuthAPIError::MissingToken => String::from_str("MissingToken"),
        }
    }
}

/// The error body answered to the caller, paired with the status code.
pub struct ErrorResponse {
    pub error: String,
}

impl ErrorResponse {
    /// Wraps the message of the given error.
    pub fn of(e: &AuthAPIError) -> (r: ErrorResponse)
        ensures
            r.error@ == e.spec_message(),
    {
        ErrorResponse { error: e.message() }
    }
}

} // verus!
