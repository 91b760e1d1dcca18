//! The errors that a request can be answered with.
use vstd::prelude::*;

verus! {

/// Why a request is refused.
#[derive(Debug, PartialEq, Eq)]
pub enum EmulatorError {
    /// Something failed that is not the caller's doing.
    Internal(String),
    InvalidCredentials,
    InvalidToken,
    TenantNotFound,
    TokenExpired,
    Unauthorized,
    UserAlreadyExists,
    UserDisabled,
    UserNotFound,
    /// A refusal of another part of the emulator, by its text, handed on as it is.
    Other(String),
}

impl Clone for EmulatorError {
    fn clone(&self) -> (r: Self)
        ensures
            r == *self,
    {
        match self {
            EmulatorError::Internal(message) => EmulatorError::Internal(message.clone()),
            EmulatorError::InvalidCredentials => EmulatorError::InvalidCredentials,
            EmulatorError::InvalidToken => EmulatorError::InvalidToken,
            EmulatorError::TenantNotFound => EmulatorError::TenantNotFound,
            EmulatorError::TokenExpired => EmulatorError::TokenExpired,
            EmulatorError::Unauthorized => EmulatorError::Unauthorized,
            EmulatorError::UserAlreadyExists => EmulatorError::UserAlreadyExists,
            EmulatorError::UserDisabled => EmulatorError::UserDisabled,
            EmulatorError::UserNotFound => EmulatorError::UserNotFound,
            EmulatorError::Other(message) => EmulatorError::Other(message.clone()),
        }
    }
}

} // verus!
