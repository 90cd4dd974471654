//! Errors that the application's ports report to their callers.

use vstd::prelude::*;

verus! {

/// What went wrong in a use case, as its caller sees it.
#[derive(Debug, Clone, PartialEq, Eq)]
pub enum PortError {
    InvalidRequest(String),
    NotFound(String),
    Conflict(String),
    Unavailable(String),
}

pub type PortResult<T> = Result<T, PortError>;

/// The text an error is shown with: its message.
pub open spec fn port_error_text(e: PortError) -> Seq<char> {
    match e {
        PortError::InvalidRequest(m) => m@,
        PortError::NotFound(m) => m@,
        PortError::Conflict(m) => m@,
        PortError::Unavailable(m) => m@,
    }
}

impl PortError {
    /// The message carried by the error.
    pub fn message(&self) -> (r: &str)
        ensures
            r@ == port_error_text(*self),
    {
        match self {
            PortError::InvalidRequest(m) => m.as_str(),
            PortError::NotFound(m) => m.as_str(),
            PortError::Conflict(m) => m.as_str(),
            PortError::Unavailable(m) => m.as_str(),
        }
    }
}

/// Why an underlying could not be resolved by the symbol provider.
#[derive(Debug, Clone, PartialEq, Eq)]
pub enum UnderlyingResolutionError {
    NotFound(String),
    TemporarilyUnavailable(String),
    InvalidProviderResponse(String),
}

} // verus!
