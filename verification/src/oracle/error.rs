use vstd::prelude::*;

verus! {

/// The errors that the oracle contract returns.
#[derive(Clone, Copy, Debug, PartialEq, Eq, Structural)]
pub enum Error {
    Unauthorized,
    AlreadySubmitted,
    ResultNotFound,
    AlreadyInitialized,
    /// the game id is longer than 64 bytes
    InvalidGameId,
}

/// The contract error code of each oracle error.
pub open spec fn error_code(e: Error) -> u32 {
    match e {
        Error::Unauthorized => 1,
        Error::AlreadySubmitted => 2,
        Error::ResultNotFound => 3,
        Error::AlreadyInitialized => 4,
        Error::InvalidGameId => 5,
    }
}

impl Error {
    /// The number under which the host reports this error.
    pub fn code(&self) -> (r: u32)
        ensures
            r == error_code(*self),
    {
        match self {
            Error::Unauthorized => 1,
            Error::AlreadySubmitted => 2,
            Error::ResultNotFound => 3,
            Error::AlreadyInitialized => 4,
            Error::InvalidGameId => 5,
        }
    }
}

} // verus!
