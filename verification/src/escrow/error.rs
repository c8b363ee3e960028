use vstd::prelude::*;

verus! {

/// The errors that the escrow contract returns.
#[derive(Clone, Copy, Debug, PartialEq, Eq, Structural)]
pub enum Error {
    MatchNotFound,
    AlreadyFunded,
    NotFunded,
    Unauthorized,
    InvalidState,
    AlreadyExists,
    AlreadyInitialized,
    Overflow,
    ContractPaused,
    InvalidAmount,
    InvalidGameId,
    /// player1 and player2 are the same address
    InvalidPlayers,
    /// the oracle named a game other than the one the match was created for
    GameIdMismatch,
    /// the game id is already taken by another match
    DuplicateGameId,
}

/// The contract error code of each escrow error.
pub open spec fn error_code(e: Error) -> u32 {
    match e {
        Error::MatchNotFound => 1,
        Error::AlreadyFunded => 2,
        Error::NotFunded => 3,
        Error::Unauthorized => 4,
        Error::InvalidState => 5,
        Error::AlreadyExists => 6,
        Error::AlreadyInitialized => 7,
        Error::Overflow => 8,
        Error::ContractPaused => 9,
        Error::InvalidAmount => 10,
        Error::InvalidGameId => 11,
        Error::InvalidPlayers => 12,
        Error::GameIdMismatch => 13,
        Error::DuplicateGameId => 14,
    }
}

impl Error {
    /// The number under which the host reports this error.
    pub fn code(&self) -> (r: u32)
        ensures
            r == error_code(*self),
    {
        match self {
            Error::MatchNotFound => 1,
            Error::AlreadyFunded => 2,
            Error::NotFunded => 3,
            Error::Unauthorized => 4,
            Error::InvalidState => 5,
            Error::AlreadyExists => 6,
            Error::AlreadyInitialized => 7,
            Error::Overflow => 8,
            Error::ContractPaused => 9,
            Error::InvalidAmount => 10,
            Error::InvalidGameId => 11,
            Error::InvalidPlayers => 12,
            Error::GameIdMismatch => 13,
            Error::DuplicateGameId => 14,
        }
    }
}

} // verus!
