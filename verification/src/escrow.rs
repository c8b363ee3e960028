//! The escrow contract: match lifecycle, deposits, payouts.

pub mod contract;
pub mod error;
pub mod spec;
pub mod types;

pub use contract::EscrowContract;
pub use spec::MATCH_TTL_LEDGERS;
pub use error::Error;
pub use types::{EntryKey, EscrowEvent, Match, MatchState, Platform, Transfer, TtlExtension, Winner};
pub mod laws;
