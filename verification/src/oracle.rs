//! The oracle contract: verified results, keyed by match id.

pub mod contract;
pub mod error;
pub mod laws;
pub mod spec;
pub mod types;

pub use contract::OracleContract;
pub use spec::MATCH_TTL_LEDGERS;
pub use error::Error;
pub use types::{EntryKey, MatchResult, OracleEvent, ResultEntry, TtlExtension};
