//! Chess-match escrow and result oracle on Stellar, as verified state
//! machines over the contracts' storage.

pub mod escrow;
pub mod invocation;
pub mod oracle;
