use vstd::prelude::*;

use crate::invocation::Address;

verus! {

/// The outcome of a game as the oracle records it.
#[derive(Clone, Copy, Debug, PartialEq, Eq, Structural)]
pub enum MatchResult {
    Player1Wins,
    Player2Wins,
    Draw,
}

/// A recorded result: the game it is for and how it ended.
#[derive(Clone, Debug)]
pub struct ResultEntry {
    /// The game's identifier on its platform, as bytes.
    pub game_id: Vec<u8>,
    pub result: MatchResult,
}

/// A recorded result as a mathematical value.
pub struct ResultRecord {
    pub game_id: Seq<u8>,
    pub result: MatchResult,
}

impl View for ResultEntry {
    type V = ResultRecord;

    open spec fn view(&self) -> ResultRecord {
        ResultRecord { game_id: self.game_id@, result: self.result }
    }
}

impl ResultEntry {
    /// A copy of this entry.
    pub fn duplicate(&self) -> (r: ResultEntry)
        ensures
            r@ == self@,
    {
        let game_id = self.game_id.clone();
        assert(game_id@ =~= self.game_id@);
        ResultEntry { game_id, result: self.result }
    }
}

/// A persistent storage entry of the oracle contract.
#[derive(Clone, Copy, Debug, PartialEq, Eq, Structural)]
pub enum EntryKey {
    /// The result recorded for a match.
    Result(u64),
}

/// A request to the host to extend an entry's time to live: to `extend_to`
/// ledgers, if it has fewer than `threshold` left.
#[derive(Clone, Copy, Debug, PartialEq, Eq, Structural)]
pub struct TtlExtension {
    pub key: EntryKey,
    pub threshold: u32,
    pub extend_to: u32,
}

/// An event that the oracle contract publishes.
#[derive(Clone, Copy, Debug, PartialEq, Eq, Structural)]
pub enum OracleEvent {
    /// ("oracle", "init")
    Initialized { admin: Address },
    /// ("oracle", "result")
    ResultSubmitted { match_id: u64, result: MatchResult },
    /// ("oracle", "adm_xfer")
    AdminTransferred { previous_admin: Address, new_admin: Address },
}

} // verus!
