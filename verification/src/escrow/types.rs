use vstd::prelude::*;

use crate::invocation::Address;

verus! {

/// The chess platform on which a match is played.
#[derive(Clone, Copy, Debug, PartialEq, Eq, Structural)]
pub enum Platform {
    Lichess,
    ChessDotCom,
}

/// Where a match stands in its lifecycle.
#[derive(Clone, Copy, Debug, PartialEq, Eq, Structural)]
pub enum MatchState {
    /// Created, awaiting deposits.
    Pending,
    /// Both players deposited; the game is on.
    Active,
    /// The result is in and the pot is paid out.
    Completed,
    /// Called off before it became active; deposits refunded.
    Cancelled,
}

/// The outcome of a match as the oracle reports it.
#[derive(Clone, Copy, Debug, PartialEq, Eq, Structural)]
pub enum Winner {
    Player1,
    Player2,
    Draw,
}

/// A match record.
#[derive(Clone, Debug)]
pub struct Match {
    pub id: u64,
    pub player1: Address,
    pub player2: Address,
    /// What each player stakes, in the token's smallest unit.
    pub stake_amount: i128,
    pub token: Address,
    /// The game's identifier on its platform, as bytes.
    pub game_id: Vec<u8>,
    pub platform: Platform,
    pub state: MatchState,
    pub player1_deposited: bool,
    pub player2_deposited: bool,
    /// The ledger sequence at creation.
    pub created_ledger: u32,
}

/// A match record as a mathematical value.
pub struct MatchView {
    pub id: u64,
    pub player1: Address,
    pub player2: Address,
    pub stake_amount: i128,
    pub token: Address,
    pub game_id: Seq<u8>,
    pub platform: Platform,
    pub state: MatchState,
    pub player1_deposited: bool,
    pub player2_deposited: bool,
    pub created_ledger: u32,
}

impl View for Match {
    type V = MatchView;

    open spec fn view(&self) -> MatchView {
        MatchView {
            id: self.id,
            player1: self.player1,
            player2: self.player2,
            stake_amount: self.stake_amount,
            token: self.token,
            game_id: self.game_id@,
            platform: self.platform,
            state: self.state,
            player1_deposited: self.player1_deposited,
            player2_deposited: self.player2_deposited,
            created_ledger: self.created_ledger,
        }
    }
}

impl Match {
    /// A copy of this record.
    pub fn duplicate(&self) -> (r: Match)
        ensures
            r@ == self@,
    {
        let game_id = self.game_id.clone();
        assert(game_id@ =~= self.game_id@);
        Match {
            id: self.id,
            player1: self.player1,
            player2: self.player2,
            stake_amount: self.stake_amount,
            token: self.token,
            game_id,
            platform: self.platform,
            state: self.state,
            player1_deposited: self.player1_deposited,
            player2_deposited: self.player2_deposited,
            created_ledger: self.created_ledger,
        }
    }
}

/// Whether two byte strings are the same.
pub fn same_bytes(a: &Vec<u8>, b: &Vec<u8>) -> (r: bool)
    ensures
        r == (a@ == b@),
{
    let r = *a == *b;
    proof {
        if r {
            assert(a@ =~= b@);
        }
    }
    r
}

/// A persistent storage entry of the escrow contract.
#[derive(Clone, Debug, PartialEq, Eq)]
pub enum EntryKey {
    /// The record of a match.
    Match(u64),
    /// The claim of a game id by a match.
    GameId(Vec<u8>),
}

/// A persistent storage entry of the escrow contract, as a mathematical
/// value.
pub enum EntryKeyView {
    Match(u64),
    GameId(Seq<u8>),
}

impl View for EntryKey {
    type V = EntryKeyView;

    open spec fn view(&self) -> EntryKeyView {
        match self {
            EntryKey::Match(id) => EntryKeyView::Match(*id),
            EntryKey::GameId(g) => EntryKeyView::GameId(g@),
        }
    }
}

/// A request to the host to extend an entry's time to live: to `extend_to`
/// ledgers, if it has fewer than `threshold` left.
#[derive(Clone, Debug, PartialEq, Eq)]
pub struct TtlExtension {
    pub key: EntryKey,
    pub threshold: u32,
    pub extend_to: u32,
}

/// A time-to-live extension request as a mathematical value.
pub struct TtlExtensionView {
    pub key: EntryKeyView,
    pub threshold: u32,
    pub extend_to: u32,
}

impl View for TtlExtension {
    type V = TtlExtensionView;

    open spec fn view(&self) -> TtlExtensionView {
        TtlExtensionView { key: self.key@, threshold: self.threshold, extend_to: self.extend_to }
    }
}

/// An event that the escrow contract publishes.
#[derive(Clone, Copy, Debug, PartialEq, Eq, Structural)]
pub enum EscrowEvent {
    /// ("match", "created")
    MatchCreated { match_id: u64, player1: Address, player2: Address, stake_amount: i128 },
    /// ("match", "deposit")
    Deposited { match_id: u64, player: Address },
    /// ("match", "activated")
    Activated { match_id: u64 },
    /// ("match", "completed")
    Completed { match_id: u64, winner: Winner },
    /// ("match", "cancelled")
    Cancelled { match_id: u64 },
    /// ("admin", "paused")
    Paused,
    /// ("admin", "unpaused")
    Unpaused,
    /// ("admin", "oracle")
    OracleUpdated { new_oracle: Address },
}

/// A token transfer that the escrow contract makes for a match.
#[derive(Clone, Copy, Debug, PartialEq, Eq, Structural)]
pub enum Transfer {
    /// `amount` of `token` moves from `from` into the escrow.
    Deposit { match_id: u64, token: Address, from: Address, amount: i128 },
    /// `amount` of `token` moves from the escrow to `to`.
    Payout { match_id: u64, token: Address, to: Address, amount: i128 },
}

} // verus!
