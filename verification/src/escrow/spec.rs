//! The escrow contract as a state machine over mathematical values: what
//! each call returns and what it leaves behind. For a call `f`,
//! `f_result` is what it returns and `f_next` the state after it; a call
//! that returns an error leaves the state as it was.

use vstd::prelude::*;

use crate::escrow::error::Error;
use crate::escrow::types::{
    EntryKeyView, EscrowEvent, MatchState, MatchView, Platform, Transfer, TtlExtensionView, Winner,
};
use crate::invocation::{Address, Failure, Invocation};

verus! {

/// Maximum allowed byte length for a game id.
pub const MAX_GAME_ID_LEN: u32 = 64;

/// ~30 days at 5s/ledger: the time to live that every write of a match
/// record, and the claim of a game id, is extended to.
pub const MATCH_TTL_LEDGERS: u32 = 518_400;

/// The extension that a write of `key` asks for: to 30 days, if less is
/// left.
pub open spec fn ttl_extension(key: EntryKeyView) -> TtlExtensionView {
    TtlExtensionView { key, threshold: MATCH_TTL_LEDGERS, extend_to: MATCH_TTL_LEDGERS }
}

/// The escrow contract's storage, what it has published and transferred so
/// far, and the time-to-live extensions it has asked the host for.
pub struct EscrowView {
    pub oracle: Option<Address>,
    pub admin: Option<Address>,
    pub match_count: u64,
    pub paused: bool,
    pub matches: Map<u64, MatchView>,
    /// The game ids taken by matches, in the order the matches were made.
    pub game_ids: Seq<Seq<u8>>,
    pub events: Seq<EscrowEvent>,
    pub transfers: Seq<Transfer>,
    pub ttl_extensions: Seq<TtlExtensionView>,
}

pub open spec fn rejected<T>(e: Error) -> Result<T, Failure<Error>> {
    Err(Failure::Contract(e))
}

/// How many of the two players have deposited.
pub open spec fn deposit_count(m: MatchView) -> int {
    (if m.player1_deposited { 1int } else { 0int }) + (if m.player2_deposited { 1int } else { 0int })
}

/// Whether the match is settled or called off.
pub open spec fn is_closed(m: MatchView) -> bool {
    m.state == MatchState::Completed || m.state == MatchState::Cancelled
}

/// The tokens the escrow holds for a match: a stake for each player who
/// has deposited, until the match is closed.
pub open spec fn held(m: MatchView) -> int {
    if is_closed(m) {
        0
    } else {
        (if m.player1_deposited { m.stake_amount as int } else { 0 }) + (if m.player2_deposited {
            m.stake_amount as int
        } else {
            0
        })
    }
}

/// An i128 can hold twice the stake.
pub open spec fn pot_fits(m: MatchView) -> bool {
    i128::MIN <= 2 * m.stake_amount <= i128::MAX
}

// ---------------------------------------------------------------- initialize

pub open spec fn is_initialized(s: EscrowView) -> bool {
    s.oracle is Some
}

pub open spec fn initialize_next(s: EscrowView, oracle: Address, admin: Address) -> EscrowView {
    EscrowView { oracle: Some(oracle), admin: Some(admin), match_count: 0, paused: false, ..s }
}

// ------------------------------------------------------- admin-only calls

/// What a call that needs the admin's authorization returns.
pub open spec fn admin_call_result(s: EscrowView, inv: Invocation) -> Result<(), Failure<Error>> {
    match s.admin {
        None => rejected(Error::Unauthorized),
        Some(admin) => if inv.authorizes(admin) {
            Ok(())
        } else {
            Err(Failure::MissingAuth(admin))
        },
    }
}

pub open spec fn set_paused_next(s: EscrowView, inv: Invocation, paused: bool) -> EscrowView {
    if admin_call_result(s, inv) is Ok {
        EscrowView {
            paused,
            events: s.events.push(if paused { EscrowEvent::Paused } else { EscrowEvent::Unpaused }),
            ..s
        }
    } else {
        s
    }
}

pub open spec fn update_oracle_next(s: EscrowView, inv: Invocation, new_oracle: Address) -> EscrowView {
    if admin_call_result(s, inv) is Ok {
        EscrowView {
            oracle: Some(new_oracle),
            events: s.events.push(EscrowEvent::OracleUpdated { new_oracle }),
            ..s
        }
    } else {
        s
    }
}

// ------------------------------------------------------------ create_match

pub open spec fn create_match_result(
    s: EscrowView,
    inv: Invocation,
    player1: Address,
    player2: Address,
    stake_amount: i128,
    game_id: Seq<u8>,
) -> Result<u64, Failure<Error>> {
    if !inv.authorizes(player1) {
        Err(Failure::MissingAuth(player1))
    } else if s.paused {
        rejected(Error::ContractPaused)
    } else if stake_amount <= 0 {
        rejected(Error::InvalidAmount)
    } else if player1 == player2 {
        rejected(Error::InvalidPlayers)
    } else if game_id.len() > MAX_GAME_ID_LEN {
        rejected(Error::InvalidGameId)
    } else if s.game_ids.contains(game_id) {
        rejected(Error::DuplicateGameId)
    } else if s.matches.contains_key(s.match_count) {
        rejected(Error::AlreadyExists)
    } else if s.match_count == u64::MAX {
        rejected(Error::Overflow)
    } else {
        Ok(s.match_count)
    }
}

pub open spec fn new_match(
    id: u64,
    inv: Invocation,
    player1: Address,
    player2: Address,
    stake_amount: i128,
    token: Address,
    game_id: Seq<u8>,
    platform: Platform,
) -> MatchView {
    MatchView {
        id,
        player1,
        player2,
        stake_amount,
        token,
        game_id,
        platform,
        state: MatchState::Pending,
        player1_deposited: false,
        player2_deposited: false,
        created_ledger: inv.ledger_sequence,
    }
}

pub open spec fn create_match_next(
    s: EscrowView,
    inv: Invocation,
    player1: Address,
    player2: Address,
    stake_amount: i128,
    token: Address,
    game_id: Seq<u8>,
    platform: Platform,
) -> EscrowView {
    if create_match_result(s, inv, player1, player2, stake_amount, game_id) is Ok {
        let id = s.match_count;
        EscrowView {
            match_count: (id + 1) as u64,
            matches: s.matches.insert(
                id,
                new_match(id, inv, player1, player2, stake_amount, token, game_id, platform),
            ),
            game_ids: s.game_ids.push(game_id),
            events: s.events.push(
                EscrowEvent::MatchCreated { match_id: id, player1, player2, stake_amount },
            ),
            ttl_extensions: s.ttl_extensions.push(ttl_extension(EntryKeyView::Match(id))).push(
                ttl_extension(EntryKeyView::GameId(game_id)),
            ),
            ..s
        }
    } else {
        s
    }
}

// ----------------------------------------------------------------- deposit

pub open spec fn deposit_result(s: EscrowView, inv: Invocation, match_id: u64, player: Address) -> Result<
    (),
    Failure<Error>,
> {
    if !inv.authorizes(player) {
        Err(Failure::MissingAuth(player))
    } else if s.paused {
        rejected(Error::ContractPaused)
    } else if !s.matches.contains_key(match_id) {
        rejected(Error::MatchNotFound)
    } else {
        let m = s.matches[match_id];
        if m.state != MatchState::Pending {
            rejected(Error::InvalidState)
        } else if player != m.player1 && player != m.player2 {
            rejected(Error::Unauthorized)
        } else if (player == m.player1 && m.player1_deposited) || (player != m.player1
            && m.player2_deposited) {
            rejected(Error::AlreadyFunded)
        } else {
            Ok(())
        }
    }
}

/// The match after `player`'s deposit: marked as deposited, and active once
/// both players are.
pub open spec fn with_deposit(m: MatchView, player: Address) -> MatchView {
    let m1 = if player == m.player1 {
        MatchView { player1_deposited: true, ..m }
    } else {
        MatchView { player2_deposited: true, ..m }
    };
    if m1.player1_deposited && m1.player2_deposited {
        MatchView { state: MatchState::Active, ..m1 }
    } else {
        m1
    }
}

pub open spec fn deposit_next(s: EscrowView, inv: Invocation, match_id: u64, player: Address) -> EscrowView {
    if deposit_result(s, inv, match_id, player) is Ok {
        let m = s.matches[match_id];
        let m2 = with_deposit(m, player);
        let activation = if m2.state == MatchState::Active {
            seq![EscrowEvent::Activated { match_id }]
        } else {
            Seq::empty()
        };
        EscrowView {
            matches: s.matches.insert(match_id, m2),
            events: s.events + activation + seq![EscrowEvent::Deposited { match_id, player }],
            transfers: s.transfers.push(
                Transfer::Deposit { match_id, token: m.token, from: player, amount: m.stake_amount },
            ),
            ttl_extensions: s.ttl_extensions.push(ttl_extension(EntryKeyView::Match(match_id))),
            ..s
        }
    } else {
        s
    }
}

// ----------------------------------------------------------- submit_result

pub open spec fn submit_result_result(
    s: EscrowView,
    inv: Invocation,
    match_id: u64,
    game_id: Seq<u8>,
    caller: Address,
) -> Result<(), Failure<Error>> {
    if s.paused {
        rejected(Error::ContractPaused)
    } else if s.oracle != Some(caller) {
        rejected(Error::Unauthorized)
    } else if !inv.authorizes(caller) {
        Err(Failure::MissingAuth(caller))
    } else if !s.matches.contains_key(match_id) {
        rejected(Error::MatchNotFound)
    } else {
        let m = s.matches[match_id];
        if m.game_id != game_id {
            rejected(Error::GameIdMismatch)
        } else if m.state != MatchState::Active {
            rejected(Error::InvalidState)
        } else if !(m.player1_deposited && m.player2_deposited) {
            rejected(Error::NotFunded)
        } else {
            Ok(())
        }
    }
}

/// The transfers that settle a match for `winner`: the whole pot to the
/// winner, or each stake back to its player on a draw.
pub open spec fn payouts(match_id: u64, m: MatchView, winner: Winner) -> Seq<Transfer> {
    match winner {
        Winner::Player1 => seq![
            Transfer::Payout { match_id, token: m.token, to: m.player1, amount: (2 * m.stake_amount) as i128 },
        ],
        Winner::Player2 => seq![
            Transfer::Payout { match_id, token: m.token, to: m.player2, amount: (2 * m.stake_amount) as i128 },
        ],
        Winner::Draw => seq![
            Transfer::Payout { match_id, token: m.token, to: m.player1, amount: m.stake_amount },
            Transfer::Payout { match_id, token: m.token, to: m.player2, amount: m.stake_amount },
        ],
    }
}

pub open spec fn submit_result_next(
    s: EscrowView,
    inv: Invocation,
    match_id: u64,
    game_id: Seq<u8>,
    winner: Winner,
    caller: Address,
) -> EscrowView {
    if submit_result_result(s, inv, match_id, game_id, caller) is Ok {
        let m = s.matches[match_id];
        EscrowView {
            matches: s.matches.insert(match_id, MatchView { state: MatchState::Completed, ..m }),
            events: s.events.push(EscrowEvent::Completed { match_id, winner }),
            transfers: s.transfers + payouts(match_id, m, winner),
            ttl_extensions: s.ttl_extensions.push(ttl_extension(EntryKeyView::Match(match_id))),
            ..s
        }
    } else {
        s
    }
}

// ------------------------------------------------------------ cancel_match

pub open spec fn cancel_match_result(s: EscrowView, inv: Invocation, match_id: u64, caller: Address) -> Result<
    (),
    Failure<Error>,
> {
    if !s.matches.contains_key(match_id) {
        rejected(Error::MatchNotFound)
    } else {
        let m = s.matches[match_id];
        if m.state != MatchState::Pending {
            rejected(Error::InvalidState)
        } else if caller != m.player1 && caller != m.player2 {
            rejected(Error::Unauthorized)
        } else if !inv.authorizes(caller) {
            Err(Failure::MissingAuth(caller))
        } else {
            Ok(())
        }
    }
}

/// The transfers that give each depositor of a called-off match its stake back.
pub open spec fn refunds(match_id: u64, m: MatchView) -> Seq<Transfer> {
    (if m.player1_deposited {
        seq![Transfer::Payout { match_id, token: m.token, to: m.player1, amount: m.stake_amount }]
    } else {
        Seq::empty()
    }) + (if m.player2_deposited {
        seq![Transfer::Payout { match_id, token: m.token, to: m.player2, amount: m.stake_amount }]
    } else {
        Seq::empty()
    })
}

pub open spec fn cancel_match_next(s: EscrowView, inv: Invocation, match_id: u64, caller: Address) -> EscrowView {
    if cancel_match_result(s, inv, match_id, caller) is Ok {
        let m = s.matches[match_id];
        EscrowView {
            matches: s.matches.insert(match_id, MatchView { state: MatchState::Cancelled, ..m }),
            events: s.events.push(EscrowEvent::Cancelled { match_id }),
            transfers: s.transfers + refunds(match_id, m),
            ttl_extensions: s.ttl_extensions.push(ttl_extension(EntryKeyView::Match(match_id))),
            ..s
        }
    } else {
        s
    }
}

// ----------------------------------------------------------------- queries

pub open spec fn get_match_result(s: EscrowView, match_id: u64) -> Result<MatchView, Error> {
    if s.matches.contains_key(match_id) {
        Ok(s.matches[match_id])
    } else {
        Err(Error::MatchNotFound)
    }
}

pub open spec fn is_funded_result(s: EscrowView, match_id: u64) -> Result<bool, Error> {
    if s.matches.contains_key(match_id) {
        Ok(s.matches[match_id].player1_deposited && s.matches[match_id].player2_deposited)
    } else {
        Err(Error::MatchNotFound)
    }
}

/// `get_escrow_balance` overflows i128 on this match.
pub open spec fn balance_overflows(s: EscrowView, match_id: u64) -> bool {
    &&& s.matches.contains_key(match_id)
    &&& !is_closed(s.matches[match_id])
    &&& deposit_count(s.matches[match_id]) == 2
    &&& !pot_fits(s.matches[match_id])
}

pub open spec fn escrow_balance_result(s: EscrowView, match_id: u64) -> Result<i128, Error> {
    if s.matches.contains_key(match_id) {
        Ok(held(s.matches[match_id]) as i128)
    } else {
        Err(Error::MatchNotFound)
    }
}

/// `submit_result` would pay a whole pot that overflows i128.
pub open spec fn settlement_overflows(
    s: EscrowView,
    inv: Invocation,
    match_id: u64,
    game_id: Seq<u8>,
    winner: Winner,
    caller: Address,
) -> bool {
    &&& submit_result_result(s, inv, match_id, game_id, caller) is Ok
    &&& winner != Winner::Draw
    &&& !pot_fits(s.matches[match_id])
}

// ------------------------------------------------------------- any call

/// The state of a contract that has just been deployed.
pub open spec fn deployed() -> EscrowView {
    EscrowView {
        oracle: None,
        admin: None,
        match_count: 0,
        paused: false,
        matches: Map::empty(),
        game_ids: Seq::empty(),
        events: Seq::empty(),
        transfers: Seq::empty(),
        ttl_extensions: Seq::empty(),
    }
}

/// A call of one of the contract's state-changing functions.
pub enum EscrowCall {
    Initialize { oracle: Address, admin: Address },
    Pause,
    Unpause,
    UpdateOracle { new_oracle: Address },
    CreateMatch {
        player1: Address,
        player2: Address,
        stake_amount: i128,
        token: Address,
        game_id: Seq<u8>,
        platform: Platform,
    },
    Deposit { match_id: u64, player: Address },
    SubmitResult { match_id: u64, game_id: Seq<u8>, winner: Winner, caller: Address },
    CancelMatch { match_id: u64, caller: Address },
}

/// Whether the call's function accepts it: `initialize` runs once, and a
/// settlement must not overflow i128.
pub open spec fn call_allowed(s: EscrowView, inv: Invocation, call: EscrowCall) -> bool {
    match call {
        EscrowCall::Initialize { .. } => !is_initialized(s),
        EscrowCall::SubmitResult { match_id, game_id, winner, caller } => !settlement_overflows(
            s,
            inv,
            match_id,
            game_id,
            winner,
            caller,
        ),
        _ => true,
    }
}

/// What the call returns, with a new match's id left out.
pub open spec fn call_result(s: EscrowView, inv: Invocation, call: EscrowCall) -> Result<(), Failure<Error>> {
    match call {
        EscrowCall::Initialize { .. } => Ok(()),
        EscrowCall::Pause => admin_call_result(s, inv),
        EscrowCall::Unpause => admin_call_result(s, inv),
        EscrowCall::UpdateOracle { .. } => admin_call_result(s, inv),
        EscrowCall::CreateMatch { player1, player2, stake_amount, game_id, .. } => match create_match_result(
            s,
            inv,
            player1,
            player2,
            stake_amount,
            game_id,
        ) {
            Ok(_) => Ok(()),
            Err(e) => Err(e),
        },
        EscrowCall::Deposit { match_id, player } => deposit_result(s, inv, match_id, player),
        EscrowCall::SubmitResult { match_id, game_id, caller, .. } => submit_result_result(
            s,
            inv,
            match_id,
            game_id,
            caller,
        ),
        EscrowCall::CancelMatch { match_id, caller } => cancel_match_result(s, inv, match_id, caller),
    }
}

/// The state after the call.
pub open spec fn step(s: EscrowView, inv: Invocation, call: EscrowCall) -> EscrowView {
    match call {
        EscrowCall::Initialize { oracle, admin } => initialize_next(s, oracle, admin),
        EscrowCall::Pause => set_paused_next(s, inv, true),
        EscrowCall::Unpause => set_paused_next(s, inv, false),
        EscrowCall::UpdateOracle { new_oracle } => update_oracle_next(s, inv, new_oracle),
        EscrowCall::CreateMatch { player1, player2, stake_amount, token, game_id, platform } =>
            create_match_next(s, inv, player1, player2, stake_amount, token, game_id, platform),
        EscrowCall::Deposit { match_id, player } => deposit_next(s, inv, match_id, player),
        EscrowCall::SubmitResult { match_id, game_id, winner, caller } => submit_result_next(
            s,
            inv,
            match_id,
            game_id,
            winner,
            caller,
        ),
        EscrowCall::CancelMatch { match_id, caller } => cancel_match_next(s, inv, match_id, caller),
    }
}

/// The match the call moves tokens for, if any.
pub open spec fn call_target(call: EscrowCall) -> Option<u64> {
    match call {
        EscrowCall::Deposit { match_id, .. } => Some(match_id),
        EscrowCall::SubmitResult { match_id, .. } => Some(match_id),
        EscrowCall::CancelMatch { match_id, .. } => Some(match_id),
        _ => None,
    }
}

/// What the escrow holds for match `id` (nothing for an unknown id).
pub open spec fn held_at(s: EscrowView, id: u64) -> int {
    if s.matches.contains_key(id) {
        held(s.matches[id])
    } else {
        0
    }
}

/// What a transfer adds to the escrow's holdings.
pub open spec fn inflow(t: Transfer) -> int {
    match t {
        Transfer::Deposit { amount, .. } => amount as int,
        Transfer::Payout { amount, .. } => -(amount as int),
    }
}

/// What a run of transfers adds to the escrow's holdings.
pub open spec fn net_inflow(ts: Seq<Transfer>) -> int
    decreases ts.len(),
{
    if ts.len() == 0 {
        0
    } else {
        net_inflow(ts.drop_last()) + inflow(ts.last())
    }
}

/// The facts that hold of every match record the contract keeps.
pub open spec fn match_well_formed(m: MatchView, id: u64) -> bool {
    &&& m.id == id
    &&& m.stake_amount > 0
    &&& m.player1 != m.player2
    &&& m.game_id.len() <= MAX_GAME_ID_LEN
    &&& (m.state == MatchState::Active || m.state == MatchState::Completed) == (m.player1_deposited
        && m.player2_deposited)
}

/// The facts that hold of the contract's state after any run of calls.
pub open spec fn well_formed(s: EscrowView) -> bool {
    &&& (s.oracle is Some) == (s.admin is Some)
    &&& forall|id: u64| #[trigger] s.matches.contains_key(id) ==> match_well_formed(s.matches[id], id)
    &&& forall|id: u64| #[trigger] s.matches.contains_key(id) ==> s.game_ids.contains(s.matches[id].game_id)
    &&& forall|a: u64, b: u64|
        #![trigger s.matches[a], s.matches[b]]
        s.matches.contains_key(a) && s.matches.contains_key(b) && a != b ==> s.matches[a].game_id
            != s.matches[b].game_id
}

/// The lifecycle: a match moves from Pending to Active or Cancelled, and
/// from Active to Completed, and nowhere else.
pub open spec fn may_become(a: MatchState, b: MatchState) -> bool {
    ||| a == b
    ||| a == MatchState::Pending && b == MatchState::Active
    ||| a == MatchState::Pending && b == MatchState::Cancelled
    ||| a == MatchState::Active && b == MatchState::Completed
}

/// `b` is `a` after zero or more lifecycle steps and deposits: its terms
/// are unchanged and no deposit is undone.
pub open spec fn evolves_to(a: MatchView, b: MatchView) -> bool {
    &&& may_become(a.state, b.state)
    &&& b.id == a.id
    &&& b.player1 == a.player1
    &&& b.player2 == a.player2
    &&& b.stake_amount == a.stake_amount
    &&& b.token == a.token
    &&& b.game_id == a.game_id
    &&& b.platform == a.platform
    &&& b.created_ledger == a.created_ledger
    &&& a.player1_deposited ==> b.player1_deposited
    &&& a.player2_deposited ==> b.player2_deposited
}

/// The transfer moves `m`'s token between the escrow and one of `m`'s
/// players.
pub open spec fn moves_with_players(t: Transfer, m: MatchView) -> bool {
    match t {
        Transfer::Deposit { token, from, .. } => token == m.token && (from == m.player1 || from
            == m.player2),
        Transfer::Payout { token, to, .. } => token == m.token && (to == m.player1 || to == m.player2),
    }
}

/// The match a transfer is made for.
pub open spec fn transfer_match(t: Transfer) -> u64 {
    match t {
        Transfer::Deposit { match_id, .. } => match_id,
        Transfer::Payout { match_id, .. } => match_id,
    }
}

/// The net tokens that a run of transfers moved into the escrow for match
/// `id`.
pub open spec fn flow_of(ts: Seq<Transfer>, id: u64) -> int
    decreases ts.len(),
{
    if ts.len() == 0 {
        0
    } else {
        flow_of(ts.drop_last(), id) + if transfer_match(ts.last()) == id {
            inflow(ts.last())
        } else {
            0
        }
    }
}

/// For every match, the escrow holds exactly the net tokens moved in for it.
pub open spec fn funds_balanced(s: EscrowView) -> bool {
    forall|id: u64| #[trigger] flow_of(s.transfers, id) == held_at(s, id)
}

/// The state after a run of calls, each with its invocation.
pub open spec fn run(s: EscrowView, calls: Seq<(Invocation, EscrowCall)>) -> EscrowView
    decreases calls.len(),
{
    if calls.len() == 0 {
        s
    } else {
        step(run(s, calls.drop_last()), calls.last().0, calls.last().1)
    }
}

/// Every call of the run is accepted by its function in the state it meets.
pub open spec fn run_allowed(s: EscrowView, calls: Seq<(Invocation, EscrowCall)>) -> bool
    decreases calls.len(),
{
    calls.len() == 0 || (run_allowed(s, calls.drop_last()) && call_allowed(
        run(s, calls.drop_last()),
        calls.last().0,
        calls.last().1,
    ))
}

/// The persistent entries a successful call writes: a new match's record
/// and its claim of the game id, or the record of the match the call
/// concerns.
pub open spec fn written_entries(s: EscrowView, call: EscrowCall) -> Seq<EntryKeyView> {
    match call {
        EscrowCall::CreateMatch { game_id, .. } => seq![
            EntryKeyView::Match(s.match_count),
            EntryKeyView::GameId(game_id),
        ],
        EscrowCall::Deposit { match_id, .. } => seq![EntryKeyView::Match(match_id)],
        EscrowCall::SubmitResult { match_id, .. } => seq![EntryKeyView::Match(match_id)],
        EscrowCall::CancelMatch { match_id, .. } => seq![EntryKeyView::Match(match_id)],
        _ => Seq::empty(),
    }
}

} // verus!
