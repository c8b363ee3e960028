//! Properties of the escrow contract that span its calls.

use vstd::prelude::*;

use crate::escrow::error::Error;
use crate::escrow::spec::{
    EscrowCall, EscrowView, admin_call_result, balance_overflows, cancel_match_next, deposit_count,
    deposit_next, escrow_balance_result, get_match_result, initialize_next, is_funded_result,
    set_paused_next, submit_result_next, update_oracle_next, call_allowed, call_result, call_target, cancel_match_result,
    create_match_next, create_match_result, deployed, deposit_result, evolves_to,
    held, held_at,
    inflow, is_initialized, match_well_formed, moves_with_players, net_inflow, new_match, payouts,
    refunds, step, submit_result_result, well_formed, with_deposit, flow_of, funds_balanced, run,
    run_allowed, transfer_match, MATCH_TTL_LEDGERS, ttl_extension, written_entries,
};
use crate::escrow::types::{EntryKeyView, EscrowEvent, MatchState, MatchView, Platform, Transfer, Winner};
use crate::invocation::{Address, Failure, Invocation, ttl_after_extension};

verus! {

/// A newly deployed contract is well formed.
pub proof fn lemma_deployed_well_formed()
    ensures
        well_formed(deployed()),
{
}

/// Every call keeps the contract well formed: each match has its own id, a
/// positive stake, two distinct players, a game id of at most 64 bytes that
/// no other match has, and is active or completed exactly when both
/// players have deposited.
pub proof fn lemma_well_formed_preserved(s: EscrowView, inv: Invocation, call: EscrowCall)
    requires
        well_formed(s),
    ensures
        well_formed(step(s, inv, call)),
{
    let t = step(s, inv, call);
    match call {
        EscrowCall::CreateMatch { player1, player2, stake_amount, token, game_id, platform } => {
            if create_match_result(s, inv, player1, player2, stake_amount, game_id) is Ok {
                let id = s.match_count;
                assert(t.game_ids.contains(game_id)) by {
                    assert(t.game_ids[s.game_ids.len() as int] == game_id);
                }
                assert forall|k: u64| #[trigger] t.matches.contains_key(k) implies t.game_ids.contains(
                    t.matches[k].game_id,
                ) by {
                    if k != id {
                        let i = choose|i: int| 0 <= i < s.game_ids.len() && s.game_ids[i] == s.matches[k].game_id;
                        assert(t.game_ids[i] == s.game_ids[i]);
                    }
                }
                assert forall|a: u64, b: u64|
                    #![trigger t.matches[a], t.matches[b]]
                    t.matches.contains_key(a) && t.matches.contains_key(b) && a != b implies t.matches[a].game_id
                        != t.matches[b].game_id by {
                    if a == id {
                        assert(s.game_ids.contains(s.matches[b].game_id));
                    } else if b == id {
                        assert(s.game_ids.contains(s.matches[a].game_id));
                    } else {
                        assert(s.matches[a] == t.matches[a]);
                        assert(s.matches[b] == t.matches[b]);
                    }
                }
            }
        },
        EscrowCall::Deposit { match_id, player } => {
            if deposit_result(s, inv, match_id, player) is Ok {
                assert forall|a: u64, b: u64|
                    #![trigger t.matches[a], t.matches[b]]
                    t.matches.contains_key(a) && t.matches.contains_key(b) && a != b implies t.matches[a].game_id
                        != t.matches[b].game_id by {
                    assert(s.matches[a].game_id == t.matches[a].game_id);
                    assert(s.matches[b].game_id == t.matches[b].game_id);
                }
            }
        },
        EscrowCall::SubmitResult { match_id, game_id, winner, caller } => {
            if submit_result_result(s, inv, match_id, game_id, caller) is Ok {
                assert forall|a: u64, b: u64|
                    #![trigger t.matches[a], t.matches[b]]
                    t.matches.contains_key(a) && t.matches.contains_key(b) && a != b implies t.matches[a].game_id
                        != t.matches[b].game_id by {
                    assert(s.matches[a].game_id == t.matches[a].game_id);
                    assert(s.matches[b].game_id == t.matches[b].game_id);
                }
            }
        },
        EscrowCall::CancelMatch { match_id, caller } => {
            if cancel_match_result(s, inv, match_id, caller) is Ok {
                assert forall|a: u64, b: u64|
                    #![trigger t.matches[a], t.matches[b]]
                    t.matches.contains_key(a) && t.matches.contains_key(b) && a != b implies t.matches[a].game_id
                        != t.matches[b].game_id by {
                    assert(s.matches[a].game_id == t.matches[a].game_id);
                    assert(s.matches[b].game_id == t.matches[b].game_id);
                }
            }
        },
        _ => {},
    }
}

/// A call that the contract refuses changes nothing: no storage write, no
/// event, no transfer.
pub proof fn lemma_rejected_call_changes_nothing(s: EscrowView, inv: Invocation, call: EscrowCall)
    requires
        call_result(s, inv, call) is Err,
    ensures
        step(s, inv, call) == s,
{
}

/// Matches are never removed, their terms never change, deposits are never
/// undone, and their state only moves along the lifecycle Pending → Active
/// → Completed or Pending → Cancelled; a completed or cancelled match stays
/// so.
pub proof fn lemma_lifecycle(s: EscrowView, inv: Invocation, call: EscrowCall, id: u64)
    requires
        s.matches.contains_key(id),
    ensures
        step(s, inv, call).matches.contains_key(id),
        evolves_to(s.matches[id], step(s, inv, call).matches[id]),
{
    let t = step(s, inv, call);
    match call {
        EscrowCall::Deposit { match_id, player } => {
            if deposit_result(s, inv, match_id, player) is Ok && id == match_id {
                assert(t.matches[id] == with_deposit(s.matches[id], player));
            }
        },
        EscrowCall::SubmitResult { match_id, game_id, winner, caller } => {
            if submit_result_result(s, inv, match_id, game_id, caller) is Ok && id == match_id {
                assert(t.matches[id].state == MatchState::Completed);
            }
        },
        EscrowCall::CancelMatch { match_id, caller } => {
            if cancel_match_result(s, inv, match_id, caller) is Ok && id == match_id {
                assert(t.matches[id].state == MatchState::Cancelled);
            }
        },
        _ => {},
    }
}

/// The transfer log only grows.
pub proof fn lemma_transfers_append_only(s: EscrowView, inv: Invocation, call: EscrowCall)
    ensures
        s.transfers.len() <= step(s, inv, call).transfers.len(),
        step(s, inv, call).transfers.subrange(0, s.transfers.len() as int) == s.transfers,
{
    let t = step(s, inv, call);
    assert(t.transfers.subrange(0, s.transfers.len() as int) =~= s.transfers);
}

proof fn lemma_net_inflow_one(a: Transfer)
    ensures
        net_inflow(seq![a]) == inflow(a),
{
    assert(seq![a].drop_last() =~= Seq::<Transfer>::empty());
    assert(net_inflow(Seq::<Transfer>::empty()) == 0);
    assert(seq![a].last() == a);
}

proof fn lemma_net_inflow_two(a: Transfer, b: Transfer)
    ensures
        net_inflow(seq![a, b]) == inflow(a) + inflow(b),
{
    assert(seq![a, b].drop_last() =~= seq![a]);
    assert(seq![a, b].last() == b);
    lemma_net_inflow_one(a);
}

proof fn lemma_net_inflow_empty()
    ensures
        net_inflow(Seq::<Transfer>::empty()) == 0,
{
}

/// The tokens moved from `s` to `t` are accounted to the match `call`
/// concerns.
pub open spec fn funds_accounted(s: EscrowView, t: EscrowView, call: EscrowCall) -> bool {
    let moved = t.transfers.subrange(s.transfers.len() as int, t.transfers.len() as int);
    &&& call_target(call) is None ==> moved.len() == 0
    &&& forall|id: u64|
        #![trigger held_at(t, id)]
        t.matches.contains_key(id) ==> held_at(t, id) - held_at(s, id) == if call_target(call) == Some(
            id,
        ) {
            net_inflow(moved)
        } else {
            0
        }
}

/// Every token that a call moves is accounted to the match it concerns:
/// the escrow's holdings for that match change by exactly the net amount
/// transferred in the call, the holdings of every other match do not
/// change, and a call that concerns no match moves no tokens. So a settled
/// or cancelled match has paid out exactly what was deposited for it.
pub proof fn lemma_funds_accounted(s: EscrowView, inv: Invocation, call: EscrowCall)
    requires
        call_allowed(s, inv, call),
    ensures
        funds_accounted(s, step(s, inv, call), call),
{
    let t = step(s, inv, call);
    lemma_transfers_append_only(s, inv, call);
    let moved = t.transfers.subrange(s.transfers.len() as int, t.transfers.len() as int);
    match call {
        EscrowCall::Deposit { match_id, player } => {
            if deposit_result(s, inv, match_id, player) is Ok {
                let m = s.matches[match_id];
                assert(moved =~= seq![
                    Transfer::Deposit { match_id, token: m.token, from: player, amount: m.stake_amount },
                ]);
                lemma_net_inflow_one(moved[0]);
                let m2 = with_deposit(m, player);
                assert(held(m2) - held(m) == m.stake_amount);
                assert(net_inflow(moved) == m.stake_amount);
                assert(t.matches[match_id] == m2);
                assert(funds_accounted(s, t, call));
            } else {
                assert(t == s);
                assert(moved =~= Seq::<Transfer>::empty());
                lemma_net_inflow_empty();
                assert(funds_accounted(s, t, call));
            }
        },
        EscrowCall::SubmitResult { match_id, game_id, winner, caller } => {
            if submit_result_result(s, inv, match_id, game_id, caller) is Ok {
                let m = s.matches[match_id];
                assert(moved =~= payouts(match_id, m, winner));
                match winner {
                    Winner::Draw => lemma_net_inflow_two(moved[0], moved[1]),
                    _ => lemma_net_inflow_one(moved[0]),
                }
                assert(net_inflow(moved) == -held(m));
                assert(funds_accounted(s, t, call));
            } else {
                assert(t == s);
                assert(moved =~= Seq::<Transfer>::empty());
                lemma_net_inflow_empty();
                assert(funds_accounted(s, t, call));
            }
        },
        EscrowCall::CancelMatch { match_id, caller } => {
            if cancel_match_result(s, inv, match_id, caller) is Ok {
                let m = s.matches[match_id];
                assert(moved =~= refunds(match_id, m));
                if m.player1_deposited && m.player2_deposited {
                    assert(moved =~= seq![moved[0], moved[1]]);
                    lemma_net_inflow_two(moved[0], moved[1]);
                } else if m.player1_deposited {
                    assert(moved =~= seq![
                        Transfer::Payout { match_id, token: m.token, to: m.player1, amount: m.stake_amount },
                    ]);
                    lemma_net_inflow_one(moved[0]);
                } else if m.player2_deposited {
                    assert(moved =~= seq![
                        Transfer::Payout { match_id, token: m.token, to: m.player2, amount: m.stake_amount },
                    ]);
                    lemma_net_inflow_one(moved[0]);
                } else {
                    assert(moved =~= Seq::<Transfer>::empty());
                    lemma_net_inflow_empty();
                }
                assert(net_inflow(moved) == -held(m));
                assert(funds_accounted(s, t, call));
            } else {
                assert(t == s);
                assert(moved =~= Seq::<Transfer>::empty());
                lemma_net_inflow_empty();
                assert(funds_accounted(s, t, call));
            }
        },
        EscrowCall::CreateMatch { player1, player2, stake_amount, token, game_id, platform } => {
            assert(moved =~= Seq::<Transfer>::empty());
            if create_match_result(s, inv, player1, player2, stake_amount, game_id) is Ok {
                let id = s.match_count;
                assert(held(t.matches[id]) == 0);
                assert(held_at(s, id) == 0);
            }
            assert(funds_accounted(s, t, call));
        },
        _ => {
            assert(moved =~= Seq::<Transfer>::empty());
            assert(funds_accounted(s, t, call));
        },
    }
}

/// Only a party entitled to a call can make it take effect: the admin
/// (pause, unpause, oracle rotation), player1 (creating a match), a player
/// of the match (deposit, cancel), the registered oracle (settling), and
/// `initialize` only on a contract not yet initialized. Each of them must
/// have authorized the call.
pub proof fn lemma_only_entitled_parties_act(s: EscrowView, inv: Invocation, call: EscrowCall)
    requires
        call_allowed(s, inv, call),
        step(s, inv, call) != s,
    ensures
        match call {
            EscrowCall::Initialize { .. } => !is_initialized(s),
            EscrowCall::Pause | EscrowCall::Unpause | EscrowCall::UpdateOracle { .. } => s.admin is Some
                && inv.authorizes(s.admin.unwrap()),
            EscrowCall::CreateMatch { player1, .. } => inv.authorizes(player1),
            EscrowCall::Deposit { match_id, player } => inv.authorizes(player) && s.matches.contains_key(
                match_id,
            ) && (player == s.matches[match_id].player1 || player == s.matches[match_id].player2),
            EscrowCall::SubmitResult { caller, .. } => s.oracle == Some(caller) && inv.authorizes(
                caller,
            ),
            EscrowCall::CancelMatch { match_id, caller } => inv.authorizes(caller)
                && s.matches.contains_key(match_id) && (caller == s.matches[match_id].player1 || caller
                == s.matches[match_id].player2),
        },
{
}

/// While the contract is paused, no match is created, funded or settled;
/// cancelling a match goes on exactly as when it is not paused.
pub proof fn lemma_pause(s: EscrowView, inv: Invocation, call: EscrowCall)
    requires
        s.paused,
    ensures
        match call {
            EscrowCall::CreateMatch { .. } | EscrowCall::Deposit { .. } | EscrowCall::SubmitResult {
                ..
            } => call_result(s, inv, call) is Err,
            EscrowCall::CancelMatch { match_id, caller } => cancel_match_result(s, inv, match_id, caller)
                == cancel_match_result(EscrowView { paused: false, ..s }, inv, match_id, caller),
            _ => true,
        },
{
}

/// A match is settled at most once: once completed, no further result is
/// accepted for it.
pub proof fn lemma_settled_once(
    s: EscrowView,
    inv: Invocation,
    match_id: u64,
    game_id: Seq<u8>,
    caller: Address,
)
    requires
        s.matches.contains_key(match_id),
        s.matches[match_id].state == MatchState::Completed,
    ensures
        submit_result_result(s, inv, match_id, game_id, caller) is Err,
{
}

/// A settlement pays out the whole pot, twice the stake: all of it to the
/// winner, or each stake back to its player on a draw.
pub proof fn lemma_settlement_pays_pot(match_id: u64, m: MatchView, winner: Winner)
    requires
        m.player1_deposited && m.player2_deposited,
        m.state == MatchState::Active,
        i128::MIN <= 2 * m.stake_amount <= i128::MAX,
    ensures
        net_inflow(payouts(match_id, m, winner)) == -held(m),
        held(m) == 2 * m.stake_amount,
{
    let ps = payouts(match_id, m, winner);
    match winner {
        Winner::Draw => lemma_net_inflow_two(ps[0], ps[1]),
        _ => lemma_net_inflow_one(ps[0]),
    }
}

/// A new match never overwrites another: it takes the counter's value as
/// its id, the counter moves on by one, and the record starts pending with
/// no deposits, stamped with the call's ledger; no other match changes.
pub proof fn lemma_create_match_fresh(
    s: EscrowView,
    inv: Invocation,
    player1: Address,
    player2: Address,
    stake_amount: i128,
    token: Address,
    game_id: Seq<u8>,
    platform: Platform,
)
    requires
        create_match_result(s, inv, player1, player2, stake_amount, game_id) is Ok,
    ensures
        ({
            let id = s.match_count;
            let t = create_match_next(s, inv, player1, player2, stake_amount, token, game_id, platform);
            &&& create_match_result(s, inv, player1, player2, stake_amount, game_id) == Ok::<
                u64,
                Failure<Error>,
            >(id)
            &&& !s.matches.contains_key(id)
            &&& t.match_count == id + 1
            &&& t.matches[id] == new_match(id, inv, player1, player2, stake_amount, token, game_id, platform)
            &&& t.matches[id].id == id
            &&& t.matches[id].player1 == player1
            &&& t.matches[id].player2 == player2
            &&& t.matches[id].stake_amount == stake_amount
            &&& t.matches[id].token == token
            &&& t.matches[id].game_id == game_id
            &&& t.matches[id].platform == platform
            &&& !t.matches[id].player1_deposited
            &&& !t.matches[id].player2_deposited
            &&& get_match_result(t, id) == Ok::<MatchView, Error>(t.matches[id])
            &&& t.events == s.events.push(
                EscrowEvent::MatchCreated { match_id: id, player1, player2, stake_amount },
            )
            &&& t.transfers == s.transfers
            &&& t.matches[id].state == MatchState::Pending
            &&& held(t.matches[id]) == 0
            &&& t.matches[id].created_ledger == inv.ledger_sequence
            &&& forall|k: u64| k != id ==> t.matches.contains_key(k) == s.matches.contains_key(k)
                && t.matches[k] == s.matches[k]
        }),
{
}

/// The event log only grows: a call adds its events after those already
/// published.
pub proof fn lemma_events_append_only(s: EscrowView, inv: Invocation, call: EscrowCall)
    ensures
        s.events.len() <= step(s, inv, call).events.len(),
        step(s, inv, call).events.subrange(0, s.events.len() as int) == s.events,
{
    let t = step(s, inv, call);
    assert(t.events.subrange(0, s.events.len() as int) =~= s.events);
}

/// Tokens only ever move between the escrow and the players of the match a
/// call concerns, in that match's token: deposits come from its players,
/// and payouts and refunds go to its players. The admin and the oracle
/// never receive anything.
pub proof fn lemma_tokens_stay_with_players(s: EscrowView, inv: Invocation, call: EscrowCall)
    ensures
        ({
            let t = step(s, inv, call);
            forall|i: int|
                s.transfers.len() <= i < t.transfers.len() ==> {
                    &&& call_target(call) is Some
                    &&& s.matches.contains_key(call_target(call).unwrap())
                    &&& #[trigger] moves_with_players(t.transfers[i], s.matches[call_target(call).unwrap()])
                }
        }),
{
    let t = step(s, inv, call);
    lemma_transfers_append_only(s, inv, call);
    match call {
        EscrowCall::SubmitResult { match_id, game_id, winner, caller } => {
            if submit_result_result(s, inv, match_id, game_id, caller) is Ok {
                let m = s.matches[match_id];
                assert forall|i: int| s.transfers.len() <= i < t.transfers.len() implies #[trigger] moves_with_players(
                    t.transfers[i],
                    m,
                ) by {
                    assert(t.transfers[i] == payouts(match_id, m, winner)[i - s.transfers.len()]);
                }
            }
        },
        EscrowCall::CancelMatch { match_id, caller } => {
            if cancel_match_result(s, inv, match_id, caller) is Ok {
                let m = s.matches[match_id];
                assert forall|i: int| s.transfers.len() <= i < t.transfers.len() implies #[trigger] moves_with_players(
                    t.transfers[i],
                    m,
                ) by {
                    assert(t.transfers[i] == refunds(match_id, m)[i - s.transfers.len()]);
                }
            }
        },
        _ => {},
    }
}

/// A result is only accepted for the game the match was created for, while
/// the match is active and fully funded.
pub proof fn lemma_settlement_matches_game(
    s: EscrowView,
    inv: Invocation,
    match_id: u64,
    game_id: Seq<u8>,
    caller: Address,
)
    requires
        submit_result_result(s, inv, match_id, game_id, caller) is Ok,
    ensures
        s.matches.contains_key(match_id),
        s.matches[match_id].game_id == game_id,
        s.matches[match_id].state == MatchState::Active,
        s.matches[match_id].player1_deposited && s.matches[match_id].player2_deposited,
{
}

/// In a well-formed contract the escrow holds, for each match, nothing, one
/// stake or two stakes, and never more than the whole pot.
pub proof fn lemma_held_bounds(s: EscrowView, id: u64)
    requires
        well_formed(s),
        s.matches.contains_key(id),
    ensures
        held(s.matches[id]) == 0 || held(s.matches[id]) == s.matches[id].stake_amount || held(
            s.matches[id],
        ) == 2 * s.matches[id].stake_amount,
        0 <= held(s.matches[id]) <= 2 * s.matches[id].stake_amount,
{
    assert(match_well_formed(s.matches[id], id));
}

proof fn lemma_flow_of_concat(a: Seq<Transfer>, b: Seq<Transfer>, id: u64)
    ensures
        flow_of(a + b, id) == flow_of(a, id) + flow_of(b, id),
    decreases b.len(),
{
    if b.len() == 0 {
        assert(a + b =~= a);
    } else {
        assert((a + b).drop_last() =~= a + b.drop_last());
        assert((a + b).last() == b.last());
        lemma_flow_of_concat(a, b.drop_last(), id);
    }
}

/// For transfers all made for match `target`, the flow for `target` is
/// their net inflow and the flow for any other match is zero.
proof fn lemma_flow_of_single_match(ts: Seq<Transfer>, target: u64, id: u64)
    requires
        forall|i: int| 0 <= i < ts.len() ==> transfer_match(#[trigger] ts[i]) == target,
    ensures
        flow_of(ts, id) == if id == target {
            net_inflow(ts)
        } else {
            0
        },
    decreases ts.len(),
{
    if ts.len() > 0 {
        assert(transfer_match(ts[ts.len() - 1]) == target);
        let init = ts.drop_last();
        assert forall|i: int| 0 <= i < init.len() implies transfer_match(#[trigger] init[i]) == target by {
            assert(init[i] == ts[i]);
        }
        lemma_flow_of_single_match(init, target, id);
    }
}

/// The transfers a call makes are all made for the match it concerns.
proof fn lemma_moved_for_target(s: EscrowView, inv: Invocation, call: EscrowCall)
    ensures
        ({
            let t = step(s, inv, call);
            forall|i: int|
                s.transfers.len() <= i < t.transfers.len() ==> call_target(call) is Some
                    && transfer_match(#[trigger] t.transfers[i]) == call_target(call).unwrap()
        }),
{
    let t = step(s, inv, call);
    lemma_tokens_stay_with_players(s, inv, call);
    match call {
        EscrowCall::SubmitResult { match_id, game_id, winner, caller } => {
            if submit_result_result(s, inv, match_id, game_id, caller) is Ok {
                let m = s.matches[match_id];
                assert forall|i: int| s.transfers.len() <= i < t.transfers.len() implies transfer_match(
                    #[trigger] t.transfers[i],
                ) == match_id by {
                    assert(t.transfers[i] == payouts(match_id, m, winner)[i - s.transfers.len()]);
                }
            }
        },
        EscrowCall::CancelMatch { match_id, caller } => {
            if cancel_match_result(s, inv, match_id, caller) is Ok {
                let m = s.matches[match_id];
                assert forall|i: int| s.transfers.len() <= i < t.transfers.len() implies transfer_match(
                    #[trigger] t.transfers[i],
                ) == match_id by {
                    assert(t.transfers[i] == refunds(match_id, m)[i - s.transfers.len()]);
                }
            }
        },
        _ => {},
    }
}

/// Every call keeps the books balanced: if, for every match, the escrow
/// holds exactly the net tokens moved in for it, that stays so.
pub proof fn lemma_funds_balanced_preserved(s: EscrowView, inv: Invocation, call: EscrowCall)
    requires
        funds_balanced(s),
        call_allowed(s, inv, call),
    ensures
        funds_balanced(step(s, inv, call)),
{
    let t = step(s, inv, call);
    lemma_transfers_append_only(s, inv, call);
    lemma_funds_accounted(s, inv, call);
    lemma_moved_for_target(s, inv, call);
    let moved = t.transfers.subrange(s.transfers.len() as int, t.transfers.len() as int);
    assert(t.transfers =~= s.transfers + moved);
    assert forall|id: u64| #[trigger] flow_of(t.transfers, id) == held_at(t, id) by {
        lemma_flow_of_concat(s.transfers, moved, id);
        assert(flow_of(s.transfers, id) == held_at(s, id));
        if moved.len() > 0 {
            let target = call_target(call).unwrap();
            assert forall|i: int| 0 <= i < moved.len() implies transfer_match(#[trigger] moved[i])
                == target by {
                assert(moved[i] == t.transfers[s.transfers.len() + i]);
            }
            lemma_flow_of_single_match(moved, target, id);
        } else {
            assert(moved =~= Seq::<Transfer>::empty());
        }
        if !t.matches.contains_key(id) {
            if s.matches.contains_key(id) {
                lemma_lifecycle(s, inv, call, id);
            }
            lemma_tokens_stay_with_players(s, inv, call);
            if moved.len() > 0 {
                assert(moves_with_players(t.transfers[s.transfers.len() as int], s.matches[call_target(call).unwrap()]));
                lemma_lifecycle(s, inv, call, call_target(call).unwrap());
            }
        }
    }
}

/// From deployment on, through any run of calls that their functions
/// accept, the books balance: for every match, the net tokens moved into
/// the escrow for it are exactly what the escrow holds for it. A completed
/// or cancelled match holds nothing, so everything deposited for it has
/// been paid out, and nothing more.
pub proof fn lemma_run_funds_balanced(calls: Seq<(Invocation, EscrowCall)>)
    requires
        run_allowed(deployed(), calls),
    ensures
        funds_balanced(run(deployed(), calls)),
    decreases calls.len(),
{
    if calls.len() == 0 {
        assert forall|id: u64| #[trigger] flow_of(deployed().transfers, id) == held_at(deployed(), id) by {
        }
    } else {
        lemma_run_funds_balanced(calls.drop_last());
        lemma_funds_balanced_preserved(run(deployed(), calls.drop_last()), calls.last().0, calls.last().1);
    }
}

/// From deployment on, through any run of calls, the contract stays well
/// formed.
pub proof fn lemma_run_well_formed(calls: Seq<(Invocation, EscrowCall)>)
    ensures
        well_formed(run(deployed(), calls)),
    decreases calls.len(),
{
    if calls.len() > 0 {
        lemma_run_well_formed(calls.drop_last());
        lemma_well_formed_preserved(run(deployed(), calls.drop_last()), calls.last().0, calls.last().1);
    }
}

/// Every successful call asks the host to keep alive, for 30 days, each
/// persistent entry it writes, in the order it writes them: a new match's
/// record and its game-id claim (the claim only then), or the record of the
/// match it concerns. A refused call, and a call that writes no persistent
/// entry, asks for nothing.
pub proof fn lemma_written_entries_kept_alive(s: EscrowView, inv: Invocation, call: EscrowCall)
    ensures
        step(s, inv, call).ttl_extensions == s.ttl_extensions + if call_result(s, inv, call) is Ok {
            written_entries(s, call).map_values(|k: EntryKeyView| ttl_extension(k))
        } else {
            Seq::empty()
        },
{
    let t = step(s, inv, call);
    let asked = if call_result(s, inv, call) is Ok {
        written_entries(s, call).map_values(|k: EntryKeyView| ttl_extension(k))
    } else {
        Seq::empty()
    };
    assert(t.ttl_extensions =~= s.ttl_extensions + asked);
}

/// An entry whose time to live the contract asks the host to extend has at
/// least MATCH_TTL_LEDGERS ledgers left afterwards, whatever it had before,
/// and exactly that many if it had fewer.
pub proof fn lemma_extension_keeps_alive(key: EntryKeyView, ttl: int)
    ensures
        ttl_after_extension(ttl, ttl_extension(key).threshold, ttl_extension(key).extend_to)
            >= MATCH_TTL_LEDGERS,
        ttl < MATCH_TTL_LEDGERS ==> ttl_after_extension(
            ttl,
            ttl_extension(key).threshold,
            ttl_extension(key).extend_to,
        ) == MATCH_TTL_LEDGERS,
{
}

/// What a run of transfers pays out of the escrow to `who`.
pub open spec fn paid_to(ts: Seq<Transfer>, who: Address) -> int
    decreases ts.len(),
{
    if ts.len() == 0 {
        0
    } else {
        paid_to(ts.drop_last(), who) + match ts.last() {
            Transfer::Payout { to, amount, .. } => if to == who {
                amount as int
            } else {
                0
            },
            Transfer::Deposit { .. } => 0,
        }
    }
}

proof fn lemma_paid_to_one(a: Transfer, who: Address)
    ensures
        paid_to(seq![a], who) == paid_to(Seq::<Transfer>::empty(), who) + match a {
            Transfer::Payout { to, amount, .. } => if to == who {
                amount as int
            } else {
                0
            },
            Transfer::Deposit { .. } => 0,
        },
{
    assert(seq![a].drop_last() =~= Seq::<Transfer>::empty());
}

proof fn lemma_paid_to_two(a: Transfer, b: Transfer, who: Address)
    ensures
        paid_to(seq![a, b], who) == paid_to(seq![a], who) + match b {
            Transfer::Payout { to, amount, .. } => if to == who {
                amount as int
            } else {
                0
            },
            Transfer::Deposit { .. } => 0,
        },
{
    assert(seq![a, b].drop_last() =~= seq![a]);
}

/// Calling off a match gives each player who had deposited its own stake
/// back, and nothing to a player who had not: the new transfers are
/// payouts of the match's stake in its token, one to each depositor, and
/// the transfers made before are kept.
pub proof fn lemma_cancel_refunds_depositors(s: EscrowView, inv: Invocation, match_id: u64, caller: Address)
    requires
        well_formed(s),
        cancel_match_result(s, inv, match_id, caller) is Ok,
    ensures
        ({
            let m = s.matches[match_id];
            let t = cancel_match_next(s, inv, match_id, caller);
            let paid = t.transfers.subrange(s.transfers.len() as int, t.transfers.len() as int);
            &&& t.transfers.len() == s.transfers.len() + deposit_count(m)
            &&& t.transfers.subrange(0, s.transfers.len() as int) == s.transfers
            &&& paid_to(paid, m.player1) == if m.player1_deposited {
                m.stake_amount as int
            } else {
                0
            }
            &&& paid_to(paid, m.player2) == if m.player2_deposited {
                m.stake_amount as int
            } else {
                0
            }
            &&& forall|i: int|
                0 <= i < paid.len() ==> (#[trigger] paid[i] matches Transfer::Payout {
                    match_id: j,
                    token,
                    to,
                    amount,
                } && j == match_id && token == m.token && amount == m.stake_amount && (to == m.player1
                    || to == m.player2))
            &&& t.matches[match_id].state == MatchState::Cancelled
            &&& t.events == s.events.push(EscrowEvent::Cancelled { match_id })
        }),
{
    let m = s.matches[match_id];
    let t = cancel_match_next(s, inv, match_id, caller);
    let paid = t.transfers.subrange(s.transfers.len() as int, t.transfers.len() as int);
    assert(paid =~= refunds(match_id, m));
    assert(t.transfers.subrange(0, s.transfers.len() as int) =~= s.transfers);
    assert(match_well_formed(m, match_id));
    let p1 = Transfer::Payout { match_id, token: m.token, to: m.player1, amount: m.stake_amount };
    let p2 = Transfer::Payout { match_id, token: m.token, to: m.player2, amount: m.stake_amount };
    if m.player1_deposited && m.player2_deposited {
        assert(paid =~= seq![p1, p2]);
        lemma_paid_to_two(p1, p2, m.player1);
        lemma_paid_to_one(p1, m.player1);
        lemma_paid_to_two(p1, p2, m.player2);
        lemma_paid_to_one(p1, m.player2);
    } else if m.player1_deposited {
        assert(paid =~= seq![p1]);
        lemma_paid_to_one(p1, m.player1);
        lemma_paid_to_one(p1, m.player2);
    } else if m.player2_deposited {
        assert(paid =~= seq![p2]);
        lemma_paid_to_one(p2, m.player1);
        lemma_paid_to_one(p2, m.player2);
    } else {
        assert(paid =~= Seq::<Transfer>::empty());
    }
}

/// Who of the two players calls a match off makes no difference: either
/// player's accepted cancellation leaves the same state, refunds included.
pub proof fn lemma_cancel_same_for_either_player(
    s: EscrowView,
    inv: Invocation,
    match_id: u64,
    c1: Address,
    c2: Address,
)
    requires
        cancel_match_result(s, inv, match_id, c1) is Ok,
        cancel_match_result(s, inv, match_id, c2) is Ok,
    ensures
        cancel_match_next(s, inv, match_id, c1) == cancel_match_next(s, inv, match_id, c2),
{
}

/// A match is funded exactly when both of its players have deposited: one
/// deposit, by either player, is not enough.
pub proof fn lemma_funded_iff_both_deposited(s: EscrowView, match_id: u64)
    requires
        s.matches.contains_key(match_id),
    ensures
        is_funded_result(s, match_id) == Ok::<bool, Error>(deposit_count(s.matches[match_id]) == 2),
        deposit_count(s.matches[match_id]) == 1 ==> is_funded_result(s, match_id) == Ok::<bool, Error>(
            false,
        ),
        well_formed(s) ==> is_funded_result(s, match_id) == Ok::<bool, Error>(
            s.matches[match_id].state == MatchState::Active || s.matches[match_id].state
                == MatchState::Completed,
        ),
{
    if well_formed(s) {
        assert(match_well_formed(s.matches[match_id], match_id));
    }
}

/// A deposit into a match with no deposits leaves it unfunded; the deposit
/// that completes the pair funds it.
pub proof fn lemma_deposit_funds_on_second(s: EscrowView, inv: Invocation, match_id: u64, player: Address)
    requires
        deposit_result(s, inv, match_id, player) is Ok,
    ensures
        deposit_count(s.matches[match_id]) == 0 ==> is_funded_result(
            deposit_next(s, inv, match_id, player),
            match_id,
        ) == Ok::<bool, Error>(false),
        deposit_count(s.matches[match_id]) == 1 ==> is_funded_result(
            deposit_next(s, inv, match_id, player),
            match_id,
        ) == Ok::<bool, Error>(true),
{
}

/// An accepted pause leaves the contract paused, whether it was paused
/// before or not, and an accepted unpause leaves it running; neither
/// changes anything but the flag and the event log.
pub proof fn lemma_pause_sets_flag(s: EscrowView, inv: Invocation, paused: bool)
    requires
        admin_call_result(s, inv) is Ok,
    ensures
        ({
            let t = set_paused_next(s, inv, paused);
            &&& t.paused == paused
            &&& t.oracle == s.oracle
            &&& t.admin == s.admin
            &&& t.match_count == s.match_count
            &&& t.matches == s.matches
            &&& t.game_ids == s.game_ids
            &&& t.transfers == s.transfers
            &&& t.ttl_extensions == s.ttl_extensions
        }),
        step(step(s, inv, EscrowCall::Pause), inv, EscrowCall::Pause).paused,
        !step(step(s, inv, EscrowCall::Pause), inv, EscrowCall::Unpause).paused,
{
}

/// Rotating the oracle changes the oracle and nothing else: the admin keeps
/// its rights (every admin-only call is answered as before), and the
/// flag, the matches and the funds are as they were.
pub proof fn lemma_update_oracle_only_oracle(s: EscrowView, inv: Invocation, new_oracle: Address, next: Invocation)
    requires
        admin_call_result(s, inv) is Ok,
    ensures
        ({
            let t = update_oracle_next(s, inv, new_oracle);
            &&& t.oracle == Some(new_oracle)
            &&& t.admin == s.admin
            &&& admin_call_result(t, next) == admin_call_result(s, next)
            &&& t.paused == s.paused
            &&& t.match_count == s.match_count
            &&& t.matches == s.matches
            &&& t.game_ids == s.game_ids
            &&& t.transfers == s.transfers
            &&& t.ttl_extensions == s.ttl_extensions
        }),
{
}

/// A deposit moves the match's stake, in its token, from the depositing
/// player into the escrow; it marks that player, and only that player, as
/// deposited, keeps the match's terms, and activates the match once both
/// players are in. No other match changes.
pub proof fn lemma_deposit_records_player(s: EscrowView, inv: Invocation, match_id: u64, player: Address)
    requires
        deposit_result(s, inv, match_id, player) is Ok,
    ensures
        ({
            let m = s.matches[match_id];
            let t = deposit_next(s, inv, match_id, player);
            let n = t.matches[match_id];
            &&& t.transfers == s.transfers.push(
                Transfer::Deposit { match_id, token: m.token, from: player, amount: m.stake_amount },
            )
            &&& player == m.player1 || player == m.player2
            &&& player == m.player1 ==> !m.player1_deposited && n.player1_deposited && n.player2_deposited
                == m.player2_deposited
            &&& player != m.player1 ==> !m.player2_deposited && n.player2_deposited && n.player1_deposited
                == m.player1_deposited
            &&& n.state == if n.player1_deposited && n.player2_deposited {
                MatchState::Active
            } else {
                MatchState::Pending
            }
            &&& n.id == m.id && n.player1 == m.player1 && n.player2 == m.player2
            &&& n.stake_amount == m.stake_amount && n.token == m.token && n.game_id == m.game_id
            &&& n.platform == m.platform && n.created_ledger == m.created_ledger
            &&& t.events.last() == EscrowEvent::Deposited { match_id, player }
            &&& forall|k: u64| k != match_id ==> t.matches.contains_key(k) == s.matches.contains_key(k)
                && t.matches[k] == s.matches[k]
            &&& t.paused == s.paused && t.oracle == s.oracle && t.admin == s.admin
            &&& t.match_count == s.match_count
        }),
{
}

/// A settlement pays the whole pot, twice the stake, to the winning player
/// and nothing to the loser; a draw gives each player its own stake back.
/// Every new transfer is a payout of the match's token for that match, and
/// the match is then completed with its terms kept.
pub proof fn lemma_settlement_pays_winner(
    s: EscrowView,
    inv: Invocation,
    match_id: u64,
    game_id: Seq<u8>,
    winner: Winner,
    caller: Address,
)
    requires
        well_formed(s),
        submit_result_result(s, inv, match_id, game_id, caller) is Ok,
        i128::MIN <= 2 * s.matches[match_id].stake_amount <= i128::MAX,
    ensures
        ({
            let m = s.matches[match_id];
            let t = submit_result_next(s, inv, match_id, game_id, winner, caller);
            let paid = t.transfers.subrange(s.transfers.len() as int, t.transfers.len() as int);
            let pot = 2 * m.stake_amount;
            &&& t.transfers.subrange(0, s.transfers.len() as int) == s.transfers
            &&& paid_to(paid, m.player1) == match winner {
                Winner::Player1 => pot,
                Winner::Player2 => 0,
                Winner::Draw => m.stake_amount as int,
            }
            &&& paid_to(paid, m.player2) == match winner {
                Winner::Player1 => 0,
                Winner::Player2 => pot,
                Winner::Draw => m.stake_amount as int,
            }
            &&& forall|i: int|
                0 <= i < paid.len() ==> (#[trigger] paid[i] matches Transfer::Payout {
                    match_id: j,
                    token,
                    to,
                    ..
                } && j == match_id && token == m.token && (to == m.player1 || to == m.player2))
            &&& m.game_id == game_id
            &&& m.state == MatchState::Active
            &&& t.matches[match_id] == MatchView { state: MatchState::Completed, ..m }
            &&& t.events == s.events.push(EscrowEvent::Completed { match_id, winner })
        }),
{
    let m = s.matches[match_id];
    let t = submit_result_next(s, inv, match_id, game_id, winner, caller);
    let paid = t.transfers.subrange(s.transfers.len() as int, t.transfers.len() as int);
    assert(paid =~= payouts(match_id, m, winner));
    assert(t.transfers.subrange(0, s.transfers.len() as int) =~= s.transfers);
    assert(match_well_formed(m, match_id));
    match winner {
        Winner::Draw => {
            lemma_paid_to_two(paid[0], paid[1], m.player1);
            lemma_paid_to_one(paid[0], m.player1);
            lemma_paid_to_two(paid[0], paid[1], m.player2);
            lemma_paid_to_one(paid[0], m.player2);
            assert(paid =~= seq![paid[0], paid[1]]);
        },
        _ => {
            lemma_paid_to_one(paid[0], m.player1);
            lemma_paid_to_one(paid[0], m.player2);
            assert(paid =~= seq![paid[0]]);
        },
    }
}

/// From deployment on, through any run of calls that their functions
/// accept, the balance the contract reports for a match is the net of the
/// tokens its transfers moved into the escrow for that match.
pub proof fn lemma_balance_is_net_flow(calls: Seq<(Invocation, EscrowCall)>, id: u64)
    requires
        run_allowed(deployed(), calls),
        run(deployed(), calls).matches.contains_key(id),
        !balance_overflows(run(deployed(), calls), id),
    ensures
        escrow_balance_result(run(deployed(), calls), id) matches Ok(b) && b as int == flow_of(
            run(deployed(), calls).transfers,
            id,
        ),
{
    let s = run(deployed(), calls);
    lemma_run_funds_balanced(calls);
    lemma_run_well_formed(calls);
    assert(match_well_formed(s.matches[id], id));
    assert(flow_of(s.transfers, id) == held_at(s, id));
}

/// Initializing sets the oracle and the admin it is given: afterwards an
/// admin-only call goes through exactly when that admin authorizes it, and
/// the contract is not paused.
pub proof fn lemma_initialize_sets_roles(s: EscrowView, oracle: Address, admin: Address, next: Invocation)
    ensures
        ({
            let t = initialize_next(s, oracle, admin);
            &&& t.oracle == Some(oracle)
            &&& t.admin == Some(admin)
            &&& (admin_call_result(t, next) is Ok) == next.authorizes(admin)
            &&& !t.paused
            &&& t.matches == s.matches
            &&& t.transfers == s.transfers
        }),
{
}

} // verus!
