//! Properties of the oracle contract that span its calls.

use vstd::prelude::*;

use crate::invocation::{Address, Failure, Invocation, ttl_after_extension};
use crate::oracle::error::Error;
use crate::oracle::spec::{
    MATCH_TTL_LEDGERS, OracleCall, OracleView, ttl_extension, admin_call_result, call_result, get_result_result, initialize_next,
    initialize_result, run, step, submit_result_next, submit_result_result, transfer_admin_next,
};
use crate::oracle::types::{EntryKey, MatchResult, OracleEvent, ResultRecord};

verus! {

/// Once an admin is set, `initialize` is refused with AlreadyInitialized
/// and changes nothing: the admin cannot be replaced this way.
pub proof fn lemma_initialize_once(s: OracleView, admin: Address)
    requires
        s.admin is Some,
    ensures
        initialize_result(s) == Err::<(), Error>(Error::AlreadyInitialized),
        initialize_next(s, admin) == s,
{
}

/// A call that the contract refuses changes nothing.
pub proof fn lemma_rejected_call_changes_nothing(s: OracleView, inv: Invocation, call: OracleCall)
    requires
        call_result(s, inv, call) is Err,
    ensures
        step(s, inv, call) == s,
{
}

/// A result read back after it was recorded is the one recorded.
pub proof fn lemma_submit_then_get(
    s: OracleView,
    inv: Invocation,
    match_id: u64,
    game_id: Seq<u8>,
    result: MatchResult,
)
    requires
        submit_result_result(s, inv, match_id, game_id) is Ok,
    ensures
        get_result_result(submit_result_next(s, inv, match_id, game_id, result), match_id) == Ok::<
            ResultRecord,
            Error,
        >(ResultRecord { game_id, result }),
        submit_result_next(s, inv, match_id, game_id, result).results.contains_key(match_id),
{
}

/// A recorded result is immutable: every call keeps it, unchanged; a
/// second submission for the match is refused with AlreadySubmitted once
/// the admin has authorized it.
pub proof fn lemma_results_immutable(s: OracleView, inv: Invocation, call: OracleCall, match_id: u64)
    requires
        s.results.contains_key(match_id),
    ensures
        step(s, inv, call).results.contains_key(match_id),
        step(s, inv, call).results[match_id] == s.results[match_id],
        call matches OracleCall::SubmitResult { match_id: m, game_id, .. } && m == match_id ==> (
        call_result(s, inv, call) is Err),
        call matches OracleCall::SubmitResult { match_id: m, game_id, .. } && m == match_id
            && admin_call_result(s, inv) is Ok && game_id.len() <= 64 ==> call_result(s, inv, call)
            == Err::<(), Failure<Error>>(Failure::Contract(Error::AlreadySubmitted)),
{
}

/// `has_result` says whether `get_result` finds a result.
pub proof fn lemma_has_result_iff_found(s: OracleView, match_id: u64)
    ensures
        s.results.contains_key(match_id) == get_result_result(s, match_id) is Ok,
{
}

/// Only the admin, having authorized the call, can record a result or hand
/// over its rights; after a hand-over the new admin is the admin.
pub proof fn lemma_only_admin_acts(s: OracleView, inv: Invocation, call: OracleCall)
    requires
        !(call is Initialize),
        step(s, inv, call) != s,
    ensures
        s.admin is Some,
        inv.authorizes(s.admin.unwrap()),
        call matches OracleCall::TransferAdmin { new_admin } ==> step(s, inv, call).admin == Some(
            new_admin,
        ),
{
}

/// The event log only grows: a call adds its events after those already
/// published.
pub proof fn lemma_events_append_only(s: OracleView, inv: Invocation, call: OracleCall)
    ensures
        s.events.len() <= step(s, inv, call).events.len(),
        step(s, inv, call).events.subrange(0, s.events.len() as int) == s.events,
{
    let t = step(s, inv, call);
    assert(t.events.subrange(0, s.events.len() as int) =~= s.events);
}

/// A recorded result outlives any run of later calls unchanged: once
/// submitted, it is what `get_result` returns for good.
pub proof fn lemma_run_keeps_results(s: OracleView, calls: Seq<(Invocation, OracleCall)>, match_id: u64)
    requires
        s.results.contains_key(match_id),
    ensures
        run(s, calls).results.contains_key(match_id),
        get_result_result(run(s, calls), match_id) == get_result_result(s, match_id),
    decreases calls.len(),
{
    if calls.len() > 0 {
        lemma_run_keeps_results(s, calls.drop_last(), match_id);
        lemma_results_immutable(run(s, calls.drop_last()), calls.last().0, calls.last().1, match_id);
    }
}

/// A successful submission asks the host to keep the stored result alive
/// for 30 days: whatever time to live the entry had, it has at least
/// MATCH_TTL_LEDGERS ledgers left afterwards, and exactly that if it had
/// less. No other call asks for any extension.
pub proof fn lemma_submission_keeps_result_alive(
    s: OracleView,
    inv: Invocation,
    match_id: u64,
    game_id: Seq<u8>,
    result: MatchResult,
    ttl: int,
)
    requires
        submit_result_result(s, inv, match_id, game_id) is Ok,
    ensures
        ({
            let t = submit_result_next(s, inv, match_id, game_id, result);
            let e = t.ttl_extensions.last();
            &&& t.ttl_extensions == s.ttl_extensions.push(e)
            &&& e.key == EntryKey::Result(match_id)
            &&& ttl_after_extension(ttl, e.threshold, e.extend_to) >= MATCH_TTL_LEDGERS
            &&& ttl < MATCH_TTL_LEDGERS ==> ttl_after_extension(ttl, e.threshold, e.extend_to)
                == MATCH_TTL_LEDGERS
        }),
{
}

/// Time-to-live extensions are asked for only by a call that writes a
/// result, and only for the entry it writes; a refused call asks for none.
pub proof fn lemma_extensions_only_for_writes(s: OracleView, inv: Invocation, call: OracleCall)
    ensures
        ({
            let t = step(s, inv, call);
            ||| t.ttl_extensions == s.ttl_extensions
            ||| call_result(s, inv, call) is Ok && (call matches OracleCall::SubmitResult {
                match_id,
                ..
            } && t.ttl_extensions == s.ttl_extensions.push(ttl_extension(EntryKey::Result(match_id))))
        }),
{
}

/// Initializing a fresh contract makes `admin` its admin: afterwards an
/// admin-only call goes through exactly when `admin` authorizes it.
pub proof fn lemma_initialize_sets_admin(s: OracleView, admin: Address, next: Invocation)
    requires
        s.admin is None,
    ensures
        ({
            let t = initialize_next(s, admin);
            &&& initialize_result(s) is Ok
            &&& t.admin == Some(admin)
            &&& (admin_call_result(t, next) is Ok) == next.authorizes(admin)
            &&& t.results == s.results
            &&& t.events == s.events.push(OracleEvent::Initialized { admin })
        }),
{
}

/// A submission stores exactly the given game id and result under the
/// match id, publishes them, and touches no other result and not the admin.
pub proof fn lemma_submission_records_call(
    s: OracleView,
    inv: Invocation,
    match_id: u64,
    game_id: Seq<u8>,
    result: MatchResult,
)
    requires
        submit_result_result(s, inv, match_id, game_id) is Ok,
    ensures
        ({
            let t = submit_result_next(s, inv, match_id, game_id, result);
            &&& !s.results.contains_key(match_id)
            &&& t.results.contains_key(match_id)
            &&& t.results[match_id].game_id == game_id
            &&& t.results[match_id].result == result
            &&& forall|k: u64| k != match_id ==> t.results.contains_key(k) == s.results.contains_key(k)
                && t.results[k] == s.results[k]
            &&& t.admin == s.admin
            &&& t.events == s.events.push(OracleEvent::ResultSubmitted { match_id, result })
        }),
{
}

/// Handing over the admin role makes `new_admin` the one whose
/// authorization admin-only calls need from then on, publishes who handed
/// it to whom, and changes no result.
pub proof fn lemma_transfer_admin_hands_over(s: OracleView, inv: Invocation, new_admin: Address, next: Invocation)
    requires
        admin_call_result(s, inv) is Ok,
    ensures
        ({
            let t = transfer_admin_next(s, inv, new_admin);
            &&& t.admin == Some(new_admin)
            &&& (admin_call_result(t, next) is Ok) == next.authorizes(new_admin)
            &&& t.results == s.results
            &&& t.events == s.events.push(
                OracleEvent::AdminTransferred { previous_admin: s.admin.unwrap(), new_admin },
            )
        }),
{
}

} // verus!
