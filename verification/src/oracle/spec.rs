//! The oracle contract as a state machine over mathematical values: what
//! each call returns and what it leaves behind. For a call `f`,
//! `f_result` is what it returns and `f_next` the state after it; a call
//! that returns an error leaves the state as it was.

use vstd::prelude::*;

use crate::invocation::{Address, Failure, Invocation};
use crate::oracle::error::Error;
use crate::oracle::types::{EntryKey, MatchResult, OracleEvent, ResultRecord, TtlExtension};

verus! {

/// Maximum allowed byte length for a game id.
pub const MAX_GAME_ID_LEN: u32 = 64;

/// ~30 days at 5s/ledger: the time to live that a stored result is
/// extended to.
pub const MATCH_TTL_LEDGERS: u32 = 518_400;

/// The extension that every write of `key` asks for: to 30 days, if less
/// is left.
pub open spec fn ttl_extension(key: EntryKey) -> TtlExtension {
    TtlExtension { key, threshold: MATCH_TTL_LEDGERS, extend_to: MATCH_TTL_LEDGERS }
}

/// The oracle contract's storage, what it has published so far, and the
/// time-to-live extensions it has asked the host for.
pub struct OracleView {
    pub admin: Option<Address>,
    pub results: Map<u64, ResultRecord>,
    pub events: Seq<OracleEvent>,
    pub ttl_extensions: Seq<TtlExtension>,
}

/// The state of a contract that has just been deployed.
pub open spec fn deployed() -> OracleView {
    OracleView { admin: None, results: Map::empty(), events: Seq::empty(), ttl_extensions: Seq::empty() }
}

pub open spec fn initialize_result(s: OracleView) -> Result<(), Error> {
    if s.admin is Some {
        Err(Error::AlreadyInitialized)
    } else {
        Ok(())
    }
}

pub open spec fn initialize_next(s: OracleView, admin: Address) -> OracleView {
    if initialize_result(s) is Ok {
        OracleView {
            admin: Some(admin),
            events: s.events.push(OracleEvent::Initialized { admin }),
            ..s
        }
    } else {
        s
    }
}

/// What a call that needs the admin's authorization returns, before its
/// own checks.
pub open spec fn admin_call_result(s: OracleView, inv: Invocation) -> Result<(), Failure<Error>> {
    match s.admin {
        None => Err(Failure::Contract(Error::Unauthorized)),
        Some(admin) => if inv.authorizes(admin) {
            Ok(())
        } else {
            Err(Failure::MissingAuth(admin))
        },
    }
}

pub open spec fn submit_result_result(s: OracleView, inv: Invocation, match_id: u64, game_id: Seq<u8>) -> Result<
    (),
    Failure<Error>,
> {
    if admin_call_result(s, inv) is Err {
        admin_call_result(s, inv)
    } else if game_id.len() > MAX_GAME_ID_LEN {
        Err(Failure::Contract(Error::InvalidGameId))
    } else if s.results.contains_key(match_id) {
        Err(Failure::Contract(Error::AlreadySubmitted))
    } else {
        Ok(())
    }
}

pub open spec fn submit_result_next(
    s: OracleView,
    inv: Invocation,
    match_id: u64,
    game_id: Seq<u8>,
    result: MatchResult,
) -> OracleView {
    if submit_result_result(s, inv, match_id, game_id) is Ok {
        OracleView {
            results: s.results.insert(match_id, ResultRecord { game_id, result }),
            events: s.events.push(OracleEvent::ResultSubmitted { match_id, result }),
            ttl_extensions: s.ttl_extensions.push(ttl_extension(EntryKey::Result(match_id))),
            ..s
        }
    } else {
        s
    }
}

pub open spec fn transfer_admin_next(s: OracleView, inv: Invocation, new_admin: Address) -> OracleView {
    if admin_call_result(s, inv) is Ok {
        OracleView {
            admin: Some(new_admin),
            events: s.events.push(
                OracleEvent::AdminTransferred { previous_admin: s.admin.unwrap(), new_admin },
            ),
            ..s
        }
    } else {
        s
    }
}

pub open spec fn get_result_result(s: OracleView, match_id: u64) -> Result<ResultRecord, Error> {
    if s.results.contains_key(match_id) {
        Ok(s.results[match_id])
    } else {
        Err(Error::ResultNotFound)
    }
}

/// A call of one of the contract's state-changing functions.
pub enum OracleCall {
    Initialize { admin: Address },
    SubmitResult { match_id: u64, game_id: Seq<u8>, result: MatchResult },
    TransferAdmin { new_admin: Address },
}

/// The state after the call.
pub open spec fn step(s: OracleView, inv: Invocation, call: OracleCall) -> OracleView {
    match call {
        OracleCall::Initialize { admin } => initialize_next(s, admin),
        OracleCall::SubmitResult { match_id, game_id, result } => submit_result_next(
            s,
            inv,
            match_id,
            game_id,
            result,
        ),
        OracleCall::TransferAdmin { new_admin } => transfer_admin_next(s, inv, new_admin),
    }
}

/// What the call returns.
pub open spec fn call_result(s: OracleView, inv: Invocation, call: OracleCall) -> Result<(), Failure<Error>> {
    match call {
        OracleCall::Initialize { .. } => match initialize_result(s) {
            Ok(()) => Ok(()),
            Err(e) => Err(Failure::Contract(e)),
        },
        OracleCall::SubmitResult { match_id, game_id, .. } => submit_result_result(
            s,
            inv,
            match_id,
            game_id,
        ),
        OracleCall::TransferAdmin { .. } => admin_call_result(s, inv),
    }
}

/// The state after a run of calls, each with its invocation.
pub open spec fn run(s: OracleView, calls: Seq<(Invocation, OracleCall)>) -> OracleView
    decreases calls.len(),
{
    if calls.len() == 0 {
        s
    } else {
        step(run(s, calls.drop_last()), calls.last().0, calls.last().1)
    }
}

} // verus!
