//! The oracle contract: an on-chain record of verified game results, kept
//! by a trusted admin (the off-chain oracle service).

use vstd::prelude::*;
use std::collections::HashMap;

use crate::invocation::{Address, Failure, Invocation};
use crate::oracle::error::Error;
use crate::oracle::spec::{
    MATCH_TTL_LEDGERS, MAX_GAME_ID_LEN, OracleView, admin_call_result, deployed, get_result_result, initialize_next,
    initialize_result, submit_result_next, submit_result_result, transfer_admin_next,
};
use crate::oracle::types::{EntryKey, MatchResult, OracleEvent, ResultEntry, TtlExtension};

verus! {

broadcast use vstd::std_specs::hash::group_hash_axioms;

/// The oracle contract's state: its storage entries, the events it has
/// published, and the time-to-live extensions it has asked the host for.
pub struct OracleContract {
    /// The trusted admin (instance storage).
    pub admin: Option<Address>,
    /// The recorded results by match id (persistent storage).
    pub results: HashMap<u64, ResultEntry>,
    pub events: Vec<OracleEvent>,
    pub ttl_extensions: Vec<TtlExtension>,
}

impl View for OracleContract {
    type V = OracleView;

    open spec fn view(&self) -> OracleView {
        OracleView {
            admin: self.admin,
            results: self.results@.map_values(|e: ResultEntry| e@),
            events: self.events@,
            ttl_extensions: self.ttl_extensions@,
        }
    }
}

impl OracleContract {
    /// A freshly deployed contract: no admin, no results.
    pub fn new() -> (r: OracleContract)
        ensures
            r@ == deployed(),
    {
        let r = OracleContract {
            admin: None,
            results: HashMap::new(),
            events: Vec::new(),
            ttl_extensions: Vec::new(),
        };
        assert(r@.results =~= Map::empty());
        r
    }

    /// Sets the trusted admin; refused once an admin is set.
    pub fn initialize(&mut self, admin: Address) -> (r: Result<(), Error>)
        ensures
            r == initialize_result(old(self)@),
            final(self)@ == initialize_next(old(self)@, admin),
    {
        if self.admin.is_some() {
            return Err(Error::AlreadyInitialized);
        }
        self.admin = Some(admin);
        self.events.push(OracleEvent::Initialized { admin });
        Ok(())
    }

    fn check_admin(&self, inv: &Invocation) -> (r: Result<Address, Failure<Error>>)
        ensures
            match r {
                Ok(a) => admin_call_result(self@, *inv) is Ok && self@.admin == Some(a),
                Err(e) => admin_call_result(self@, *inv) == Err::<(), Failure<Error>>(e),
            },
    {
        match self.admin {
            None => Err(Failure::Contract(Error::Unauthorized)),
            Some(admin) => if inv.is_authorized_by(admin) {
                Ok(admin)
            } else {
                Err(Failure::MissingAuth(admin))
            },
        }
    }

    /// The admin (who must authorize the call) records the result of the
    /// game `game_id` for match `match_id`. A recorded result is never
    /// replaced.
    pub fn submit_result(
        &mut self,
        inv: &Invocation,
        match_id: u64,
        game_id: Vec<u8>,
        result: MatchResult,
    ) -> (r: Result<(), Failure<Error>>)
        ensures
            r == submit_result_result(old(self)@, *inv, match_id, game_id@),
            final(self)@ == submit_result_next(old(self)@, *inv, match_id, game_id@, result),
    {
        if let Err(e) = self.check_admin(inv) {
            return Err(e);
        }
        if game_id.len() > MAX_GAME_ID_LEN as usize {
            return Err(Failure::Contract(Error::InvalidGameId));
        }
        if self.results.contains_key(&match_id) {
            return Err(Failure::Contract(Error::AlreadySubmitted));
        }
        let ghost old_view = self@;
        let entry = ResultEntry { game_id, result };
        self.results.insert(match_id, entry);
        self.events.push(OracleEvent::ResultSubmitted { match_id, result });
        self.ttl_extensions.push(
            TtlExtension {
                key: EntryKey::Result(match_id),
                threshold: MATCH_TTL_LEDGERS,
                extend_to: MATCH_TTL_LEDGERS,
            },
        );
        assert(self@.results =~= old_view.results.insert(match_id, entry@));
        Ok(())
    }

    /// The recorded result for the match.
    pub fn get_result(&self, match_id: u64) -> (r: Result<ResultEntry, Error>)
        ensures
            (match r {
                Ok(e) => Ok(e@),
                Err(e) => Err(e),
            }) == get_result_result(self@, match_id),
    {
        match self.results.get(&match_id) {
            Some(e) => Ok(e.duplicate()),
            None => Err(Error::ResultNotFound),
        }
    }

    /// Whether a result is recorded for the match.
    pub fn has_result(&self, match_id: u64) -> (r: bool)
        ensures
            r == self@.results.contains_key(match_id),
    {
        self.results.contains_key(&match_id)
    }

    /// The admin (who must authorize the call) hands its rights to
    /// `new_admin`.
    pub fn transfer_admin(&mut self, inv: &Invocation, new_admin: Address) -> (r: Result<
        (),
        Failure<Error>,
    >)
        ensures
            r == admin_call_result(old(self)@, *inv),
            final(self)@ == transfer_admin_next(old(self)@, *inv, new_admin),
    {
        let admin = match self.check_admin(inv) {
            Ok(a) => a,
            Err(e) => return Err(e),
        };
        self.admin = Some(new_admin);
        self.events.push(OracleEvent::AdminTransferred { previous_admin: admin, new_admin });
        Ok(())
    }

    /// The events published so far, oldest first.
    pub fn events(&self) -> (r: &Vec<OracleEvent>)
        ensures
            r@ == self@.events,
    {
        &self.events
    }

    /// The time-to-live extensions asked for so far, oldest first.
    pub fn ttl_extensions(&self) -> (r: &Vec<TtlExtension>)
        ensures
            r@ == self@.ttl_extensions,
    {
        &self.ttl_extensions
    }
}

} // verus!
