//! The escrow contract: players stake tokens on a chess match, and the
//! oracle's report of the result releases the pot.

use vstd::prelude::*;
use std::collections::HashMap;

use crate::escrow::error::Error;
use crate::escrow::spec::{
    EscrowView, MATCH_TTL_LEDGERS, MAX_GAME_ID_LEN, ttl_extension, admin_call_result, balance_overflows, cancel_match_next,
    cancel_match_result, create_match_next, create_match_result, deployed, deposit_count,
    deposit_next, deposit_result, escrow_balance_result, get_match_result, initialize_next,
    is_funded_result, is_initialized, new_match, payouts, pot_fits, refunds, set_paused_next,
    settlement_overflows, submit_result_next, submit_result_result, update_oracle_next,
    with_deposit,
};
use crate::escrow::types::{
    EntryKey, EscrowEvent, Match, MatchState, MatchView, Platform, Transfer, TtlExtension, Winner,
    same_bytes,
};
use crate::invocation::{Address, Failure, Invocation};

verus! {

broadcast use vstd::std_specs::hash::group_hash_axioms;

/// The escrow contract's state: its storage entries, the events it has
/// published, the token transfers it has made, and the time-to-live
/// extensions it has asked the host for.
pub struct EscrowContract {
    /// The trusted oracle (instance storage).
    pub oracle: Option<Address>,
    /// The admin (instance storage).
    pub admin: Option<Address>,
    /// The id the next match gets (instance storage).
    pub match_count: u64,
    /// The circuit breaker (instance storage).
    pub paused: bool,
    /// The match records by id (persistent storage).
    pub matches: HashMap<u64, Match>,
    /// The game ids that matches have taken (persistent storage).
    pub game_ids: Vec<Vec<u8>>,
    pub events: Vec<EscrowEvent>,
    pub transfers: Vec<Transfer>,
    pub ttl_extensions: Vec<TtlExtension>,
}

impl View for EscrowContract {
    type V = EscrowView;

    open spec fn view(&self) -> EscrowView {
        EscrowView {
            oracle: self.oracle,
            admin: self.admin,
            match_count: self.match_count,
            paused: self.paused,
            matches: self.matches@.map_values(|m: Match| m@),
            game_ids: self.game_ids@.map_values(|g: Vec<u8>| g@),
            events: self.events@,
            transfers: self.transfers@,
            ttl_extensions: self.ttl_extensions@.map_values(|e: TtlExtension| e@),
        }
    }
}

impl EscrowContract {
    /// A freshly deployed contract: no storage, nothing published.
    pub fn new() -> (r: EscrowContract)
        ensures
            r@ == deployed(),
    {
        let r = EscrowContract {
            oracle: None,
            admin: None,
            match_count: 0,
            paused: false,
            matches: HashMap::new(),
            game_ids: Vec::new(),
            events: Vec::new(),
            transfers: Vec::new(),
            ttl_extensions: Vec::new(),
        };
        assert(r@.matches =~= Map::empty());
        assert(r@.ttl_extensions =~= Seq::empty());
        assert(r@.game_ids =~= Seq::empty());
        r
    }

    /// Whether `initialize` has run.
    pub fn is_initialized(&self) -> (r: bool)
        ensures
            r == is_initialized(self@),
    {
        self.oracle.is_some()
    }

    /// Sets the oracle and the admin, the match counter to 0 and the pause
    /// flag to false. The contract takes this once only: a second call is
    /// refused by the host ("Contract already initialized").
    pub fn initialize(&mut self, oracle: Address, admin: Address)
        requires
            !is_initialized(old(self)@),
        ensures
            final(self)@ == initialize_next(old(self)@, oracle, admin),
    {
        self.oracle = Some(oracle);
        self.admin = Some(admin);
        self.match_count = 0;
        self.paused = false;
    }

    fn check_admin(&self, inv: &Invocation) -> (r: Result<(), Failure<Error>>)
        ensures
            r == admin_call_result(self@, *inv),
    {
        match self.admin {
            None => Err(Failure::Contract(Error::Unauthorized)),
            Some(admin) => if inv.is_authorized_by(admin) {
                Ok(())
            } else {
                Err(Failure::MissingAuth(admin))
            },
        }
    }

    /// Admin only: blocks `create_match`, `deposit` and `submit_result`.
    pub fn pause(&mut self, inv: &Invocation) -> (r: Result<(), Failure<Error>>)
        ensures
            r == admin_call_result(old(self)@, *inv),
            final(self)@ == set_paused_next(old(self)@, *inv, true),
    {
        self.check_admin(inv)?;
        self.paused = true;
        self.events.push(EscrowEvent::Paused);
        Ok(())
    }

    /// Admin only: lifts a pause.
    pub fn unpause(&mut self, inv: &Invocation) -> (r: Result<(), Failure<Error>>)
        ensures
            r == admin_call_result(old(self)@, *inv),
            final(self)@ == set_paused_next(old(self)@, *inv, false),
    {
        self.check_admin(inv)?;
        self.paused = false;
        self.events.push(EscrowEvent::Unpaused);
        Ok(())
    }

    /// Admin only: replaces the trusted oracle.
    pub fn update_oracle(&mut self, inv: &Invocation, new_oracle: Address) -> (r: Result<(), Failure<Error>>)
        ensures
            r == admin_call_result(old(self)@, *inv),
            final(self)@ == update_oracle_next(old(self)@, *inv, new_oracle),
    {
        self.check_admin(inv)?;
        self.oracle = Some(new_oracle);
        self.events.push(EscrowEvent::OracleUpdated { new_oracle });
        Ok(())
    }

    /// Asks the host to extend the entry `key` to 30 days.
    fn extend_ttl(&mut self, key: EntryKey)
        ensures
            final(self)@ == (EscrowView {
                ttl_extensions: old(self)@.ttl_extensions.push(ttl_extension(key@)),
                ..old(self)@
            }),
    {
        let ghost old_view = self@;
        let ext = TtlExtension { key, threshold: MATCH_TTL_LEDGERS, extend_to: MATCH_TTL_LEDGERS };
        self.ttl_extensions.push(ext);
        assert(self@.ttl_extensions =~= old_view.ttl_extensions.push(ttl_extension(ext.key@)));
    }

    fn game_id_taken(&self, game_id: &Vec<u8>) -> (r: bool)
        ensures
            r == self@.game_ids.contains(game_id@),
    {
        let n = self.game_ids.len();
        let mut i: usize = 0;
        while i < n
            invariant
                n == self.game_ids@.len(),
                i <= n,
                forall|j: int| 0 <= j < i ==> self.game_ids@[j]@ != game_id@,
            decreases n - i,
        {
            if self.game_ids[i] == *game_id {
                assert(self.game_ids@[i as int]@ =~= game_id@);
                assert(self@.game_ids[i as int] == game_id@);
                return true;
            }
            i = i + 1;
        }
        assert forall|j: int| 0 <= j < self@.game_ids.len() implies self@.game_ids[j] != game_id@ by {
            assert(self@.game_ids[j] == self.game_ids@[j]@);
        }
        false
    }

    /// Creates a match between `player1` (who must authorize the call) and
    /// `player2`, each to stake `stake_amount` of `token`, for the game
    /// `game_id` on `platform`. Returns the new match's id.
    pub fn create_match(
        &mut self,
        inv: &Invocation,
        player1: Address,
        player2: Address,
        stake_amount: i128,
        token: Address,
        game_id: Vec<u8>,
        platform: Platform,
    ) -> (r: Result<u64, Failure<Error>>)
        ensures
            r == create_match_result(old(self)@, *inv, player1, player2, stake_amount, game_id@),
            final(self)@ == create_match_next(
                old(self)@,
                *inv,
                player1,
                player2,
                stake_amount,
                token,
                game_id@,
                platform,
            ),
    {
        if !inv.is_authorized_by(player1) {
            return Err(Failure::MissingAuth(player1));
        }
        if self.paused {
            return Err(Failure::Contract(Error::ContractPaused));
        }
        if stake_amount <= 0 {
            return Err(Failure::Contract(Error::InvalidAmount));
        }
        if player1 == player2 {
            return Err(Failure::Contract(Error::InvalidPlayers));
        }
        if game_id.len() > MAX_GAME_ID_LEN as usize {
            return Err(Failure::Contract(Error::InvalidGameId));
        }
        if self.game_id_taken(&game_id) {
            return Err(Failure::Contract(Error::DuplicateGameId));
        }
        let id = self.match_count;
        if self.matches.contains_key(&id) {
            return Err(Failure::Contract(Error::AlreadyExists));
        }
        if id == u64::MAX {
            return Err(Failure::Contract(Error::Overflow));
        }
        let ghost old_view = self@;
        let m = Match {
            id,
            player1,
            player2,
            stake_amount,
            token,
            game_id: game_id.clone(),
            platform,
            state: MatchState::Pending,
            player1_deposited: false,
            player2_deposited: false,
            created_ledger: inv.ledger_sequence,
        };
        assert(m.game_id@ =~= game_id@);
        let claim = game_id.clone();
        assert(claim@ =~= game_id@);
        self.matches.insert(id, m);
        self.game_ids.push(game_id);
        self.match_count = id + 1;
        self.events.push(EscrowEvent::MatchCreated { match_id: id, player1, player2, stake_amount });
        assert(self@.matches =~= old_view.matches.insert(
            id,
            new_match(id, *inv, player1, player2, stake_amount, token, game_id@, platform),
        ));
        assert(self@.game_ids =~= old_view.game_ids.push(claim@));
        self.extend_ttl(EntryKey::Match(id));
        self.extend_ttl(EntryKey::GameId(claim));
        Ok(id)
    }

    /// `player` (who must authorize the call) pays its stake into a pending
    /// match; once both players have, the match becomes active.
    pub fn deposit(&mut self, inv: &Invocation, match_id: u64, player: Address) -> (r: Result<
        (),
        Failure<Error>,
    >)
        ensures
            r == deposit_result(old(self)@, *inv, match_id, player),
            final(self)@ == deposit_next(old(self)@, *inv, match_id, player),
    {
        if !inv.is_authorized_by(player) {
            return Err(Failure::MissingAuth(player));
        }
        if self.paused {
            return Err(Failure::Contract(Error::ContractPaused));
        }
        let mut m = match self.matches.get(&match_id) {
            Some(m) => m.duplicate(),
            None => return Err(Failure::Contract(Error::MatchNotFound)),
        };
        if m.state != MatchState::Pending {
            return Err(Failure::Contract(Error::InvalidState));
        }
        let is_p1 = player == m.player1;
        let is_p2 = player == m.player2;
        if !is_p1 && !is_p2 {
            return Err(Failure::Contract(Error::Unauthorized));
        }
        if (is_p1 && m.player1_deposited) || (!is_p1 && m.player2_deposited) {
            return Err(Failure::Contract(Error::AlreadyFunded));
        }
        let ghost old_view = self@;
        let ghost old_events = self.events@;
        self.transfers.push(
            Transfer::Deposit { match_id, token: m.token, from: player, amount: m.stake_amount },
        );
        if is_p1 {
            m.player1_deposited = true;
        } else {
            m.player2_deposited = true;
        }
        if m.player1_deposited && m.player2_deposited {
            m.state = MatchState::Active;
            self.events.push(EscrowEvent::Activated { match_id });
        }
        self.events.push(EscrowEvent::Deposited { match_id, player });
        self.matches.insert(match_id, m);
        assert(self@.matches =~= old_view.matches.insert(
            match_id,
            with_deposit(old_view.matches[match_id], player),
        ));
        let ghost m2 = with_deposit(old_view.matches[match_id], player);
        let ghost activation = if m2.state == MatchState::Active {
            seq![EscrowEvent::Activated { match_id }]
        } else {
            Seq::empty()
        };
        assert(self@.events =~= old_events + activation + seq![EscrowEvent::Deposited { match_id, player }]);
        self.extend_ttl(EntryKey::Match(match_id));
        Ok(())
    }

    /// The oracle (`caller`, who must authorize the call) reports the
    /// outcome of the active match's game `game_id`; the pot is paid out and
    /// the match completed.
    pub fn submit_result(
        &mut self,
        inv: &Invocation,
        match_id: u64,
        game_id: Vec<u8>,
        winner: Winner,
        caller: Address,
    ) -> (r: Result<(), Failure<Error>>)
        requires
            !settlement_overflows(old(self)@, *inv, match_id, game_id@, winner, caller),
        ensures
            r == submit_result_result(old(self)@, *inv, match_id, game_id@, caller),
            final(self)@ == submit_result_next(old(self)@, *inv, match_id, game_id@, winner, caller),
    {
        if self.paused {
            return Err(Failure::Contract(Error::ContractPaused));
        }
        match self.oracle {
            None => return Err(Failure::Contract(Error::Unauthorized)),
            Some(oracle) => if oracle != caller {
                return Err(Failure::Contract(Error::Unauthorized));
            },
        }
        if !inv.is_authorized_by(caller) {
            return Err(Failure::MissingAuth(caller));
        }
        let mut m = match self.matches.get(&match_id) {
            Some(m) => m.duplicate(),
            None => return Err(Failure::Contract(Error::MatchNotFound)),
        };
        if !same_bytes(&m.game_id, &game_id) {
            return Err(Failure::Contract(Error::GameIdMismatch));
        }
        if m.state != MatchState::Active {
            return Err(Failure::Contract(Error::InvalidState));
        }
        if !(m.player1_deposited && m.player2_deposited) {
            return Err(Failure::Contract(Error::NotFunded));
        }
        let ghost old_view = self@;
        match winner {
            Winner::Player1 => {
                let pot = m.stake_amount * 2;
                self.transfers.push(Transfer::Payout { match_id, token: m.token, to: m.player1, amount: pot });
            },
            Winner::Player2 => {
                let pot = m.stake_amount * 2;
                self.transfers.push(Transfer::Payout { match_id, token: m.token, to: m.player2, amount: pot });
            },
            Winner::Draw => {
                self.transfers.push(
                    Transfer::Payout { match_id, token: m.token, to: m.player1, amount: m.stake_amount },
                );
                self.transfers.push(
                    Transfer::Payout { match_id, token: m.token, to: m.player2, amount: m.stake_amount },
                );
            },
        }
        assert(self@.transfers =~= old_view.transfers + payouts(match_id, old_view.matches[match_id], winner));
        m.state = MatchState::Completed;
        self.events.push(EscrowEvent::Completed { match_id, winner });
        self.matches.insert(match_id, m);
        assert(self@.matches =~= old_view.matches.insert(
            match_id,
            MatchView { state: MatchState::Completed, ..old_view.matches[match_id] },
        ));
        self.extend_ttl(EntryKey::Match(match_id));
        Ok(())
    }

    /// Either player (`caller`, who must authorize the call) calls off a
    /// pending match; whoever has deposited gets the stake back.
    pub fn cancel_match(&mut self, inv: &Invocation, match_id: u64, caller: Address) -> (r: Result<
        (),
        Failure<Error>,
    >)
        ensures
            r == cancel_match_result(old(self)@, *inv, match_id, caller),
            final(self)@ == cancel_match_next(old(self)@, *inv, match_id, caller),
    {
        let mut m = match self.matches.get(&match_id) {
            Some(m) => m.duplicate(),
            None => return Err(Failure::Contract(Error::MatchNotFound)),
        };
        if m.state != MatchState::Pending {
            return Err(Failure::Contract(Error::InvalidState));
        }
        if caller != m.player1 && caller != m.player2 {
            return Err(Failure::Contract(Error::Unauthorized));
        }
        if !inv.is_authorized_by(caller) {
            return Err(Failure::MissingAuth(caller));
        }
        let ghost old_view = self@;
        if m.player1_deposited {
            self.transfers.push(
                Transfer::Payout { match_id, token: m.token, to: m.player1, amount: m.stake_amount },
            );
        }
        if m.player2_deposited {
            self.transfers.push(
                Transfer::Payout { match_id, token: m.token, to: m.player2, amount: m.stake_amount },
            );
        }
        assert(self@.transfers =~= old_view.transfers + refunds(match_id, old_view.matches[match_id]));
        m.state = MatchState::Cancelled;
        self.events.push(EscrowEvent::Cancelled { match_id });
        self.matches.insert(match_id, m);
        assert(self@.matches =~= old_view.matches.insert(
            match_id,
            MatchView { state: MatchState::Cancelled, ..old_view.matches[match_id] },
        ));
        self.extend_ttl(EntryKey::Match(match_id));
        Ok(())
    }

    /// The match record.
    pub fn get_match(&self, match_id: u64) -> (r: Result<Match, Error>)
        ensures
            (match r {
                Ok(m) => Ok(m@),
                Err(e) => Err(e),
            }) == get_match_result(self@, match_id),
    {
        match self.matches.get(&match_id) {
            Some(m) => Ok(m.duplicate()),
            None => Err(Error::MatchNotFound),
        }
    }

    /// Whether both players have deposited.
    pub fn is_funded(&self, match_id: u64) -> (r: Result<bool, Error>)
        ensures
            r == is_funded_result(self@, match_id),
    {
        match self.matches.get(&match_id) {
            Some(m) => Ok(m.player1_deposited && m.player2_deposited),
            None => Err(Error::MatchNotFound),
        }
    }

    /// The tokens the escrow holds for the match: nothing once it is closed,
    /// else the stake times the number of players who have deposited.
    pub fn get_escrow_balance(&self, match_id: u64) -> (r: Result<i128, Error>)
        requires
            !balance_overflows(self@, match_id),
        ensures
            r == escrow_balance_result(self@, match_id),
    {
        let m = match self.matches.get(&match_id) {
            Some(m) => m,
            None => return Err(Error::MatchNotFound),
        };
        if m.state == MatchState::Completed || m.state == MatchState::Cancelled {
            return Ok(0);
        }
        let deposited: i128 = match (m.player1_deposited, m.player2_deposited) {
            (true, true) => 2,
            (true, false) | (false, true) => 1,
            (false, false) => 0,
        };
        Ok(deposited * m.stake_amount)
    }

    /// Whether the match exists, both players have deposited, and twice its
    /// stake does not fit in an i128: the one case where paying out its pot
    /// or reporting its balance overflows.
    pub fn pot_overflows(&self, match_id: u64) -> (r: bool)
        ensures
            r == (self@.matches.contains_key(match_id) && deposit_count(self@.matches[match_id]) == 2
                && !pot_fits(self@.matches[match_id])),
    {
        match self.matches.get(&match_id) {
            Some(m) => m.player1_deposited && m.player2_deposited && m.stake_amount.checked_mul(2).is_none(),
            None => false,
        }
    }

    /// Whether `submit_result` with these arguments would pass every check
    /// and then have to pay a whole pot that does not fit in an i128: the
    /// inputs that `submit_result` does not take.
    pub fn settlement_overflows(
        &self,
        inv: &Invocation,
        match_id: u64,
        game_id: &Vec<u8>,
        winner: Winner,
        caller: Address,
    ) -> (r: bool)
        ensures
            r == settlement_overflows(self@, *inv, match_id, game_id@, winner, caller),
    {
        if self.paused {
            return false;
        }
        match self.oracle {
            None => return false,
            Some(oracle) => if oracle != caller {
                return false;
            },
        }
        if !inv.is_authorized_by(caller) {
            return false;
        }
        let m = match self.matches.get(&match_id) {
            Some(m) => m,
            None => return false,
        };
        if !same_bytes(&m.game_id, game_id) || m.state != MatchState::Active {
            return false;
        }
        if !(m.player1_deposited && m.player2_deposited) {
            return false;
        }
        match winner {
            Winner::Draw => false,
            _ => m.stake_amount.checked_mul(2).is_none(),
        }
    }

    /// The events published so far, oldest first.
    pub fn events(&self) -> (r: &Vec<EscrowEvent>)
        ensures
            r@ == self@.events,
    {
        &self.events
    }

    /// The token transfers made so far, oldest first.
    pub fn transfers(&self) -> (r: &Vec<Transfer>)
        ensures
            r@ == self@.transfers,
    {
        &self.transfers
    }

    /// The time-to-live extensions asked for so far, oldest first.
    pub fn ttl_extensions(&self) -> (r: &Vec<TtlExtension>)
        ensures
            r@.map_values(|e: TtlExtension| e@) == self@.ttl_extensions,
    {
        &self.ttl_extensions
    }
}

} // verus!
