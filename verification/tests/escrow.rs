use smile4money::escrow::{
    EntryKey, EscrowContract, EscrowEvent, Error, MatchState, Platform, Transfer, TtlExtension, Winner,
    MATCH_TTL_LEDGERS,
};
use smile4money::invocation::{Address, AddressKind, Failure, Invocation};

const LEDGER: u32 = 0;

/// The time to live the host gives a newly written persistent entry in a
/// default test environment.
const FRESH_ENTRY_TTL: u32 = 4095;

/// The time to live the host gives the entry `key` after applying, in
/// order, the extensions the contract asked for (all in one ledger).
fn host_ttl(asked: &[TtlExtension], key: &EntryKey) -> u32 {
    asked
        .iter()
        .filter(|x| x.key == *key)
        .fold(FRESH_ENTRY_TTL, |ttl, x| if ttl < x.threshold { x.extend_to } else { ttl })
}

/// How many extensions of `key` the contract has asked for.
fn times_extended(asked: &[TtlExtension], key: &EntryKey) -> usize {
    asked.iter().filter(|x| x.key == *key).count()
}

fn account(n: u128) -> Address {
    Address { kind: AddressKind::Account, key_hi: 0, key_lo: n }
}

fn contract_address(n: u128) -> Address {
    Address { kind: AddressKind::Contract, key_hi: 1, key_lo: n }
}

/// A call that every address in `by` has authorized.
fn signed(by: &[Address]) -> Invocation {
    Invocation { signers: by.to_vec(), ledger_sequence: LEDGER }
}

fn gid(s: &str) -> Vec<u8> {
    s.as_bytes().to_vec()
}

/// What the contract client does with a refused call: the host reports a
/// contract error by its code.
fn client_unwrap<T>(r: Result<T, Failure<Error>>) -> T {
    match r {
        Ok(v) => v,
        Err(Failure::Contract(e)) => panic!("HostError: Error(Contract, #{})", e.code()),
        Err(Failure::MissingAuth(a)) => panic!("HostError: Error(Auth, InvalidAction) for {:?}", a),
    }
}

struct Setup {
    escrow: EscrowContract,
    oracle: Address,
    player1: Address,
    player2: Address,
    token: Address,
    admin: Address,
}

impl Setup {
    /// A call authorized by every party of the setup.
    fn all(&self) -> Invocation {
        signed(&[self.admin, self.oracle, self.player1, self.player2])
    }

    /// What `who` holds of the token: the 1000 minted to it, less what it
    /// deposited, plus what it was paid.
    fn balance(&self, who: Address) -> i128 {
        let mut b: i128 = 1000;
        for t in self.escrow.transfers() {
            match *t {
                Transfer::Deposit { token, from, amount, .. } if token == self.token && from == who => b -= amount,
                Transfer::Payout { token, to, amount, .. } if token == self.token && to == who => b += amount,
                _ => {}
            }
        }
        b
    }

    fn create(&mut self, game: &str) -> u64 {
        let inv = self.all();
        self.escrow
            .create_match(&inv, self.player1, self.player2, 100, self.token, gid(game), Platform::Lichess)
            .unwrap()
    }
}

fn setup() -> Setup {
    let admin = account(1);
    let oracle = account(2);
    let player1 = account(3);
    let player2 = account(4);
    let token = contract_address(1);
    let mut escrow = EscrowContract::new();
    escrow.initialize(oracle, admin);
    Setup { escrow, oracle, player1, player2, token, admin }
}

#[test]
fn test_create_match() {
    let mut s = setup();
    let inv = s.all();
    let id = s
        .escrow
        .create_match(&inv, s.player1, s.player2, 100, s.token, gid("abc123"), Platform::Lichess)
        .unwrap();
    assert_eq!(id, 0);
    let m = s.escrow.get_match(id).unwrap();
    assert_eq!(m.state, MatchState::Pending);
    assert_eq!(m.created_ledger, LEDGER);
}

#[test]
fn test_get_match_not_found() {
    let s = setup();
    assert!(matches!(s.escrow.get_match(999), Err(Error::MatchNotFound)));
}

#[test]
fn test_deposit_and_activate() {
    let mut s = setup();
    let id = s.create("abc123");
    let inv = s.all();
    s.escrow.deposit(&inv, id, s.player1).unwrap();
    assert!(!s.escrow.is_funded(id).unwrap());
    s.escrow.deposit(&inv, id, s.player2).unwrap();
    assert!(s.escrow.is_funded(id).unwrap());
    assert_eq!(s.escrow.get_escrow_balance(id).unwrap(), 200);
    assert_eq!(s.escrow.get_match(id).unwrap().state, MatchState::Active);
    assert_eq!(s.balance(s.player1), 900);
    assert_eq!(s.balance(s.player2), 900);
}

#[test]
fn test_payout_winner() {
    let mut s = setup();
    let id = s.create("game1");
    let inv = s.all();
    s.escrow.deposit(&inv, id, s.player1).unwrap();
    s.escrow.deposit(&inv, id, s.player2).unwrap();
    s.escrow.submit_result(&inv, id, gid("game1"), Winner::Player1, s.oracle).unwrap();
    assert_eq!(s.balance(s.player1), 1100);
    assert_eq!(s.balance(s.player2), 900);
    assert_eq!(s.escrow.get_match(id).unwrap().state, MatchState::Completed);
    assert_eq!(s.escrow.get_escrow_balance(id).unwrap(), 0);
}

#[test]
fn test_payout_winner_player2() {
    let mut s = setup();
    let id = s.create("game_player2");
    let inv = s.all();
    s.escrow.deposit(&inv, id, s.player1).unwrap();
    s.escrow.deposit(&inv, id, s.player2).unwrap();
    s.escrow.submit_result(&inv, id, gid("game_player2"), Winner::Player2, s.oracle).unwrap();
    assert_eq!(s.balance(s.player1), 900);
    assert_eq!(s.balance(s.player2), 1100);
    assert_eq!(s.escrow.get_match(id).unwrap().state, MatchState::Completed);
    assert_eq!(s.escrow.get_escrow_balance(id).unwrap(), 0);
}

#[test]
fn test_draw_refund() {
    let mut s = setup();
    let inv = s.all();
    let id = s
        .escrow
        .create_match(&inv, s.player1, s.player2, 100, s.token, gid("game2"), Platform::ChessDotCom)
        .unwrap();
    s.escrow.deposit(&inv, id, s.player1).unwrap();
    s.escrow.deposit(&inv, id, s.player2).unwrap();
    s.escrow.submit_result(&inv, id, gid("game2"), Winner::Draw, s.oracle).unwrap();
    assert_eq!(s.balance(s.player1), 1000);
    assert_eq!(s.balance(s.player2), 1000);
}

#[test]
fn test_cancel_refunds_depositor() {
    let mut s = setup();
    let id = s.create("game3");
    let inv = s.all();
    s.escrow.deposit(&inv, id, s.player1).unwrap();
    s.escrow.cancel_match(&inv, id, s.player1).unwrap();
    assert_eq!(s.balance(s.player1), 1000);
    assert_eq!(s.balance(s.player2), 1000);
    assert_eq!(s.escrow.get_match(id).unwrap().state, MatchState::Cancelled);
    assert_eq!(s.escrow.get_escrow_balance(id).unwrap(), 0);
}

#[test]
fn test_player2_can_cancel_pending_match() {
    let mut s = setup();
    let id = s.create("p2cancel");
    let inv = s.all();
    s.escrow.deposit(&inv, id, s.player2).unwrap();
    s.escrow.cancel_match(&inv, id, s.player2).unwrap();
    assert_eq!(s.balance(s.player2), 1000);
    assert_eq!(s.escrow.get_match(id).unwrap().state, MatchState::Cancelled);
}

#[test]
fn test_cancel_active_match_fails() {
    let mut s = setup();
    let id = s.create("active_cancel");
    let inv = s.all();
    s.escrow.deposit(&inv, id, s.player1).unwrap();
    s.escrow.deposit(&inv, id, s.player2).unwrap();
    assert_eq!(
        s.escrow.cancel_match(&inv, id, s.player1),
        Err(Failure::Contract(Error::InvalidState))
    );
}

#[test]
fn test_cancel_completed_match_fails() {
    let mut s = setup();
    let id = s.create("completed_cancel");
    let inv = s.all();
    s.escrow.deposit(&inv, id, s.player1).unwrap();
    s.escrow.deposit(&inv, id, s.player2).unwrap();
    s.escrow.submit_result(&inv, id, gid("completed_cancel"), Winner::Player1, s.oracle).unwrap();
    assert_eq!(
        s.escrow.cancel_match(&inv, id, s.player1),
        Err(Failure::Contract(Error::InvalidState))
    );
}

#[test]
fn test_deposit_into_completed_match_fails() {
    let mut s = setup();
    let id = s.create("completed_deposit");
    let inv = s.all();
    s.escrow.deposit(&inv, id, s.player1).unwrap();
    s.escrow.deposit(&inv, id, s.player2).unwrap();
    s.escrow.submit_result(&inv, id, gid("completed_deposit"), Winner::Player1, s.oracle).unwrap();
    assert_eq!(s.escrow.deposit(&inv, id, s.player1), Err(Failure::Contract(Error::InvalidState)));
}

#[test]
fn test_deposit_into_cancelled_match_fails() {
    let mut s = setup();
    let id = s.create("cancelled_deposit");
    let inv = s.all();
    s.escrow.cancel_match(&inv, id, s.player1).unwrap();
    assert_eq!(s.escrow.deposit(&inv, id, s.player1), Err(Failure::Contract(Error::InvalidState)));
}

#[test]
fn test_non_oracle_cannot_submit_result() {
    let mut s = setup();
    let id = s.create("unauth_oracle");
    let inv = s.all();
    s.escrow.deposit(&inv, id, s.player1).unwrap();
    s.escrow.deposit(&inv, id, s.player2).unwrap();
    let impostor = account(99);
    let inv = signed(&[s.admin, s.oracle, s.player1, s.player2, impostor]);
    assert_eq!(
        s.escrow.submit_result(&inv, id, gid("unauth_oracle"), Winner::Player1, impostor),
        Err(Failure::Contract(Error::Unauthorized))
    );
}

#[test]
fn test_submit_result_on_pending_match_fails() {
    let mut s = setup();
    let id = s.create("pending_submit");
    let inv = s.all();
    assert_eq!(
        s.escrow.submit_result(&inv, id, gid("pending_submit"), Winner::Player1, s.oracle),
        Err(Failure::Contract(Error::InvalidState))
    );
}

#[test]
fn test_submit_result_on_completed_match_fails() {
    let mut s = setup();
    let id = s.create("double_submit");
    let inv = s.all();
    s.escrow.deposit(&inv, id, s.player1).unwrap();
    s.escrow.deposit(&inv, id, s.player2).unwrap();
    s.escrow.submit_result(&inv, id, gid("double_submit"), Winner::Player1, s.oracle).unwrap();
    assert_eq!(
        s.escrow.submit_result(&inv, id, gid("double_submit"), Winner::Player2, s.oracle),
        Err(Failure::Contract(Error::InvalidState))
    );
}

#[test]
fn test_submit_result_wrong_game_id_fails() {
    let mut s = setup();
    let id = s.create("real_game");
    let inv = s.all();
    s.escrow.deposit(&inv, id, s.player1).unwrap();
    s.escrow.deposit(&inv, id, s.player2).unwrap();
    assert_eq!(
        s.escrow.submit_result(&inv, id, gid("wrong_game"), Winner::Player1, s.oracle),
        Err(Failure::Contract(Error::GameIdMismatch))
    );
}

#[test]
#[should_panic(expected = "Error(Contract, #10)")]
fn test_create_match_zero_stake_fails() {
    let mut s = setup();
    let inv = s.all();
    client_unwrap(s.escrow.create_match(&inv, s.player1, s.player2, 0, s.token, gid("zero_stake"), Platform::Lichess));
}

#[test]
fn test_create_match_self_match_fails() {
    let mut s = setup();
    let inv = s.all();
    assert_eq!(
        s.escrow.create_match(&inv, s.player1, s.player1, 100, s.token, gid("self_match"), Platform::Lichess),
        Err(Failure::Contract(Error::InvalidPlayers))
    );
}

#[test]
fn test_duplicate_game_id_rejected() {
    let mut s = setup();
    let player3 = account(5);
    let player4 = account(6);
    s.create("dup_game");
    let inv = signed(&[player3, player4]);
    assert_eq!(
        s.escrow.create_match(&inv, player3, player4, 100, s.token, gid("dup_game"), Platform::Lichess),
        Err(Failure::Contract(Error::DuplicateGameId))
    );
}

#[test]
#[should_panic(expected = "Error(Contract, #4)")]
fn test_unauthorized_player_cannot_cancel() {
    let mut s = setup();
    let id = s.create("unauth_cancel");
    let stranger = account(66);
    let inv = signed(&[s.admin, s.oracle, s.player1, s.player2, stranger]);
    client_unwrap(s.escrow.cancel_match(&inv, id, stranger));
}

#[test]
fn test_deposit_by_non_player_returns_unauthorized() {
    let mut s = setup();
    let id = s.create("unauth_deposit");
    let stranger = account(77);
    let inv = signed(&[s.admin, s.oracle, s.player1, s.player2, stranger]);
    assert_eq!(s.escrow.deposit(&inv, id, stranger), Err(Failure::Contract(Error::Unauthorized)));
}

#[test]
fn test_is_funded_false_after_one_deposit() {
    let mut s = setup();
    let id = s.create("one_deposit");
    let inv = s.all();
    s.escrow.deposit(&inv, id, s.player1).unwrap();
    assert!(!s.escrow.is_funded(id).unwrap());
    s.escrow.deposit(&inv, id, s.player2).unwrap();
    assert!(s.escrow.is_funded(id).unwrap());
}

#[test]
fn test_escrow_balance_stages() {
    let mut s = setup();
    let id = s.create("balance_stages");
    let inv = s.all();
    assert_eq!(s.escrow.get_escrow_balance(id).unwrap(), 0);
    s.escrow.deposit(&inv, id, s.player1).unwrap();
    assert_eq!(s.escrow.get_escrow_balance(id).unwrap(), 100);
    s.escrow.deposit(&inv, id, s.player2).unwrap();
    assert_eq!(s.escrow.get_escrow_balance(id).unwrap(), 200);
}

#[test]
fn test_draw_payout_exact_amounts() {
    let mut s = setup();
    let id = s.create("draw_exact");
    let inv = s.all();
    s.escrow.deposit(&inv, id, s.player1).unwrap();
    s.escrow.deposit(&inv, id, s.player2).unwrap();
    s.escrow.submit_result(&inv, id, gid("draw_exact"), Winner::Draw, s.oracle).unwrap();
    assert_eq!(s.balance(s.player1), 1000);
    assert_eq!(s.balance(s.player2), 1000);
    assert_eq!(s.escrow.get_escrow_balance(id).unwrap(), 0);
}

#[test]
fn test_update_oracle() {
    let mut s = setup();
    let new_oracle = account(50);
    let id = s.create("oracle_rotate");
    let inv = signed(&[s.admin, s.oracle, s.player1, s.player2, new_oracle]);
    s.escrow.deposit(&inv, id, s.player1).unwrap();
    s.escrow.deposit(&inv, id, s.player2).unwrap();
    s.escrow.update_oracle(&inv, new_oracle).unwrap();
    assert_eq!(
        s.escrow.submit_result(&inv, id, gid("oracle_rotate"), Winner::Player1, s.oracle),
        Err(Failure::Contract(Error::Unauthorized))
    );
    s.escrow.submit_result(&inv, id, gid("oracle_rotate"), Winner::Player1, new_oracle).unwrap();
    assert_eq!(s.escrow.get_match(id).unwrap().state, MatchState::Completed);
}

#[test]
fn test_pause_blocks_create_and_submit() {
    let mut s = setup();
    let id = s.create("paused_game");
    let inv = s.all();
    s.escrow.deposit(&inv, id, s.player1).unwrap();
    s.escrow.deposit(&inv, id, s.player2).unwrap();
    s.escrow.pause(&inv).unwrap();
    assert_eq!(
        s.escrow.create_match(&inv, s.player1, s.player2, 100, s.token, gid("paused2"), Platform::Lichess),
        Err(Failure::Contract(Error::ContractPaused))
    );
    assert_eq!(
        s.escrow.submit_result(&inv, id, gid("paused_game"), Winner::Player1, s.oracle),
        Err(Failure::Contract(Error::ContractPaused))
    );
    s.escrow.unpause(&inv).unwrap();
    let id2 = s
        .escrow
        .create_match(&inv, s.player1, s.player2, 100, s.token, gid("unpaused_game"), Platform::Lichess)
        .unwrap();
    assert_eq!(id2, 1);
}

#[test]
fn test_non_admin_cannot_pause() {
    let admin = account(1);
    let non_admin = account(2);
    let oracle = account(3);
    let mut escrow = EscrowContract::new();
    escrow.initialize(oracle, admin);
    assert!(escrow.pause(&signed(&[non_admin])).is_err());
}

#[test]
fn test_non_admin_cannot_update_oracle() {
    let admin = account(1);
    let non_admin = account(2);
    let oracle = account(3);
    let new_oracle = account(4);
    let mut escrow = EscrowContract::new();
    escrow.initialize(oracle, admin);
    assert!(escrow.update_oracle(&signed(&[non_admin]), new_oracle).is_err());
}

#[test]
fn test_create_match_emits_event() {
    let mut s = setup();
    let id = s.create("game_ev");
    let found = s
        .escrow
        .events()
        .iter()
        .find(|e| matches!(e, EscrowEvent::MatchCreated { .. }))
        .copied();
    assert!(found.is_some());
    assert_eq!(
        found.unwrap(),
        EscrowEvent::MatchCreated { match_id: id, player1: s.player1, player2: s.player2, stake_amount: 100 }
    );
}

#[test]
fn test_deposit_emits_event() {
    let mut s = setup();
    let id = s.create("deposit_ev");
    let inv = s.all();
    s.escrow.deposit(&inv, id, s.player1).unwrap();
    let found = s
        .escrow
        .events()
        .iter()
        .find(|e| matches!(e, EscrowEvent::Deposited { .. }))
        .copied();
    assert!(found.is_some());
    assert_eq!(found.unwrap(), EscrowEvent::Deposited { match_id: id, player: s.player1 });
}

#[test]
fn test_submit_result_emits_event() {
    let mut s = setup();
    let id = s.create("result_ev");
    let inv = s.all();
    s.escrow.deposit(&inv, id, s.player1).unwrap();
    s.escrow.deposit(&inv, id, s.player2).unwrap();
    s.escrow.submit_result(&inv, id, gid("result_ev"), Winner::Player1, s.oracle).unwrap();
    let found = s
        .escrow
        .events()
        .iter()
        .find(|e| matches!(e, EscrowEvent::Completed { .. }))
        .copied();
    assert!(found.is_some());
    assert_eq!(found.unwrap(), EscrowEvent::Completed { match_id: id, winner: Winner::Player1 });
}

#[test]
fn test_cancel_match_emits_event() {
    let mut s = setup();
    let id = s.create("cancel_ev");
    let inv = s.all();
    s.escrow.cancel_match(&inv, id, s.player1).unwrap();
    let found = s
        .escrow
        .events()
        .iter()
        .find(|e| matches!(e, EscrowEvent::Cancelled { .. }))
        .copied();
    assert!(found.is_some());
    assert_eq!(found.unwrap(), EscrowEvent::Cancelled { match_id: id });
}

#[test]
fn test_tc70a_game_id_too_long_rejected() {
    let mut s = setup();
    let inv = s.all();
    let long_id = gid("AAAAAAAAAAAAAAAAAAAAAAAAAAAAAAAAAAAAAAAAAAAAAAAAAAAAAAAAAAAAAAAAAAA");
    assert_eq!(
        s.escrow.create_match(&inv, s.player1, s.player2, 100, s.token, long_id, Platform::Lichess),
        Err(Failure::Contract(Error::InvalidGameId)),
        "game_id > 64 bytes must be rejected before any state write"
    );
    assert!(
        matches!(s.escrow.get_match(0), Err(Error::MatchNotFound)),
        "no match record must exist after a rejected create_match"
    );
}

#[test]
fn test_tc70a_self_match_invalid_players() {
    let mut s = setup();
    let inv = s.all();
    assert_eq!(
        s.escrow.create_match(&inv, s.player1, s.player1, 100, s.token, gid("self_game"), Platform::Lichess),
        Err(Failure::Contract(Error::InvalidPlayers)),
        "player1 == player2 must be rejected before any state write"
    );
}

#[test]
fn test_tc70b_unauthorized_submit_result() {
    let mut s = setup();
    let id = s.create("tc70b_game");
    let inv = s.all();
    s.escrow.deposit(&inv, id, s.player1).unwrap();
    s.escrow.deposit(&inv, id, s.player2).unwrap();
    let impostor = account(99);
    let inv2 = signed(&[s.admin, s.oracle, s.player1, s.player2, impostor]);
    assert_eq!(
        s.escrow.submit_result(&inv2, id, gid("tc70b_game"), Winner::Player1, impostor),
        Err(Failure::Contract(Error::Unauthorized)),
        "non-oracle caller must be rejected with Unauthorized"
    );
    assert_eq!(s.escrow.get_match(id).unwrap().state, MatchState::Active);
    s.escrow.submit_result(&inv, id, gid("tc70b_game"), Winner::Player1, s.oracle).unwrap();
    assert_eq!(s.escrow.get_match(id).unwrap().state, MatchState::Completed);
}

#[test]
fn test_tc70b_unauthorized_deposit() {
    let mut s = setup();
    let id = s.create("tc70b_dep");
    let stranger = account(77);
    let inv = signed(&[s.admin, s.oracle, s.player1, s.player2, stranger]);
    assert_eq!(
        s.escrow.deposit(&inv, id, stranger),
        Err(Failure::Contract(Error::Unauthorized)),
        "non-player deposit must be rejected with Unauthorized"
    );
    assert!(!s.escrow.is_funded(id).unwrap());
    assert_eq!(s.escrow.get_escrow_balance(id).unwrap(), 0);
}

#[test]
fn test_tc70c_zero_stake_rejected() {
    let mut s = setup();
    let inv = s.all();
    assert_eq!(
        s.escrow.create_match(&inv, s.player1, s.player2, 0, s.token, gid("zero_stake"), Platform::Lichess),
        Err(Failure::Contract(Error::InvalidAmount)),
        "zero stake must be rejected with InvalidAmount"
    );
    assert!(matches!(s.escrow.get_match(0), Err(Error::MatchNotFound)));
}

#[test]
fn test_tc70c_negative_stake_rejected() {
    let mut s = setup();
    let inv = s.all();
    assert_eq!(
        s.escrow.create_match(&inv, s.player1, s.player2, -1, s.token, gid("neg_stake"), Platform::Lichess),
        Err(Failure::Contract(Error::InvalidAmount)),
        "negative stake must be rejected with InvalidAmount"
    );
    assert!(matches!(s.escrow.get_match(0), Err(Error::MatchNotFound)));
}

#[test]
fn test_tc70_integration_guards_precede_payout() {
    let mut s = setup();
    let inv = s.all();
    let r1 = s.escrow.create_match(&inv, s.player1, s.player2, 0, s.token, gid("guard_order"), Platform::Lichess);
    assert_eq!(r1, Err(Failure::Contract(Error::InvalidAmount)));
    let long_id = gid("AAAAAAAAAAAAAAAAAAAAAAAAAAAAAAAAAAAAAAAAAAAAAAAAAAAAAAAAAAAAAAAAAAA");
    let r2 = s.escrow.create_match(&inv, s.player1, s.player2, 100, s.token, long_id, Platform::Lichess);
    assert_eq!(r2, Err(Failure::Contract(Error::InvalidGameId)));
    assert!(matches!(s.escrow.get_match(0), Err(Error::MatchNotFound)));
}

// ---------------------------------------------------------------------------

#[test]
fn zero_stake_is_refused_with_code_10() {
    let mut s = setup();
    let inv = s.all();
    let r = s.escrow.create_match(&inv, s.player1, s.player2, 0, s.token, gid("zero_stake"), Platform::Lichess);
    assert_eq!(r, Err(Failure::Contract(Error::InvalidAmount)));
    assert_eq!(Error::InvalidAmount.code(), 10);
}

#[test]
fn stranger_cannot_cancel_code_4() {
    let mut s = setup();
    let id = s.create("unauth_cancel");
    let stranger = account(88);
    let r = s.escrow.cancel_match(&signed(&[stranger]), id, stranger);
    assert_eq!(r, Err(Failure::Contract(Error::Unauthorized)));
    assert_eq!(Error::Unauthorized.code(), 4);
    assert_eq!(s.escrow.get_match(id).unwrap().state, MatchState::Pending);
}

#[test]
fn initialize_sets_up_once() {
    let mut escrow = EscrowContract::new();
    assert!(!escrow.is_initialized());
    escrow.initialize(account(2), account(1));
    assert!(escrow.is_initialized());
}

#[test]
fn cancel_with_no_deposit_moves_nothing_and_works_while_paused() {
    let mut s = setup();
    let id = s.create("cancel_paused");
    let inv = s.all();
    s.escrow.pause(&inv).unwrap();
    s.escrow.cancel_match(&inv, id, s.player2).unwrap();
    assert!(s.escrow.transfers().is_empty());
    assert_eq!(s.escrow.get_match(id).unwrap().state, MatchState::Cancelled);
}

#[test]
fn pause_blocks_deposit() {
    let mut s = setup();
    let id = s.create("pause_dep");
    let inv = s.all();
    s.escrow.pause(&inv).unwrap();
    assert_eq!(s.escrow.deposit(&inv, id, s.player1), Err(Failure::Contract(Error::ContractPaused)));
}

#[test]
fn second_deposit_by_same_player_is_already_funded() {
    let mut s = setup();
    let id = s.create("twice");
    let inv = s.all();
    s.escrow.deposit(&inv, id, s.player1).unwrap();
    assert_eq!(s.escrow.deposit(&inv, id, s.player1), Err(Failure::Contract(Error::AlreadyFunded)));
    assert_eq!(s.escrow.get_escrow_balance(id).unwrap(), 100);
}

#[test]
fn unsigned_calls_are_refused_by_the_host() {
    let mut s = setup();
    let nobody = signed(&[]);
    assert_eq!(
        s.escrow.create_match(&nobody, s.player1, s.player2, 100, s.token, gid("g"), Platform::Lichess),
        Err(Failure::MissingAuth(s.player1))
    );
    let id = s.create("signed_game");
    assert_eq!(s.escrow.deposit(&nobody, id, s.player1), Err(Failure::MissingAuth(s.player1)));
    assert_eq!(s.escrow.cancel_match(&nobody, id, s.player1), Err(Failure::MissingAuth(s.player1)));
    assert_eq!(s.escrow.pause(&nobody), Err(Failure::MissingAuth(s.admin)));
    let inv = s.all();
    s.escrow.deposit(&inv, id, s.player1).unwrap();
    s.escrow.deposit(&inv, id, s.player2).unwrap();
    assert_eq!(
        s.escrow.submit_result(&nobody, id, gid("signed_game"), Winner::Draw, s.oracle),
        Err(Failure::MissingAuth(s.oracle))
    );
}

#[test]
fn admin_calls_before_initialize_are_unauthorized() {
    let mut escrow = EscrowContract::new();
    let inv = signed(&[account(1)]);
    assert_eq!(escrow.pause(&inv), Err(Failure::Contract(Error::Unauthorized)));
    assert_eq!(escrow.update_oracle(&inv, account(2)), Err(Failure::Contract(Error::Unauthorized)));
}

#[test]
fn rejected_calls_change_nothing() {
    let mut s = setup();
    let id = s.create("nochange");
    let inv = s.all();
    let events = s.escrow.events().len();
    let _ = s.escrow.deposit(&inv, 42, s.player1);
    let _ = s.escrow.submit_result(&inv, id, gid("nochange"), Winner::Player1, s.oracle);
    let _ = s.escrow.cancel_match(&inv, id, account(90));
    assert_eq!(s.escrow.events().len(), events);
    assert!(s.escrow.transfers().is_empty());
    assert_eq!(s.escrow.get_match(id).unwrap().state, MatchState::Pending);
}

#[test]
fn deposit_events_come_in_order_and_funds_balance_out() {
    let mut s = setup();
    let id = s.create("order");
    let inv = s.all();
    s.escrow.deposit(&inv, id, s.player2).unwrap();
    s.escrow.deposit(&inv, id, s.player1).unwrap();
    let ev = s.escrow.events().clone();
    assert_eq!(
        ev[1..].to_vec(),
        vec![
            EscrowEvent::Deposited { match_id: id, player: s.player2 },
            EscrowEvent::Activated { match_id: id },
            EscrowEvent::Deposited { match_id: id, player: s.player1 },
        ]
    );
    s.escrow.submit_result(&inv, id, gid("order"), Winner::Player2, s.oracle).unwrap();
    assert_eq!(
        s.escrow.transfers().clone(),
        vec![
            Transfer::Deposit { match_id: id, token: s.token, from: s.player2, amount: 100 },
            Transfer::Deposit { match_id: id, token: s.token, from: s.player1, amount: 100 },
            Transfer::Payout { match_id: id, token: s.token, to: s.player2, amount: 200 },
        ]
    );
    let total_in: i128 = 200;
    assert_eq!(s.balance(s.player1) + s.balance(s.player2), 2000);
    assert_eq!(total_in, 200);
}

#[test]
fn match_ids_are_sequential_and_counter_overflow_is_reported() {
    let mut s = setup();
    assert_eq!(s.create("a"), 0);
    assert_eq!(s.create("b"), 1);
    assert_eq!(s.create("c"), 2);
    assert_eq!(Error::Overflow.code(), 8);
}

#[test]
fn game_id_of_exactly_64_bytes_is_accepted() {
    let mut s = setup();
    let inv = s.all();
    let g = vec![b'a'; 64];
    assert_eq!(
        s.escrow.create_match(&inv, s.player1, s.player2, 5, s.token, g.clone(), Platform::Lichess),
        Ok(0)
    );
    assert_eq!(s.escrow.get_match(0).unwrap().game_id, g);
    assert_eq!(s.escrow.get_match(0).unwrap().stake_amount, 5);
}

#[test]
fn pot_overflow_is_detected() {
    let mut s = setup();
    let inv = s.all();
    let big = i128::MAX / 2 + 1;
    let id = s
        .escrow
        .create_match(&inv, s.player1, s.player2, big, s.token, gid("big"), Platform::Lichess)
        .unwrap();
    s.escrow.deposit(&inv, id, s.player1).unwrap();
    assert!(!s.escrow.pot_overflows(id));
    s.escrow.deposit(&inv, id, s.player2).unwrap();
    assert!(s.escrow.pot_overflows(id));
    let small = s.create("small");
    assert!(!s.escrow.pot_overflows(small));
    assert!(!s.escrow.pot_overflows(999));
}

#[test]
fn escrow_error_codes() {
    assert_eq!(Error::MatchNotFound.code(), 1);
    assert_eq!(Error::AlreadyFunded.code(), 2);
    assert_eq!(Error::NotFunded.code(), 3);
    assert_eq!(Error::InvalidState.code(), 5);
    assert_eq!(Error::AlreadyExists.code(), 6);
    assert_eq!(Error::AlreadyInitialized.code(), 7);
    assert_eq!(Error::ContractPaused.code(), 9);
    assert_eq!(Error::InvalidGameId.code(), 11);
    assert_eq!(Error::InvalidPlayers.code(), 12);
    assert_eq!(Error::GameIdMismatch.code(), 13);
    assert_eq!(Error::DuplicateGameId.code(), 14);
}

#[test]
fn books_balance_per_match() {
    let mut s = setup();
    let a = s.create("m_a");
    let b = s.create("m_b");
    let c = s.create("m_c");
    let inv = s.all();
    s.escrow.deposit(&inv, a, s.player1).unwrap();
    s.escrow.deposit(&inv, b, s.player1).unwrap();
    s.escrow.deposit(&inv, b, s.player2).unwrap();
    s.escrow.deposit(&inv, c, s.player2).unwrap();
    s.escrow.cancel_match(&inv, a, s.player2).unwrap();
    s.escrow.submit_result(&inv, b, gid("m_b"), Winner::Draw, s.oracle).unwrap();
    for id in [a, b, c] {
        let mut flow: i128 = 0;
        for t in s.escrow.transfers() {
            match *t {
                Transfer::Deposit { match_id, amount, .. } if match_id == id => flow += amount,
                Transfer::Payout { match_id, amount, .. } if match_id == id => flow -= amount,
                _ => {}
            }
        }
        assert_eq!(flow, s.escrow.get_escrow_balance(id).unwrap());
    }
    assert_eq!(s.escrow.get_escrow_balance(c).unwrap(), 100);
    assert_eq!(s.escrow.get_escrow_balance(a).unwrap(), 0);
}

#[test]
fn test_ttl_extended_on_state_changes() {
    let mut s = setup();
    let inv = s.all();
    let id = s
        .escrow
        .create_match(&inv, s.player1, s.player2, 100, s.token, gid("ttl_game"), Platform::Lichess)
        .unwrap();
    let key = EntryKey::Match(id);

    assert_eq!(host_ttl(s.escrow.ttl_extensions(), &key), MATCH_TTL_LEDGERS);
    assert_eq!(times_extended(s.escrow.ttl_extensions(), &key), 1);

    s.escrow.deposit(&inv, id, s.player1).unwrap();
    assert_eq!(host_ttl(s.escrow.ttl_extensions(), &key), MATCH_TTL_LEDGERS);
    assert_eq!(times_extended(s.escrow.ttl_extensions(), &key), 2);

    s.escrow.deposit(&inv, id, s.player2).unwrap();
    assert_eq!(host_ttl(s.escrow.ttl_extensions(), &key), MATCH_TTL_LEDGERS);
    assert_eq!(times_extended(s.escrow.ttl_extensions(), &key), 3);

    s.escrow.submit_result(&inv, id, gid("ttl_game"), Winner::Player2, s.oracle).unwrap();
    assert_eq!(host_ttl(s.escrow.ttl_extensions(), &key), MATCH_TTL_LEDGERS);
    assert_eq!(times_extended(s.escrow.ttl_extensions(), &key), 4);
}

#[test]
fn create_match_extends_record_then_game_id_claim() {
    let mut s = setup();
    let id = s.create("claim");
    let asked = s.escrow.ttl_extensions();
    assert_eq!(
        asked.to_vec(),
        vec![
            TtlExtension { key: EntryKey::Match(id), threshold: 518_400, extend_to: 518_400 },
            TtlExtension { key: EntryKey::GameId(gid("claim")), threshold: 518_400, extend_to: 518_400 },
        ]
    );
    let inv = s.all();
    s.escrow.deposit(&inv, id, s.player1).unwrap();
    s.escrow.cancel_match(&inv, id, s.player1).unwrap();
    assert_eq!(times_extended(s.escrow.ttl_extensions(), &EntryKey::GameId(gid("claim"))), 1);
    assert_eq!(times_extended(s.escrow.ttl_extensions(), &EntryKey::Match(id)), 3);
}

#[test]
fn refused_and_admin_calls_ask_for_no_ttl_extension() {
    let mut s = setup();
    let inv = s.all();
    assert!(s.escrow.create_match(&inv, s.player1, s.player1, 100, s.token, gid("x"), Platform::Lichess).is_err());
    assert!(s.escrow.deposit(&inv, 42, s.player1).is_err());
    s.escrow.pause(&inv).unwrap();
    s.escrow.unpause(&inv).unwrap();
    s.escrow.update_oracle(&inv, account(7)).unwrap();
    assert!(s.escrow.ttl_extensions().is_empty());
}

#[test]
fn settlement_overflow_only_for_a_whole_pot_past_i128() {
    let mut s = setup();
    let inv = s.all();
    let id = s
        .escrow
        .create_match(&inv, s.player1, s.player2, i128::MAX, s.token, gid("huge"), Platform::Lichess)
        .unwrap();
    s.escrow.deposit(&inv, id, s.player1).unwrap();
    s.escrow.deposit(&inv, id, s.player2).unwrap();
    let g = gid("huge");
    assert!(s.escrow.settlement_overflows(&inv, id, &g, Winner::Player1, s.oracle));
    assert!(s.escrow.settlement_overflows(&inv, id, &g, Winner::Player2, s.oracle));
    assert!(!s.escrow.settlement_overflows(&inv, id, &g, Winner::Draw, s.oracle));
    assert!(!s.escrow.settlement_overflows(&inv, id, &gid("other"), Winner::Player1, s.oracle));
    assert!(!s.escrow.settlement_overflows(&inv, id, &g, Winner::Player1, s.player1));
    assert!(!s.escrow.settlement_overflows(&signed(&[s.player1]), id, &g, Winner::Player1, s.oracle));
    let small = s.create("small");
    s.escrow.deposit(&inv, small, s.player1).unwrap();
    s.escrow.deposit(&inv, small, s.player2).unwrap();
    assert!(!s.escrow.settlement_overflows(&inv, small, &gid("small"), Winner::Player1, s.oracle));
    s.escrow.submit_result(&inv, id, g, Winner::Draw, s.oracle).unwrap();
    // The draw gave the huge stake back; only the small one is still held.
    assert_eq!(s.balance(s.player1), 900);
}
