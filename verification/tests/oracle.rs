use smile4money::invocation::{Address, AddressKind, Failure, Invocation};
use smile4money::oracle::{
    EntryKey, Error, MatchResult, OracleContract, OracleEvent, TtlExtension, MATCH_TTL_LEDGERS,
};

/// The time to live the host gives a newly written persistent entry in a
/// default test environment.
const FRESH_ENTRY_TTL: u32 = 4095;

/// The time to live an entry has after the host applies `x` to it, when it
/// had `ttl` ledgers left.
fn ttl_after(ttl: u32, x: &TtlExtension) -> u32 {
    if ttl < x.threshold {
        x.extend_to
    } else {
        ttl
    }
}

fn account(n: u128) -> Address {
    Address { kind: AddressKind::Account, key_hi: 0, key_lo: n }
}

fn signed(by: &[Address]) -> Invocation {
    Invocation { signers: by.to_vec(), ledger_sequence: 0 }
}

fn gid(s: &str) -> Vec<u8> {
    s.as_bytes().to_vec()
}

fn setup() -> (OracleContract, Address) {
    let admin = account(1);
    let mut oracle = OracleContract::new();
    oracle.initialize(admin).unwrap();
    (oracle, admin)
}

#[test]
fn test_submit_and_get_result() {
    let (mut oracle, admin) = setup();
    assert!(!oracle.has_result(0));
    oracle.submit_result(&signed(&[admin]), 0, gid("abc123"), MatchResult::Player1Wins).unwrap();
    assert!(oracle.has_result(0));
    assert_eq!(oracle.get_result(0).unwrap().result, MatchResult::Player1Wins);

    // TTL must be extended
    let asked = oracle.ttl_extensions();
    assert_eq!(asked.len(), 1);
    assert_eq!(asked[0].key, EntryKey::Result(0));
    let ttl = ttl_after(FRESH_ENTRY_TTL, &asked[0]);
    assert_eq!(ttl, MATCH_TTL_LEDGERS);
}

#[test]
fn test_get_result_not_found() {
    let (oracle, _admin) = setup();
    assert!(matches!(oracle.get_result(999), Err(Error::ResultNotFound)));
}

#[test]
fn test_non_admin_cannot_submit_result() {
    let admin = account(1);
    let non_admin = account(2);
    let mut oracle = OracleContract::new();
    oracle.initialize(admin).unwrap();
    assert!(oracle
        .submit_result(&signed(&[non_admin]), 0, gid("game"), MatchResult::Player1Wins)
        .is_err());
}

#[test]
fn lib_test_double_initialize_fails() {
    let admin = account(1);
    let mut oracle = OracleContract::new();
    oracle.initialize(admin).unwrap();
    assert_eq!(oracle.initialize(admin), Err(Error::AlreadyInitialized));
}

#[test]
#[should_panic(expected = "Error(Contract, #2)")]
fn test_duplicate_submit_fails() {
    let (mut oracle, admin) = setup();
    let inv = signed(&[admin]);
    let first = oracle.submit_result(&inv, 0, gid("abc123"), MatchResult::Draw);
    assert_eq!(first, Ok(()));
    if let Err(Failure::Contract(e)) = oracle.submit_result(&inv, 0, gid("abc123"), MatchResult::Draw) {
        panic!("HostError: Error(Contract, #{})", e.code());
    }
}

#[test]
fn test_has_result_false_for_non_existent() {
    let (oracle, _admin) = setup();
    assert!(!oracle.has_result(999));
}

#[test]
fn test_transfer_admin_success() {
    let (mut oracle, admin) = setup();
    let new_admin = account(2);
    oracle.transfer_admin(&signed(&[admin, new_admin]), new_admin).unwrap();
    oracle
        .submit_result(&signed(&[admin, new_admin]), 1, gid("game1"), MatchResult::Player2Wins)
        .unwrap();
    assert_eq!(oracle.get_result(1).unwrap().result, MatchResult::Player2Wins);
}

#[test]
fn test_transfer_admin_emits_event() {
    let (mut oracle, admin) = setup();
    let new_admin = account(2);
    oracle.transfer_admin(&signed(&[admin]), new_admin).unwrap();
    assert!(oracle
        .events()
        .iter()
        .any(|e| matches!(e, OracleEvent::AdminTransferred { .. })));
}

#[test]
fn test_non_admin_cannot_transfer_admin() {
    let admin = account(1);
    let non_admin = account(2);
    let new_admin = account(3);
    let mut oracle = OracleContract::new();
    oracle.initialize(admin).unwrap();
    assert!(oracle.transfer_admin(&signed(&[non_admin]), new_admin).is_err());
}

#[test]
fn test_initialize_emits_event() {
    let admin = account(1);
    let mut oracle = OracleContract::new();
    oracle.initialize(admin).unwrap();
    let matched = oracle.events().iter().find(|e| matches!(e, OracleEvent::Initialized { .. }));
    assert!(matched.is_some());
}

// ---------------------------------------------------------------------------

#[test]
fn duplicate_submit_is_refused_with_code_2() {
    let (mut oracle, admin) = setup();
    let inv = signed(&[admin]);
    oracle.submit_result(&inv, 0, gid("abc123"), MatchResult::Draw).unwrap();
    let r = oracle.submit_result(&inv, 0, gid("abc123"), MatchResult::Draw);
    assert_eq!(r, Err(Failure::Contract(Error::AlreadySubmitted)));
    assert_eq!(Error::AlreadySubmitted.code(), 2);
}

#[test]
fn recorded_result_is_never_replaced() {
    let (mut oracle, admin) = setup();
    let inv = signed(&[admin]);
    oracle.submit_result(&inv, 7, gid("g7"), MatchResult::Player1Wins).unwrap();
    let _ = oracle.submit_result(&inv, 7, gid("other"), MatchResult::Player2Wins);
    oracle.transfer_admin(&inv, account(9)).unwrap();
    let e = oracle.get_result(7).unwrap();
    assert_eq!(e.game_id, gid("g7"));
    assert_eq!(e.result, MatchResult::Player1Wins);
}

#[test]
fn submit_before_initialize_is_unauthorized() {
    let mut oracle = OracleContract::new();
    let anyone = account(5);
    assert_eq!(
        oracle.submit_result(&signed(&[anyone]), 0, gid("g"), MatchResult::Draw),
        Err(Failure::Contract(Error::Unauthorized))
    );
    assert_eq!(
        oracle.transfer_admin(&signed(&[anyone]), anyone),
        Err(Failure::Contract(Error::Unauthorized))
    );
}

#[test]
fn game_id_longer_than_64_bytes_is_refused() {
    let (mut oracle, admin) = setup();
    let inv = signed(&[admin]);
    let long = vec![b'x'; 65];
    assert_eq!(
        oracle.submit_result(&inv, 3, long, MatchResult::Draw),
        Err(Failure::Contract(Error::InvalidGameId))
    );
    assert!(!oracle.has_result(3));
    let exact = vec![b'x'; 64];
    assert_eq!(oracle.submit_result(&inv, 3, exact, MatchResult::Draw), Ok(()));
    assert_eq!(Error::InvalidGameId.code(), 5);
}

#[test]
fn non_admin_submit_is_refused_by_the_host_and_changes_nothing() {
    let (mut oracle, _admin) = setup();
    let n_events = oracle.events().len();
    assert_eq!(
        oracle.submit_result(&signed(&[account(8)]), 0, gid("g"), MatchResult::Draw),
        Err(Failure::MissingAuth(account(1)))
    );
    assert!(!oracle.has_result(0));
    assert_eq!(oracle.events().len(), n_events);
}

#[test]
fn events_carry_their_data() {
    let (mut oracle, admin) = setup();
    let new_admin = account(2);
    oracle.submit_result(&signed(&[admin]), 4, gid("g4"), MatchResult::Draw).unwrap();
    oracle.transfer_admin(&signed(&[admin]), new_admin).unwrap();
    assert_eq!(
        oracle.events().clone(),
        vec![
            OracleEvent::Initialized { admin },
            OracleEvent::ResultSubmitted { match_id: 4, result: MatchResult::Draw },
            OracleEvent::AdminTransferred { previous_admin: admin, new_admin },
        ]
    );
    // the old admin no longer acts
    assert_eq!(
        oracle.submit_result(&signed(&[admin]), 5, gid("g5"), MatchResult::Draw),
        Err(Failure::MissingAuth(new_admin))
    );
}

#[test]
fn error_codes() {
    assert_eq!(Error::Unauthorized.code(), 1);
    assert_eq!(Error::ResultNotFound.code(), 3);
    assert_eq!(Error::AlreadyInitialized.code(), 4);
}

#[test]
fn ttl_is_thirty_days_of_ledgers() {
    assert_eq!(MATCH_TTL_LEDGERS, 518_400);
    assert_eq!(MATCH_TTL_LEDGERS, 30 * 24 * 60 * 60 / 5);
}

#[test]
fn ttl_extension_keeps_a_longer_ttl() {
    let (mut oracle, admin) = setup();
    oracle.submit_result(&signed(&[admin]), 7, gid("g7"), MatchResult::Draw).unwrap();
    let x = oracle.ttl_extensions()[0];
    assert_eq!(x, TtlExtension { key: EntryKey::Result(7), threshold: 518_400, extend_to: 518_400 });
    assert_eq!(ttl_after(600_000, &x), 600_000);
    assert_eq!(ttl_after(518_399, &x), 518_400);
}

#[test]
fn refused_calls_ask_for_no_ttl_extension() {
    let (mut oracle, admin) = setup();
    let stranger = account(9);
    assert!(oracle.submit_result(&signed(&[stranger]), 0, gid("g"), MatchResult::Draw).is_err());
    assert!(oracle.submit_result(&signed(&[admin]), 0, vec![b'x'; 65], MatchResult::Draw).is_err());
    assert!(oracle.transfer_admin(&signed(&[admin]), stranger).is_ok());
    assert!(oracle.ttl_extensions().is_empty());
    oracle.submit_result(&signed(&[stranger]), 0, gid("g"), MatchResult::Draw).unwrap();
    assert!(oracle.submit_result(&signed(&[stranger]), 0, gid("g"), MatchResult::Draw).is_err());
    assert_eq!(oracle.ttl_extensions().len(), 1);
}
