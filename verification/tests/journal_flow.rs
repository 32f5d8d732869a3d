use derived_records::journal::Journal;
use derived_records::store::Record;
use derived_records::store::Store;
use derived_records::ErrorCode;
use derived_records::Identity;

fn id(n: u8) -> Identity {
    Identity { bytes: [n; 32] }
}

fn funded_store() -> Store {
    let mut store = Store::new(id(9));
    store.add_wallet(id(1), 1_000_000_000).unwrap();
    store
}

fn journal_index(store: &Store) -> usize {
    for i in 0..store.accounts.len() {
        if let Some(Record::Journal(_)) = &store.accounts[i].record {
            return i;
        }
    }
    panic!("no journal account");
}

fn journal_of(store: &Store) -> &Journal {
    let i = journal_index(store);
    match &store.accounts[i].record {
        Some(Record::Journal(j)) => j,
        _ => panic!("no journal account"),
    }
}

#[test]
fn fresh_journal_reads_streak_zero() {
    let mut store = funded_store();
    store.initialize_journal(id(1), 777).unwrap();
    let (owner, streak) = store.get_streak(id(1)).unwrap();
    assert_eq!(owner.bytes, [1; 32]);
    assert_eq!(streak, 0);
    let j = journal_of(&store);
    assert_eq!(j.last_logged, 0);
    assert_eq!(j.created_at, 777);
    assert!(j.ideas.is_empty());
}

#[test]
fn first_idea_sets_streak_one_regardless_of_time() {
    for now in [0i64, 1, 86_401, 1_000_000_000] {
        let mut store = funded_store();
        store.initialize_journal(id(1), 0).unwrap();
        store.log_idea(id(1), b"an idea".to_vec(), now).unwrap();
        let (_, streak) = store.get_streak(id(1)).unwrap();
        assert_eq!(streak, 1);
    }
}

#[test]
fn streak_scenario_increment_then_reset() {
    let mut store = funded_store();
    store.initialize_journal(id(1), 0).unwrap();
    store.log_idea(id(1), b"idea1".to_vec(), 1).unwrap();
    assert_eq!(store.get_streak(id(1)).unwrap().1, 1);
    // elapsed 3600 s, within the window
    store.log_idea(id(1), b"idea2".to_vec(), 3601).unwrap();
    assert_eq!(store.get_streak(id(1)).unwrap().1, 2);
    // elapsed 96400 s > 86400 s: the streak starts over
    store.log_idea(id(1), b"idea3".to_vec(), 100_001).unwrap();
    assert_eq!(store.get_streak(id(1)).unwrap().1, 1);
}

#[test]
fn logging_at_time_zero_keeps_journal_fresh() {
    // a log stamped 0 is indistinguishable from "never logged", so the
    // next entry counts as first-ever again
    let mut store = funded_store();
    store.initialize_journal(id(1), 0).unwrap();
    store.log_idea(id(1), b"at zero".to_vec(), 0).unwrap();
    assert_eq!(store.get_streak(id(1)).unwrap().1, 1);
    store.log_idea(id(1), b"soon after".to_vec(), 3600).unwrap();
    assert_eq!(store.get_streak(id(1)).unwrap().1, 1);
}

#[test]
fn streak_window_boundary_is_non_strict() {
    let mut store = funded_store();
    store.initialize_journal(id(1), 0).unwrap();
    store.log_idea(id(1), b"a".to_vec(), 100).unwrap();
    // exactly 86400 s later still counts as within the window
    store.log_idea(id(1), b"b".to_vec(), 100 + 86_400).unwrap();
    assert_eq!(store.get_streak(id(1)).unwrap().1, 2);
    // one second more resets
    store.log_idea(id(1), b"c".to_vec(), 100 + 86_400 + 86_401).unwrap();
    assert_eq!(store.get_streak(id(1)).unwrap().1, 1);
}

#[test]
fn out_of_order_timestamp_still_increments() {
    // the window test is not guarded against now < last_logged
    let mut store = funded_store();
    store.initialize_journal(id(1), 0).unwrap();
    store.log_idea(id(1), b"later".to_vec(), 1000).unwrap();
    store.log_idea(id(1), b"earlier".to_vec(), 50).unwrap();
    assert_eq!(store.get_streak(id(1)).unwrap().1, 2);
}

#[test]
fn history_keeps_last_twenty_in_order() {
    let mut store = funded_store();
    store.initialize_journal(id(1), 0).unwrap();
    for n in 1..=21u32 {
        let text = format!("idea{}", n).into_bytes();
        store.log_idea(id(1), text, n as i64).unwrap();
    }
    let j = journal_of(&store);
    assert_eq!(j.ideas.len(), 20);
    for (k, entry) in j.ideas.iter().enumerate() {
        let expected = format!("idea{}", k + 2).into_bytes();
        assert_eq!(entry.text, expected);
        assert_eq!(entry.timestamp, (k + 2) as i64);
    }
    assert!(j.ideas.iter().all(|e| e.text != b"idea1".to_vec()));
    assert_eq!(j.last_idea, b"idea21".to_vec());
}

#[test]
fn overlong_idea_rejected_and_state_untouched() {
    let mut store = funded_store();
    store.initialize_journal(id(1), 0).unwrap();
    store.log_idea(id(1), b"kept".to_vec(), 10).unwrap();
    let text = vec![b'x'; 281];
    let r = store.log_idea(id(1), text, 20);
    assert_eq!(r, Err(ErrorCode::IdeaTooLong));
    let j = journal_of(&store);
    assert_eq!(j.streak, 1);
    assert_eq!(j.last_logged, 10);
    assert_eq!(j.ideas.len(), 1);
    assert_eq!(j.last_idea, b"kept".to_vec());
}

#[test]
fn max_length_idea_accepted() {
    let mut store = funded_store();
    store.initialize_journal(id(1), 0).unwrap();
    let text = vec![b'x'; 280];
    store.log_idea(id(1), text.clone(), 5).unwrap();
    assert_eq!(journal_of(&store).last_idea, text);
}

#[test]
fn blank_idea_rejected() {
    let mut store = funded_store();
    store.initialize_journal(id(1), 0).unwrap();
    assert_eq!(store.log_idea(id(1), b"".to_vec(), 1), Err(ErrorCode::EmptyIdea));
    assert_eq!(store.log_idea(id(1), b" \t\r\n ".to_vec(), 1), Err(ErrorCode::EmptyIdea));
    assert_eq!(store.get_streak(id(1)).unwrap().1, 0);
}

#[test]
fn journal_already_exists() {
    let mut store = funded_store();
    store.initialize_journal(id(1), 0).unwrap();
    assert_eq!(store.initialize_journal(id(1), 5), Err(ErrorCode::AlreadyExists));
}

#[test]
fn journal_needs_funded_wallet() {
    let mut store = Store::new(id(9));
    assert_eq!(store.initialize_journal(id(1), 0), Err(ErrorCode::RecordNotFound));
    store.add_wallet(id(1), 0).unwrap();
    assert_eq!(store.initialize_journal(id(1), 0), Err(ErrorCode::InsufficientBalance));
}

#[test]
fn log_idea_without_journal_not_found() {
    let mut store = funded_store();
    assert_eq!(store.log_idea(id(1), b"hi".to_vec(), 0), Err(ErrorCode::RecordNotFound));
    assert!(matches!(store.get_streak(id(1)), Err(ErrorCode::RecordNotFound)));
}

#[test]
fn tampered_owner_is_unauthorized() {
    let mut store = funded_store();
    store.initialize_journal(id(1), 0).unwrap();
    let i = journal_index(&store);
    match &mut store.accounts[i].record {
        Some(Record::Journal(j)) => j.owner = id(5),
        _ => panic!("no journal account"),
    }
    assert_eq!(store.log_idea(id(1), b"hi".to_vec(), 0), Err(ErrorCode::Unauthorized));
    assert_eq!(store.get_streak(id(1)), Err(ErrorCode::Unauthorized));
}

#[test]
fn journal_address_matches_platform_derivation() {
    let mut store = funded_store();
    store.initialize_journal(id(1), 0).unwrap();
    let i = journal_index(&store);
    let pid = anchor_lang::solana_program::pubkey::Pubkey::new_from_array([9; 32]);
    let (expected, _bump) = anchor_lang::solana_program::pubkey::Pubkey::find_program_address(
        &[b"journal", &[1u8; 32]],
        &pid,
    );
    assert_eq!(store.accounts[i].address.bytes, expected.to_bytes());
}

#[test]
fn journal_funding_matches_platform_rent() {
    let mut store = funded_store();
    store.initialize_journal(id(1), 0).unwrap();
    let i = journal_index(&store);
    let rent = anchor_lang::solana_program::rent::Rent::default();
    let expected = rent.minimum_balance(6192);
    assert_eq!(store.accounts[i].lamports, expected);
    assert_eq!(store.accounts[0].lamports, 1_000_000_000 - expected);
    assert_eq!(store.total_lamports, 1_000_000_000);
}
