use derived_records::social::ReactionKind;
use derived_records::social::Tweet;
use derived_records::store::Record;
use derived_records::store::Store;
use derived_records::ErrorCode;
use derived_records::Identity;

fn id(n: u8) -> Identity {
    Identity { bytes: [n; 32] }
}

fn tweet_index(store: &Store) -> usize {
    for i in 0..store.accounts.len() {
        if let Some(Record::Tweet(_)) = &store.accounts[i].record {
            return i;
        }
    }
    panic!("no tweet account");
}

fn tweet_counters(store: &Store) -> (u64, u64) {
    let i = tweet_index(store);
    match &store.accounts[i].record {
        Some(Record::Tweet(t)) => (t.likes, t.dislikes),
        _ => panic!("no tweet account"),
    }
}

fn reaction_count(store: &Store) -> usize {
    store
        .accounts
        .iter()
        .filter(|a| matches!(a.record, Some(Record::Reaction(_))))
        .count()
}

fn comment_count(store: &Store) -> usize {
    store
        .accounts
        .iter()
        .filter(|a| matches!(a.record, Some(Record::Comment(_))))
        .count()
}

/// A store with two author wallets and one tweet record at address 7,
/// paid for by the first author.
fn tweet_setup() -> (Store, Identity) {
    let mut store = Store::new(id(9));
    store.add_wallet(id(1), 500_000_000).unwrap();
    store.add_wallet(id(2), 500_000_000).unwrap();
    let tweet_address = id(7);
    store
        .create(tweet_address, id(1), Record::Tweet(Tweet { likes: 0, dislikes: 0 }))
        .unwrap();
    (store, tweet_address)
}

fn comment_pda(author: u8, content: &[u8], tweet: u8) -> Identity {
    let pid = anchor_lang::solana_program::pubkey::Pubkey::new_from_array([9; 32]);
    let digest = anchor_lang::solana_program::hash::hash(content).to_bytes();
    let (pda, _bump) = anchor_lang::solana_program::pubkey::Pubkey::find_program_address(
        &[b"comment", &[author; 32], &digest, &[tweet; 32]],
        &pid,
    );
    Identity { bytes: pda.to_bytes() }
}

#[test]
fn second_reaction_same_pair_rejected_counter_once() {
    let (mut store, tweet_address) = tweet_setup();
    store.add_reaction(id(1), tweet_address, ReactionKind::Like).unwrap();
    assert_eq!(tweet_counters(&store), (1, 0));
    assert_eq!(reaction_count(&store), 1);
    let r = store.add_reaction(id(1), tweet_address, ReactionKind::Like);
    assert_eq!(r, Err(ErrorCode::AlreadyExists));
    assert_eq!(tweet_counters(&store), (1, 0));
    assert_eq!(reaction_count(&store), 1);
    // even with the other kind: the address depends on (author, parent) only
    let r = store.add_reaction(id(1), tweet_address, ReactionKind::Dislike);
    assert_eq!(r, Err(ErrorCode::AlreadyExists));
    assert_eq!(tweet_counters(&store), (1, 0));
}

#[test]
fn distinct_authors_react_independently() {
    let (mut store, tweet_address) = tweet_setup();
    store.add_reaction(id(1), tweet_address, ReactionKind::Like).unwrap();
    store.add_reaction(id(2), tweet_address, ReactionKind::Dislike).unwrap();
    assert_eq!(tweet_counters(&store), (1, 1));
    assert_eq!(reaction_count(&store), 2);
}

#[test]
fn reaction_overflow_fails_but_record_persists() {
    let mut store = Store::new(id(9));
    store.add_wallet(id(1), 500_000_000).unwrap();
    let tweet_address = id(7);
    store
        .create(
            tweet_address,
            id(1),
            Record::Tweet(Tweet { likes: u64::MAX, dislikes: 3 }),
        )
        .unwrap();
    let r = store.add_reaction(id(1), tweet_address, ReactionKind::Like);
    assert_eq!(r, Err(ErrorCode::MaxReached));
    // the reaction record was created before the increment was attempted
    assert_eq!(reaction_count(&store), 1);
    assert_eq!(tweet_counters(&store), (u64::MAX, 3));
}

#[test]
fn reaction_on_missing_tweet_not_found() {
    let mut store = Store::new(id(9));
    store.add_wallet(id(1), 500_000_000).unwrap();
    let r = store.add_reaction(id(1), id(7), ReactionKind::Like);
    assert_eq!(r, Err(ErrorCode::RecordNotFound));
}

#[test]
fn reaction_address_matches_platform_derivation() {
    let (mut store, tweet_address) = tweet_setup();
    store.add_reaction(id(1), tweet_address, ReactionKind::Like).unwrap();
    let pid = anchor_lang::solana_program::pubkey::Pubkey::new_from_array([9; 32]);
    let (expected, bump) = anchor_lang::solana_program::pubkey::Pubkey::find_program_address(
        &[b"reaction", &[1u8; 32], &[7u8; 32]],
        &pid,
    );
    let found = store.accounts.iter().any(|a| a.address.bytes == expected.to_bytes());
    assert!(found);
    for a in &store.accounts {
        if let Some(Record::Reaction(re)) = &a.record {
            assert_eq!(a.address.bytes, expected.to_bytes());
            assert_eq!(re.bump, bump);
            assert_eq!(re.reaction_author.bytes, [1; 32]);
            assert_eq!(re.parent_tweet.bytes, [7; 32]);
            assert!(matches!(re.reaction, ReactionKind::Like));
        }
    }
}

#[test]
fn comment_created_at_recomputed_address() {
    let (mut store, tweet_address) = tweet_setup();
    let addr = comment_pda(1, b"nice post", 7);
    store.add_comment(id(1), addr, tweet_address, b"nice post".to_vec()).unwrap();
    assert_eq!(comment_count(&store), 1);
    for a in &store.accounts {
        if let Some(Record::Comment(c)) = &a.record {
            assert_eq!(a.address.bytes, addr.bytes);
            assert_eq!(c.content, b"nice post".to_vec());
            assert_eq!(c.comment_author.bytes, [1; 32]);
            assert_eq!(c.parent_tweet.bytes, [7; 32]);
        }
    }
}

#[test]
fn comment_with_wrong_address_mismatches() {
    let (mut store, tweet_address) = tweet_setup();
    let r = store.add_comment(id(1), id(5), tweet_address, b"nice post".to_vec());
    assert_eq!(r, Err(ErrorCode::AddressMismatch));
    assert_eq!(comment_count(&store), 0);
}

#[test]
fn identical_comment_deduplicated_per_author_per_parent() {
    let (mut store, tweet_address) = tweet_setup();
    let addr = comment_pda(1, b"same words", 7);
    store.add_comment(id(1), addr, tweet_address, b"same words".to_vec()).unwrap();
    let r = store.add_comment(id(1), addr, tweet_address, b"same words".to_vec());
    assert_eq!(r, Err(ErrorCode::AlreadyExists));
    assert_eq!(comment_count(&store), 1);
    // other content or another author lands elsewhere
    let addr2 = comment_pda(1, b"other words", 7);
    store.add_comment(id(1), addr2, tweet_address, b"other words".to_vec()).unwrap();
    let addr3 = comment_pda(2, b"same words", 7);
    store.add_comment(id(2), addr3, tweet_address, b"same words".to_vec()).unwrap();
    assert_eq!(comment_count(&store), 3);
}

#[test]
fn overlong_comment_rejected() {
    let (mut store, tweet_address) = tweet_setup();
    let content = vec![b'y'; 281];
    let addr = comment_pda(1, &content, 7);
    let r = store.add_comment(id(1), addr, tweet_address, content);
    assert_eq!(r, Err(ErrorCode::CommentTooLong));
    assert_eq!(comment_count(&store), 0);
}

#[test]
fn comment_on_missing_tweet_not_found() {
    let mut store = Store::new(id(9));
    store.add_wallet(id(1), 500_000_000).unwrap();
    let addr = comment_pda(1, b"hello", 7);
    let r = store.add_comment(id(1), addr, id(7), b"hello".to_vec());
    assert_eq!(r, Err(ErrorCode::RecordNotFound));
}

#[test]
fn broke_author_cannot_react() {
    let (mut store, tweet_address) = tweet_setup();
    store.add_wallet(id(4), 10).unwrap();
    let r = store.add_reaction(id(4), tweet_address, ReactionKind::Like);
    assert_eq!(r, Err(ErrorCode::InsufficientBalance));
    assert_eq!(tweet_counters(&store), (0, 0));
    assert_eq!(reaction_count(&store), 0);
}
