use derived_records::store::Record;
use derived_records::store::Store;
use derived_records::vault::Vault;
use derived_records::ErrorCode;
use derived_records::Identity;

fn id(n: u8) -> Identity {
    Identity { bytes: [n; 32] }
}

fn vault_index(store: &Store) -> usize {
    for i in 0..store.accounts.len() {
        if let Some(Record::Vault(_)) = &store.accounts[i].record {
            return i;
        }
    }
    panic!("no vault account");
}

fn wallet_index(store: &Store, n: u8) -> usize {
    for i in 0..store.accounts.len() {
        if store.accounts[i].address.bytes == [n; 32] && store.accounts[i].record.is_none() {
            return i;
        }
    }
    panic!("no such wallet");
}

/// A store with the authority's wallet, a user wallet, and the
/// authority's vault already created. Returns it with the vault address.
fn vault_setup() -> (Store, Identity) {
    let mut store = Store::new(id(9));
    store.add_wallet(id(2), 500_000_000).unwrap();
    store.add_wallet(id(3), 400_000_000).unwrap();
    store.initialize_vault(id(2)).unwrap();
    let vi = vault_index(&store);
    let vault_address = store.accounts[vi].address;
    (store, vault_address)
}

#[test]
fn vault_starts_unlocked_with_recorded_authority() {
    let (store, _) = vault_setup();
    let vi = vault_index(&store);
    match &store.accounts[vi].record {
        Some(Record::Vault(v)) => {
            assert_eq!(v.vault_authority.bytes, [2; 32]);
            assert!(!v.locked);
        },
        _ => panic!("no vault account"),
    }
}

#[test]
fn vault_address_matches_platform_derivation() {
    let (_, vault_address) = vault_setup();
    let pid = anchor_lang::solana_program::pubkey::Pubkey::new_from_array([9; 32]);
    let (expected, _bump) = anchor_lang::solana_program::pubkey::Pubkey::find_program_address(
        &[b"vault", &[2u8; 32]],
        &pid,
    );
    assert_eq!(vault_address.bytes, expected.to_bytes());
}

#[test]
fn vault_funding_matches_platform_rent() {
    let (store, _) = vault_setup();
    let vi = vault_index(&store);
    let rent = anchor_lang::solana_program::rent::Rent::default();
    assert_eq!(store.accounts[vi].lamports, rent.minimum_balance(41));
}

#[test]
fn deposit_moves_exact_amount_and_conserves_total() {
    let (mut store, vault_address) = vault_setup();
    let vi = vault_index(&store);
    let ui = wallet_index(&store, 3);
    let vault_before = store.accounts[vi].lamports;
    let user_before = store.accounts[ui].lamports;
    let total_before = store.total_lamports;
    store.deposit(id(3), vault_address, 123_456).unwrap();
    assert_eq!(store.accounts[vi].lamports, vault_before + 123_456);
    assert_eq!(store.accounts[ui].lamports, user_before - 123_456);
    assert_eq!(store.total_lamports, total_before);
}

#[test]
fn deposit_fails_on_insufficient_user_balance() {
    let (mut store, vault_address) = vault_setup();
    let ui = wallet_index(&store, 3);
    let user_before = store.accounts[ui].lamports;
    let r = store.deposit(id(3), vault_address, user_before + 1);
    assert_eq!(r, Err(ErrorCode::InsufficientBalance));
    assert_eq!(store.accounts[ui].lamports, user_before);
}

#[test]
fn deposit_to_non_vault_not_found() {
    let (mut store, _) = vault_setup();
    assert_eq!(store.deposit(id(3), id(7), 10), Err(ErrorCode::RecordNotFound));
}

#[test]
fn locked_vault_refuses_deposit_and_withdraw() {
    let (mut store, vault_address) = vault_setup();
    let vi = vault_index(&store);
    store.deposit(id(3), vault_address, 50_000).unwrap();
    store.accounts[vi].record = Some(Record::Vault(Vault {
        vault_authority: id(2),
        locked: true,
    }));
    let vault_before = store.accounts[vi].lamports;
    // fails whatever the balance: far below it, and equal to it
    assert_eq!(store.withdraw(id(2), vault_address, 1), Err(ErrorCode::Locked));
    assert_eq!(store.withdraw(id(2), vault_address, vault_before), Err(ErrorCode::Locked));
    assert_eq!(store.deposit(id(3), vault_address, 1), Err(ErrorCode::Locked));
    assert_eq!(store.accounts[vi].lamports, vault_before);
}

#[test]
fn withdraw_moves_exact_amount_and_conserves_total() {
    let (mut store, vault_address) = vault_setup();
    store.deposit(id(3), vault_address, 200_000).unwrap();
    let vi = vault_index(&store);
    let ai = wallet_index(&store, 2);
    let vault_before = store.accounts[vi].lamports;
    let auth_before = store.accounts[ai].lamports;
    let total_before = store.total_lamports;
    store.withdraw(id(2), vault_address, 60_000).unwrap();
    assert_eq!(store.accounts[vi].lamports, vault_before - 60_000);
    assert_eq!(store.accounts[ai].lamports, auth_before + 60_000);
    assert_eq!(store.total_lamports, total_before);
}

#[test]
fn withdraw_fails_on_insufficient_vault_holding() {
    let (mut store, vault_address) = vault_setup();
    let vi = vault_index(&store);
    let vault_before = store.accounts[vi].lamports;
    let r = store.withdraw(id(2), vault_address, vault_before + 1);
    assert_eq!(r, Err(ErrorCode::InsufficientBalance));
    assert_eq!(store.accounts[vi].lamports, vault_before);
}

#[test]
fn withdraw_by_stranger_mismatches_address() {
    let (mut store, vault_address) = vault_setup();
    // a different caller derives a different vault address
    assert_eq!(store.withdraw(id(3), vault_address, 1), Err(ErrorCode::AddressMismatch));
}

#[test]
fn withdraw_with_tampered_authority_is_unauthorized() {
    let (mut store, vault_address) = vault_setup();
    let vi = vault_index(&store);
    store.accounts[vi].record = Some(Record::Vault(Vault {
        vault_authority: id(8),
        locked: false,
    }));
    assert_eq!(store.withdraw(id(2), vault_address, 1), Err(ErrorCode::Unauthorized));
}

#[test]
fn deposit_from_record_account_is_unauthorized() {
    // only a plain wallet can pay: the vault's own address carries a record
    let (mut store, vault_address) = vault_setup();
    let r = store.deposit(vault_address, vault_address, 1);
    assert_eq!(r, Err(ErrorCode::Unauthorized));
}

#[test]
fn wallet_total_cannot_overflow() {
    let mut store = Store::new(id(9));
    store.add_wallet(id(1), u64::MAX).unwrap();
    assert_eq!(store.add_wallet(id(2), 1), Err(ErrorCode::MaxReached));
}

#[test]
fn vault_already_exists() {
    let (mut store, _) = vault_setup();
    assert_eq!(store.initialize_vault(id(2)), Err(ErrorCode::AlreadyExists));
}
