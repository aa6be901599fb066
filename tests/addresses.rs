use solana_sdk::pubkey::Pubkey;
use stake_accounts::{
    create_with_seed, derive_stake_account_address, derive_stake_account_addresses, index_seed,
    Address, PubkeyError, MAX_SEED_LEN,
};
use std::collections::HashSet;

fn stake_program() -> Address {
    Address::new(solana_stake_program::id().to_bytes())
}

fn key(b: u8) -> Address {
    Address::new([b; 32])
}

#[test]
fn index_seed_is_decimal() {
    assert_eq!(index_seed(0), "0");
    assert_eq!(index_seed(7), "7");
    assert_eq!(index_seed(10), "10");
    assert_eq!(index_seed(1234567), "1234567");
    assert_eq!(index_seed(usize::MAX), usize::MAX.to_string());
}

#[test]
fn create_with_seed_matches_the_ledger_derivation() {
    let base = key(3);
    let program = stake_program();
    for seed in ["", "0", "42", "a seed of exactly thirty-two b.."] {
        let ours = create_with_seed(&base, seed, &program).unwrap();
        let theirs = Pubkey::create_with_seed(
            &Pubkey::new_from_array(base.to_bytes()),
            seed,
            &solana_stake_program::id(),
        )
        .unwrap();
        assert_eq!(ours.to_bytes(), theirs.to_bytes());
        assert_ne!(ours, base);
    }
}

#[test]
fn seed_boundary() {
    let base = key(1);
    let program = stake_program();
    let longest = "x".repeat(MAX_SEED_LEN);
    let too_long = "x".repeat(MAX_SEED_LEN + 1);
    assert!(create_with_seed(&base, &longest, &program).is_ok());
    assert_eq!(
        create_with_seed(&base, &too_long, &program),
        Err(PubkeyError::MaxSeedLengthExceeded)
    );
    // bytes, not characters, are counted
    let wide = "é".repeat(17);
    assert_eq!(wide.chars().count(), 17);
    assert_eq!(
        create_with_seed(&base, &wide, &program),
        Err(PubkeyError::MaxSeedLengthExceeded)
    );
}

#[test]
fn derivation_is_deterministic() {
    let base = key(9);
    let program = stake_program();
    let a = derive_stake_account_address(&base, 3, &program);
    let b = derive_stake_account_address(&base, 3, &program);
    assert_eq!(a, b);
    let expected = Pubkey::create_with_seed(
        &Pubkey::new_from_array(base.to_bytes()),
        "3",
        &solana_stake_program::id(),
    )
    .unwrap();
    assert_eq!(a.to_bytes(), expected.to_bytes());
}

#[test]
fn derivation_depends_on_base_and_program() {
    let program = stake_program();
    let a = derive_stake_account_address(&key(1), 0, &program);
    let b = derive_stake_account_address(&key(2), 0, &program);
    let c = derive_stake_account_address(&key(1), 0, &key(7));
    assert_ne!(a, b);
    assert_ne!(a, c);
}

#[test]
fn derived_addresses_are_distinct() {
    let base = key(5);
    let program = stake_program();
    let addresses = derive_stake_account_addresses(&base, 10000, &program);
    assert_eq!(addresses.len(), 10000);
    let distinct: HashSet<[u8; 32]> = addresses.iter().map(|a| a.to_bytes()).collect();
    assert_eq!(distinct.len(), 10000);
}

#[test]
fn derived_addresses_follow_index_order() {
    let base = key(4);
    let program = stake_program();
    let addresses = derive_stake_account_addresses(&base, 4, &program);
    for (i, a) in addresses.iter().enumerate() {
        assert_eq!(*a, derive_stake_account_address(&base, i, &program));
    }
    assert!(derive_stake_account_addresses(&base, 0, &program).is_empty());
}
