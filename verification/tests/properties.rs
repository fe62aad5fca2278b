use token_ledger::error::TokenError;
use token_ledger::facade::{Operation, OutcomeStatus};
use token_ledger::processor::Ledger;
use token_ledger::state::{Identity, Key, Mint, Record, TokenAccount};

fn key(v: u64) -> Key {
    Key { value: v }
}

fn id(v: u64) -> Identity {
    Identity { value: v }
}

fn setup() -> (Ledger, Key, Key, Key, Identity, Identity, Identity) {
    let mut ledger = Ledger::new();
    let mint = key(1);
    let acct1 = key(2);
    let acct2 = key(3);
    let authority = id(100);
    let user1 = id(101);
    let user2 = id(102);
    ledger.initialize_mint(mint, Some(authority), None, 9).unwrap();
    ledger.initialize_account(acct1, mint, user1).unwrap();
    ledger.initialize_account(acct2, mint, user2).unwrap();
    (ledger, mint, acct1, acct2, authority, user1, user2)
}

#[test]
fn test_supply_equals_sum_of_balances() {
    let (mut ledger, mint, acct1, acct2, authority, user1, _) = setup();
    assert_eq!(ledger.total_balance(mint), ledger.supply(mint).unwrap() as u128);

    ledger.mint_to(mint, acct1, authority, 700).unwrap();
    ledger.mint_to(mint, acct2, authority, 300).unwrap();
    assert_eq!(ledger.total_balance(mint), 1000);
    assert_eq!(ledger.supply(mint).unwrap(), 1000);

    ledger.transfer(acct1, acct2, user1, 250).unwrap();
    assert_eq!(ledger.total_balance(mint), 1000);
    assert_eq!(ledger.supply(mint).unwrap(), 1000);

    ledger.burn(acct1, mint, user1, 450).unwrap();
    assert_eq!(ledger.total_balance(mint), 550);
    assert_eq!(ledger.supply(mint).unwrap(), 550);
}

#[test]
fn test_mint_then_burn_round_trip() {
    let (mut ledger, mint, acct1, acct2, authority, user1, _) = setup();
    ledger.mint_to(mint, acct1, authority, 12345).unwrap();

    let balance_before = ledger.balance(acct1).unwrap();
    let supply_before = ledger.supply(mint).unwrap();
    let mint_bytes_before = ledger.read_raw(mint).unwrap();
    let acct_bytes_before = ledger.read_raw(acct1).unwrap();
    let other_before = ledger.read_raw(acct2).unwrap();

    ledger.mint_to(mint, acct1, authority, 777).unwrap();
    ledger.burn(acct1, mint, user1, 777).unwrap();

    assert_eq!(ledger.balance(acct1).unwrap(), balance_before);
    assert_eq!(ledger.supply(mint).unwrap(), supply_before);
    assert_eq!(ledger.read_raw(mint).unwrap(), mint_bytes_before);
    assert_eq!(ledger.read_raw(acct1).unwrap(), acct_bytes_before);
    assert_eq!(ledger.read_raw(acct2).unwrap(), other_before);
}

#[test]
fn test_transfer_preserves_balance_total() {
    let (mut ledger, mint, acct1, acct2, authority, user1, _) = setup();
    ledger.mint_to(mint, acct1, authority, 900).unwrap();
    ledger.mint_to(mint, acct2, authority, 100).unwrap();

    ledger.transfer(acct1, acct2, user1, 333).unwrap();
    let b1 = ledger.balance(acct1).unwrap();
    let b2 = ledger.balance(acct2).unwrap();
    assert_eq!(b1, 567);
    assert_eq!(b2, 433);
    assert_eq!(b1 + b2, 1000);
}

#[test]
fn test_self_transfer_leaves_balance_unchanged() {
    let (mut ledger, mint, acct1, _, authority, user1, _) = setup();
    ledger.mint_to(mint, acct1, authority, 800).unwrap();

    ledger.transfer(acct1, acct1, user1, 500).unwrap();
    assert_eq!(ledger.balance(acct1).unwrap(), 800);

    // a self-transfer is still checked: more than the balance is refused
    let result = ledger.transfer(acct1, acct1, user1, 801);
    assert_eq!(result.unwrap_err(), TokenError::InsufficientFunds);
    assert_eq!(ledger.balance(acct1).unwrap(), 800);
}

#[test]
fn test_zero_amount_operations_succeed() {
    let (mut ledger, mint, acct1, acct2, authority, user1, _) = setup();
    ledger.mint_to(mint, acct1, authority, 100).unwrap();

    ledger.mint_to(mint, acct1, authority, 0).unwrap();
    ledger.transfer(acct1, acct2, user1, 0).unwrap();
    ledger.burn(acct1, mint, user1, 0).unwrap();

    assert_eq!(ledger.balance(acct1).unwrap(), 100);
    assert_eq!(ledger.balance(acct2).unwrap(), 0);
    assert_eq!(ledger.supply(mint).unwrap(), 100);
}

#[test]
fn test_operation_on_uninitialized_record_fails() {
    let (mut ledger, mint, acct1, _, authority, user1, _) = setup();
    ledger.mint_to(mint, acct1, authority, 500).unwrap();

    // a slot holding an uninitialized record reads as not initialized
    let blank = key(9);
    ledger.store.put(
        blank,
        Record::Account(TokenAccount {
            mint,
            owner: user1,
            amount: 0,
            is_initialized: false,
            is_frozen: false,
        }),
    );

    assert_eq!(
        ledger.mint_to(mint, blank, authority, 1).unwrap_err(),
        TokenError::NotInitialized
    );
    assert_eq!(
        ledger.transfer(blank, acct1, user1, 1).unwrap_err(),
        TokenError::NotInitialized
    );
    assert_eq!(
        ledger.transfer(acct1, blank, user1, 1).unwrap_err(),
        TokenError::NotInitialized
    );
    assert_eq!(
        ledger.burn(blank, mint, user1, 1).unwrap_err(),
        TokenError::NotInitialized
    );
    // a missing slot reads the same way
    assert_eq!(
        ledger.mint_to(mint, key(77), authority, 1).unwrap_err(),
        TokenError::NotInitialized
    );
    // nothing changed
    assert_eq!(ledger.balance(acct1).unwrap(), 500);
    assert_eq!(ledger.supply(mint).unwrap(), 500);
}

#[test]
fn test_initialize_twice_fails() {
    let (mut ledger, mint, acct1, _, authority, user1, _) = setup();
    assert_eq!(
        ledger
            .initialize_mint(mint, Some(authority), None, 9)
            .unwrap_err(),
        TokenError::AlreadyInitialized
    );
    assert_eq!(
        ledger.initialize_account(acct1, mint, user1).unwrap_err(),
        TokenError::AlreadyInitialized
    );
    // an uninitialized slot may still be initialized, exactly once
    let blank = key(9);
    ledger.store.put(
        blank,
        Record::Mint(Mint {
            mint_authority: None,
            supply: 0,
            decimals: 0,
            freeze_authority: None,
            is_initialized: false,
        }),
    );
    ledger.initialize_mint(blank, Some(authority), None, 2).unwrap();
    assert_eq!(
        ledger
            .initialize_mint(blank, Some(authority), None, 2)
            .unwrap_err(),
        TokenError::AlreadyInitialized
    );
}

#[test]
fn test_initialize_account_without_mint_fails() {
    let mut ledger = Ledger::new();
    let result = ledger.initialize_account(key(2), key(1), id(101));
    assert_eq!(result.unwrap_err(), TokenError::MintNotFound);
}

#[test]
fn test_mint_mismatch_fails() {
    let (mut ledger, mint, acct1, _, authority, user1, _) = setup();
    let other_mint = key(4);
    let other_acct = key(5);
    let other_user = id(103);
    ledger
        .initialize_mint(other_mint, Some(authority), None, 0)
        .unwrap();
    ledger
        .initialize_account(other_acct, other_mint, other_user)
        .unwrap();
    ledger.mint_to(mint, acct1, authority, 100).unwrap();

    // minting into an account of another mint
    assert_eq!(
        ledger.mint_to(other_mint, acct1, authority, 1).unwrap_err(),
        TokenError::MintMismatch
    );
    // transferring between accounts of different mints
    assert_eq!(
        ledger.transfer(acct1, other_acct, user1, 1).unwrap_err(),
        TokenError::MintMismatch
    );
    // burning against the wrong mint
    assert_eq!(
        ledger.burn(acct1, other_mint, user1, 1).unwrap_err(),
        TokenError::MintMismatch
    );
}

#[test]
fn test_authority_mismatch_fails() {
    let (mut ledger, mint, acct1, acct2, authority, user1, user2) = setup();
    ledger.mint_to(mint, acct1, authority, 100).unwrap();

    assert_eq!(
        ledger.mint_to(mint, acct1, user1, 1).unwrap_err(),
        TokenError::AuthorityMismatch
    );
    assert_eq!(
        ledger.transfer(acct1, acct2, user2, 1).unwrap_err(),
        TokenError::AuthorityMismatch
    );
    assert_eq!(
        ledger.burn(acct1, mint, user2, 1).unwrap_err(),
        TokenError::AuthorityMismatch
    );

    // a mint without an authority can never mint again
    let fixed_mint = key(4);
    let fixed_acct = key(5);
    ledger.initialize_mint(fixed_mint, None, None, 0).unwrap();
    ledger
        .initialize_account(fixed_acct, fixed_mint, user1)
        .unwrap();
    assert_eq!(
        ledger
            .mint_to(fixed_mint, fixed_acct, authority, 1)
            .unwrap_err(),
        TokenError::AuthorityMismatch
    );
}

#[test]
fn test_frozen_account_blocks_balance_changes() {
    let (mut ledger, mint, acct1, acct2, authority, user1, user2) = setup();
    ledger.mint_to(mint, acct1, authority, 100).unwrap();
    ledger.mint_to(mint, acct2, authority, 100).unwrap();

    let frozen = key(9);
    let frozen_owner = id(109);
    ledger.store.put(
        frozen,
        Record::Account(TokenAccount {
            mint,
            owner: frozen_owner,
            amount: 0,
            is_initialized: true,
            is_frozen: true,
        }),
    );

    assert_eq!(
        ledger.mint_to(mint, frozen, authority, 1).unwrap_err(),
        TokenError::AccountFrozen
    );
    assert_eq!(
        ledger.transfer(frozen, acct1, frozen_owner, 0).unwrap_err(),
        TokenError::AccountFrozen
    );
    assert_eq!(
        ledger.transfer(acct1, frozen, user1, 1).unwrap_err(),
        TokenError::AccountFrozen
    );
    assert_eq!(
        ledger.burn(frozen, mint, frozen_owner, 0).unwrap_err(),
        TokenError::AccountFrozen
    );
    assert_eq!(ledger.balance(acct1).unwrap(), 100);
    assert_eq!(ledger.balance(acct2).unwrap(), 100);
    assert_eq!(ledger.supply(mint).unwrap(), 200);
}

#[test]
fn test_overflow_is_refused() {
    let (mut ledger, mint, acct1, acct2, authority, user1, _) = setup();
    ledger.mint_to(mint, acct1, authority, u64::MAX).unwrap();

    // one more unit would overflow the supply
    assert_eq!(
        ledger.mint_to(mint, acct2, authority, 1).unwrap_err(),
        TokenError::ArithmeticError
    );
    assert_eq!(ledger.balance(acct2).unwrap(), 0);
    assert_eq!(ledger.supply(mint).unwrap(), u64::MAX);

    // a destination balance may not overflow either; that takes a raw store
    // state, since with one mint the supply already caps every balance
    ledger.store.put(
        key(8),
        Record::Account(TokenAccount {
            mint,
            owner: user1,
            amount: u64::MAX,
            is_initialized: true,
            is_frozen: false,
        }),
    );
    assert_eq!(
        ledger.transfer(acct1, key(8), user1, 1).unwrap_err(),
        TokenError::ArithmeticError
    );
}

#[test]
fn test_wrong_record_kind_is_corrupt() {
    let (mut ledger, mint, acct1, _, authority, user1, _) = setup();
    // the mint slot where an account is expected, and the other way round
    assert_eq!(
        ledger.mint_to(mint, mint, authority, 1).unwrap_err(),
        TokenError::CorruptRecord
    );
    assert_eq!(
        ledger.transfer(acct1, mint, user1, 0).unwrap_err(),
        TokenError::CorruptRecord
    );
    assert_eq!(
        ledger.burn(acct1, acct1, user1, 0).unwrap_err(),
        TokenError::CorruptRecord
    );
    assert_eq!(ledger.balance(mint).unwrap_err(), TokenError::CorruptRecord);
    assert_eq!(ledger.supply(acct1).unwrap_err(), TokenError::CorruptRecord);
}

#[test]
fn test_failed_batch_changes_nothing() {
    let (mut ledger, mint, acct1, acct2, authority, user1, _) = setup();
    ledger.mint_to(mint, acct1, authority, 1000).unwrap();

    // the second operation fails, so the first is rolled back too
    let batch = vec![
        Operation::Transfer { source_key: acct1, dest_key: acct2, owner: user1, amount: 600 },
        Operation::Transfer { source_key: acct1, dest_key: acct2, owner: user1, amount: 600 },
    ];
    let outcome = ledger.submit(&batch, user1);
    assert_eq!(outcome, OutcomeStatus::Failed(TokenError::InsufficientFunds));
    assert_eq!(ledger.balance(acct1).unwrap(), 1000);
    assert_eq!(ledger.balance(acct2).unwrap(), 0);

    // the same two transfers split across batches: the first commits
    let first = vec![Operation::Transfer {
        source_key: acct1,
        dest_key: acct2,
        owner: user1,
        amount: 600,
    }];
    assert_eq!(ledger.submit(&first, user1), OutcomeStatus::Processed);
    let second = vec![Operation::Transfer {
        source_key: acct1,
        dest_key: acct2,
        owner: user1,
        amount: 600,
    }];
    assert_eq!(
        ledger.submit(&second, user1),
        OutcomeStatus::Failed(TokenError::InsufficientFunds)
    );
    assert_eq!(ledger.balance(acct1).unwrap(), 400);
    assert_eq!(ledger.balance(acct2).unwrap(), 600);
}
