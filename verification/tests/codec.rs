use token_ledger::codec::{pack_record, unpack_record, ACCOUNT_LEN, ACCOUNT_TAG, MINT_LEN, MINT_TAG};
use token_ledger::error::TokenError;
use token_ledger::processor::Ledger;
use token_ledger::state::{Identity, Key, Mint, Record, TokenAccount};

fn sample_mint() -> Record {
    Record::Mint(Mint {
        mint_authority: Some(Identity { value: 0xDEADBEEF }),
        supply: 900000000,
        decimals: 9,
        freeze_authority: None,
        is_initialized: true,
    })
}

fn sample_account() -> Record {
    Record::Account(TokenAccount {
        mint: Key { value: 1 },
        owner: Identity { value: 0x1234567890ABCDEF },
        amount: 400000000,
        is_initialized: true,
        is_frozen: false,
    })
}

#[test]
fn test_pack_unpack_mint_round_trip() {
    let rec = sample_mint();
    let bytes = pack_record(&rec);
    assert_eq!(bytes.len(), MINT_LEN);
    assert_eq!(bytes[0], MINT_TAG);
    assert_eq!(unpack_record(&bytes), Ok(rec));

    // an absent authority is a first-class state and survives the trip
    let fixed = Record::Mint(Mint {
        mint_authority: None,
        supply: 0,
        decimals: 0,
        freeze_authority: Some(Identity { value: 7 }),
        is_initialized: false,
    });
    let bytes = pack_record(&fixed);
    assert_eq!(unpack_record(&bytes), Ok(fixed));
}

#[test]
fn test_pack_unpack_account_round_trip() {
    let rec = sample_account();
    let bytes = pack_record(&rec);
    assert_eq!(bytes.len(), ACCOUNT_LEN);
    assert_eq!(bytes[0], ACCOUNT_TAG);
    assert_eq!(unpack_record(&bytes), Ok(rec));

    let frozen = Record::Account(TokenAccount {
        mint: Key { value: u64::MAX },
        owner: Identity { value: 0 },
        amount: u64::MAX,
        is_initialized: true,
        is_frozen: true,
    });
    let bytes = pack_record(&frozen);
    assert_eq!(unpack_record(&bytes), Ok(frozen));
}

#[test]
fn test_account_layout_is_little_endian() {
    let rec = Record::Account(TokenAccount {
        mint: Key { value: 0x0102030405060708 },
        owner: Identity { value: 5 },
        amount: 256,
        is_initialized: true,
        is_frozen: false,
    });
    let bytes = pack_record(&rec);
    assert_eq!(&bytes[1..9], &[8, 7, 6, 5, 4, 3, 2, 1]);
    assert_eq!(&bytes[9..17], &[5, 0, 0, 0, 0, 0, 0, 0]);
    assert_eq!(&bytes[17..25], &[0, 1, 0, 0, 0, 0, 0, 0]);
    assert_eq!(&bytes[25..27], &[1, 0]);
}

#[test]
fn test_unpack_rejects_corrupt_bytes() {
    assert_eq!(unpack_record(&[]), Err(TokenError::CorruptRecord));
    assert_eq!(unpack_record(&[0u8; 16]), Err(TokenError::CorruptRecord));

    // wrong kind tag for the length
    let mut bytes = pack_record(&sample_mint());
    bytes[0] = ACCOUNT_TAG;
    assert_eq!(unpack_record(&bytes), Err(TokenError::CorruptRecord));

    // a presence byte must be exactly zero or one
    let mut bytes = pack_record(&sample_mint());
    bytes[1] = 2;
    assert_eq!(unpack_record(&bytes), Err(TokenError::CorruptRecord));

    // a flag byte must be exactly zero or one
    let mut bytes = pack_record(&sample_account());
    bytes[26] = 9;
    assert_eq!(unpack_record(&bytes), Err(TokenError::CorruptRecord));

    // a truncated record is refused
    let bytes = pack_record(&sample_account());
    assert_eq!(unpack_record(&bytes[..26]), Err(TokenError::CorruptRecord));
}

#[test]
fn test_read_raw_matches_packed_record() {
    let mut ledger = Ledger::new();
    let mint = Key { value: 1 };
    let authority = Identity { value: 100 };
    ledger.initialize_mint(mint, Some(authority), None, 9).unwrap();

    let raw = ledger.read_raw(mint).unwrap();
    let expected = pack_record(&ledger.store.get(mint).unwrap());
    assert_eq!(raw, expected);
    assert_eq!(unpack_record(&raw), Ok(ledger.store.get(mint).unwrap()));

    assert_eq!(ledger.read_raw(Key { value: 42 }), None);
}
