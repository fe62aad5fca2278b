//! The records the ledger holds: mints and token accounts, both addressed by
//! opaque fixed-width keys, plus the spec-level helpers the contracts use.

use vstd::prelude::*;

verus! {

/// An opaque fixed-width key addressing a slot in the account store.
#[derive(Clone, Copy, Debug, PartialEq, Eq, Hash, Structural)]
pub struct Key {
    pub value: u64,
}

/// An opaque identity: the holder of an authority or the owner of an
/// account. Key custody and signature checking belong to the surrounding
/// collaborator; the engine only compares identities.
#[derive(Clone, Copy, Debug, PartialEq, Eq, Hash, Structural)]
pub struct Identity {
    pub value: u64,
}

/// The record describing a token type.
#[derive(Clone, Copy, Debug, PartialEq, Eq)]
pub struct Mint {
    /// The identity allowed to mint further supply; `None` means the supply
    /// is permanently fixed.
    pub mint_authority: Option<Identity>,
    /// Total outstanding units across all accounts of this mint.
    pub supply: u64,
    /// Display scaling, fixed at creation; never affects arithmetic.
    pub decimals: u8,
    /// The identity allowed to freeze accounts of this mint, if any.
    pub freeze_authority: Option<Identity>,
    /// Whether the mint has been initialized; set exactly once.
    pub is_initialized: bool,
}

/// A record holding a balance of one mint for one owner.
#[derive(Clone, Copy, Debug, PartialEq, Eq)]
pub struct TokenAccount {
    /// The mint this account belongs to; immutable after initialization.
    pub mint: Key,
    /// The identity authorized to transfer and burn from this account.
    pub owner: Identity,
    /// The account's balance.
    pub amount: u64,
    /// Whether the account has been initialized; set exactly once.
    pub is_initialized: bool,
    /// When true, all balance-changing operations on this account fail.
    pub is_frozen: bool,
}

/// What a slot in the account store can hold.
#[derive(Clone, Copy, Debug, PartialEq, Eq)]
pub enum Record {
    Mint(Mint),
    Account(TokenAccount),
}

/// Whether the record has been initialized.
pub open spec fn record_initialized(r: Record) -> bool {
    match r {
        Record::Mint(m) => m.is_initialized,
        Record::Account(a) => a.is_initialized,
    }
}

/// How much the record adds to the balance total of the given mint: the
/// balance of an initialized account of that mint, and nothing otherwise.
pub open spec fn contribution(r: Record, mint: Key) -> int {
    match r {
        Record::Mint(_) => 0,
        Record::Account(a) => if a.is_initialized && a.mint == mint {
            a.amount as int
        } else {
            0
        },
    }
}

/// `contribution` lifted to a slot that may be empty.
pub open spec fn opt_contribution(r: Option<Record>, mint: Key) -> int {
    match r {
        Some(rec) => contribution(rec, mint),
        None => 0,
    }
}

/// The record a map of slots holds at a key, if any.
pub open spec fn record_at(s: Map<Key, Record>, k: Key) -> Option<Record> {
    if s.contains_key(k) {
        Some(s[k])
    } else {
        None
    }
}

} // verus!
