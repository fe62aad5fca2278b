//! The error kinds an operation can fail with. All of them are local,
//! recoverable conditions: the engine never panics, it reports the failure
//! and leaves the store unchanged.

use vstd::prelude::*;

verus! {

/// Why an operation was refused.
#[derive(Clone, Copy, Debug, PartialEq, Eq)]
pub enum TokenError {
    /// An initialize operation hit a slot that already holds an initialized
    /// record.
    AlreadyInitialized,
    /// The operation read a slot that holds no initialized record.
    NotInitialized,
    /// The mint referenced when initializing an account does not exist as an
    /// initialized mint.
    MintNotFound,
    /// The account involved does not belong to the mint the operation names.
    MintMismatch,
    /// The presented identity is not the authority or owner the operation
    /// requires.
    AuthorityMismatch,
    /// The account involved is frozen, which blocks balance changes.
    AccountFrozen,
    /// The source account's balance is smaller than the requested amount.
    InsufficientFunds,
    /// A balance or supply update would overflow or underflow.
    ArithmeticError,
    /// Serialized record bytes do not decode to a record, or a slot holds a
    /// record of a different kind than the operation expects.
    CorruptRecord,
}

} // verus!
