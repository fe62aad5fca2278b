//! A fungible-token ledger engine: a key-addressed store of mint and token
//! account records, and the operations that initialize mints and accounts,
//! mint, transfer and burn tokens over that store.
//!
//! Every operation is atomic: its preconditions are checked against the
//! current store and, on failure, a typed error is returned and the store is
//! left unchanged. Balance and supply arithmetic is overflow-checked, and a
//! well-formed ledger keeps each mint's supply equal to the sum of the
//! balances of that mint's accounts.
//!
//! The engine is synchronous and holds no locks: operations that touch
//! overlapping records must be serialized by the caller, and each call either
//! completes fully or changes nothing.

pub mod codec;
pub mod error;
pub mod facade;
pub mod laws;
pub mod processor;
pub mod state;
pub mod store;
