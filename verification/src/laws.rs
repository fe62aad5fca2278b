//! Laws the operations obey, stated over the spec transitions and proved
//! once and for all. The supply law — every initialized mint's supply equals
//! the sum of its accounts' balances — is `Ledger::wf`, established by
//! `Ledger::new` and preserved by every operation's postcondition; the laws
//! here relate the transitions themselves.

use vstd::prelude::*;

use crate::error::TokenError;
use crate::processor::{
    resolve_account, resolve_mint, slot_initialized, spec_burn, spec_mint_to, spec_transfer, Ledger,
};
use crate::state::{Identity, Key, Record};

verus! {

/// Law: in a well-formed ledger, every initialized mint's recorded supply
/// equals the sum of the balances of that mint's accounts.
pub proof fn lemma_supply_matches_balances(l: Ledger, mint_key: Key)
    requires
        l.wf(),
        resolve_mint(l@, mint_key) is Ok,
    ensures
        (match resolve_mint(l@, mint_key) {
            Ok(m) => m.supply == l.sum_balances(mint_key),
            Err(_) => false,
        }),
{
    assert(l@.contains_key(mint_key));
    assert(l.wf_at(mint_key));
}

/// Law: in a well-formed ledger, an initialized account's balance never
/// exceeds its mint's recorded supply.
pub proof fn lemma_balance_within_supply(l: Ledger, account_key: Key, mint_key: Key)
    requires
        l.wf(),
        resolve_account(l@, account_key) matches Ok(a) && a.mint == mint_key,
        resolve_mint(l@, mint_key) is Ok,
    ensures
        (match (resolve_account(l@, account_key), resolve_mint(l@, mint_key)) {
            (Ok(a), Ok(m)) => a.amount <= m.supply,
            _ => false,
        }),
{
    assert(l@.contains_key(mint_key));
    assert(l.wf_at(mint_key));
    l.store.lemma_contribution_le_sum(account_key, mint_key);
}

/// Law: minting an amount to an account and then burning the same amount
/// from that account, presented by its owner, returns the ledger to exactly
/// its prior state.
pub proof fn lemma_mint_then_burn_round_trip(
    s: Map<Key, Record>,
    mint_key: Key,
    account_key: Key,
    authority: Identity,
    owner: Identity,
    amount: u64,
)
    requires
        spec_mint_to(s, mint_key, account_key, authority, amount) is Ok,
        resolve_account(s, account_key) matches Ok(a) && a.owner == owner,
    ensures
        (match spec_mint_to(s, mint_key, account_key, authority, amount) {
            Ok(s1) => spec_burn(s1, account_key, mint_key, owner, amount) == Ok::<
                Map<Key, Record>,
                TokenError,
            >(s),
            Err(_) => false,
        }),
{
    let s1 = match spec_mint_to(s, mint_key, account_key, authority, amount) {
        Ok(s1) => s1,
        Err(_) => s,
    };
    match spec_burn(s1, account_key, mint_key, owner, amount) {
        Ok(s2) => {
            assert(s2 =~= s);
        },
        Err(_) => {},
    }
}

/// Law: a transfer that succeeds between two distinct accounts moves the
/// amount without creating or destroying units, so the two balances' sum is
/// unchanged; a transfer from an account to itself leaves the ledger exactly
/// as it was.
pub proof fn lemma_transfer_preserves_balance_sum(
    s: Map<Key, Record>,
    source_key: Key,
    dest_key: Key,
    owner: Identity,
    amount: u64,
)
    requires
        spec_transfer(s, source_key, dest_key, owner, amount) is Ok,
    ensures
        (match spec_transfer(s, source_key, dest_key, owner, amount) {
            Ok(s2) => {
                &&& source_key != dest_key ==> {
                    &&& resolve_account(s2, source_key) is Ok
                    &&& resolve_account(s2, dest_key) is Ok
                    &&& (match (
                        resolve_account(s2, source_key),
                        resolve_account(s2, dest_key),
                        resolve_account(s, source_key),
                        resolve_account(s, dest_key),
                    ) {
                        (Ok(src2), Ok(dst2), Ok(src), Ok(dst)) => src2.amount + dst2.amount
                            == src.amount + dst.amount,
                        _ => false,
                    })
                }
                &&& source_key == dest_key ==> s2 == s
            },
            Err(_) => false,
        }),
{
}

/// Law: a balance-changing operation whose slots read as uninitialized fails
/// with `NotInitialized`. A missing record counts as uninitialized; the slots
/// are read in the operation's argument order.
pub proof fn lemma_mint_to_uninitialized(
    s: Map<Key, Record>,
    mint_key: Key,
    dest_key: Key,
    authority: Identity,
    amount: u64,
)
    requires
        !slot_initialized(s, mint_key) || (resolve_mint(s, mint_key) is Ok && !slot_initialized(
            s,
            dest_key,
        )),
    ensures
        spec_mint_to(s, mint_key, dest_key, authority, amount) == Err::<
            Map<Key, Record>,
            TokenError,
        >(TokenError::NotInitialized),
{
}

/// Law: a transfer whose source or destination slot reads as uninitialized
/// fails with `NotInitialized`.
pub proof fn lemma_transfer_uninitialized(
    s: Map<Key, Record>,
    source_key: Key,
    dest_key: Key,
    owner: Identity,
    amount: u64,
)
    requires
        !slot_initialized(s, source_key) || (resolve_account(s, source_key) is Ok
            && !slot_initialized(s, dest_key)),
    ensures
        spec_transfer(s, source_key, dest_key, owner, amount) == Err::<
            Map<Key, Record>,
            TokenError,
        >(TokenError::NotInitialized),
{
}

/// Law: a burn whose account or mint slot reads as uninitialized fails with
/// `NotInitialized`.
pub proof fn lemma_burn_uninitialized(
    s: Map<Key, Record>,
    account_key: Key,
    mint_key: Key,
    owner: Identity,
    amount: u64,
)
    requires
        !slot_initialized(s, account_key) || (resolve_account(s, account_key) is Ok
            && !slot_initialized(s, mint_key)),
    ensures
        spec_burn(s, account_key, mint_key, owner, amount) == Err::<Map<Key, Record>, TokenError>(
            TokenError::NotInitialized,
        ),
{
}

/// Law: a transfer of more than the source's balance fails with
/// `InsufficientFunds`, provided the checks ahead of the funds check pass:
/// both slots resolve, the source is unfrozen and owned by the presenter,
/// and the destination is an unfrozen account of the same mint.
pub proof fn lemma_transfer_insufficient_funds(
    s: Map<Key, Record>,
    source_key: Key,
    dest_key: Key,
    owner: Identity,
    amount: u64,
)
    requires
        ({
            &&& resolve_account(s, source_key) matches Ok(src)
            &&& resolve_account(s, dest_key) matches Ok(dst)
            &&& !src.is_frozen
            &&& src.owner == owner
            &&& dst.mint == src.mint
            &&& !dst.is_frozen
            &&& src.amount < amount
        }),
    ensures
        spec_transfer(s, source_key, dest_key, owner, amount) == Err::<
            Map<Key, Record>,
            TokenError,
        >(TokenError::InsufficientFunds),
{
}

/// Law: a burn of more than the account's balance fails with
/// `InsufficientFunds`, provided the checks ahead of the funds check pass:
/// both slots resolve, and the account is unfrozen and owned by the
/// presenter.
pub proof fn lemma_burn_insufficient_funds(
    s: Map<Key, Record>,
    account_key: Key,
    mint_key: Key,
    owner: Identity,
    amount: u64,
)
    requires
        ({
            &&& resolve_account(s, account_key) matches Ok(src)
            &&& resolve_mint(s, mint_key) is Ok
            &&& !src.is_frozen
            &&& src.owner == owner
            &&& src.amount < amount
        }),
    ensures
        spec_burn(s, account_key, mint_key, owner, amount) == Err::<Map<Key, Record>, TokenError>(
            TokenError::InsufficientFunds,
        ),
{
}

} // verus!
