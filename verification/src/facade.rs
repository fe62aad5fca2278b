//! The submission facade: operation requests and all-or-nothing batches.
//! A batch is staged on a copy of the store and committed only if every
//! operation in it succeeds, so a failed batch leaves the ledger exactly as
//! it was.

use vstd::prelude::*;

use crate::error::TokenError;
use crate::processor::{
    spec_burn, spec_initialize_account, spec_initialize_mint, spec_mint_to, spec_transfer, Ledger,
};
use crate::state::{Identity, Key, Record};

verus! {

/// One state-transition request.
#[derive(Clone, Copy, Debug, PartialEq, Eq)]
pub enum Operation {
    InitializeMint {
        mint_key: Key,
        mint_authority: Option<Identity>,
        freeze_authority: Option<Identity>,
        decimals: u8,
    },
    InitializeAccount { account_key: Key, mint_key: Key, owner: Identity },
    MintTo { mint_key: Key, dest_key: Key, authority: Identity, amount: u64 },
    Transfer { source_key: Key, dest_key: Key, owner: Identity, amount: u64 },
    Burn { account_key: Key, mint_key: Key, owner: Identity, amount: u64 },
}

/// The result of submitting a batch of operations.
#[derive(Clone, Copy, Debug, PartialEq, Eq)]
pub enum OutcomeStatus {
    /// Every operation in the batch was applied.
    Processed,
    /// An operation was refused; nothing in the batch was applied.
    Failed(TokenError),
}

/// The transition one operation requests.
pub open spec fn spec_apply(s: Map<Key, Record>, op: Operation) -> Result<
    Map<Key, Record>,
    TokenError,
> {
    match op {
        Operation::InitializeMint { mint_key, mint_authority, freeze_authority, decimals } =>
            spec_initialize_mint(s, mint_key, mint_authority, freeze_authority, decimals),
        Operation::InitializeAccount { account_key, mint_key, owner } => spec_initialize_account(
            s,
            account_key,
            mint_key,
            owner,
        ),
        Operation::MintTo { mint_key, dest_key, authority, amount } => spec_mint_to(
            s,
            mint_key,
            dest_key,
            authority,
            amount,
        ),
        Operation::Transfer { source_key, dest_key, owner, amount } => spec_transfer(
            s,
            source_key,
            dest_key,
            owner,
            amount,
        ),
        Operation::Burn { account_key, mint_key, owner, amount } => spec_burn(
            s,
            account_key,
            mint_key,
            owner,
            amount,
        ),
    }
}

/// The transition a batch requests: the operations in order, stopping at the
/// first error.
pub open spec fn spec_apply_batch(s: Map<Key, Record>, ops: Seq<Operation>) -> Result<
    Map<Key, Record>,
    TokenError,
> decreases ops.len() {
    if ops.len() == 0 {
        Ok(s)
    } else {
        match spec_apply(s, ops[0]) {
            Ok(s2) => spec_apply_batch(s2, ops.skip(1)),
            Err(e) => Err(e),
        }
    }
}

impl Ledger {
    /// Applies one operation, dispatching on its kind.
    pub fn apply(&mut self, op: &Operation) -> (r: Result<(), TokenError>)
        ensures
            (match spec_apply(old(self)@, *op) {
                Ok(s2) => r == Ok::<(), TokenError>(()) && final(self)@ == s2,
                Err(e) => r == Err::<(), TokenError>(e) && final(self)@ == old(self)@,
            }),
            old(self).wf() ==> final(self).wf(),
    {
        match *op {
            Operation::InitializeMint { mint_key, mint_authority, freeze_authority, decimals } =>
                self.initialize_mint(mint_key, mint_authority, freeze_authority, decimals),
            Operation::InitializeAccount { account_key, mint_key, owner } =>
                self.initialize_account(account_key, mint_key, owner),
            Operation::MintTo { mint_key, dest_key, authority, amount } =>
                self.mint_to(mint_key, dest_key, authority, amount),
            Operation::Transfer { source_key, dest_key, owner, amount } =>
                self.transfer(source_key, dest_key, owner, amount),
            Operation::Burn { account_key, mint_key, owner, amount } =>
                self.burn(account_key, mint_key, owner, amount),
        }
    }

    /// Submits an ordered batch of operations, all or nothing: the batch is
    /// applied to a staged copy of the store and committed only if every
    /// operation succeeds; the first failure discards the staging and reports
    /// why. The fee payer funds the submission outside the engine and plays
    /// no part in the transitions.
    pub fn submit(&mut self, operations: &Vec<Operation>, _fee_payer: Identity) -> (r:
        OutcomeStatus)
        ensures
            (match spec_apply_batch(old(self)@, operations@) {
                Ok(s2) => r == OutcomeStatus::Processed && final(self)@ == s2,
                Err(e) => r == OutcomeStatus::Failed(e) && final(self)@ == old(self)@,
            }),
            old(self).wf() ==> final(self).wf(),
    {
        let mut staged = Ledger { store: self.store.duplicate() };
        proof {
            if old(self).wf() {
                assert forall|k: Key| #[trigger] staged@.contains_key(k) implies staged.wf_at(
                    k,
                ) by {
                    assert(old(self).wf_at(k));
                    assert(staged.sum_balances(k) == old(self).sum_balances(k));
                }
            }
        }
        proof {
            assert(operations@.skip(0) =~= operations@);
        }
        let n = operations.len();
        let mut i: usize = 0;
        while i < n
            invariant
                n == operations@.len(),
                i <= n,
                spec_apply_batch(old(self)@, operations@) == spec_apply_batch(
                    staged@,
                    operations@.skip(i as int),
                ),
                old(self).wf() ==> staged.wf(),
            decreases n - i,
        {
            let ghost pre = staged@;
            let op = operations[i];
            let step = staged.apply(&op);
            proof {
                assert(operations@.skip(i as int)[0] == operations@[i as int]);
                assert(operations@.skip(i as int).skip(1) =~= operations@.skip(i as int + 1));
            }
            match step {
                Ok(()) => {},
                Err(e) => {
                    return OutcomeStatus::Failed(e);
                },
            }
            i += 1;
        }
        proof {
            assert(operations@.skip(n as int) =~= Seq::<Operation>::empty());
        }
        self.store = staged.store;
        OutcomeStatus::Processed
    }
}

} // verus!
