//! The instruction processor: the five operations over the account store,
//! each specified as a transition on the store's map view. An operation
//! either returns `Ok` and moves the store to exactly the state the spec
//! transition gives, or returns the spec transition's error and leaves the
//! store unchanged.
//!
//! Check order within an operation: every slot the operation reads is
//! resolved first (a missing or uninitialized record fails with
//! `NotInitialized`, an initialized record of the wrong kind with
//! `CorruptRecord`), then authority and ownership, then frozen flags and
//! funds, then overflow-checked arithmetic. A key with no record reads as an
//! uninitialized slot: allocation and rent are the surrounding collaborator's
//! concern, not the engine's.

use vstd::prelude::*;

use crate::error::TokenError;
use crate::state::{contribution, record_initialized, Identity, Key, Mint, Record, TokenAccount};
use crate::store::AccountStore;

verus! {

/// The mint the slot holds, or why it cannot be read as one.
pub open spec fn resolve_mint(s: Map<Key, Record>, k: Key) -> Result<Mint, TokenError> {
    if !s.contains_key(k) {
        Err(TokenError::NotInitialized)
    } else if !record_initialized(s[k]) {
        Err(TokenError::NotInitialized)
    } else {
        match s[k] {
            Record::Mint(m) => Ok(m),
            Record::Account(_) => Err(TokenError::CorruptRecord),
        }
    }
}

/// The token account the slot holds, or why it cannot be read as one.
pub open spec fn resolve_account(s: Map<Key, Record>, k: Key) -> Result<TokenAccount, TokenError> {
    if !s.contains_key(k) {
        Err(TokenError::NotInitialized)
    } else if !record_initialized(s[k]) {
        Err(TokenError::NotInitialized)
    } else {
        match s[k] {
            Record::Mint(_) => Err(TokenError::CorruptRecord),
            Record::Account(a) => Ok(a),
        }
    }
}

/// Whether the slot holds an initialized record; a missing slot counts as
/// uninitialized.
pub open spec fn slot_initialized(s: Map<Key, Record>, k: Key) -> bool {
    s.contains_key(k) && record_initialized(s[k])
}

/// The transition `initialize_mint` performs: exactly-once initialization of
/// a mint slot with zero supply.
pub open spec fn spec_initialize_mint(
    s: Map<Key, Record>,
    mint_key: Key,
    mint_authority: Option<Identity>,
    freeze_authority: Option<Identity>,
    decimals: u8,
) -> Result<Map<Key, Record>, TokenError> {
    if slot_initialized(s, mint_key) {
        Err(TokenError::AlreadyInitialized)
    } else {
        Ok(
            s.insert(
                mint_key,
                Record::Mint(
                    Mint {
                        mint_authority,
                        supply: 0,
                        decimals,
                        freeze_authority,
                        is_initialized: true,
                    },
                ),
            ),
        )
    }
}

/// The transition `initialize_account` performs: exactly-once initialization
/// of an account slot, bound to an existing initialized mint, with zero
/// balance.
pub open spec fn spec_initialize_account(
    s: Map<Key, Record>,
    account_key: Key,
    mint_key: Key,
    owner: Identity,
) -> Result<Map<Key, Record>, TokenError> {
    if slot_initialized(s, account_key) {
        Err(TokenError::AlreadyInitialized)
    } else if !(resolve_mint(s, mint_key) is Ok) {
        Err(TokenError::MintNotFound)
    } else {
        Ok(
            s.insert(
                account_key,
                Record::Account(
                    TokenAccount {
                        mint: mint_key,
                        owner,
                        amount: 0,
                        is_initialized: true,
                        is_frozen: false,
                    },
                ),
            ),
        )
    }
}

/// The transition `mint_to` performs: the mint's authority raises the
/// destination account's balance and the supply by the same amount.
pub open spec fn spec_mint_to(
    s: Map<Key, Record>,
    mint_key: Key,
    dest_key: Key,
    authority: Identity,
    amount: u64,
) -> Result<Map<Key, Record>, TokenError> {
    match resolve_mint(s, mint_key) {
        Err(e) => Err(e),
        Ok(m) => match resolve_account(s, dest_key) {
            Err(e) => Err(e),
            Ok(a) => if !(m.mint_authority matches Some(auth) && auth == authority) {
                Err(TokenError::AuthorityMismatch)
            } else if a.mint != mint_key {
                Err(TokenError::MintMismatch)
            } else if a.is_frozen {
                Err(TokenError::AccountFrozen)
            } else if m.supply + amount > u64::MAX || a.amount + amount > u64::MAX {
                Err(TokenError::ArithmeticError)
            } else {
                Ok(
                    s.insert(
                        mint_key,
                        Record::Mint(Mint { supply: (m.supply + amount) as u64, ..m }),
                    ).insert(
                        dest_key,
                        Record::Account(TokenAccount { amount: (a.amount + amount) as u64, ..a }),
                    ),
                )
            },
        },
    }
}

/// The transition `transfer` performs: the source's owner moves an amount
/// from the source account to a destination account of the same mint. A
/// transfer from an account to itself leaves the store unchanged, but is
/// checked like any other.
pub open spec fn spec_transfer(
    s: Map<Key, Record>,
    source_key: Key,
    dest_key: Key,
    owner: Identity,
    amount: u64,
) -> Result<Map<Key, Record>, TokenError> {
    match resolve_account(s, source_key) {
        Err(e) => Err(e),
        Ok(src) => match resolve_account(s, dest_key) {
            Err(e) => Err(e),
            Ok(dst) => if src.is_frozen {
                Err(TokenError::AccountFrozen)
            } else if src.owner != owner {
                Err(TokenError::AuthorityMismatch)
            } else if dst.mint != src.mint {
                Err(TokenError::MintMismatch)
            } else if dst.is_frozen {
                Err(TokenError::AccountFrozen)
            } else if src.amount < amount {
                Err(TokenError::InsufficientFunds)
            } else if source_key == dest_key {
                Ok(s)
            } else if dst.amount + amount > u64::MAX {
                Err(TokenError::ArithmeticError)
            } else {
                Ok(
                    s.insert(
                        source_key,
                        Record::Account(TokenAccount { amount: (src.amount - amount) as u64, ..src }),
                    ).insert(
                        dest_key,
                        Record::Account(TokenAccount { amount: (dst.amount + amount) as u64, ..dst }),
                    ),
                )
            },
        },
    }
}

/// The transition `burn` performs: the account's owner destroys an amount of
/// its balance, lowering the mint's supply by the same amount.
pub open spec fn spec_burn(
    s: Map<Key, Record>,
    account_key: Key,
    mint_key: Key,
    owner: Identity,
    amount: u64,
) -> Result<Map<Key, Record>, TokenError> {
    match resolve_account(s, account_key) {
        Err(e) => Err(e),
        Ok(src) => match resolve_mint(s, mint_key) {
            Err(e) => Err(e),
            Ok(m) => if src.is_frozen {
                Err(TokenError::AccountFrozen)
            } else if src.owner != owner {
                Err(TokenError::AuthorityMismatch)
            } else if src.amount < amount {
                Err(TokenError::InsufficientFunds)
            } else if src.mint != mint_key {
                Err(TokenError::MintMismatch)
            } else if m.supply < amount {
                Err(TokenError::ArithmeticError)
            } else {
                Ok(
                    s.insert(
                        account_key,
                        Record::Account(TokenAccount { amount: (src.amount - amount) as u64, ..src }),
                    ).insert(
                        mint_key,
                        Record::Mint(Mint { supply: (m.supply - amount) as u64, ..m }),
                    ),
                )
            },
        },
    }
}

/// What a balance query returns: the account's balance, or why the slot
/// cannot be read as an account.
pub open spec fn spec_balance(s: Map<Key, Record>, account_key: Key) -> Result<u64, TokenError> {
    match resolve_account(s, account_key) {
        Ok(a) => Ok(a.amount),
        Err(e) => Err(e),
    }
}

/// What a supply query returns: the mint's outstanding supply, or why the
/// slot cannot be read as a mint.
pub open spec fn spec_supply(s: Map<Key, Record>, mint_key: Key) -> Result<u64, TokenError> {
    match resolve_mint(s, mint_key) {
        Ok(m) => Ok(m.supply),
        Err(e) => Err(e),
    }
}

/// The ledger: an account store driven through the five operations.
pub struct Ledger {
    pub store: AccountStore,
}

impl View for Ledger {
    type V = Map<Key, Record>;

    open spec fn view(&self) -> Map<Key, Record> {
        self.store@
    }
}

impl Ledger {
    /// The sum of the balances of the initialized accounts of the given mint.
    pub open spec fn sum_balances(self, mint: Key) -> int {
        self.store.sum_balances(mint)
    }

    /// What well-formedness asks of the record at one key: an initialized
    /// mint's recorded supply equals the sum of the balances of that mint's
    /// accounts, and an initialized account references an initialized mint.
    pub open spec fn wf_at(self, k: Key) -> bool {
        match self@[k] {
            Record::Mint(m) => m.is_initialized ==> m.supply == self.sum_balances(k),
            Record::Account(a) => a.is_initialized ==> resolve_mint(self@, a.mint) is Ok,
        }
    }

    /// Well-formedness: every initialized mint's recorded supply equals the
    /// sum of the balances of that mint's accounts, and every initialized
    /// account belongs to an initialized mint. A fresh ledger is well-formed
    /// and every operation preserves this.
    pub open spec fn wf(self) -> bool {
        forall|k: Key| #[trigger] self@.contains_key(k) ==> self.wf_at(k)
    }

    /// An empty, well-formed ledger.
    pub fn new() -> (l: Self)
        ensures
            l@ == Map::<Key, Record>::empty(),
            l.wf(),
    {
        Ledger { store: AccountStore::new() }
    }

    fn read_mint(&self, key: Key) -> (r: Result<Mint, TokenError>)
        ensures
            r == resolve_mint(self@, key),
    {
        match self.store.get(key) {
            None => Err(TokenError::NotInitialized),
            Some(Record::Mint(m)) => if m.is_initialized {
                Ok(m)
            } else {
                Err(TokenError::NotInitialized)
            },
            Some(Record::Account(a)) => if a.is_initialized {
                Err(TokenError::CorruptRecord)
            } else {
                Err(TokenError::NotInitialized)
            },
        }
    }

    fn read_account(&self, key: Key) -> (r: Result<TokenAccount, TokenError>)
        ensures
            r == resolve_account(self@, key),
    {
        match self.store.get(key) {
            None => Err(TokenError::NotInitialized),
            Some(Record::Account(a)) => if a.is_initialized {
                Ok(a)
            } else {
                Err(TokenError::NotInitialized)
            },
            Some(Record::Mint(m)) => if m.is_initialized {
                Err(TokenError::CorruptRecord)
            } else {
                Err(TokenError::NotInitialized)
            },
        }
    }

    /// Initializes a mint: sets its authorities and decimals, a supply of
    /// zero, and marks it initialized. Fails with `AlreadyInitialized` if the
    /// slot already holds an initialized record.
    pub fn initialize_mint(
        &mut self,
        mint_key: Key,
        mint_authority: Option<Identity>,
        freeze_authority: Option<Identity>,
        decimals: u8,
    ) -> (r: Result<(), TokenError>)
        ensures
            (match spec_initialize_mint(
                old(self)@,
                mint_key,
                mint_authority,
                freeze_authority,
                decimals,
            ) {
                Ok(s2) => r == Ok::<(), TokenError>(()) && final(self)@ == s2,
                Err(e) => r == Err::<(), TokenError>(e) && final(self)@ == old(self)@,
            }),
            old(self).wf() ==> final(self).wf(),
    {
        let initialized = match self.store.get(mint_key) {
            None => false,
            Some(Record::Mint(m)) => m.is_initialized,
            Some(Record::Account(a)) => a.is_initialized,
        };
        if initialized {
            return Err(TokenError::AlreadyInitialized);
        }
        let rec = Record::Mint(
            Mint { mint_authority, supply: 0, decimals, freeze_authority, is_initialized: true },
        );
        self.store.put(mint_key, rec);
        self.store.note_no_contribution_sum_zero(mint_key);
        proof {
            if old(self).wf() {
                assert forall|k: Key| #[trigger] self@.contains_key(k) implies contribution(
                    self@[k],
                    mint_key,
                ) == 0 by {
                    if k != mint_key {
                        assert(old(self)@.contains_key(k));
                        assert(old(self).wf_at(k));
                    }
                }
                assert(self.sum_balances(mint_key) == 0);
                assert forall|k: Key| #[trigger] self@.contains_key(k) implies self.wf_at(k) by {
                    if k != mint_key {
                        assert(old(self)@.contains_key(k));
                        assert(old(self).wf_at(k));
                        assert(self.sum_balances(k) == old(self).sum_balances(k));
                    }
                }
            }
        }
        Ok(())
    }

    /// Initializes an account: binds it to an initialized mint and an owner,
    /// with a balance of zero. Fails with `AlreadyInitialized` if the slot
    /// already holds an initialized record, and with `MintNotFound` if the
    /// referenced mint is not an initialized mint.
    pub fn initialize_account(&mut self, account_key: Key, mint_key: Key, owner: Identity) -> (r:
        Result<(), TokenError>)
        ensures
            (match spec_initialize_account(old(self)@, account_key, mint_key, owner) {
                Ok(s2) => r == Ok::<(), TokenError>(()) && final(self)@ == s2,
                Err(e) => r == Err::<(), TokenError>(e) && final(self)@ == old(self)@,
            }),
            old(self).wf() ==> final(self).wf(),
    {
        let initialized = match self.store.get(account_key) {
            None => false,
            Some(Record::Mint(m)) => m.is_initialized,
            Some(Record::Account(a)) => a.is_initialized,
        };
        if initialized {
            return Err(TokenError::AlreadyInitialized);
        }
        if self.read_mint(mint_key).is_err() {
            return Err(TokenError::MintNotFound);
        }
        let rec = Record::Account(
            TokenAccount { mint: mint_key, owner, amount: 0, is_initialized: true, is_frozen: false },
        );
        self.store.put(account_key, rec);
        proof {
            if old(self).wf() {
                assert forall|k: Key| #[trigger] self@.contains_key(k) implies self.wf_at(k) by {
                    assert(self.sum_balances(k) == old(self).sum_balances(k));
                    if k != account_key {
                        assert(old(self)@.contains_key(k));
                        assert(old(self).wf_at(k));
                    }
                }
            }
        }
        Ok(())
    }

    /// Mints an amount to an account: the presented identity must be the
    /// mint's authority, the destination must be an unfrozen account of that
    /// mint, and both the supply and the balance must stay within range.
    /// An amount of zero succeeds and changes nothing.
    pub fn mint_to(&mut self, mint_key: Key, dest_key: Key, authority: Identity, amount: u64) -> (r:
        Result<(), TokenError>)
        ensures
            (match spec_mint_to(old(self)@, mint_key, dest_key, authority, amount) {
                Ok(s2) => r == Ok::<(), TokenError>(()) && final(self)@ == s2,
                Err(e) => r == Err::<(), TokenError>(e) && final(self)@ == old(self)@,
            }),
            old(self).wf() ==> final(self).wf(),
    {
        let m = match self.read_mint(mint_key) {
            Err(e) => return Err(e),
            Ok(m) => m,
        };
        let a = match self.read_account(dest_key) {
            Err(e) => return Err(e),
            Ok(a) => a,
        };
        let authority_ok = match m.mint_authority {
            Some(auth) => auth == authority,
            None => false,
        };
        if !authority_ok {
            return Err(TokenError::AuthorityMismatch);
        }
        if a.mint != mint_key {
            return Err(TokenError::MintMismatch);
        }
        if a.is_frozen {
            return Err(TokenError::AccountFrozen);
        }
        if amount > u64::MAX - m.supply || amount > u64::MAX - a.amount {
            return Err(TokenError::ArithmeticError);
        }
        let new_mint = Mint { supply: m.supply + amount, ..m };
        let new_account = TokenAccount { amount: a.amount + amount, ..a };
        proof {
            assert(mint_key != dest_key);
        }
        self.store.put(mint_key, Record::Mint(new_mint));
        let ghost mid = *self;
        self.store.put(dest_key, Record::Account(new_account));
        proof {
            assert forall|k: Key|
                self.sum_balances(k) == old(self).sum_balances(k) + (if k == mint_key {
                    amount as int
                } else {
                    0
                }) by {
                assert(mid.sum_balances(k) == old(self).sum_balances(k));
            }
            if old(self).wf() {
                assert forall|k: Key| #[trigger] self@.contains_key(k) implies self.wf_at(k) by {
                    if k != mint_key && k != dest_key {
                        assert(old(self)@.contains_key(k));
                        assert(old(self).wf_at(k));
                    } else if k == mint_key {
                        assert(old(self).wf_at(mint_key));
                    }
                }
            }
        }
        Ok(())
    }

    /// Transfers an amount between two accounts of the same mint: the
    /// presented identity must own the source, neither account may be frozen,
    /// and the source must hold at least the amount. An amount of zero
    /// succeeds and changes nothing; a transfer to the account itself leaves
    /// its balance exactly as it was.
    pub fn transfer(&mut self, source_key: Key, dest_key: Key, owner: Identity, amount: u64) -> (r:
        Result<(), TokenError>)
        ensures
            (match spec_transfer(old(self)@, source_key, dest_key, owner, amount) {
                Ok(s2) => r == Ok::<(), TokenError>(()) && final(self)@ == s2,
                Err(e) => r == Err::<(), TokenError>(e) && final(self)@ == old(self)@,
            }),
            old(self).wf() ==> final(self).wf(),
    {
        let src = match self.read_account(source_key) {
            Err(e) => return Err(e),
            Ok(a) => a,
        };
        let dst = match self.read_account(dest_key) {
            Err(e) => return Err(e),
            Ok(a) => a,
        };
        if src.is_frozen {
            return Err(TokenError::AccountFrozen);
        }
        if src.owner != owner {
            return Err(TokenError::AuthorityMismatch);
        }
        if dst.mint != src.mint {
            return Err(TokenError::MintMismatch);
        }
        if dst.is_frozen {
            return Err(TokenError::AccountFrozen);
        }
        if src.amount < amount {
            return Err(TokenError::InsufficientFunds);
        }
        if source_key == dest_key {
            return Ok(());
        }
        if amount > u64::MAX - dst.amount {
            return Err(TokenError::ArithmeticError);
        }
        let new_source = TokenAccount { amount: src.amount - amount, ..src };
        let new_dest = TokenAccount { amount: dst.amount + amount, ..dst };
        self.store.put(source_key, Record::Account(new_source));
        let ghost mid = *self;
        self.store.put(dest_key, Record::Account(new_dest));
        proof {
            assert forall|k: Key| self.sum_balances(k) == old(self).sum_balances(k) by {
                assert(mid.sum_balances(k) == old(self).sum_balances(k) - (if k == src.mint {
                    amount as int
                } else {
                    0
                }));
            }
            if old(self).wf() {
                assert forall|k: Key| #[trigger] self@.contains_key(k) implies self.wf_at(k) by {
                    if k != source_key && k != dest_key {
                        assert(old(self)@.contains_key(k));
                        assert(old(self).wf_at(k));
                    } else {
                        assert(old(self).wf_at(k));
                    }
                }
            }
        }
        Ok(())
    }

    /// Burns an amount from an account: the presented identity must own the
    /// account, the account must be an unfrozen account of the given mint,
    /// and hold at least the amount. The amount leaves both the balance and
    /// the mint's supply. An amount of zero succeeds and changes nothing.
    pub fn burn(&mut self, account_key: Key, mint_key: Key, owner: Identity, amount: u64) -> (r:
        Result<(), TokenError>)
        ensures
            (match spec_burn(old(self)@, account_key, mint_key, owner, amount) {
                Ok(s2) => r == Ok::<(), TokenError>(()) && final(self)@ == s2,
                Err(e) => r == Err::<(), TokenError>(e) && final(self)@ == old(self)@,
            }),
            old(self).wf() ==> final(self).wf(),
    {
        let src = match self.read_account(account_key) {
            Err(e) => return Err(e),
            Ok(a) => a,
        };
        let m = match self.read_mint(mint_key) {
            Err(e) => return Err(e),
            Ok(m) => m,
        };
        if src.is_frozen {
            return Err(TokenError::AccountFrozen);
        }
        if src.owner != owner {
            return Err(TokenError::AuthorityMismatch);
        }
        if src.amount < amount {
            return Err(TokenError::InsufficientFunds);
        }
        if src.mint != mint_key {
            return Err(TokenError::MintMismatch);
        }
        if m.supply < amount {
            return Err(TokenError::ArithmeticError);
        }
        let new_account = TokenAccount { amount: src.amount - amount, ..src };
        let new_mint = Mint { supply: m.supply - amount, ..m };
        proof {
            assert(account_key != mint_key);
        }
        self.store.put(account_key, Record::Account(new_account));
        let ghost mid = *self;
        self.store.put(mint_key, Record::Mint(new_mint));
        proof {
            assert forall|k: Key|
                self.sum_balances(k) == old(self).sum_balances(k) - (if k == mint_key {
                    amount as int
                } else {
                    0
                }) by {
                assert(mid.sum_balances(k) == old(self).sum_balances(k) - (if k == mint_key {
                    amount as int
                } else {
                    0
                }));
            }
            if old(self).wf() {
                assert forall|k: Key| #[trigger] self@.contains_key(k) implies self.wf_at(k) by {
                    if k != account_key && k != mint_key {
                        assert(old(self)@.contains_key(k));
                        assert(old(self).wf_at(k));
                    } else if k == mint_key {
                        assert(old(self).wf_at(mint_key));
                    }
                }
            }
        }
        Ok(())
    }

    /// The balance of an initialized account.
    pub fn balance(&self, account_key: Key) -> (r: Result<u64, TokenError>)
        ensures
            r == spec_balance(self@, account_key),
    {
        match self.read_account(account_key) {
            Ok(a) => Ok(a.amount),
            Err(e) => Err(e),
        }
    }

    /// The outstanding supply of an initialized mint.
    pub fn supply(&self, mint_key: Key) -> (r: Result<u64, TokenError>)
        ensures
            r == spec_supply(self@, mint_key),
    {
        match self.read_mint(mint_key) {
            Ok(m) => Ok(m.supply),
            Err(e) => Err(e),
        }
    }

    /// Computes the sum of the balances of the mint's accounts by walking the
    /// store; in a well-formed ledger it equals the mint's recorded supply.
    pub fn total_balance(&self, mint: Key) -> (r: u128)
        ensures
            r as int == self.sum_balances(mint),
    {
        self.store.total_balance(mint)
    }
}

} // verus!
