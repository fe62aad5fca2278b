//! The account store: key-addressed storage of records, the unit of
//! atomicity for every operation. Its abstract view is a map from keys to
//! records; alongside the map it exposes, for each mint, the sum of the
//! balances of that mint's accounts, which the ledger's well-formedness ties
//! to the mint's recorded supply.

use vstd::prelude::*;

use crate::state::{contribution, opt_contribution, record_at, Key, Record};

verus! {

/// The map a sequence of slot entries denotes: later entries win, though the
/// store keeps keys unique so the question never arises.
pub open spec fn seq_to_map(s: Seq<(Key, Record)>) -> Map<Key, Record>
    decreases s.len(),
{
    if s.len() == 0 {
        Map::empty()
    } else {
        seq_to_map(s.drop_last()).insert(s.last().0, s.last().1)
    }
}

/// The sum of the balances the entries contribute to the given mint.
pub open spec fn seq_sum(s: Seq<(Key, Record)>, mint: Key) -> int
    decreases s.len(),
{
    if s.len() == 0 {
        0
    } else {
        seq_sum(s.drop_last(), mint) + contribution(s.last().1, mint)
    }
}

/// No key occurs twice among the entries.
pub open spec fn keys_unique(s: Seq<(Key, Record)>) -> bool {
    forall|i: int, j: int| 0 <= i < j < s.len() ==> (#[trigger] s[i]).0 != (#[trigger] s[j]).0
}

proof fn lemma_seq_to_map_contains(s: Seq<(Key, Record)>, k: Key)
    ensures
        seq_to_map(s).contains_key(k) <==> exists|i: int| 0 <= i < s.len() && (#[trigger] s[i]).0 == k,
    decreases s.len(),
{
    if s.len() > 0 {
        lemma_seq_to_map_contains(s.drop_last(), k);
        if s.last().0 == k {
            assert(s[s.len() - 1].0 == k);
        } else if seq_to_map(s).contains_key(k) {
            let i = choose|i: int| 0 <= i < s.drop_last().len() && (#[trigger] s.drop_last()[i]).0 == k;
            assert(s[i].0 == k);
        } else if exists|i: int| 0 <= i < s.len() && (#[trigger] s[i]).0 == k {
            let i = choose|i: int| 0 <= i < s.len() && (#[trigger] s[i]).0 == k;
            assert(s.drop_last()[i].0 == k);
        }
    }
}

proof fn lemma_seq_to_map_some_index(s: Seq<(Key, Record)>, k: Key)
    requires
        seq_to_map(s).contains_key(k),
    ensures
        exists|i: int|
            0 <= i < s.len() && (#[trigger] s[i]).0 == k && s[i].1 == seq_to_map(s)[k],
    decreases s.len(),
{
    if s.len() > 0 {
        if s.last().0 == k {
            assert(s[s.len() - 1].0 == k && s[s.len() - 1].1 == seq_to_map(s)[k]);
        } else {
            lemma_seq_to_map_some_index(s.drop_last(), k);
            let i = choose|i: int|
                0 <= i < s.drop_last().len() && (#[trigger] s.drop_last()[i]).0 == k
                    && s.drop_last()[i].1 == seq_to_map(s.drop_last())[k];
            assert(s[i].0 == k && s[i].1 == seq_to_map(s)[k]);
        }
    }
}

proof fn lemma_seq_to_map_index(s: Seq<(Key, Record)>, i: int)
    requires
        keys_unique(s),
        0 <= i < s.len(),
    ensures
        seq_to_map(s).contains_key(s[i].0),
        seq_to_map(s)[s[i].0] == s[i].1,
    decreases s.len(),
{
    lemma_seq_to_map_contains(s, s[i].0);
    if i < s.len() - 1 {
        assert(s.drop_last()[i] == s[i]);
        lemma_seq_to_map_index(s.drop_last(), i);
        assert(s.last().0 != s[i].0);
    }
}

proof fn lemma_seq_to_map_update(s: Seq<(Key, Record)>, i: int, r: Record)
    requires
        keys_unique(s),
        0 <= i < s.len(),
    ensures
        seq_to_map(s.update(i, (s[i].0, r))) =~= seq_to_map(s).insert(s[i].0, r),
    decreases s.len(),
{
    let t = s.update(i, (s[i].0, r));
    if i == s.len() - 1 {
        assert(t.drop_last() =~= s.drop_last());
        assert(t.last() == (s[i].0, r));
    } else {
        assert(t.drop_last() =~= s.drop_last().update(i, (s[i].0, r)));
        assert(s.drop_last()[i] == s[i]);
        lemma_seq_to_map_update(s.drop_last(), i, r);
        assert(t.last() == s.last());
        assert(s.last().0 != s[i].0);
    }
}

proof fn lemma_seq_sum_update(s: Seq<(Key, Record)>, i: int, e: (Key, Record), mint: Key)
    requires
        0 <= i < s.len(),
    ensures
        seq_sum(s.update(i, e), mint) == seq_sum(s, mint) - contribution(s[i].1, mint)
            + contribution(e.1, mint),
    decreases s.len(),
{
    let t = s.update(i, e);
    if i == s.len() - 1 {
        assert(t.drop_last() =~= s.drop_last());
        assert(t.last() == e);
    } else {
        assert(t.drop_last() =~= s.drop_last().update(i, e));
        assert(s.drop_last()[i] == s[i]);
        lemma_seq_sum_update(s.drop_last(), i, e, mint);
        assert(t.last() == s.last());
    }
}

proof fn lemma_seq_push(s: Seq<(Key, Record)>, e: (Key, Record), mint: Key)
    ensures
        seq_to_map(s.push(e)) =~= seq_to_map(s).insert(e.0, e.1),
        seq_sum(s.push(e), mint) == seq_sum(s, mint) + contribution(e.1, mint),
{
    assert(s.push(e).drop_last() =~= s);
    assert(s.push(e).last() == e);
}

proof fn lemma_seq_sum_nonneg(s: Seq<(Key, Record)>, mint: Key)
    ensures
        seq_sum(s, mint) >= 0,
    decreases s.len(),
{
    if s.len() > 0 {
        lemma_seq_sum_nonneg(s.drop_last(), mint);
    }
}

proof fn lemma_seq_sum_zero(s: Seq<(Key, Record)>, mint: Key)
    requires
        forall|i: int| 0 <= i < s.len() ==> contribution((#[trigger] s[i]).1, mint) == 0,
    ensures
        seq_sum(s, mint) == 0,
    decreases s.len(),
{
    if s.len() > 0 {
        assert forall|i: int| 0 <= i < s.drop_last().len() implies contribution(
            (#[trigger] s.drop_last()[i]).1,
            mint,
        ) == 0 by {
            assert(s.drop_last()[i] == s[i]);
        }
        lemma_seq_sum_zero(s.drop_last(), mint);
        assert(contribution(s[s.len() - 1].1, mint) == 0);
    }
}

proof fn lemma_seq_sum_at_least(s: Seq<(Key, Record)>, i: int, mint: Key)
    requires
        0 <= i < s.len(),
    ensures
        seq_sum(s, mint) >= contribution(s[i].1, mint),
    decreases s.len(),
{
    if i == s.len() - 1 {
        lemma_seq_sum_nonneg(s.drop_last(), mint);
    } else {
        assert(s.drop_last()[i] == s[i]);
        lemma_seq_sum_at_least(s.drop_last(), i, mint);
        assert(contribution(s.last().1, mint) >= 0);
    }
}

/// Key-addressed storage of records. A failed operation never reaches `put`,
/// so the store seen by callers changes only when a whole operation succeeds.
pub struct AccountStore {
    entries: Vec<(Key, Record)>,
}

impl View for AccountStore {
    type V = Map<Key, Record>;

    closed spec fn view(&self) -> Map<Key, Record> {
        seq_to_map(self.entries@)
    }
}

impl AccountStore {
    #[verifier::type_invariant]
    spec fn well_formed(self) -> bool {
        keys_unique(self.entries@)
    }

    /// The sum of the balances of the initialized accounts of the given mint.
    pub closed spec fn sum_balances(self, mint: Key) -> int {
        seq_sum(self.entries@, mint)
    }

    /// An empty store: no records, so every mint's balance total is zero.
    pub fn new() -> (s: Self)
        ensures
            s@ == Map::<Key, Record>::empty(),
            forall|m: Key| s.sum_balances(m) == 0,
    {
        let s = AccountStore { entries: Vec::new() };
        proof {
            assert(s@ =~= Map::<Key, Record>::empty());
        }
        s
    }

    /// Looks a key up, returning the record stored under it, if any.
    pub fn get(&self, key: Key) -> (r: Option<Record>)
        ensures
            r == record_at(self@, key),
    {
        proof {
            use_type_invariant(self);
        }
        let n = self.entries.len();
        let mut i: usize = 0;
        while i < n
            invariant
                n == self.entries.len(),
                i <= n,
                keys_unique(self.entries@),
                forall|j: int| 0 <= j < i ==> (#[trigger] self.entries@[j]).0 != key,
            decreases n - i,
        {
            if self.entries[i].0 == key {
                proof {
                    lemma_seq_to_map_index(self.entries@, i as int);
                }
                return Some(self.entries[i].1);
            }
            i += 1;
        }
        proof {
            lemma_seq_to_map_contains(self.entries@, key);
        }
        None
    }

    /// Whether a record is stored under the key.
    pub fn contains(&self, key: Key) -> (r: bool)
        ensures
            r == self@.contains_key(key),
    {
        self.get(key).is_some()
    }

    /// Stores the record under the key, replacing what was there. The balance
    /// total of every mint shifts by the difference between the new record's
    /// contribution and the replaced one's.
    pub fn put(&mut self, key: Key, rec: Record)
        ensures
            final(self)@ == old(self)@.insert(key, rec),
            forall|m: Key|
                final(self).sum_balances(m) == old(self).sum_balances(m) + contribution(rec, m)
                    - opt_contribution(record_at(old(self)@, key), m),
    {
        proof {
            use_type_invariant(&*self);
        }
        let ghost s0 = self.entries@;
        let mut entries: Vec<(Key, Record)> = Vec::new();
        std::mem::swap(&mut entries, &mut self.entries);
        let n = entries.len();
        let mut i: usize = 0;
        while i < n && entries[i].0 != key
            invariant
                entries@ == s0,
                n == s0.len(),
                i <= n,
                keys_unique(s0),
                forall|j: int| 0 <= j < i ==> (#[trigger] s0[j]).0 != key,
            decreases n - i,
        {
            i += 1;
        }
        if i < n {
            proof {
                lemma_seq_to_map_index(s0, i as int);
                lemma_seq_to_map_update(s0, i as int, rec);
                assert forall|m: Key|
                    seq_sum(s0.update(i as int, (key, rec)), m) == seq_sum(s0, m) + contribution(
                        rec,
                        m,
                    ) - opt_contribution(record_at(seq_to_map(s0), key), m) by {
                    lemma_seq_sum_update(s0, i as int, (key, rec), m);
                }
            }
            entries.set(i, (key, rec));
        } else {
            proof {
                lemma_seq_to_map_contains(s0, key);
                lemma_seq_push(s0, (key, rec), key);
                assert forall|m: Key|
                    seq_sum(s0.push((key, rec)), m) == seq_sum(s0, m) + contribution(rec, m)
                        - opt_contribution(record_at(seq_to_map(s0), key), m) by {
                    lemma_seq_push(s0, (key, rec), m);
                }
            }
            entries.push((key, rec));
        }
        self.entries = entries;
    }

    /// Copies the store: the copy denotes the same map and the same balance
    /// totals. Used to stage a batch of operations before committing it.
    pub fn duplicate(&self) -> (r: Self)
        ensures
            r@ == self@,
            forall|m: Key| r.sum_balances(m) == self.sum_balances(m),
    {
        proof {
            use_type_invariant(self);
        }
        let n = self.entries.len();
        let mut copied: Vec<(Key, Record)> = Vec::new();
        let mut i: usize = 0;
        while i < n
            invariant
                n == self.entries.len(),
                i <= n,
                copied@ =~= self.entries@.take(i as int),
            decreases n - i,
        {
            copied.push(self.entries[i]);
            proof {
                assert(copied@ =~= self.entries@.take(i + 1));
            }
            i += 1;
        }
        proof {
            assert(copied@ =~= self.entries@);
        }
        AccountStore { entries: copied }
    }

    /// Computes the balance total the store's view promises for the mint:
    /// the sum of the balances of the mint's initialized accounts.
    pub fn total_balance(&self, mint: Key) -> (r: u128)
        ensures
            r as int == self.sum_balances(mint),
    {
        proof {
            use_type_invariant(self);
        }
        let n = self.entries.len();
        let mut total: u128 = 0;
        let mut i: usize = 0;
        while i < n
            invariant
                n == self.entries.len(),
                i <= n,
                total as int == seq_sum(self.entries@.take(i as int), mint),
                total <= (i as u128) * (u64::MAX as u128),
            decreases n - i,
        {
            let ghost prefix = self.entries@.take(i as int);
            proof {
                assert(self.entries@.take(i + 1).drop_last() =~= prefix);
                assert(self.entries@.take(i + 1).last() == self.entries@[i as int]);
                assert((i as u128 + 1) * (u64::MAX as u128) == (i as u128) * (u64::MAX as u128)
                    + (u64::MAX as u128)) by (nonlinear_arith);
                assert((i as u128) * (u64::MAX as u128) <= (u128::MAX - u64::MAX as u128)) by (nonlinear_arith)
                    requires
                        i <= usize::MAX,
                ;
            }
            let (_, rec) = self.entries[i];
            match rec {
                Record::Account(a) => {
                    if a.is_initialized && a.mint == mint {
                        total = total + (a.amount as u128);
                    }
                },
                Record::Mint(_) => {},
            }
            i += 1;
        }
        proof {
            assert(self.entries@.take(n as int) =~= self.entries@);
        }
        total
    }

    /// Establishes that a mint no stored record contributes to has a zero
    /// balance total. The body is all ghost; the call compiles to nothing.
    pub(crate) fn note_no_contribution_sum_zero(&self, mint: Key)
        ensures
            (forall|k: Key| #[trigger] self@.contains_key(k) ==> contribution(self@[k], mint) == 0)
                ==> self.sum_balances(mint) == 0,
    {
        proof {
            use_type_invariant(self);
            if forall|k: Key| #[trigger] self@.contains_key(k) ==> contribution(self@[k], mint)
                == 0 {
                assert forall|i: int| 0 <= i < self.entries@.len() implies contribution(
                    (#[trigger] self.entries@[i]).1,
                    mint,
                ) == 0 by {
                    lemma_seq_to_map_index(self.entries@, i);
                }
                lemma_seq_sum_zero(self.entries@, mint);
            }
        }
    }

    /// In any store, one record's contribution to a mint's balance total is
    /// at most the whole total: an initialized account's balance never
    /// exceeds the sum over its mint.
    pub proof fn lemma_contribution_le_sum(&self, key: Key, mint: Key)
        requires
            self@.contains_key(key),
        ensures
            contribution(self@[key], mint) <= self.sum_balances(mint),
    {
        lemma_seq_to_map_some_index(self.entries@, key);
        let i = choose|i: int|
            0 <= i < self.entries@.len() && (#[trigger] self.entries@[i]).0 == key
                && self.entries@[i].1 == seq_to_map(self.entries@)[key];
        lemma_seq_sum_at_least(self.entries@, i, mint);
    }
}

} // verus!
