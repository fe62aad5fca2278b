//! Fixed-layout serialization of records, little-endian throughout. Each
//! record kind packs to a fixed number of bytes behind a leading kind tag;
//! bytes that do not decode exactly fail with `CorruptRecord`. Unpacking a
//! packed record gives the record back, which is proved below.

use vstd::prelude::*;

use vstd::bytes::{
    lemma_auto_spec_u64_to_from_le_bytes, spec_u64_from_le_bytes, spec_u64_to_le_bytes,
    u64_from_le_bytes, u64_to_le_bytes,
};
use vstd::slice::{slice_index_get, slice_subrange};

use crate::error::TokenError;
use crate::processor::Ledger;
use crate::state::{record_at, Identity, Key, Mint, Record, TokenAccount};

verus! {

/// Leading byte of a packed mint.
pub const MINT_TAG: u8 = 1;

/// Leading byte of a packed token account.
pub const ACCOUNT_TAG: u8 = 2;

/// Packed size of a mint record.
pub const MINT_LEN: usize = 29;

/// Packed size of a token account record.
pub const ACCOUNT_LEN: usize = 27;

/// An optional identity packs to a presence byte and eight value bytes; an
/// absent identity pads with zeroes.
pub open spec fn spec_pack_opt_identity(o: Option<Identity>) -> Seq<u8> {
    match o {
        None => seq![0u8] + spec_u64_to_le_bytes(0u64),
        Some(id) => seq![1u8] + spec_u64_to_le_bytes(id.value),
    }
}

/// The byte a flag packs to.
pub open spec fn spec_pack_bool(b: bool) -> u8 {
    if b {
        1u8
    } else {
        0u8
    }
}

/// The fixed layout of a record: a kind tag, then the record's fields.
pub open spec fn spec_pack_record(r: Record) -> Seq<u8> {
    match r {
        Record::Mint(m) => seq![MINT_TAG] + spec_pack_opt_identity(m.mint_authority)
            + spec_u64_to_le_bytes(m.supply) + seq![m.decimals, spec_pack_bool(m.is_initialized)]
            + spec_pack_opt_identity(m.freeze_authority),
        Record::Account(a) => seq![ACCOUNT_TAG] + spec_u64_to_le_bytes(a.mint.value)
            + spec_u64_to_le_bytes(a.owner.value) + spec_u64_to_le_bytes(a.amount)
            + seq![spec_pack_bool(a.is_initialized), spec_pack_bool(a.is_frozen)],
    }
}

/// What unpacking returns: the record the bytes lay out, or `CorruptRecord`
/// where the length, the kind tag, a presence byte or a flag byte is not
/// exactly as the layout demands.
pub open spec fn spec_unpack_record(s: Seq<u8>) -> Result<Record, TokenError> {
    if s.len() == MINT_LEN && s[0] == MINT_TAG {
        if s[1] > 1 || s[19] > 1 || s[20] > 1 {
            Err(TokenError::CorruptRecord)
        } else {
            Ok(
                Record::Mint(
                    Mint {
                        mint_authority: if s[1] == 1 {
                            Some(Identity { value: spec_u64_from_le_bytes(s.subrange(2, 10)) })
                        } else {
                            None
                        },
                        supply: spec_u64_from_le_bytes(s.subrange(10, 18)),
                        decimals: s[18],
                        freeze_authority: if s[20] == 1 {
                            Some(Identity { value: spec_u64_from_le_bytes(s.subrange(21, 29)) })
                        } else {
                            None
                        },
                        is_initialized: s[19] == 1,
                    },
                ),
            )
        }
    } else if s.len() == ACCOUNT_LEN && s[0] == ACCOUNT_TAG {
        if s[25] > 1 || s[26] > 1 {
            Err(TokenError::CorruptRecord)
        } else {
            Ok(
                Record::Account(
                    TokenAccount {
                        mint: Key { value: spec_u64_from_le_bytes(s.subrange(1, 9)) },
                        owner: Identity { value: spec_u64_from_le_bytes(s.subrange(9, 17)) },
                        amount: spec_u64_from_le_bytes(s.subrange(17, 25)),
                        is_initialized: s[25] == 1,
                        is_frozen: s[26] == 1,
                    },
                ),
            )
        }
    } else {
        Err(TokenError::CorruptRecord)
    }
}

fn push_u64(out: &mut Vec<u8>, x: u64)
    ensures
        final(out)@ == old(out)@ + spec_u64_to_le_bytes(x),
{
    let mut b = u64_to_le_bytes(x);
    out.append(&mut b);
}

fn push_opt_identity(out: &mut Vec<u8>, o: Option<Identity>)
    ensures
        final(out)@ == old(out)@ + spec_pack_opt_identity(o),
{
    match o {
        None => {
            out.push(0);
            push_u64(out, 0);
        },
        Some(id) => {
            out.push(1);
            push_u64(out, id.value);
        },
    }
    proof {
        assert(out@ =~= old(out)@ + spec_pack_opt_identity(o));
    }
}

/// Packs a record into its fixed layout.
pub fn pack_record(r: &Record) -> (out: Vec<u8>)
    ensures
        out@ == spec_pack_record(*r),
{
    let mut out: Vec<u8> = Vec::new();
    match r {
        Record::Mint(m) => {
            out.push(MINT_TAG);
            push_opt_identity(&mut out, m.mint_authority);
            push_u64(&mut out, m.supply);
            out.push(m.decimals);
            out.push(if m.is_initialized { 1 } else { 0 });
            push_opt_identity(&mut out, m.freeze_authority);
        },
        Record::Account(a) => {
            out.push(ACCOUNT_TAG);
            push_u64(&mut out, a.mint.value);
            push_u64(&mut out, a.owner.value);
            push_u64(&mut out, a.amount);
            out.push(if a.is_initialized { 1 } else { 0 });
            out.push(if a.is_frozen { 1 } else { 0 });
        },
    }
    proof {
        assert(out@ =~= spec_pack_record(*r));
    }
    out
}

/// Unpacks a record from its fixed layout, failing with `CorruptRecord` on
/// anything that is not exactly a packed record.
pub fn unpack_record(bytes: &[u8]) -> (r: Result<Record, TokenError>)
    ensures
        r == spec_unpack_record(bytes@),
{
    let n = bytes.len();
    if n == MINT_LEN && *slice_index_get(bytes, 0) == MINT_TAG {
        let auth_tag = *slice_index_get(bytes, 1);
        let init_byte = *slice_index_get(bytes, 19);
        let freeze_tag = *slice_index_get(bytes, 20);
        if auth_tag > 1 || init_byte > 1 || freeze_tag > 1 {
            return Err(TokenError::CorruptRecord);
        }
        let auth_value = u64_from_le_bytes(slice_subrange(bytes, 2, 10));
        let supply = u64_from_le_bytes(slice_subrange(bytes, 10, 18));
        let decimals = *slice_index_get(bytes, 18);
        let freeze_value = u64_from_le_bytes(slice_subrange(bytes, 21, 29));
        Ok(
            Record::Mint(
                Mint {
                    mint_authority: if auth_tag == 1 {
                        Some(Identity { value: auth_value })
                    } else {
                        None
                    },
                    supply,
                    decimals,
                    freeze_authority: if freeze_tag == 1 {
                        Some(Identity { value: freeze_value })
                    } else {
                        None
                    },
                    is_initialized: init_byte == 1,
                },
            ),
        )
    } else if n == ACCOUNT_LEN && *slice_index_get(bytes, 0) == ACCOUNT_TAG {
        let init_byte = *slice_index_get(bytes, 25);
        let frozen_byte = *slice_index_get(bytes, 26);
        if init_byte > 1 || frozen_byte > 1 {
            return Err(TokenError::CorruptRecord);
        }
        let mint_value = u64_from_le_bytes(slice_subrange(bytes, 1, 9));
        let owner_value = u64_from_le_bytes(slice_subrange(bytes, 9, 17));
        let amount = u64_from_le_bytes(slice_subrange(bytes, 17, 25));
        Ok(
            Record::Account(
                TokenAccount {
                    mint: Key { value: mint_value },
                    owner: Identity { value: owner_value },
                    amount,
                    is_initialized: init_byte == 1,
                    is_frozen: frozen_byte == 1,
                },
            ),
        )
    } else {
        Err(TokenError::CorruptRecord)
    }
}

/// Law: unpacking a packed record gives the record back, so the fixed layout
/// loses nothing.
pub proof fn lemma_pack_unpack_round_trip(r: Record)
    ensures
        spec_unpack_record(spec_pack_record(r)) == Ok::<Record, TokenError>(r),
{
    lemma_auto_spec_u64_to_from_le_bytes();
    let s = spec_pack_record(r);
    match r {
        Record::Mint(m) => {
            let au = spec_pack_opt_identity(m.mint_authority);
            let fr = spec_pack_opt_identity(m.freeze_authority);
            let sup = spec_u64_to_le_bytes(m.supply);
            assert(au.len() == 9 && fr.len() == 9 && sup.len() == 8);
            assert(s.len() == MINT_LEN);
            assert(s[0] == MINT_TAG);
            assert(s[1] == au[0]);
            assert(s.subrange(2, 10) =~= au.subrange(1, 9));
            assert(s.subrange(10, 18) =~= sup);
            assert(s[18] == m.decimals);
            assert(s[19] == spec_pack_bool(m.is_initialized));
            assert(s[20] == fr[0]);
            assert(s.subrange(21, 29) =~= fr.subrange(1, 9));
            match m.mint_authority {
                None => {
                    assert(au[0] == 0);
                },
                Some(id) => {
                    assert(au[0] == 1);
                    assert(au.subrange(1, 9) =~= spec_u64_to_le_bytes(id.value));
                },
            }
            match m.freeze_authority {
                None => {
                    assert(fr[0] == 0);
                },
                Some(id) => {
                    assert(fr[0] == 1);
                    assert(fr.subrange(1, 9) =~= spec_u64_to_le_bytes(id.value));
                },
            }
        },
        Record::Account(a) => {
            let mb = spec_u64_to_le_bytes(a.mint.value);
            let ob = spec_u64_to_le_bytes(a.owner.value);
            let ab = spec_u64_to_le_bytes(a.amount);
            assert(mb.len() == 8 && ob.len() == 8 && ab.len() == 8);
            assert(s.len() == ACCOUNT_LEN);
            assert(s[0] == ACCOUNT_TAG);
            assert(s.subrange(1, 9) =~= mb);
            assert(s.subrange(9, 17) =~= ob);
            assert(s.subrange(17, 25) =~= ab);
            assert(s[25] == spec_pack_bool(a.is_initialized));
            assert(s[26] == spec_pack_bool(a.is_frozen));
        },
    }
}

impl Ledger {
    /// The packed bytes of the record at the key, for out-of-band inspection;
    /// `None` where the slot is empty.
    pub fn read_raw(&self, key: Key) -> (r: Option<Vec<u8>>)
        ensures
            (match record_at(self@, key) {
                Some(rec) => r matches Some(b) && b@ == spec_pack_record(rec),
                None => r is None,
            }),
    {
        match self.store.get(key) {
            Some(rec) => Some(pack_record(&rec)),
            None => None,
        }
    }
}

} // verus!
