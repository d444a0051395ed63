use vstd::prelude::*;
use vstd::bytes::{spec_u64_to_le_bytes, spec_u64_from_le_bytes, u64_to_le_bytes, u64_from_le_bytes,
    lemma_auto_spec_u64_to_from_le_bytes};
use vstd::slice::{slice_subrange, slice_to_vec};
use crate::error::CoinbackedError;
use crate::utils::{CO_ACCOUNT_BACKING_BYTE_LEN, CO_ACCOUNT_PROTOCOL_TREASURY_BYTE_LEN};

verus! {

/// Persisted record of one backing reserve: the mint it backs, the balance
/// floor recorded at creation, and the address bump seed.
#[derive(Clone, Debug)]
pub struct BackingAccount {
    /// Identifier of the token mint this reserve backs; 32 bytes.
    pub token_key: Vec<u8>,
    /// Minimum balance recorded at creation; the reserve counts as empty at
    /// or below this floor.
    pub rent_excemption: u64,
    /// Bump seed that makes the derived reserve address valid.
    pub bump: u8,
}

impl BackingAccount {
    pub open spec fn wf(self) -> bool {
        self.token_key@.len() == 32
    }

    /// The fixed 41-byte little-endian layout of the record.
    pub open spec fn spec_pack(self) -> Seq<u8> {
        self.token_key@ + spec_u64_to_le_bytes(self.rent_excemption) + seq![self.bump]
    }

    /// Serialize into the fixed 41-byte layout.
    pub fn pack(&self) -> (r: Vec<u8>)
        requires
            self.wf(),
        ensures
            r@ == self.spec_pack(),
            r@.len() == CO_ACCOUNT_BACKING_BYTE_LEN,
    {
        proof {
            lemma_auto_spec_u64_to_from_le_bytes();
        }
        let mut r: Vec<u8> = slice_to_vec(self.token_key.as_slice());
        let mut rent: Vec<u8> = u64_to_le_bytes(self.rent_excemption);
        r.append(&mut rent);
        r.push(self.bump);
        proof {
            assert(r@ =~= self.spec_pack());
        }
        r
    }

    /// Parse the first 41 bytes of `source`; fails when `source` is shorter.
    pub fn unpack(source: &[u8]) -> (r: Result<BackingAccount, CoinbackedError>)
        ensures
            match r {
                Ok(b) => source@.len() >= CO_ACCOUNT_BACKING_BYTE_LEN && b.wf() && b.token_key@
                    == source@.subrange(0, 32) && b.rent_excemption == spec_u64_from_le_bytes(
                    source@.subrange(32, 40),
                ) && b.bump == source@[40],
                Err(e) => e == CoinbackedError::InvalidAccountData && source@.len()
                    < CO_ACCOUNT_BACKING_BYTE_LEN,
            },
    {
        if source.len() < CO_ACCOUNT_BACKING_BYTE_LEN {
            return Err(CoinbackedError::InvalidAccountData);
        }
        let token_key: Vec<u8> = slice_to_vec(slice_subrange(source, 0, 32));
        let rent_excemption: u64 = u64_from_le_bytes(slice_subrange(source, 32, 40));
        let bump: u8 = *vstd::slice::slice_index_get(source, 40);
        Ok(BackingAccount { token_key, rent_excemption, bump })
    }
}

/// Persisted record of the protocol treasury: its balance floor and the
/// bump seed of its derived address.
#[derive(Clone, Copy, Debug, PartialEq, Eq, Structural)]
pub struct TreasuryAccount {
    /// Minimum balance recorded at creation; transfers never go below it.
    pub rent_excemption: u64,
    /// Bump seed that makes the derived treasury address valid.
    pub bump: u8,
}

impl TreasuryAccount {
    /// The fixed 9-byte little-endian layout of the record.
    pub open spec fn spec_pack(self) -> Seq<u8> {
        spec_u64_to_le_bytes(self.rent_excemption) + seq![self.bump]
    }

    /// Serialize into the fixed 9-byte layout.
    pub fn pack(&self) -> (r: Vec<u8>)
        ensures
            r@ == self.spec_pack(),
            r@.len() == CO_ACCOUNT_PROTOCOL_TREASURY_BYTE_LEN,
    {
        proof {
            lemma_auto_spec_u64_to_from_le_bytes();
        }
        let mut r: Vec<u8> = u64_to_le_bytes(self.rent_excemption);
        r.push(self.bump);
        proof {
            assert(r@ =~= self.spec_pack());
        }
        r
    }

    /// Parse the first 9 bytes of `source`; fails when `source` is shorter.
    pub fn unpack(source: &[u8]) -> (r: Result<TreasuryAccount, CoinbackedError>)
        ensures
            match r {
                Ok(t) => source@.len() >= CO_ACCOUNT_PROTOCOL_TREASURY_BYTE_LEN
                    && t.rent_excemption == spec_u64_from_le_bytes(source@.subrange(0, 8))
                    && t.bump == source@[8],
                Err(e) => e == CoinbackedError::InvalidAccountData && source@.len()
                    < CO_ACCOUNT_PROTOCOL_TREASURY_BYTE_LEN,
            },
    {
        if source.len() < CO_ACCOUNT_PROTOCOL_TREASURY_BYTE_LEN {
            return Err(CoinbackedError::InvalidAccountData);
        }
        let rent_excemption: u64 = u64_from_le_bytes(slice_subrange(source, 0, 8));
        let bump: u8 = *vstd::slice::slice_index_get(source, 8);
        Ok(TreasuryAccount { rent_excemption, bump })
    }
}

/// Packing a backing record and parsing the bytes back yields the same
/// fields, for every well-formed record.
pub proof fn lemma_backing_pack_unpack(b: BackingAccount)
    requires
        b.wf(),
    ensures
        b.spec_pack().len() == CO_ACCOUNT_BACKING_BYTE_LEN,
        b.spec_pack().subrange(0, 32) == b.token_key@,
        spec_u64_from_le_bytes(b.spec_pack().subrange(32, 40)) == b.rent_excemption,
        b.spec_pack()[40] == b.bump,
{
    lemma_auto_spec_u64_to_from_le_bytes();
    assert(b.spec_pack().subrange(0, 32) =~= b.token_key@);
    assert(b.spec_pack().subrange(32, 40) =~= spec_u64_to_le_bytes(b.rent_excemption));
}

/// Packing a treasury record and parsing the bytes back yields the same
/// fields, for every record.
pub proof fn lemma_treasury_pack_unpack(t: TreasuryAccount)
    ensures
        t.spec_pack().len() == CO_ACCOUNT_PROTOCOL_TREASURY_BYTE_LEN,
        spec_u64_from_le_bytes(t.spec_pack().subrange(0, 8)) == t.rent_excemption,
        t.spec_pack()[8] == t.bump,
{
    lemma_auto_spec_u64_to_from_le_bytes();
    assert(t.spec_pack().subrange(0, 8) =~= spec_u64_to_le_bytes(t.rent_excemption));
}

} // verus!
