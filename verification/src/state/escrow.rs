//! The escrow record: its fields, the seeds of its address, and its layout
//! in the bytes of an account.

use crate::address::{lemma_address_by_view, seeds_view, Address};
use vstd::bytes::{
    lemma_auto_spec_u64_to_from_le_bytes, spec_u64_from_le_bytes, spec_u64_to_le_bytes,
    spec_u64_to_le_bytes_to_open, u64_from_le_bytes, u64_to_le_bytes,
};
use vstd::prelude::*;
use vstd::slice::slice_subrange;

verus! {

/// One pending exchange: written once when the escrow opens, read and
/// destroyed when it is taken or refunded.
#[derive(Clone, Copy, Debug, PartialEq, Eq)]
pub struct Escrow {
    /// Chosen by the maker, so that one maker can run several escrows.
    pub seed: u64,
    /// Who opened the escrow; receives asset B, or asset A back.
    pub maker: Address,
    /// Mint of the deposited asset.
    pub mint_a: Address,
    /// Mint of the requested asset.
    pub mint_b: Address,
    /// How much of asset B the maker requires.
    pub amount_receive: u64,
    /// Bump seed with which the escrow's address was derived.
    pub bump: u8,
}

/// First seed of every escrow address: the bytes of `escrow`.
pub const SEED_PREFIX: [u8; 6] = [101, 115, 99, 114, 111, 119];

/// Tag that starts the bytes of every escrow record.
pub const DISCRIMINATOR: [u8; 8] = [31, 213, 123, 187, 186, 22, 218, 155];

/// Bytes of a record's fields.
pub const INIT_SPACE: usize = 113;

/// Bytes of a record with its tag.
pub const LEN: usize = 121;

/// The seeds from which the address of the escrow of `maker` with `seed`
/// is searched.
pub open spec fn escrow_seeds(maker: Address, seed: u64) -> Seq<Seq<u8>> {
    seq![SEED_PREFIX@, maker@, spec_u64_to_le_bytes(seed)]
}

/// The seeds of the escrow of `maker` with `seed`.
pub fn seeds(maker: &Address, seed: u64) -> (v: Vec<Vec<u8>>)
    ensures
        seeds_view(v@) == escrow_seeds(*maker, seed),
{
    let mut prefix: Vec<u8> = Vec::new();
    let mut i: usize = 0;
    while i < 6
        invariant
            i <= 6,
            prefix@.len() == i,
            forall|j: int| 0 <= j < i ==> prefix@[j] == SEED_PREFIX[j],
        decreases 6 - i,
    {
        prefix.push(SEED_PREFIX[i]);
        i += 1;
    }
    assert(prefix@ =~= SEED_PREFIX@);
    let mut v: Vec<Vec<u8>> = Vec::new();
    v.push(prefix);
    v.push(maker.to_vec());
    v.push(u64_to_le_bytes(seed));
    assert(seeds_view(v@) =~= escrow_seeds(*maker, seed));
    v
}

impl Escrow {
    /// The seeds that derive the escrow's address directly: those it was
    /// searched from, and the bump seed that the search found.
    pub open spec fn spec_signer_seeds(self) -> Seq<Seq<u8>> {
        escrow_seeds(self.maker, self.seed).push(seq![self.bump])
    }

    /// The seeds under which the program acts as this escrow.
    pub fn signer_seeds(&self) -> (v: Vec<Vec<u8>>)
        ensures
            seeds_view(v@) == self.spec_signer_seeds(),
    {
        let mut v = seeds(&self.maker, self.seed);
        let mut bump: Vec<u8> = Vec::new();
        bump.push(self.bump);
        assert(bump@ =~= seq![self.bump]);
        v.push(bump);
        assert(seeds_view(v@) =~= self.spec_signer_seeds());
        v
    }

    /// The bytes of the record: the tag, then the fields in order, integers
    /// in little-endian.
    pub open spec fn spec_bytes(self) -> Seq<u8> {
        DISCRIMINATOR@ + spec_u64_to_le_bytes(self.seed) + self.maker@ + self.mint_a@
            + self.mint_b@ + spec_u64_to_le_bytes(self.amount_receive) + seq![self.bump]
    }

    /// `data` is the bytes of some record.
    pub open spec fn is_record(data: Seq<u8>) -> bool {
        &&& data.len() == LEN
        &&& data.subrange(0, 8) == DISCRIMINATOR@
    }

    pub fn to_bytes(&self) -> (out: Vec<u8>)
        ensures
            out@ == self.spec_bytes(),
    {
        let mut out: Vec<u8> = Vec::new();
        let mut i: usize = 0;
        while i < 8
            invariant
                i <= 8,
                out@.len() == i,
                forall|j: int| 0 <= j < i ==> out@[j] == DISCRIMINATOR[j],
            decreases 8 - i,
        {
            out.push(DISCRIMINATOR[i]);
            i += 1;
        }
        assert(out@ =~= DISCRIMINATOR@);
        let mut seed = u64_to_le_bytes(self.seed);
        out.append(&mut seed);
        let mut maker = self.maker.to_vec();
        out.append(&mut maker);
        let mut mint_a = self.mint_a.to_vec();
        out.append(&mut mint_a);
        let mut mint_b = self.mint_b.to_vec();
        out.append(&mut mint_b);
        let mut amount = u64_to_le_bytes(self.amount_receive);
        out.append(&mut amount);
        out.push(self.bump);
        assert(out@ =~= self.spec_bytes());
        out
    }

    /// Reads a record back from its bytes. `None` unless `data` has the
    /// length of a record and starts with the tag.
    pub fn from_bytes(data: &[u8]) -> (r: Option<Escrow>)
        ensures
            r is Some <==> Self::is_record(data@),
            r matches Some(record) ==> record.spec_bytes() == data@,
    {
        if data.len() != LEN {
            return None;
        }
        let mut i: usize = 0;
        while i < 8
            invariant
                i <= 8,
                data@.len() == LEN,
                forall|j: int| 0 <= j < i ==> data@[j] == DISCRIMINATOR[j],
            decreases 8 - i,
        {
            if data[i] != DISCRIMINATOR[i] {
                assert(data@.subrange(0, 8)[i as int] != DISCRIMINATOR@[i as int]);
                return None;
            }
            i += 1;
        }
        assert(data@.subrange(0, 8) =~= DISCRIMINATOR@);
        let record = Escrow {
            seed: u64_from_le_bytes(slice_subrange(data, 8, 16)),
            maker: Address::from_slice(data, 16),
            mint_a: Address::from_slice(data, 48),
            mint_b: Address::from_slice(data, 80),
            amount_receive: u64_from_le_bytes(slice_subrange(data, 112, 120)),
            bump: data[120],
        };
        proof {
            lemma_auto_spec_u64_to_from_le_bytes();
            assert(record.spec_bytes() =~= data@);
        }
        Some(record)
    }
}

/// The eight bytes of `x`, the lowest first.
pub open spec fn le_bytes(x: u64) -> Seq<u8> {
    seq![
        (x % 0x100) as u8,
        (x / 0x100 % 0x100) as u8,
        (x / 0x1_0000 % 0x100) as u8,
        (x / 0x100_0000 % 0x100) as u8,
        (x / 0x1_0000_0000 % 0x100) as u8,
        (x / 0x100_0000_0000 % 0x100) as u8,
        (x / 0x1_0000_0000_0000 % 0x100) as u8,
        (x / 0x100_0000_0000_0000 % 0x100) as u8,
    ]
}

/// An integer in little-endian is its eight bytes, the lowest first.
pub proof fn lemma_le_bytes(x: u64)
    ensures
        spec_u64_to_le_bytes(x) == le_bytes(x),
{
    spec_u64_to_le_bytes_to_open(x);
    assert(x & 0xff == x % 0x100) by (bit_vector);
    assert((x >> 8) & 0xff == x / 0x100 % 0x100) by (bit_vector);
    assert((x >> 16) & 0xff == x / 0x1_0000 % 0x100) by (bit_vector);
    assert((x >> 24) & 0xff == x / 0x100_0000 % 0x100) by (bit_vector);
    assert((x >> 32) & 0xff == x / 0x1_0000_0000 % 0x100) by (bit_vector);
    assert((x >> 40) & 0xff == x / 0x100_0000_0000 % 0x100) by (bit_vector);
    assert((x >> 48) & 0xff == x / 0x1_0000_0000_0000 % 0x100) by (bit_vector);
    assert((x >> 56) & 0xff == x / 0x100_0000_0000_0000 % 0x100) by (bit_vector);
    assert(spec_u64_to_le_bytes(x) =~= le_bytes(x));
}

/// The seeds under which the program signs as an escrow, spelled out: the
/// six bytes of `escrow`, the 32 bytes of the maker, the seed in eight
/// bytes, the lowest first, and the one byte of the bump seed. They depend
/// on the maker, the seed and the bump seed of the record and on nothing
/// else.
pub proof fn lemma_signer_seeds(record: Escrow)
    ensures
        record.spec_signer_seeds() == seq![
            seq![101u8, 115u8, 99u8, 114u8, 111u8, 119u8],
            record.maker@,
            le_bytes(record.seed),
            seq![record.bump],
        ],
{
    lemma_le_bytes(record.seed);
    assert(SEED_PREFIX@ =~= seq![101u8, 115u8, 99u8, 114u8, 111u8, 119u8]);
    assert(record.spec_signer_seeds() =~= seq![
        seq![101u8, 115u8, 99u8, 114u8, 111u8, 119u8],
        record.maker@,
        le_bytes(record.seed),
        seq![record.bump],
    ]);
}

/// Every record has the bytes of a record.
pub proof fn lemma_bytes_are_record(record: Escrow)
    ensures
        Escrow::is_record(record.spec_bytes()),
{
    lemma_auto_spec_u64_to_from_le_bytes();
    assert(record.spec_bytes().subrange(0, 8) =~= DISCRIMINATOR@);
}

/// Different records have different bytes.
pub proof fn lemma_bytes_injective(a: Escrow, b: Escrow)
    requires
        a.spec_bytes() == b.spec_bytes(),
    ensures
        a == b,
{
    lemma_auto_spec_u64_to_from_le_bytes();
    let x = a.spec_bytes();
    let y = b.spec_bytes();
    assert(x.subrange(8, 16) =~= spec_u64_to_le_bytes(a.seed));
    assert(y.subrange(8, 16) =~= spec_u64_to_le_bytes(b.seed));
    assert(x.subrange(16, 48) =~= a.maker@);
    assert(y.subrange(16, 48) =~= b.maker@);
    assert(x.subrange(48, 80) =~= a.mint_a@);
    assert(y.subrange(48, 80) =~= b.mint_a@);
    assert(x.subrange(80, 112) =~= a.mint_b@);
    assert(y.subrange(80, 112) =~= b.mint_b@);
    assert(x.subrange(112, 120) =~= spec_u64_to_le_bytes(a.amount_receive));
    assert(y.subrange(112, 120) =~= spec_u64_to_le_bytes(b.amount_receive));
    assert(x[120] == a.bump);
    assert(y[120] == b.bump);
    assert(spec_u64_from_le_bytes(spec_u64_to_le_bytes(a.seed)) == a.seed);
    assert(spec_u64_from_le_bytes(spec_u64_to_le_bytes(b.seed)) == b.seed);
    assert(spec_u64_from_le_bytes(spec_u64_to_le_bytes(a.amount_receive)) == a.amount_receive);
    assert(spec_u64_from_le_bytes(spec_u64_to_le_bytes(b.amount_receive)) == b.amount_receive);
    lemma_address_by_view(a.maker, b.maker);
    lemma_address_by_view(a.mint_a, b.mint_a);
    lemma_address_by_view(a.mint_b, b.mint_b);
}

} // verus!
