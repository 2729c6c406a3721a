//! Account addresses and program-derived addresses.
//!
//! An [`Address`] is the 32-byte identity of an account. A program-derived
//! address is computed from a list of seeds and the id of the deriving
//! program; it has no private key, so only the deriving program can act
//! under it.

use anchor_lang::prelude::Pubkey;
use vstd::prelude::*;
use vstd::std_specs::cmp::PartialEqSpecImpl;

verus! {

/// The 32-byte identity of an account.
#[derive(Clone, Copy, Debug, Eq, Hash)]
pub struct Address {
    pub bytes: [u8; 32],
}

impl View for Address {
    type V = Seq<u8>;

    open spec fn view(&self) -> Seq<u8> {
        self.bytes@
    }
}

impl PartialEq for Address {
    fn eq(&self, other: &Address) -> (r: bool) {
        let mut i: usize = 0;
        while i < 32
            invariant
                i <= 32,
                forall|j: int| 0 <= j < i ==> self.bytes[j] == other.bytes[j],
            decreases 32 - i,
        {
            if self.bytes[i] != other.bytes[i] {
                return false;
            }
            i += 1;
        }
        proof {
            assert(self.bytes =~= other.bytes);
        }
        true
    }
}

impl PartialEqSpecImpl for Address {
    open spec fn obeys_eq_spec() -> bool {
        true
    }

    open spec fn eq_spec(&self, other: &Address) -> bool {
        *self == *other
    }
}

impl Address {
    pub fn new_from_array(bytes: [u8; 32]) -> (a: Address)
        ensures
            a.bytes == bytes,
    {
        Address { bytes }
    }

    pub fn to_bytes(&self) -> (b: [u8; 32])
        ensures
            b == self.bytes,
    {
        self.bytes
    }

    /// The address held in the 32 bytes of `data` from `offset` on.
    pub(crate) fn from_slice(data: &[u8], offset: usize) -> (a: Address)
        requires
            offset + 32 <= data@.len(),
        ensures
            a@ == data@.subrange(offset as int, offset + 32),
    {
        let len: usize = data.len();
        let mut bytes: [u8; 32] = [0u8; 32];
        let mut i: usize = 0;
        while i < 32
            invariant
                i <= 32,
                len == data@.len(),
                offset + 32 <= len,
                forall|j: int| 0 <= j < i ==> bytes[j] == data@[offset + j],
            decreases 32 - i,
        {
            bytes[i] = data[offset + i];
            i += 1;
        }
        let a = Address { bytes };
        assert(a@ =~= data@.subrange(offset as int, offset + 32));
        a
    }

    /// The address as a seed for a derivation.
    pub fn to_vec(&self) -> (v: Vec<u8>)
        ensures
            v@ == self@,
    {
        let mut v: Vec<u8> = Vec::new();
        let mut i: usize = 0;
        while i < 32
            invariant
                i <= 32,
                v@.len() == i,
                forall|j: int| 0 <= j < i ==> v@[j] == self.bytes[j],
            decreases 32 - i,
        {
            v.push(self.bytes[i]);
            i += 1;
        }
        assert(v@ =~= self@);
        v
    }
}

/// Addresses with the same bytes are the same address.
pub proof fn lemma_address_by_view(a: Address, b: Address)
    requires
        a@ == b@,
    ensures
        a == b,
{
    assert(a.bytes =~= b.bytes);
}

/// The address that `seeds` derive under `program_id`, if they derive one.
pub uninterp spec fn program_address(seeds: Seq<Seq<u8>>, program_id: Address) -> Option<Address>;

/// The first address that `seeds`, followed by a one-byte bump seed, derive
/// under `program_id`, with that bump seed, trying the bump seeds from
/// `bump` down to 1.
pub open spec fn searched_program_address(seeds: Seq<Seq<u8>>, program_id: Address, bump: u8)
    -> Option<(Address, u8)>
    decreases bump,
{
    if bump == 0 {
        None
    } else {
        match program_address(seeds.push(seq![bump]), program_id) {
            Some(address) => Some((address, bump)),
            None => searched_program_address(seeds, program_id, (bump - 1) as u8),
        }
    }
}

/// The first address that `seeds`, followed by a one-byte bump seed, derive
/// under `program_id`, with that bump seed, trying the bump seeds from 255
/// down to 1.
pub open spec fn found_program_address(seeds: Seq<Seq<u8>>, program_id: Address) -> Option<
    (Address, u8),
> {
    searched_program_address(seeds, program_id, 255)
}

/// What a search finds is what the seeds derive with the bump seed found.
pub proof fn lemma_searched_derives(seeds: Seq<Seq<u8>>, program_id: Address, bump: u8)
    ensures
        searched_program_address(seeds, program_id, bump) matches Some((address, found))
            ==> 1 <= found <= bump && program_address(seeds.push(seq![found]), program_id) == Some(
            address,
        ),
    decreases bump,
{
    if bump != 0 && program_address(seeds.push(seq![bump]), program_id) is None {
        lemma_searched_derives(seeds, program_id, (bump - 1) as u8);
    }
}

/// What is found for the seeds is what they derive with the bump seed found.
pub proof fn lemma_found_derives(seeds: Seq<Seq<u8>>, program_id: Address)
    ensures
        found_program_address(seeds, program_id) matches Some((address, bump))
            ==> program_address(seeds.push(seq![bump]), program_id) == Some(address),
{
    lemma_searched_derives(seeds, program_id, 255);
}

/// The seeds of a derivation as sequences of bytes.
pub open spec fn seeds_view(seeds: Seq<Vec<u8>>) -> Seq<Seq<u8>> {
    Seq::new(seeds.len(), |i: int| seeds[i]@)
}

/// `Pubkey::create_program_address`: hashes the seeds with the program id and
/// returns the digest as an address unless it lies on the curve or a seed is
/// over the limits. The result is a function of the seeds and the program id.
#[verifier::external_body]
pub(crate) fn create_program_address(seeds: &Vec<Vec<u8>>, program_id: &Address) -> (r: Option<
    Address,
>)
    ensures
        r == program_address(seeds_view(seeds@), *program_id),
{
    let slices: Vec<&[u8]> = seeds.iter().map(|s| s.as_slice()).collect();
    match Pubkey::create_program_address(&slices, &Pubkey::new_from_array(program_id.bytes)) {
        Ok(key) => Some(Address { bytes: key.to_bytes() }),
        Err(_) => None,
    }
}

/// `Pubkey::try_find_program_address`: tries the bump seeds from 255 down to 1
/// and returns the first address that `Pubkey::create_program_address` yields
/// for the seeds followed by the one-byte bump seed, together with that bump
/// seed; `None` where none of them yields an address.
#[verifier::external_body]
pub(crate) fn try_find_program_address(seeds: &Vec<Vec<u8>>, program_id: &Address) -> (r: Option<
    (Address, u8),
>)
    ensures
        r == found_program_address(seeds_view(seeds@), *program_id),
{
    let slices: Vec<&[u8]> = seeds.iter().map(|s| s.as_slice()).collect();
    match Pubkey::try_find_program_address(&slices, &Pubkey::new_from_array(program_id.bytes)) {
        Some((key, bump)) => Some((Address { bytes: key.to_bytes() }, bump)),
        None => None,
    }
}

} // verus!
