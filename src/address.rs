use vstd::bytes::u64_to_le_bytes;
use vstd::prelude::*;

use anchor_lang::prelude::Pubkey;

use crate::error::BountyHunterErrors;

verus! {

/// A 32-byte account identifier. Its model is the sequence of its bytes.
#[derive(Clone, Copy, Debug)]
pub struct Address {
    pub bytes: [u8; 32],
}

impl View for Address {
    type V = Seq<u8>;

    open spec fn view(&self) -> Seq<u8> {
        self.bytes@
    }
}

impl Address {
    /// The bytes of the address, in order.
    pub fn to_vec(&self) -> (r: Vec<u8>)
        ensures
            r@ == self@,
    {
        let mut r: Vec<u8> = Vec::new();
        let mut i: usize = 0;
        while i < 32
            invariant
                0 <= i <= 32,
                self@.len() == 32,
                r@ == self@.subrange(0, i as int),
            decreases 32 - i,
        {
            r.push(self.bytes[i]);
            i = i + 1;
        }
        assert(r@ =~= self@);
        r
    }

    /// Compares two addresses byte by byte.
    pub fn same(&self, other: &Address) -> (r: bool)
        ensures
            r == (self@ == other@),
    {
        let mut i: usize = 0;
        while i < 32
            invariant
                0 <= i <= 32,
                self@.len() == 32,
                other@.len() == 32,
                forall|j: int| 0 <= j < i ==> self@[j] == other@[j],
            decreases 32 - i,
        {
            if self.bytes[i] != other.bytes[i] {
                return false;
            }
            i = i + 1;
        }
        assert(self@ =~= other@);
        true
    }
}

impl PartialEq for Address {
    fn eq(&self, other: &Address) -> (r: bool) {
        self.same(other)
    }
}

impl vstd::std_specs::cmp::PartialEqSpecImpl for Address {
    open spec fn obeys_eq_spec() -> bool {
        true
    }

    open spec fn eq_spec(&self, other: &Address) -> bool {
        self@ == other@
    }
}

impl Eq for Address {}

/// The program-derived address and bump that the runtime finds for `seeds` under
/// `program_id`, or none when no bump yields an address off the curve.
pub uninterp spec fn program_address(seeds: Seq<Seq<u8>>, program_id: Seq<u8>) -> Option<(Seq<u8>, u8)>;

/// Relies on `Pubkey::try_find_program_address` (solana-pubkey): it hashes the
/// seeds, a bump and the program id, so its result depends on those alone.
#[verifier::external_body]
fn try_find_program_address(seeds: &Vec<Vec<u8>>, program_id: &Address) -> (r: Option<(Address, u8)>)
    ensures
        match r {
            Some((a, bump)) => program_address(seeds.deep_view(), program_id@) == Some((a@, bump)),
            None => program_address(seeds.deep_view(), program_id@) is None,
        },
{
    let parts: Vec<&[u8]> = seeds.iter().map(|s| s.as_slice()).collect();
    let program = Pubkey::new_from_array(program_id.bytes);
    Pubkey::try_find_program_address(&parts, &program).map(|(k, bump)| (Address { bytes: k.to_bytes() }, bump))
}

/// The namespace seed of bounty records: the bytes of "bounty".
pub open spec fn bounty_tag() -> Seq<u8> {
    seq![98u8, 111u8, 117u8, 110u8, 116u8, 121u8]
}

/// The namespace seed of submission records: the bytes of "submission".
pub open spec fn submission_tag() -> Seq<u8> {
    seq![115u8, 117u8, 98u8, 109u8, 105u8, 115u8, 115u8, 105u8, 111u8, 110u8]
}

/// The seeds of the bounty that `maker` opens with nonce `seed`.
pub open spec fn bounty_seeds(maker: Seq<u8>, seed: u64) -> Seq<Seq<u8>> {
    seq![bounty_tag(), maker, vstd::bytes::spec_u64_to_le_bytes(seed)]
}

/// The seeds of the submission that `hunter` makes against `bounty`.
pub open spec fn submission_seeds(hunter: Seq<u8>, bounty: Seq<u8>) -> Seq<Seq<u8>> {
    seq![submission_tag(), hunter, bounty]
}

/// Where the bounty of `maker` with nonce `seed` lives under `program_id`.
pub open spec fn bounty_address_of(program_id: Seq<u8>, maker: Seq<u8>, seed: u64) -> Option<(Seq<u8>, u8)> {
    program_address(bounty_seeds(maker, seed), program_id)
}

/// Where the submission of `hunter` against `bounty` lives under `program_id`.
pub open spec fn submission_address_of(program_id: Seq<u8>, hunter: Seq<u8>, bounty: Seq<u8>) -> Option<(Seq<u8>, u8)> {
    program_address(submission_seeds(hunter, bounty), program_id)
}

/// Derives the address of a record from its seeds.
fn derive(seeds: &Vec<Vec<u8>>, program_id: &Address) -> (r: Result<(Address, u8), BountyHunterErrors>)
    ensures
        match program_address(seeds.deep_view(), program_id@) {
            Some((a, bump)) => r matches Ok((x, b)) && x@ == a && b == bump,
            None => r == Err::<(Address, u8), BountyHunterErrors>(BountyHunterErrors::AddressDerivationExhausted),
        },
{
    match try_find_program_address(seeds, program_id) {
        Some(found) => Ok(found),
        None => Err(BountyHunterErrors::AddressDerivationExhausted),
    }
}

/// The derived address and bump of the bounty that `maker` opens with nonce `seed`.
pub fn bounty_address(program_id: &Address, maker: &Address, seed: u64) -> (r: Result<(Address, u8), BountyHunterErrors>)
    ensures
        match bounty_address_of(program_id@, maker@, seed) {
            Some((a, bump)) => r matches Ok((x, b)) && x@ == a && b == bump,
            None => r == Err::<(Address, u8), BountyHunterErrors>(BountyHunterErrors::AddressDerivationExhausted),
        },
{
    let tag: Vec<u8> = vec![98u8, 111u8, 117u8, 110u8, 116u8, 121u8];
    let seeds: Vec<Vec<u8>> = vec![tag, maker.to_vec(), u64_to_le_bytes(seed)];
    let ghost parts = seeds@;
    assert(parts.len() == 3);
    assert(parts[0].deep_view() =~= bounty_tag());
    assert(parts[1].deep_view() =~= maker@);
    assert(parts[2].deep_view() =~= vstd::bytes::spec_u64_to_le_bytes(seed));
    assert(seeds.deep_view() =~= bounty_seeds(maker@, seed));
    derive(&seeds, program_id)
}

/// The derived address and bump of the submission that `hunter` makes against `bounty`.
pub fn submission_address(program_id: &Address, hunter: &Address, bounty: &Address) -> (r: Result<(Address, u8), BountyHunterErrors>)
    ensures
        match submission_address_of(program_id@, hunter@, bounty@) {
            Some((a, bump)) => r matches Ok((x, b)) && x@ == a && b == bump,
            None => r == Err::<(Address, u8), BountyHunterErrors>(BountyHunterErrors::AddressDerivationExhausted),
        },
{
    let tag: Vec<u8> = vec![115u8, 117u8, 98u8, 109u8, 105u8, 115u8, 115u8, 105u8, 111u8, 110u8];
    let seeds: Vec<Vec<u8>> = vec![tag, hunter.to_vec(), bounty.to_vec()];
    let ghost parts = seeds@;
    assert(parts.len() == 3);
    assert(parts[0].deep_view() =~= submission_tag());
    assert(parts[1].deep_view() =~= hunter@);
    assert(parts[2].deep_view() =~= bounty@);
    assert(seeds.deep_view() =~= submission_seeds(hunter@, bounty@));
    derive(&seeds, program_id)
}

} // verus!
