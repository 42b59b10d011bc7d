use vstd::prelude::*;

use crate::address::{bounty_address, bounty_address_of, Address};
use crate::error::BountyHunterErrors;

verus! {

/// A nonce for a new bounty.
///
/// Relies on `rand::random`: a value drawn from the thread's generator, of
/// which nothing is known.
#[verifier::external_body]
fn random_seed() -> (r: u64) {
    rand::random::<u64>()
}

/// Draws a nonce for a new bounty of `maker` and derives where that bounty will
/// live: the nonce, and the address and bump, or the derivation's failure.
pub fn fresh_bounty_address(program_id: &Address, maker: &Address) -> (r: (u64, Result<(Address, u8), BountyHunterErrors>))
    ensures
        match bounty_address_of(program_id@, maker@, r.0) {
            Some((a, bump)) => r.1 matches Ok((x, b)) && x@ == a && b == bump,
            None => r.1 == Err::<(Address, u8), BountyHunterErrors>(BountyHunterErrors::AddressDerivationExhausted),
        },
{
    let seed = random_seed();
    (seed, bounty_address(program_id, maker, seed))
}

} // verus!
