//! The one source of chance in the simulation.

use vstd::prelude::*;

verus! {

/// Calls `rand::random::<u32>()`, which takes the next 32 bits from the
/// thread-local generator of the `rand` crate. No two calls need agree, so
/// nothing is claimed about the value. The generator is seeded by the
/// operating system and panics if that fails; no argument can rule this out.
#[verifier::external_body]
fn random_bits() -> (bits: u32) {
    rand::random::<u32>()
}

/// `n` fresh draws, in the order in which they were made.
pub fn random_draws(n: usize) -> (draws: Vec<u32>)
    ensures
        draws@.len() == n,
{
    let mut draws: Vec<u32> = Vec::new();
    let mut i: usize = 0;
    while i < n
        invariant
            i <= n,
            draws@.len() == i,
        decreases n - i,
    {
        draws.push(random_bits());
        i += 1;
    }
    draws
}

} // verus!
