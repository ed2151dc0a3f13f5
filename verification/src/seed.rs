//! A reproducible sequence of numbers for randomized traces: a linear
//! congruential generator modulo 2^64.

use vstd::prelude::*;

verus! {

/// The multiplier of the generator.
pub const SEED_MULTIPLIER: u64 = 6364136223846793005;

/// The number that follows `seed` in the sequence:
/// `seed * SEED_MULTIPLIER + 1` modulo 2^64.
pub open spec fn seed_after(seed: u64) -> u64 {
    ((seed * SEED_MULTIPLIER + 1) % 0x1_0000_0000_0000_0000) as u64
}

/// Moves `seed` one step along the sequence and returns its new value.
pub fn next_seed(seed: &mut u64) -> (next: u64)
    ensures
        *final(seed) == seed_after(*old(seed)),
        next == *final(seed),
{
    let product: u64 = seed.wrapping_mul(SEED_MULTIPLIER);
    proof {
        let a: int = *seed * SEED_MULTIPLIER;
        assert(a >= 0) by (nonlinear_arith)
            requires
                a == *seed * SEED_MULTIPLIER,
                *seed >= 0,
                SEED_MULTIPLIER >= 0,
        ;
        assert(product == a % 0x1_0000_0000_0000_0000);
        assert((a % 0x1_0000_0000_0000_0000 + 1) % 0x1_0000_0000_0000_0000 == (a + 1)
            % 0x1_0000_0000_0000_0000) by {
            vstd::arithmetic::div_mod::lemma_add_mod_noop(a, 1, 0x1_0000_0000_0000_0000);
        }
    }
    *seed = product.wrapping_add(1);
    *seed
}

} // verus!
