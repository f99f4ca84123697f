//! The linear congruential generator the sample applications draw sleep
//! times from.
use vstd::prelude::*;

verus! {

/// The largest value `rand` returns.
pub const RAND_MAX: u32 = 0xffff_ffff;

/// The successor of `seed` in the generator's sequence.
pub open spec fn next_seed(seed: u32) -> u32 {
    ((69069 * seed + 1) % 0x1_0000_0000) as u32
}

/// Advances the generator and returns its new state.
pub fn rand(seed: &mut u32) -> (r: u32)
    ensures
        r == next_seed(*old(seed)),
        *final(seed) == r,
{
    let x = *seed as u64;
    proof {
        assert(69069 * x + 1 <= u64::MAX) by (nonlinear_arith)
            requires
                x <= u32::MAX,
        ;
    }
    let y = 69069 * x + 1;
    let x = (y & (RAND_MAX as u64)) as u32;
    proof {
        assert(y & 0xffff_ffffu64 == y % 0x1_0000_0000) by (bit_vector);
    }
    *seed = x;
    x
}

/// A random sleep time between 500 and 1499 ticks.
pub fn rand_time(seed: &mut u32) -> (t: u32)
    ensures
        t == next_seed(*old(seed)) % 1000 + 500,
        500 <= t < 1500,
        *final(seed) == next_seed(*old(seed)),
{
    rand(seed) % 1000 + 500
}

} // verus!
