//! Deterministic pseudo-random source.
//!
//! The host seeds the generator once at construction; every draw after that
//! is a pure function of the seed, so two universes built from the same
//! inputs are identical. The generator is a 64-bit linear congruential step
//! with Knuth's MMIX constants.

use vstd::prelude::*;

verus! {

pub const RNG_MUL: u64 = 6_364_136_223_846_793_005;

pub const RNG_INC: u64 = 1_442_695_040_888_963_407;

/// The generator state after one step.
pub open spec fn rng_next(s: u64) -> u64 {
    (((s as int) * (RNG_MUL as int) + (RNG_INC as int)) % 0x1_0000_0000_0000_0000) as u64
}

pub struct Rng {
    pub state: u64,
}

impl Rng {
    pub fn from_seed(seed: u64) -> (r: Rng)
        ensures
            r.state == seed,
    {
        Rng { state: seed }
    }

    /// Advance the generator one step and return the new state.
    pub fn next(&mut self) -> (r: u64)
        ensures
            final(self).state == rng_next(old(self).state),
            r == rng_next(old(self).state),
    {
        proof {
            assert(RNG_MUL == 6_364_136_223_846_793_005u64);
            assert((self.state as int) * 6_364_136_223_846_793_005int + 1_442_695_040_888_963_407int
                < 0x1_0000_0000_0000_0000_0000_0000_0000_0000int) by (nonlinear_arith)
                requires
                    self.state <= 0xffff_ffff_ffff_ffffu64,
            ;
        }
        let wide: u128 = (self.state as u128) * (RNG_MUL as u128) + (RNG_INC as u128);
        let next: u64 = (wide % 0x1_0000_0000_0000_0000u128) as u64;
        self.state = next;
        next
    }
}

} // verus!
