//! A deterministic pseudo-random number generator.
//!
//! Rendering draws every random quantity from one explicitly seeded
//! generator threaded through the render loop, so a whole render is a
//! pure function of the scene, the camera, and the seed.

use crate::scalars::{Fx, FX_SCALE};
use vstd::prelude::*;

verus! {

/// Seed substituted for zero, which the shift-and-xor step would fix.
pub const RNG_DEFAULT_SEED: u64 = 0x9e3779b97f4a7c15;

/// One shift-and-xor step of the generator.
pub open spec fn rng_step(s: u64) -> u64 {
    let a = s ^ (s << 13);
    let b = a ^ (a >> 7);
    b ^ (b << 17)
}

/// The raw value in `[0, 1)` drawn from the stepped state's high bits.
pub open spec fn rng_unit_spec(s: u64) -> int {
    (rng_step(s) >> 32) as int
}

/// A shift-and-xor pseudo-random generator with explicit state.
#[derive(Clone, Copy, PartialEq, Eq, Structural, Debug)]
pub struct Rng {
    pub state: u64,
}

impl Rng {
    /// A generator starting from the given seed; a zero seed is replaced
    /// by a fixed nonzero one.
    pub fn new(seed: u64) -> (r: Rng)
        ensures
            r.state == if seed == 0 {
                RNG_DEFAULT_SEED
            } else {
                seed
            },
    {
        if seed == 0 {
            Rng { state: RNG_DEFAULT_SEED }
        } else {
            Rng { state: seed }
        }
    }

    /// Draws a scalar in `[0, 1)` and advances the state.
    pub fn next_unit(&mut self) -> (r: Fx)
        ensures
            final(self).state == rng_step(old(self).state),
            r@ == rng_unit_spec(old(self).state),
            0 <= r@ < FX_SCALE as int,
    {
        let s0: u64 = self.state;
        let a: u64 = s0 ^ (s0 << 13);
        let b: u64 = a ^ (a >> 7);
        let c: u64 = b ^ (b << 17);
        self.state = c;
        let high: u64 = c >> 32;
        proof {
            assert(c >> 32 < 0x1_0000_0000) by (bit_vector);
        }
        Fx::from_raw(high as i64)
    }
}

} // verus!
