//! Sources of uniform random samples.
//!
//! All sampling and scattering code draws through the `RngSource` trait,
//! whose one method yields a fixed-point value uniform in `[0, 1)`.  The
//! algorithms assume nothing else of the source, so a seeded deterministic
//! generator (`SplitMix`) can stand in for the thread-local one
//! (`ThreadRandom`) and make renders reproducible.

use crate::fx::{Fx, SCALE};
use vstd::prelude::*;

verus! {

/// A source of uniform fixed-point samples in `[0, 1)`.
pub trait RngSource {
    /// Draw the next sample, uniform in `[0, 1)`.
    fn next_unit(&mut self) -> (r: Fx)
        ensures
            0 <= r@ < SCALE,
    ;
}

/// Relies on `rand::random`: one draw from the thread-local generator.
/// Nothing is promised of the value.
#[verifier::external_body]
fn random_u32() -> u32 {
    rand::random::<u32>()
}

/// Samples from the process's thread-local generator.
pub struct ThreadRandom {}

impl ThreadRandom {
    /// A fresh handle; the generator itself is per-thread state.
    pub fn new() -> ThreadRandom {
        ThreadRandom {  }
    }
}

impl RngSource for ThreadRandom {
    fn next_unit(&mut self) -> (r: Fx) {
        let v = random_u32();
        Fx { raw: v as i64 }
    }
}

/// The state step of the splitmix64 generator.
pub open spec fn s_splitmix_next(state: u64) -> u64 {
    state.wrapping_add(0x9E37_79B9_7F4A_7C15)
}

/// The output mixing of the splitmix64 generator.
pub open spec fn s_splitmix_mix(s: u64) -> u64 {
    let z1 = (s ^ (s >> 30u64)).wrapping_mul(0xBF58_476D_1CE4_E5B9);
    let z2 = (z1 ^ (z1 >> 27u64)).wrapping_mul(0x94D0_49BB_1331_11EB);
    z2 ^ (z2 >> 31u64)
}

/// A small deterministic generator (the splitmix64 mixing function),
/// seedable so that identical seeds give identical sample streams: the
/// contracts pin every output and state step, so the whole stream is a
/// function of the seed.
pub struct SplitMix {
    pub state: u64,
}

impl SplitMix {
    /// Start the stream at the given seed.
    pub fn seeded(seed: u64) -> (r: SplitMix)
        ensures
            r.state == seed,
    {
        SplitMix { state: seed }
    }

    /// Advance the state and mix it into the next 64-bit word.
    pub fn next_u64(&mut self) -> (r: u64)
        ensures
            final(self).state == s_splitmix_next(old(self).state),
            r == s_splitmix_mix(final(self).state),
    {
        self.state = self.state.wrapping_add(0x9E37_79B9_7F4A_7C15);
        let mut z: u64 = self.state;
        z = (z ^ (z >> 30)).wrapping_mul(0xBF58_476D_1CE4_E5B9);
        z = (z ^ (z >> 27)).wrapping_mul(0x94D0_49BB_1331_11EB);
        z ^ (z >> 31)
    }
}

impl RngSource for SplitMix {
    fn next_unit(&mut self) -> (r: Fx)
        ensures
            final(self).state == s_splitmix_next(old(self).state),
            r@ == (s_splitmix_mix(final(self).state) >> 32u64) as int,
    {
        let x = self.next_u64();
        let hi = x >> 32;
        proof {
            assert(x >> 32u64 < 0x1_0000_0000u64) by (bit_vector);
        }
        Fx { raw: hi as i64 }
    }
}

} // verus!
