//! Deterministic 64-bit noise generator in the xoroshiro family.
//!
//! Every voice owns one of these and draws from it for the noise oscillator.
//! The whole point of the generator is reproducibility: the contracts below
//! pin the successor state and the output exactly, so for a given seed the
//! stream of values is fully determined.

use vstd::prelude::*;

verus! {

/// Addition on `u64` that wraps around on overflow.
pub open spec fn wrapping_add_u64(x: u64, y: u64) -> u64 {
    if x + y > u64::MAX {
        (x + y - 0x1_0000_0000_0000_0000) as u64
    } else {
        (x + y) as u64
    }
}

/// `x` rotated left by `k` bits, for `0 < k < 64`.
pub open spec fn rotate_left_u64(x: u64, k: u64) -> u64
    recommends
        0 < k < 64,
{
    (x << k) | (x >> ((64 - k) as u64))
}

/// The first state word after one step from `(s0, s1)`.
pub open spec fn step_s0(s0: u64, s1: u64) -> u64 {
    rotate_left_u64(s0, 24) ^ (s1 ^ s0) ^ ((s1 ^ s0) << 16u64)
}

/// The second state word after one step from `(s0, s1)`.
pub open spec fn step_s1(s0: u64, s1: u64) -> u64 {
    rotate_left_u64(s1 ^ s0, 37)
}

/// The value a step from `(s0, s1)` yields.
pub open spec fn step_out(s0: u64, s1: u64) -> u64 {
    wrapping_add_u64(s0, s1)
}

#[derive(Debug, Copy, Clone)]
pub struct Xoroshiro {
    s0: u64,
    s1: u64,
}

impl Xoroshiro {
    /// The state words, for specifications.
    pub closed spec fn state(&self) -> (u64, u64) {
        (self.s0, self.s1)
    }

    /// Seeding fixes the first word and folds the seed into the second,
    /// so distinct seeds give distinct states.
    pub fn new(seed: u64) -> (r: Self)
        ensures
            r.state() == (0xdeadbeefu64, (seed ^ 0xfeeddddd) as u64),
    {
        Self { s0: 0xdeadbeef, s1: seed ^ 0xfeeddddd }
    }

    /// One step of the generator. The output and the successor state are
    /// functions of the prior state alone, so the stream drawn from a given
    /// seed is the same on every run.
    pub fn next(&mut self) -> (r: u64)
        ensures
            r == step_out(old(self).state().0, old(self).state().1),
            final(self).state().0 == step_s0(old(self).state().0, old(self).state().1),
            final(self).state().1 == step_s1(old(self).state().0, old(self).state().1),
    {
        let s0: u64 = self.s0;
        let mut s1: u64 = self.s1;
        let r: u64 = s0.wrapping_add(s1);

        s1 = s1 ^ s0;
        self.s0 = ((s0 << 24u64) | (s0 >> 40u64)) ^ s1 ^ (s1 << 16u64);
        self.s1 = (s1 << 37u64) | (s1 >> 27u64);
        r
    }

    /// One step reduced to the low 24 bits: the integer numerator of a
    /// uniform draw from [0, 1) with denominator 2^24. The bound `r < 2^24`
    /// is what keeps the derived float strictly below one.
    pub fn next_u24(&mut self) -> (r: u32)
        ensures
            r < 0x1000000,
            r == step_out(old(self).state().0, old(self).state().1) % 0x1000000,
            final(self).state().0 == step_s0(old(self).state().0, old(self).state().1),
            final(self).state().1 == step_s1(old(self).state().0, old(self).state().1),
    {
        let v: u64 = self.next();
        (v % 0x1000000) as u32
    }
}

} // verus!
