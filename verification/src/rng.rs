//! Deterministic pseudo-random sampling.
//!
//! Rendering draws jitter offsets and scatter directions from a linear
//! congruential generator that is seeded from a root seed plus the pixel
//! coordinates, so a rendered image is a pure function of its inputs and
//! pixels can be computed in any order, on any number of workers. A fresh
//! root seed can be drawn from the operating system's randomness.

use vstd::prelude::*;

verus! {

/// Modulus of the generator: states are 64-bit words.
pub const STATE_MOD: u128 = 0x1_0000_0000_0000_0000;

/// Deterministic generator state.
pub struct Rng {
    pub state: u64,
}

/// One step of the linear congruential generator.
pub open spec fn next_s(s: u64) -> u64 {
    ((s as int * 6364136223846793005 + 1442695040888963407) % 0x1_0000_0000_0000_0000) as u64
}

/// The state after folding one coordinate into the seed.
pub open spec fn mix_s(s: u64, v: u64) -> u64 {
    next_s((((s as int) + (v as int)) % 0x1_0000_0000_0000_0000) as u64)
}

/// The generator state a pixel at row `h`, column `w` starts from.
pub open spec fn for_pixel_s(root: u64, h: u32, w: u32) -> u64 {
    mix_s(mix_s(next_s(root), h as u64), w as u64)
}

/// The jitter offset in `[0, 1)` (fixed point) drawn by one step from state `s`.
pub open spec fn rand01_of(s: u64) -> int {
    (next_s(s) as int / 0x1_0000_0000_0000) % 65536
}

/// The offset in `[-1, 1)` (fixed point) drawn by one step from state `s`.
pub open spec fn rand_sym_of(s: u64) -> int {
    (next_s(s) as int / 0x8000_0000_0000) % 131072 - 65536
}

proof fn lemma_step_fits(a: int)
    by (nonlinear_arith)
    requires
        0 <= a < 0x1_0000_0000_0000_0000,
    ensures
        0 <= a * 6364136223846793005 + 1442695040888963407 < 0x1_0000_0000_0000_0000_0000_0000_0000_0000,
{
}

impl Rng {
    /// A generator starting from the given state.
    pub fn seeded(seed: u64) -> (r: Rng)
        ensures
            r.state == seed,
    {
        Rng { state: seed }
    }

    /// The generator for the pixel at row `h`, column `w` of a render rooted
    /// at `root`: pixels draw from disjoint, order-independent streams.
    pub fn for_pixel(root: u64, h: u32, w: u32) -> (r: Rng)
        ensures
            r.state == for_pixel_s(root, h, w),
    {
        let mut rng = Rng { state: root };
        rng.step();
        rng.mix(h as u64);
        rng.mix(w as u64);
        rng
    }

    /// Advances the state by one step.
    fn step(&mut self)
        ensures
            final(self).state == next_s(old(self).state),
    {
        proof {
            lemma_step_fits(self.state as int);
        }
        let wide: u128 = (self.state as u128) * 6364136223846793005 + 1442695040888963407;
        self.state = (wide % STATE_MOD) as u64;
    }

    /// Folds a coordinate into the state.
    fn mix(&mut self, v: u64)
        ensures
            final(self).state == mix_s(old(self).state, v),
    {
        let folded: u128 = (self.state as u128) + (v as u128);
        self.state = (folded % STATE_MOD) as u64;
        self.step();
    }

    /// Draws a fixed-point value in `[0, 1)`: a uniform sub-pixel jitter.
    pub fn rand01(&mut self) -> (r: i64)
        ensures
            final(self).state == next_s(old(self).state),
            r as int == rand01_of(old(self).state),
            0 <= r < 65536,
    {
        self.step();
        ((self.state / 0x1_0000_0000_0000) % 65536) as i64
    }

    /// Draws a fixed-point value in `[-1, 1)`: one component of a candidate
    /// scatter direction.
    pub fn rand_sym(&mut self) -> (r: i64)
        ensures
            final(self).state == next_s(old(self).state),
            r as int == rand_sym_of(old(self).state),
            -65536 <= r < 65536,
    {
        self.step();
        let raw: i64 = ((self.state / 0x8000_0000_0000) % 131072) as i64;
        raw - 65536
    }
}

pub assume_specification<T>[ rand::random::<T> ]() -> (r: T)
    where
        rand::distr::StandardUniform: rand::distr::Distribution<T>,
;

/// Draws a root seed from the operating system's randomness. Relies on
/// `rand::random`; nothing is promised of the value, and a render made from
/// it is reproducible only by reusing the seed.
pub fn random_seed() -> u64 {
    rand::random::<u64>()
}

} // verus!
