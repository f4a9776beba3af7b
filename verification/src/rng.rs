//! A seedable xorshift pseudo-random generator.
//!
//! The render loop threads one of these explicitly instead of drawing from an
//! ambient source, so a fixed seed reproduces a render exactly; every step is
//! a pure function of the previous state.

use vstd::prelude::*;

verus! {

use crate::fixed::Fx;

/// One xorshift step of the 64-bit state.
pub open spec fn next64(s: u64) -> u64 {
    let a = s ^ (s << 13u64);
    let b = a ^ (a >> 7u64);
    b ^ (b << 17u64)
}

/// The unit sample a state yields: its residue in millionths, in `[0, 1)`.
pub open spec fn unit_micros(s: u64) -> int {
    (s % 1_000_000u64) as int
}

/// A deterministic pseudo-random generator with explicit 64-bit state.
#[derive(Clone, Copy, PartialEq, Eq, Structural, Debug)]
pub struct Rng64 {
    pub state: u64,
}

impl View for Rng64 {
    type V = u64;

    open spec fn view(&self) -> u64 {
        self.state
    }
}

impl Rng64 {
    /// A generator starting from the given seed.
    pub fn new(seed: u64) -> (r: Rng64)
        ensures
            r@ == seed,
    {
        Rng64 { state: seed }
    }

    /// Advances the state one xorshift step and returns it.
    pub fn next_u64(&mut self) -> (r: u64)
        ensures
            final(self)@ == next64(old(self)@),
            r == final(self)@,
    {
        let s0 = self.state;
        let a = s0 ^ (s0 << 13);
        let b = a ^ (a >> 7);
        let c = b ^ (b << 17);
        self.state = c;
        c
    }

    /// Draws a scalar uniformly from `[0, 1)` at millionth resolution.
    pub fn next_unit(&mut self) -> (r: Fx)
        ensures
            final(self)@ == next64(old(self)@),
            r@ == unit_micros(final(self)@),
            0 <= r@ < 1_000_000,
    {
        let s = self.next_u64();
        let m: u64 = s % 1_000_000;
        Fx::from_micros(m as i64)
    }
}

} // verus!
