//! A small deterministic pseudo-random generator.
//!
//! Training wants randomly initialized weights and, under the shuffling
//! schedule, a fresh sample order per epoch.  Both are driven by this
//! xorshift generator: a pure function of its seed, so every training run
//! is reproducible from its configuration.

use vstd::prelude::*;

use crate::arith::{sub_bits, div_bits, u64_to_f32_bits, sub_f, div_f, u64_to_f};

verus! {

/// Bit pattern of the value 500.
pub const F_500: u32 = 0x43fa_0000;

/// Bit pattern of the value 1000.
pub const F_1000: u32 = 0x447a_0000;

/// The seed actually used: a fixed odd constant replaces a zero seed,
/// which the xorshift step would never leave.
pub open spec fn seed_state(seed: u64) -> u64 {
    if seed == 0 {
        0x9e37_79b9_7f4a_7c15u64
    } else {
        seed
    }
}

/// One xorshift step: three shift-and-xor rounds.
pub open spec fn next_state(s: u64) -> u64 {
    let a = s ^ (s << 13);
    let b = a ^ (a >> 7);
    b ^ (b << 17)
}

/// The weight pattern drawn from a state: the state reduced to an integer
/// in `0 ..= 1000`, converted to binary32, shifted and scaled to a value
/// in `-0.5 ..= 0.5`.
pub open spec fn weight_of(s: u64) -> u32 {
    div_bits(sub_bits(u64_to_f32_bits(s % 1001), F_500), F_1000)
}

/// The state after `n` successive xorshift steps from `s`.
pub open spec fn state_after(s: u64, n: int) -> u64
    decreases n,
{
    if n <= 0 {
        s
    } else {
        next_state(state_after(s, n - 1))
    }
}

/// A xorshift pseudo-random generator.
#[derive(Debug, Clone, Copy, PartialEq, Eq, Structural)]
pub struct XorShift64 {
    state: u64,
}

impl XorShift64 {
    /// The generator's current state.
    pub closed spec fn state_spec(&self) -> u64 {
        self.state
    }

    /// A generator seeded from the given value.
    pub fn new(seed: u64) -> (r: XorShift64)
        ensures
            r.state_spec() == seed_state(seed),
    {
        if seed == 0 {
            XorShift64 { state: 0x9e37_79b9_7f4a_7c15u64 }
        } else {
            XorShift64 { state: seed }
        }
    }

    /// Advances the state and returns it.
    pub fn next(&mut self) -> (r: u64)
        ensures
            final(self).state_spec() == next_state(old(self).state_spec()),
            r == next_state(old(self).state_spec()),
    {
        let s = self.state;
        let a = s ^ (s << 13u64);
        let b = a ^ (a >> 7u64);
        let c = b ^ (b << 17u64);
        self.state = c;
        c
    }

    /// Draws an integer below `bound`.
    pub fn next_below(&mut self, bound: u64) -> (r: u64)
        requires
            bound >= 1,
        ensures
            final(self).state_spec() == next_state(old(self).state_spec()),
            r == next_state(old(self).state_spec()) % bound,
            r < bound,
    {
        let v = self.next();
        v % bound
    }

    /// Draws a weight pattern in `-0.5 ..= 0.5`.
    pub fn next_weight(&mut self) -> (r: u32)
        ensures
            final(self).state_spec() == next_state(old(self).state_spec()),
            r == weight_of(next_state(old(self).state_spec())),
    {
        let v = self.next();
        let f = u64_to_f(v % 1001);
        div_f(sub_f(f, F_500), F_1000)
    }
}

} // verus!
