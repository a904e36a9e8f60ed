//! A small deterministic pseudo-random number generator. A generator is
//! owned by one rendering task and threaded through every call that draws
//! randomness, so concurrent samples never share mutable state.

use vstd::prelude::*;
use vstd::wrapping::u64_specs;
use crate::fixed::SCALE;

verus! {

/// A random number generator.
#[derive(Debug, Clone)]
pub struct Random {
    /// The state of the random number generator.
    state: u64,
}

/// A slightly modified version of the "One At A Time" hash function.
pub open spec fn spec_jenkins_hash(input: u64) -> u64 {
    let a = u64_specs::wrapping_add(input, input << 10);
    let b = a ^ (a >> 6);
    let c = u64_specs::wrapping_add(b, b << 3);
    let d = c ^ (c >> 11);
    u64_specs::wrapping_add(d, d << 15)
}

/// The "xor" step from Marsaglia's xorshift family: a nonzero state stays
/// nonzero, and the stream is a pure function of the state.
pub open spec fn spec_xor_shift64(state: u64) -> u64 {
    let a = state ^ (state << 13);
    let b = a ^ (a >> 7);
    b ^ (b << 17)
}

impl View for Random {
    type V = u64;

    /// The generator is modeled by its state word.
    closed spec fn view(&self) -> u64 {
        self.state
    }
}

impl Random {
    /// Create a new random number generator with the given seed; a zero seed
    /// would risk pinning the xorshift stream at zero forever.
    pub fn new(seed: u64) -> (r: Random)
        requires
            seed != 0,
        ensures
            r@ == spec_jenkins_hash(seed),
    {
        Random { state: Self::jenkins_hash(seed) }
    }

    /// Applies a slightly modified version of the "One At A Time"
    /// hash function to the input.
    pub fn jenkins_hash(input: u64) -> (r: u64)
        ensures
            r == spec_jenkins_hash(input),
    {
        let mut input = input;
        input = input.wrapping_add(input << 10);
        input = input ^ (input >> 6);
        input = input.wrapping_add(input << 3);
        input = input ^ (input >> 11);
        input = input.wrapping_add(input << 15);
        input
    }

    /// Applies the "xor" function from Marsaglia G., "Xorshift RNGs",
    /// Section 3, returning the new state.
    pub fn xor_shift64(&mut self) -> (r: u64)
        ensures
            r == spec_xor_shift64(old(self)@),
            final(self)@ == r,
    {
        let mut x = self.state;
        x = x ^ (x << 13);
        x = x ^ (x >> 7);
        x = x ^ (x << 17);
        self.state = x;
        x
    }

    /// Returns a random scalar in the unit range `[0, 1)`: the top bits of
    /// one xorshift draw become the fractional part.
    pub fn random_unit_scalar(&mut self) -> (r: i64)
        ensures
            r == (spec_xor_shift64(old(self)@) >> 40) as i64,
            final(self)@ == spec_xor_shift64(old(self)@),
            0 <= r < SCALE,
    {
        let x = self.xor_shift64();
        let top = x >> 40;
        proof {
            assert((x >> 40) < 16777216u64) by (bit_vector);
        }
        top as i64
    }
}

} // verus!
