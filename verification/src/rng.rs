//! A small pseudo-random number generator.
use vstd::prelude::*;

verus! {

/// What a seed is mixed with before the first step.
pub const SEED_MASK: u64 = 0xdeadbeefcafe;

/// The factor of a step.
pub const STEP_FACTOR: u64 = 6364136223846793005;

/// The addend of a step.
pub const STEP_ADDEND: u64 = 1442695040888963407;

/// The state after `state`: a linear congruence modulo 2^64.
pub open spec fn advance(state: u64) -> u64 {
    ((state * STEP_FACTOR + STEP_ADDEND) % 0x1_0000_0000_0000_0000) as u64
}

/// The first number that a generator with the given seed draws.
pub open spec fn first_draw(seed: u64) -> u64 {
    advance(seed ^ SEED_MASK)
}

/// The first index below `max` that a generator with the given seed draws.
pub open spec fn first_index(seed: u64, max: int) -> int {
    (first_draw(seed) as usize) as int % max
}

/// Simple linear congruential generator.
#[derive(Clone, Debug)]
pub struct SlotRng {
    pub state: u64,
}

impl SlotRng {
    /// A generator with the given seed.
    pub fn new(seed: u64) -> (r: Self)
        ensures
            r.state == seed ^ SEED_MASK,
            r.state == seed ^ 0xdead_beef_cafe,
    {
        SlotRng { state: seed ^ SEED_MASK }
    }

    /// Draws a number.
    pub fn next(&mut self) -> (r: u64)
        ensures
            r == advance(old(self).state),
            r == (old(self).state * 6364136223846793005int + 1442695040888963407int)
                % 0x1_0000_0000_0000_0000,
            final(self).state == r,
    {
        self.state = self.state.wrapping_mul(STEP_FACTOR).wrapping_add(STEP_ADDEND);
        self.state
    }

    /// Draws an index below `max`.
    pub fn next_usize(&mut self, max: usize) -> (r: usize)
        requires
            max > 0,
        ensures
            r == (advance(old(self).state) as usize) as int % max as int,
            r < max,
            final(self).state == advance(old(self).state),
    {
        (self.next() as usize) % max
    }
}

} // verus!
