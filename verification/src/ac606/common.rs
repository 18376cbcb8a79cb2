//! The small repeatable generator shared by the 606-style engines.
use vstd::prelude::*;
use crate::rng::{xorshift32, lemma_xorshift32_nonzero, xorshift32_step};

verus! {

/// State a seed selects: zero would lock xorshift at zero, so it is replaced
/// by a fixed nonzero constant.
pub open spec fn seeded_state(seed: u32) -> u32 {
    if seed == 0 { 0x12345678u32 } else { seed }
}

/// Tiny repeatable random numbers (xorshift32).
pub struct Random {
    state: u32,
}

impl View for Random {
    type V = u32;

    closed spec fn view(&self) -> u32 {
        self.state
    }
}

impl Random {
    /// The state is never zero.
    #[verifier::type_invariant]
    spec fn nonzero(self) -> bool {
        self.state != 0
    }

    pub fn new(seed: u32) -> (r: Self)
        ensures
            r@ == seeded_state(seed),
            r@ != 0,
    {
        Random { state: if seed == 0 { 0x12345678u32 } else { seed } }
    }

    pub fn seed(&mut self, s: u32)
        ensures
            final(self)@ == seeded_state(s),
            final(self)@ != 0,
    {
        self.state = if s == 0 { 0x12345678u32 } else { s };
    }

    /// Advances the generator and returns the new state, the raw 32 random
    /// bits from which the bipolar mappings are taken.
    pub fn next(&mut self) -> (x: u32)
        ensures
            x == xorshift32(old(self)@),
            final(self)@ == x,
            x != 0,
    {
        proof {
            use_type_invariant(&*self);
            lemma_xorshift32_nonzero(self.state);
        }
        let x = xorshift32_step(self.state);
        self.state = x;
        x
    }
}

} // verus!
