//! The clap engine's own generator: same xorshift32 step, another fallback
//! seed, and only the top 24 bits are used.
use vstd::prelude::*;
use crate::rng::{xorshift32, lemma_xorshift32_nonzero, xorshift32_step};

verus! {

/// State a seed selects; zero is replaced by a fixed nonzero constant.
pub open spec fn seeded_state(seed: u32) -> u32 {
    if seed == 0 { 0x6D2B79F5u32 } else { seed }
}

/// Repeatable generator of the clap noise.
pub struct Random {
    state: u32,
}

impl View for Random {
    type V = u32;

    closed spec fn view(&self) -> u32 {
        self.state
    }
}

impl Random {
    /// The state is never zero.
    #[verifier::type_invariant]
    spec fn nonzero(self) -> bool {
        self.state != 0
    }

    pub fn new(seed: u32) -> (r: Self)
        ensures
            r@ == seeded_state(seed),
            r@ != 0,
    {
        Random { state: if seed == 0 { 0x6D2B79F5u32 } else { seed } }
    }

    /// Advances the generator and returns the top 24 bits of the new state
    /// (the value the bipolar draw is scaled from).
    pub fn next_bits24(&mut self) -> (x: u32)
        ensures
            final(self)@ == xorshift32(old(self)@),
            final(self)@ != 0,
            x == final(self)@ >> 8u32,
            x < 0x0100_0000,
    {
        proof {
            use_type_invariant(&*self);
            lemma_xorshift32_nonzero(self.state);
        }
        let v = xorshift32_step(self.state);
        self.state = v;
        let x = v >> 8u32;
        assert(v >> 8u32 < 0x0100_0000u32) by (bit_vector);
        x
    }
}

} // verus!
