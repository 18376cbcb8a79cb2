//! Ring position of the slap delay of the Perc1 voice.
use vstd::prelude::*;

verus! {

/// Capacity of the delay buffers, in samples.
pub const MAX_DELAY_SAMPLES: usize = 8192;

/// Read/write position of the slap delay: it cycles through the first
/// `delay_samples` cells of the buffers (through cell 0 alone when the delay
/// is shorter than one sample).
pub struct DelayCursor {
    pos: usize,
    delay_samples: usize,
}

impl DelayCursor {
    pub closed spec fn pos(self) -> nat {
        self.pos as nat
    }

    pub closed spec fn delay_samples(self) -> nat {
        self.delay_samples as nat
    }

    /// The position is a valid buffer cell inside the delay.
    #[verifier::type_invariant]
    spec fn in_delay(self) -> bool {
        &&& self.delay_samples < MAX_DELAY_SAMPLES
        &&& (self.pos < self.delay_samples || self.pos == 0)
    }

    /// A delay of `delay_samples` (rounded from the slap time), capped to
    /// fit the buffers; the cursor starts at cell 0.
    pub fn new(delay_samples: usize) -> (c: Self)
        ensures
            c.pos() == 0,
            c.delay_samples() == if delay_samples < MAX_DELAY_SAMPLES - 1 {
                delay_samples
            } else {
                (MAX_DELAY_SAMPLES - 1) as usize
            },
    {
        let d = if delay_samples < MAX_DELAY_SAMPLES - 1 {
            delay_samples
        } else {
            MAX_DELAY_SAMPLES - 1
        };
        DelayCursor { pos: 0, delay_samples: d }
    }

    /// Cell to read and write at this sample.
    pub fn position(&self) -> (p: usize)
        ensures
            p == self.pos(),
            p < MAX_DELAY_SAMPLES,
            p < self.delay_samples() || p == 0,
    {
        proof {
            use_type_invariant(self);
        }
        self.pos
    }

    /// Moves to the next cell, wrapping at the delay length.
    pub fn advance(&mut self)
        ensures
            final(self).delay_samples() == old(self).delay_samples(),
            final(self).pos() == if old(self).pos() + 1 >= old(self).delay_samples() {
                0
            } else {
                old(self).pos() + 1
            },
    {
        proof {
            use_type_invariant(&*self);
        }
        let next = self.pos + 1;
        self.pos = if next >= self.delay_samples {
            0
        } else {
            next
        };
    }

    /// Back to the first cell (the buffers are cleared by the caller).
    pub fn reset(&mut self)
        ensures
            final(self).pos() == 0,
            final(self).delay_samples() == old(self).delay_samples(),
    {
        proof {
            use_type_invariant(&*self);
        }
        self.pos = 0;
    }
}

} // verus!
