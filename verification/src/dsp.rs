//! Integer parts of the shared DSP primitives: the white-noise state, the
//! noise colour choice, the pink-noise row schedule and the filter modes.
use vstd::prelude::*;
use crate::rng::{xorshift32, lemma_xorshift32_nonzero, xorshift32_step};

verus! {

/// State selected by a seed: zero is raised to one.
pub open spec fn white_seed_state(seed: u32) -> u32 {
    if seed == 0 { 1u32 } else { seed }
}

/// Deterministic white-noise generator (xorshift32). The sample value is the
/// state scaled to [-1, 1]; this type carries the state.
#[derive(Clone, Copy, Debug)]
pub struct WhiteNoise {
    state: u32,
}

impl View for WhiteNoise {
    type V = u32;

    closed spec fn view(&self) -> u32 {
        self.state
    }
}

impl WhiteNoise {
    /// The state is never zero.
    #[verifier::type_invariant]
    spec fn nonzero(self) -> bool {
        self.state != 0
    }

    pub fn new(seed: u32) -> (r: Self)
        ensures
            r@ == white_seed_state(seed),
            r@ != 0,
    {
        WhiteNoise { state: if seed == 0 { 1u32 } else { seed } }
    }

    /// Restarts the stream exactly as `new(seed)` would.
    pub fn reseed(&mut self, seed: u32)
        ensures
            final(self)@ == white_seed_state(seed),
            final(self)@ != 0,
    {
        self.state = if seed == 0 { 1u32 } else { seed };
    }

    /// Advances the generator and returns the new state.
    pub fn next_state(&mut self) -> (x: u32)
        ensures
            x == xorshift32(old(self)@),
            final(self)@ == x,
            x != 0,
    {
        proof {
            use_type_invariant(&*self);
            lemma_xorshift32_nonzero(self.state);
        }
        let x = xorshift32_step(self.state);
        self.state = x;
        x
    }
}

/// Colour of a switchable noise source.
#[derive(Clone, Copy, Debug, PartialEq, Eq, Structural)]
pub enum NoiseColor {
    White,
    Pink,
    Brown,
    Blue,
}

/// Colour selected by a noise-type code: 1 pink, 2 brown, 3 blue, anything
/// else white.
pub open spec fn noise_color_spec(noise_type: u8) -> NoiseColor {
    if noise_type == 1 {
        NoiseColor::Pink
    } else if noise_type == 2 {
        NoiseColor::Brown
    } else if noise_type == 3 {
        NoiseColor::Blue
    } else {
        NoiseColor::White
    }
}

impl NoiseColor {
    pub fn from_type(noise_type: u8) -> (c: NoiseColor)
        ensures
            c == noise_color_spec(noise_type),
    {
        match noise_type {
            1 => NoiseColor::Pink,
            2 => NoiseColor::Brown,
            3 => NoiseColor::Blue,
            _ => NoiseColor::White,
        }
    }
}

/// Number of pink-noise rows.
pub const PINK_ROWS: usize = 8;

/// Row of the pink-noise sum refreshed at a given step counter: the number
/// of trailing zero bits of the counter, capped at the last row.
pub open spec fn pink_row_spec(index: u8) -> nat {
    pink_row_from(index, 0)
}

/// Smallest `k` in `from..7` whose bit is set in `index`, or 7.
pub open spec fn pink_row_from(index: u8, from: nat) -> nat
    decreases 7 - from,
{
    if from >= 7 {
        7
    } else if (index >> (from as u8)) & 1u8 == 1u8 {
        from
    } else {
        pink_row_from(index, from + 1)
    }
}

/// Row of the pink-noise sum to refresh at step `index`.
pub fn pink_row(index: u8) -> (row: usize)
    ensures
        row == pink_row_spec(index),
        row < PINK_ROWS,
{
    let mut k: u8 = 0;
    while k < 7
        invariant
            k <= 7,
            pink_row_from(index, k as nat) == pink_row_spec(index),
        decreases 7 - k,
    {
        if (index >> k) & 1u8 == 1u8 {
            return k as usize;
        }
        k = k + 1;
    }
    7
}

/// Row `k` (below the last) is refreshed exactly at the steps that are
/// `2^k` modulo `2^(k+1)`: once every `2^(k+1)` steps, halfway through.
pub proof fn lemma_pink_row_schedule(i: u8, k: nat)
    requires
        k < 7,
    ensures
        (pink_row_spec(i) == k) == ((i as nat) % pow2_table(k + 1) == pow2_table(k)),
{
    reveal_with_fuel(pink_row_from, 8);
    if k == 0 {
        assert((
            (i >> 0u8) & 1u8 == 1u8
        ) == (i % 2u8 == 1u8)) by (bit_vector);
    } else if k == 1 {
        assert((
            (i >> 0u8) & 1u8 != 1u8
            && (i >> 1u8) & 1u8 == 1u8
        ) == (i % 4u8 == 2u8)) by (bit_vector);
    } else if k == 2 {
        assert((
            (i >> 0u8) & 1u8 != 1u8
            && (i >> 1u8) & 1u8 != 1u8
            && (i >> 2u8) & 1u8 == 1u8
        ) == (i % 8u8 == 4u8)) by (bit_vector);
    } else if k == 3 {
        assert((
            (i >> 0u8) & 1u8 != 1u8
            && (i >> 1u8) & 1u8 != 1u8
            && (i >> 2u8) & 1u8 != 1u8
            && (i >> 3u8) & 1u8 == 1u8
        ) == (i % 16u8 == 8u8)) by (bit_vector);
    } else if k == 4 {
        assert((
            (i >> 0u8) & 1u8 != 1u8
            && (i >> 1u8) & 1u8 != 1u8
            && (i >> 2u8) & 1u8 != 1u8
            && (i >> 3u8) & 1u8 != 1u8
            && (i >> 4u8) & 1u8 == 1u8
        ) == (i % 32u8 == 16u8)) by (bit_vector);
    } else if k == 5 {
        assert((
            (i >> 0u8) & 1u8 != 1u8
            && (i >> 1u8) & 1u8 != 1u8
            && (i >> 2u8) & 1u8 != 1u8
            && (i >> 3u8) & 1u8 != 1u8
            && (i >> 4u8) & 1u8 != 1u8
            && (i >> 5u8) & 1u8 == 1u8
        ) == (i % 64u8 == 32u8)) by (bit_vector);
    } else if k == 6 {
        assert((
            (i >> 0u8) & 1u8 != 1u8
            && (i >> 1u8) & 1u8 != 1u8
            && (i >> 2u8) & 1u8 != 1u8
            && (i >> 3u8) & 1u8 != 1u8
            && (i >> 4u8) & 1u8 != 1u8
            && (i >> 5u8) & 1u8 != 1u8
            && (i >> 6u8) & 1u8 == 1u8
        ) == (i % 128u8 == 64u8)) by (bit_vector);
    }
}

/// `2^k` for the row indices of the pink-noise source.
pub open spec fn pow2_table(k: nat) -> nat {
    if k == 0 { 1 } else if k == 1 { 2 } else if k == 2 { 4 } else if k == 3 { 8 } else if k
        == 4 { 16 } else if k == 5 { 32 } else if k == 6 { 64 } else if k == 7 { 128 } else { 256 }
}

/// Step counter of the pink-noise source after a refresh: it wraps.
pub fn pink_advance(index: u8) -> (next: u8)
    ensures
        next as int == (index as int + 1) % 256,
{
    index.wrapping_add(1)
}

/// One-pole filter response.
#[derive(Clone, Copy, Debug, PartialEq, Eq, Structural)]
pub enum FilterMode {
    LowPass,
    HighPass,
}

/// Seed of the click noise; it is restored at every trigger so every click
/// carries the same noise.
pub const CLICK_NOISE_SEED: u32 = 0x1234_5678;

/// What one sample of a click generator plays.
#[derive(Clone, Copy, Debug, PartialEq, Eq, Structural)]
pub enum ClickStep {
    /// Not triggered, or the envelope has finished: the sample is silent.
    Silent,
    /// An envelope-scaled mix of the impulse (only on the first sample after
    /// the trigger) and the noise value drawn from `noise_state`.
    Sound { impulse: bool, noise_state: u32 },
}

/// Sequencing of the attack-transient generator: the trigger flag, the
/// sample count since the trigger and the noise stream. The decay envelope
/// that scales the output is the caller's.
#[derive(Clone, Copy, Debug)]
pub struct ClickState {
    noise: WhiteNoise,
    triggered: bool,
    samples_since_trigger: u32,
}

impl ClickState {
    pub closed spec fn noise(self) -> WhiteNoise {
        self.noise
    }

    pub closed spec fn triggered(self) -> bool {
        self.triggered
    }

    pub closed spec fn samples_since_trigger(self) -> nat {
        self.samples_since_trigger as nat
    }

    pub fn new() -> (c: Self)
        ensures
            c.noise()@ == CLICK_NOISE_SEED,
            !c.triggered(),
            c.samples_since_trigger() == 0,
    {
        ClickState {
            noise: WhiteNoise::new(CLICK_NOISE_SEED),
            triggered: false,
            samples_since_trigger: 0,
        }
    }

    /// Starts a click: the noise restarts from its seed and the impulse is
    /// armed.
    pub fn trigger(&mut self)
        ensures
            final(self).noise()@ == CLICK_NOISE_SEED,
            final(self).triggered(),
            final(self).samples_since_trigger() == 0,
    {
        self.triggered = true;
        self.noise.reseed(CLICK_NOISE_SEED);
        self.samples_since_trigger = 0;
    }

    /// One sample, given whether the decay envelope is still running.
    pub fn step(&mut self, envelope_active: bool) -> (s: ClickStep)
        ensures
            final(self).triggered() == old(self).triggered(),
            !(old(self).triggered() && envelope_active) ==> s == ClickStep::Silent
                && *final(self) == *old(self),
            old(self).triggered() && envelope_active ==> {
                &&& s == (ClickStep::Sound {
                    impulse: old(self).samples_since_trigger() == 0,
                    noise_state: xorshift32(old(self).noise()@),
                })
                &&& final(self).noise()@ == xorshift32(old(self).noise()@)
                &&& final(self).samples_since_trigger() == if old(self).samples_since_trigger()
                    < u32::MAX {
                    old(self).samples_since_trigger() + 1
                } else {
                    old(self).samples_since_trigger()
                }
            },
    {
        if !self.triggered || !envelope_active {
            return ClickStep::Silent;
        }
        let impulse = self.samples_since_trigger == 0;
        self.samples_since_trigger = self.samples_since_trigger.saturating_add(1);
        let noise_state = self.noise.next_state();
        ClickStep::Sound { impulse, noise_state }
    }

    /// Sounding while triggered and the envelope runs.
    pub fn is_active(&self, envelope_active: bool) -> (r: bool)
        ensures
            r == (self.triggered() && envelope_active),
    {
        self.triggered && envelope_active
    }

    /// Silences the generator; the noise stream is left where it is.
    pub fn reset(&mut self)
        ensures
            final(self).noise() == old(self).noise(),
            !final(self).triggered(),
            final(self).samples_since_trigger() == 0,
    {
        self.triggered = false;
        self.samples_since_trigger = 0;
    }
}

/// Sample clock of the retrigger declicker: when armed it fades the last
/// output to zero over exactly `length` samples (raised-cosine window,
/// computed by the caller from the elapsed count).
#[derive(Clone, Copy, Debug)]
pub struct DeclickClock {
    remaining: u32,
    length: u32,
}

impl DeclickClock {
    pub closed spec fn remaining(self) -> nat {
        self.remaining as nat
    }

    pub closed spec fn length(self) -> nat {
        self.length as nat
    }

    /// The fade is at least one sample long and never past its end.
    #[verifier::type_invariant]
    spec fn in_fade(self) -> bool {
        1 <= self.length && self.remaining <= self.length
    }

    /// An idle declicker for a fade of `length_samples` (three milliseconds
    /// at the session rate), raised to one sample.
    pub fn new(length_samples: u32) -> (c: Self)
        ensures
            c.remaining() == 0,
            c.length() == if length_samples == 0 {
                1
            } else {
                length_samples
            },
    {
        DeclickClock { remaining: 0, length: if length_samples == 0 { 1 } else { length_samples } }
    }

    /// Arms a full fade (the caller captures the value it fades from).
    pub fn arm(&mut self)
        ensures
            final(self).length() == old(self).length(),
            final(self).remaining() == old(self).length(),
    {
        proof {
            use_type_invariant(&*self);
        }
        self.remaining = self.length;
    }

    /// Advances one sample. While fading, returns how many samples of the
    /// fade have already played and the fade length (the window position is
    /// their ratio); `None` once idle.
    pub fn next(&mut self) -> (r: Option<(u32, u32)>)
        ensures
            1 <= old(self).length(),
            old(self).remaining() <= old(self).length(),
            final(self).length() == old(self).length(),
            old(self).remaining() == 0 ==> r is None && final(self).remaining() == 0,
            old(self).remaining() > 0 ==> r == Some(
                (
                    (old(self).length() - old(self).remaining()) as u32,
                    old(self).length() as u32,
                ),
            ) && final(self).remaining() == old(self).remaining() - 1,
    {
        proof {
            use_type_invariant(&*self);
        }
        if self.remaining == 0 {
            return None;
        }
        let elapsed = self.length - self.remaining;
        self.remaining = self.remaining - 1;
        Some((elapsed, self.length))
    }

    pub fn is_active(&self) -> (r: bool)
        ensures
            r == (self.remaining() > 0),
    {
        self.remaining > 0
    }

    pub fn reset(&mut self)
        ensures
            final(self).remaining() == 0,
            final(self).length() == old(self).length(),
    {
        proof {
            use_type_invariant(&*self);
        }
        self.remaining = 0;
    }
}

} // verus!
