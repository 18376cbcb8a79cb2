//! Hit selection of the multisample TR-606 voices: a random hit without
//! immediate repeat in analog mode, the user-selected hit otherwise, and the
//! stereo pairs (1,2) (3,4) (5,6) (7,8).
use vstd::prelude::*;
use crate::rng::{xorshift32, xorshift32_step};
use crate::sample_bank::HIT_COUNT;

verus! {

/// Seed of the hit generator of a freshly built voice.
pub const HIT_RNG_SEED: u32 = 0x6060_0003;

/// Random hit drawn from a generator state that was just advanced: the top
/// 24 bits modulo the hit count, moved to the next hit when it equals the
/// previous one.
pub open spec fn random_hit(rng: u32, last_hit: nat) -> nat {
    let h = ((rng >> 8u32) as nat) % (HIT_COUNT as nat);
    if h == last_hit {
        (h + 1) % (HIT_COUNT as nat)
    } else {
        h
    }
}

/// Hit picked in fixed mode from the rounded 1-based sample index: clamped
/// to 1..=8, then made 0-based.
pub open spec fn fixed_hit(sample_index: nat) -> nat {
    if sample_index < 1 {
        0
    } else if sample_index > HIT_COUNT {
        (HIT_COUNT - 1) as nat
    } else {
        (sample_index - 1) as nat
    }
}

/// Left hit of a stereo pair: the even base of the pair.
pub open spec fn pair_base(h: nat) -> nat {
    (h - h % 2) as nat
}

/// Hits played by one trigger: left (or mono) and right channel.
#[derive(Clone, Copy, Debug, PartialEq, Eq, Structural)]
pub struct HitPair {
    pub left: usize,
    pub right: usize,
}

/// Hit-selection state of a sampled voice: the xorshift32 generator (seeded
/// at construction, never reseeded on trigger) and the hit last played.
pub struct HitSelector {
    rng: u32,
    last_hit: usize,
    right_hit: usize,
}

impl HitSelector {
    pub closed spec fn rng(self) -> u32 {
        self.rng
    }

    pub closed spec fn last_hit(self) -> nat {
        self.last_hit as nat
    }

    pub closed spec fn right_hit(self) -> nat {
        self.right_hit as nat
    }

    /// Hits are always within the bank.
    #[verifier::type_invariant]
    spec fn in_bank(self) -> bool {
        self.last_hit < HIT_COUNT && self.right_hit < HIT_COUNT
    }

    /// State of a new voice: first hit, its pair partner on the right.
    pub fn new() -> (s: Self)
        ensures
            s.rng() == HIT_RNG_SEED,
            s.last_hit() == 0,
            s.right_hit() == 1,
    {
        HitSelector { rng: HIT_RNG_SEED, last_hit: 0, right_hit: 1 }
    }

    /// Advances the generator and draws a hit that differs from the last
    /// one played.
    pub fn next_random_hit(&mut self) -> (h: usize)
        ensures
            old(self).last_hit() < HIT_COUNT,
            final(self).rng() == xorshift32(old(self).rng()),
            h == random_hit(final(self).rng(), old(self).last_hit()),
            h < HIT_COUNT,
            h != old(self).last_hit(),
            final(self).last_hit() == old(self).last_hit(),
            final(self).right_hit() == old(self).right_hit(),
            ({
                let d = ((final(self).rng() >> 8u32) as nat) % 8;
                &&& d != old(self).last_hit() ==> h == d
                &&& d == old(self).last_hit() ==> h == (d + 1) % 8
            }),
    {
        proof {
            use_type_invariant(&*self);
        }
        self.rng = xorshift32_step(self.rng);
        let mut h = ((self.rng >> 8u32) as usize) % HIT_COUNT;
        if h == self.last_hit {
            h = (h + 1) % HIT_COUNT;
        }
        h
    }

    /// Picks the hits of a trigger. `analog` draws a random hit, otherwise
    /// `sample_index` (1-based, already rounded) selects it. With `stereo`
    /// the left channel plays the even base of the pair and the right channel
    /// the next hit. The left hit becomes the last hit played.
    pub fn select(&mut self, analog: bool, sample_index: usize, stereo: bool) -> (p: HitPair)
        ensures
            old(self).last_hit() < HIT_COUNT,
            old(self).right_hit() < HIT_COUNT,
            final(self).rng() == (if analog {
                xorshift32(old(self).rng())
            } else {
                old(self).rng()
            }),
            ({
                let base = if analog {
                    random_hit(xorshift32(old(self).rng()), old(self).last_hit())
                } else {
                    fixed_hit(sample_index as nat)
                };
                &&& p.left == (if stereo { pair_base(base) } else { base })
                &&& p.right == (if stereo { (p.left + 1) % (HIT_COUNT as int) } else { old(
                    self,
                ).right_hit() as int })
            }),
            final(self).last_hit() == p.left,
            final(self).right_hit() == p.right,
            p.left < HIT_COUNT,
            p.right < HIT_COUNT,
            ({
                // The hit chosen before pairing, in terms of the inputs.
                let d = ((xorshift32(old(self).rng()) >> 8u32) as nat) % 8;
                let chosen: int = if analog {
                    if d == old(self).last_hit() {
                        ((d + 1) % 8) as int
                    } else {
                        d as int
                    }
                } else if sample_index < 1 {
                    0int
                } else if sample_index > 8 {
                    7int
                } else {
                    sample_index - 1
                };
                &&& !stereo ==> p.left == chosen
                &&& stereo ==> p.left % 2 == 0 && p.left <= chosen < p.left + 2 && p.right
                    == p.left + 1
            }),
    {
        proof {
            use_type_invariant(&*self);
        }
        let mut current = if analog {
            self.next_random_hit()
        } else if sample_index < 1 {
            0
        } else if sample_index > HIT_COUNT {
            HIT_COUNT - 1
        } else {
            sample_index - 1
        };
        if stereo {
            current = current - current % 2;
            self.right_hit = (current + 1) % HIT_COUNT;
        }
        self.last_hit = current;
        HitPair { left: current, right: self.right_hit }
    }
}

/// In analog mode without stereo pairs a trigger never plays the hit the
/// previous trigger played.
pub proof fn lemma_analog_never_repeats(rng: u32, last_hit: nat)
    requires
        last_hit < HIT_COUNT,
    ensures
        random_hit(rng, last_hit) != last_hit,
        random_hit(rng, last_hit) < HIT_COUNT,
{
}

/// A stereo pair always plays two distinct hits: an even left hit and the
/// odd hit after it.
pub proof fn lemma_stereo_pair_distinct(h: nat)
    requires
        h < HIT_COUNT,
    ensures
        pair_base(h) % 2 == 0,
        pair_base(h) + 1 < HIT_COUNT,
        (pair_base(h) + 1) % (HIT_COUNT as nat) != pair_base(h),
{
}

/// Fixed mode ignores the generator: every trigger picks the same hit, one
/// inside the bank.
pub proof fn lemma_fixed_hit_in_bank(sample_index: nat)
    ensures
        fixed_hit(sample_index) < HIT_COUNT,
        1 <= sample_index <= HIT_COUNT ==> fixed_hit(sample_index) == sample_index - 1,
{
}

/// The left hit of a stereo pair is the selected hit with its low bit
/// cleared: the pair is the even hit at or just below the selection and the
/// odd hit after it, so the selection is one of the two.
pub proof fn lemma_pair_contains_selection(h: nat)
    ensures
        pair_base(h) % 2 == 0,
        pair_base(h) <= h < pair_base(h) + 2,
{
}

/// A random draw is the top 24 bits of the advanced state modulo the hit
/// count, moved on by one (wrapping) only when it equals the last hit.
pub proof fn lemma_random_hit_draw(rng: u32, last_hit: nat)
    ensures
        ((rng >> 8u32) as nat) % 8 != last_hit ==> random_hit(rng, last_hit) == ((rng
            >> 8u32) as nat) % 8,
        ((rng >> 8u32) as nat) % 8 == last_hit ==> random_hit(rng, last_hit) == (((rng
            >> 8u32) as nat) % 8 + 1) % 8,
{
}

/// Every hit of the bank can be drawn: for any last hit and any other
/// target, a state whose top 24 bits are the target draws it.
pub proof fn lemma_every_other_hit_reachable(target: nat, last_hit: nat)
    requires
        target < HIT_COUNT,
        target != last_hit,
    ensures
        random_hit((target as u32) << 8u32, last_hit) == target,
{
    let r: u32 = (target as u32) << 8u32;
    let t: u32 = target as u32;
    assert(t < 8);
    assert((r >> 8u32) == t) by (bit_vector)
        requires
            r == t << 8u32,
            t < 8u32,
    ;
}

} // verus!
