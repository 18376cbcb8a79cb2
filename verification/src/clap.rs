//! Burst schedule of the hand clap: after a trigger, four layered noise
//! bursts fire at their (echo-scaled) sample offsets, in order. The first
//! burst rides on the trigger's own snap; each later one retriggers it.
use vstd::prelude::*;

verus! {

/// Bursts per clap.
pub const BURST_COUNT: usize = 4;

/// What the current sample does.
#[derive(Clone, Copy, Debug, PartialEq, Eq, Structural)]
pub enum BurstEvent {
    /// No burst starts at this sample.
    Idle,
    /// Burst `index` starts: retrigger the amplitude envelope, retune the
    /// lowpass for this burst and, when `retrigger_snap`, retrigger the snap.
    Fire { index: usize, retrigger_snap: bool },
}

/// Burst counter and sample clock of a clap voice.
pub struct BurstScheduler {
    burst_count: usize,
    samples_since_trigger: usize,
}

impl BurstScheduler {
    /// Bursts fired since the last trigger.
    pub closed spec fn fired(self) -> nat {
        self.burst_count as nat
    }

    /// Samples processed since the last trigger (saturating).
    pub closed spec fn elapsed(self) -> nat {
        self.samples_since_trigger as nat
    }

    pub fn new() -> (s: Self)
        ensures
            s.fired() == 0,
            s.elapsed() == 0,
    {
        BurstScheduler { burst_count: 0, samples_since_trigger: 0 }
    }

    /// Restarts the schedule at a new hit.
    pub fn trigger(&mut self)
        ensures
            final(self).fired() == 0,
            final(self).elapsed() == 0,
    {
        self.burst_count = 0;
        self.samples_since_trigger = 0;
    }

    /// Bursts fired so far (at most four).
    pub fn burst_count(&self) -> (n: usize)
        ensures
            n == self.fired(),
    {
        self.burst_count
    }

    /// Advances the clock by one sample. `burst_times[i]` is the sample
    /// offset of burst `i`. The next pending burst fires when its offset has
    /// been reached; at most one burst fires per sample.
    pub fn tick(&mut self, burst_times: &[usize; BURST_COUNT]) -> (e: BurstEvent)
        requires
            old(self).fired() <= BURST_COUNT,
        ensures
            final(self).fired() <= BURST_COUNT,
            final(self).elapsed() == if old(self).elapsed() < usize::MAX {
                old(self).elapsed() + 1
            } else {
                old(self).elapsed()
            },
            old(self).fired() < BURST_COUNT && old(self).elapsed() >= burst_times@[old(
                self,
            ).fired() as int] ==> e == (BurstEvent::Fire {
                index: old(self).fired() as usize,
                retrigger_snap: old(self).fired() > 0,
            }) && final(self).fired() == old(self).fired() + 1,
            !(old(self).fired() < BURST_COUNT && old(self).elapsed() >= burst_times@[old(
                self,
            ).fired() as int]) ==> e == BurstEvent::Idle && final(self).fired() == old(
                self,
            ).fired(),
    {
        let mut e = BurstEvent::Idle;
        if self.burst_count < BURST_COUNT && self.samples_since_trigger
            >= burst_times[self.burst_count] {
            e = BurstEvent::Fire {
                index: self.burst_count,
                retrigger_snap: self.burst_count > 0,
            };
            self.burst_count = self.burst_count + 1;
        }
        self.samples_since_trigger = self.samples_since_trigger.saturating_add(1);
        e
    }
}

} // verus!
