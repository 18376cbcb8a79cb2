//! Slot gating of the drum synthesizer: which slots hold a preallocated voice
//! and which of them are active. Triggers, settings changes and rendering
//! only reach a voice through an active, allocated slot.
use vstd::prelude::*;

verus! {

/// Number of slots of the synthesizer.
pub const MAX_TRACKS: usize = 14;

/// What a slot reinitialisation asks the caller to do.
#[derive(Clone, Copy, Debug, PartialEq, Eq, Structural)]
pub enum ReinitAction {
    /// The slot is out of range: nothing happens.
    Ignore,
    /// No voice is allocated in the slot (no allocation on the audio
    /// thread): only the slot's velocity smoother is reset.
    ResetSmoother,
    /// The slot's voice is replaced by the new kind, the slot is activated
    /// and its velocity smoother is reset.
    ReplaceVoice,
}

/// Copy of `flags` with entry `slot` set to `value`.
fn updated(flags: &Vec<bool>, slot: usize, value: bool) -> (r: Vec<bool>)
    requires
        slot < flags@.len(),
    ensures
        r@ == flags@.update(slot as int, value),
{
    let mut r: Vec<bool> = Vec::new();
    let mut i: usize = 0;
    while i < flags.len()
        invariant
            slot < flags@.len(),
            i <= flags@.len(),
            r@ == flags@.update(slot as int, value).subrange(0, i as int),
        decreases flags@.len() - i,
    {
        if i == slot {
            r.push(value);
        } else {
            r.push(flags[i]);
        }
        i = i + 1;
        assert(r@ =~= flags@.update(slot as int, value).subrange(0, i as int));
    }
    assert(r@ =~= flags@.update(slot as int, value));
    r
}

/// Per-slot flags of the synthesizer.
pub struct SlotGate {
    active: Vec<bool>,
    allocated: Vec<bool>,
}

impl SlotGate {
    /// One flag of each kind per slot.
    #[verifier::type_invariant]
    spec fn sized(self) -> bool {
        self.active.len() == MAX_TRACKS && self.allocated.len() == MAX_TRACKS
    }

    /// Active flag of every slot.
    pub closed spec fn active(self) -> Seq<bool> {
        self.active@
    }

    /// Whether every slot holds a voice.
    pub closed spec fn allocated(self) -> Seq<bool> {
        self.allocated@
    }

    /// Slot `slot` accepts triggers, settings and renders.
    pub open spec fn gates_open(self, slot: int) -> bool {
        0 <= slot < MAX_TRACKS && self.active()[slot] && self.allocated()[slot]
    }

    /// A synthesizer before initialisation: no voice, no active slot.
    pub fn new() -> (g: Self)
        ensures
            g.active() == Seq::new(MAX_TRACKS as nat, |i: int| false),
            g.allocated() == Seq::new(MAX_TRACKS as nat, |i: int| false),
    {
        let mut active: Vec<bool> = Vec::new();
        let mut allocated: Vec<bool> = Vec::new();
        let mut i: usize = 0;
        while i < MAX_TRACKS
            invariant
                i <= MAX_TRACKS,
                active@ == Seq::new(i as nat, |k: int| false),
                allocated@ == Seq::new(i as nat, |k: int| false),
            decreases MAX_TRACKS - i,
        {
            active.push(false);
            allocated.push(false);
            i = i + 1;
            assert(active@ =~= Seq::new(i as nat, |k: int| false));
            assert(allocated@ =~= Seq::new(i as nat, |k: int| false));
        }
        SlotGate { active, allocated }
    }

    /// Initialisation from a layout: every slot gets a voice (a placeholder
    /// for inactive slots), and each slot takes the layout's active flag.
    pub fn initialize_with_layout(&mut self, layout_active: &[bool; MAX_TRACKS])
        ensures
            final(self).active() == layout_active@,
            final(self).allocated() == Seq::new(MAX_TRACKS as nat, |i: int| true),
    {
        let mut active: Vec<bool> = Vec::new();
        let mut allocated: Vec<bool> = Vec::new();
        let mut i: usize = 0;
        while i < MAX_TRACKS
            invariant
                i <= MAX_TRACKS,
                layout_active@.len() == MAX_TRACKS,
                active@ == layout_active@.subrange(0, i as int),
                allocated@ == Seq::new(i as nat, |k: int| true),
            decreases MAX_TRACKS - i,
        {
            active.push(layout_active[i]);
            allocated.push(true);
            i = i + 1;
            assert(active@ =~= layout_active@.subrange(0, i as int));
            assert(allocated@ =~= Seq::new(i as nat, |k: int| true));
        }
        assert(active@ =~= layout_active@);
        *self = SlotGate { active, allocated };
    }

    /// Whether slot `slot` is active; out-of-range slots are not.
    pub fn is_active(&self, slot: usize) -> (r: bool)
        ensures
            self.active().len() == MAX_TRACKS,
            r == (slot < MAX_TRACKS && self.active()[slot as int]),
    {
        proof {
            use_type_invariant(self);
        }
        if slot < self.active.len() {
            self.active[slot]
        } else {
            false
        }
    }

    /// Whether a trigger, a settings change, an algorithm change, a voice
    /// reset or a render of slot `slot` reaches its voice.
    pub fn gates(&self, slot: usize) -> (r: bool)
        ensures
            self.active().len() == MAX_TRACKS,
            self.allocated().len() == MAX_TRACKS,
            r == self.gates_open(slot as int),
    {
        proof {
            use_type_invariant(self);
        }
        slot < MAX_TRACKS && self.active[slot] && self.allocated[slot]
    }

    /// Activates or deactivates a slot; out-of-range slots are ignored.
    pub fn set_slot_active(&mut self, slot: usize, active: bool)
        ensures
            old(self).active().len() == MAX_TRACKS,
            slot < MAX_TRACKS ==> final(self).active() == old(self).active().update(
                slot as int,
                active,
            ),
            slot >= MAX_TRACKS ==> final(self).active() == old(self).active(),
            final(self).allocated() == old(self).allocated(),
    {
        proof {
            use_type_invariant(&*self);
        }
        if slot < MAX_TRACKS {
            self.active = updated(&self.active, slot, active);
        }
    }

    /// Reinitialises a slot with a new instrument kind. An allocated slot
    /// has its voice replaced and becomes active; nothing is allocated here.
    pub fn reinitialize_slot(&mut self, slot: usize) -> (a: ReinitAction)
        ensures
            old(self).active().len() == MAX_TRACKS,
            old(self).allocated().len() == MAX_TRACKS,
            final(self).allocated() == old(self).allocated(),
            slot >= MAX_TRACKS ==> a == ReinitAction::Ignore && final(self).active() == old(
                self,
            ).active(),
            slot < MAX_TRACKS && old(self).allocated()[slot as int] ==> a
                == ReinitAction::ReplaceVoice && final(self).active() == old(self).active().update(
                slot as int,
                true,
            ),
            slot < MAX_TRACKS && !old(self).allocated()[slot as int] ==> a
                == ReinitAction::ResetSmoother && final(self).active() == old(self).active(),
    {
        proof {
            use_type_invariant(&*self);
        }
        if slot >= MAX_TRACKS {
            return ReinitAction::Ignore;
        }
        if self.allocated[slot] {
            self.active = updated(&self.active, slot, true);
            ReinitAction::ReplaceVoice
        } else {
            ReinitAction::ResetSmoother
        }
    }
}

/// After a slot is switched on or off, triggers reach it exactly when it
/// was switched on and holds a voice, and every other slot gates as before.
pub proof fn lemma_set_then_gates(
    before: SlotGate,
    after: SlotGate,
    slot: int,
    active: bool,
    other: int,
)
    requires
        before.active().len() == MAX_TRACKS,
        0 <= slot < MAX_TRACKS,
        after.active() == before.active().update(slot, active),
        after.allocated() == before.allocated(),
        other != slot,
    ensures
        after.gates_open(slot) == (active && before.allocated()[slot]),
        after.gates_open(other) == before.gates_open(other),
{
}

/// A reinitialised slot that holds a voice gates open afterwards.
pub proof fn lemma_reinitialized_slot_plays(before: SlotGate, after: SlotGate, slot: int)
    requires
        before.active().len() == MAX_TRACKS,
        0 <= slot < MAX_TRACKS,
        before.allocated()[slot],
        after.active() == before.active().update(slot, true),
        after.allocated() == before.allocated(),
    ensures
        after.gates_open(slot),
{
}

} // verus!
