//! Drum voice identities and their lookup in the instrument registry.
use vstd::prelude::*;

verus! {

/// Drum voice types, in registry order.
#[derive(Clone, Copy, Debug, PartialEq, Eq, Structural)]
pub enum DrumVoice {
    Kick,
    Snare,
    HiHat,
    OpenHiHat,
    Tom1,
    Tom2,
    Tom3,
    Clap,
    Ride,
    Cymbal,
    Snare606,
    BassDrum808,
    Perc1,
    Bd606,
    Sd606,
    Ch606,
    Buzz,
    Sdrex,
}

/// Position of a voice in registry order.
pub open spec fn voice_index(v: DrumVoice) -> nat {
    match v {
        DrumVoice::Kick => 0,
        DrumVoice::Snare => 1,
        DrumVoice::HiHat => 2,
        DrumVoice::OpenHiHat => 3,
        DrumVoice::Tom1 => 4,
        DrumVoice::Tom2 => 5,
        DrumVoice::Tom3 => 6,
        DrumVoice::Clap => 7,
        DrumVoice::Ride => 8,
        DrumVoice::Cymbal => 9,
        DrumVoice::Snare606 => 10,
        DrumVoice::BassDrum808 => 11,
        DrumVoice::Perc1 => 12,
        DrumVoice::Bd606 => 13,
        DrumVoice::Sd606 => 14,
        DrumVoice::Ch606 => 15,
        DrumVoice::Buzz => 16,
        DrumVoice::Sdrex => 17,
    }
}

/// Voice at a registry position, if the position names one.
pub open spec fn voice_at(index: int) -> Option<DrumVoice> {
    if index == 0 {
        Some(DrumVoice::Kick)
    } else if index == 1 {
        Some(DrumVoice::Snare)
    } else if index == 2 {
        Some(DrumVoice::HiHat)
    } else if index == 3 {
        Some(DrumVoice::OpenHiHat)
    } else if index == 4 {
        Some(DrumVoice::Tom1)
    } else if index == 5 {
        Some(DrumVoice::Tom2)
    } else if index == 6 {
        Some(DrumVoice::Tom3)
    } else if index == 7 {
        Some(DrumVoice::Clap)
    } else if index == 8 {
        Some(DrumVoice::Ride)
    } else if index == 9 {
        Some(DrumVoice::Cymbal)
    } else if index == 10 {
        Some(DrumVoice::Snare606)
    } else if index == 11 {
        Some(DrumVoice::BassDrum808)
    } else if index == 12 {
        Some(DrumVoice::Perc1)
    } else if index == 13 {
        Some(DrumVoice::Bd606)
    } else if index == 14 {
        Some(DrumVoice::Sd606)
    } else if index == 15 {
        Some(DrumVoice::Ch606)
    } else if index == 16 {
        Some(DrumVoice::Buzz)
    } else if index == 17 {
        Some(DrumVoice::Sdrex)
    } else {
        None
    }
}

/// Registry entry of one instrument.
#[derive(Clone, Copy, Debug)]
pub struct InstrumentInfo {
    pub midi_note: u8,
    pub name: &'static str,
    pub label: &'static str,
}

/// The instrument registry: one entry per drum voice, in voice order.
pub struct InstrumentRegistry {
    entries: Vec<InstrumentInfo>,
}

impl View for InstrumentRegistry {
    type V = Seq<InstrumentInfo>;

    closed spec fn view(&self) -> Seq<InstrumentInfo> {
        self.entries@
    }
}

impl InstrumentRegistry {
    /// Builds a registry from its entries; there must be exactly one entry
    /// per drum voice.
    pub fn new(entries: Vec<InstrumentInfo>) -> (r: Option<InstrumentRegistry>)
        ensures
            r is Some <==> entries.len() == DrumVoice::COUNT,
            r matches Some(reg) ==> reg@ == entries@,
    {
        if entries.len() == DrumVoice::COUNT {
            Some(InstrumentRegistry { entries })
        } else {
            None
        }
    }

    /// Entries are kept one per voice.
    #[verifier::type_invariant]
    spec fn complete(self) -> bool {
        self.entries.len() == DrumVoice::COUNT
    }

    pub fn len(&self) -> (n: usize)
        ensures
            n == self@.len(),
            n == DrumVoice::COUNT,
    {
        proof {
            use_type_invariant(self);
        }
        self.entries.len()
    }

    /// Entry of a voice.
    pub fn entry(&self, voice: DrumVoice) -> (e: InstrumentInfo)
        ensures
            self@.len() == DrumVoice::COUNT,
            e == self@[voice_index(voice) as int],
    {
        proof {
            use_type_invariant(self);
        }
        self.entries[voice.index()]
    }
}

impl DrumVoice {
    /// Number of drum voices.
    pub const COUNT: usize = 18;

    /// Position of the voice in registry order.
    pub fn index(&self) -> (i: usize)
        ensures
            i == voice_index(*self),
            i < DrumVoice::COUNT,
    {
        match self {
            DrumVoice::Kick => 0,
            DrumVoice::Snare => 1,
            DrumVoice::HiHat => 2,
            DrumVoice::OpenHiHat => 3,
            DrumVoice::Tom1 => 4,
            DrumVoice::Tom2 => 5,
            DrumVoice::Tom3 => 6,
            DrumVoice::Clap => 7,
            DrumVoice::Ride => 8,
            DrumVoice::Cymbal => 9,
            DrumVoice::Snare606 => 10,
            DrumVoice::BassDrum808 => 11,
            DrumVoice::Perc1 => 12,
            DrumVoice::Bd606 => 13,
            DrumVoice::Sd606 => 14,
            DrumVoice::Ch606 => 15,
            DrumVoice::Buzz => 16,
            DrumVoice::Sdrex => 17,
        }
    }

    /// Voice at a registry position; `None` past the last voice.
    pub fn from_index(index: usize) -> (r: Option<Self>)
        ensures
            r == voice_at(index as int),
            r is Some <==> index < DrumVoice::COUNT,
            r matches Some(v) ==> voice_index(v) == index,
    {
        match index {
            0 => Some(DrumVoice::Kick),
            1 => Some(DrumVoice::Snare),
            2 => Some(DrumVoice::HiHat),
            3 => Some(DrumVoice::OpenHiHat),
            4 => Some(DrumVoice::Tom1),
            5 => Some(DrumVoice::Tom2),
            6 => Some(DrumVoice::Tom3),
            7 => Some(DrumVoice::Clap),
            8 => Some(DrumVoice::Ride),
            9 => Some(DrumVoice::Cymbal),
            10 => Some(DrumVoice::Snare606),
            11 => Some(DrumVoice::BassDrum808),
            12 => Some(DrumVoice::Perc1),
            13 => Some(DrumVoice::Bd606),
            14 => Some(DrumVoice::Sd606),
            15 => Some(DrumVoice::Ch606),
            16 => Some(DrumVoice::Buzz),
            17 => Some(DrumVoice::Sdrex),
            _ => None,
        }
    }

    /// MIDI note of the voice, from the registry.
    pub fn midi_note(&self, registry: &InstrumentRegistry) -> (n: u8)
        ensures
            registry@.len() == DrumVoice::COUNT,
            n == registry@[voice_index(*self) as int].midi_note,
    {
        registry.entry(*self).midi_note
    }

    /// Display name of the voice, from the registry.
    pub fn name(&self, registry: &InstrumentRegistry) -> (s: &'static str)
        ensures
            registry@.len() == DrumVoice::COUNT,
            s == registry@[voice_index(*self) as int].name,
    {
        registry.entry(*self).name
    }

    /// Short label of the voice, from the registry.
    pub fn label(&self, registry: &InstrumentRegistry) -> (s: &'static str)
        ensures
            registry@.len() == DrumVoice::COUNT,
            s == registry@[voice_index(*self) as int].label,
    {
        registry.entry(*self).label
    }
}

/// Every voice's position maps back to the voice, and the positions of
/// distinct voices differ.
pub proof fn lemma_index_round_trip(v: DrumVoice)
    ensures
        voice_at(voice_index(v) as int) == Some(v),
        voice_index(v) < DrumVoice::COUNT,
{
}

/// Every position below the voice count names a voice whose position it is;
/// no other position names one.
pub proof fn lemma_position_round_trip(index: int)
    ensures
        0 <= index < DrumVoice::COUNT ==> (voice_at(index) matches Some(v) && voice_index(v)
            == index),
        !(0 <= index < DrumVoice::COUNT) ==> voice_at(index) is None,
{
}

} // verus!
