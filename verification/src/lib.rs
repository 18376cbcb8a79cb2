//! Integer core of a drum-machine synthesis engine: voice identities, the
//! repeatable xorshift noise generators, hit selection for the sampled
//! voices, decoding of the embedded sample banks and slot gating.
use vstd::prelude::*;

pub mod ac606;
pub mod ac_voice;
pub mod ch606;
pub mod clap;
pub mod drum_voice;
pub mod dsp;
pub mod perc1;
pub mod ring;
pub mod rng;
pub mod sample_bank;
pub mod saturation;
pub mod synthesizer;

pub use ac_voice::AcEngineKind;
pub use drum_voice::{DrumVoice, InstrumentInfo, InstrumentRegistry};
pub use saturation::SaturationType;
