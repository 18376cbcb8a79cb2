//! Which of the 606-style engines an AC voice runs.
use vstd::prelude::*;

verus! {

/// Engine run by an AC voice.
#[derive(Clone, Copy, Debug, PartialEq, Eq, Structural)]
pub enum AcEngineKind {
    BassDrum,
    Snare,
    ClosedHat,
    OpenHat,
    Clap,
    Tom,
}

} // verus!
