//! Saturation character selection and its byte encoding.
use vstd::prelude::*;
use vstd::std_specs::convert::FromSpecImpl;

verus! {

/// Saturation / distortion character of a voice.
#[derive(Clone, Copy, Debug, PartialEq, Eq, Structural)]
pub enum SaturationType {
    Off,
    SoftClip,
    Valve,
    Transistor,
    HardClip,
    Tape,
}

/// Byte code of a saturation type (0 = none .. 5 = tape).
pub open spec fn saturation_code(t: SaturationType) -> u8 {
    match t {
        SaturationType::Off => 0,
        SaturationType::SoftClip => 1,
        SaturationType::Valve => 2,
        SaturationType::Transistor => 3,
        SaturationType::HardClip => 4,
        SaturationType::Tape => 5,
    }
}

/// Saturation type of a byte code; unknown codes mean no saturation.
pub open spec fn saturation_of_code(value: u8) -> SaturationType {
    if value == 1 {
        SaturationType::SoftClip
    } else if value == 2 {
        SaturationType::Valve
    } else if value == 3 {
        SaturationType::Transistor
    } else if value == 4 {
        SaturationType::HardClip
    } else if value == 5 {
        SaturationType::Tape
    } else {
        SaturationType::Off
    }
}

impl From<u8> for SaturationType {
    fn from(value: u8) -> (r: Self) {
        match value {
            1 => SaturationType::SoftClip,
            2 => SaturationType::Valve,
            3 => SaturationType::Transistor,
            4 => SaturationType::HardClip,
            5 => SaturationType::Tape,
            _ => SaturationType::Off,
        }
    }
}

impl FromSpecImpl<u8> for SaturationType {
    open spec fn obeys_from_spec() -> bool {
        true
    }

    open spec fn from_spec(v: u8) -> Self {
        saturation_of_code(v)
    }
}

impl From<SaturationType> for u8 {
    fn from(value: SaturationType) -> (r: Self) {
        match value {
            SaturationType::Off => 0,
            SaturationType::SoftClip => 1,
            SaturationType::Valve => 2,
            SaturationType::Transistor => 3,
            SaturationType::HardClip => 4,
            SaturationType::Tape => 5,
        }
    }
}

impl FromSpecImpl<SaturationType> for u8 {
    open spec fn obeys_from_spec() -> bool {
        true
    }

    open spec fn from_spec(v: SaturationType) -> Self {
        saturation_code(v)
    }
}

/// Encoding a saturation type and decoding the byte gives the type back.
pub proof fn lemma_saturation_code_round_trip(t: SaturationType)
    ensures
        saturation_of_code(saturation_code(t)) == t,
        saturation_code(t) <= 5,
{
}

/// A byte decodes to a type that encodes back to the same byte exactly when
/// it is a known code (0..=5); every other byte decodes to no saturation.
pub proof fn lemma_saturation_decode_round_trip(value: u8)
    ensures
        value <= 5 ==> saturation_code(saturation_of_code(value)) == value,
        value > 5 ==> saturation_of_code(value) == SaturationType::Off,
{
}

} // verus!
