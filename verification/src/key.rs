//! The classification vocabulary: 24 musical keys plus silence, and the
//! decoding of the analysis engine's raw integer result codes.

use vstd::prelude::*;

verus! {

/// Result of a key classification: one of the 12 major keys, one of the 12
/// minor keys, or silence (no detectable tonal content).
///
/// The variants stand in the order of the engine's native result codes, so
/// that code `n` names the `n`-th variant and code 24 names `Silence`.
#[derive(Debug, Copy, Clone, PartialEq, Eq, Structural)]
pub enum KeyFinderKey {
    AMajor,
    AMinor,
    BFlatMajor,
    BFlatMinor,
    BMajor,
    BMinor,
    CMajor,
    CMinor,
    DFlatMajor,
    DFlatMinor,
    DMajor,
    DMinor,
    EFlatMajor,
    EFlatMinor,
    EMajor,
    EMinor,
    FMajor,
    FMinor,
    GFlatMajor,
    GFlatMinor,
    GMajor,
    GMinor,
    AFlatMajor,
    AFlatMinor,
    Silence,
}

/// The integer code a key is reported as by the analysis engine:
/// 0 through 23 for the 24 keys, 24 for silence.
pub open spec fn key_code(k: KeyFinderKey) -> u32 {
    match k {
        KeyFinderKey::AMajor => 0,
        KeyFinderKey::AMinor => 1,
        KeyFinderKey::BFlatMajor => 2,
        KeyFinderKey::BFlatMinor => 3,
        KeyFinderKey::BMajor => 4,
        KeyFinderKey::BMinor => 5,
        KeyFinderKey::CMajor => 6,
        KeyFinderKey::CMinor => 7,
        KeyFinderKey::DFlatMajor => 8,
        KeyFinderKey::DFlatMinor => 9,
        KeyFinderKey::DMajor => 10,
        KeyFinderKey::DMinor => 11,
        KeyFinderKey::EFlatMajor => 12,
        KeyFinderKey::EFlatMinor => 13,
        KeyFinderKey::EMajor => 14,
        KeyFinderKey::EMinor => 15,
        KeyFinderKey::FMajor => 16,
        KeyFinderKey::FMinor => 17,
        KeyFinderKey::GFlatMajor => 18,
        KeyFinderKey::GFlatMinor => 19,
        KeyFinderKey::GMajor => 20,
        KeyFinderKey::GMinor => 21,
        KeyFinderKey::AFlatMajor => 22,
        KeyFinderKey::AFlatMinor => 23,
        KeyFinderKey::Silence => 24,
    }
}

/// The key a raw engine code stands for: codes 0 through 24 name the variants
/// in order, and every unrecognized code degrades to `Silence` rather than to
/// an invalid value.
pub open spec fn key_of_code(code: u32) -> KeyFinderKey {
    if code == 0 {
        KeyFinderKey::AMajor
    } else if code == 1 {
        KeyFinderKey::AMinor
    } else if code == 2 {
        KeyFinderKey::BFlatMajor
    } else if code == 3 {
        KeyFinderKey::BFlatMinor
    } else if code == 4 {
        KeyFinderKey::BMajor
    } else if code == 5 {
        KeyFinderKey::BMinor
    } else if code == 6 {
        KeyFinderKey::CMajor
    } else if code == 7 {
        KeyFinderKey::CMinor
    } else if code == 8 {
        KeyFinderKey::DFlatMajor
    } else if code == 9 {
        KeyFinderKey::DFlatMinor
    } else if code == 10 {
        KeyFinderKey::DMajor
    } else if code == 11 {
        KeyFinderKey::DMinor
    } else if code == 12 {
        KeyFinderKey::EFlatMajor
    } else if code == 13 {
        KeyFinderKey::EFlatMinor
    } else if code == 14 {
        KeyFinderKey::EMajor
    } else if code == 15 {
        KeyFinderKey::EMinor
    } else if code == 16 {
        KeyFinderKey::FMajor
    } else if code == 17 {
        KeyFinderKey::FMinor
    } else if code == 18 {
        KeyFinderKey::GFlatMajor
    } else if code == 19 {
        KeyFinderKey::GFlatMinor
    } else if code == 20 {
        KeyFinderKey::GMajor
    } else if code == 21 {
        KeyFinderKey::GMinor
    } else if code == 22 {
        KeyFinderKey::AFlatMajor
    } else if code == 23 {
        KeyFinderKey::AFlatMinor
    } else {
        KeyFinderKey::Silence
    }
}

impl KeyFinderKey {
    /// Decode a raw result code from the analysis engine.
    ///
    /// Codes 0 through 23 map to their key by identity; 24 and every code
    /// out of range map to `Silence`.
    pub fn from_u32(value: u32) -> (k: KeyFinderKey)
        ensures
            k == key_of_code(value),
            value <= 24 ==> key_code(k) == value,
            value > 24 ==> k == KeyFinderKey::Silence,
    {
        match value {
            0 => KeyFinderKey::AMajor,
            1 => KeyFinderKey::AMinor,
            2 => KeyFinderKey::BFlatMajor,
            3 => KeyFinderKey::BFlatMinor,
            4 => KeyFinderKey::BMajor,
            5 => KeyFinderKey::BMinor,
            6 => KeyFinderKey::CMajor,
            7 => KeyFinderKey::CMinor,
            8 => KeyFinderKey::DFlatMajor,
            9 => KeyFinderKey::DFlatMinor,
            10 => KeyFinderKey::DMajor,
            11 => KeyFinderKey::DMinor,
            12 => KeyFinderKey::EFlatMajor,
            13 => KeyFinderKey::EFlatMinor,
            14 => KeyFinderKey::EMajor,
            15 => KeyFinderKey::EMinor,
            16 => KeyFinderKey::FMajor,
            17 => KeyFinderKey::FMinor,
            18 => KeyFinderKey::GFlatMajor,
            19 => KeyFinderKey::GFlatMinor,
            20 => KeyFinderKey::GMajor,
            21 => KeyFinderKey::GMinor,
            22 => KeyFinderKey::AFlatMajor,
            23 => KeyFinderKey::AFlatMinor,
            _ => KeyFinderKey::Silence,
        }
    }
}

} // verus!
