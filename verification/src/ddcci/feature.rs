//! VCP features and their codes.
use vstd::prelude::*;

verus! {

/// A VCP feature of a monitor.
#[derive(Debug, Copy, Clone, PartialEq, Eq, Structural, Hash)]
pub enum Feature {
    Brightness,
    Contrast,
    InputSource,
    Volume,
    Mute,
    PowerMode,
    /// Any feature, by its code.
    Raw(u8),
}

/// The MCCS code of a feature.
pub open spec fn feature_code(feature: Feature) -> u8 {
    match feature {
        Feature::Brightness => 0x10,
        Feature::Contrast => 0x12,
        Feature::InputSource => 0x60,
        Feature::Volume => 0x62,
        Feature::Mute => 0x8d,
        Feature::PowerMode => 0xd6,
        Feature::Raw(code) => code,
    }
}

impl Feature {
    /// The MCCS code of this feature.
    pub fn code(self) -> (code: u8)
        ensures
            code == feature_code(self),
    {
        match self {
            Feature::Brightness => 0x10,
            Feature::Contrast => 0x12,
            Feature::InputSource => 0x60,
            Feature::Volume => 0x62,
            Feature::Mute => 0x8d,
            Feature::PowerMode => 0xd6,
            Feature::Raw(code) => code,
        }
    }
}

} // verus!
