//! Mode-channel value bands of the `advanced` profile, first and last value.
//! Bands not listed are unimplemented and give neutral white.

use vstd::prelude::*;

verus! {

pub const CCT: (u8, u8) = (0, 31);

pub const HSI: (u8, u8) = (32, 63);

pub const FX: (u8, u8) = (64, 95);

pub const RGBCW: (u8, u8) = (128, 159);

pub const XY: (u8, u8) = (192, 231);

/// Whether a mode-channel value lies in a band.
pub open spec fn within(band: (u8, u8), v: u8) -> bool {
    band.0 <= v <= band.1
}

/// Whether a mode-channel value lies in a band.
pub fn contains(band: (u8, u8), v: u8) -> (r: bool)
    ensures
        r == within(band, v),
{
    band.0 <= v && v <= band.1
}

} // verus!
