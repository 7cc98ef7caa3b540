//! The orientation a camera records for a photograph: how the stored pixel
//! grid must be flipped or rotated to be viewed upright.

use vstd::prelude::*;

verus! {

/// The eight orientations a photograph's metadata can declare.
#[derive(Copy, Clone, Debug, PartialEq, Eq, Structural)]
pub enum Orientation {
    Untransformed,
    FlippedHorizontally,
    HalfRotated,
    FlippedVertically,
    QuarterRotatedAndFlippedHorizontally,
    ThreeQuarterRotated,
    QuarterRotatedAndFlippedVertically,
    QuarterRotated,
}

/// Which orientation each raw metadata value names; every value outside the
/// defined range means an untransformed image.
pub open spec fn orientation_of(exif_value: u16) -> Orientation {
    match exif_value {
        2u16 => Orientation::FlippedHorizontally,
        3u16 => Orientation::HalfRotated,
        4u16 => Orientation::FlippedVertically,
        5u16 => Orientation::QuarterRotatedAndFlippedHorizontally,
        6u16 => Orientation::ThreeQuarterRotated,
        7u16 => Orientation::QuarterRotatedAndFlippedVertically,
        8u16 => Orientation::QuarterRotated,
        _ => Orientation::Untransformed,
    }
}

impl Orientation {
    /// Decodes the raw orientation value found in a photograph's metadata.
    pub fn from_exif_value(exif_value: u16) -> (r: Orientation)
        ensures
            r == orientation_of(exif_value),
    {
        match exif_value {
            2 => Orientation::FlippedHorizontally,
            3 => Orientation::HalfRotated,
            4 => Orientation::FlippedVertically,
            5 => Orientation::QuarterRotatedAndFlippedHorizontally,
            6 => Orientation::ThreeQuarterRotated,
            7 => Orientation::QuarterRotatedAndFlippedVertically,
            8 => Orientation::QuarterRotated,
            _ => Orientation::Untransformed,
        }
    }
}

} // verus!
