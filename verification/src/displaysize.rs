//! Panel geometries.

use vstd::prelude::*;

verus! {

/// The resolutions the controller can be configured for, as width x height
/// in pixels with the panel in its native orientation.
#[derive(Clone, Copy, Debug, PartialEq, Eq)]
pub enum DisplaySize {
    /// 64 columns by 160 rows.
    Display64x160,
    /// 96 columns by 160 rows.
    Display96x160,
    /// 128 columns by 160 rows.
    Display128x160,
    /// 160 columns by 160 rows.
    Display160x160,
}

impl DisplaySize {
    /// Width of the panel in pixels.
    pub open spec fn width(self) -> u8 {
        match self {
            DisplaySize::Display64x160 => 64,
            DisplaySize::Display96x160 => 96,
            DisplaySize::Display128x160 => 128,
            DisplaySize::Display160x160 => 160,
        }
    }

    /// Height of the panel in pixels; the same for every geometry.
    pub open spec fn height(self) -> u8 {
        160
    }

    /// Width and height of the panel in its native orientation.
    pub fn dimensions(&self) -> (dims: (u8, u8))
        ensures
            dims == (self.width(), self.height()),
    {
        match *self {
            DisplaySize::Display64x160 => (64, 160),
            DisplaySize::Display96x160 => (96, 160),
            DisplaySize::Display128x160 => (128, 160),
            DisplaySize::Display160x160 => (160, 160),
        }
    }
}

} // verus!
