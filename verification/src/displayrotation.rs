//! Logical orientation of the panel.

use vstd::prelude::*;

verus! {

/// Orientation of the picture relative to the panel's native orientation.
#[derive(Clone, Copy, Debug, PartialEq, Eq)]
pub enum DisplayRotation {
    /// Native orientation.
    Rotate0,
    /// Turned by a quarter.
    Rotate90,
    /// Turned upside down.
    Rotate180,
    /// Turned by three quarters.
    Rotate270,
}

impl DisplayRotation {
    /// Whether the controller maps its segment outputs in reverse order.
    pub open spec fn segment_remap(self) -> bool {
        self is Rotate180 || self is Rotate270
    }

    /// Whether the controller scans its common outputs in reverse order.
    pub open spec fn reverse_scan(self) -> bool {
        self is Rotate90 || self is Rotate180
    }

    /// Whether width and height trade places in this orientation.
    pub open spec fn swaps_axes(self) -> bool {
        self is Rotate90 || self is Rotate270
    }

    /// The two remap bits that realise this orientation: segment remap
    /// first, scan direction second.
    pub fn remap_bits(&self) -> (bits: (bool, bool))
        ensures
            bits == (self.segment_remap(), self.reverse_scan()),
    {
        match *self {
            DisplayRotation::Rotate0 => (false, false),
            DisplayRotation::Rotate90 => (false, true),
            DisplayRotation::Rotate180 => (true, true),
            DisplayRotation::Rotate270 => (true, false),
        }
    }

    /// The two remap bits tell the four orientations apart: each orientation
    /// has a pair of its own, so the controller's remap registers hold the
    /// orientation and nothing else.
    pub proof fn lemma_remap_bits_identify_rotation(a: DisplayRotation, b: DisplayRotation)
        requires
            a.segment_remap() == b.segment_remap(),
            a.reverse_scan() == b.reverse_scan(),
        ensures
            a == b,
    {
    }
}

} // verus!
