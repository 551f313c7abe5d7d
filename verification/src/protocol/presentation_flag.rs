//! Presentation-result bits reported by Denial.

use vstd::prelude::*;

verus! {

/// The frame reached a physical display.
pub const DISPLAYED: u32 = 0x1;

/// The allocation was directly scanned out.
pub const DIRECT_SCANOUT: u32 = 0x2;

/// Denial sampled the buffer into its scene composition.
pub const COMPOSITED: u32 = 0x4;

/// All presentation flags understood by protocol v1.
pub const KNOWN: u32 = 0x7;

} // verus!
