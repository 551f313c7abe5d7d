//! Content-state bits understood by protocol v1.

use vstd::prelude::*;

verus! {

/// The submitted client target is fully opaque.
pub const OPAQUE: u32 = 0x1;

/// The content requests a protected end-to-end path.
pub const SECURE: u32 = 0x2;

/// The content contains HDR values requiring an HDR-capable path.
pub const HDR: u32 = 0x4;

/// All content-state bits understood by protocol v1.
pub const KNOWN: u32 = 0x7;

} // verus!
