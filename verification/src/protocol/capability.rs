//! Feature bits exchanged during the connection handshake.

use vstd::prelude::*;

verus! {

/// Each top-level Android task is one independent native Denial task.
pub const TASK_WINDOWS: u64 = 0x001;

/// DMA-BUF planes are registered once and subsequently named by ID.
pub const CACHED_DMABUF_IMPORT: u64 = 0x002;

/// Acquire/release synchronization uses shared DRM syncobj timelines.
pub const SYNCOBJ_TIMELINES: u64 = 0x004;

/// Denial sends monotonic presentation timing for submitted frames.
pub const PRESENTATION_TIMING: u64 = 0x008;

/// Denial can route typed touch, key, and navigation input to Android.
pub const INPUT: u64 = 0x010;

/// Legacy path accepting a `SurfaceFlinger` client target.
pub const CLIENT_TARGET: u64 = 0x020;

/// Denial allocates and lends the final native-window render targets.
pub const HOST_RENDER_TARGETS: u64 = 0x040;

/// Droidloom composes Android task layers into the host render targets.
pub const DROIDLOOM_COMPOSITION: u64 = 0x080;

/// The host accepts task activation requests under its own focus policy.
pub const TASK_ACTIVATION: u64 = 0x100;

/// Capabilities required for every protocol-v1 session: all of the above
/// except the legacy client target and task activation.
pub const REQUIRED_V1: u64 = 0x0df;

} // verus!
