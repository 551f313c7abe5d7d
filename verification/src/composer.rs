//! Platform-independent core of the Composer service: one independent display
//! and native window per Android task.
//!
//! DMA-BUF descriptors and fences stay with the platform adapter; this core
//! keeps their state and the rule that a buffer is released before it is
//! reused.

use vstd::prelude::*;

use crate::package::{package_name, valid_package};
use crate::transport::{AcceptedFrame, BufferMetadata, Damage, TransportError};

pub mod denial;
pub mod display;
pub mod hwc3;
pub mod task_control;
pub mod windows;

verus! {

/// Stable physical display identity exported to Surface Flinger.
#[derive(Clone, Copy, Debug, PartialEq, Eq, PartialOrd, Ord, Structural)]
pub struct DisplayId(pub u64);

/// Surface Flinger layer identity.
#[derive(Clone, Copy, Debug, PartialEq, Eq, PartialOrd, Ord, Structural)]
pub struct LayerId(pub u64);

/// Android window-manager task identity represented by one native toplevel.
#[derive(Clone, Copy, Debug, PartialEq, Eq, PartialOrd, Ord, Structural)]
pub struct TaskId(pub u64);

/// Maximum number of independently hosted Android task windows in one cell.
pub const MAX_TASK_WINDOWS: usize = 4096;

/// Immutable mapping from one Android task to one host-managed display/window.
#[derive(Clone, Debug, PartialEq, Eq)]
pub struct TaskWindowSpec {
    /// Android task.
    pub task: TaskId,
    /// Android logical display dedicated to the task window.
    pub display: DisplayId,
    /// Owning Android package, reconciled by the session service.
    pub package: String,
}

/// Host reservation for one native Android window before `ActivityTaskManager`
/// has assigned the launched activity its real task identity.
#[derive(Clone, Debug, PartialEq, Eq)]
pub struct ReservedTaskWindowSpec {
    /// Host-managed logical display dedicated to this future Android task.
    pub display: DisplayId,
    /// Package requested by the privileged launch controller.
    pub package: String,
}

/// Composition type requested by Surface Flinger before validation.
#[derive(Clone, Copy, Debug, PartialEq, Eq, Structural)]
pub enum Composition {
    /// Surface Flinger composites this layer into the client target.
    Client,
    /// Composer would scan out or composite this layer directly.
    Device,
    /// Solid-color hardware layer.
    SolidColor,
    /// Cursor plane.
    Cursor,
    /// Sideband video stream.
    Sideband,
}

/// Bounded state for one Surface Flinger layer.
#[derive(Clone, Copy, Debug, PartialEq, Eq, Structural)]
pub struct LayerState {
    /// Layer identity.
    pub id: LayerId,
    /// Composition type requested before validation.
    pub requested_composition: Composition,
    /// Z order retained for future delegated-layer composition.
    pub z: i32,
    /// Protected buffers are rejected until an end-to-end protected path exists.
    pub protected_content: bool,
}

/// One composition correction returned by validateDisplay.
#[derive(Clone, Copy, Debug, PartialEq, Eq, Structural)]
pub struct CompositionChange {
    /// Layer to update.
    pub layer: LayerId,
    /// Required composition for the initial implementation.
    pub composition: Composition,
}

/// Result of validating the current display generation.
#[derive(Clone, Debug, PartialEq, Eq)]
pub struct ValidationResult {
    /// Changes Surface Flinger must accept before present.
    pub composition_changes: Vec<CompositionChange>,
}

/// One client target supplied after successful validation.
#[derive(Clone, Debug, PartialEq, Eq)]
pub struct ClientTarget {
    /// DMA-BUF metadata; descriptors stay in the Android wire adapter.
    pub buffer: BufferMetadata,
    /// Damage in buffer coordinates.
    pub damage: Vec<Damage>,
    /// True only when the adapter owns a valid acquire sync-file.
    pub has_acquire_fence: bool,
}

/// Successful client-target submission to the Denial-native adapter.
#[derive(Clone, Debug, PartialEq, Eq)]
pub struct PresentResult {
    /// Accepted frame and buffer identity.
    pub frame: AcceptedFrame,
    /// The adapter must return a present fence to Surface Flinger.
    pub requires_present_fence: bool,
}

/// Initial display power modes supported by the correctness path.
#[derive(Clone, Copy, Debug, PartialEq, Eq, Structural)]
pub enum PowerMode {
    /// Stop presentation and vertical-sync callbacks.
    Off,
    /// Normal interactive presentation.
    On,
    /// Android doze is intentionally unsupported until host power integration.
    Doze,
    /// Android doze-suspend is intentionally unsupported.
    DozeSuspend,
}

/// One callback sample derived from Denial presentation timing.
#[derive(Clone, Copy, Debug, PartialEq, Eq, Structural)]
pub struct VsyncSample {
    /// Display receiving the callback.
    pub display: DisplayId,
    /// Monotonic presentation timestamp.
    pub timestamp_nanos: u64,
    /// Configured period derived from millihertz.
    pub period_nanos: u64,
}

/// Invalid HWC3 command ordering or unsupported content.
#[derive(Clone, Copy, Debug, PartialEq, Eq, Structural)]
#[allow(inconsistent_fields)]
pub enum ComposerError {
    /// The command addressed another display.
    UnknownDisplay {
        /// Configured display.
        expected: DisplayId,
        /// Command display.
        actual: DisplayId,
    },
    /// A layer ID was reused without destroy.
    DuplicateLayer(LayerId),
    /// A layer command named an unknown layer.
    UnknownLayer(LayerId),
    /// Display state changed after its last validation.
    NotValidated,
    /// Surface Flinger has not accepted required composition changes.
    ChangesNotAccepted,
    /// No client target was supplied for this present.
    MissingClientTarget,
    /// Present or vertical-sync enable was requested while the display was off.
    DisplayOff,
    /// Version one deliberately omits Android-controlled doze.
    UnsupportedPowerMode(PowerMode),
    /// A presentation timestamp moved backwards.
    NonMonotonicPresentation {
        /// Last accepted timestamp.
        previous: u64,
        /// Rejected timestamp.
        actual: u64,
    },
    /// Denial did not provide a usable refresh period.
    MissingRefreshRate,
    /// Protected content has no secure end-to-end path in version one.
    ProtectedContent(LayerId),
    /// DMA-BUF/configure/fence invariant failed.
    Transport(TransportError),
}

/// Invalid task-to-native-window lifecycle transition.
#[derive(Clone, Copy, Debug, PartialEq, Eq, Structural)]
pub enum TaskWindowError {
    /// The bounded per-cell native-window table is full.
    WindowLimit,
    /// Android task identity zero is reserved and cannot own a window.
    InvalidTask,
    /// Display identity zero is reserved by the native protocol.
    InvalidDisplay,
    /// The task already owns a native window.
    DuplicateTask(TaskId),
    /// Another task already owns this Android logical display.
    DuplicateDisplay(DisplayId),
    /// The requested task has no native window.
    UnknownTask(TaskId),
    /// The requested display has no native task window.
    UnknownDisplay(DisplayId),
    /// The staged display has not yet been bound to an `ActivityTaskManager` ID.
    UnboundDisplay(DisplayId),
    /// A real Android task was already bound to this staged display.
    DisplayAlreadyBound(DisplayId),
    /// Package identity is malformed or exceeds the protocol bound.
    InvalidPackage,
    /// Denial still owns one or more targets for the task window.
    BuffersInFlight {
        /// Task that cannot yet be removed.
        task: TaskId,
        /// Outstanding client targets.
        buffers: usize,
    },
    /// Denial still owns targets for a display that may not be task-bound yet.
    DisplayBuffersInFlight {
        /// Staged display that cannot yet be removed.
        display: DisplayId,
        /// Outstanding client targets.
        buffers: usize,
    },
}

/// First reason to reject a display and package.
pub open spec fn reservation_error(display: DisplayId, package: Seq<char>) -> Option<
    TaskWindowError,
> {
    if display.0 == 0 {
        Some(TaskWindowError::InvalidDisplay)
    } else if !package_name(package) {
        Some(TaskWindowError::InvalidPackage)
    } else {
        None
    }
}

impl ReservedTaskWindowSpec {
    /// Validate a pre-launch display/package reservation.
    pub fn validate(&self) -> (result: Result<(), TaskWindowError>)
        ensures
            result == (match reservation_error(self.display, self.package@) {
                Some(error) => Err(error),
                None => Ok(()),
            }),
    {
        if self.display.0 == 0 {
            return Err(TaskWindowError::InvalidDisplay);
        }
        if !valid_package(self.package.as_str()) {
            return Err(TaskWindowError::InvalidPackage);
        }
        Ok(())
    }
}

impl TaskWindowSpec {
    /// First reason to reject this mapping.
    pub open spec fn error(self) -> Option<TaskWindowError> {
        if self.task.0 == 0 {
            Some(TaskWindowError::InvalidTask)
        } else {
            reservation_error(self.display, self.package@)
        }
    }

    /// Validate identities before either `SurfaceFlinger` or Denial can observe
    /// the task mapping.
    pub fn validate(&self) -> (result: Result<(), TaskWindowError>)
        ensures
            result == (match self.error() {
                Some(error) => Err(error),
                None => Ok(()),
            }),
    {
        if self.task.0 == 0 {
            return Err(TaskWindowError::InvalidTask);
        }
        ReservedTaskWindowSpec { display: self.display, package: self.package.clone() }.validate()
    }
}

/// Law: a window is for a positive task, a positive display and a package with a
/// valid name.
pub proof fn law_windows_are_for_named_tasks(spec: TaskWindowSpec)
    ensures
        spec.error() is None <==> spec.task.0 != 0 && spec.display.0 != 0 && package_name(
            spec.package@,
        ),
        spec.task.0 == 0 ==> spec.error() == Some(TaskWindowError::InvalidTask),
        spec.task.0 != 0 && spec.display.0 == 0 ==> spec.error() == Some(
            TaskWindowError::InvalidDisplay,
        ),
        spec.task.0 != 0 && spec.display.0 != 0 && !package_name(spec.package@) ==> spec.error()
            == Some(TaskWindowError::InvalidPackage),
        reservation_error(spec.display, spec.package@) is None <==> spec.display.0 != 0
            && package_name(spec.package@),
{
}

} // verus!
