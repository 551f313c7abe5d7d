//! State of the Composer's presentation sink for the Denial-native protocol.
//!
//! One channel exists per Android task display. DMA-BUF descriptors cross the
//! socket only on first allocation registration; timelines cross only when the
//! task is bound. A steady-state submission sends one descriptor-free present.
//! The adapter keeps descriptors, timelines and the socket; it asks here what
//! may be sent, sends it, and reports how that went.

use std::collections::BTreeMap;

use vstd::prelude::*;

use crate::composer::denial::{
    object_of, AppliedDenialEvent, BindingModel, DenialBridgeError, DenialTaskBinding,
    PreparedPresent,
};
use crate::composer::hwc3::{ErrorCode, Session, SessionModel};
use crate::composer::windows::law_displays_are_isolated;
use crate::composer::{
    ComposerError, DisplayId, ReservedTaskWindowSpec, TaskId, TaskWindowError,
};
use crate::ordered::{in_order, lemma_in_order_lists, lists, ordered_keys, value_mut};
use crate::protocol::{
    AndroidMessage, AndroidView, DenialMessage, DenialView, DescriptorKind, TaskObjectId,
};
use crate::text::{append, append_chars, chars_of, decimal, format_number, text_of};
use crate::transport::{
    AcceptedFrame, BufferId, BufferMetadata, BufferView, FrameId, ReleasedFrame, TransportError,
};

verus! {

broadcast use vstd::laws_cmp::group_laws_cmp;

/// Presentation failure annotated with whether Denial may already own the
/// submitted buffer.
#[derive(Clone, Copy, Debug, PartialEq, Eq, Structural)]
pub struct PresentationFailure {
    /// Frozen Composer service-specific error returned to `SurfaceFlinger`.
    pub code: ErrorCode,
    /// True only after one complete `Present` record reached the host socket.
    pub accepted_by_denial: bool,
}

impl PresentationFailure {
    /// Failure before Denial could observe the frame; local ownership may be
    /// rolled back without a release fence.
    pub fn unsubmitted(code: ErrorCode) -> (failure: PresentationFailure)
        ensures
            failure == (PresentationFailure { code, accepted_by_denial: false }),
    {
        PresentationFailure { code, accepted_by_denial: false }
    }

    /// Failure after Denial accepted the frame; buffer ownership must remain
    /// in flight until teardown or an explicit release event.
    pub fn accepted(code: ErrorCode) -> (failure: PresentationFailure)
        ensures
            failure == (PresentationFailure { code, accepted_by_denial: true }),
    {
        PresentationFailure { code, accepted_by_denial: true }
    }
}

/// Task lifecycle, socket, or explicit-synchronization failure.
#[derive(Clone, Debug, PartialEq, Eq)]
pub enum DenialSinkError {
    /// Another live task already owns the display.
    DuplicateDisplay(DisplayId),
    /// Another live task already owns the protocol object.
    DuplicateObject(TaskObjectId),
    /// No live task owns the requested display.
    UnknownDisplay(DisplayId),
    /// A task-scoped host event named no live task object.
    UnknownObject(TaskObjectId),
    /// A connection-scoped message reached task dispatch.
    ConnectionMessage,
    /// A cached buffer ID was reused with different immutable metadata.
    BufferMetadataMismatch(BufferId),
    /// Native plane descriptors do not match the validated plane table.
    PlaneDescriptorMismatch,
    /// Denial repeated a live render-target ID.
    DuplicateRenderTarget(BufferId),
    /// Denial revoked a render target that was not registered.
    UnknownRenderTarget(BufferId),
    /// No target in the newest configured pool is currently reusable.
    NoRenderTarget(DisplayId),
    /// Task state was poisoned by a panic and cannot be trusted.
    Poisoned,
    /// Typed task/Composer bridge rejected an ordering transition.
    Bridge(DenialBridgeError),
    /// Typed sequenced-packet transport failed.
    Ipc,
    /// Linux DRM syncobj operation failed.
    Syncobj,
    /// EGL/GLES layer composition failed.
    Graphics(String),
    /// The safe Composer state rejected a direct SurfaceFlinger frame.
    Composer(ComposerError),
}

/// Contents of a [`DenialSinkError`].
#[verifier::ext_equal]
pub enum SinkErrorView {
    DuplicateDisplay(DisplayId),
    DuplicateObject(TaskObjectId),
    UnknownDisplay(DisplayId),
    UnknownObject(TaskObjectId),
    ConnectionMessage,
    BufferMetadataMismatch(BufferId),
    PlaneDescriptorMismatch,
    DuplicateRenderTarget(BufferId),
    UnknownRenderTarget(BufferId),
    NoRenderTarget(DisplayId),
    Poisoned,
    Bridge(DenialBridgeError),
    Ipc,
    Syncobj,
    Graphics(Seq<char>),
    Composer(ComposerError),
}

impl View for DenialSinkError {
    type V = SinkErrorView;

    open spec fn view(&self) -> SinkErrorView {
        match *self {
            DenialSinkError::DuplicateDisplay(display) => SinkErrorView::DuplicateDisplay(display),
            DenialSinkError::DuplicateObject(object) => SinkErrorView::DuplicateObject(object),
            DenialSinkError::UnknownDisplay(display) => SinkErrorView::UnknownDisplay(display),
            DenialSinkError::UnknownObject(object) => SinkErrorView::UnknownObject(object),
            DenialSinkError::ConnectionMessage => SinkErrorView::ConnectionMessage,
            DenialSinkError::BufferMetadataMismatch(buffer) => SinkErrorView::BufferMetadataMismatch(
                buffer,
            ),
            DenialSinkError::PlaneDescriptorMismatch => SinkErrorView::PlaneDescriptorMismatch,
            DenialSinkError::DuplicateRenderTarget(buffer) => SinkErrorView::DuplicateRenderTarget(
                buffer,
            ),
            DenialSinkError::UnknownRenderTarget(buffer) => SinkErrorView::UnknownRenderTarget(
                buffer,
            ),
            DenialSinkError::NoRenderTarget(display) => SinkErrorView::NoRenderTarget(display),
            DenialSinkError::Poisoned => SinkErrorView::Poisoned,
            DenialSinkError::Bridge(error) => SinkErrorView::Bridge(error),
            DenialSinkError::Ipc => SinkErrorView::Ipc,
            DenialSinkError::Syncobj => SinkErrorView::Syncobj,
            DenialSinkError::Graphics(text) => SinkErrorView::Graphics(text@),
            DenialSinkError::Composer(error) => SinkErrorView::Composer(error),
        }
    }
}

impl SinkErrorView {
    /// Composer3 error of this failure.
    pub open spec fn code(self) -> ErrorCode {
        match self {
            SinkErrorView::UnknownDisplay(_) => ErrorCode::BadDisplay,
            SinkErrorView::BufferMetadataMismatch(_) => ErrorCode::BadParameter,
            SinkErrorView::PlaneDescriptorMismatch => ErrorCode::BadParameter,
            SinkErrorView::DuplicateRenderTarget(_) => ErrorCode::BadParameter,
            SinkErrorView::UnknownRenderTarget(_) => ErrorCode::BadParameter,
            SinkErrorView::Bridge(_) => ErrorCode::BadParameter,
            _ => ErrorCode::NoResources,
        }
    }
}

impl DenialSinkError {
    /// Composer3 error of this failure.
    pub fn error_code(&self) -> (code: ErrorCode)
        ensures
            code == self@.code(),
    {
        match self {
            DenialSinkError::UnknownDisplay(_) => ErrorCode::BadDisplay,
            DenialSinkError::BufferMetadataMismatch(_)
            | DenialSinkError::PlaneDescriptorMismatch
            | DenialSinkError::DuplicateRenderTarget(_)
            | DenialSinkError::UnknownRenderTarget(_)
            | DenialSinkError::Bridge(_) => ErrorCode::BadParameter,
            DenialSinkError::DuplicateDisplay(_)
            | DenialSinkError::DuplicateObject(_)
            | DenialSinkError::UnknownObject(_)
            | DenialSinkError::ConnectionMessage
            | DenialSinkError::NoRenderTarget(_)
            | DenialSinkError::Poisoned
            | DenialSinkError::Ipc
            | DenialSinkError::Syncobj
            | DenialSinkError::Graphics(_)
            | DenialSinkError::Composer(_) => ErrorCode::NoResources,
        }
    }
}

/// `SurfaceFlinger` display space, pinned by the first hotplug configure.
/// Denial may resize or scale the target independently, while Android layer
/// frames remain in this stable coordinate space.
pub open spec fn pinned(extent: Option<(u32, u32)>, width: u32, height: u32) -> Option<(u32, u32)> {
    if extent is Some {
        extent
    } else {
        Some((width, height))
    }
}

/// Pin the display space at the first configure.
pub fn pin_android_display_extent(extent: &mut Option<(u32, u32)>, width: u32, height: u32) -> (result:
    Result<(), DenialSinkError>)
    ensures
        match result {
            Ok(_) => {
                &&& width != 0 && height != 0
                &&& *final(extent) == pinned(*old(extent), width, height)
            },
            Err(error) => {
                &&& width == 0 || height == 0
                &&& error@ == SinkErrorView::Graphics("invalid Android display extent"@)
                &&& *final(extent) == *old(extent)
            },
        },
{
    if width == 0 || height == 0 {
        return Err(DenialSinkError::Graphics("invalid Android display extent".to_owned()));
    }
    if extent.is_none() {
        *extent = Some((width, height));
    }
    Ok(())
}

#[derive(Debug)]
struct HostRenderTarget {
    configure_serial: u32,
    metadata: BufferMetadata,
    reserved: bool,
    busy: bool,
    revoked: bool,
}

/// Model of a render target that Denial lent.
#[verifier::ext_equal]
pub struct TargetModel {
    /// Configure serial whose size the target satisfies.
    pub configure_serial: u32,
    pub metadata: BufferView,
    /// Reserved for a render in progress.
    pub reserved: bool,
    /// Owned by a frame that Denial shows or may show.
    pub busy: bool,
    /// Retired by Denial while a render or a frame still owned it. The entry is
    /// removed at the corresponding safe point.
    pub revoked: bool,
}

impl View for HostRenderTarget {
    type V = TargetModel;

    closed spec fn view(&self) -> TargetModel {
        TargetModel {
            configure_serial: self.configure_serial,
            metadata: self.metadata@,
            reserved: self.reserved,
            busy: self.busy,
            revoked: self.revoked,
        }
    }
}

impl TargetModel {
    /// Whether a render may reserve this target.
    pub open spec fn idle(self) -> bool {
        !self.reserved && !self.busy && !self.revoked
    }
}

#[derive(Debug)]
struct TaskChannel {
    binding: DenialTaskBinding,
    targets: BTreeMap<u64, HostRenderTarget>,
    frames: BTreeMap<u64, BufferId>,
    present_fence: bool,
    extent: Option<(u32, u32)>,
}

/// Model of one task channel.
#[verifier::ext_equal]
pub struct ChannelModel {
    pub binding: BindingModel,
    /// Render targets by buffer.
    pub targets: Map<u64, TargetModel>,
    /// Buffers by frame that Denial owns.
    pub frames: Map<u64, BufferId>,
    /// Whether a completion fence awaits the Composer3 present reply.
    pub present_fence: bool,
    pub extent: Option<(u32, u32)>,
}

impl View for TaskChannel {
    type V = ChannelModel;

    closed spec fn view(&self) -> ChannelModel {
        ChannelModel {
            binding: self.binding@,
            targets: self.targets@.map_values(|target: HostRenderTarget| target@),
            frames: self.frames@,
            present_fence: self.present_fence,
            extent: self.extent,
        }
    }
}

/// Highest configure serial among the listed targets that are not revoked.
pub open spec fn newest_serial(targets: Map<u64, TargetModel>, keys: Seq<u64>) -> Option<u32>
    decreases keys.len(),
{
    if keys.len() == 0 {
        None
    } else {
        let earlier = newest_serial(targets, keys.drop_last());
        let target = targets[keys.last()];
        if target.revoked || (earlier is Some && earlier->0 >= target.configure_serial) {
            earlier
        } else {
            Some(target.configure_serial)
        }
    }
}

/// First listed target with a serial that a render may reserve.
pub open spec fn first_idle(targets: Map<u64, TargetModel>, keys: Seq<u64>, serial: u32) -> Option<
    u64,
>
    decreases keys.len(),
{
    if keys.len() == 0 {
        None
    } else if first_idle(targets, keys.drop_last(), serial) is Some {
        first_idle(targets, keys.drop_last(), serial)
    } else if targets[keys.last()].configure_serial == serial && targets[keys.last()].idle() {
        Some(keys.last())
    } else {
        None
    }
}

impl ChannelModel {
    /// The invariant of one channel: targets stand under their own buffer, no
    /// target is reserved and busy at once, every frame has a busy target, and
    /// no two frames share one.
    pub open spec fn wf(self) -> bool {
        &&& self.binding.wf()
        &&& forall|key: u64| #[trigger]
            self.targets.contains_key(key) ==> {
                &&& self.targets[key].metadata.id.0 == key
                &&& !(self.targets[key].reserved && self.targets[key].busy)
            }
        &&& forall|frame: u64| #[trigger]
            self.frames.contains_key(frame) ==> {
                &&& self.targets.contains_key(self.frames[frame].0)
                &&& self.targets[self.frames[frame].0].busy
            }
        &&& forall|a: u64, b: u64|
            #![trigger self.frames[a], self.frames[b]]
            self.frames.contains_key(a) && self.frames.contains_key(b) && a != b
                ==> self.frames[a] != self.frames[b]
    }

    /// Channel of a task that was just registered.
    pub open spec fn fresh(binding: BindingModel) -> ChannelModel {
        ChannelModel {
            binding,
            targets: Map::empty(),
            frames: Map::empty(),
            present_fence: false,
            extent: None,
        }
    }

    /// Target of the newest configured pool that a render may reserve.
    pub open spec fn selected(self) -> Option<u64> {
        let keys = in_order(self.targets.dom());
        match newest_serial(self.targets, keys) {
            Some(serial) => first_idle(self.targets, keys, serial),
            None => None,
        }
    }

    /// Channel with one target replaced.
    pub open spec fn with_target(self, key: u64, target: TargetModel) -> ChannelModel {
        ChannelModel { targets: self.targets.insert(key, target), ..self }
    }

    /// Channel without one target.
    pub open spec fn without_target(self, key: u64) -> ChannelModel {
        ChannelModel { targets: self.targets.remove(key), ..self }
    }

    /// Channel after a reservation came back without a frame.
    pub open spec fn cancelled(self, buffer: BufferId) -> ChannelModel {
        let target = self.targets[buffer.0];
        if !self.targets.contains_key(buffer.0) || target.busy {
            self
        } else if target.revoked {
            self.without_target(buffer.0)
        } else {
            self.with_target(buffer.0, TargetModel { reserved: false, ..target })
        }
    }

    /// Channel after Denial revoked a target: one that is in use goes later.
    pub open spec fn revoked(self, buffer: BufferId) -> ChannelModel {
        let target = self.targets[buffer.0];
        if target.reserved || target.busy {
            self.with_target(buffer.0, TargetModel { revoked: true, ..target })
        } else {
            self.without_target(buffer.0)
        }
    }

    /// First reason not to present a frame from a target.
    pub open spec fn frame_error(
        self,
        display: DisplayId,
        frame: FrameId,
        buffer: BufferView,
    ) -> Option<SinkErrorView> {
        let target = self.targets[buffer.id.0];
        if !self.targets.contains_key(buffer.id.0) {
            Some(SinkErrorView::UnknownRenderTarget(buffer.id))
        } else if !target.reserved || target.busy || target.revoked || target.metadata != buffer {
            Some(SinkErrorView::BufferMetadataMismatch(buffer.id))
        } else {
            match self.binding.prepare_error(display, frame) {
                Some(error) => Some(SinkErrorView::Bridge(error)),
                None => None,
            }
        }
    }

    /// Whether a frame was prepared on its reserved target and not sent yet.
    pub open spec fn awaits_send(self, frame: FrameId, buffer: BufferId, release_point: u64) -> bool {
        &&& self.binding.waits(frame, release_point)
        &&& self.targets.contains_key(buffer.0)
        &&& self.targets[buffer.0].reserved
    }

    /// Channel after a prepared frame was sent.
    pub open spec fn sent(self, frame: FrameId, buffer: BufferId, direct: bool) -> ChannelModel {
        ChannelModel {
            frames: self.frames.insert(frame.0, buffer),
            present_fence: self.present_fence || direct,
            ..self.with_target(
                buffer.0,
                TargetModel { reserved: false, busy: true, ..self.targets[buffer.0] },
            )
        }
    }

    /// Channel and outcome after a released frame was retired in the binding.
    pub open spec fn retired(self, frame: FrameId, buffer: BufferId) -> (
        ChannelModel,
        Option<SinkErrorView>,
    ) {
        let untied = ChannelModel { frames: self.frames.remove(frame.0), ..self };
        let target = self.targets[buffer.0];
        if !self.frames.contains_key(frame.0) {
            (self, Some(SinkErrorView::UnknownRenderTarget(buffer)))
        } else if self.frames[frame.0] != buffer {
            (untied, Some(SinkErrorView::BufferMetadataMismatch(buffer)))
        } else if target.revoked {
            (untied.without_target(buffer.0), None)
        } else {
            (untied.with_target(buffer.0, TargetModel { busy: false, ..target }), None)
        }
    }
}

/// Model of a [`DenialPresentationSink`].
#[verifier::ext_equal]
pub struct SinkModel {
    /// Channels by display.
    pub tasks: Map<u64, ChannelModel>,
}

impl SinkModel {
    /// The invariant of every reachable sink: a channel stands under its own
    /// display, and no two channels share an object or a bound task.
    pub open spec fn wf(self) -> bool {
        &&& forall|key: u64| #[trigger]
            self.tasks.contains_key(key) ==> self.tasks[key].wf()
                && self.tasks[key].binding.display.0 == key
        &&& forall|a: u64, b: u64|
            #![trigger self.tasks[a], self.tasks[b]]
            self.tasks.contains_key(a) && self.tasks.contains_key(b) && a != b ==> {
                &&& self.tasks[a].binding.object != self.tasks[b].binding.object
                &&& self.tasks[a].binding.task is Some ==> self.tasks[a].binding.task
                    != self.tasks[b].binding.task
            }
    }

    /// Whether a channel owns an object under a display.
    pub open spec fn owned(self, object: TaskObjectId, key: u64) -> bool {
        self.tasks.contains_key(key) && self.tasks[key].binding.object == object
    }

    /// Display of an object, if a channel owns it.
    pub open spec fn display_of(self, object: TaskObjectId) -> Option<u64> {
        if exists|key: u64| self.owned(object, key) {
            Some(choose|key: u64| self.owned(object, key))
        } else {
            None
        }
    }

    /// State with one channel replaced.
    pub open spec fn with_channel(self, key: u64, channel: ChannelModel) -> SinkModel {
        SinkModel { tasks: self.tasks.insert(key, channel) }
    }

    /// First reason to refuse a new task.
    pub open spec fn register_error(
        self,
        object: TaskObjectId,
        reservation: ReservedTaskWindowSpec,
    ) -> Option<SinkErrorView> {
        if self.tasks.contains_key(reservation.display.0) {
            Some(SinkErrorView::DuplicateDisplay(reservation.display))
        } else if self.display_of(object) is Some {
            Some(SinkErrorView::DuplicateObject(object))
        } else if object.0 == 0 {
            Some(SinkErrorView::Bridge(DenialBridgeError::UnexpectedMessage))
        } else {
            None
        }
    }

    /// Whether a channel other than that of a display is bound to a task.
    pub open spec fn bound_elsewhere(self, display: DisplayId, task: TaskId) -> bool {
        exists|key: u64| #[trigger]
            self.tasks.contains_key(key) && key != display.0 && self.tasks[key].binding.task == Some(
                task,
            )
    }

    /// First reason not to bind a task.
    pub open spec fn bind_error(self, display: DisplayId, task: TaskId) -> Option<SinkErrorView> {
        if self.bound_elsewhere(display, task) {
            Some(SinkErrorView::Bridge(DenialBridgeError::UnexpectedMessage))
        } else if !self.tasks.contains_key(display.0) {
            Some(SinkErrorView::UnknownDisplay(display))
        } else if self.tasks[display.0].binding.task == Some(task) {
            None
        } else if !self.tasks[display.0].binding.may_bind(task) {
            Some(SinkErrorView::Bridge(DenialBridgeError::UnexpectedMessage))
        } else {
            None
        }
    }

    /// First reason to refuse a render target.
    pub open spec fn target_error(
        self,
        object: TaskObjectId,
        buffer: BufferView,
        descriptors: Seq<DescriptorKind>,
    ) -> Option<SinkErrorView> {
        if !all_planes(descriptors) || descriptors.len() != buffer.planes.len() {
            Some(SinkErrorView::PlaneDescriptorMismatch)
        } else {
            match self.display_of(object) {
                None => Some(SinkErrorView::UnknownObject(object)),
                Some(key) => if self.tasks[key].targets.contains_key(buffer.id.0) {
                    Some(SinkErrorView::DuplicateRenderTarget(buffer.id))
                } else {
                    None
                },
            }
        }
    }

    /// First reason not to revoke a render target.
    pub open spec fn revoke_error(self, object: TaskObjectId, buffer: BufferId) -> Option<
        SinkErrorView,
    > {
        match self.display_of(object) {
            None => Some(SinkErrorView::UnknownObject(object)),
            Some(key) => if !self.tasks[key].targets.contains_key(buffer.0) {
                Some(SinkErrorView::UnknownRenderTarget(buffer))
            } else {
                None
            },
        }
    }

    /// First reason not to select a target.
    pub open spec fn select_error(self, display: DisplayId) -> Option<SinkErrorView> {
        if !self.tasks.contains_key(display.0) {
            Some(SinkErrorView::UnknownDisplay(display))
        } else if self.tasks[display.0].selected() is None {
            Some(SinkErrorView::NoRenderTarget(display))
        } else {
            None
        }
    }

    /// State after a reservation came back without a frame.
    pub open spec fn cancelled(self, display: DisplayId, buffer: BufferId) -> SinkModel {
        if self.tasks.contains_key(display.0) {
            self.with_channel(display.0, self.tasks[display.0].cancelled(buffer))
        } else {
            self
        }
    }

    /// First reason not to present a frame from a target.
    pub open spec fn prepare_error(
        self,
        display: DisplayId,
        frame: FrameId,
        buffer: BufferView,
    ) -> Option<SinkErrorView> {
        if !self.tasks.contains_key(display.0) {
            Some(SinkErrorView::UnknownDisplay(display))
        } else {
            self.tasks[display.0].frame_error(display, frame, buffer)
        }
    }

    /// State with a frame prepared.
    pub open spec fn prepared(self, display: DisplayId, frame: FrameId) -> SinkModel {
        let channel = self.tasks[display.0];
        self.with_channel(
            display.0,
            ChannelModel { binding: channel.binding.prepared(frame), ..channel },
        )
    }

    /// State after a prepared frame could not be sent. A composed frame also
    /// gives its reservation back.
    pub open spec fn unsent(
        self,
        display: DisplayId,
        frame: FrameId,
        buffer: BufferId,
        composed: bool,
    ) -> SinkModel {
        let channel = self.tasks[display.0];
        let untied = ChannelModel { binding: channel.binding.without_frame(frame), ..channel };
        self.with_channel(
            display.0,
            if composed {
                untied.with_target(
                    buffer.0,
                    TargetModel { reserved: false, ..channel.targets[buffer.0] },
                )
            } else {
                untied
            },
        )
    }

    /// Effect of a task-scoped host event on the sink and on its session.
    pub open spec fn event(
        self,
        session: SessionModel,
        message: DenialView,
        outcome: Result<ReleasedFrame, TransportError>,
    ) -> SinkEvent {
        if object_of(message) is None {
            SinkEvent { sink: self, session, result: Err(SinkErrorView::ConnectionMessage) }
        } else {
            let object = object_of(message)->0;
            match self.display_of(object) {
                None => SinkEvent {
                    sink: self,
                    session,
                    result: Err(SinkErrorView::UnknownObject(object)),
                },
                Some(key) => {
                    let channel = self.tasks[key];
                    let applied = channel.binding.event(session, message, outcome);
                    let bound = ChannelModel { binding: applied.binding, ..channel };
                    match applied.result {
                        Err(error) => SinkEvent {
                            sink: self.with_channel(key, bound),
                            session: applied.session,
                            result: Err(SinkErrorView::Bridge(error)),
                        },
                        Ok(event) => {
                            let (after, error) = bound.follow(event, message);
                            SinkEvent {
                                sink: self.with_channel(key, after),
                                session: applied.session,
                                result: match error {
                                    Some(error) => Err(error),
                                    None => Ok(event),
                                },
                            }
                        },
                    }
                },
            }
        }
    }
}

impl ChannelModel {
    /// Channel and outcome after the binding applied an event.
    pub open spec fn follow(self, event: AppliedDenialEvent, message: DenialView) -> (
        ChannelModel,
        Option<SinkErrorView>,
    ) {
        match (event, message) {
            (AppliedDenialEvent::Configure { width, height, .. }, _) => if width == 0 || height == 0 {
                (self, Some(SinkErrorView::Graphics("invalid Android display extent"@)))
            } else {
                (ChannelModel { extent: pinned(self.extent, width, height), ..self }, None)
            },
            (_, DenialView::BufferReleased { frame, buffer, .. }) => self.retired(frame, buffer),
            _ => (self, None),
        }
    }
}

/// States and outcome after a host event.
pub struct SinkEvent {
    pub sink: SinkModel,
    pub session: SessionModel,
    pub result: Result<AppliedDenialEvent, SinkErrorView>,
}

/// Whether descriptors are all DMA-BUF planes.
pub open spec fn all_planes(descriptors: Seq<DescriptorKind>) -> bool {
    forall|i: int|
        0 <= i < descriptors.len() ==> #[trigger] descriptors[i] == DescriptorKind::DmabufPlane
}

/// Outcome of an operation that fails with the first error found.
pub open spec fn sink_outcome(result: Result<(), DenialSinkError>, error: Option<SinkErrorView>) -> bool {
    match error {
        Some(error) => result is Err && result->Err_0@ == error,
        None => result == Ok::<(), DenialSinkError>(()),
    }
}

/// State shared by the Binder adapter and the lifecycle and event pump.
#[derive(Debug)]
pub struct DenialPresentationSink {
    tasks: BTreeMap<u64, TaskChannel>,
}

impl View for DenialPresentationSink {
    type V = SinkModel;

    closed spec fn view(&self) -> SinkModel {
        SinkModel { tasks: self.tasks@.map_values(|channel: TaskChannel| channel@) }
    }
}

/// Only one channel owns an object.
proof fn lemma_owner(model: SinkModel, object: TaskObjectId, key: u64)
    requires
        model.wf(),
        model.owned(object, key),
    ensures
        model.display_of(object) == Some(key),
{
    let other = choose|other: u64| model.owned(object, other);
    assert(model.owned(object, other));
    assert(model.tasks[key].binding.object == model.tasks[other].binding.object);
}

/// A change that keeps a channel's object, display and bound task, and its own
/// invariant, keeps the invariant of the sink.
proof fn lemma_channel_change(model: SinkModel, key: u64, channel: ChannelModel)
    requires
        model.wf(),
        model.tasks.contains_key(key),
        channel.wf(),
        channel.binding.object == model.tasks[key].binding.object,
        channel.binding.display == model.tasks[key].binding.display,
        channel.binding.task == model.tasks[key].binding.task || (channel.binding.task is Some
            && !model.bound_elsewhere(DisplayId(key), channel.binding.task->0)),
    ensures
        model.with_channel(key, channel).wf(),
{
    let after = model.with_channel(key, channel);
    assert forall|other: u64| #[trigger] after.tasks.contains_key(other) implies after.tasks[other].wf()
        && after.tasks[other].binding.display.0 == other by {
        assert(model.tasks.contains_key(other));
    }
    assert forall|a: u64, b: u64|
        #![trigger after.tasks[a], after.tasks[b]]
        after.tasks.contains_key(a) && after.tasks.contains_key(b) && a != b implies {
        &&& after.tasks[a].binding.object != after.tasks[b].binding.object
        &&& after.tasks[a].binding.task is Some ==> after.tasks[a].binding.task
            != after.tasks[b].binding.task
    } by {
        assert(model.tasks.contains_key(a) && model.tasks.contains_key(b));
        assert(model.tasks[a].binding.object != model.tasks[b].binding.object);
        assert(model.tasks[b].binding.object != model.tasks[a].binding.object);
    }
}

/// To put back the same channel changes nothing.
proof fn lemma_same_channel(model: SinkModel, key: u64)
    requires
        model.tasks.contains_key(key),
    ensures
        model.with_channel(key, model.tasks[key]) == model,
{
    assert(model.with_channel(key, model.tasks[key]).tasks =~= model.tasks);
}

/// What an event may not change in a binding.
proof fn lemma_event_keeps_identity(
    binding: BindingModel,
    session: SessionModel,
    message: DenialView,
    outcome: Result<ReleasedFrame, TransportError>,
)
    ensures
        ({
            let after = binding.event(session, message, outcome).binding;
            &&& after.object == binding.object
            &&& after.display == binding.display
            &&& after.task == binding.task
        }),
{
}

impl TaskChannel {
    fn select(&self) -> (selected: Option<u64>)
        requires
            self@.wf(),
        ensures
            selected == self@.selected(),
            selected is Some ==> self@.targets.contains_key(selected->0),
    {
        let keys = ordered_keys(&self.targets);
        assert(self.targets@.dom() =~= self@.targets.dom());
        let mut newest: Option<u32> = None;
        let mut index: usize = 0;
        assert(keys@.take(0) =~= Seq::empty());
        while index < keys.len()
            invariant
                index <= keys@.len(),
                lists(keys@, self@.targets.dom()),
                self.targets@.dom() == self@.targets.dom(),
                newest == newest_serial(self@.targets, keys@.take(index as int)),
            decreases keys@.len() - index,
        {
            let key: u64 = keys[index];
            proof {
                assert(keys@.contains(key));
                assert(self@.targets.dom().contains(key));
                assert(keys@.take(index + 1).drop_last() =~= keys@.take(index as int));
                assert(keys@.take(index + 1).last() == key);
            }
            if let Some(target) = self.targets.get(&key) {
                let older: bool = match newest {
                    Some(serial) => serial >= target.configure_serial,
                    None => false,
                };
                if !target.revoked && !older {
                    newest = Some(target.configure_serial);
                }
            }
            index = index + 1;
        }
        assert(keys@.take(index as int) =~= keys@);
        let serial: u32 = match newest {
            Some(serial) => serial,
            None => {
                return None;
            },
        };
        let mut found: Option<u64> = None;
        let mut index: usize = 0;
        while index < keys.len()
            invariant
                index <= keys@.len(),
                lists(keys@, self@.targets.dom()),
                self.targets@.dom() == self@.targets.dom(),
                found == first_idle(self@.targets, keys@.take(index as int), serial),
                found is Some ==> self@.targets.contains_key(found->0),
            decreases keys@.len() - index,
        {
            let key: u64 = keys[index];
            proof {
                assert(keys@.contains(key));
                assert(self@.targets.dom().contains(key));
                assert(keys@.take(index + 1).drop_last() =~= keys@.take(index as int));
                assert(keys@.take(index + 1).last() == key);
            }
            if found.is_none() {
                if let Some(target) = self.targets.get(&key) {
                    if target.configure_serial == serial && !target.reserved && !target.busy
                        && !target.revoked {
                        found = Some(key);
                    }
                }
            }
            index = index + 1;
        }
        assert(keys@.take(index as int) =~= keys@);
        found
    }
}

impl DenialPresentationSink {
    /// Create an empty sink after the connection-level hello has succeeded.
    pub fn new() -> (sink: DenialPresentationSink)
        ensures
            sink@.wf(),
            sink@ == (SinkModel { tasks: Map::empty() }),
    {
        let sink = DenialPresentationSink { tasks: BTreeMap::new() };
        assert(sink@.tasks =~= Map::empty());
        sink
    }

    fn key_of(&self, object: TaskObjectId) -> (key: Option<u64>)
        requires
            self@.wf(),
        ensures
            key == self@.display_of(object),
            key is Some ==> self@.owned(object, key->0),
    {
        let keys = ordered_keys(&self.tasks);
        let mut index: usize = 0;
        while index < keys.len()
            invariant
                index <= keys@.len(),
                self@.wf(),
                lists(keys@, self.tasks@.dom()),
                forall|i: int| 0 <= i < index ==> !self@.owned(object, #[trigger] keys@[i]),
            decreases keys@.len() - index,
        {
            let key: u64 = keys[index];
            proof {
                assert(keys@.contains(key));
                assert(self.tasks@.dom().contains(key));
            }
            if let Some(channel) = self.tasks.get(&key) {
                if channel.binding.object() == object {
                    proof {
                        assert(self@.tasks[key] == channel@);
                        lemma_owner(self@, object, key);
                    }
                    return Some(key);
                }
                assert(self@.tasks[key] == channel@);
            }
            index = index + 1;
        }
        proof {
            assert forall|key: u64| !self@.owned(object, key) by {
                if self@.tasks.contains_key(key) {
                    assert(self.tasks@.dom().contains(key));
                    let i = choose|i: int| 0 <= i < keys@.len() && keys@[i] == key;
                    assert(!self@.owned(object, keys@[i]));
                }
            }
        }
        None
    }

    fn task_is_bound_elsewhere(&self, display: DisplayId, task: TaskId) -> (bound: bool)
        ensures
            bound == self@.bound_elsewhere(display, task),
    {
        let keys = ordered_keys(&self.tasks);
        let mut index: usize = 0;
        while index < keys.len()
            invariant
                index <= keys@.len(),
                lists(keys@, self.tasks@.dom()),
                forall|i: int|
                    0 <= i < index ==> #[trigger] keys@[i] == display.0
                        || self@.tasks[keys@[i]].binding.task != Some(task),
            decreases keys@.len() - index,
        {
            let key: u64 = keys[index];
            proof {
                assert(keys@.contains(key));
                assert(self.tasks@.dom().contains(key));
            }
            if let Some(channel) = self.tasks.get(&key) {
                assert(self@.tasks[key] == channel@);
                if key != display.0 {
                    if let Some(owned) = channel.binding.task() {
                        if owned == task {
                            assert(self@.tasks.contains_key(key));
                            return true;
                        }
                    }
                }
            }
            index = index + 1;
        }
        proof {
            assert forall|key: u64| #[trigger]
                self@.tasks.contains_key(key) && key != display.0 implies self@.tasks[key].binding.task
                != Some(task) by {
                assert(self.tasks@.dom().contains(key));
                let i = choose|i: int| 0 <= i < keys@.len() && keys@[i] == key;
                assert(keys@[i] == key);
            }
        }
        false
    }

    /// Binding of a new native Denial task object.
    ///
    /// The caller creates the matching task window first. It sends the task
    /// creation and, with the exported timelines, their binding; then
    /// [`DenialPresentationSink::task_registered`] commits the binding. Where
    /// the second record cannot be sent, the caller sends a destroy request.
    pub fn register_task(&self, object: TaskObjectId, reservation: &ReservedTaskWindowSpec) -> (result:
        Result<DenialTaskBinding, DenialSinkError>)
        requires
            self@.wf(),
        ensures
            match self@.register_error(object, *reservation) {
                Some(error) => result is Err && result->Err_0@ == error,
                None => {
                    &&& result is Ok
                    &&& result->Ok_0@ == BindingModel::fresh(object, *reservation)
                    &&& result->Ok_0@.wf()
                },
            },
    {
        if self.tasks.contains_key(&reservation.display.0) {
            return Err(DenialSinkError::DuplicateDisplay(reservation.display));
        }
        if self.key_of(object).is_some() {
            return Err(DenialSinkError::DuplicateObject(object));
        }
        match DenialTaskBinding::new(object, reservation) {
            Ok(binding) => Ok(binding),
            Err(error) => Err(DenialSinkError::Bridge(error)),
        }
    }

    /// Commit a task whose records were sent.
    pub fn task_registered(&mut self, binding: DenialTaskBinding)
        requires
            old(self)@.wf(),
            binding@.wf(),
            binding@.task is None,
            !old(self)@.tasks.contains_key(binding@.display.0),
            old(self)@.display_of(binding@.object) is None,
        ensures
            final(self)@.wf(),
            final(self)@ == old(self)@.with_channel(
                binding@.display.0,
                ChannelModel::fresh(binding@),
            ),
    {
        let display = binding.display();
        let ghost model = binding@;
        let channel = TaskChannel {
            binding,
            targets: BTreeMap::new(),
            frames: BTreeMap::new(),
            present_fence: false,
            extent: None,
        };
        assert(channel@ =~= ChannelModel::fresh(model));
        self.tasks.insert(display.0, channel);
        proof {
            let (before, after) = (old(self)@, self@);
            assert(after =~= before.with_channel(display.0, ChannelModel::fresh(model)));
            assert forall|a: u64, b: u64|
                #![trigger after.tasks[a], after.tasks[b]]
                after.tasks.contains_key(a) && after.tasks.contains_key(b) && a != b implies {
                &&& after.tasks[a].binding.object != after.tasks[b].binding.object
                &&& after.tasks[a].binding.task is Some ==> after.tasks[a].binding.task
                    != after.tasks[b].binding.task
            } by {
                assert(!before.owned(model.object, a));
                assert(!before.owned(model.object, b));
                if a != display.0 && b != display.0 {
                    assert(before.tasks[a].binding.object != before.tasks[b].binding.object);
                }
            }
        }
    }

    fn channel_mut(&mut self, key: u64) -> (result: Option<&mut TaskChannel>)
        requires
            old(self)@.wf(),
        ensures
            match result {
                Some(channel) => {
                    &&& old(self)@.tasks.contains_key(key)
                    &&& channel@ == old(self)@.tasks[key]
                    &&& channel@.wf()
                    &&& channel@.binding.display.0 == key
                    &&& final(self)@ == old(self)@.with_channel(key, final(channel)@)
                },
                None => {
                    &&& !old(self)@.tasks.contains_key(key)
                    &&& final(self)@ == old(self)@
                },
            },
    {
        match value_mut(&mut self.tasks, key) {
            Some(channel) => {
                assert(old(self)@.tasks.contains_key(key));
                Some(channel)
            },
            None => None,
        }
    }

    /// Publish the real Android task identity after launch on the connected
    /// display: the record to send, or none where the task is bound already.
    /// [`DenialPresentationSink::task_bound`] commits it after it was sent.
    pub fn bind_task(&self, display: DisplayId, task: TaskId) -> (result: Result<
        Option<AndroidMessage>,
        DenialSinkError,
    >)
        requires
            self@.wf(),
        ensures
            match self@.bind_error(display, task) {
                Some(error) => result is Err && result->Err_0@ == error,
                None => {
                    &&& result is Ok
                    &&& match result->Ok_0 {
                        None => self@.tasks[display.0].binding.task == Some(task),
                        Some(message) => {
                            &&& self@.tasks[display.0].binding.task != Some(task)
                            &&& message@ == (AndroidView::BindTask {
                                object: self@.tasks[display.0].binding.object,
                                task: crate::protocol::AndroidTaskId(task.0),
                            })
                        },
                    }
                },
            },
    {
        if self.task_is_bound_elsewhere(display, task) {
            return Err(DenialSinkError::Bridge(DenialBridgeError::UnexpectedMessage));
        }
        match self.tasks.get(&display.0) {
            Some(channel) => {
                assert(self@.tasks[display.0] == channel@);
                if let Some(bound) = channel.binding.task() {
                    if bound == task {
                        return Ok(None);
                    }
                }
                match channel.binding.bind_task_message(task) {
                    Ok(message) => Ok(Some(message)),
                    Err(error) => Err(DenialSinkError::Bridge(error)),
                }
            },
            None => Err(DenialSinkError::UnknownDisplay(display)),
        }
    }

    /// Commit a task binding whose record was sent.
    pub fn task_bound(&mut self, display: DisplayId, task: TaskId) -> (result: Result<
        (),
        DenialSinkError,
    >)
        requires
            old(self)@.wf(),
            !old(self)@.bound_elsewhere(display, task),
        ensures
            final(self)@.wf(),
            sink_outcome(
                result,
                if !old(self)@.tasks.contains_key(display.0) {
                    Some(SinkErrorView::UnknownDisplay(display))
                } else if !old(self)@.tasks[display.0].binding.may_bind(task) {
                    Some(SinkErrorView::Bridge(DenialBridgeError::UnexpectedMessage))
                } else {
                    None
                },
            ),
            final(self)@ == (if result is Ok {
                old(self)@.with_channel(
                    display.0,
                    ChannelModel {
                        binding: BindingModel {
                            task: Some(task),
                            ..old(self)@.tasks[display.0].binding
                        },
                        ..old(self)@.tasks[display.0]
                    },
                )
            } else {
                old(self)@
            }),
    {
        let channel = match self.channel_mut(display.0) {
            Some(channel) => channel,
            None => {
                return Err(DenialSinkError::UnknownDisplay(display));
            },
        };
        let ghost before = channel@;
        let result = channel.binding.mark_task_bound(task);
        let ghost after = channel@;
        proof {
            lemma_same_channel(old(self)@, display.0);
            assert(after =~= (ChannelModel { binding: after.binding, ..before }));
            assert(after.wf());
            lemma_channel_change(old(self)@, display.0, after);
        }
        match result {
            Ok(()) => Ok(()),
            Err(error) => Err(DenialSinkError::Bridge(error)),
        }
    }

    /// Destroy one task after the safe Composer core confirms it has no
    /// in-flight buffers: the record to send. The task stays until
    /// [`DenialPresentationSink::task_removed`] confirms that it was sent.
    pub fn unregister_task(&self, display: DisplayId) -> (result: Result<
        AndroidMessage,
        DenialSinkError,
    >)
        requires
            self@.wf(),
        ensures
            match result {
                Ok(message) => {
                    &&& self@.tasks.contains_key(display.0)
                    &&& message@ == (AndroidView::DestroyTask {
                        object: self@.tasks[display.0].binding.object,
                    })
                },
                Err(error) => {
                    &&& !self@.tasks.contains_key(display.0)
                    &&& error@ == SinkErrorView::UnknownDisplay(display)
                },
            },
    {
        match self.tasks.get(&display.0) {
            Some(channel) => {
                assert(self@.tasks[display.0] == channel@);
                Ok(AndroidMessage::DestroyTask { object: channel.binding.object() })
            },
            None => Err(DenialSinkError::UnknownDisplay(display)),
        }
    }

    /// Ask the host to activate the window of a task, under the host's own focus
    /// policy: the record to send.
    pub fn request_activation(&self, display: DisplayId) -> (result: Result<
        AndroidMessage,
        DenialSinkError,
    >)
        requires
            self@.wf(),
        ensures
            match result {
                Ok(message) => {
                    &&& self@.tasks.contains_key(display.0)
                    &&& message@ == (AndroidView::RequestActivation {
                        object: self@.tasks[display.0].binding.object,
                    })
                },
                Err(error) => {
                    &&& !self@.tasks.contains_key(display.0)
                    &&& error@ == SinkErrorView::UnknownDisplay(display)
                },
            },
    {
        match self.tasks.get(&display.0) {
            Some(channel) => {
                assert(self@.tasks[display.0] == channel@);
                Ok(AndroidMessage::RequestActivation { object: channel.binding.object() })
            },
            None => Err(DenialSinkError::UnknownDisplay(display)),
        }
    }

    /// Forget a task whose destroy record was sent.
    pub fn task_removed(&mut self, display: DisplayId)
        requires
            old(self)@.wf(),
        ensures
            final(self)@.wf(),
            final(self)@ == (SinkModel { tasks: old(self)@.tasks.remove(display.0) }),
    {
        self.tasks.remove(&display.0);
        proof {
            let (before, after) = (old(self)@, self@);
            assert(after.tasks =~= before.tasks.remove(display.0));
            assert forall|a: u64, b: u64|
                #![trigger after.tasks[a], after.tasks[b]]
                after.tasks.contains_key(a) && after.tasks.contains_key(b) && a != b implies {
                &&& after.tasks[a].binding.object != after.tasks[b].binding.object
                &&& after.tasks[a].binding.task is Some ==> after.tasks[a].binding.task
                    != after.tasks[b].binding.task
            } by {
                assert(before.tasks[a].binding.object != before.tasks[b].binding.object);
            }
        }
    }

    /// Acknowledge a host configure in Composer: the record to send. `outcome`
    /// is how the transport answers the acknowledgement.
    pub fn acknowledge_configure(
        &mut self,
        session: &mut Session,
        display: DisplayId,
        serial: u32,
        outcome: Result<(), TransportError>,
    ) -> (result: Result<AndroidMessage, DenialSinkError>)
        requires
            old(self)@.wf(),
            old(session)@.wf(),
        ensures
            final(self)@.wf(),
            final(session)@ == old(session)@,
            ({
                let channel = old(self)@.tasks[display.0];
                if !old(self)@.tasks.contains_key(display.0) {
                    &&& result is Err
                    &&& result->Err_0@ == SinkErrorView::UnknownDisplay(display)
                    &&& final(self)@ == old(self)@
                } else if !old(session)@.windows.windows.contains_key(display.0) {
                    &&& result is Err
                    &&& result->Err_0@ == SinkErrorView::Bridge(
                        DenialBridgeError::Task(TaskWindowError::UnknownDisplay(display)),
                    )
                    &&& final(self)@ == old(self)@
                } else {
                    match outcome {
                        Err(error) => {
                            &&& result is Err
                            &&& result->Err_0@ == SinkErrorView::Bridge(
                                DenialBridgeError::Composer(ComposerError::Transport(error)),
                            )
                            &&& final(self)@ == old(self)@
                        },
                        Ok(_) => {
                            &&& result is Ok
                            &&& result->Ok_0@ == (AndroidView::AckConfigure {
                                object: channel.binding.object,
                                serial,
                            })
                            &&& final(self)@ == old(self)@.with_channel(
                                display.0,
                                ChannelModel {
                                    binding: BindingModel {
                                        acknowledged_configure: Some(serial),
                                        ..channel.binding
                                    },
                                    ..channel
                                },
                            )
                        },
                    }
                }
            }),
    {
        let channel = match self.channel_mut(display.0) {
            Some(channel) => channel,
            None => {
                return Err(DenialSinkError::UnknownDisplay(display));
            },
        };
        let ghost before = channel@;
        let result = channel.binding.acknowledge_configure(session, serial, outcome);
        let ghost after = channel@;
        proof {
            lemma_same_channel(old(self)@, display.0);
            assert(after =~= (ChannelModel { binding: after.binding, ..before }));
            assert(after.wf());
            lemma_channel_change(old(self)@, display.0, after);
        }
        match result {
            Ok(message) => Ok(message),
            Err(error) => Err(DenialSinkError::Bridge(error)),
        }
    }

    /// Apply one already-decoded task-scoped host event to its exact Composer
    /// display and protocol binding. `outcome` is how the transport answers the
    /// release that a buffer release asks for.
    pub fn apply_task_event(
        &mut self,
        session: &mut Session,
        message: &DenialMessage,
        outcome: Result<ReleasedFrame, TransportError>,
    ) -> (result: Result<AppliedDenialEvent, DenialSinkError>)
        requires
            old(self)@.wf(),
            old(session)@.wf(),
        ensures
            final(self)@.wf(),
            final(session)@.wf(),
            ({
                let after = old(self)@.event(old(session)@, message@, outcome);
                &&& final(self)@ == after.sink
                &&& final(session)@ == after.session
                &&& match result {
                    Ok(event) => after.result == Ok::<AppliedDenialEvent, SinkErrorView>(event),
                    Err(error) => after.result == Err::<AppliedDenialEvent, SinkErrorView>(error@),
                }
            }),
    {
        let object = match crate::composer::denial::message_object(message) {
            Some(object) => object,
            None => {
                return Err(DenialSinkError::ConnectionMessage);
            },
        };
        let key: u64 = match self.key_of(object) {
            Some(key) => key,
            None => {
                return Err(DenialSinkError::UnknownObject(object));
            },
        };
        let channel = match self.channel_mut(key) {
            Some(channel) => channel,
            None => {
                return Err(DenialSinkError::UnknownObject(object));
            },
        };
        let ghost before = channel@;
        let applied = channel.binding.apply_event(session, message, outcome);
        proof {
            lemma_event_keeps_identity(before.binding, old(session)@, message@, outcome);
            assert(channel@ =~= (ChannelModel { binding: channel@.binding, ..before }));
            assert(channel@.wf());
        }
        let result = match applied {
            Ok(event) => match channel.follow(&event, message) {
                Ok(()) => Ok(event),
                Err(error) => Err(error),
            },
            Err(error) => Err(DenialSinkError::Bridge(error)),
        };
        let ghost after = channel@;
        proof {
            lemma_channel_change(old(self)@, key, after);
        }
        result
    }
}

impl TaskChannel {
    fn follow(&mut self, event: &AppliedDenialEvent, message: &DenialMessage) -> (result: Result<
        (),
        DenialSinkError,
    >)
        requires
            old(self)@.wf(),
        ensures
            final(self)@.wf(),
            final(self)@.binding == old(self)@.binding,
            final(self)@ == old(self)@.follow(*event, message@).0,
            sink_outcome(result, old(self)@.follow(*event, message@).1),
    {
        if let AppliedDenialEvent::Configure { width, height, .. } = event {
            let mut extent = self.extent;
            let pinned = pin_android_display_extent(&mut extent, *width, *height);
            self.extent = extent;
            assert(self@ =~= (ChannelModel { extent, ..old(self)@ }));
            return match pinned {
                Ok(()) => Ok(()),
                Err(error) => Err(error),
            };
        }
        if let DenialMessage::BufferReleased { frame, buffer, .. } = message {
            return self.retire(*frame, *buffer);
        }
        Ok(())
    }

    fn retire(&mut self, frame: FrameId, buffer: BufferId) -> (result: Result<(), DenialSinkError>)
        requires
            old(self)@.wf(),
        ensures
            final(self)@.wf(),
            final(self)@.binding == old(self)@.binding,
            final(self)@ == old(self)@.retired(frame, buffer).0,
            sink_outcome(result, old(self)@.retired(frame, buffer).1),
    {
        let owned = match self.frames.remove(&frame.0) {
            Some(owned) => owned,
            None => {
                assert(self@.frames =~= old(self)@.frames);
                assert(self@ =~= old(self)@);
                return Err(DenialSinkError::UnknownRenderTarget(buffer));
            },
        };
        assert(self@ =~= (ChannelModel {
            frames: old(self)@.frames.remove(frame.0),
            ..old(self)@
        }));
        if owned != buffer {
            return Err(DenialSinkError::BufferMetadataMismatch(buffer));
        }
        let ghost untied = self@;
        assert(old(self)@.frames.contains_key(frame.0));
        let revoked: bool = match value_mut(&mut self.targets, buffer.0) {
            Some(target) => {
                target.busy = false;
                target.revoked
            },
            None => {
                return Err(DenialSinkError::UnknownRenderTarget(buffer));
            },
        };
        let ghost idle = self@;
        if revoked {
            self.targets.remove(&buffer.0);
            proof {
                assert(self@.targets =~= untied.targets.remove(buffer.0));
                assert(self@ =~= old(self)@.retired(frame, buffer).0);
            }
        } else {
            assert(self@ =~= old(self)@.retired(frame, buffer).0);
        }
        proof {
            let (before, after) = (old(self)@, self@);
            assert forall|other: u64| #[trigger] after.frames.contains_key(other) implies {
                &&& after.targets.contains_key(after.frames[other].0)
                &&& after.targets[after.frames[other].0].busy
            } by {
                assert(before.frames.contains_key(other));
                assert(before.frames[other] != before.frames[frame.0]);
            }
        }
        Ok(())
    }
}

/// Target that a render may use.
#[derive(Clone, Debug, PartialEq, Eq)]
pub struct SelectedTarget {
    /// Immutable metadata of the target.
    pub metadata: BufferMetadata,
    /// Configure serial whose size the target satisfies.
    pub configure_serial: u32,
}

/// Text of the failure for a display without a native task window.
pub open spec fn windowless_text(display: DisplayId) -> Seq<char> {
    "display DisplayId("@ + decimal(display.0 as int) + ") has no native task window"@
}

fn windowless(display: DisplayId) -> (error: DenialSinkError)
    ensures
        error@ == SinkErrorView::Graphics(windowless_text(display)),
{
    let mut text: Vec<char> = chars_of("display DisplayId(");
    append_chars(&mut text, &format_number(display.0));
    append(&mut text, ") has no native task window");
    DenialSinkError::Graphics(text_of(&text))
}

/// Client target of a complete display image, damaged all over.
pub fn rendered_target(target: &BufferMetadata) -> (client: crate::composer::ClientTarget)
    ensures
        client.buffer@ == target@,
        client.damage@ == seq![
            crate::transport::Damage { x: 0, y: 0, width: target.width, height: target.height },
        ],
        client.has_acquire_fence,
{
    let mut damage: Vec<crate::transport::Damage> = Vec::new();
    damage.push(
        crate::transport::Damage { x: 0, y: 0, width: target.width, height: target.height },
    );
    crate::composer::ClientTarget { buffer: target.duplicate(), damage, has_acquire_fence: true }
}

/// Effect of a submission on the sink and on its session.
pub struct Submission {
    pub sink: SinkModel,
    pub session: SessionModel,
    pub error: Option<SinkErrorView>,
}

impl SinkModel {
    /// Effect of submitting a rendered target. `outcome` is how the transport
    /// answers.
    pub open spec fn submission(
        self,
        session: SessionModel,
        display: DisplayId,
        buffer: BufferId,
        outcome: Result<AcceptedFrame, TransportError>,
    ) -> Submission {
        if !session.windows.windows.contains_key(display.0) {
            Submission {
                sink: self,
                session,
                error: Some(SinkErrorView::Graphics(windowless_text(display))),
            }
        } else {
            let composer = session.windows.windows[display.0].composer;
            match (composer.submit_error(display), outcome) {
                (Some(error), _) => Submission {
                    sink: self.cancelled(display, buffer),
                    session,
                    error: Some(SinkErrorView::Composer(error)),
                },
                (None, Err(error)) => Submission {
                    sink: self.cancelled(display, buffer),
                    session,
                    error: Some(SinkErrorView::Composer(ComposerError::Transport(error))),
                },
                (None, Ok(frame)) => Submission {
                    sink: self,
                    session: session.with_composer(display, composer.with_frame(frame)),
                    error: None,
                },
            }
        }
    }

    /// Session after the rollback of a frame that Denial never saw.
    pub open spec fn rolled_back(
        session: SessionModel,
        display: DisplayId,
        frame: FrameId,
        outcome: Result<BufferId, TransportError>,
    ) -> SessionModel {
        if session.windows.windows.contains_key(display.0) && outcome is Ok {
            session.with_composer(
                display,
                session.windows.windows[display.0].composer.without_frame(frame),
            )
        } else {
            session
        }
    }

    /// First reason not to begin a composed frame.
    pub open spec fn begin_error(
        self,
        display: DisplayId,
        buffer: BufferView,
        target: BufferView,
    ) -> Option<ErrorCode> {
        if target != buffer {
            Some(ErrorCode::BadParameter)
        } else if !self.tasks.contains_key(display.0) {
            Some(ErrorCode::BadDisplay)
        } else if self.tasks[display.0].extent is None {
            Some(ErrorCode::NoResources)
        } else {
            None
        }
    }

    /// First reason not to take the completion fence of a direct frame.
    pub open spec fn fence_error(self, display: DisplayId) -> Option<ErrorCode> {
        if !self.tasks.contains_key(display.0) {
            Some(ErrorCode::BadDisplay)
        } else if !self.tasks[display.0].present_fence {
            Some(ErrorCode::NoResources)
        } else {
            None
        }
    }
}

/// To cancel a reservation keeps the invariant of the channel.
proof fn lemma_cancelled(channel: ChannelModel, buffer: BufferId)
    requires
        channel.wf(),
    ensures
        channel.cancelled(buffer).wf(),
{
    let after = channel.cancelled(buffer);
    assert forall|frame: u64| #[trigger] after.frames.contains_key(frame) implies {
        &&& after.targets.contains_key(after.frames[frame].0)
        &&& after.targets[after.frames[frame].0].busy
    } by {
        assert(channel.frames.contains_key(frame));
    }
}

impl DenialPresentationSink {
    /// Cache one Denial-owned render target. `descriptors` are the roles of the
    /// descriptors that came with it.
    pub fn register_render_target(
        &mut self,
        object: TaskObjectId,
        configure_serial: u32,
        buffer: BufferMetadata,
        descriptors: &Vec<DescriptorKind>,
    ) -> (result: Result<(), DenialSinkError>)
        requires
            old(self)@.wf(),
        ensures
            final(self)@.wf(),
            sink_outcome(result, old(self)@.target_error(object, buffer@, descriptors@)),
            final(self)@ == (if result is Ok {
                let key = old(self)@.display_of(object)->0;
                old(self)@.with_channel(
                    key,
                    old(self)@.tasks[key].with_target(
                        buffer.id.0,
                        TargetModel {
                            configure_serial,
                            metadata: buffer@,
                            reserved: false,
                            busy: false,
                            revoked: false,
                        },
                    ),
                )
            } else {
                old(self)@
            }),
    {
        let mut index: usize = 0;
        while index < descriptors.len()
            invariant
                index <= descriptors@.len(),
                forall|i: int|
                    0 <= i < index ==> #[trigger] descriptors@[i] == DescriptorKind::DmabufPlane,
                self@ == old(self)@,
                self@.wf(),
            decreases descriptors@.len() - index,
        {
            if descriptors[index] != DescriptorKind::DmabufPlane {
                assert(descriptors@[index as int] != DescriptorKind::DmabufPlane);
                return Err(DenialSinkError::PlaneDescriptorMismatch);
            }
            index = index + 1;
        }
        if descriptors.len() != buffer.planes.len() {
            return Err(DenialSinkError::PlaneDescriptorMismatch);
        }
        let key: u64 = match self.key_of(object) {
            Some(key) => key,
            None => {
                return Err(DenialSinkError::UnknownObject(object));
            },
        };
        let channel = match self.channel_mut(key) {
            Some(channel) => channel,
            None => {
                return Err(DenialSinkError::UnknownObject(object));
            },
        };
        let ghost before = channel@;
        let id = buffer.id;
        proof {
            lemma_same_channel(old(self)@, key);
        }
        assert(channel.targets@.dom() =~= channel@.targets.dom());
        if channel.targets.contains_key(&id.0) {
            return Err(DenialSinkError::DuplicateRenderTarget(id));
        }
        channel.targets.insert(
            id.0,
            HostRenderTarget {
                configure_serial,
                metadata: buffer,
                reserved: false,
                busy: false,
                revoked: false,
            },
        );
        let ghost after = channel@;
        proof {
            assert(after =~= before.with_target(
                id.0,
                TargetModel {
                    configure_serial,
                    metadata: buffer@,
                    reserved: false,
                    busy: false,
                    revoked: false,
                },
            ));
            assert forall|frame: u64| #[trigger] after.frames.contains_key(frame) implies {
                &&& after.targets.contains_key(after.frames[frame].0)
                &&& after.targets[after.frames[frame].0].busy
            } by {
                assert(before.frames.contains_key(frame));
            }
            lemma_channel_change(old(self)@, key, after);
        }
        Ok(())
    }

    /// Drop one Denial-owned render target after the host revokes it.
    ///
    /// A resize retires the previous target generation immediately, but Denial
    /// can race a revoke against a target that `SurfaceFlinger` renders or
    /// whose frame is still displayed. Such a target is not selected any more,
    /// and is dropped after its cancellation or release.
    pub fn unregister_render_target(&mut self, object: TaskObjectId, buffer: BufferId) -> (result:
        Result<(), DenialSinkError>)
        requires
            old(self)@.wf(),
        ensures
            final(self)@.wf(),
            sink_outcome(result, old(self)@.revoke_error(object, buffer)),
            final(self)@ == (if result is Ok {
                let key = old(self)@.display_of(object)->0;
                old(self)@.with_channel(key, old(self)@.tasks[key].revoked(buffer))
            } else {
                old(self)@
            }),
    {
        let key: u64 = match self.key_of(object) {
            Some(key) => key,
            None => {
                return Err(DenialSinkError::UnknownObject(object));
            },
        };
        let channel = match self.channel_mut(key) {
            Some(channel) => channel,
            None => {
                return Err(DenialSinkError::UnknownObject(object));
            },
        };
        let ghost before = channel@;
        proof {
            lemma_same_channel(old(self)@, key);
        }
        let in_use: bool = match value_mut(&mut channel.targets, buffer.0) {
            Some(target) => {
                let in_use: bool = target.reserved || target.busy;
                if in_use {
                    target.revoked = true;
                }
                in_use
            },
            None => {
                return Err(DenialSinkError::UnknownRenderTarget(buffer));
            },
        };
        if !in_use {
            channel.targets.remove(&buffer.0);
        }
        let ghost after = channel@;
        proof {
            assert(after.targets =~= before.revoked(buffer).targets);
            assert(after =~= before.revoked(buffer));
            assert forall|frame: u64| #[trigger] after.frames.contains_key(frame) implies {
                &&& after.targets.contains_key(after.frames[frame].0)
                &&& after.targets[after.frames[frame].0].busy
            } by {
                assert(before.frames.contains_key(frame));
            }
            lemma_channel_change(old(self)@, key, after);
        }
        Ok(())
    }

    /// Select an idle Denial-owned target for `SurfaceFlinger`'s render engine.
    /// [`DenialPresentationSink::target_reserved`] commits the choice after its
    /// planes were duplicated.
    pub fn acquire_surfaceflinger_target(&self, display: DisplayId) -> (result: Result<
        SelectedTarget,
        DenialSinkError,
    >)
        requires
            self@.wf(),
        ensures
            match self@.select_error(display) {
                Some(error) => result is Err && result->Err_0@ == error,
                None => {
                    let target = self@.tasks[display.0].targets[self@.tasks[display.0].selected()->0];
                    &&& result is Ok
                    &&& result->Ok_0.metadata@ == target.metadata
                    &&& result->Ok_0.configure_serial == target.configure_serial
                },
            },
    {
        let channel = match self.tasks.get(&display.0) {
            Some(channel) => channel,
            None => {
                return Err(DenialSinkError::UnknownDisplay(display));
            },
        };
        assert(self@.tasks.contains_key(display.0));
        assert(self@.tasks[display.0] == channel@);
        let key: u64 = match channel.select() {
            Some(key) => key,
            None => {
                return Err(DenialSinkError::NoRenderTarget(display));
            },
        };
        match channel.targets.get(&key) {
            Some(target) => {
                assert(channel@.targets[key] == target@);
                Ok(
                    SelectedTarget {
                        metadata: target.metadata.duplicate(),
                        configure_serial: target.configure_serial,
                    },
                )
            },
            None => Err(DenialSinkError::NoRenderTarget(display)),
        }
    }

    /// Reserve the target that was selected.
    pub fn target_reserved(&mut self, display: DisplayId, buffer: BufferId)
        requires
            old(self)@.wf(),
            old(self)@.tasks.contains_key(display.0),
            old(self)@.tasks[display.0].targets.contains_key(buffer.0),
            old(self)@.tasks[display.0].targets[buffer.0].idle(),
        ensures
            final(self)@.wf(),
            ({
                let channel = old(self)@.tasks[display.0];
                final(self)@ == old(self)@.with_channel(
                    display.0,
                    channel.with_target(
                        buffer.0,
                        TargetModel { reserved: true, ..channel.targets[buffer.0] },
                    ),
                )
            }),
    {
        if let Some(channel) = self.channel_mut(display.0) {
            let ghost before = channel@;
            if let Some(target) = value_mut(&mut channel.targets, buffer.0) {
                target.reserved = true;
            }
            let ghost after = channel@;
            proof {
                assert(after =~= before.with_target(
                    buffer.0,
                    TargetModel { reserved: true, ..before.targets[buffer.0] },
                ));
                assert forall|frame: u64| #[trigger] after.frames.contains_key(frame) implies {
                    &&& after.targets.contains_key(after.frames[frame].0)
                    &&& after.targets[after.frames[frame].0].busy
                } by {
                    assert(before.frames.contains_key(frame));
                }
                lemma_channel_change(old(self)@, display.0, after);
            }
        }
    }

    /// Return a target reservation that `SurfaceFlinger` did not submit.
    pub fn cancel_surfaceflinger_target(&mut self, display: DisplayId, buffer: BufferId)
        requires
            old(self)@.wf(),
        ensures
            final(self)@.wf(),
            final(self)@ == old(self)@.cancelled(display, buffer),
    {
        if let Some(channel) = self.channel_mut(display.0) {
            let ghost before = channel@;
            let remove: bool = match value_mut(&mut channel.targets, buffer.0) {
                Some(target) => {
                    if !target.busy {
                        target.reserved = false;
                    }
                    !target.busy && !target.reserved && target.revoked
                },
                None => false,
            };
            if remove {
                channel.targets.remove(&buffer.0);
            }
            let ghost after = channel@;
            proof {
                assert(after.targets =~= before.cancelled(buffer).targets);
                assert(after =~= before.cancelled(buffer));
                lemma_cancelled(before, buffer);
                lemma_channel_change(old(self)@, display.0, after);
            }
        }
    }

    /// Submit a rendered target to Composer. `outcome` is how the transport
    /// answers the submission of [`rendered_target`]; it is not read where the
    /// display is unknown or refuses the frame.
    ///
    /// The caller goes on with [`DenialPresentationSink::prepare_surfaceflinger_frame`]
    /// and, where that or the sending fails, with
    /// [`DenialPresentationSink::rollback_surfaceflinger_frame`].
    pub fn submit_surfaceflinger_target(
        &mut self,
        session: &mut Session,
        display: DisplayId,
        target: &BufferMetadata,
        outcome: Result<AcceptedFrame, TransportError>,
    ) -> (result: Result<AcceptedFrame, DenialSinkError>)
        requires
            old(self)@.wf(),
            old(session)@.wf(),
        ensures
            final(self)@.wf(),
            final(session)@.wf(),
            ({
                let after = old(self)@.submission(old(session)@, display, target.id, outcome);
                &&& final(self)@ == after.sink
                &&& final(session)@ == after.session
                &&& match after.error {
                    Some(error) => result is Err && result->Err_0@ == error,
                    None => result is Ok && outcome is Ok && result->Ok_0 == outcome->Ok_0,
                }
            }),
    {
        let composer = match session.windows_mut().composer_for_display_mut(display) {
            Ok(composer) => composer,
            Err(_) => {
                return Err(windowless(display));
            },
        };
        let ghost before = composer@;
        proof {
            assert(old(session)@.windows.window_wf(display.0));
        }
        let result = composer.submit_rendered_target(display, outcome);
        let ghost after = composer@;
        proof {
            law_displays_are_isolated(old(session)@.windows, display, after, 0);
            assert(old(session)@.with_composer(display, before).windows.windows
                =~= old(session)@.windows.windows);
        }
        match result {
            Ok(frame) => Ok(frame),
            Err(error) => {
                self.cancel_surfaceflinger_target(display, target.id);
                Err(DenialSinkError::Composer(error))
            },
        }
    }

    /// Prepare a frame that `SurfaceFlinger` rendered itself.
    pub fn prepare_surfaceflinger_frame(
        &mut self,
        display: DisplayId,
        frame: &AcceptedFrame,
        target: &BufferMetadata,
    ) -> (result: Result<PreparedPresent, DenialSinkError>)
        requires
            old(self)@.wf(),
        ensures
            final(self)@.wf(),
            if target@ != frame.buffer@ || !frame.requires_acquire_fence {
                &&& result is Err
                &&& result->Err_0@ == SinkErrorView::BufferMetadataMismatch(target.id)
                &&& final(self)@ == old(self)@
            } else {
                old(self)@.prepares(display, *frame, result, final(self)@)
            },
    {
        if !target.matches(&frame.buffer) || !frame.requires_acquire_fence {
            return Err(DenialSinkError::BufferMetadataMismatch(target.id));
        }
        self.prepare_frame(display, frame)
    }

    fn prepare_frame(&mut self, display: DisplayId, frame: &AcceptedFrame) -> (result: Result<
        PreparedPresent,
        DenialSinkError,
    >)
        requires
            old(self)@.wf(),
        ensures
            final(self)@.wf(),
            old(self)@.prepares(display, *frame, result, final(self)@),
    {
        let channel = match self.channel_mut(display.0) {
            Some(channel) => channel,
            None => {
                return Err(DenialSinkError::UnknownDisplay(display));
            },
        };
        let ghost before = channel@;
        proof {
            lemma_same_channel(old(self)@, display.0);
        }
        match channel.targets.get(&frame.buffer.id.0) {
            Some(target) => {
                assert(channel@.targets[frame.buffer.id.0] == target@);
                if !target.reserved || target.busy || target.revoked || !target.metadata.matches(
                    &frame.buffer,
                ) {
                    return Err(DenialSinkError::BufferMetadataMismatch(frame.buffer.id));
                }
            },
            None => {
                assert(!channel@.targets.contains_key(frame.buffer.id.0));
                return Err(DenialSinkError::UnknownRenderTarget(frame.buffer.id));
            },
        }
        let result = channel.binding.prepare_present(display, frame);
        let ghost after = channel@;
        proof {
            assert(after =~= (ChannelModel { binding: after.binding, ..before }));
            assert(after.wf());
            lemma_channel_change(old(self)@, display.0, after);
        }
        match result {
            Ok(prepared) => Ok(prepared),
            Err(error) => Err(DenialSinkError::Bridge(error)),
        }
    }

    /// Commit a prepared frame whose present record reached the host. A direct
    /// frame leaves its completion fence for the Composer3 reply.
    pub fn frame_sent(
        &mut self,
        display: DisplayId,
        frame: FrameId,
        buffer: BufferId,
        release_point: u64,
        direct: bool,
    )
        requires
            old(self)@.wf(),
            old(self)@.tasks.contains_key(display.0),
            old(self)@.tasks[display.0].awaits_send(frame, buffer, release_point),
        ensures
            final(self)@.wf(),
            final(self)@ == old(self)@.with_channel(
                display.0,
                old(self)@.tasks[display.0].sent(frame, buffer, direct),
            ),
    {
        if let Some(channel) = self.channel_mut(display.0) {
            let ghost before = channel@;
            if let Some(target) = value_mut(&mut channel.targets, buffer.0) {
                target.reserved = false;
                target.busy = true;
            }
            channel.frames.insert(frame.0, buffer);
            if direct {
                channel.present_fence = true;
            }
            let ghost after = channel@;
            proof {
                assert(after =~= before.sent(frame, buffer, direct));
                lemma_sent(before, frame, buffer, release_point, direct);
                lemma_channel_change(old(self)@, display.0, after);
            }
        }
    }

    /// Forget a prepared frame whose present record did not reach the host. A
    /// composed frame gives its reservation back here; a direct one goes on
    /// with [`DenialPresentationSink::rollback_surfaceflinger_frame`].
    pub fn frame_unsent(
        &mut self,
        display: DisplayId,
        frame: FrameId,
        buffer: BufferId,
        release_point: u64,
        composed: bool,
    )
        requires
            old(self)@.wf(),
            old(self)@.tasks.contains_key(display.0),
            old(self)@.tasks[display.0].awaits_send(frame, buffer, release_point),
        ensures
            final(self)@.wf(),
            final(self)@ == old(self)@.unsent(display, frame, buffer, composed),
    {
        if let Some(channel) = self.channel_mut(display.0) {
            let ghost before = channel@;
            let _ = channel.binding.cancel_unsubmitted_present(frame, release_point);
            if composed {
                if let Some(target) = value_mut(&mut channel.targets, buffer.0) {
                    target.reserved = false;
                }
            }
            let ghost after = channel@;
            proof {
                let untied = ChannelModel { binding: before.binding.without_frame(frame), ..before };
                assert(after =~= (if composed {
                    untied.with_target(
                        buffer.0,
                        TargetModel { reserved: false, ..before.targets[buffer.0] },
                    )
                } else {
                    untied
                }));
                assert forall|other: u64| #[trigger] after.frames.contains_key(other) implies {
                    &&& after.targets.contains_key(after.frames[other].0)
                    &&& after.targets[after.frames[other].0].busy
                } by {
                    assert(before.frames.contains_key(other));
                }
                lemma_channel_change(old(self)@, display.0, after);
            }
        }
    }

    /// Undo a submission whose frame did not reach the host. `outcome` is how
    /// the transport answers the rollback of the frame.
    pub fn rollback_surfaceflinger_frame(
        &mut self,
        session: &mut Session,
        display: DisplayId,
        frame: FrameId,
        buffer: BufferId,
        outcome: Result<BufferId, TransportError>,
    )
        requires
            old(self)@.wf(),
            old(session)@.wf(),
        ensures
            final(self)@.wf(),
            final(session)@.wf(),
            final(self)@ == old(self)@.cancelled(display, buffer),
            final(session)@ == SinkModel::rolled_back(old(session)@, display, frame, outcome),
    {
        if let Ok(composer) = session.windows_mut().composer_for_display_mut(display) {
            let ghost before = composer@;
            proof {
                assert(old(session)@.windows.window_wf(display.0));
            }
            let _ = composer.cancel_unsubmitted_target(frame, outcome);
            let ghost after = composer@;
            proof {
                law_displays_are_isolated(old(session)@.windows, display, after, 0);
                assert(old(session)@.with_composer(display, before).windows.windows
                    =~= old(session)@.windows.windows);
            }
        }
        self.cancel_surfaceflinger_target(display, buffer);
    }

    /// Begin a frame that Composer composes itself: the display space of its
    /// layers. Where composition then fails, the caller cancels the target.
    pub fn begin_frame(
        &mut self,
        display: DisplayId,
        frame: &AcceptedFrame,
        target: &BufferMetadata,
    ) -> (result: Result<(u32, u32), PresentationFailure>)
        requires
            old(self)@.wf(),
        ensures
            final(self)@.wf(),
            match old(self)@.begin_error(display, frame.buffer@, target@) {
                Some(code) => {
                    &&& result == Err::<(u32, u32), PresentationFailure>(
                        PresentationFailure { code, accepted_by_denial: false },
                    )
                    &&& final(self)@ == old(self)@.cancelled(display, target.id)
                },
                None => {
                    &&& result is Ok
                    &&& Some(result->Ok_0) == old(self)@.tasks[display.0].extent
                    &&& final(self)@ == old(self)@
                },
            },
    {
        if !target.matches(&frame.buffer) {
            self.cancel_surfaceflinger_target(display, target.id);
            return Err(PresentationFailure::unsubmitted(ErrorCode::BadParameter));
        }
        match self.android_display_extent(display) {
            Ok(extent) => Ok(extent),
            Err(error) => {
                self.cancel_surfaceflinger_target(display, target.id);
                Err(PresentationFailure::unsubmitted(error.error_code()))
            },
        }
    }

    /// Prepare a frame that was composed into its target.
    pub fn prepare_composed_frame(&mut self, display: DisplayId, frame: &AcceptedFrame) -> (result:
        Result<PreparedPresent, PresentationFailure>)
        requires
            old(self)@.wf(),
        ensures
            final(self)@.wf(),
            match old(self)@.prepare_error(display, frame.frame_id, frame.buffer@) {
                Some(error) => {
                    &&& result == Err::<PreparedPresent, PresentationFailure>(
                        PresentationFailure { code: error.code(), accepted_by_denial: false },
                    )
                    &&& final(self)@ == old(self)@
                },
                None => {
                    &&& result is Ok
                    &&& old(self)@.presents(display, *frame, result->Ok_0)
                    &&& final(self)@ == old(self)@.prepared(display, frame.frame_id)
                },
            },
    {
        match self.prepare_frame(display, frame) {
            Ok(prepared) => Ok(prepared),
            Err(error) => Err(PresentationFailure::unsubmitted(error.error_code())),
        }
    }

    /// Display space of a task's layers.
    pub fn android_display_extent(&self, display: DisplayId) -> (result: Result<
        (u32, u32),
        DenialSinkError,
    >)
        ensures
            match result {
                Ok(extent) => self@.tasks.contains_key(display.0) && self@.tasks[display.0].extent
                    == Some(extent),
                Err(error) => if self@.tasks.contains_key(display.0) {
                    &&& self@.tasks[display.0].extent is None
                    &&& error@ == SinkErrorView::Graphics(
                        "Android display extent is not configured"@,
                    )
                } else {
                    error@ == SinkErrorView::UnknownDisplay(display)
                },
            },
    {
        match self.tasks.get(&display.0) {
            Some(channel) => {
                assert(self@.tasks[display.0] == channel@);
                match channel.extent {
                    Some(extent) => Ok(extent),
                    None => Err(
                        DenialSinkError::Graphics(
                            "Android display extent is not configured".to_owned(),
                        ),
                    ),
                }
            },
            None => Err(DenialSinkError::UnknownDisplay(display)),
        }
    }

    /// Take the completion fence of the last direct frame, once.
    pub fn take_direct_present_fence(&mut self, display: DisplayId) -> (result: Result<
        (),
        ErrorCode,
    >)
        requires
            old(self)@.wf(),
        ensures
            final(self)@.wf(),
            match old(self)@.fence_error(display) {
                Some(code) => {
                    &&& result == Err::<(), ErrorCode>(code)
                    &&& final(self)@ == old(self)@
                },
                None => {
                    &&& result == Ok::<(), ErrorCode>(())
                    &&& final(self)@ == old(self)@.with_channel(
                        display.0,
                        ChannelModel { present_fence: false, ..old(self)@.tasks[display.0] },
                    )
                },
            },
    {
        let channel = match self.channel_mut(display.0) {
            Some(channel) => channel,
            None => {
                return Err(ErrorCode::BadDisplay);
            },
        };
        let ghost before = channel@;
        proof {
            lemma_same_channel(old(self)@, display.0);
        }
        if !channel.present_fence {
            return Err(ErrorCode::NoResources);
        }
        channel.present_fence = false;
        let ghost after = channel@;
        proof {
            assert(after =~= (ChannelModel { present_fence: false, ..before }));
            lemma_channel_change(old(self)@, display.0, after);
        }
        Ok(())
    }

    /// Resolve a protocol task object to its dedicated Composer display.
    pub fn display_for_object(&self, object: TaskObjectId) -> (result: Result<
        DisplayId,
        DenialSinkError,
    >)
        requires
            self@.wf(),
        ensures
            match self@.display_of(object) {
                Some(key) => result == Ok::<DisplayId, DenialSinkError>(DisplayId(key)),
                None => result is Err && result->Err_0@ == SinkErrorView::UnknownObject(object),
            },
    {
        match self.key_of(object) {
            Some(key) => Ok(DisplayId(key)),
            None => Err(DenialSinkError::UnknownObject(object)),
        }
    }

    /// Whether a render target is still held, so that its planes stay open.
    pub fn holds_target(&self, display: DisplayId, buffer: BufferId) -> (held: bool)
        ensures
            held == (self@.tasks.contains_key(display.0)
                && self@.tasks[display.0].targets.contains_key(buffer.0)),
    {
        match self.tasks.get(&display.0) {
            Some(channel) => {
                assert(self@.tasks[display.0] == channel@);
                channel.targets.contains_key(&buffer.0)
            },
            None => false,
        }
    }
}

impl SinkModel {
    /// Whether this is the present record of a prepared frame.
    pub open spec fn presents(
        self,
        display: DisplayId,
        frame: AcceptedFrame,
        present: PreparedPresent,
    ) -> bool {
        let binding = self.tasks[display.0].binding;
        let point = (binding.next_timeline_point + 1) as u64;
        &&& present.acquire_point == point
        &&& present.release_point == point
        &&& present.message@ == (AndroidView::Present {
            object: binding.object,
            frame: frame.frame_id,
            buffer: frame.buffer.id,
            configure_serial: binding.acknowledged_configure->0,
            acquire_point: point,
            release_point: point,
            damage: frame.damage@,
        })
    }

    /// Outcome of preparing a frame on its reserved target.
    pub open spec fn prepares(
        self,
        display: DisplayId,
        frame: AcceptedFrame,
        result: Result<PreparedPresent, DenialSinkError>,
        after: SinkModel,
    ) -> bool {
        match self.prepare_error(display, frame.frame_id, frame.buffer@) {
            Some(error) => {
                &&& result is Err
                &&& result->Err_0@ == error
                &&& after == self
            },
            None => {
                &&& result is Ok
                &&& self.presents(display, frame, result->Ok_0)
                &&& after == self.prepared(display, frame.frame_id)
            },
        }
    }
}

/// To commit a frame keeps the invariant of the channel.
proof fn lemma_sent(
    channel: ChannelModel,
    frame: FrameId,
    buffer: BufferId,
    release_point: u64,
    direct: bool,
)
    requires
        channel.wf(),
        channel.awaits_send(frame, buffer, release_point),
    ensures
        channel.sent(frame, buffer, direct).wf(),
{
    let after = channel.sent(frame, buffer, direct);
    assert forall|other: u64| #[trigger] after.frames.contains_key(other) implies {
        &&& after.targets.contains_key(after.frames[other].0)
        &&& after.targets[after.frames[other].0].busy
    } by {
        if other != frame.0 {
            assert(channel.frames.contains_key(other));
        }
    }
    assert forall|a: u64, b: u64|
        #![trigger after.frames[a], after.frames[b]]
        after.frames.contains_key(a) && after.frames.contains_key(b) && a
            != b implies after.frames[a] != after.frames[b] by {
        if a == frame.0 {
            assert(channel.frames.contains_key(b));
            assert(channel.targets[channel.frames[b].0].busy);
        } else if b == frame.0 {
            assert(channel.frames.contains_key(a));
            assert(channel.targets[channel.frames[a].0].busy);
        } else {
            assert(channel.frames[a] != channel.frames[b]);
        }
    }
}

/// The highest serial is that of a live target, and no live target has a higher.
proof fn lemma_newest(targets: Map<u64, TargetModel>, keys: Seq<u64>)
    ensures
        match newest_serial(targets, keys) {
            Some(serial) => forall|i: int|
                0 <= i < keys.len() && !targets[#[trigger] keys[i]].revoked
                    ==> targets[keys[i]].configure_serial <= serial,
            None => forall|i: int| 0 <= i < keys.len() ==> targets[#[trigger] keys[i]].revoked,
        },
    decreases keys.len(),
{
    if keys.len() > 0 {
        let rest = keys.drop_last();
        lemma_newest(targets, rest);
        assert forall|i: int| 0 <= i < keys.len() && !targets[#[trigger] keys[i]].revoked implies {
            &&& newest_serial(targets, keys) is Some
            &&& targets[keys[i]].configure_serial <= newest_serial(targets, keys)->0
        } by {
            if i < rest.len() {
                assert(rest[i] == keys[i]);
            }
        }
    }
}

/// The first idle target is listed, and none is found only where none is idle.
proof fn lemma_idle(targets: Map<u64, TargetModel>, keys: Seq<u64>, serial: u32)
    ensures
        match first_idle(targets, keys, serial) {
            Some(key) => {
                &&& keys.contains(key)
                &&& targets[key].idle()
                &&& targets[key].configure_serial == serial
            },
            None => forall|i: int|
                0 <= i < keys.len() && targets[#[trigger] keys[i]].idle()
                    ==> targets[keys[i]].configure_serial != serial,
        },
    decreases keys.len(),
{
    if keys.len() > 0 {
        let rest = keys.drop_last();
        lemma_idle(targets, rest, serial);
        assert(keys[keys.len() - 1] == keys.last());
        match first_idle(targets, rest, serial) {
            Some(key) => {
                let i = choose|i: int| 0 <= i < rest.len() && rest[i] == key;
                assert(keys[i] == key);
            },
            None => {
                assert forall|i: int|
                    0 <= i < keys.len() && targets[#[trigger] keys[i]].idle()
                        && first_idle(targets, keys, serial) is None implies targets[keys[i]].configure_serial
                    != serial by {
                    if i < rest.len() {
                        assert(rest[i] == keys[i]);
                    }
                }
            },
        }
    }
}

/// A render is given only a target that nothing else uses and that Denial has
/// not revoked, and never one older than another live target.
pub proof fn law_selected_targets_are_idle(channel: ChannelModel)
    requires
        channel.wf(),
        channel.targets.dom().finite(),
        channel.selected() is Some,
    ensures
        channel.targets.contains_key(channel.selected()->0),
        channel.targets[channel.selected()->0].idle(),
        forall|key: u64| #[trigger]
            channel.targets.contains_key(key) && !channel.targets[key].revoked
                ==> channel.targets[key].configure_serial
                <= channel.targets[channel.selected()->0].configure_serial,
{
    let keys = in_order(channel.targets.dom());
    lemma_in_order_lists(channel.targets.dom());
    lemma_newest(channel.targets, keys);
    let serial = newest_serial(channel.targets, keys)->0;
    lemma_idle(channel.targets, keys, serial);
    let selected = channel.selected()->0;
    assert(channel.targets.dom().contains(selected));
    assert forall|key: u64| #[trigger]
        channel.targets.contains_key(key) && !channel.targets[key].revoked implies channel.targets[key].configure_serial
        <= channel.targets[selected].configure_serial by {
        assert(channel.targets.dom().contains(key));
        let i = choose|i: int| 0 <= i < keys.len() && keys[i] == key;
        assert(keys[i] == key);
    }
}

/// A target is refused to renders only where every live target of the newest
/// pool is in use.
pub proof fn law_idle_targets_are_found(channel: ChannelModel, key: u64)
    requires
        channel.wf(),
        channel.targets.dom().finite(),
        channel.targets.contains_key(key),
        channel.targets[key].idle(),
        forall|other: u64| #[trigger]
            channel.targets.contains_key(other) && !channel.targets[other].revoked
                ==> channel.targets[other].configure_serial <= channel.targets[key].configure_serial,
    ensures
        channel.selected() is Some,
{
    let keys = in_order(channel.targets.dom());
    lemma_in_order_lists(channel.targets.dom());
    lemma_newest(channel.targets, keys);
    assert(channel.targets.dom().contains(key));
    let i = choose|i: int| 0 <= i < keys.len() && keys[i] == key;
    assert(keys[i] == key);
    let serial = newest_serial(channel.targets, keys)->0;
    lemma_newest_listed(channel.targets, keys);
    let j = choose|j: int|
        0 <= j < keys.len() && !channel.targets[#[trigger] keys[j]].revoked
            && channel.targets[keys[j]].configure_serial == serial;
    assert(keys.contains(keys[j]));
    assert(channel.targets.dom().contains(keys[j]));
    assert(channel.targets.contains_key(keys[j]));
    lemma_idle(channel.targets, keys, serial);
}

/// The highest serial belongs to a live target.
proof fn lemma_newest_listed(targets: Map<u64, TargetModel>, keys: Seq<u64>)
    requires
        newest_serial(targets, keys) is Some,
    ensures
        exists|i: int|
            0 <= i < keys.len() && !targets[#[trigger] keys[i]].revoked
                && targets[keys[i]].configure_serial == newest_serial(targets, keys)->0,
    decreases keys.len(),
{
    let rest = keys.drop_last();
    if newest_serial(targets, rest) is Some {
        lemma_newest_listed(targets, rest);
        let i = choose|i: int|
            0 <= i < rest.len() && !targets[#[trigger] rest[i]].revoked
                && targets[rest[i]].configure_serial == newest_serial(targets, rest)->0;
        assert(keys[i] == rest[i]);
    }
    assert(keys[keys.len() - 1] == keys.last());
}

/// The release of a sent frame makes its target idle again, or drops it where
/// Denial revoked it meanwhile, and leaves every other frame alone.
pub proof fn law_release_returns_the_target(
    channel: ChannelModel,
    frame: FrameId,
    buffer: BufferId,
    release_point: u64,
    direct: bool,
)
    requires
        channel.wf(),
        channel.awaits_send(frame, buffer, release_point),
        !channel.frames.contains_key(frame.0),
    ensures
        ({
            let sent = channel.sent(frame, buffer, direct);
            let (after, error) = sent.retired(frame, buffer);
            let (dropped, failure) = sent.revoked(buffer).retired(frame, buffer);
            &&& error is None && failure is None
            &&& after.frames == channel.frames && dropped.frames == channel.frames
            &&& !channel.targets[buffer.0].revoked ==> after.targets[buffer.0].idle()
            &&& !dropped.targets.contains_key(buffer.0)
        }),
{
    let sent = channel.sent(frame, buffer, direct);
    assert(sent.retired(frame, buffer).0.frames =~= channel.frames);
    assert(sent.revoked(buffer).retired(frame, buffer).0.frames =~= channel.frames);
}

/// A target that Denial owns is not reused before its release: no event but a
/// buffer release of its own task changes any target or frame.
pub proof fn law_targets_wait_for_release(
    sink: SinkModel,
    session: SessionModel,
    message: DenialView,
    outcome: Result<ReleasedFrame, TransportError>,
    key: u64,
)
    requires
        sink.wf(),
        sink.tasks.contains_key(key),
        !(message is BufferReleased) || object_of(message) != Some(sink.tasks[key].binding.object),
    ensures
        sink.event(session, message, outcome).sink.tasks.contains_key(key),
        sink.event(session, message, outcome).sink.tasks[key].targets == sink.tasks[key].targets,
        sink.event(session, message, outcome).sink.tasks[key].frames == sink.tasks[key].frames,
{
    if object_of(message) is Some {
        let object = object_of(message)->0;
        if exists|other: u64| sink.owned(object, other) {
            let other = choose|other: u64| sink.owned(object, other);
            assert(sink.owned(object, other));
        }
    }
}

/// Android layer frames stay in the display space of the first configure,
/// whatever Denial sends afterwards.
pub proof fn law_display_extent_is_pinned(
    sink: SinkModel,
    session: SessionModel,
    message: DenialView,
    outcome: Result<ReleasedFrame, TransportError>,
    key: u64,
)
    requires
        sink.wf(),
        sink.tasks.contains_key(key),
        sink.tasks[key].extent is Some,
    ensures
        sink.event(session, message, outcome).sink.tasks.contains_key(key),
        sink.event(session, message, outcome).sink.tasks[key].extent == sink.tasks[key].extent,
{
}

/// A frame that fails before the host sees it leaves no trace but its used
/// timeline point: preparing it, failing to send it and cancelling its target
/// gives the targets and frames as they were, with the target idle.
pub proof fn law_unsent_frames_are_undone(
    sink: SinkModel,
    display: DisplayId,
    frame: FrameId,
    buffer: BufferView,
    composed: bool,
)
    requires
        sink.wf(),
        sink.prepare_error(display, frame, buffer) is None,
    ensures
        ({
            let before = sink.tasks[display.0];
            let after = sink.prepared(display, frame).unsent(
                display,
                frame,
                buffer.id,
                composed,
            ).cancelled(display, buffer.id).tasks[display.0];
            &&& after.frames == before.frames
            &&& after.binding.pending == before.binding.pending
            &&& after.targets == before.targets.insert(
                buffer.id.0,
                TargetModel { reserved: false, ..before.targets[buffer.id.0] },
            )
            &&& after.targets[buffer.id.0].idle()
        }),
{
    let before = sink.tasks[display.0];
    let after = sink.prepared(display, frame).unsent(display, frame, buffer.id, composed).cancelled(
        display,
        buffer.id,
    ).tasks[display.0];
    assert(after.binding.pending =~= before.binding.pending);
    assert(after.targets =~= before.targets.insert(
        buffer.id.0,
        TargetModel { reserved: false, ..before.targets[buffer.id.0] },
    ));
}

/// Law: of the idle targets of the newest pool a render is given the one with
/// the lowest identity.
pub proof fn law_the_lowest_idle_target_is_selected(channel: ChannelModel, key: u64)
    requires
        channel.wf(),
        channel.targets.dom().finite(),
        channel.selected() is Some,
        channel.targets.contains_key(key),
        channel.targets[key].idle(),
        channel.targets[key].configure_serial
            == channel.targets[channel.selected()->0].configure_serial,
    ensures
        channel.selected()->0 <= key,
{
    let keys = in_order(channel.targets.dom());
    lemma_in_order_lists(channel.targets.dom());
    let serial = newest_serial(channel.targets, keys)->0;
    lemma_idle(channel.targets, keys, serial);
    assert(channel.targets.dom().contains(key));
    let i = choose|i: int| 0 <= i < keys.len() && keys[i] == key;
    lemma_first_idle_is_earliest(channel.targets, keys, serial, i);
}

proof fn lemma_first_idle_is_earliest(
    targets: Map<u64, TargetModel>,
    keys: Seq<u64>,
    serial: u32,
    i: int,
)
    requires
        0 <= i < keys.len(),
        targets[keys[i]].configure_serial == serial,
        targets[keys[i]].idle(),
    ensures
        first_idle(targets, keys, serial) is Some,
        exists|j: int|
            0 <= j <= i && #[trigger] keys[j] == first_idle(targets, keys, serial)->0
                && targets[keys[j]].configure_serial == serial,
    decreases keys.len(),
{
    let rest = keys.drop_last();
    if i < rest.len() {
        assert(rest[i] == keys[i]);
        lemma_first_idle_is_earliest(targets, rest, serial, i);
        let j = choose|j: int|
            0 <= j <= i && #[trigger] rest[j] == first_idle(targets, rest, serial)->0
                && targets[rest[j]].configure_serial == serial;
        assert(keys[j] == first_idle(targets, keys, serial)->0);
    } else if first_idle(targets, rest, serial) is Some {
        lemma_first_idle_is_listed(targets, rest, serial);
        let j = choose|j: int|
            0 <= j < rest.len() && #[trigger] rest[j] == first_idle(targets, rest, serial)->0
                && targets[rest[j]].configure_serial == serial;
        assert(keys[j] == first_idle(targets, keys, serial)->0);
    } else {
        assert(keys[i] == first_idle(targets, keys, serial)->0);
    }
}

proof fn lemma_first_idle_is_listed(targets: Map<u64, TargetModel>, keys: Seq<u64>, serial: u32)
    requires
        first_idle(targets, keys, serial) is Some,
    ensures
        exists|j: int|
            0 <= j < keys.len() && #[trigger] keys[j] == first_idle(targets, keys, serial)->0
                && targets[keys[j]].configure_serial == serial,
    decreases keys.len(),
{
    let rest = keys.drop_last();
    if first_idle(targets, rest, serial) is Some {
        lemma_first_idle_is_listed(targets, rest, serial);
        let j = choose|j: int|
            0 <= j < rest.len() && #[trigger] rest[j] == first_idle(targets, rest, serial)->0
                && targets[rest[j]].configure_serial == serial;
        assert(keys[j] == first_idle(targets, keys, serial)->0);
    } else {
        assert(keys[keys.len() - 1] == first_idle(targets, keys, serial)->0);
    }
}

/// Law: a target is idle when no render holds it, the host does not show it and
/// the host did not take it back.
pub proof fn law_idle_targets_are_free(target: TargetModel)
    ensures
        target.idle() <==> !target.reserved && !target.busy && !target.revoked,
{
}

/// Law: a cancelled render gives its target back, or drops it where the host
/// took it back meanwhile; a target that the host shows stays with the host.
pub proof fn law_cancelled_targets_are_given_back(
    channel: ChannelModel,
    buffer: BufferId,
    other: u64,
)
    requires
        channel.targets.contains_key(buffer.0),
    ensures
        ({
            let target = channel.targets[buffer.0];
            let after = channel.cancelled(buffer);
            &&& target.busy ==> after == channel
            &&& !target.busy && target.revoked ==> !after.targets.contains_key(buffer.0)
            &&& !target.busy && !target.revoked ==> {
                &&& after.targets.contains_key(buffer.0)
                &&& after.targets[buffer.0].idle()
                &&& after.targets[buffer.0].metadata == target.metadata
                &&& after.targets[buffer.0].configure_serial == target.configure_serial
            }
            &&& other != buffer.0 ==> {
                &&& after.targets.contains_key(other) == channel.targets.contains_key(other)
                &&& after.targets[other] == channel.targets[other]
            }
            &&& after.frames == channel.frames
        }),
{
}

/// Law: a target that the host takes back goes at once when nothing uses it,
/// and otherwise stays, marked, until its use ends.
pub proof fn law_revoked_targets_go_when_unused(
    channel: ChannelModel,
    buffer: BufferId,
    other: u64,
)
    requires
        channel.targets.contains_key(buffer.0),
    ensures
        ({
            let target = channel.targets[buffer.0];
            let after = channel.revoked(buffer);
            &&& after.targets.contains_key(buffer.0) <==> target.reserved || target.busy
            &&& target.reserved || target.busy ==> {
                &&& after.targets[buffer.0].revoked
                &&& after.targets[buffer.0].reserved == target.reserved
                &&& after.targets[buffer.0].busy == target.busy
            }
            &&& other != buffer.0 ==> {
                &&& after.targets.contains_key(other) == channel.targets.contains_key(other)
                &&& after.targets[other] == channel.targets[other]
            }
            &&& after.frames == channel.frames
        }),
{
}

/// Law: a sent frame moves its target from the render to the host and ties the
/// frame to it; a direct one leaves a fence behind.
pub proof fn law_sent_targets_belong_to_the_host(
    channel: ChannelModel,
    frame: FrameId,
    buffer: BufferId,
    direct: bool,
    other: u64,
)
    ensures
        ({
            let after = channel.sent(frame, buffer, direct);
            &&& after.targets[buffer.0].busy
            &&& !after.targets[buffer.0].reserved
            &&& after.targets[buffer.0].revoked == channel.targets[buffer.0].revoked
            &&& after.targets[buffer.0].metadata == channel.targets[buffer.0].metadata
            &&& after.frames.contains_key(frame.0)
            &&& after.frames[frame.0] == buffer
            &&& direct ==> after.present_fence
            &&& !direct ==> after.present_fence == channel.present_fence
            &&& other != buffer.0 ==> after.targets[other] == channel.targets[other]
            &&& other != frame.0 ==> after.frames.contains_key(other)
                == channel.frames.contains_key(other)
        }),
{
}

/// Law: a release is refused for a frame that was not sent or was sent from
/// another target.
pub proof fn law_releases_name_their_target(
    channel: ChannelModel,
    frame: FrameId,
    buffer: BufferId,
)
    ensures
        channel.retired(frame, buffer).1 is None <==> channel.frames.contains_key(frame.0)
            && channel.frames[frame.0] == buffer,
        !channel.frames.contains_key(frame.0) ==> channel.retired(frame, buffer).0 == channel,
        channel.frames.contains_key(frame.0) ==> !channel.retired(
            frame,
            buffer,
        ).0.frames.contains_key(frame.0),
{
}

/// Law: a frame can be prepared from a target exactly when a render holds it,
/// the host neither shows it nor took it back, its buffer is the one that was
/// registered, and the binding has room for the frame.
pub proof fn law_frames_come_from_reserved_targets(
    sink: SinkModel,
    display: DisplayId,
    frame: FrameId,
    buffer: BufferView,
)
    ensures
        sink.prepare_error(display, frame, buffer) is None <==> {
            &&& sink.tasks.contains_key(display.0)
            &&& sink.tasks[display.0].targets.contains_key(buffer.id.0)
            &&& sink.tasks[display.0].targets[buffer.id.0].reserved
            &&& !sink.tasks[display.0].targets[buffer.id.0].busy
            &&& !sink.tasks[display.0].targets[buffer.id.0].revoked
            &&& sink.tasks[display.0].targets[buffer.id.0].metadata == buffer
            &&& sink.tasks[display.0].binding.prepare_error(display, frame) is None
        },
{
}

/// Law: a channel is opened for a new display and a new object.
pub proof fn law_channels_are_opened_once(
    sink: SinkModel,
    object: TaskObjectId,
    reservation: ReservedTaskWindowSpec,
)
    ensures
        sink.register_error(object, reservation) is None <==> {
            &&& object.0 != 0
            &&& !sink.tasks.contains_key(reservation.display.0)
            &&& forall|key: u64| #[trigger]
                sink.tasks.contains_key(key) ==> sink.tasks[key].binding.object != object
        },
        sink.tasks.contains_key(reservation.display.0) ==> sink.register_error(object, reservation)
            == Some(SinkErrorView::DuplicateDisplay(reservation.display)),
{
    if sink.display_of(object) is Some {
        let key = choose|key: u64| sink.owned(object, key);
        assert(sink.tasks.contains_key(key));
    } else {
        assert forall|key: u64| #[trigger] sink.tasks.contains_key(key) implies
            sink.tasks[key].binding.object != object by {
            assert(!sink.owned(object, key));
        }
    }
}

/// Law: a task is bound to one display, and a display to one task.
pub proof fn law_tasks_are_bound_to_one_display(sink: SinkModel, display: DisplayId, task: TaskId)
    ensures
        sink.bind_error(display, task) is None ==> {
            &&& sink.tasks.contains_key(display.0)
            &&& forall|key: u64| #[trigger]
                sink.tasks.contains_key(key) && key != display.0 ==> sink.tasks[key].binding.task
                    != Some(task)
        },
        sink.tasks.contains_key(display.0) && sink.tasks[display.0].binding.task == Some(task)
            && !sink.bound_elsewhere(display, task) ==> sink.bind_error(display, task) is None,
{
}

/// Law: a target is registered with a descriptor for each of its planes, once.
pub proof fn law_targets_are_registered_with_their_planes(
    sink: SinkModel,
    object: TaskObjectId,
    buffer: BufferView,
    descriptors: Seq<DescriptorKind>,
)
    ensures
        sink.target_error(object, buffer, descriptors) is None <==> {
            &&& descriptors.len() == buffer.planes.len()
            &&& forall|i: int|
                0 <= i < descriptors.len() ==> (#[trigger] descriptors[i]) is DmabufPlane
            &&& sink.display_of(object) is Some
            &&& !sink.tasks[sink.display_of(object)->0].targets.contains_key(buffer.id.0)
        },
        sink.display_of(object) is Some ==> {
            &&& sink.tasks.contains_key(sink.display_of(object)->0)
            &&& sink.tasks[sink.display_of(object)->0].binding.object == object
        },
{
    if exists|key: u64| sink.owned(object, key) {
        let key = choose|key: u64| sink.owned(object, key);
        assert(sink.owned(object, key));
    }
    assert(all_planes(descriptors) <==> forall|i: int|
        0 <= i < descriptors.len() ==> (#[trigger] descriptors[i]) is DmabufPlane);
}

/// Law: an export begins on the target that was reserved, for a known and
/// configured display; a fence is taken only where one was left.
pub proof fn law_exports_begin_on_their_target(
    sink: SinkModel,
    display: DisplayId,
    buffer: BufferView,
    target: BufferView,
)
    ensures
        sink.begin_error(display, buffer, target) is None <==> {
            &&& target == buffer
            &&& sink.tasks.contains_key(display.0)
            &&& sink.tasks[display.0].extent is Some
        },
        sink.fence_error(display) is None <==> sink.tasks.contains_key(display.0)
            && sink.tasks[display.0].present_fence,
        !sink.tasks.contains_key(display.0) ==> sink.fence_error(display) == Some(
            ErrorCode::BadDisplay,
        ),
{
}

/// Law: how a failure of the sink is reported to Android.
pub proof fn law_failures_have_fixed_codes(display: DisplayId, buffer: BufferId)
    ensures
        SinkErrorView::UnknownDisplay(display).code() == ErrorCode::BadDisplay,
        SinkErrorView::BufferMetadataMismatch(buffer).code() == ErrorCode::BadParameter,
        SinkErrorView::PlaneDescriptorMismatch.code() == ErrorCode::BadParameter,
        SinkErrorView::DuplicateRenderTarget(buffer).code() == ErrorCode::BadParameter,
        SinkErrorView::UnknownRenderTarget(buffer).code() == ErrorCode::BadParameter,
        SinkErrorView::NoRenderTarget(display).code() == ErrorCode::NoResources,
        SinkErrorView::DuplicateDisplay(display).code() == ErrorCode::NoResources,
        SinkErrorView::Poisoned.code() == ErrorCode::NoResources,
        SinkErrorView::Ipc.code() == ErrorCode::NoResources,
        SinkErrorView::Syncobj.code() == ErrorCode::NoResources,
{
}

/// Law: a target is taken back from the task that has it, and one is selected on
/// a display that has an idle one.
pub proof fn law_targets_are_looked_up_in_their_task(
    sink: SinkModel,
    object: TaskObjectId,
    buffer: BufferId,
    display: DisplayId,
)
    ensures
        sink.revoke_error(object, buffer) is None <==> sink.display_of(object) is Some
            && sink.tasks[sink.display_of(object)->0].targets.contains_key(buffer.0),
        sink.display_of(object) is None ==> sink.revoke_error(object, buffer) == Some(
            SinkErrorView::UnknownObject(object),
        ),
        sink.select_error(display) is None <==> sink.tasks.contains_key(display.0)
            && sink.tasks[display.0].selected() is Some,
        !sink.tasks.contains_key(display.0) ==> sink.select_error(display) == Some(
            SinkErrorView::UnknownDisplay(display),
        ),
{
}

/// Law: a submitted frame is in flight on its display; one that cannot be
/// submitted gives its target back and changes nothing of the session.
pub proof fn law_submissions_are_in_flight_or_undone(
    sink: SinkModel,
    session: SessionModel,
    display: DisplayId,
    buffer: BufferId,
    outcome: Result<AcceptedFrame, TransportError>,
)
    ensures
        ({
            let done = sink.submission(session, display, buffer, outcome);
            let composer = session.windows.windows[display.0].composer;
            &&& done.error is None <==> {
                &&& session.windows.windows.contains_key(display.0)
                &&& composer.submit_error(display) is None
                &&& outcome is Ok
            }
            &&& done.error is None ==> {
                let frame = outcome->Ok_0;
                let after = done.session.windows.windows[display.0].composer;
                &&& done.sink == sink
                &&& after.in_flight.contains_key(frame.frame_id.0)
                &&& after.in_flight[frame.frame_id.0] == frame.buffer.id
            }
            &&& done.error is Some ==> done.session == session
            &&& done.error is Some && session.windows.windows.contains_key(display.0) ==> done.sink
                == sink.cancelled(display, buffer)
        }),
{
}

/// Law: a rolled back frame is in flight no longer.
pub proof fn law_rolled_back_frames_are_not_in_flight(
    session: SessionModel,
    display: DisplayId,
    frame: FrameId,
    outcome: Result<BufferId, TransportError>,
)
    ensures
        outcome is Err ==> SinkModel::rolled_back(session, display, frame, outcome) == session,
        outcome is Ok && session.windows.windows.contains_key(display.0) ==> {
            let after = SinkModel::rolled_back(session, display, frame, outcome);
            !after.windows.windows[display.0].composer.in_flight.contains_key(frame.0)
        },
{
}

/// Law: a frame is presented with its own identity, buffer and damage, for the
/// acknowledged configuration, at the next point of the task's timeline on both
/// sides.
pub proof fn law_frames_are_presented_at_the_next_point(
    sink: SinkModel,
    display: DisplayId,
    frame: AcceptedFrame,
    present: PreparedPresent,
)
    requires
        sink.presents(display, frame, present),
        sink.tasks[display.0].binding.next_timeline_point < u64::MAX,
    ensures
        ({
            let binding = sink.tasks[display.0].binding;
            &&& present.acquire_point == binding.next_timeline_point + 1
            &&& present.release_point == binding.next_timeline_point + 1
            &&& present.message@ matches AndroidView::Present {
                object,
                frame: shown,
                buffer,
                configure_serial,
                acquire_point,
                release_point,
                damage,
            } && {
                &&& object == binding.object
                &&& shown == frame.frame_id
                &&& buffer == frame.buffer.id
                &&& configure_serial == binding.acknowledged_configure->0
                &&& acquire_point == binding.next_timeline_point + 1
                &&& release_point == binding.next_timeline_point + 1
                &&& damage == frame.damage@
            }
        }),
{
}

/// Law: the first size of a display is kept; an empty one is refused.
pub proof fn law_the_first_size_is_kept(
    channel: ChannelModel,
    event: AppliedDenialEvent,
    message: DenialView,
)
    requires
        event is Configure,
    ensures
        ({
            let (after, error) = channel.follow(event, message);
            let width = event->Configure_width;
            let height = event->Configure_height;
            &&& error is None <==> width > 0 && height > 0
            &&& error is None && channel.extent is None ==> after.extent == Some((width, height))
            &&& error is None && channel.extent is Some ==> after.extent == channel.extent
            &&& error is Some ==> after == channel
        }),
{
}

} // verus!
