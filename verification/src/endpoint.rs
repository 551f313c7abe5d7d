//! Denial-side decisions for one authenticated Droidloom connection.
//!
//! The endpoint reduces each decoded record to one step for the host. It does
//! not create a second window system: the host maps each
//! [`EndpointAction::CreateTask`] to one native task window, imports each
//! buffer once, and feeds presentation completion back through the methods on
//! [`DenialEndpoint`]. Sockets, descriptors and timelines stay with the host
//! adapter, which performs the step and reports how it went.

use std::collections::{BTreeMap, BTreeSet};

use vstd::prelude::*;

use crate::ipc::PeerCredentials;
use crate::ordered::{lists, ordered_keys, value_mut};
use crate::protocol::capability;
use crate::protocol::fields::configure_error;
use crate::protocol::state::{
    AcceptedWireFrame, PendingWireFrame, PresentRequest, TaskModel, TaskPresentationState,
    TaskStateError,
};
use crate::protocol::{
    AndroidDisplayId, AndroidMessage, AndroidTaskId, BufferId, BufferMetadata, BufferView, Damage,
    DenialMessage, DenialView, DescriptorKind, FormatModifier, FrameId, InputEvent,
    ProtocolErrorCode, TaskObjectId, Transform, TransportError, Visibility, BASE_PROTOCOL_MINOR,
    MAX_BUFFERS_PER_TASK, MAX_DAMAGE_RECTS, MAX_TASK_OBJECTS, PROTOCOL_MAJOR, PROTOCOL_MINOR,
};

verus! {

broadcast use vstd::laws_cmp::group_laws_cmp;

/// Frames whose presentation timing is remembered at most, per task.
pub const MAX_TRACKED_FRAMES: usize = 64;

/// Exact kernel-authenticated identity allowed to own one endpoint connection.
#[derive(Clone, Copy, Debug, PartialEq, Eq, Structural)]
pub struct ExpectedPeer {
    /// Expected process ID in Denial's PID namespace. Zero is an explicit
    /// development-only wildcard used before the supervisor registration
    /// channel can publish the cell's dynamically assigned host PID.
    pub pid: u32,
    /// Expected effective user ID.
    pub uid: u32,
    /// Expected effective group ID.
    pub gid: u32,
}

/// Peer-authentication failure of the listener.
#[derive(Clone, Copy, Debug, PartialEq, Eq, Structural)]
pub enum EndpointListenerError {
    /// Filesystem socket or peer-credential operation failed.
    Ipc,
    /// A local process other than the supervisor-authorized Android Composer
    /// attempted to claim the cell endpoint.
    UnexpectedPeer {
        /// Authorized PID.
        expected_pid: u32,
        /// Authorized UID.
        expected_uid: u32,
        /// Authorized GID.
        expected_gid: u32,
        /// Kernel-reported PID.
        actual_pid: u32,
        /// Kernel-reported UID.
        actual_uid: u32,
        /// Kernel-reported GID.
        actual_gid: u32,
    },
}

impl ExpectedPeer {
    /// Whether a peer is the authorized one.
    pub open spec fn admits(self, actual: PeerCredentials) -> bool {
        &&& self.pid == 0 || self.pid == actual.pid
        &&& self.uid == actual.uid
        &&& self.gid == actual.gid
    }

    /// Whether a kernel-authenticated peer is the authorized one.
    pub fn accepts(self, actual: PeerCredentials) -> (accepted: bool)
        ensures
            accepted == self.admits(actual),
    {
        (self.pid == 0 || self.pid == actual.pid) && self.uid == actual.uid && self.gid
            == actual.gid
    }

    /// Admit exactly one supervisor-authorized Composer peer, before any
    /// protocol byte of it is parsed.
    pub fn authorize(self, actual: PeerCredentials) -> (result: Result<(), EndpointListenerError>)
        ensures
            result == (if self.admits(actual) {
                Ok(())
            } else {
                Err(
                    EndpointListenerError::UnexpectedPeer {
                        expected_pid: self.pid,
                        expected_uid: self.uid,
                        expected_gid: self.gid,
                        actual_pid: actual.pid,
                        actual_uid: actual.uid,
                        actual_gid: actual.gid,
                    },
                )
            }),
    {
        if !self.accepts(actual) {
            return Err(
                EndpointListenerError::UnexpectedPeer {
                    expected_pid: self.pid,
                    expected_uid: self.uid,
                    expected_gid: self.gid,
                    actual_pid: actual.pid,
                    actual_uid: actual.uid,
                    actual_gid: actual.gid,
                },
            );
        }
        Ok(())
    }
}

/// One fully validated operation for Denial's native task/window machinery.
#[derive(Clone, Debug, PartialEq, Eq)]
#[allow(inconsistent_fields)]
pub enum EndpointAction {
    /// Connection-level version and capability negotiation completed.
    ClientReady,
    /// Create exactly one native Denial task/window.
    CreateTask {
        /// Per-connection protocol object.
        object: TaskObjectId,
        /// Dedicated Android logical display.
        display: AndroidDisplayId,
        /// Package identity for shell policy and diagnostics.
        package: String,
    },
    /// Bind the real `ActivityTaskManager` identity after Android launches onto
    /// the already-configured dedicated display.
    BindTask {
        /// Existing protocol object.
        object: TaskObjectId,
        /// Real nonzero Android task identity.
        task: AndroidTaskId,
    },
    /// Remove one native task/window.
    DestroyTask {
        /// Object whose task was removed.
        object: TaskObjectId,
    },
    /// The task's shared acquire and release timelines are ready.
    TimelinesBound {
        /// Bound task object.
        object: TaskObjectId,
    },
    /// Android acknowledged the latest native-window configure.
    ConfigureAcknowledged {
        /// Configured task object.
        object: TaskObjectId,
        /// Acknowledged configure serial.
        serial: u32,
    },
    /// Import one allocation into Denial's renderer and cache it by ID; the
    /// DMA-BUF planes are the descriptors of the record, in dense plane order.
    RegisterBuffer {
        /// Owning task object.
        object: TaskObjectId,
        /// Validated immutable allocation metadata.
        buffer: BufferMetadata,
    },
    /// Retire one idle renderer import.
    UnregisterBuffer {
        /// Owning task object.
        object: TaskObjectId,
        /// Allocation to retire.
        buffer: BufferId,
    },
    /// Submit one frame, with the acquire fence that the adapter exported, to
    /// Denial's renderer/scheduler.
    Present {
        /// Fully validated cached-buffer and timeline transaction.
        frame: AcceptedWireFrame,
    },
    /// A render completed after Denial had already superseded its configure.
    /// Its timeline points are consumed and it is released without exposing
    /// stale content to the compositor.
    SupersededPresentDiscarded {
        /// Owning task object.
        object: TaskObjectId,
        /// Discarded frame identity.
        frame: FrameId,
    },
    /// Private layer stream scoped by the authenticated Composer task; the
    /// sockets are the descriptors of the record.
    BindLayerStream {
        /// Owning task.
        object: TaskObjectId,
    },
    /// Update content-state policy for following frames.
    SetContentState {
        /// Owning task object.
        object: TaskObjectId,
        /// Validated protocol content-state bits.
        flags: u32,
    },
    /// Update one task's host frame-rate vote.
    SetFrameRate {
        /// Owning task object.
        object: TaskObjectId,
        /// Requested millihertz, or zero to withdraw the vote.
        millihz: u32,
    },
    /// Ask the shell to activate a task, subject to native focus policy.
    RequestActivation {
        /// Existing task object.
        object: TaskObjectId,
    },
    /// Android answered a host liveness probe.
    Pong {
        /// Cookie from the corresponding `Ping`.
        cookie: u64,
    },
}

/// What the host adapter does with one accepted record.
#[derive(Clone, Debug, PartialEq, Eq)]
#[allow(inconsistent_fields)]
pub enum EndpointStep {
    /// Send this hello; then [`DenialEndpoint::hello_sent`] opens the connection.
    SendHello(DenialMessage),
    /// Import the record's two timeline descriptors; then
    /// [`DenialEndpoint::timelines_imported`] binds them.
    ImportTimelines {
        /// Task of the timelines.
        object: TaskObjectId,
    },
    /// Export the acquire fence of this frame; then
    /// [`DenialEndpoint::finish_present`] hands the frame on or takes it back.
    ExportAcquireFence(AcceptedWireFrame),
    /// Check that the acquire fence exists and drop it, signal the release
    /// point and send the release; the action is then
    /// [`EndpointAction::SupersededPresentDiscarded`].
    ReleaseSuperseded {
        /// Task of the frame.
        object: TaskObjectId,
        /// Discarded frame.
        frame: FrameId,
        /// Point whose acquire fence is checked.
        acquire_point: u64,
        /// Point to signal.
        release_point: u64,
        /// Release to send.
        message: DenialMessage,
    },
    /// Perform this action.
    Act(EndpointAction),
}

/// Connection, object, descriptor, or explicit-sync failure.
#[derive(Clone, Copy, Debug, PartialEq, Eq)]
pub enum EndpointError {
    /// A non-handshake message arrived before a valid client hello.
    HandshakeRequired,
    /// Client hello was repeated on a live connection.
    RepeatedHandshake,
    /// Client and server version/capability requirements do not intersect.
    IncompatibleClient,
    /// Task-object capacity was reached.
    TaskLimit,
    /// Object, task, or display identity conflicts with a live task.
    DuplicateIdentity,
    /// A task-scoped message named no live object.
    UnknownObject(TaskObjectId),
    /// Destroy was requested while Denial still owns frames.
    TaskBusy(TaskObjectId),
    /// Expected descriptor role was absent after typed packet decoding.
    MissingDescriptor(DescriptorKind),
    /// Release materialization or completion named a frame not pending locally.
    UnknownFrame {
        /// Owning task object.
        object: TaskObjectId,
        /// Frame identity.
        frame: FrameId,
    },
    /// Sequenced-packet transport failed.
    Ipc,
    /// Safe per-task state rejected message ordering or metadata.
    State(TaskStateError),
    /// Linux DRM syncobj operation failed.
    Syncobj,
}

/// Contents of an [`AcceptedWireFrame`].
#[verifier::ext_equal]
pub struct FrameView {
    pub object: TaskObjectId,
    pub frame: FrameId,
    pub buffer: BufferId,
    pub acquire_point: u64,
    pub release_point: u64,
    pub damage: Seq<Damage>,
}

impl View for AcceptedWireFrame {
    type V = FrameView;

    open spec fn view(&self) -> FrameView {
        FrameView {
            object: self.object,
            frame: self.frame,
            buffer: self.buffer,
            acquire_point: self.acquire_point,
            release_point: self.release_point,
            damage: self.damage@,
        }
    }
}

/// Contents of an [`EndpointAction`].
#[verifier::ext_equal]
#[allow(inconsistent_fields)]
pub enum ActionView {
    ClientReady,
    CreateTask { object: TaskObjectId, display: AndroidDisplayId, package: Seq<char> },
    BindTask { object: TaskObjectId, task: AndroidTaskId },
    DestroyTask { object: TaskObjectId },
    TimelinesBound { object: TaskObjectId },
    ConfigureAcknowledged { object: TaskObjectId, serial: u32 },
    RegisterBuffer { object: TaskObjectId, buffer: BufferView },
    UnregisterBuffer { object: TaskObjectId, buffer: BufferId },
    Present { frame: FrameView },
    SupersededPresentDiscarded { object: TaskObjectId, frame: FrameId },
    BindLayerStream { object: TaskObjectId },
    SetContentState { object: TaskObjectId, flags: u32 },
    SetFrameRate { object: TaskObjectId, millihz: u32 },
    RequestActivation { object: TaskObjectId },
    Pong { cookie: u64 },
}

impl View for EndpointAction {
    type V = ActionView;

    open spec fn view(&self) -> ActionView {
        match *self {
            EndpointAction::ClientReady => ActionView::ClientReady,
            EndpointAction::CreateTask { object, display, package } => ActionView::CreateTask {
                object,
                display,
                package: package@,
            },
            EndpointAction::BindTask { object, task } => ActionView::BindTask { object, task },
            EndpointAction::DestroyTask { object } => ActionView::DestroyTask { object },
            EndpointAction::TimelinesBound { object } => ActionView::TimelinesBound { object },
            EndpointAction::ConfigureAcknowledged {
                object,
                serial,
            } => ActionView::ConfigureAcknowledged { object, serial },
            EndpointAction::RegisterBuffer { object, buffer } => ActionView::RegisterBuffer {
                object,
                buffer: buffer@,
            },
            EndpointAction::UnregisterBuffer { object, buffer } => ActionView::UnregisterBuffer {
                object,
                buffer,
            },
            EndpointAction::Present { frame } => ActionView::Present { frame: frame@ },
            EndpointAction::SupersededPresentDiscarded {
                object,
                frame,
            } => ActionView::SupersededPresentDiscarded { object, frame },
            EndpointAction::BindLayerStream { object } => ActionView::BindLayerStream { object },
            EndpointAction::SetContentState { object, flags } => ActionView::SetContentState {
                object,
                flags,
            },
            EndpointAction::SetFrameRate { object, millihz } => ActionView::SetFrameRate {
                object,
                millihz,
            },
            EndpointAction::RequestActivation { object } => ActionView::RequestActivation {
                object,
            },
            EndpointAction::Pong { cookie } => ActionView::Pong { cookie },
        }
    }
}

/// Contents of an [`EndpointStep`].
#[verifier::ext_equal]
pub enum StepView {
    SendHello(DenialView),
    ImportTimelines { object: TaskObjectId },
    ExportAcquireFence(FrameView),
    ReleaseSuperseded {
        object: TaskObjectId,
        frame: FrameId,
        acquire_point: u64,
        release_point: u64,
        message: DenialView,
    },
    Act(ActionView),
}

impl View for EndpointStep {
    type V = StepView;

    open spec fn view(&self) -> StepView {
        match *self {
            EndpointStep::SendHello(message) => StepView::SendHello(message@),
            EndpointStep::ImportTimelines { object } => StepView::ImportTimelines { object },
            EndpointStep::ExportAcquireFence(frame) => StepView::ExportAcquireFence(frame@),
            EndpointStep::ReleaseSuperseded {
                object,
                frame,
                acquire_point,
                release_point,
                message,
            } => StepView::ReleaseSuperseded {
                object,
                frame,
                acquire_point,
                release_point,
                message: message@,
            },
            EndpointStep::Act(action) => StepView::Act(action@),
        }
    }
}

#[derive(Debug)]
struct TaskEndpoint {
    task: Option<AndroidTaskId>,
    display: AndroidDisplayId,
    state: TaskPresentationState,
    timelines: bool,
    pending: BTreeMap<u64, PendingWireFrame>,
    presentation_frames: BTreeSet<u64>,
    retiring: bool,
}

/// Model of one live task object.
#[verifier::ext_equal]
pub struct TaskRecord {
    pub task: Option<AndroidTaskId>,
    pub display: AndroidDisplayId,
    pub state: TaskModel,
    pub timelines: bool,
    /// Frames handed to the compositor.
    pub pending: Map<u64, PendingWireFrame>,
    /// Frames whose presentation time is still wanted.
    pub timed: Set<u64>,
    pub retiring: bool,
}

impl View for TaskEndpoint {
    type V = TaskRecord;

    closed spec fn view(&self) -> TaskRecord {
        TaskRecord {
            task: self.task,
            display: self.display,
            state: self.state@,
            timelines: self.timelines,
            pending: self.pending@,
            timed: self.presentation_frames@,
            retiring: self.retiring,
        }
    }
}

impl TaskRecord {
    /// The invariant of one task: its timelines are there exactly when its
    /// state has them bound, and the compositor holds only frames in flight.
    pub open spec fn wf(self) -> bool {
        &&& self.state.wf()
        &&& self.timelines == self.state.timelines_bound
        &&& forall|frame: u64| #[trigger]
            self.pending.contains_key(frame) ==> self.state.in_flight.contains_key(frame)
                && self.state.in_flight[frame] == self.pending[frame]
        &&& self.timed.finite()
        &&& self.timed.len() <= MAX_TRACKED_FRAMES
    }

    /// Record of a new task.
    pub open spec fn fresh(object: TaskObjectId, display: AndroidDisplayId) -> TaskRecord {
        TaskRecord {
            task: None,
            display,
            state: TaskModel::fresh(object),
            timelines: false,
            pending: Map::empty(),
            timed: Set::empty(),
            retiring: false,
        }
    }
}

/// Model of a [`DenialEndpoint`].
#[verifier::ext_equal]
pub struct EndpointModel {
    pub ready: bool,
    pub activation_requests: bool,
    pub tasks: Map<u64, TaskRecord>,
}

/// Whether the descriptors of a record are all DMA-BUF planes.
pub open spec fn all_planes(descriptors: Seq<DescriptorKind>) -> bool {
    forall|i: int|
        0 <= i < descriptors.len() ==> #[trigger] descriptors[i] == DescriptorKind::DmabufPlane
}

/// Missing timeline descriptor of a record, if any.
pub open spec fn timeline_error(descriptors: Seq<DescriptorKind>) -> Option<EndpointError> {
    if descriptors.len() < 1 || descriptors[0] != DescriptorKind::AcquireTimeline {
        Some(EndpointError::MissingDescriptor(DescriptorKind::AcquireTimeline))
    } else if descriptors.len() < 2 || descriptors[1] != DescriptorKind::ReleaseTimeline {
        Some(EndpointError::MissingDescriptor(DescriptorKind::ReleaseTimeline))
    } else {
        None
    }
}

/// Whether a client speaks this protocol and has every required capability.
pub open spec fn compatible(min_major: u16, max_major: u16, capabilities: u64) -> bool {
    &&& min_major <= PROTOCOL_MAJOR <= max_major
    &&& capabilities & capability::REQUIRED_V1 == capability::REQUIRED_V1
}

/// Hello of a host that does or does not take activation requests.
pub open spec fn server_hello(activation: bool) -> DenialView {
    DenialView::ServerHello {
        major: PROTOCOL_MAJOR,
        minor: if activation {
            PROTOCOL_MINOR
        } else {
            BASE_PROTOCOL_MINOR
        },
        capabilities: if activation {
            capability::REQUIRED_V1 | capability::TASK_ACTIVATION
        } else {
            capability::REQUIRED_V1
        },
        max_task_objects: MAX_TASK_OBJECTS,
        max_buffers_per_task: MAX_BUFFERS_PER_TASK,
        max_damage_rects: MAX_DAMAGE_RECTS as u32,
    }
}

/// Outcome of an operation on per-task state.
pub open spec fn state_error(error: Option<TaskStateError>) -> Option<EndpointError> {
    match error {
        Some(error) => Some(EndpointError::State(error)),
        None => None,
    }
}

/// Contents of an optional message.
pub open spec fn message_view(message: Option<DenialMessage>) -> Option<DenialView> {
    match message {
        Some(message) => Some(message@),
        None => None,
    }
}

/// State and outcome after one record.
pub struct Reduced {
    pub endpoint: EndpointModel,
    pub result: Result<StepView, EndpointError>,
}

impl EndpointModel {
    /// The invariant of every reachable endpoint: at most so many tasks, each
    /// under its own object, with its own display and its own Android task.
    pub open spec fn wf(self) -> bool {
        &&& self.tasks.dom().finite()
        &&& self.tasks.len() <= MAX_TASK_OBJECTS
        &&& forall|key: u64| #[trigger]
            self.tasks.contains_key(key) ==> self.tasks[key].wf()
                && self.tasks[key].state.object.0 == key
        &&& forall|a: u64, b: u64|
            #![trigger self.tasks[a], self.tasks[b]]
            self.tasks.contains_key(a) && self.tasks.contains_key(b) && a != b ==> {
                &&& self.tasks[a].display != self.tasks[b].display
                &&& self.tasks[a].task is Some ==> self.tasks[a].task != self.tasks[b].task
            }
    }

    /// Whether a live task owns a display.
    pub open spec fn owns_display(self, display: AndroidDisplayId) -> bool {
        exists|key: u64| #[trigger]
            self.tasks.contains_key(key) && self.tasks[key].display == display
    }

    /// Whether a live task is bound to an Android task.
    pub open spec fn owns_task(self, task: AndroidTaskId) -> bool {
        exists|key: u64| #[trigger]
            self.tasks.contains_key(key) && self.tasks[key].task == Some(task)
    }

    /// State with one task replaced.
    pub open spec fn with_task(self, object: TaskObjectId, record: TaskRecord) -> EndpointModel {
        EndpointModel { tasks: self.tasks.insert(object.0, record), ..self }
    }

    /// State without one task.
    pub open spec fn without_task(self, object: TaskObjectId) -> EndpointModel {
        EndpointModel { tasks: self.tasks.remove(object.0), ..self }
    }

    /// First reason not to address a task.
    pub open spec fn object_error(self, object: TaskObjectId) -> Option<EndpointError> {
        if self.tasks.contains_key(object.0) {
            None
        } else {
            Some(EndpointError::UnknownObject(object))
        }
    }

    /// State with the presentation state of one task replaced.
    pub open spec fn with_state(self, object: TaskObjectId, state: TaskModel) -> EndpointModel {
        self.with_task(object, TaskRecord { state, ..self.tasks[object.0] })
    }

    /// First reason to refuse a change of a task's presentation state.
    pub open spec fn update_error(
        self,
        object: TaskObjectId,
        error: Option<TaskStateError>,
    ) -> Option<EndpointError> {
        if self.object_error(object) is Some {
            self.object_error(object)
        } else {
            state_error(error)
        }
    }

    /// First reason not to end a frame.
    pub open spec fn pending_error(self, object: TaskObjectId, frame: FrameId) -> Option<
        EndpointError,
    > {
        if self.object_error(object) is Some {
            self.object_error(object)
        } else if !self.tasks[object.0].pending.contains_key(frame.0) {
            Some(EndpointError::UnknownFrame { object, frame })
        } else {
            None
        }
    }

    /// First reason not to complete a frame on the timelines.
    pub open spec fn frame_error(self, object: TaskObjectId, frame: FrameId) -> Option<
        EndpointError,
    > {
        if self.pending_error(object, frame) is Some {
            self.pending_error(object, frame)
        } else if !self.tasks[object.0].timelines {
            Some(EndpointError::State(TaskStateError::TimelinesUnbound))
        } else {
            None
        }
    }

    /// Record after the end of a frame.
    pub open spec fn released_record(self, object: TaskObjectId, frame: FrameId) -> TaskRecord {
        let record = self.tasks[object.0];
        TaskRecord {
            state: record.state.without_frame(frame, record.pending[frame.0].buffer),
            pending: record.pending.remove(frame.0),
            ..record
        }
    }

    /// State after the end of a frame: a retiring task goes with its last one.
    pub open spec fn released(self, object: TaskObjectId, frame: FrameId) -> EndpointModel {
        let record = self.released_record(object, frame);
        if record.retiring && record.state.in_flight.len() == 0 {
            self.without_task(object)
        } else {
            self.with_task(object, record)
        }
    }

    /// Message that confirms the end of a frame.
    pub open spec fn release_message(self, object: TaskObjectId, frame: FrameId) -> Option<
        DenialView,
    > {
        let record = self.tasks[object.0];
        if record.retiring {
            None
        } else {
            Some(
                DenialView::BufferReleased {
                    object,
                    frame,
                    buffer: record.pending[frame.0].buffer,
                    release_point: record.pending[frame.0].release_point,
                },
            )
        }
    }

    /// Nothing changed but for the outcome.
    pub open spec fn kept(self, result: Result<StepView, EndpointError>) -> Reduced {
        Reduced { endpoint: self, result }
    }

    /// An action on a live task that changes no state.
    pub open spec fn forward(self, object: TaskObjectId, action: ActionView) -> Reduced {
        self.kept(
            match self.object_error(object) {
                Some(error) => Err(error),
                None => Ok(StepView::Act(action)),
            },
        )
    }

    /// A change of the presentation state of a live task.
    pub open spec fn change(
        self,
        object: TaskObjectId,
        error: Option<TaskStateError>,
        state: TaskModel,
        action: ActionView,
    ) -> Reduced {
        match self.object_error(object) {
            Some(error) => self.kept(Err(error)),
            None => match error {
                Some(error) => self.kept(Err(EndpointError::State(error))),
                None => Reduced {
                    endpoint: self.with_task(
                        object,
                        TaskRecord { state, ..self.tasks[object.0] },
                    ),
                    result: Ok(StepView::Act(action)),
                },
            },
        }
    }

    /// Reduction of a client hello.
    pub open spec fn hello(self, min_major: u16, max_major: u16, capabilities: u64) -> Reduced {
        if self.ready {
            self.kept(Err(EndpointError::RepeatedHandshake))
        } else if !compatible(min_major, max_major, capabilities) {
            self.kept(Err(EndpointError::IncompatibleClient))
        } else {
            let activation = self.activation_requests && capabilities & capability::TASK_ACTIVATION
                != 0;
            Reduced {
                endpoint: EndpointModel { activation_requests: activation, ..self },
                result: Ok(StepView::SendHello(server_hello(activation))),
            }
        }
    }

    /// Reduction of a task creation.
    pub open spec fn create(
        self,
        object: TaskObjectId,
        display: AndroidDisplayId,
        package: Seq<char>,
    ) -> Reduced {
        if self.tasks.len() >= MAX_TASK_OBJECTS {
            self.kept(Err(EndpointError::TaskLimit))
        } else if self.tasks.contains_key(object.0) || self.owns_display(display) {
            self.kept(Err(EndpointError::DuplicateIdentity))
        } else if object.0 == 0 {
            self.kept(
                Err(
                    EndpointError::State(
                        TaskStateError::Wire(crate::protocol::WireError::InvalidObject),
                    ),
                ),
            )
        } else {
            Reduced {
                endpoint: self.with_task(object, TaskRecord::fresh(object, display)),
                result: Ok(StepView::Act(ActionView::CreateTask { object, display, package })),
            }
        }
    }

    /// Reduction of a task binding.
    pub open spec fn bind(self, object: TaskObjectId, task: AndroidTaskId) -> Reduced {
        if self.owns_task(task) {
            self.kept(Err(EndpointError::DuplicateIdentity))
        } else if self.object_error(object) is Some {
            self.kept(Err(EndpointError::UnknownObject(object)))
        } else if self.tasks[object.0].task is Some {
            self.kept(Err(EndpointError::DuplicateIdentity))
        } else {
            Reduced {
                endpoint: self.with_task(
                    object,
                    TaskRecord { task: Some(task), ..self.tasks[object.0] },
                ),
                result: Ok(StepView::Act(ActionView::BindTask { object, task })),
            }
        }
    }

    /// Reduction of a task destruction: a task with frames in flight retires
    /// when the last of them ends.
    pub open spec fn destroy(self, object: TaskObjectId) -> Reduced {
        if self.object_error(object) is Some {
            self.kept(Err(EndpointError::UnknownObject(object)))
        } else {
            Reduced {
                endpoint: if self.tasks[object.0].state.in_flight.len() == 0 {
                    self.without_task(object)
                } else {
                    self.with_task(
                        object,
                        TaskRecord { retiring: true, ..self.tasks[object.0] },
                    )
                },
                result: Ok(StepView::Act(ActionView::DestroyTask { object })),
            }
        }
    }

    /// Reduction of a present.
    pub open spec fn present(self, request: PresentRequest, damage: Seq<Damage>) -> Reduced {
        let object = request.object;
        let record = self.tasks[object.0];
        if self.object_error(object) is Some {
            self.kept(Err(EndpointError::UnknownObject(object)))
        } else {
            match record.state.present_error(request, damage) {
                None => Reduced {
                    endpoint: self.with_task(
                        object,
                        TaskRecord { state: record.state.with_present(request), ..record },
                    ),
                    result: Ok(
                        StepView::ExportAcquireFence(
                            FrameView {
                                object,
                                frame: request.frame,
                                buffer: request.buffer,
                                acquire_point: request.acquire_point,
                                release_point: request.release_point,
                                damage,
                            },
                        ),
                    ),
                },
                Some(TaskStateError::StaleConfigure {
                    ..
                }) => match record.state.discard_error(request) {
                    Some(error) => self.kept(Err(EndpointError::State(error))),
                    None => Reduced {
                        endpoint: self.with_task(
                            object,
                            TaskRecord { state: record.state.with_discarded(request), ..record },
                        ),
                        result: Ok(
                            StepView::ReleaseSuperseded {
                                object,
                                frame: request.frame,
                                acquire_point: request.acquire_point,
                                release_point: request.release_point,
                                message: DenialView::BufferReleased {
                                    object,
                                    frame: request.frame,
                                    buffer: request.buffer,
                                    release_point: request.release_point,
                                },
                            },
                        ),
                    },
                },
                Some(error) => self.kept(Err(EndpointError::State(error))),
            }
        }
    }

    /// Reduction of one decoded record. `verdict` is what the transport says of
    /// the metadata of a registered buffer.
    pub open spec fn reduce(
        self,
        message: AndroidMessage,
        descriptors: Seq<DescriptorKind>,
        verdict: Result<(), TransportError>,
    ) -> Reduced {
        if !self.ready && !(message is ClientHello) {
            self.kept(Err(EndpointError::HandshakeRequired))
        } else {
            match message {
                AndroidMessage::ClientHello { min_major, max_major, capabilities } => self.hello(
                    min_major,
                    max_major,
                    capabilities,
                ),
                AndroidMessage::CreateTask { object, display, package } => self.create(
                    object,
                    display,
                    package@,
                ),
                AndroidMessage::BindTask { object, task } => self.bind(object, task),
                AndroidMessage::DestroyTask { object } => self.destroy(object),
                AndroidMessage::BindTimelines { object } => self.kept(
                    match timeline_error(descriptors) {
                        Some(error) => Err(error),
                        None => Ok(StepView::ImportTimelines { object }),
                    },
                ),
                AndroidMessage::AckConfigure { object, serial } => self.change(
                    object,
                    self.tasks[object.0].state.acknowledge_error(serial),
                    self.tasks[object.0].state.with_acknowledgement(serial),
                    ActionView::ConfigureAcknowledged { object, serial },
                ),
                AndroidMessage::RegisterBuffer { object, buffer } => if !all_planes(descriptors) {
                    self.kept(Err(EndpointError::MissingDescriptor(DescriptorKind::DmabufPlane)))
                } else {
                    self.change(
                        object,
                        self.tasks[object.0].state.register_error(buffer@, verdict),
                        self.tasks[object.0].state.with_buffer(buffer@),
                        ActionView::RegisterBuffer { object, buffer: buffer@ },
                    )
                },
                AndroidMessage::UnregisterBuffer { object, buffer } => self.change(
                    object,
                    self.tasks[object.0].state.unregister_error(buffer),
                    self.tasks[object.0].state.without_buffer(buffer),
                    ActionView::UnregisterBuffer { object, buffer },
                ),
                AndroidMessage::Present {
                    object,
                    frame,
                    buffer,
                    configure_serial,
                    acquire_point,
                    release_point,
                    damage,
                } => self.present(
                    PresentRequest {
                        object,
                        frame,
                        buffer,
                        configure_serial,
                        acquire_point,
                        release_point,
                    },
                    damage@,
                ),
                AndroidMessage::BindLayerStream { object } => self.forward(
                    object,
                    ActionView::BindLayerStream { object },
                ),
                AndroidMessage::SetContentState { object, flags } => self.forward(
                    object,
                    ActionView::SetContentState { object, flags },
                ),
                AndroidMessage::SetFrameRate { object, millihz } => self.forward(
                    object,
                    ActionView::SetFrameRate { object, millihz },
                ),
                AndroidMessage::RequestActivation { object } => self.kept(
                    if !self.activation_requests {
                        Err(EndpointError::IncompatibleClient)
                    } else if self.object_error(object) is Some || self.tasks[object.0].task is None {
                        Err(EndpointError::UnknownObject(object))
                    } else {
                        Ok(StepView::Act(ActionView::RequestActivation { object }))
                    },
                ),
                AndroidMessage::Pong { cookie } => self.kept(
                    Ok(StepView::Act(ActionView::Pong { cookie })),
                ),
            }
        }
    }
}

/// One Denial-owned protocol connection and all of its native task state.
#[derive(Debug)]
pub struct DenialEndpoint {
    ready: bool,
    activation_requests: bool,
    tasks: BTreeMap<u64, TaskEndpoint>,
}

impl View for DenialEndpoint {
    type V = EndpointModel;

    closed spec fn view(&self) -> EndpointModel {
        EndpointModel {
            ready: self.ready,
            activation_requests: self.activation_requests,
            tasks: self.tasks@.map_values(|task: TaskEndpoint| task@),
        }
    }
}

/// A change that keeps a task's display and Android task, and its own
/// invariant, keeps the invariant of the endpoint.
proof fn lemma_task_change(model: EndpointModel, object: TaskObjectId, record: TaskRecord)
    requires
        model.wf(),
        model.tasks.contains_key(object.0),
        record.wf(),
        record.state.object == object,
        record.display == model.tasks[object.0].display,
        record.task == model.tasks[object.0].task || (record.task is Some && !model.owns_task(
            record.task->0,
        )),
    ensures
        model.with_task(object, record).wf(),
{
    let after = model.with_task(object, record);
    assert(after.tasks.dom() =~= model.tasks.dom());
    assert forall|a: u64, b: u64|
        #![trigger after.tasks[a], after.tasks[b]]
        after.tasks.contains_key(a) && after.tasks.contains_key(b) && a != b implies {
        &&& after.tasks[a].display != after.tasks[b].display
        &&& after.tasks[a].task is Some ==> after.tasks[a].task != after.tasks[b].task
    } by {
        assert(model.tasks.contains_key(a) && model.tasks.contains_key(b));
        assert(model.tasks[a].display != model.tasks[b].display);
        assert(model.tasks[b].task is Some ==> model.tasks[b].task != model.tasks[a].task);
    }
}

/// Without one of its tasks an endpoint keeps its invariant.
proof fn lemma_task_removal(model: EndpointModel, object: TaskObjectId)
    requires
        model.wf(),
    ensures
        model.without_task(object).wf(),
{
    let after = model.without_task(object);
    assert forall|key: u64| #[trigger] after.tasks.contains_key(key) implies after.tasks[key].wf()
        && after.tasks[key].state.object.0 == key by {
        assert(model.tasks.contains_key(key));
    }
    assert forall|a: u64, b: u64|
        #![trigger after.tasks[a], after.tasks[b]]
        after.tasks.contains_key(a) && after.tasks.contains_key(b) && a != b implies {
        &&& after.tasks[a].display != after.tasks[b].display
        &&& after.tasks[a].task is Some ==> after.tasks[a].task != after.tasks[b].task
    } by {
        assert(model.tasks[a].display != model.tasks[b].display);
        assert(model.tasks[a] == after.tasks[a] && model.tasks[b] == after.tasks[b]);
    }
    if model.tasks.contains_key(object.0) {
        vstd::set::axiom_set_remove_len(model.tasks.dom(), object.0);
    } else {
        assert(after.tasks =~= model.tasks);
    }
}

/// To put back the same record changes nothing.
proof fn lemma_same_task(model: EndpointModel, object: TaskObjectId)
    requires
        model.tasks.contains_key(object.0),
    ensures
        model.with_task(object, model.tasks[object.0]) == model,
{
    assert(model.with_task(object, model.tasks[object.0]).tasks =~= model.tasks);
}

/// The release of a frame keeps the invariant of its task.
proof fn lemma_release(record: TaskRecord, frame: FrameId, buffer: BufferId)
    requires
        record.wf(),
        record.state.in_flight.contains_key(frame.0),
        record.state.in_flight[frame.0].buffer == buffer,
        record.state.without_frame(frame, buffer).wf(),
    ensures
        (TaskRecord {
            state: record.state.without_frame(frame, buffer),
            pending: record.pending.remove(frame.0),
            ..record
        }).wf(),
        !record.pending.contains_key(frame.0) ==> (TaskRecord {
            state: record.state.without_frame(frame, buffer),
            ..record
        }).wf(),
{
}

impl DenialEndpoint {
    /// Endpoint of a peer that the listener has authenticated. The first
    /// accepted record must still be a client hello.
    pub fn new() -> (endpoint: DenialEndpoint)
        ensures
            endpoint@.wf(),
            endpoint@ == (EndpointModel {
                ready: false,
                activation_requests: false,
                tasks: Map::empty(),
            }),
    {
        let endpoint = DenialEndpoint {
            ready: false,
            activation_requests: false,
            tasks: BTreeMap::new(),
        };
        assert(endpoint@.tasks =~= Map::empty());
        endpoint
    }

    /// Whether the handshake is done.
    pub fn is_ready(&self) -> (ready: bool)
        ensures
            ready == self@.ready,
    {
        self.ready
    }

    /// Opt in only when the host implements activation under its focus policy,
    /// before the handshake.
    pub fn with_activation_requests(self) -> (endpoint: DenialEndpoint)
        requires
            self@.wf(),
            !self@.ready,
        ensures
            endpoint@.wf(),
            endpoint@ == (EndpointModel { activation_requests: true, ..self@ }),
    {
        DenialEndpoint { activation_requests: true, ..self }
    }

    /// Validate and reduce exactly one Android record to a host step.
    ///
    /// `descriptors` are the roles of the descriptors that came with it, and
    /// `verdict` is what the transport says of the metadata of a registered
    /// buffer; no other record reads it. After an error the host should send a
    /// bounded fatal error when possible and close the connection.
    pub fn receive_action(
        &mut self,
        message: AndroidMessage,
        descriptors: &Vec<DescriptorKind>,
        verdict: Result<(), TransportError>,
    ) -> (result: Result<EndpointStep, EndpointError>)
        requires
            old(self)@.wf(),
        ensures
            final(self)@.wf(),
            ({
                let reduced = old(self)@.reduce(message, descriptors@, verdict);
                &&& final(self)@ == reduced.endpoint
                &&& match result {
                    Ok(step) => reduced.result == Ok::<StepView, EndpointError>(step@),
                    Err(error) => reduced.result == Err::<StepView, EndpointError>(error),
                }
            }),
    {
        let greeting: bool = matches!(message, AndroidMessage::ClientHello { .. });
        if !self.ready && !greeting {
            return Err(EndpointError::HandshakeRequired);
        }
        match message {
            AndroidMessage::ClientHello {
                min_major,
                max_major,
                capabilities,
            } => self.client_hello(min_major, max_major, capabilities),
            AndroidMessage::CreateTask { object, display, package } => self.create_task(
                object,
                display,
                package,
            ),
            AndroidMessage::BindTask { object, task } => self.bind_task(object, task),
            AndroidMessage::DestroyTask { object } => self.destroy_task(object),
            AndroidMessage::BindTimelines { object } => {
                require_timelines(descriptors)?;
                Ok(EndpointStep::ImportTimelines { object })
            },
            AndroidMessage::AckConfigure { object, serial } => {
                proof {
                    if self@.tasks.contains_key(object.0) {
                        assert(self@.tasks[object.0].wf());
                    }
                }
                let task = self.task_mut(object)?;
                let result = task.state.acknowledge_configure(serial);
                let ghost after = task@;
                proof {
                    lemma_task_change(old(self)@, object, after);
                    lemma_same_task(old(self)@, object);
                }
                match result {
                    Ok(()) => Ok(
                        EndpointStep::Act(
                            EndpointAction::ConfigureAcknowledged { object, serial },
                        ),
                    ),
                    Err(error) => Err(EndpointError::State(error)),
                }
            },
            AndroidMessage::RegisterBuffer { object, buffer } => {
                require_planes(descriptors)?;
                let copy = buffer.duplicate();
                self.register(object, copy, verdict)?;
                Ok(EndpointStep::Act(EndpointAction::RegisterBuffer { object, buffer }))
            },
            AndroidMessage::UnregisterBuffer { object, buffer } => {
                self.unregister(object, buffer)?;
                Ok(EndpointStep::Act(EndpointAction::UnregisterBuffer { object, buffer }))
            },
            AndroidMessage::Present {
                object,
                frame,
                buffer,
                configure_serial,
                acquire_point,
                release_point,
                damage,
            } => self.present(
                PresentRequest {
                    object,
                    frame,
                    buffer,
                    configure_serial,
                    acquire_point,
                    release_point,
                },
                damage,
            ),
            AndroidMessage::BindLayerStream { object } => {
                self.require_task(object)?;
                Ok(EndpointStep::Act(EndpointAction::BindLayerStream { object }))
            },
            AndroidMessage::SetContentState { object, flags } => {
                self.require_task(object)?;
                Ok(EndpointStep::Act(EndpointAction::SetContentState { object, flags }))
            },
            AndroidMessage::SetFrameRate { object, millihz } => {
                self.require_task(object)?;
                Ok(EndpointStep::Act(EndpointAction::SetFrameRate { object, millihz }))
            },
            AndroidMessage::RequestActivation { object } => {
                if !self.activation_requests {
                    return Err(EndpointError::IncompatibleClient);
                }
                let bound: bool = match self.tasks.get(&object.0) {
                    Some(task) => task.task.is_some(),
                    None => false,
                };
                if !bound {
                    return Err(EndpointError::UnknownObject(object));
                }
                Ok(EndpointStep::Act(EndpointAction::RequestActivation { object }))
            },
            AndroidMessage::Pong { cookie } => Ok(
                EndpointStep::Act(EndpointAction::Pong { cookie }),
            ),
        }
    }

    fn client_hello(&mut self, min_major: u16, max_major: u16, capabilities: u64) -> (result: Result<
        EndpointStep,
        EndpointError,
    >)
        requires
            old(self)@.wf(),
        ensures
            final(self)@.wf(),
            ({
                let reduced = old(self)@.hello(min_major, max_major, capabilities);
                &&& final(self)@ == reduced.endpoint
                &&& match result {
                    Ok(step) => reduced.result == Ok::<StepView, EndpointError>(step@),
                    Err(error) => reduced.result == Err::<StepView, EndpointError>(error),
                }
            }),
    {
        if self.ready {
            return Err(EndpointError::RepeatedHandshake);
        }
        if min_major > PROTOCOL_MAJOR || max_major < PROTOCOL_MAJOR || capabilities
            & capability::REQUIRED_V1 != capability::REQUIRED_V1 {
            return Err(EndpointError::IncompatibleClient);
        }
        let activation: bool = self.activation_requests && capabilities
            & capability::TASK_ACTIVATION != 0;
        self.activation_requests = activation;
        Ok(
            EndpointStep::SendHello(
                DenialMessage::ServerHello {
                    major: PROTOCOL_MAJOR,
                    minor: if activation {
                        PROTOCOL_MINOR
                    } else {
                        BASE_PROTOCOL_MINOR
                    },
                    capabilities: if activation {
                        capability::REQUIRED_V1 | capability::TASK_ACTIVATION
                    } else {
                        capability::REQUIRED_V1
                    },
                    max_task_objects: MAX_TASK_OBJECTS,
                    max_buffers_per_task: MAX_BUFFERS_PER_TASK,
                    max_damage_rects: MAX_DAMAGE_RECTS as u32,
                },
            ),
        )
    }

    /// The hello was sent: the connection is ready for task messages.
    pub fn hello_sent(&mut self) -> (action: EndpointAction)
        requires
            old(self)@.wf(),
        ensures
            final(self)@.wf(),
            final(self)@ == (EndpointModel { ready: true, ..old(self)@ }),
            action@ == ActionView::ClientReady,
    {
        self.ready = true;
        EndpointAction::ClientReady
    }

    fn create_task(
        &mut self,
        object: TaskObjectId,
        display: AndroidDisplayId,
        package: String,
    ) -> (result: Result<EndpointStep, EndpointError>)
        requires
            old(self)@.wf(),
        ensures
            final(self)@.wf(),
            ({
                let reduced = old(self)@.create(object, display, package@);
                &&& final(self)@ == reduced.endpoint
                &&& match result {
                    Ok(step) => reduced.result == Ok::<StepView, EndpointError>(step@),
                    Err(error) => reduced.result == Err::<StepView, EndpointError>(error),
                }
            }),
    {
        assert(self.tasks@.dom() =~= self@.tasks.dom());
        if self.tasks.len() >= MAX_TASK_OBJECTS as usize {
            return Err(EndpointError::TaskLimit);
        }
        if self.tasks.contains_key(&object.0) || self.display_is_live(display) {
            return Err(EndpointError::DuplicateIdentity);
        }
        let state = match TaskPresentationState::new(object) {
            Ok(state) => state,
            Err(error) => {
                return Err(EndpointError::State(error));
            },
        };
        let task = TaskEndpoint {
            task: None,
            display,
            state,
            timelines: false,
            pending: BTreeMap::new(),
            presentation_frames: BTreeSet::new(),
            retiring: false,
        };
        let ghost record = task@;
        self.tasks.insert(object.0, task);
        proof {
            assert(record =~= TaskRecord::fresh(object, display));
            let (before, after) = (old(self)@, self@);
            assert(after =~= before.with_task(object, record));
            assert forall|a: u64, b: u64|
                #![trigger after.tasks[a], after.tasks[b]]
                after.tasks.contains_key(a) && after.tasks.contains_key(b) && a != b implies {
                &&& after.tasks[a].display != after.tasks[b].display
                &&& after.tasks[a].task is Some ==> after.tasks[a].task != after.tasks[b].task
            } by {
                assert(a != object.0 ==> before.tasks.contains_key(a));
                assert(b != object.0 ==> before.tasks.contains_key(b));
                assert(before.tasks[a].display == before.tasks[a].display);
                assert(before.tasks[b].display == before.tasks[b].display);
            }
        }
        Ok(EndpointStep::Act(EndpointAction::CreateTask { object, display, package }))
    }

    fn display_is_live(&self, display: AndroidDisplayId) -> (live: bool)
        ensures
            live == self@.owns_display(display),
    {
        let keys = ordered_keys(&self.tasks);
        let mut index: usize = 0;
        while index < keys.len()
            invariant
                index <= keys@.len(),
                lists(keys@, self.tasks@.dom()),
                forall|i: int|
                    0 <= i < index ==> self.tasks@[#[trigger] keys@[i]].display != display,
            decreases keys@.len() - index,
        {
            let key: u64 = keys[index];
            proof {
                assert(keys@.contains(key));
                assert(self.tasks@.dom().contains(key));
            }
            if let Some(task) = self.tasks.get(&key) {
                if task.display == display {
                    assert(self@.tasks.contains_key(key));
                    assert(self@.tasks[key].display == display);
                    return true;
                }
            }
            index = index + 1;
        }
        proof {
            assert forall|key: u64| #[trigger]
                self@.tasks.contains_key(key) implies self@.tasks[key].display != display by {
                assert(self.tasks@.dom().contains(key));
                let i = choose|i: int| 0 <= i < keys@.len() && keys@[i] == key;
                assert(self.tasks@[keys@[i]].display != display);
            }
        }
        false
    }

    fn task_is_live(&self, task: AndroidTaskId) -> (live: bool)
        ensures
            live == self@.owns_task(task),
    {
        let keys = ordered_keys(&self.tasks);
        let mut index: usize = 0;
        while index < keys.len()
            invariant
                index <= keys@.len(),
                lists(keys@, self.tasks@.dom()),
                forall|i: int|
                    0 <= i < index ==> self.tasks@[#[trigger] keys@[i]].task != Some(task),
            decreases keys@.len() - index,
        {
            let key: u64 = keys[index];
            proof {
                assert(keys@.contains(key));
                assert(self.tasks@.dom().contains(key));
            }
            if let Some(live) = self.tasks.get(&key) {
                if let Some(bound) = live.task {
                    if bound == task {
                        assert(self@.tasks.contains_key(key));
                        assert(self@.tasks[key].task == Some(task));
                        return true;
                    }
                }
            }
            index = index + 1;
        }
        proof {
            assert forall|key: u64| #[trigger]
                self@.tasks.contains_key(key) implies self@.tasks[key].task != Some(task) by {
                assert(self.tasks@.dom().contains(key));
                let i = choose|i: int| 0 <= i < keys@.len() && keys@[i] == key;
                assert(self.tasks@[keys@[i]].task != Some(task));
            }
        }
        false
    }

    fn bind_task(&mut self, object: TaskObjectId, task: AndroidTaskId) -> (result: Result<
        EndpointStep,
        EndpointError,
    >)
        requires
            old(self)@.wf(),
        ensures
            final(self)@.wf(),
            ({
                let reduced = old(self)@.bind(object, task);
                &&& final(self)@ == reduced.endpoint
                &&& match result {
                    Ok(step) => reduced.result == Ok::<StepView, EndpointError>(step@),
                    Err(error) => reduced.result == Err::<StepView, EndpointError>(error),
                }
            }),
    {
        if self.task_is_live(task) {
            return Err(EndpointError::DuplicateIdentity);
        }
        let endpoint = self.task_mut(object)?;
        let fresh: bool = endpoint.task.is_none();
        if fresh {
            endpoint.task = Some(task);
        }
        let ghost after = endpoint@;
        proof {
            lemma_same_task(old(self)@, object);
            lemma_task_change(old(self)@, object, after);
        }
        if !fresh {
            return Err(EndpointError::DuplicateIdentity);
        }
        Ok(EndpointStep::Act(EndpointAction::BindTask { object, task }))
    }

    fn destroy_task(&mut self, object: TaskObjectId) -> (result: Result<EndpointStep, EndpointError>)
        requires
            old(self)@.wf(),
        ensures
            final(self)@.wf(),
            ({
                let reduced = old(self)@.destroy(object);
                &&& final(self)@ == reduced.endpoint
                &&& match result {
                    Ok(step) => reduced.result == Ok::<StepView, EndpointError>(step@),
                    Err(error) => reduced.result == Err::<StepView, EndpointError>(error),
                }
            }),
    {
        let task = self.task_mut(object)?;
        task.retiring = true;
        let idle: bool = task.state.in_flight_count() == 0;
        let ghost after = task@;
        proof {
            lemma_task_change(old(self)@, object, after);
            lemma_task_removal(old(self)@, object);
        }
        let ghost marked = self@;
        if idle {
            self.tasks.remove(&object.0);
            proof {
                assert(self@.tasks =~= marked.tasks.remove(object.0));
                assert(self@ =~= old(self)@.without_task(object));
            }
        }
        Ok(EndpointStep::Act(EndpointAction::DestroyTask { object }))
    }

    /// Bind the timelines of a record after the adapter imported them.
    pub fn timelines_imported(&mut self, object: TaskObjectId, imported: bool) -> (result: Result<
        EndpointAction,
        EndpointError,
    >)
        requires
            old(self)@.wf(),
        ensures
            final(self)@.wf(),
            match result {
                Ok(action) => {
                    &&& imported
                    &&& old(self)@.object_error(object) is None
                    &&& !old(self)@.tasks[object.0].timelines
                    &&& action@ == (ActionView::TimelinesBound { object })
                    &&& final(self)@ == old(self)@.with_task(
                        object,
                        TaskRecord {
                            state: TaskModel {
                                timelines_bound: true,
                                ..old(self)@.tasks[object.0].state
                            },
                            timelines: true,
                            ..old(self)@.tasks[object.0]
                        },
                    )
                },
                Err(error) => {
                    &&& error == (if !imported {
                        EndpointError::Syncobj
                    } else if old(self)@.object_error(object) is Some {
                        EndpointError::UnknownObject(object)
                    } else {
                        EndpointError::State(TaskStateError::TimelinesAlreadyBound)
                    })
                    &&& imported && old(self)@.object_error(object) is None ==> old(
                        self,
                    )@.tasks[object.0].timelines
                    &&& final(self)@ == old(self)@
                },
            },
    {
        if !imported {
            return Err(EndpointError::Syncobj);
        }
        let task = self.task_mut(object)?;
        let result = task.state.bind_timelines();
        if result.is_ok() {
            task.timelines = true;
        }
        let ghost after = task@;
        proof {
            lemma_same_task(old(self)@, object);
            lemma_task_change(old(self)@, object, after);
        }
        match result {
            Ok(()) => Ok(EndpointAction::TimelinesBound { object }),
            Err(error) => Err(EndpointError::State(error)),
        }
    }

    fn register(
        &mut self,
        object: TaskObjectId,
        buffer: BufferMetadata,
        verdict: Result<(), TransportError>,
    ) -> (result: Result<(), EndpointError>)
        requires
            old(self)@.wf(),
        ensures
            final(self)@.wf(),
            ({
                let reduced = old(self)@.change(
                    object,
                    old(self)@.tasks[object.0].state.register_error(buffer@, verdict),
                    old(self)@.tasks[object.0].state.with_buffer(buffer@),
                    ActionView::RegisterBuffer { object, buffer: buffer@ },
                );
                &&& final(self)@ == reduced.endpoint
                &&& match result {
                    Ok(_) => reduced.result is Ok,
                    Err(error) => reduced.result == Err::<StepView, EndpointError>(error),
                }
            }),
    {
        let task = self.task_mut(object)?;
        let result = task.state.register_buffer(buffer, verdict);
        let ghost after = task@;
        proof {
            lemma_same_task(old(self)@, object);
            lemma_task_change(old(self)@, object, after);
        }
        match result {
            Ok(()) => Ok(()),
            Err(error) => Err(EndpointError::State(error)),
        }
    }

    fn unregister(&mut self, object: TaskObjectId, buffer: BufferId) -> (result: Result<
        BufferMetadata,
        EndpointError,
    >)
        requires
            old(self)@.wf(),
        ensures
            final(self)@.wf(),
            ({
                let reduced = old(self)@.change(
                    object,
                    old(self)@.tasks[object.0].state.unregister_error(buffer),
                    old(self)@.tasks[object.0].state.without_buffer(buffer),
                    ActionView::UnregisterBuffer { object, buffer },
                );
                &&& final(self)@ == reduced.endpoint
                &&& match result {
                    Ok(metadata) => reduced.result is Ok && metadata@ == old(
                        self,
                    )@.tasks[object.0].state.buffers[buffer.0],
                    Err(error) => reduced.result == Err::<StepView, EndpointError>(error),
                }
            }),
    {
        let task = self.task_mut(object)?;
        let result = task.state.unregister_buffer(buffer);
        let ghost after = task@;
        proof {
            lemma_same_task(old(self)@, object);
            lemma_task_change(old(self)@, object, after);
        }
        match result {
            Ok(metadata) => Ok(metadata),
            Err(error) => Err(EndpointError::State(error)),
        }
    }

    fn present(&mut self, request: PresentRequest, damage: Vec<Damage>) -> (result: Result<
        EndpointStep,
        EndpointError,
    >)
        requires
            old(self)@.wf(),
        ensures
            final(self)@.wf(),
            ({
                let reduced = old(self)@.present(request, damage@);
                &&& final(self)@ == reduced.endpoint
                &&& match result {
                    Ok(step) => reduced.result == Ok::<StepView, EndpointError>(step@),
                    Err(error) => reduced.result == Err::<StepView, EndpointError>(error),
                }
            }),
    {
        let object = request.object;
        let ghost wanted = damage@;
        let task = self.task_mut(object)?;
        let ghost before = task@;
        let accepted = task.state.present(
            object,
            request.frame,
            request.buffer,
            request.configure_serial,
            request.acquire_point,
            request.release_point,
            damage,
        );
        let result: Result<EndpointStep, EndpointError> = match accepted {
            Ok(accepted) => {
                assert(accepted@.damage == wanted);
                Ok(EndpointStep::ExportAcquireFence(accepted))
            },
            Err(TaskStateError::StaleConfigure { .. }) => {
                match task.state.discard_superseded_present(
                    object,
                    request.frame,
                    request.buffer,
                    request.configure_serial,
                    request.acquire_point,
                    request.release_point,
                ) {
                    Ok(message) => Ok(
                        EndpointStep::ReleaseSuperseded {
                            object,
                            frame: request.frame,
                            acquire_point: request.acquire_point,
                            release_point: request.release_point,
                            message,
                        },
                    ),
                    Err(error) => Err(EndpointError::State(error)),
                }
            },
            Err(error) => Err(EndpointError::State(error)),
        };
        let ghost after = task@;
        proof {
            assert(after =~= (TaskRecord { state: after.state, ..before }));
            assert(after.wf());
            lemma_same_task(old(self)@, object);
            lemma_task_change(old(self)@, object, after);
        }
        result
    }

    /// Hand a frame on after the adapter exported its acquire fence, or take it
    /// back where it could not.
    pub fn finish_present(&mut self, accepted: AcceptedWireFrame, exported: bool) -> (result: Result<
        EndpointAction,
        EndpointError,
    >)
        requires
            old(self)@.wf(),
        ensures
            final(self)@.wf(),
            ({
                let object = accepted.object;
                let record = old(self)@.tasks[object.0];
                let held = PendingWireFrame {
                    buffer: accepted.buffer,
                    release_point: accepted.release_point,
                };
                let error = record.state.release_error(
                    accepted.frame,
                    accepted.buffer,
                    accepted.release_point,
                );
                match result {
                    Ok(action) => {
                        &&& exported
                        &&& old(self)@.object_error(object) is None
                        &&& error is None
                        &&& action@ == (ActionView::Present { frame: accepted@ })
                        &&& final(self)@ == old(self)@.with_task(
                            object,
                            TaskRecord {
                                pending: record.pending.insert(accepted.frame.0, held),
                                ..record
                            },
                        )
                    },
                    Err(reason) => if old(self)@.object_error(object) is Some {
                        &&& reason == EndpointError::UnknownObject(object)
                        &&& final(self)@ == old(self)@
                    } else if error is Some {
                        &&& reason == EndpointError::State(error->0)
                        &&& final(self)@ == old(self)@
                    } else {
                        &&& !exported
                        &&& reason == EndpointError::Syncobj
                        &&& final(self)@ == old(self)@.with_task(
                            object,
                            TaskRecord {
                                state: record.state.without_frame(accepted.frame, accepted.buffer),
                                pending: record.pending.remove(accepted.frame.0),
                                ..record
                            },
                        )
                    },
                }
            }),
    {
        let object = accepted.object;
        let held = PendingWireFrame {
            buffer: accepted.buffer,
            release_point: accepted.release_point,
        };
        let task = self.task_mut(object)?;
        let ghost before = task@;
        let result: Result<(), EndpointError> = if exported {
            match task.state.check_in_flight(
                accepted.frame,
                accepted.buffer,
                accepted.release_point,
            ) {
                Ok(()) => {
                    task.pending.insert(accepted.frame.0, held);
                    Ok(())
                },
                Err(error) => Err(EndpointError::State(error)),
            }
        } else {
            match task.state.cancel_unsubmitted(
                accepted.frame,
                accepted.buffer,
                accepted.release_point,
            ) {
                Ok(()) => {
                    task.pending.remove(&accepted.frame.0);
                    Err(EndpointError::Syncobj)
                },
                Err(error) => Err(EndpointError::State(error)),
            }
        };
        let ghost after = task@;
        proof {
            assert(after.wf());
            lemma_same_task(old(self)@, object);
            lemma_task_change(old(self)@, object, after);
        }
        match result {
            Ok(()) => Ok(EndpointAction::Present { frame: accepted }),
            Err(error) => Err(error),
        }
    }

    /// Publish authoritative DMA-BUF feedback for one native task: the message
    /// to send.
    pub fn send_format_feedback(
        &mut self,
        object: TaskObjectId,
        generation: u32,
        formats: Vec<FormatModifier>,
    ) -> (result: Result<DenialMessage, EndpointError>)
        requires
            old(self)@.wf(),
        ensures
            final(self)@.wf(),
            match old(self)@.update_error(
                object,
                old(self)@.tasks[object.0].state.feedback_error(generation, formats@),
            ) {
                Some(error) => {
                    &&& result == Err::<DenialMessage, EndpointError>(error)
                    &&& final(self)@ == old(self)@
                },
                None => {
                    &&& result is Ok
                    &&& result->Ok_0@ == (DenialView::FormatFeedback {
                        object,
                        generation,
                        formats: formats@,
                    })
                    &&& final(self)@ == old(self)@.with_state(
                        object,
                        old(self)@.tasks[object.0].state.with_feedback(generation, formats@),
                    )
                },
            },
    {
        let copy = formats.clone();
        assert(copy@ =~= formats@);
        let task = self.task_mut(object)?;
        let ghost before = task@;
        let result = task.state.replace_feedback(generation, copy);
        let ghost after = task@;
        proof {
            assert(after.state.in_flight == before.state.in_flight);
            assert(after.timelines == after.state.timelines_bound);
            assert(after.timed.finite() && after.timed.len() <= MAX_TRACKED_FRAMES);
            assert(after.pending == before.pending);
            assert(after.state.wf());
            assert(after.wf());
            lemma_same_task(old(self)@, object);
            lemma_task_change(old(self)@, object, after);
        }
        match result {
            Ok(()) => Ok(DenialMessage::FormatFeedback { object, generation, formats }),
            Err(error) => Err(EndpointError::State(error)),
        }
    }

    /// Lend one Denial-owned render target and its plane descriptors to a task:
    /// the message to send with the planes.
    ///
    /// The target is reserved in the same release-before-reuse state machine
    /// that presents use. Where the send fails,
    /// [`DenialEndpoint::withdraw_render_target`] takes the reservation back.
    pub fn register_render_target(
        &mut self,
        object: TaskObjectId,
        configure_serial: u32,
        buffer: &BufferMetadata,
        verdict: Result<(), TransportError>,
    ) -> (result: Result<DenialMessage, EndpointError>)
        requires
            old(self)@.wf(),
        ensures
            final(self)@.wf(),
            match old(self)@.update_error(
                object,
                old(self)@.tasks[object.0].state.register_error(buffer@, verdict),
            ) {
                Some(error) => {
                    &&& result == Err::<DenialMessage, EndpointError>(error)
                    &&& final(self)@ == old(self)@
                },
                None => {
                    &&& result is Ok
                    &&& result->Ok_0@ == (DenialView::RegisterRenderTarget {
                        object,
                        configure_serial,
                        buffer: buffer@,
                    })
                    &&& final(self)@ == old(self)@.with_state(
                        object,
                        old(self)@.tasks[object.0].state.with_buffer(buffer@),
                    )
                },
            },
    {
        self.register(object, buffer.duplicate(), verdict)?;
        Ok(
            DenialMessage::RegisterRenderTarget {
                object,
                configure_serial,
                buffer: buffer.duplicate(),
            },
        )
    }

    /// Take back a render target whose registration could not be sent.
    pub fn withdraw_render_target(&mut self, object: TaskObjectId, buffer: BufferId)
        requires
            old(self)@.wf(),
        ensures
            final(self)@.wf(),
            final(self)@ == (if old(self)@.update_error(
                object,
                old(self)@.tasks[object.0].state.unregister_error(buffer),
            ) is None {
                old(self)@.with_state(
                    object,
                    old(self)@.tasks[object.0].state.without_buffer(buffer),
                )
            } else {
                old(self)@
            }),
    {
        match self.unregister(object, buffer) {
            Ok(_) => {},
            Err(_) => {},
        }
    }

    /// Revoke one idle Denial-owned render target from a task: the message to
    /// send, and the registration to restore with
    /// [`DenialEndpoint::restore_render_target`] where the send fails.
    pub fn unregister_render_target(&mut self, object: TaskObjectId, buffer: BufferId) -> (result:
        Result<(DenialMessage, BufferMetadata), EndpointError>)
        requires
            old(self)@.wf(),
        ensures
            final(self)@.wf(),
            match old(self)@.update_error(
                object,
                old(self)@.tasks[object.0].state.unregister_error(buffer),
            ) {
                Some(error) => {
                    &&& result == Err::<(DenialMessage, BufferMetadata), EndpointError>(error)
                    &&& final(self)@ == old(self)@
                },
                None => {
                    &&& result is Ok
                    &&& result->Ok_0.0@ == (DenialView::UnregisterRenderTarget { object, buffer })
                    &&& result->Ok_0.1@ == old(self)@.tasks[object.0].state.buffers[buffer.0]
                    &&& final(self)@ == old(self)@.with_state(
                        object,
                        old(self)@.tasks[object.0].state.without_buffer(buffer),
                    )
                },
            },
    {
        let metadata = self.unregister(object, buffer)?;
        Ok((DenialMessage::UnregisterRenderTarget { object, buffer }, metadata))
    }

    /// Restore a render target whose revocation could not be sent.
    pub fn restore_render_target(
        &mut self,
        object: TaskObjectId,
        metadata: BufferMetadata,
        verdict: Result<(), TransportError>,
    ) -> (result: Result<(), EndpointError>)
        requires
            old(self)@.wf(),
        ensures
            final(self)@.wf(),
            match old(self)@.update_error(
                object,
                old(self)@.tasks[object.0].state.register_error(metadata@, verdict),
            ) {
                Some(error) => {
                    &&& result == Err::<(), EndpointError>(error)
                    &&& final(self)@ == old(self)@
                },
                None => {
                    &&& result == Ok::<(), EndpointError>(())
                    &&& final(self)@ == old(self)@.with_state(
                        object,
                        old(self)@.tasks[object.0].state.with_buffer(metadata@),
                    )
                },
            },
    {
        match self.register(object, metadata, verdict) {
            Ok(()) => Ok(()),
            Err(error) => Err(error),
        }
    }

    /// Configure one native task window and invalidate an older
    /// acknowledgement: the message to send.
    pub fn send_configure(
        &mut self,
        object: TaskObjectId,
        serial: u32,
        width: u32,
        height: u32,
        scale_numerator: u32,
        scale_denominator: u32,
        transform: Transform,
        refresh_millihz: u32,
    ) -> (result: Result<DenialMessage, EndpointError>)
        requires
            old(self)@.wf(),
        ensures
            final(self)@.wf(),
            match old(self)@.update_error(
                object,
                match configure_error(serial, width, height, 1, 1, refresh_millihz) {
                    Some(error) => Some(TaskStateError::Wire(error)),
                    None => None,
                },
            ) {
                Some(error) => {
                    &&& result == Err::<DenialMessage, EndpointError>(error)
                    &&& final(self)@ == old(self)@
                },
                None => {
                    &&& result is Ok
                    &&& result->Ok_0@ == (DenialView::Configure {
                        object,
                        serial,
                        width,
                        height,
                        scale_numerator,
                        scale_denominator,
                        transform,
                        refresh_millihz,
                    })
                    &&& final(self)@ == old(self)@.with_state(
                        object,
                        old(self)@.tasks[object.0].state.with_configure(serial, width, height),
                    )
                },
            },
    {
        let task = self.task_mut(object)?;
        let ghost before = task@;
        let result = task.state.configure(serial, width, height, refresh_millihz);
        let ghost after = task@;
        proof {
            assert(after.state.in_flight == before.state.in_flight);
            assert(after.timelines == after.state.timelines_bound);
            assert(after.timed.finite() && after.timed.len() <= MAX_TRACKED_FRAMES);
            assert(after.pending == before.pending);
            assert(after.state.wf());
            assert(after.wf());
            lemma_same_task(old(self)@, object);
            lemma_task_change(old(self)@, object, after);
        }
        match result {
            Ok(()) => Ok(
                DenialMessage::Configure {
                    object,
                    serial,
                    width,
                    height,
                    scale_numerator,
                    scale_denominator,
                    transform,
                    refresh_millihz,
                },
            ),
            Err(error) => Err(EndpointError::State(error)),
        }
    }

    /// Publish Denial-owned visibility and focus state for an Android task: the
    /// message to send.
    pub fn send_visibility(&self, object: TaskObjectId, visibility: Visibility, focused: bool) -> (result:
        Result<DenialMessage, EndpointError>)
        ensures
            match self@.object_error(object) {
                Some(error) => result == Err::<DenialMessage, EndpointError>(error),
                None => result is Ok && result->Ok_0@ == (DenialView::Visibility {
                    object,
                    visibility,
                    focused,
                }),
            },
    {
        self.require_task(object)?;
        Ok(DenialMessage::Visibility { object, visibility, focused })
    }

    /// Request that Android finish the task represented by a native window: the
    /// message to send.
    pub fn send_close(&self, object: TaskObjectId) -> (result: Result<DenialMessage, EndpointError>)
        ensures
            match self@.object_error(object) {
                Some(error) => result == Err::<DenialMessage, EndpointError>(error),
                None => result is Ok && result->Ok_0@ == (DenialView::Close { object }),
            },
    {
        self.require_task(object)?;
        Ok(DenialMessage::Close { object })
    }

    /// Route one typed host input event to the exact Android task object: the
    /// message to send.
    pub fn send_input(
        &self,
        object: TaskObjectId,
        serial: u64,
        timestamp_nanos: u64,
        event: InputEvent,
    ) -> (result: Result<DenialMessage, EndpointError>)
        ensures
            match self@.object_error(object) {
                Some(error) => result == Err::<DenialMessage, EndpointError>(error),
                None => result is Ok && result->Ok_0@ == (DenialView::Input {
                    object,
                    serial,
                    timestamp_nanos,
                    event,
                }),
            },
    {
        self.require_task(object)?;
        Ok(DenialMessage::Input { object, serial, timestamp_nanos, event })
    }

    /// Validate Denial's renderer/KMS completion for a pending frame.
    ///
    /// Composer returns its own composition-completion fence to `SurfaceFlinger`.
    /// The Denial-owned output target is made reusable only by the later
    /// release, so this imposes no ordering on independent target completions.
    pub fn materialize_release(&self, object: TaskObjectId, frame: FrameId) -> (result: Result<
        (),
        EndpointError,
    >)
        ensures
            result == (match self@.frame_error(object, frame) {
                Some(error) => Err(error),
                None => Ok(()),
            }),
    {
        match self.tasks.get(&object.0) {
            Some(task) => if !task.pending.contains_key(&frame.0) {
                Err(EndpointError::UnknownFrame { object, frame })
            } else if !task.timelines {
                Err(EndpointError::State(TaskStateError::TimelinesUnbound))
            } else {
                Ok(())
            },
            None => Err(EndpointError::UnknownObject(object)),
        }
    }

    /// Release a frame that Denial discarded without sampling: the message to
    /// send, if the task is not retiring.
    pub fn discard_frame(&mut self, object: TaskObjectId, frame: FrameId) -> (result: Result<
        Option<DenialMessage>,
        EndpointError,
    >)
        requires
            old(self)@.wf(),
        ensures
            final(self)@.wf(),
            match old(self)@.frame_error(object, frame) {
                Some(error) => {
                    &&& result == Err::<Option<DenialMessage>, EndpointError>(error)
                    &&& final(self)@ == old(self)@
                },
                None => {
                    &&& result is Ok
                    &&& message_view(result->Ok_0) == old(self)@.release_message(object, frame)
                    &&& final(self)@ == old(self)@.released(object, frame)
                },
            },
    {
        self.materialize_release(object, frame)?;
        self.finish_release(object, frame)
    }

    /// Release a frame after Denial's completion notification confirms that
    /// renderer/KMS use has ended: the message to send.
    ///
    /// Composer forgets a retired task as soon as it asks Denial to destroy the
    /// window. Terminal releases of such a task are consumed here and have no
    /// message, and the last one removes the task.
    pub fn finish_release(&mut self, object: TaskObjectId, frame: FrameId) -> (result: Result<
        Option<DenialMessage>,
        EndpointError,
    >)
        requires
            old(self)@.wf(),
        ensures
            final(self)@.wf(),
            match old(self)@.pending_error(object, frame) {
                Some(error) => {
                    &&& result == Err::<Option<DenialMessage>, EndpointError>(error)
                    &&& final(self)@ == old(self)@
                },
                None => {
                    &&& result is Ok
                    &&& message_view(result->Ok_0) == old(self)@.release_message(object, frame)
                    &&& final(self)@ == old(self)@.released(object, frame)
                },
            },
    {
        let task = self.task_mut(object)?;
        let ghost before = task@;
        let held = match task.pending.get(&frame.0) {
            Some(held) => *held,
            None => {
                proof {
                    lemma_same_task(old(self)@, object);
                }
                return Err(EndpointError::UnknownFrame { object, frame });
            },
        };
        let message = match task.state.release(frame, held.buffer, held.release_point) {
            Ok(message) => message,
            Err(error) => {
                proof {
                    lemma_same_task(old(self)@, object);
                }
                return Err(EndpointError::State(error));
            },
        };
        task.pending.remove(&frame.0);
        let retiring: bool = task.retiring;
        let finished: bool = retiring && task.state.in_flight_count() == 0;
        let ghost after = task@;
        proof {
            lemma_release(before, frame, held.buffer);
            lemma_task_change(old(self)@, object, after);
            lemma_task_removal(old(self)@, object);
        }
        let ghost marked = self@;
        if finished {
            self.tasks.remove(&object.0);
            proof {
                assert(self@.tasks =~= marked.tasks.remove(object.0));
                assert(self@ =~= old(self)@.without_task(object));
            }
        }
        if retiring {
            Ok(None)
        } else {
            Ok(Some(message))
        }
    }

    /// Retain a frame identity for optional presentation feedback after release.
    /// Returns false when the bounded feedback queue is full, or knows the frame
    /// already; callers should still submit the frame, without requesting
    /// another timing callback.
    pub fn track_presentation(&mut self, object: TaskObjectId, frame: FrameId) -> (result: Result<
        bool,
        EndpointError,
    >)
        requires
            old(self)@.wf(),
        ensures
            final(self)@.wf(),
            match old(self)@.pending_error(object, frame) {
                Some(error) => {
                    &&& result == Err::<bool, EndpointError>(error)
                    &&& final(self)@ == old(self)@
                },
                None => {
                    let record = old(self)@.tasks[object.0];
                    &&& result == Ok::<bool, EndpointError>(
                        record.timed.len() < MAX_TRACKED_FRAMES && !record.timed.contains(frame.0),
                    )
                    &&& final(self)@ == (if result == Ok::<bool, EndpointError>(true) {
                        old(self)@.with_task(
                            object,
                            TaskRecord { timed: record.timed.insert(frame.0), ..record },
                        )
                    } else {
                        old(self)@
                    })
                },
            },
    {
        let task = self.task_mut(object)?;
        if !task.pending.contains_key(&frame.0) {
            proof {
                lemma_same_task(old(self)@, object);
            }
            return Err(EndpointError::UnknownFrame { object, frame });
        }
        if task.presentation_frames.len() >= MAX_TRACKED_FRAMES {
            proof {
                lemma_same_task(old(self)@, object);
            }
            return Ok(false);
        }
        let ghost before = task@;
        let fresh: bool = task.presentation_frames.insert(frame.0);
        let ghost after = task@;
        proof {
            if before.timed.contains(frame.0) {
                assert(after.timed =~= before.timed);
            }
            lemma_same_task(old(self)@, object);
            lemma_task_change(old(self)@, object, after);
        }
        Ok(fresh)
    }

    /// Forget timing metadata for a compositor-discarded frame.
    pub fn forget_presentation(&mut self, object: TaskObjectId, frame: FrameId)
        requires
            old(self)@.wf(),
        ensures
            final(self)@.wf(),
            final(self)@ == (if old(self)@.tasks.contains_key(object.0) {
                old(self)@.with_task(
                    object,
                    TaskRecord {
                        timed: old(self)@.tasks[object.0].timed.remove(frame.0),
                        ..old(self)@.tasks[object.0]
                    },
                )
            } else {
                old(self)@
            }),
    {
        if let Ok(task) = self.task_mut(object) {
            task.presentation_frames.remove(&frame.0);
            let ghost after = task@;
            proof {
                lemma_task_change(old(self)@, object, after);
            }
        }
    }

    /// Report one host presentation timestamp independently of buffer release:
    /// the message to send, if the task is not retiring.
    pub fn send_presented(
        &mut self,
        object: TaskObjectId,
        frame: FrameId,
        timestamp_nanos: u64,
        refresh_period_nanos: u64,
        sequence: u64,
        flags: u32,
    ) -> (result: Result<Option<DenialMessage>, EndpointError>)
        requires
            old(self)@.wf(),
        ensures
            final(self)@.wf(),
            ({
                let record = old(self)@.tasks[object.0];
                if old(self)@.object_error(object) is Some {
                    &&& result == Err::<Option<DenialMessage>, EndpointError>(
                        EndpointError::UnknownObject(object),
                    )
                    &&& final(self)@ == old(self)@
                } else if !record.timed.contains(frame.0) && !record.pending.contains_key(frame.0) {
                    &&& result == Err::<Option<DenialMessage>, EndpointError>(
                        EndpointError::UnknownFrame { object, frame },
                    )
                    &&& final(self)@ == old(self)@
                } else {
                    &&& result is Ok
                    &&& message_view(result->Ok_0) == (if record.retiring {
                        None
                    } else {
                        Some(
                            DenialView::Presented {
                                object,
                                frame,
                                timestamp_nanos,
                                refresh_period_nanos,
                                sequence,
                                flags,
                            },
                        )
                    })
                    &&& final(self)@ == old(self)@.with_task(
                        object,
                        TaskRecord { timed: record.timed.remove(frame.0), ..record },
                    )
                }
            }),
    {
        let task = self.task_mut(object)?;
        let ghost before = task@;
        let known: bool = task.presentation_frames.remove(&frame.0);
        let pending: bool = task.pending.contains_key(&frame.0);
        let retiring: bool = task.retiring;
        let ghost after = task@;
        proof {
            if !known {
                assert(after.timed =~= before.timed);
            }
            lemma_same_task(old(self)@, object);
            lemma_task_change(old(self)@, object, after);
        }
        if !known && !pending {
            return Err(EndpointError::UnknownFrame { object, frame });
        }
        if retiring {
            return Ok(None);
        }
        Ok(
            Some(
                DenialMessage::Presented {
                    object,
                    frame,
                    timestamp_nanos,
                    refresh_period_nanos,
                    sequence,
                    flags,
                },
            ),
        )
    }

    /// Fatal error to send before the connection is closed.
    pub fn send_fatal(
        &self,
        object: Option<TaskObjectId>,
        code: ProtocolErrorCode,
        offending_opcode: u16,
        message: String,
    ) -> (error: DenialMessage)
        ensures
            error == (DenialMessage::Error { object, code, offending_opcode, message }),
    {
        DenialMessage::Error { object, code, offending_opcode, message }
    }

    fn require_task(&self, object: TaskObjectId) -> (result: Result<(), EndpointError>)
        ensures
            result == (match self@.object_error(object) {
                Some(error) => Err(error),
                None => Ok(()),
            }),
    {
        if self.tasks.contains_key(&object.0) {
            Ok(())
        } else {
            Err(EndpointError::UnknownObject(object))
        }
    }

    fn task_mut(&mut self, object: TaskObjectId) -> (result: Result<
        &mut TaskEndpoint,
        EndpointError,
    >)
        requires
            old(self)@.wf(),
        ensures
            match result {
                Ok(task) => {
                    &&& old(self)@.tasks.contains_key(object.0)
                    &&& task@ == old(self)@.tasks[object.0]
                    &&& task@.wf()
                    &&& task@.state.object == object
                    &&& final(self)@ == old(self)@.with_task(object, final(task)@)
                },
                Err(error) => {
                    &&& !old(self)@.tasks.contains_key(object.0)
                    &&& error == EndpointError::UnknownObject(object)
                    &&& final(self)@ == old(self)@
                },
            },
    {
        match value_mut(&mut self.tasks, object.0) {
            Some(task) => {
                assert(old(self)@.tasks.contains_key(object.0));
                Ok(task)
            },
            None => Err(EndpointError::UnknownObject(object)),
        }
    }
}

fn require_timelines(descriptors: &Vec<DescriptorKind>) -> (result: Result<(), EndpointError>)
    ensures
        result == (match timeline_error(descriptors@) {
            Some(error) => Err(error),
            None => Ok(()),
        }),
{
    take_descriptor(descriptors, 0, DescriptorKind::AcquireTimeline)?;
    take_descriptor(descriptors, 1, DescriptorKind::ReleaseTimeline)
}

fn take_descriptor(descriptors: &Vec<DescriptorKind>, index: usize, kind: DescriptorKind) -> (result:
    Result<(), EndpointError>)
    ensures
        result == (if index < descriptors@.len() && descriptors@[index as int] == kind {
            Ok(())
        } else {
            Err(EndpointError::MissingDescriptor(kind))
        }),
{
    if index < descriptors.len() && descriptors[index] == kind {
        Ok(())
    } else {
        Err(EndpointError::MissingDescriptor(kind))
    }
}

fn require_planes(descriptors: &Vec<DescriptorKind>) -> (result: Result<(), EndpointError>)
    ensures
        result == (if all_planes(descriptors@) {
            Ok(())
        } else {
            Err(EndpointError::MissingDescriptor(DescriptorKind::DmabufPlane))
        }),
{
    let mut index: usize = 0;
    while index < descriptors.len()
        invariant
            index <= descriptors@.len(),
            forall|i: int|
                0 <= i < index ==> #[trigger] descriptors@[i] == DescriptorKind::DmabufPlane,
        decreases descriptors@.len() - index,
    {
        if descriptors[index] != DescriptorKind::DmabufPlane {
            assert(descriptors@[index as int] != DescriptorKind::DmabufPlane);
            return Err(EndpointError::MissingDescriptor(DescriptorKind::DmabufPlane));
        }
        index = index + 1;
    }
    Ok(())
}

/// Before a hello is accepted and answered, nothing but a hello has any effect.
pub proof fn law_handshake_comes_first(
    model: EndpointModel,
    message: AndroidMessage,
    descriptors: Seq<DescriptorKind>,
    verdict: Result<(), TransportError>,
)
    requires
        !model.ready,
        !(message is ClientHello),
    ensures
        model.reduce(message, descriptors, verdict).endpoint == model,
        model.reduce(message, descriptors, verdict).result == Err::<StepView, EndpointError>(
            EndpointError::HandshakeRequired,
        ),
{
}

/// Activation is offered if and only if both sides support it, and then it is
/// accepted if and only if its task is live and bound.
pub proof fn law_activation_is_mutual(
    model: EndpointModel,
    min_major: u16,
    max_major: u16,
    capabilities: u64,
    object: TaskObjectId,
    descriptors: Seq<DescriptorKind>,
    verdict: Result<(), TransportError>,
)
    requires
        model.hello(min_major, max_major, capabilities).result is Ok,
    ensures
        ({
            let mutual = model.activation_requests && capabilities & capability::TASK_ACTIVATION
                != 0;
            let hello = model.hello(min_major, max_major, capabilities);
            let open = EndpointModel { ready: true, ..hello.endpoint };
            let bound = model.tasks.contains_key(object.0) && model.tasks[object.0].task is Some;
            &&& hello.result == Ok::<StepView, EndpointError>(
                StepView::SendHello(server_hello(mutual)),
            )
            &&& open.reduce(
                AndroidMessage::RequestActivation { object },
                descriptors,
                verdict,
            ).result == (if !mutual {
                Err(EndpointError::IncompatibleClient)
            } else if !bound {
                Err(EndpointError::UnknownObject(object))
            } else {
                Ok(StepView::Act(ActionView::RequestActivation { object }))
            })
        }),
{
}

/// Live tasks are independent: no two share a display or an Android task.
pub proof fn law_live_tasks_are_independent(model: EndpointModel, a: u64, b: u64)
    requires
        model.wf(),
        model.tasks.contains_key(a),
        model.tasks.contains_key(b),
        a != b,
    ensures
        model.tasks[a].display != model.tasks[b].display,
        model.tasks[a].task is Some ==> model.tasks[a].task != model.tasks[b].task,
{
}

/// A record for one task leaves every other task as it was.
pub proof fn law_records_touch_only_their_task(
    model: EndpointModel,
    message: AndroidMessage,
    descriptors: Seq<DescriptorKind>,
    verdict: Result<(), TransportError>,
    other: u64,
)
    requires
        object_of_record(message) != Some(TaskObjectId(other)),
    ensures
        ({
            let after = model.reduce(message, descriptors, verdict).endpoint;
            &&& after.tasks.contains_key(other) == model.tasks.contains_key(other)
            &&& after.tasks[other] == model.tasks[other]
        }),
{
}

/// Task object that a record names.
pub open spec fn object_of_record(message: AndroidMessage) -> Option<TaskObjectId> {
    match message {
        AndroidMessage::ClientHello { .. } => None,
        AndroidMessage::CreateTask { object, .. } => Some(object),
        AndroidMessage::BindTask { object, .. } => Some(object),
        AndroidMessage::DestroyTask { object } => Some(object),
        AndroidMessage::BindTimelines { object } => Some(object),
        AndroidMessage::AckConfigure { object, .. } => Some(object),
        AndroidMessage::RegisterBuffer { object, .. } => Some(object),
        AndroidMessage::UnregisterBuffer { object, .. } => Some(object),
        AndroidMessage::Present { object, .. } => Some(object),
        AndroidMessage::BindLayerStream { object } => Some(object),
        AndroidMessage::SetContentState { object, .. } => Some(object),
        AndroidMessage::SetFrameRate { object, .. } => Some(object),
        AndroidMessage::RequestActivation { object } => Some(object),
        AndroidMessage::Pong { .. } => None,
    }
}

/// A task that is destroyed while frames are in flight stays until the last of
/// them ends, and sends no release any more.
pub proof fn law_retirement_waits_for_frames(
    model: EndpointModel,
    object: TaskObjectId,
    frame: FrameId,
)
    requires
        model.wf(),
        model.pending_error(object, frame) is None,
    ensures
        ({
            let in_flight = model.tasks[object.0].state.in_flight;
            let retiring = model.destroy(object).endpoint;
            &&& retiring.tasks.contains_key(object.0)
            &&& retiring.pending_error(object, frame) is None
            &&& retiring.release_message(object, frame) is None
            &&& retiring.released(object, frame).tasks.contains_key(object.0) <==> exists|
                other: u64,
            |
                other != frame.0 && #[trigger] in_flight.contains_key(other)
        }),
{
    let record = model.tasks[object.0];
    let in_flight = record.state.in_flight;
    assert(record.wf());
    assert(record.state.wf());
    assert(in_flight.contains_key(frame.0));
    assert(in_flight.dom().len() > 0) by {
        assert(in_flight.dom().contains(frame.0));
        vstd::set::axiom_set_contains_len(in_flight.dom(), frame.0);
    }
    let retiring = model.destroy(object).endpoint;
    let left = retiring.released_record(object, frame).state.in_flight;
    assert(left.dom() =~= in_flight.dom().remove(frame.0));
    if left.dom().len() == 0 {
        assert(left.dom() =~= Set::empty());
        assert forall|other: u64| other != frame.0 implies !#[trigger] in_flight.contains_key(
            other,
        ) by {
            assert(!left.dom().contains(other));
        }
    } else {
        let other = left.dom().choose();
        assert(left.dom().contains(other));
        assert(in_flight.contains_key(other));
    }
}

/// To withdraw a render target that was just lent restores the endpoint, and
/// so does to restore one that was just revoked.
pub proof fn law_target_rollback(
    model: EndpointModel,
    object: TaskObjectId,
    buffer: BufferView,
    verdict: Result<(), TransportError>,
    revoked: BufferId,
)
    requires
        model.wf(),
        model.tasks.contains_key(object.0),
    ensures
        ({
            let state = model.tasks[object.0].state;
            &&& state.register_error(buffer, verdict) is None ==> {
                let lent = model.with_state(object, state.with_buffer(buffer));
                &&& lent.tasks[object.0].state.unregister_error(buffer.id) is None
                &&& lent.with_state(
                    object,
                    lent.tasks[object.0].state.without_buffer(buffer.id),
                ) == model
            }
            &&& state.unregister_error(revoked) is None ==> {
                let without = model.with_state(object, state.without_buffer(revoked));
                without.with_state(
                    object,
                    without.tasks[object.0].state.with_buffer(state.buffers[revoked.0]),
                ) == model
            }
        }),
{
    let state = model.tasks[object.0].state;
    assert(model.tasks[object.0].wf());
    if state.register_error(buffer, verdict) is None {
        let lent = model.with_state(object, state.with_buffer(buffer));
        let back = lent.with_state(object, lent.tasks[object.0].state.without_buffer(buffer.id));
        assert(!state.buffers.contains_key(buffer.id.0));
        assert(back.tasks[object.0].state.buffers =~= state.buffers);
        assert(back.tasks =~= model.tasks);
    }
    if state.unregister_error(revoked) is None {
        let without = model.with_state(object, state.without_buffer(revoked));
        let back = without.with_state(
            object,
            without.tasks[object.0].state.with_buffer(state.buffers[revoked.0]),
        );
        assert(back.tasks[object.0].state.buffers =~= state.buffers);
        assert(back.tasks =~= model.tasks);
    }
}

/// Law: a peer is admitted with the user and the group that were asked for,
/// and with the process that was asked for if one was.
pub proof fn law_peers_are_admitted_by_identity(wanted: ExpectedPeer, actual: PeerCredentials)
    ensures
        wanted.admits(actual) <==> {
            &&& wanted.uid == actual.uid
            &&& wanted.gid == actual.gid
            &&& wanted.pid == 0 || wanted.pid == actual.pid
        },
{
}

/// Law: a client is greeted when its versions reach 1 and it has every
/// capability that is needed; the greeting has the limits of the protocol, and
/// speaks of activation where both sides know it.
pub proof fn law_greetings_announce_the_limits(
    min_major: u16,
    max_major: u16,
    capabilities: u64,
    activation: bool,
)
    ensures
        compatible(min_major, max_major, capabilities) <==> min_major <= 1 <= max_major
            && capabilities & 0xdf == 0xdf,
        server_hello(false) == (DenialView::ServerHello {
            major: 1,
            minor: 3,
            capabilities: 0xdf,
            max_task_objects: 4096,
            max_buffers_per_task: 256,
            max_damage_rects: 256,
        }),
        server_hello(true) == (DenialView::ServerHello {
            major: 1,
            minor: 4,
            capabilities: 0x1df,
            max_task_objects: 4096,
            max_buffers_per_task: 256,
            max_damage_rects: 256,
        }),
{
    assert(0xdfu64 | 0x100u64 == 0x1dfu64) by (bit_vector);
}

/// Law: timelines come as an acquire timeline and then a release timeline.
pub proof fn law_timelines_come_in_order(descriptors: Seq<DescriptorKind>)
    ensures
        timeline_error(descriptors) is None <==> {
            &&& descriptors.len() >= 2
            &&& descriptors[0] is AcquireTimeline
            &&& descriptors[1] is ReleaseTimeline
        },
{
}

/// Law: a task is created under a new object for a display that has none yet,
/// up to 4096 of them; it starts empty and the other tasks stay.
pub proof fn law_created_tasks_are_new(
    endpoint: EndpointModel,
    object: TaskObjectId,
    display: AndroidDisplayId,
    package: Seq<char>,
    other: u64,
)
    ensures
        ({
            let created = endpoint.create(object, display, package);
            &&& created.result is Ok <==> {
                &&& endpoint.tasks.len() < 4096
                &&& object.0 != 0
                &&& !endpoint.tasks.contains_key(object.0)
                &&& forall|key: u64| #[trigger]
                    endpoint.tasks.contains_key(key) ==> endpoint.tasks[key].display != display
            }
            &&& created.result is Err ==> created.endpoint == endpoint
            &&& created.result is Ok ==> {
                &&& created.result->Ok_0 == StepView::Act(
                    ActionView::CreateTask { object, display, package },
                )
                &&& created.endpoint.tasks.contains_key(object.0)
                &&& created.endpoint.tasks[object.0].display == display
                &&& created.endpoint.tasks[object.0].task is None
                &&& !created.endpoint.tasks[object.0].retiring
                &&& created.endpoint.tasks[object.0].pending.len() == 0
                &&& other != object.0 ==> {
                    &&& created.endpoint.tasks.contains_key(other) == endpoint.tasks.contains_key(
                        other,
                    )
                    &&& created.endpoint.tasks[other] == endpoint.tasks[other]
                }
            }
        }),
{
}

/// Law: a task identity is bound to a known object that has none, once.
pub proof fn law_task_identities_are_bound_once(
    endpoint: EndpointModel,
    object: TaskObjectId,
    task: AndroidTaskId,
)
    ensures
        ({
            let bound = endpoint.bind(object, task);
            &&& bound.result is Ok <==> {
                &&& endpoint.tasks.contains_key(object.0)
                &&& endpoint.tasks[object.0].task is None
                &&& forall|key: u64| #[trigger]
                    endpoint.tasks.contains_key(key) ==> endpoint.tasks[key].task != Some(task)
            }
            &&& bound.result is Err ==> bound.endpoint == endpoint
            &&& bound.result is Ok ==> {
                &&& bound.endpoint.tasks[object.0].task == Some(task)
                &&& bound.endpoint.tasks[object.0].display == endpoint.tasks[object.0].display
                &&& bound.endpoint.tasks[object.0].state == endpoint.tasks[object.0].state
            }
        }),
{
}

/// Law: a destroyed task goes at once when none of its frames is in flight, and
/// with its last frame otherwise.
pub proof fn law_destroyed_tasks_go_with_their_last_frame(
    endpoint: EndpointModel,
    object: TaskObjectId,
    frame: FrameId,
)
    ensures
        ({
            let destroyed = endpoint.destroy(object);
            &&& destroyed.result is Ok <==> endpoint.tasks.contains_key(object.0)
            &&& endpoint.tasks.contains_key(object.0) ==> {
                &&& destroyed.endpoint.tasks.contains_key(object.0) <==> endpoint.tasks[object.0].state.in_flight.len()
                    > 0
                &&& endpoint.tasks[object.0].state.in_flight.len() > 0
                    ==> destroyed.endpoint.tasks[object.0].retiring
            }
        }),
        endpoint.tasks.contains_key(object.0) && endpoint.tasks[object.0].retiring
            && endpoint.tasks[object.0].state.in_flight.remove(frame.0).len() == 0
            ==> !endpoint.released(object, frame).tasks.contains_key(object.0),
        !endpoint.tasks[object.0].retiring ==> endpoint.released(
            object,
            frame,
        ).tasks.contains_key(object.0),
{
}

/// Law: a release tells the host of its frame, its buffer and its point, unless
/// the task is going away.
pub proof fn law_releases_are_told(endpoint: EndpointModel, object: TaskObjectId, frame: FrameId)
    ensures
        endpoint.tasks[object.0].retiring ==> endpoint.release_message(object, frame) is None,
        !endpoint.tasks[object.0].retiring ==> endpoint.release_message(object, frame) == Some(
            DenialView::BufferReleased {
                object,
                frame,
                buffer: endpoint.tasks[object.0].pending[frame.0].buffer,
                release_point: endpoint.tasks[object.0].pending[frame.0].release_point,
            },
        ),
        endpoint.frame_error(object, frame) is None <==> {
            &&& endpoint.tasks.contains_key(object.0)
            &&& endpoint.tasks[object.0].pending.contains_key(frame.0)
            &&& endpoint.tasks[object.0].timelines
        },
{
}

/// Law: a presented frame is exported with its own buffer, points and damage; a
/// superseded one is released with its own buffer and point instead.
pub proof fn law_presents_are_exported_or_released(
    endpoint: EndpointModel,
    request: PresentRequest,
    damage: Seq<Damage>,
)
    ensures
        ({
            let presented = endpoint.present(request, damage);
            let state = endpoint.tasks[request.object.0].state;
            &&& !endpoint.tasks.contains_key(request.object.0) ==> presented.result == Err::<
                StepView,
                EndpointError,
            >(EndpointError::UnknownObject(request.object))
            &&& presented.result is Err ==> presented.endpoint == endpoint
            &&& endpoint.tasks.contains_key(request.object.0) && state.present_error(
                request,
                damage,
            ) is None ==> {
                &&& presented.result is Ok
                &&& presented.result->Ok_0 is ExportAcquireFence
                &&& presented.result->Ok_0->ExportAcquireFence_0.object == request.object
                &&& presented.result->Ok_0->ExportAcquireFence_0.frame == request.frame
                &&& presented.result->Ok_0->ExportAcquireFence_0.buffer == request.buffer
                &&& presented.result->Ok_0->ExportAcquireFence_0.acquire_point
                    == request.acquire_point
                &&& presented.result->Ok_0->ExportAcquireFence_0.release_point
                    == request.release_point
                &&& presented.result->Ok_0->ExportAcquireFence_0.damage == damage
                &&& presented.endpoint.tasks[request.object.0].state == state.with_present(request)
            }
            &&& presented.result is Ok && presented.result->Ok_0 is ReleaseSuperseded ==> {
                &&& state.discard_error(request) is None
                &&& presented.result->Ok_0->ReleaseSuperseded_message
                    == (DenialView::BufferReleased {
                    object: request.object,
                    frame: request.frame,
                    buffer: request.buffer,
                    release_point: request.release_point,
                })
                &&& presented.result->Ok_0->ReleaseSuperseded_acquire_point == request.acquire_point
                &&& presented.result->Ok_0->ReleaseSuperseded_release_point == request.release_point
                &&& presented.endpoint.tasks[request.object.0].state == state.with_discarded(
                    request,
                )
            }
        }),
{
}

/// Law: a message for an object is handed on in its own words, or refused
/// because the object is unknown.
pub proof fn law_requests_are_handed_on(
    endpoint: EndpointModel,
    object: TaskObjectId,
    flags: u32,
    millihz: u32,
    cookie: u64,
    descriptors: Seq<DescriptorKind>,
    verdict: Result<(), TransportError>,
)
    requires
        endpoint.ready,
    ensures
        ({
            let state = endpoint.reduce(
                (AndroidMessage::SetContentState { object, flags }),
                descriptors,
                verdict,
            );
            let rate = endpoint.reduce(
                (AndroidMessage::SetFrameRate { object, millihz }),
                descriptors,
                verdict,
            );
            let stream = endpoint.reduce(
                (AndroidMessage::BindLayerStream { object }),
                descriptors,
                verdict,
            );
            let pong = endpoint.reduce((AndroidMessage::Pong { cookie }), descriptors, verdict);
            &&& state.endpoint == endpoint && rate.endpoint == endpoint && stream.endpoint
                == endpoint && pong.endpoint == endpoint
            &&& pong.result == Ok::<StepView, EndpointError>(
                StepView::Act(ActionView::Pong { cookie }),
            )
            &&& endpoint.tasks.contains_key(object.0) ==> {
                &&& state.result == Ok::<StepView, EndpointError>(
                    StepView::Act(ActionView::SetContentState { object, flags }),
                )
                &&& rate.result == Ok::<StepView, EndpointError>(
                    StepView::Act(ActionView::SetFrameRate { object, millihz }),
                )
                &&& stream.result == Ok::<StepView, EndpointError>(
                    StepView::Act(ActionView::BindLayerStream { object }),
                )
            }
            &&& !endpoint.tasks.contains_key(object.0) ==> {
                &&& state.result == Err::<StepView, EndpointError>(
                    EndpointError::UnknownObject(object),
                )
                &&& rate.result == Err::<StepView, EndpointError>(
                    EndpointError::UnknownObject(object),
                )
                &&& stream.result == Err::<StepView, EndpointError>(
                    EndpointError::UnknownObject(object),
                )
            }
        }),
{
}

/// Law: an activation is passed on for a bound task where both sides agreed to
/// activations.
pub proof fn law_activations_are_for_bound_tasks(
    endpoint: EndpointModel,
    object: TaskObjectId,
    descriptors: Seq<DescriptorKind>,
    verdict: Result<(), TransportError>,
)
    requires
        endpoint.ready,
    ensures
        ({
            let asked = endpoint.reduce(
                (AndroidMessage::RequestActivation { object }),
                descriptors,
                verdict,
            );
            &&& asked.endpoint == endpoint
            &&& asked.result is Ok <==> {
                &&& endpoint.activation_requests
                &&& endpoint.tasks.contains_key(object.0)
                &&& endpoint.tasks[object.0].task is Some
            }
            &&& asked.result is Ok ==> asked.result->Ok_0 == StepView::Act(
                ActionView::RequestActivation { object },
            )
            &&& !endpoint.activation_requests ==> asked.result == Err::<StepView, EndpointError>(
                EndpointError::IncompatibleClient,
            )
        }),
{
}

/// Law: a client is greeted once, and activations are on where both sides asked
/// for them.
pub proof fn law_clients_are_greeted_once(
    endpoint: EndpointModel,
    min_major: u16,
    max_major: u16,
    capabilities: u64,
)
    ensures
        ({
            let greeted = endpoint.hello(min_major, max_major, capabilities);
            &&& endpoint.ready ==> greeted.result == Err::<StepView, EndpointError>(
                EndpointError::RepeatedHandshake,
            ) && greeted.endpoint == endpoint
            &&& !endpoint.ready && !compatible(min_major, max_major, capabilities)
                ==> greeted.result == Err::<StepView, EndpointError>(
                EndpointError::IncompatibleClient,
            ) && greeted.endpoint == endpoint
            &&& greeted.result is Ok ==> {
                let both = endpoint.activation_requests && capabilities & 0x100 != 0;
                &&& greeted.endpoint.activation_requests == both
                &&& greeted.result->Ok_0 == StepView::SendHello(server_hello(both))
                &&& greeted.endpoint.tasks == endpoint.tasks
            }
        }),
{
}

/// Law: an acknowledgement, a new buffer and a retired buffer change the state of
/// their own task as its rules say, or nothing.
pub proof fn law_task_messages_change_their_task(
    endpoint: EndpointModel,
    object: TaskObjectId,
    serial: u32,
    buffer: BufferMetadata,
    descriptors: Seq<DescriptorKind>,
    verdict: Result<(), TransportError>,
)
    requires
        endpoint.ready,
        endpoint.tasks.contains_key(object.0),
    ensures
        ({
            let state = endpoint.tasks[object.0].state;
            let acknowledged = endpoint.reduce(
                (AndroidMessage::AckConfigure { object, serial }),
                descriptors,
                verdict,
            );
            let retired = endpoint.reduce(
                (AndroidMessage::UnregisterBuffer { object, buffer: buffer.id }),
                descriptors,
                verdict,
            );
            let registered = endpoint.reduce(
                (AndroidMessage::RegisterBuffer { object, buffer }),
                descriptors,
                verdict,
            );
            &&& acknowledged.result is Ok <==> state.acknowledge_error(serial) is None
            &&& acknowledged.result is Ok ==> acknowledged.endpoint.tasks[object.0].state
                == state.with_acknowledgement(serial)
            &&& acknowledged.result is Err ==> acknowledged.endpoint == endpoint
            &&& retired.result is Ok <==> state.unregister_error(buffer.id) is None
            &&& retired.result is Ok ==> retired.endpoint.tasks[object.0].state
                == state.without_buffer(buffer.id)
            &&& registered.result is Ok <==> {
                &&& forall|i: int|
                    0 <= i < descriptors.len() ==> (#[trigger] descriptors[i]) is DmabufPlane
                &&& state.register_error(buffer@, verdict) is None
            }
            &&& registered.result is Ok ==> registered.endpoint.tasks[object.0].state
                == state.with_buffer(buffer@)
            &&& registered.result is Err ==> registered.endpoint == endpoint
        }),
{
    assert(all_planes(descriptors) <==> forall|i: int|
        0 <= i < descriptors.len() ==> (#[trigger] descriptors[i]) is DmabufPlane);
}

/// Law: a released frame is neither pending nor in flight, and its buffer is
/// free.
pub proof fn law_released_frames_free_their_buffer(
    endpoint: EndpointModel,
    object: TaskObjectId,
    frame: FrameId,
)
    requires
        endpoint.tasks.contains_key(object.0),
        !endpoint.tasks[object.0].retiring,
    ensures
        ({
            let before = endpoint.tasks[object.0];
            let after = endpoint.released(object, frame).tasks[object.0];
            &&& !after.pending.contains_key(frame.0)
            &&& !after.state.in_flight.contains_key(frame.0)
            &&& !after.state.busy.contains(before.pending[frame.0].buffer.0)
            &&& after.state.buffers == before.state.buffers
            &&& after.display == before.display
            &&& after.task == before.task
        }),
{
}

/// Law: an update of a task is refused for an unknown object first, and then for
/// what the task's state says.
pub proof fn law_updates_need_a_known_object(
    endpoint: EndpointModel,
    object: TaskObjectId,
    error: Option<TaskStateError>,
)
    ensures
        endpoint.update_error(object, error) is None <==> endpoint.tasks.contains_key(object.0)
            && error is None,
        !endpoint.tasks.contains_key(object.0) ==> endpoint.update_error(object, error) == Some(
            EndpointError::UnknownObject(object),
        ),
        endpoint.tasks.contains_key(object.0) && error is Some ==> endpoint.update_error(
            object,
            error,
        ) == Some(EndpointError::State(error->0)),
{
}

} // verus!
