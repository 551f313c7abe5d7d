//! Typed bridge between Composer task displays and the Denial-native protocol.

use std::collections::BTreeMap;

use vstd::prelude::*;

use super::display::ComposerModel;
use super::hwc3::{Session, SessionModel};
use super::windows::law_displays_are_isolated;
use super::{
    ComposerError, DisplayId, ReservedTaskWindowSpec, TaskId, TaskWindowError, VsyncSample,
};
use crate::protocol::{
    AndroidDisplayId, AndroidMessage, AndroidTaskId, AndroidView, DenialMessage, DenialView,
    InputEvent, TaskObjectId, Transform, Visibility,
};
use crate::transport::{AcceptedFrame, Configure, FrameId, ReleasedFrame, TransportError};

verus! {

broadcast use vstd::laws_cmp::group_laws_cmp;

/// One client-target present paired with its preallocated timeline points.
#[derive(Clone, Debug, PartialEq, Eq)]
pub struct PreparedPresent {
    /// Descriptor-free wire message to send after importing the acquire fence.
    pub message: AndroidMessage,
    /// Point into which the adapter imports `SurfaceFlinger`'s acquire `sync_file`.
    pub acquire_point: u64,
    /// Point the adapter exports as `SurfaceFlinger`'s present fence after
    /// Denial materializes it with renderer/KMS completion.
    pub release_point: u64,
}

/// Host event applied to Composer state or forwarded to Android integration.
#[derive(Clone, Copy, Debug, PartialEq, Eq, Structural)]
#[allow(inconsistent_fields)]
pub enum AppliedDenialEvent {
    /// Authoritative format/modifier feedback updated Composer validation.
    FormatFeedback {
        /// Monotonic feedback generation applied to Composer.
        generation: u32,
    },
    /// A new configure awaits Android display reconfiguration and ack.
    Configure {
        /// Configure serial.
        serial: u32,
        /// Required pixel width.
        width: u32,
        /// Required pixel height.
        height: u32,
        /// Logical-scale numerator.
        scale_numerator: u32,
        /// Logical-scale denominator.
        scale_denominator: u32,
        /// Denial output transform.
        transform: Transform,
        /// Host refresh policy in millihertz.
        refresh_millihz: u32,
    },
    /// Denial-owned system-bar and cutout insets changed.
    Insets {
        /// Left logical inset.
        left: u32,
        /// Top logical inset.
        top: u32,
        /// Right logical inset.
        right: u32,
        /// Bottom logical inset.
        bottom: u32,
    },
    /// Denial changed task visibility or focus.
    Visibility {
        /// Current visibility.
        visibility: Visibility,
        /// Keyboard focus state.
        focused: bool,
    },
    /// Denial requested Android task finish/close.
    Close,
    /// A release point was signalled and Composer retired the frame.
    BufferReleased(ReleasedFrame),
    /// Presentation timing optionally produced an enabled HWC vsync sample.
    Presented(Option<VsyncSample>),
    /// Typed input must be delivered through the Android input bridge.
    Input {
        /// Host input sequence.
        serial: u64,
        /// Monotonic event timestamp.
        timestamp_nanos: u64,
        /// Typed input event.
        event: InputEvent,
    },
}

/// Invalid mapping between a Denial task object and Composer state.
#[derive(Clone, Copy, Debug, PartialEq, Eq, Structural)]
pub enum DenialBridgeError {
    /// A message addressed a different Denial task object.
    WrongObject {
        /// Bound object.
        expected: TaskObjectId,
        /// Received object.
        actual: TaskObjectId,
    },
    /// A connection-level or unsupported event reached a task binding.
    UnexpectedMessage,
    /// A released buffer did not match Composer's in-flight frame.
    ReleaseMismatch,
    /// Timeline point space was exhausted.
    TimelineExhausted,
    /// Task/display lifecycle state is invalid.
    Task(TaskWindowError),
    /// Per-display Composer state rejected the event.
    Composer(ComposerError),
}

/// Task object that a message is about.
pub open spec fn object_of(message: DenialView) -> Option<TaskObjectId> {
    match message {
        DenialView::FormatFeedback { object, .. } => Some(object),
        DenialView::RegisterRenderTarget { object, .. } => Some(object),
        DenialView::UnregisterRenderTarget { object, .. } => Some(object),
        DenialView::Configure { object, .. } => Some(object),
        DenialView::Insets { object, .. } => Some(object),
        DenialView::Visibility { object, .. } => Some(object),
        DenialView::Close { object } => Some(object),
        DenialView::BufferReleased { object, .. } => Some(object),
        DenialView::Presented { object, .. } => Some(object),
        DenialView::Input { object, .. } => Some(object),
        DenialView::Error { object, .. } => object,
        DenialView::ServerHello { .. } => None,
        DenialView::Ping { .. } => None,
    }
}

/// Model of a [`DenialTaskBinding`].
#[verifier::ext_equal]
pub struct BindingModel {
    pub object: TaskObjectId,
    pub task: Option<TaskId>,
    pub display: DisplayId,
    pub package: Seq<char>,
    pub acknowledged_configure: Option<u32>,
    pub next_timeline_point: u64,
    /// Release points by frame.
    pub pending: Map<u64, u64>,
}

/// States of a binding and of its session after an event, with the outcome.
pub struct EventOutcome {
    pub binding: BindingModel,
    pub session: SessionModel,
    pub result: Result<AppliedDenialEvent, DenialBridgeError>,
}

impl BindingModel {
    /// The invariant of every reachable binding: a pending frame waits for a
    /// point that was handed out, and no two frames wait for the same point.
    pub open spec fn wf(self) -> bool {
        &&& self.object.0 != 0
        &&& forall|frame: u64| #[trigger]
            self.pending.contains_key(frame) ==> 0 < self.pending[frame]
                <= self.next_timeline_point
        &&& forall|first: u64, second: u64|
            #![trigger self.pending[first], self.pending[second]]
            self.pending.contains_key(first) && self.pending.contains_key(second) && first
                != second ==> self.pending[first] != self.pending[second]
    }

    /// Binding of a fresh task object.
    pub open spec fn fresh(object: TaskObjectId, reservation: ReservedTaskWindowSpec) -> BindingModel {
        BindingModel {
            object,
            task: None,
            display: reservation.display,
            package: reservation.package@,
            acknowledged_configure: None,
            next_timeline_point: 0,
            pending: Map::empty(),
        }
    }

    /// Whether a task identity may be bound.
    pub open spec fn may_bind(self, task: TaskId) -> bool {
        task.0 != 0 && self.task is None
    }

    /// First reason not to prepare a present.
    pub open spec fn prepare_error(self, display: DisplayId, frame: FrameId) -> Option<
        DenialBridgeError,
    > {
        if display != self.display || self.acknowledged_configure is None {
            Some(DenialBridgeError::UnexpectedMessage)
        } else if self.next_timeline_point == u64::MAX {
            Some(DenialBridgeError::TimelineExhausted)
        } else if self.pending.contains_key(frame.0) {
            Some(DenialBridgeError::UnexpectedMessage)
        } else {
            None
        }
    }

    /// Binding with one more prepared frame.
    pub open spec fn prepared(self, frame: FrameId) -> BindingModel {
        let point = (self.next_timeline_point + 1) as u64;
        BindingModel {
            next_timeline_point: point,
            pending: self.pending.insert(frame.0, point),
            ..self
        }
    }

    /// Binding without one pending frame; its point stays used.
    pub open spec fn without_frame(self, frame: FrameId) -> BindingModel {
        BindingModel { pending: self.pending.remove(frame.0), ..self }
    }

    /// Whether a frame waits for exactly this point.
    pub open spec fn waits(self, frame: FrameId, release_point: u64) -> bool {
        self.pending.contains_key(frame.0) && self.pending[frame.0] == release_point
    }

    /// Nothing changed but for the outcome.
    pub open spec fn kept(
        self,
        session: SessionModel,
        result: Result<AppliedDenialEvent, DenialBridgeError>,
    ) -> EventOutcome {
        EventOutcome { binding: self, session, result }
    }

    /// Effect of a host event on the binding and on its session. `outcome` is
    /// how the transport answers the release that the event asks for.
    pub open spec fn event(
        self,
        session: SessionModel,
        message: DenialView,
        outcome: Result<ReleasedFrame, TransportError>,
    ) -> EventOutcome {
        let composer = session.windows.windows[self.display.0].composer;
        let unknown: Result<AppliedDenialEvent, DenialBridgeError> = Err(
            DenialBridgeError::Task(TaskWindowError::UnknownDisplay(self.display)),
        );
        let known = session.windows.windows.contains_key(self.display.0);
        if object_of(message) is None {
            self.kept(session, Err(DenialBridgeError::UnexpectedMessage))
        } else if object_of(message)->0 != self.object {
            self.kept(
                session,
                Err(
                    DenialBridgeError::WrongObject {
                        expected: self.object,
                        actual: object_of(message)->0,
                    },
                ),
            )
        } else {
            match message {
                DenialView::FormatFeedback { generation, formats, .. } => if !known {
                    self.kept(session, unknown)
                } else {
                    EventOutcome {
                        binding: self,
                        session: session.with_composer(
                            self.display,
                            ComposerModel { feedback: formats, ..composer },
                        ),
                        result: Ok(AppliedDenialEvent::FormatFeedback { generation }),
                    }
                },
                DenialView::Configure {
                    serial,
                    width,
                    height,
                    scale_numerator,
                    scale_denominator,
                    transform,
                    refresh_millihz,
                    ..
                } => if !known {
                    self.kept(session, unknown)
                } else {
                    EventOutcome {
                        binding: BindingModel { acknowledged_configure: None, ..self },
                        session: session.with_composer(
                            self.display,
                            ComposerModel {
                                configure: Some(
                                    Configure { serial, width, height, refresh_millihz },
                                ),
                                ..composer
                            },
                        ),
                        result: Ok(
                            AppliedDenialEvent::Configure {
                                serial,
                                width,
                                height,
                                scale_numerator,
                                scale_denominator,
                                transform,
                                refresh_millihz,
                            },
                        ),
                    }
                },
                DenialView::Insets { left, top, right, bottom, .. } => self.kept(
                    session,
                    Ok(AppliedDenialEvent::Insets { left, top, right, bottom }),
                ),
                DenialView::Visibility { visibility, focused, .. } => self.kept(
                    session,
                    Ok(AppliedDenialEvent::Visibility { visibility, focused }),
                ),
                DenialView::Close { .. } => self.kept(session, Ok(AppliedDenialEvent::Close)),
                DenialView::BufferReleased { frame, buffer, release_point, .. } => if !self.waits(
                    frame,
                    release_point,
                ) {
                    self.kept(session, Err(DenialBridgeError::ReleaseMismatch))
                } else if !known {
                    self.kept(session, unknown)
                } else if !(composer.in_flight.contains_key(frame.0)
                    && composer.in_flight[frame.0] == buffer) {
                    self.kept(session, Err(DenialBridgeError::ReleaseMismatch))
                } else {
                    match outcome {
                        Err(error) => self.kept(
                            session,
                            Err(DenialBridgeError::Composer(ComposerError::Transport(error))),
                        ),
                        Ok(released) => EventOutcome {
                            binding: self.without_frame(frame),
                            session: session.with_composer(
                                self.display,
                                composer.without_frame(frame),
                            ),
                            result: Ok(AppliedDenialEvent::BufferReleased(released)),
                        },
                    }
                },
                DenialView::Presented { timestamp_nanos, .. } => if !known {
                    self.kept(session, unknown)
                } else {
                    EventOutcome {
                        binding: self,
                        session: session.with_composer(
                            self.display,
                            composer.sampled(timestamp_nanos),
                        ),
                        result: match composer.sample(timestamp_nanos) {
                            Ok(sample) => Ok(AppliedDenialEvent::Presented(sample)),
                            Err(error) => Err(DenialBridgeError::Composer(error)),
                        },
                    }
                },
                DenialView::Input { serial, timestamp_nanos, event, .. } => self.kept(
                    session,
                    Ok(AppliedDenialEvent::Input { serial, timestamp_nanos, event }),
                ),
                _ => self.kept(session, Err(DenialBridgeError::UnexpectedMessage)),
            }
        }
    }
}

/// Android-side binding of one Composer logical display to one Denial task.
#[derive(Debug)]
pub struct DenialTaskBinding {
    object: TaskObjectId,
    task: Option<TaskId>,
    display: DisplayId,
    package: String,
    acknowledged_configure: Option<u32>,
    next_timeline_point: u64,
    pending_release_points: BTreeMap<u64, u64>,
}

impl View for DenialTaskBinding {
    type V = BindingModel;

    closed spec fn view(&self) -> BindingModel {
        BindingModel {
            object: self.object,
            task: self.task,
            display: self.display,
            package: self.package@,
            acknowledged_configure: self.acknowledged_configure,
            next_timeline_point: self.next_timeline_point,
            pending: self.pending_release_points@,
        }
    }
}

impl DenialTaskBinding {
    /// Bind an existing task/display mapping to a non-zero protocol object.
    pub fn new(object: TaskObjectId, reservation: &ReservedTaskWindowSpec) -> (result: Result<
        DenialTaskBinding,
        DenialBridgeError,
    >)
        ensures
            match result {
                Ok(binding) => {
                    &&& object.0 != 0
                    &&& binding@ == BindingModel::fresh(object, *reservation)
                    &&& binding@.wf()
                },
                Err(error) => object.0 == 0 && error == DenialBridgeError::UnexpectedMessage,
            },
    {
        if object.0 == 0 {
            return Err(DenialBridgeError::UnexpectedMessage);
        }
        Ok(
            DenialTaskBinding {
                object,
                task: None,
                display: reservation.display,
                package: reservation.package.clone(),
                acknowledged_configure: None,
                next_timeline_point: 0,
                pending_release_points: BTreeMap::new(),
            },
        )
    }

    /// Return the independent Denial task object.
    pub fn object(&self) -> (object: TaskObjectId)
        ensures
            object == self@.object,
    {
        self.object
    }

    /// Return the dedicated Android logical display.
    pub fn display(&self) -> (display: DisplayId)
        ensures
            display == self@.display,
    {
        self.display
    }

    /// Return the real Android task identity once the launch controller bound it.
    pub fn task(&self) -> (task: Option<TaskId>)
        ensures
            task == self@.task,
    {
        self.task
    }

    /// Build the task-creation request from the trusted local mapping.
    pub fn create_task_message(&self) -> (message: AndroidMessage)
        ensures
            message@ == (AndroidView::CreateTask {
                object: self@.object,
                display: AndroidDisplayId(self@.display.0),
                package: self@.package,
            }),
    {
        AndroidMessage::CreateTask {
            object: self.object,
            display: AndroidDisplayId(self.display.0),
            package: self.package.clone(),
        }
    }

    /// Bind the real `ActivityTaskManager` identity after the display is live.
    pub fn bind_task_message(&self, task: TaskId) -> (result: Result<
        AndroidMessage,
        DenialBridgeError,
    >)
        ensures
            match result {
                Ok(message) => {
                    &&& self@.may_bind(task)
                    &&& message@ == (AndroidView::BindTask {
                        object: self@.object,
                        task: AndroidTaskId(task.0),
                    })
                },
                Err(error) => !self@.may_bind(task) && error
                    == DenialBridgeError::UnexpectedMessage,
            },
    {
        if task.0 == 0 || self.task.is_some() {
            return Err(DenialBridgeError::UnexpectedMessage);
        }
        Ok(AndroidMessage::BindTask { object: self.object, task: AndroidTaskId(task.0) })
    }

    /// Commit a task binding only after its wire record was sent.
    pub fn mark_task_bound(&mut self, task: TaskId) -> (result: Result<(), DenialBridgeError>)
        requires
            old(self)@.wf(),
        ensures
            final(self)@.wf(),
            result == (if old(self)@.may_bind(task) {
                Ok(())
            } else {
                Err(DenialBridgeError::UnexpectedMessage)
            }),
            final(self)@ == (if result is Ok {
                BindingModel { task: Some(task), ..old(self)@ }
            } else {
                old(self)@
            }),
    {
        if task.0 == 0 || self.task.is_some() {
            return Err(DenialBridgeError::UnexpectedMessage);
        }
        self.task = Some(task);
        Ok(())
    }

    /// Build the one-time task timeline binding request.
    pub fn bind_timelines_message(&self) -> (message: AndroidMessage)
        ensures
            message@ == (AndroidView::BindTimelines { object: self@.object }),
    {
        AndroidMessage::BindTimelines { object: self.object }
    }

    /// Build a one-time cached DMA-BUF registration request.
    pub fn register_buffer_message(&self, frame: &AcceptedFrame) -> (message: AndroidMessage)
        ensures
            message@ == (AndroidView::RegisterBuffer {
                object: self@.object,
                buffer: frame.buffer@,
            }),
    {
        AndroidMessage::RegisterBuffer { object: self.object, buffer: frame.buffer.duplicate() }
    }

    /// Acknowledge Composer's latest configure and build its wire request.
    ///
    /// `outcome` is how the transport answers the acknowledgement of `serial`;
    /// it is not read for an unknown display.
    pub fn acknowledge_configure(
        &mut self,
        session: &mut Session,
        serial: u32,
        outcome: Result<(), TransportError>,
    ) -> (result: Result<AndroidMessage, DenialBridgeError>)
        requires
            old(self)@.wf(),
            old(session)@.wf(),
        ensures
            final(self)@.wf(),
            final(session)@ == old(session)@,
            match (old(session)@.windows.windows.contains_key(old(self)@.display.0), outcome) {
                (false, _) => {
                    &&& result == Err::<AndroidMessage, DenialBridgeError>(
                        DenialBridgeError::Task(
                            TaskWindowError::UnknownDisplay(old(self)@.display),
                        ),
                    )
                    &&& final(self)@ == old(self)@
                },
                (true, Err(error)) => {
                    &&& result == Err::<AndroidMessage, DenialBridgeError>(
                        DenialBridgeError::Composer(ComposerError::Transport(error)),
                    )
                    &&& final(self)@ == old(self)@
                },
                (true, Ok(_)) => {
                    &&& result is Ok
                    &&& result->Ok_0@ == (AndroidView::AckConfigure {
                        object: old(self)@.object,
                        serial,
                    })
                    &&& final(self)@ == (BindingModel {
                        acknowledged_configure: Some(serial),
                        ..old(self)@
                    })
                },
            },
    {
        let windows = session.windows_mut();
        let composer = match windows.composer_for_display_mut(self.display) {
            Ok(composer) => composer,
            Err(error) => {
                return Err(DenialBridgeError::Task(error));
            },
        };
        let result = composer.acknowledge_configure(serial, outcome);
        proof {
            lemma_same_composer(old(session)@, self.display);
        }
        if let Err(error) = result {
            return Err(DenialBridgeError::Composer(error));
        }
        self.acknowledged_configure = Some(serial);
        Ok(AndroidMessage::AckConfigure { object: self.object, serial })
    }

    /// Allocate monotonic points and build one descriptor-free present.
    ///
    /// The platform adapter imports the real acquire fence before sending
    /// `message`. After sending, it waits only for release-point availability
    /// and exports the still-unsignalled point. Skipping point values after a
    /// failed syscall is valid; point reuse is not.
    pub fn prepare_present(&mut self, display: DisplayId, frame: &AcceptedFrame) -> (result: Result<
        PreparedPresent,
        DenialBridgeError,
    >)
        requires
            old(self)@.wf(),
        ensures
            final(self)@.wf(),
            match old(self)@.prepare_error(display, frame.frame_id) {
                Some(error) => {
                    &&& result == Err::<PreparedPresent, DenialBridgeError>(error)
                    &&& final(self)@ == old(self)@
                },
                None => {
                    let point = (old(self)@.next_timeline_point + 1) as u64;
                    &&& result is Ok
                    &&& result->Ok_0.acquire_point == point
                    &&& result->Ok_0.release_point == point
                    &&& result->Ok_0.message@ == (AndroidView::Present {
                        object: old(self)@.object,
                        frame: frame.frame_id,
                        buffer: frame.buffer.id,
                        configure_serial: old(self)@.acknowledged_configure->0,
                        acquire_point: point,
                        release_point: point,
                        damage: frame.damage@,
                    })
                    &&& final(self)@ == old(self)@.prepared(frame.frame_id)
                },
            },
    {
        if display != self.display {
            return Err(DenialBridgeError::UnexpectedMessage);
        }
        let configure_serial: u32 = match self.acknowledged_configure {
            Some(serial) => serial,
            None => {
                return Err(DenialBridgeError::UnexpectedMessage);
            },
        };
        if self.next_timeline_point == u64::MAX {
            return Err(DenialBridgeError::TimelineExhausted);
        }
        let point: u64 = self.next_timeline_point + 1;
        if self.pending_release_points.contains_key(&frame.frame_id.0) {
            return Err(DenialBridgeError::UnexpectedMessage);
        }
        self.next_timeline_point = point;
        self.pending_release_points.insert(frame.frame_id.0, point);
        let damage = frame.damage.clone();
        assert(damage@ =~= frame.damage@);
        Ok(
            PreparedPresent {
                message: AndroidMessage::Present {
                    object: self.object,
                    frame: frame.frame_id,
                    buffer: frame.buffer.id,
                    configure_serial,
                    acquire_point: point,
                    release_point: point,
                    damage,
                },
                acquire_point: point,
                release_point: point,
            },
        )
    }

    /// Forget a prepared frame after a failure known to precede a successful
    /// `Present` send. The timeline point remains consumed and is never reused.
    pub fn cancel_unsubmitted_present(&mut self, frame: FrameId, release_point: u64) -> (result:
        Result<(), DenialBridgeError>)
        requires
            old(self)@.wf(),
        ensures
            final(self)@.wf(),
            result == (if old(self)@.waits(frame, release_point) {
                Ok(())
            } else {
                Err(DenialBridgeError::ReleaseMismatch)
            }),
            final(self)@ == (if result is Ok {
                old(self)@.without_frame(frame)
            } else {
                old(self)@
            }),
    {
        if !self.awaits(frame, release_point) {
            return Err(DenialBridgeError::ReleaseMismatch);
        }
        self.pending_release_points.remove(&frame.0);
        Ok(())
    }

    fn awaits(&self, frame: FrameId, release_point: u64) -> (waits: bool)
        ensures
            waits == self@.waits(frame, release_point),
    {
        match self.pending_release_points.get(&frame.0) {
            Some(point) => *point == release_point,
            None => false,
        }
    }

    /// Apply one task-scoped Denial event to Composer state.
    ///
    /// Lifecycle, inset, and input events are returned for the Android session
    /// service. Feedback, configure, release, and timing also update Composer.
    /// `outcome` is how the transport answers the release of the frame that a
    /// buffer release names; no other event reads it.
    pub fn apply_event(
        &mut self,
        session: &mut Session,
        message: &DenialMessage,
        outcome: Result<ReleasedFrame, TransportError>,
    ) -> (result: Result<AppliedDenialEvent, DenialBridgeError>)
        requires
            old(self)@.wf(),
            old(session)@.wf(),
        ensures
            final(self)@.wf(),
            final(session)@.wf(),
            ({
                let after = old(self)@.event(old(session)@, message@, outcome);
                &&& result == after.result
                &&& final(self)@ == after.binding
                &&& final(session)@ == after.session
            }),
    {
        let object = match message_object(message) {
            Some(object) => object,
            None => {
                return Err(DenialBridgeError::UnexpectedMessage);
            },
        };
        if object != self.object {
            return Err(
                DenialBridgeError::WrongObject { expected: self.object, actual: object },
            );
        }
        let display = self.display;
        proof {
            if session@.windows.windows.contains_key(display.0) {
                assert(session@.windows.window_wf(display.0));
            }
        }
        match message {
            DenialMessage::FormatFeedback { generation, formats, .. } => {
                let copy = formats.clone();
                assert(copy@ =~= formats@);
                let windows = session.windows_mut();
                let composer = match windows.composer_for_display_mut(display) {
                    Ok(composer) => composer,
                    Err(error) => {
                        return Err(DenialBridgeError::Task(error));
                    },
                };
                composer.replace_feedback(copy);
                let ghost after = composer@;
                proof {
                    law_displays_are_isolated(old(session)@.windows, display, after, 0);
                }
                Ok(AppliedDenialEvent::FormatFeedback { generation: *generation })
            },
            DenialMessage::Configure {
                serial,
                width,
                height,
                scale_numerator,
                scale_denominator,
                transform,
                refresh_millihz,
                ..
            } => {
                let windows = session.windows_mut();
                let composer = match windows.composer_for_display_mut(display) {
                    Ok(composer) => composer,
                    Err(error) => {
                        return Err(DenialBridgeError::Task(error));
                    },
                };
                composer.configure(
                    Configure {
                        serial: *serial,
                        width: *width,
                        height: *height,
                        refresh_millihz: *refresh_millihz,
                    },
                );
                let ghost after = composer@;
                proof {
                    law_displays_are_isolated(old(session)@.windows, display, after, 0);
                }
                self.acknowledged_configure = None;
                Ok(
                    AppliedDenialEvent::Configure {
                        serial: *serial,
                        width: *width,
                        height: *height,
                        scale_numerator: *scale_numerator,
                        scale_denominator: *scale_denominator,
                        transform: *transform,
                        refresh_millihz: *refresh_millihz,
                    },
                )
            },
            DenialMessage::Insets { left, top, right, bottom, .. } => Ok(
                AppliedDenialEvent::Insets {
                    left: *left,
                    top: *top,
                    right: *right,
                    bottom: *bottom,
                },
            ),
            DenialMessage::Visibility { visibility, focused, .. } => Ok(
                AppliedDenialEvent::Visibility { visibility: *visibility, focused: *focused },
            ),
            DenialMessage::Close { .. } => Ok(AppliedDenialEvent::Close),
            DenialMessage::BufferReleased { frame, buffer, release_point, .. } => {
                if !self.awaits(*frame, *release_point) {
                    return Err(DenialBridgeError::ReleaseMismatch);
                }
                let windows = session.windows_mut();
                let composer = match windows.composer_for_display_mut(display) {
                    Ok(composer) => composer,
                    Err(error) => {
                        return Err(DenialBridgeError::Task(error));
                    },
                };
                let owned: bool = match composer.in_flight_buffer(*frame) {
                    Some(owned) => owned == *buffer,
                    None => false,
                };
                if !owned {
                    proof {
                        lemma_same_composer(old(session)@, display);
                    }
                    return Err(DenialBridgeError::ReleaseMismatch);
                }
                let released = composer.release_presented_target(*frame, outcome);
                let ghost after = composer@;
                proof {
                    law_displays_are_isolated(old(session)@.windows, display, after, 0);
                    lemma_same_composer(old(session)@, display);
                }
                match released {
                    Ok(released) => {
                        self.pending_release_points.remove(&frame.0);
                        Ok(AppliedDenialEvent::BufferReleased(released))
                    },
                    Err(error) => Err(DenialBridgeError::Composer(error)),
                }
            },
            DenialMessage::Presented { timestamp_nanos, .. } => {
                let windows = session.windows_mut();
                let composer = match windows.composer_for_display_mut(display) {
                    Ok(composer) => composer,
                    Err(error) => {
                        return Err(DenialBridgeError::Task(error));
                    },
                };
                let sample = composer.presentation_sample(*timestamp_nanos);
                let ghost after = composer@;
                proof {
                    law_displays_are_isolated(old(session)@.windows, display, after, 0);
                }
                match sample {
                    Ok(sample) => Ok(AppliedDenialEvent::Presented(sample)),
                    Err(error) => Err(DenialBridgeError::Composer(error)),
                }
            },
            DenialMessage::Input { serial, timestamp_nanos, event, .. } => Ok(
                AppliedDenialEvent::Input {
                    serial: *serial,
                    timestamp_nanos: *timestamp_nanos,
                    event: *event,
                },
            ),
            DenialMessage::ServerHello { .. }
            | DenialMessage::Error { .. }
            | DenialMessage::Ping { .. }
            | DenialMessage::RegisterRenderTarget { .. }
            | DenialMessage::UnregisterRenderTarget { .. } => Err(
                DenialBridgeError::UnexpectedMessage,
            ),
        }
    }
}

/// To put back the same Composer changes nothing.
proof fn lemma_same_composer(model: SessionModel, display: DisplayId)
    requires
        model.windows.windows.contains_key(display.0),
    ensures
        model.with_composer(display, model.windows.windows[display.0].composer) == model,
{
    let after = model.with_composer(display, model.windows.windows[display.0].composer);
    assert(after.windows.windows =~= model.windows.windows);
}

/// Task object that a message is about, if any.
pub fn message_object(message: &DenialMessage) -> (object: Option<TaskObjectId>)
    ensures
        object == object_of(message@),
{
    match message {
        DenialMessage::FormatFeedback { object, .. }
        | DenialMessage::RegisterRenderTarget { object, .. }
        | DenialMessage::UnregisterRenderTarget { object, .. }
        | DenialMessage::Configure { object, .. }
        | DenialMessage::Insets { object, .. }
        | DenialMessage::Visibility { object, .. }
        | DenialMessage::Close { object }
        | DenialMessage::BufferReleased { object, .. }
        | DenialMessage::Presented { object, .. }
        | DenialMessage::Input { object, .. } => Some(*object),
        DenialMessage::Error { object, .. } => *object,
        DenialMessage::ServerHello { .. } | DenialMessage::Ping { .. } => None,
    }
}

/// Whatever the host sends, an event reaches only the display of its binding:
/// every other window, every task binding and the layer identities stay.
pub proof fn law_events_reach_only_the_bound_display(
    binding: BindingModel,
    session: SessionModel,
    message: DenialView,
    outcome: Result<ReleasedFrame, TransportError>,
    other: u64,
)
    requires
        other != binding.display.0,
    ensures
        ({
            let after = binding.event(session, message, outcome).session;
            &&& after.windows.windows.contains_key(other) == session.windows.windows.contains_key(
                other,
            )
            &&& after.windows.windows[other] == session.windows.windows[other]
            &&& after.windows.tasks == session.windows.tasks
            &&& after.next_layer == session.next_layer
        }),
{
}

/// An event for another task object changes nothing.
pub proof fn law_foreign_events_are_refused(
    binding: BindingModel,
    session: SessionModel,
    message: DenialView,
    outcome: Result<ReleasedFrame, TransportError>,
)
    requires
        object_of(message) != Some(binding.object),
    ensures
        ({
            let after = binding.event(session, message, outcome);
            &&& after.result is Err
            &&& after.binding == binding
            &&& after.session == session
        }),
{
}

/// Timeline points are handed out once: a later present gets a higher point,
/// whether or not the earlier frame was cancelled or released in between.
pub proof fn law_timeline_points_are_never_reused(
    binding: BindingModel,
    display: DisplayId,
    first: FrameId,
    second: FrameId,
)
    requires
        binding.wf(),
        binding.prepare_error(display, first) is None,
    ensures
        ({
            let cancelled = binding.prepared(first).without_frame(first);
            &&& cancelled.next_timeline_point == binding.next_timeline_point + 1
            &&& cancelled.prepare_error(display, second) is None ==> cancelled.prepared(
                second,
            ).pending[second.0] > binding.prepared(first).pending[first.0]
        }),
{
}

/// A cancelled present leaves the other pending frames as they were.
pub proof fn law_cancellation_undoes_preparation(
    binding: BindingModel,
    display: DisplayId,
    frame: FrameId,
)
    requires
        binding.wf(),
        binding.prepare_error(display, frame) is None,
    ensures
        binding.prepared(frame).wf(),
        binding.prepared(frame).waits(frame, (binding.next_timeline_point + 1) as u64),
        binding.prepared(frame).without_frame(frame).pending == binding.pending,
{
    assert(binding.prepared(frame).without_frame(frame).pending =~= binding.pending);
}

/// The release that the host confirms for a presented frame retires it in the
/// binding and in the Composer once, and a second confirmation is refused.
pub proof fn law_release_retires_a_frame_once(
    binding: BindingModel,
    session: SessionModel,
    message: DenialView,
    released: ReleasedFrame,
)
    requires
        binding.wf(),
        session.wf(),
        message is BufferReleased,
        binding.event(session, message, Ok(released)).result is Ok,
    ensures
        ({
            let after = binding.event(session, message, Ok(released));
            let frame = message->BufferReleased_frame;
            &&& after.result == Ok::<AppliedDenialEvent, DenialBridgeError>(
                AppliedDenialEvent::BufferReleased(released),
            )
            &&& !after.binding.pending.contains_key(frame.0)
            &&& !after.session.windows.windows[binding.display.0].composer.in_flight.contains_key(
                frame.0,
            )
            &&& after.binding.event(after.session, message, Ok(released)).result == Err::<
                AppliedDenialEvent,
                DenialBridgeError,
            >(DenialBridgeError::ReleaseMismatch)
        }),
{
}

/// Law: a frame is prepared on the binding's own display, after a configuration
/// was acknowledged, under the next point of the timeline, once.
pub proof fn law_frames_take_the_next_point(
    binding: BindingModel,
    display: DisplayId,
    frame: FrameId,
    other: u64,
)
    ensures
        binding.prepare_error(display, frame) is None <==> {
            &&& display == binding.display
            &&& binding.acknowledged_configure is Some
            &&& binding.next_timeline_point < 0xffff_ffff_ffff_ffff
            &&& !binding.pending.contains_key(frame.0)
        },
        binding.next_timeline_point < 0xffff_ffff_ffff_ffff ==> {
            let after = binding.prepared(frame);
            &&& after.next_timeline_point == binding.next_timeline_point + 1
            &&& after.pending.contains_key(frame.0)
            &&& after.pending[frame.0] == binding.next_timeline_point + 1
            &&& other != frame.0 ==> after.pending.contains_key(other)
                == binding.pending.contains_key(other)
            &&& after.waits(frame, (binding.next_timeline_point + 1) as u64)
            &&& after.display == binding.display
            &&& after.object == binding.object
            &&& after.acknowledged_configure == binding.acknowledged_configure
        },
{
}

/// Law: a task is bound once, and has an identity.
pub proof fn law_bindings_take_one_task(binding: BindingModel, task: TaskId)
    ensures
        binding.may_bind(task) <==> task.0 != 0 && binding.task is None,
{
}

/// Law: a new binding is for its reservation, has no task, no configuration and
/// no frame, and its timeline stands at zero.
pub proof fn law_new_bindings_are_empty(
    object: TaskObjectId,
    reservation: ReservedTaskWindowSpec,
)
    ensures
        ({
            let binding = BindingModel::fresh(object, reservation);
            &&& binding.object == object
            &&& binding.display == reservation.display
            &&& binding.package == reservation.package@
            &&& binding.task is None
            &&& binding.acknowledged_configure is None
            &&& binding.next_timeline_point == 0
            &&& binding.pending.len() == 0
        }),
{
}

/// Law: a configuration of the host becomes that of the display, number by
/// number, is reported in the same words and has to be acknowledged.
pub proof fn law_configurations_reach_the_display(
    binding: BindingModel,
    session: SessionModel,
    serial: u32,
    width: u32,
    height: u32,
    scale_numerator: u32,
    scale_denominator: u32,
    transform: crate::protocol::Transform,
    refresh_millihz: u32,
    outcome: Result<ReleasedFrame, TransportError>,
)
    requires
        session.windows.windows.contains_key(binding.display.0),
    ensures
        ({
            let message = DenialView::Configure {
                object: binding.object,
                serial,
                width,
                height,
                scale_numerator,
                scale_denominator,
                transform,
                refresh_millihz,
            };
            let applied = binding.event(session, message, outcome);
            let configure = applied.session.windows.windows[binding.display.0].composer.configure;
            &&& configure is Some
            &&& configure->0.serial == serial
            &&& configure->0.width == width
            &&& configure->0.height == height
            &&& configure->0.refresh_millihz == refresh_millihz
            &&& applied.binding.acknowledged_configure is None
            &&& applied.binding.pending == binding.pending
            &&& applied.result == Ok::<AppliedDenialEvent, DenialBridgeError>(
                AppliedDenialEvent::Configure {
                    serial,
                    width,
                    height,
                    scale_numerator,
                    scale_denominator,
                    transform,
                    refresh_millihz,
                },
            )
        }),
{
}

/// Law: what the host says of a task's window is passed on in the same words.
pub proof fn law_events_are_passed_on(
    binding: BindingModel,
    session: SessionModel,
    left: u32,
    top: u32,
    right: u32,
    bottom: u32,
    visibility: crate::protocol::Visibility,
    focused: bool,
    serial: u64,
    timestamp_nanos: u64,
    event: crate::protocol::InputEvent,
    outcome: Result<ReleasedFrame, TransportError>,
)
    ensures
        ({
            let object = binding.object;
            let insets = binding.event(
                session,
                (DenialView::Insets { object, left, top, right, bottom }),
                outcome,
            );
            let shown = binding.event(
                session,
                (DenialView::Visibility { object, visibility, focused }),
                outcome,
            );
            let close = binding.event(session, (DenialView::Close { object }), outcome);
            let input = binding.event(
                session,
                (DenialView::Input { object, serial, timestamp_nanos, event }),
                outcome,
            );
            &&& insets.result == Ok::<AppliedDenialEvent, DenialBridgeError>(
                AppliedDenialEvent::Insets { left, top, right, bottom },
            )
            &&& shown.result == Ok::<AppliedDenialEvent, DenialBridgeError>(
                AppliedDenialEvent::Visibility { visibility, focused },
            )
            &&& close.result == Ok::<AppliedDenialEvent, DenialBridgeError>(
                AppliedDenialEvent::Close,
            )
            &&& input.result == Ok::<AppliedDenialEvent, DenialBridgeError>(
                AppliedDenialEvent::Input { serial, timestamp_nanos, event },
            )
            &&& insets.binding == binding && shown.binding == binding && close.binding == binding
                && input.binding == binding
            &&& insets.session == session && shown.session == session && close.session == session
                && input.session == session
        }),
{
}

/// Law: a release is accepted for the frame, the buffer and the point that are
/// pending, and then ends that frame on both sides.
pub proof fn law_releases_match_what_is_pending(
    binding: BindingModel,
    session: SessionModel,
    frame: FrameId,
    buffer: crate::transport::BufferId,
    release_point: u64,
    outcome: Result<ReleasedFrame, TransportError>,
)
    requires
        session.windows.windows.contains_key(binding.display.0),
    ensures
        ({
            let message = DenialView::BufferReleased {
                object: binding.object,
                frame,
                buffer,
                release_point,
            };
            let applied = binding.event(session, message, outcome);
            let composer = session.windows.windows[binding.display.0].composer;
            &&& applied.result is Ok <==> {
                &&& binding.pending.contains_key(frame.0)
                &&& binding.pending[frame.0] == release_point
                &&& composer.in_flight.contains_key(frame.0)
                &&& composer.in_flight[frame.0] == buffer
                &&& outcome is Ok
            }
            &&& applied.result is Ok ==> {
                &&& !applied.binding.pending.contains_key(frame.0)
                &&& !applied.session.windows.windows[binding.display.0].composer.in_flight.contains_key(
                    frame.0,
                )
                &&& applied.result->Ok_0 == AppliedDenialEvent::BufferReleased(outcome->Ok_0)
            }
            &&& applied.result is Err ==> applied.binding == binding && applied.session == session
        }),
{
}

} // verus!
