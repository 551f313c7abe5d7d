//! Denial-side presentation state of one Android task.
//!
//! The socket adapter calls these operations only after the codec has checked
//! record framing and descriptor roles. Descriptor imports and timeline
//! operations stay with the adapter.

use std::collections::{BTreeMap, BTreeSet};

use vstd::prelude::*;

use super::fields::{
    buffer_error, configure_error, valid_object, validate_buffer, validate_configure,
};
use super::{
    BufferId, BufferMetadata, BufferView, Damage, DenialMessage, FormatModifier, FrameId,
    TaskObjectId, TransportError, WireError, MAX_BUFFERS_PER_TASK, MAX_DAMAGE_RECTS, MAX_FORMATS,
};

verus! {

broadcast use vstd::laws_cmp::group_laws_cmp;

/// Frame accepted by the Denial-side task receiver after all state checks.
#[derive(Clone, Debug, PartialEq, Eq)]
pub struct AcceptedWireFrame {
    /// Task receiving the frame.
    pub object: TaskObjectId,
    /// Unique frame identity.
    pub frame: FrameId,
    /// Cached allocation identity.
    pub buffer: BufferId,
    /// Acquire timeline point Denial must wait for.
    pub acquire_point: u64,
    /// Release timeline point Denial must signal after all use.
    pub release_point: u64,
    /// Validated buffer-coordinate damage.
    pub damage: Vec<Damage>,
}

/// Invalid transition in one Denial-native task presentation stream.
#[derive(Clone, Copy, Debug, PartialEq, Eq)]
#[allow(inconsistent_fields)]
pub enum TaskStateError {
    /// A message addressed a different task object.
    WrongObject {
        /// Receiver's task object.
        expected: TaskObjectId,
        /// Message task object.
        actual: TaskObjectId,
    },
    /// Timeline descriptors were bound more than once.
    TimelinesAlreadyBound,
    /// Present arrived before timeline descriptors were bound.
    TimelinesUnbound,
    /// Feedback generation repeated or moved backwards.
    FeedbackRegression {
        /// Last accepted generation.
        previous: u32,
        /// Rejected generation.
        actual: u32,
    },
    /// Present arrived before any host configure.
    MissingConfigure,
    /// An acknowledgement used an unknown future serial, or a present did not
    /// use the latest configure serial.
    StaleConfigure {
        /// Latest host serial.
        expected: u32,
        /// Rejected serial.
        actual: u32,
    },
    /// Present arrived before the current configure was acknowledged.
    UnacknowledgedConfigure,
    /// A buffer ID was registered twice.
    DuplicateBuffer(BufferId),
    /// The per-task registration table is full.
    BufferLimit,
    /// A message named an unregistered allocation.
    UnknownBuffer(BufferId),
    /// An allocation is still sampled, scanned out, or awaiting release.
    BufferInFlight(BufferId),
    /// A frame identity was reused before release.
    DuplicateFrame(FrameId),
    /// A release named a frame not owned by the task.
    UnknownFrame(FrameId),
    /// A release event did not match the accepted frame tuple.
    ReleaseMismatch,
    /// Acquire or release point repeated or moved backwards.
    TimelineRegression {
        /// Timeline whose point regressed.
        timeline: &'static str,
        /// Last accepted point.
        previous: u64,
        /// Rejected point.
        actual: u64,
    },
    /// Registered allocation does not match the latest configured dimensions.
    SizeMismatch,
    /// Current feedback does not admit the allocation's explicit format.
    UnsupportedFormat,
    /// Damage is outside the registered allocation.
    InvalidDamage,
    /// Wire-level metadata validation failed.
    Wire(WireError),
}

/// Buffer and release point of a frame that Denial owns.
#[derive(Clone, Copy, Debug, PartialEq, Eq, Structural)]
pub struct PendingWireFrame {
    /// Buffer of the frame.
    pub buffer: BufferId,
    /// Release point that ends the frame.
    pub release_point: u64,
}

/// Latest configure: serial, width and height.
#[derive(Clone, Copy, Debug, PartialEq, Eq, Structural)]
pub struct ConfiguredSize {
    /// Configure serial.
    pub serial: u32,
    /// Required buffer width.
    pub width: u32,
    /// Required buffer height.
    pub height: u32,
}

/// Model of a [`TaskPresentationState`].
#[verifier::ext_equal]
pub struct TaskModel {
    pub object: TaskObjectId,
    pub timelines_bound: bool,
    pub feedback_generation: u32,
    pub feedback: Set<(u32, u64)>,
    pub configure: Option<ConfiguredSize>,
    pub acknowledged_serial: Option<u32>,
    pub buffers: Map<u64, BufferView>,
    pub in_flight: Map<u64, PendingWireFrame>,
    pub busy: Set<u64>,
    pub last_acquire_point: u64,
    pub last_release_point: u64,
}

/// What a present or a superseded present asks for.
#[derive(Clone, Copy, Debug, PartialEq, Eq, Structural)]
pub struct PresentRequest {
    /// Addressed task.
    pub object: TaskObjectId,
    /// Unique frame identity.
    pub frame: FrameId,
    /// Previously registered allocation.
    pub buffer: BufferId,
    /// Configure serial governing the buffer's dimensions.
    pub configure_serial: u32,
    /// Point to wait for on the acquire timeline.
    pub acquire_point: u64,
    /// Point to signal on the release timeline.
    pub release_point: u64,
}

/// Format pairs of a feedback list.
pub open spec fn format_pairs(formats: Seq<FormatModifier>) -> Set<(u32, u64)> {
    formats.map_values(|format: FormatModifier| (format.fourcc, format.modifier)).to_set()
}

/// Whether `actual` was issued before `expected` in the wrapping order of
/// configure serials: at most half the serial range lies between them.
pub open spec fn precedes(actual: u32, expected: u32) -> bool {
    0 < (expected - actual) % 0x1_0000_0000 < 0x8000_0000
}

/// Whether a damage rectangle is not empty and lies inside a buffer.
pub open spec fn inside(rect: Damage, width: u32, height: u32) -> bool {
    &&& 0 < rect.width
    &&& 0 < rect.height
    &&& rect.x + rect.width <= width
    &&& rect.y + rect.height <= height
}

/// Whether a present can carry this damage.
pub open spec fn drawable(damage: Seq<Damage>, width: u32, height: u32) -> bool {
    &&& damage.len() <= MAX_DAMAGE_RECTS
    &&& forall|i: int| 0 <= i < damage.len() ==> inside(#[trigger] damage[i], width, height)
}

/// A point that is not newer than the last one of its timeline.
pub open spec fn point_error(timeline: &'static str, previous: u64, actual: u64) -> Option<
    TaskStateError,
> {
    if actual > previous {
        None
    } else {
        Some(TaskStateError::TimelineRegression { timeline, previous, actual })
    }
}

impl TaskModel {
    /// The invariant of every reachable state: frames in flight own distinct
    /// registered buffers, which are exactly the busy ones; only the latest
    /// configure can be acknowledged; no consumed point lies ahead.
    pub open spec fn wf(self) -> bool {
        &&& self.object.0 != 0
        &&& self.buffers.dom().finite()
        &&& self.buffers.len() <= MAX_BUFFERS_PER_TASK
        &&& self.in_flight.dom().finite()
        &&& forall|id: u64| #[trigger]
            self.buffers.contains_key(id) ==> self.buffers[id].id.0 == id
        &&& forall|id: u64| #[trigger] self.busy.contains(id) ==> self.buffers.contains_key(id)
        &&& forall|frame: u64| #[trigger]
            self.in_flight.contains_key(frame) ==> {
                &&& self.busy.contains(self.in_flight[frame].buffer.0)
                &&& self.in_flight[frame].release_point <= self.last_release_point
            }
        &&& forall|id: u64| #[trigger]
            self.busy.contains(id) ==> exists|frame: u64| #[trigger]
                self.in_flight.contains_key(frame) && self.in_flight[frame].buffer.0 == id
        &&& forall|a: u64, b: u64|
            self.in_flight.contains_key(a) && self.in_flight.contains_key(b) && a != b
                ==> #[trigger] self.in_flight[a].buffer != #[trigger] self.in_flight[b].buffer
        &&& self.acknowledged_serial is Some ==> self.configure is Some && self.configure->0.serial
            == self.acknowledged_serial->0
    }

    /// State of a new task.
    pub open spec fn fresh(object: TaskObjectId) -> TaskModel {
        TaskModel {
            object,
            timelines_bound: false,
            feedback_generation: 0,
            feedback: Set::empty(),
            configure: None,
            acknowledged_serial: None,
            buffers: Map::empty(),
            in_flight: Map::empty(),
            busy: Set::empty(),
            last_acquire_point: 0,
            last_release_point: 0,
        }
    }

    /// First reason to reject a feedback generation.
    pub open spec fn feedback_error(
        self,
        generation: u32,
        formats: Seq<FormatModifier>,
    ) -> Option<TaskStateError> {
        let pairs = format_pairs(formats);
        if generation <= self.feedback_generation {
            Some(
                TaskStateError::FeedbackRegression {
                    previous: self.feedback_generation,
                    actual: generation,
                },
            )
        } else if pairs.len() == 0 || pairs.len() > MAX_FORMATS {
            Some(TaskStateError::Wire(WireError::Limit { field: "format feedback" }))
        } else if exists|i: int|
            0 <= i < formats.len() && (#[trigger] formats[i]).modifier == u64::MAX {
            Some(
                TaskStateError::Wire(
                    WireError::InvalidEnum { field: "DRM modifier", value: u64::MAX },
                ),
            )
        } else {
            None
        }
    }

    /// State after an accepted feedback generation.
    pub open spec fn with_feedback(self, generation: u32, formats: Seq<FormatModifier>) -> TaskModel {
        TaskModel {
            feedback_generation: generation,
            feedback: format_pairs(formats),
            ..self
        }
    }

    /// State after a configure: an older acknowledgement no longer counts.
    pub open spec fn with_configure(self, serial: u32, width: u32, height: u32) -> TaskModel {
        TaskModel {
            configure: Some(ConfiguredSize { serial, width, height }),
            acknowledged_serial: if self.configure is Some && self.configure->0.serial == serial {
                self.acknowledged_serial
            } else {
                None
            },
            ..self
        }
    }

    /// First reason to reject an acknowledgement.
    pub open spec fn acknowledge_error(self, serial: u32) -> Option<TaskStateError> {
        match self.configure {
            None => Some(TaskStateError::MissingConfigure),
            Some(latest) => if serial == latest.serial || precedes(serial, latest.serial) {
                None
            } else {
                Some(
                    TaskStateError::StaleConfigure { expected: latest.serial, actual: serial },
                )
            },
        }
    }

    /// State after an accepted acknowledgement: only the latest serial counts.
    pub open spec fn with_acknowledgement(self, serial: u32) -> TaskModel {
        if self.configure is Some && self.configure->0.serial == serial {
            TaskModel { acknowledged_serial: Some(serial), ..self }
        } else {
            self
        }
    }

    /// First reason to refuse an allocation; `verdict` is what the transport
    /// says of its metadata.
    pub open spec fn register_error(
        self,
        buffer: BufferView,
        verdict: Result<(), TransportError>,
    ) -> Option<TaskStateError> {
        match buffer_error("buffer identity or modifier", buffer, verdict) {
            Some(error) => Some(TaskStateError::Wire(error)),
            None => if self.buffers.contains_key(buffer.id.0) {
                Some(TaskStateError::DuplicateBuffer(buffer.id))
            } else if self.buffers.len() >= MAX_BUFFERS_PER_TASK {
                Some(TaskStateError::BufferLimit)
            } else {
                None
            },
        }
    }

    /// State with one more allocation.
    pub open spec fn with_buffer(self, buffer: BufferView) -> TaskModel {
        TaskModel { buffers: self.buffers.insert(buffer.id.0, buffer), ..self }
    }

    /// State without one allocation.
    pub open spec fn without_buffer(self, buffer: BufferId) -> TaskModel {
        TaskModel { buffers: self.buffers.remove(buffer.0), ..self }
    }

    /// First reason to refuse to retire an allocation.
    pub open spec fn unregister_error(self, buffer: BufferId) -> Option<TaskStateError> {
        if self.busy.contains(buffer.0) {
            Some(TaskStateError::BufferInFlight(buffer))
        } else if !self.buffers.contains_key(buffer.0) {
            Some(TaskStateError::UnknownBuffer(buffer))
        } else {
            None
        }
    }

    /// First reason to reject a present.
    pub open spec fn present_error(self, request: PresentRequest, damage: Seq<Damage>) -> Option<
        TaskStateError,
    > {
        if request.object != self.object {
            Some(TaskStateError::WrongObject { expected: self.object, actual: request.object })
        } else if !self.timelines_bound {
            Some(TaskStateError::TimelinesUnbound)
        } else if self.configure is None {
            Some(TaskStateError::MissingConfigure)
        } else {
            let latest = self.configure->0;
            let metadata = self.buffers[request.buffer.0];
            if request.configure_serial != latest.serial {
                Some(
                    TaskStateError::StaleConfigure {
                        expected: latest.serial,
                        actual: request.configure_serial,
                    },
                )
            } else if self.acknowledged_serial != Some(latest.serial) {
                Some(TaskStateError::UnacknowledgedConfigure)
            } else if !self.buffers.contains_key(request.buffer.0) {
                Some(TaskStateError::UnknownBuffer(request.buffer))
            } else if metadata.width != latest.width || metadata.height != latest.height {
                Some(TaskStateError::SizeMismatch)
            } else if !self.feedback.contains((metadata.format.fourcc, metadata.format.modifier)) {
                Some(TaskStateError::UnsupportedFormat)
            } else {
                match self.reuse_error(request) {
                    Some(error) => Some(error),
                    None => if drawable(damage, latest.width, latest.height) {
                        None
                    } else {
                        Some(TaskStateError::InvalidDamage)
                    },
                }
            }
        }
    }

    /// First reuse of a buffer, frame or point that Denial still owns or has
    /// already seen.
    pub open spec fn reuse_error(self, request: PresentRequest) -> Option<TaskStateError> {
        if self.busy.contains(request.buffer.0) {
            Some(TaskStateError::BufferInFlight(request.buffer))
        } else if self.in_flight.contains_key(request.frame.0) {
            Some(TaskStateError::DuplicateFrame(request.frame))
        } else {
            match point_error("acquire", self.last_acquire_point, request.acquire_point) {
                Some(error) => Some(error),
                None => point_error("release", self.last_release_point, request.release_point),
            }
        }
    }

    /// State after an accepted present.
    pub open spec fn with_present(self, request: PresentRequest) -> TaskModel {
        TaskModel {
            last_acquire_point: request.acquire_point,
            last_release_point: request.release_point,
            busy: self.busy.insert(request.buffer.0),
            in_flight: self.in_flight.insert(
                request.frame.0,
                PendingWireFrame { buffer: request.buffer, release_point: request.release_point },
            ),
            ..self
        }
    }

    /// First reason to reject a present as superseded.
    pub open spec fn discard_error(self, request: PresentRequest) -> Option<TaskStateError> {
        if request.object != self.object {
            Some(TaskStateError::WrongObject { expected: self.object, actual: request.object })
        } else if !self.timelines_bound {
            Some(TaskStateError::TimelinesUnbound)
        } else if self.configure is None {
            Some(TaskStateError::MissingConfigure)
        } else if !precedes(request.configure_serial, self.configure->0.serial) {
            Some(
                TaskStateError::StaleConfigure {
                    expected: self.configure->0.serial,
                    actual: request.configure_serial,
                },
            )
        } else {
            self.reuse_error(request)
        }
    }

    /// State after a discarded present: its points are consumed.
    pub open spec fn with_discarded(self, request: PresentRequest) -> TaskModel {
        TaskModel {
            last_acquire_point: request.acquire_point,
            last_release_point: request.release_point,
            ..self
        }
    }

    /// First reason to reject the end of a frame.
    pub open spec fn release_error(
        self,
        frame: FrameId,
        buffer: BufferId,
        release_point: u64,
    ) -> Option<TaskStateError> {
        if !self.in_flight.contains_key(frame.0) {
            Some(TaskStateError::UnknownFrame(frame))
        } else if self.in_flight[frame.0] != (PendingWireFrame { buffer, release_point }) {
            Some(TaskStateError::ReleaseMismatch)
        } else {
            None
        }
    }

    /// State after the end of a frame.
    pub open spec fn without_frame(self, frame: FrameId, buffer: BufferId) -> TaskModel {
        TaskModel {
            in_flight: self.in_flight.remove(frame.0),
            busy: self.busy.remove(buffer.0),
            ..self
        }
    }
}

/// Denial-side state for one Android task object.
#[derive(Debug)]
pub struct TaskPresentationState {
    object: TaskObjectId,
    timelines_bound: bool,
    feedback_generation: u32,
    feedback: BTreeSet<(u32, u64)>,
    configure: Option<ConfiguredSize>,
    acknowledged_serial: Option<u32>,
    buffers: BTreeMap<u64, BufferMetadata>,
    in_flight: BTreeMap<u64, PendingWireFrame>,
    busy_buffers: BTreeSet<u64>,
    last_acquire_point: u64,
    last_release_point: u64,
}

impl View for TaskPresentationState {
    type V = TaskModel;

    closed spec fn view(&self) -> TaskModel {
        TaskModel {
            object: self.object,
            timelines_bound: self.timelines_bound,
            feedback_generation: self.feedback_generation,
            feedback: self.feedback@,
            configure: self.configure,
            acknowledged_serial: self.acknowledged_serial,
            buffers: self.buffers@.map_values(|buffer: BufferMetadata| buffer@),
            in_flight: self.in_flight@,
            busy: self.busy_buffers@,
            last_acquire_point: self.last_acquire_point,
            last_release_point: self.last_release_point,
        }
    }
}

/// Result of an operation that fails with the first error found.
pub open spec fn outcome(error: Option<TaskStateError>) -> Result<(), TaskStateError> {
    match error {
        Some(error) => Err(error),
        None => Ok(()),
    }
}

fn require_newer_point(timeline: &'static str, previous: u64, actual: u64) -> (result: Result<
    (),
    TaskStateError,
>)
    ensures
        result == outcome(point_error(timeline, previous, actual)),
{
    if actual > previous {
        Ok(())
    } else {
        Err(TaskStateError::TimelineRegression { timeline, previous, actual })
    }
}

/// Whether `actual` is an older serial than `expected`, across a wrap of the
/// 32-bit counter.
pub fn serial_precedes(actual: u32, expected: u32) -> (older: bool)
    ensures
        older == precedes(actual, expected),
{
    let distance: u32 = expected.wrapping_sub(actual);
    assert(distance == (expected - actual) % 0x1_0000_0000);
    actual != expected && distance < 0x8000_0000
}

/// Whether every damage rectangle lies inside the configured size.
fn damage_fits(damage: &Vec<Damage>, width: u32, height: u32) -> (fits: bool)
    ensures
        fits == drawable(damage@, width, height),
{
    if damage.len() > MAX_DAMAGE_RECTS {
        return false;
    }
    let mut index: usize = 0;
    while index < damage.len()
        invariant
            index <= damage@.len() <= MAX_DAMAGE_RECTS,
            forall|i: int| 0 <= i < index ==> inside(#[trigger] damage@[i], width, height),
        decreases damage@.len() - index,
    {
        let rect: Damage = damage[index];
        let fits: bool = rect.width != 0 && rect.height != 0 && rect.x as u64 + rect.width as u64
            <= width as u64 && rect.y as u64 + rect.height as u64 <= height as u64;
        if !fits {
            assert(!inside(damage@[index as int], width, height));
            return false;
        }
        index = index + 1;
    }
    true
}

impl TaskPresentationState {
    /// Construct state for one non-zero task object.
    pub fn new(object: TaskObjectId) -> (result: Result<Self, TaskStateError>)
        ensures
            match result {
                Ok(state) => {
                    &&& object.0 != 0
                    &&& state@ == TaskModel::fresh(object)
                    &&& state@.wf()
                },
                Err(error) => {
                    &&& object.0 == 0
                    &&& error == TaskStateError::Wire(WireError::InvalidObject)
                },
            },
    {
        if let Err(error) = valid_object(object) {
            return Err(TaskStateError::Wire(error));
        }
        Ok(
            TaskPresentationState {
                object,
                timelines_bound: false,
                feedback_generation: 0,
                feedback: BTreeSet::new(),
                configure: None,
                acknowledged_serial: None,
                buffers: BTreeMap::new(),
                in_flight: BTreeMap::new(),
                busy_buffers: BTreeSet::new(),
                last_acquire_point: 0,
                last_release_point: 0,
            },
        )
    }

    /// Return this stream's task object.
    pub fn object(&self) -> (object: TaskObjectId)
        ensures
            object == self@.object,
    {
        self.object
    }

    /// Mark the task's acquire and release timeline descriptors imported.
    pub fn bind_timelines(&mut self) -> (result: Result<(), TaskStateError>)
        requires
            old(self)@.wf(),
        ensures
            final(self)@.wf(),
            match result {
                Ok(_) => {
                    &&& !old(self)@.timelines_bound
                    &&& final(self)@ == (TaskModel { timelines_bound: true, ..old(self)@ })
                },
                Err(error) => {
                    &&& old(self)@.timelines_bound
                    &&& error == TaskStateError::TimelinesAlreadyBound
                    &&& final(self)@ == old(self)@
                },
            },
    {
        if self.timelines_bound {
            return Err(TaskStateError::TimelinesAlreadyBound);
        }
        self.timelines_bound = true;
        Ok(())
    }

    /// Replace authoritative format/modifier feedback with a newer generation.
    pub fn replace_feedback(&mut self, generation: u32, formats: Vec<FormatModifier>) -> (result:
        Result<(), TaskStateError>)
        requires
            old(self)@.wf(),
        ensures
            final(self)@.wf(),
            result == outcome(old(self)@.feedback_error(generation, formats@)),
            final(self)@ == (if result is Ok {
                old(self)@.with_feedback(generation, formats@)
            } else {
                old(self)@
            }),
    {
        if generation <= self.feedback_generation {
            return Err(
                TaskStateError::FeedbackRegression {
                    previous: self.feedback_generation,
                    actual: generation,
                },
            );
        }
        let mut feedback: BTreeSet<(u32, u64)> = BTreeSet::new();
        let mut implicit: bool = false;
        let mut index: usize = 0;
        let ghost pairs = formats@.map_values(
            |format: FormatModifier| (format.fourcc, format.modifier),
        );
        assert(pairs.take(0).to_set() =~= Set::empty());
        while index < formats.len()
            invariant
                index <= formats@.len(),
                pairs == formats@.map_values(
                    |format: FormatModifier| (format.fourcc, format.modifier),
                ),
                feedback@ == pairs.take(index as int).to_set(),
                implicit <==> exists|i: int|
                    0 <= i < index && (#[trigger] formats@[i]).modifier == u64::MAX,
            decreases formats@.len() - index,
        {
            let format: FormatModifier = formats[index];
            if format.modifier == u64::MAX {
                implicit = true;
            }
            proof {
                let next = pairs.take(index + 1);
                assert(next.drop_last() =~= pairs.take(index as int));
                assert(next =~= pairs.take(index as int).push(pairs[index as int]));
                assert(next.to_set() =~= pairs.take(index as int).to_set().insert(
                    pairs[index as int],
                )) by {
                    assert forall|pair: (u32, u64)| next.contains(pair) implies pairs.take(
                        index as int,
                    ).to_set().insert(pairs[index as int]).contains(pair) by {
                        let k = choose|k: int| 0 <= k < next.len() && next[k] == pair;
                        if k < index {
                            assert(pairs.take(index as int)[k] == pair);
                        }
                    }
                    assert forall|pair: (u32, u64)|
                        pairs.take(index as int).to_set().insert(pairs[index as int]).contains(
                            pair,
                        ) implies next.contains(pair) by {
                        if pair == pairs[index as int] {
                            assert(next[index as int] == pair);
                        } else {
                            let k = choose|k: int|
                                0 <= k < index && pairs.take(index as int)[k] == pair;
                            assert(next[k] == pair);
                        }
                    }
                }
            }
            feedback.insert((format.fourcc, format.modifier));
            index = index + 1;
        }
        assert(pairs.take(index as int) =~= pairs);
        if feedback.len() == 0 || feedback.len() > MAX_FORMATS {
            return Err(TaskStateError::Wire(WireError::Limit { field: "format feedback" }));
        }
        if implicit {
            return Err(
                TaskStateError::Wire(
                    WireError::InvalidEnum { field: "DRM modifier", value: u64::MAX },
                ),
            );
        }
        self.feedback_generation = generation;
        self.feedback = feedback;
        Ok(())
    }

    /// Record the latest Denial configure and invalidate an older ack.
    pub fn configure(&mut self, serial: u32, width: u32, height: u32, refresh_millihz: u32) -> (result:
        Result<(), TaskStateError>)
        requires
            old(self)@.wf(),
        ensures
            final(self)@.wf(),
            result == (match configure_error(serial, width, height, 1, 1, refresh_millihz) {
                Some(error) => Err(TaskStateError::Wire(error)),
                None => Ok(()),
            }),
            final(self)@ == (if result is Ok {
                old(self)@.with_configure(serial, width, height)
            } else {
                old(self)@
            }),
    {
        if let Err(error) = validate_configure(serial, width, height, 1, 1, refresh_millihz) {
            return Err(TaskStateError::Wire(error));
        }
        let repeated: bool = match self.configure {
            Some(latest) => latest.serial == serial,
            None => false,
        };
        if !repeated {
            self.acknowledged_serial = None;
        }
        self.configure = Some(ConfiguredSize { serial, width, height });
        Ok(())
    }

    /// Acknowledge a configure serial that Android has consumed.
    ///
    /// A host may send a newer configure while Android's acknowledgement for
    /// the previous one is already in flight. Such superseded acknowledgements
    /// are valid but do not acknowledge the latest configure. A future serial
    /// remains a protocol error.
    pub fn acknowledge_configure(&mut self, serial: u32) -> (result: Result<(), TaskStateError>)
        requires
            old(self)@.wf(),
        ensures
            final(self)@.wf(),
            result == outcome(old(self)@.acknowledge_error(serial)),
            final(self)@ == (if result is Ok {
                old(self)@.with_acknowledgement(serial)
            } else {
                old(self)@
            }),
    {
        let latest = match self.configure {
            Some(latest) => latest,
            None => {
                return Err(TaskStateError::MissingConfigure);
            },
        };
        if serial == latest.serial {
            self.acknowledged_serial = Some(serial);
            return Ok(());
        }
        if serial_precedes(serial, latest.serial) {
            return Ok(());
        }
        Err(TaskStateError::StaleConfigure { expected: latest.serial, actual: serial })
    }

    /// Cache one successfully imported DMA-BUF allocation; `verdict` is what
    /// the transport says of its metadata.
    pub fn register_buffer(
        &mut self,
        buffer: BufferMetadata,
        verdict: Result<(), TransportError>,
    ) -> (result: Result<(), TaskStateError>)
        requires
            old(self)@.wf(),
        ensures
            final(self)@.wf(),
            result == outcome(old(self)@.register_error(buffer@, verdict)),
            final(self)@ == (if result is Ok {
                old(self)@.with_buffer(buffer@)
            } else {
                old(self)@
            }),
    {
        if let Err(error) = validate_buffer("buffer identity or modifier", &buffer, verdict) {
            return Err(TaskStateError::Wire(error));
        }
        let id: u64 = buffer.id.0;
        assert(self.buffers@.dom() =~= self@.buffers.dom());
        if self.buffers.contains_key(&id) {
            return Err(TaskStateError::DuplicateBuffer(buffer.id));
        }
        if self.buffers.len() as u64 >= MAX_BUFFERS_PER_TASK as u64 {
            return Err(TaskStateError::BufferLimit);
        }
        self.buffers.insert(id, buffer);
        assert(self@.buffers =~= old(self)@.buffers.insert(id, buffer@));
        Ok(())
    }

    /// Retire one idle cached DMA-BUF import.
    pub fn unregister_buffer(&mut self, buffer: BufferId) -> (result: Result<
        BufferMetadata,
        TaskStateError,
    >)
        requires
            old(self)@.wf(),
        ensures
            final(self)@.wf(),
            match result {
                Ok(metadata) => {
                    &&& old(self)@.unregister_error(buffer) is None
                    &&& metadata@ == old(self)@.buffers[buffer.0]
                    &&& final(self)@ == old(self)@.without_buffer(buffer)
                },
                Err(error) => {
                    &&& old(self)@.unregister_error(buffer) == Some(error)
                    &&& final(self)@ == old(self)@
                },
            },
    {
        if self.busy_buffers.contains(&buffer.0) {
            return Err(TaskStateError::BufferInFlight(buffer));
        }
        let removed = self.buffers.remove(&buffer.0);
        match removed {
            Some(metadata) => {
                assert(self@.buffers =~= old(self)@.buffers.remove(buffer.0));
                Ok(metadata)
            },
            None => {
                assert(self@.buffers =~= old(self)@.buffers);
                Err(TaskStateError::UnknownBuffer(buffer))
            },
        }
    }

    /// First reuse of a buffer, frame or point.
    fn require_unused(&self, request: PresentRequest) -> (result: Result<(), TaskStateError>)
        ensures
            result == outcome(self@.reuse_error(request)),
    {
        if self.busy_buffers.contains(&request.buffer.0) {
            return Err(TaskStateError::BufferInFlight(request.buffer));
        }
        if self.in_flight.contains_key(&request.frame.0) {
            return Err(TaskStateError::DuplicateFrame(request.frame));
        }
        require_newer_point("acquire", self.last_acquire_point, request.acquire_point)?;
        require_newer_point("release", self.last_release_point, request.release_point)
    }

    /// Validate and reserve one descriptor-free steady-state present.
    ///
    /// Enforces timeline and configure ordering, cached import compatibility,
    /// monotonic points, unique frames, damage bounds and release before reuse.
    pub fn present(
        &mut self,
        object: TaskObjectId,
        frame: FrameId,
        buffer: BufferId,
        configure_serial: u32,
        acquire_point: u64,
        release_point: u64,
        damage: Vec<Damage>,
    ) -> (result: Result<AcceptedWireFrame, TaskStateError>)
        requires
            old(self)@.wf(),
        ensures
            final(self)@.wf(),
            ({
                let request = PresentRequest {
                    object,
                    frame,
                    buffer,
                    configure_serial,
                    acquire_point,
                    release_point,
                };
                match result {
                    Ok(accepted) => {
                        &&& old(self)@.present_error(request, damage@) is None
                        &&& final(self)@ == old(self)@.with_present(request)
                        &&& accepted == (AcceptedWireFrame {
                            object,
                            frame,
                            buffer,
                            acquire_point,
                            release_point,
                            damage,
                        })
                    },
                    Err(error) => {
                        &&& old(self)@.present_error(request, damage@) == Some(error)
                        &&& final(self)@ == old(self)@
                    },
                }
            }),
    {
        self.require_object(object)?;
        if !self.timelines_bound {
            return Err(TaskStateError::TimelinesUnbound);
        }
        let latest = match self.configure {
            Some(latest) => latest,
            None => {
                return Err(TaskStateError::MissingConfigure);
            },
        };
        if configure_serial != latest.serial {
            return Err(
                TaskStateError::StaleConfigure {
                    expected: latest.serial,
                    actual: configure_serial,
                },
            );
        }
        let acknowledged: bool = match self.acknowledged_serial {
            Some(serial) => serial == latest.serial,
            None => false,
        };
        if !acknowledged {
            return Err(TaskStateError::UnacknowledgedConfigure);
        }
        let metadata = match self.buffers.get(&buffer.0) {
            Some(metadata) => metadata,
            None => {
                return Err(TaskStateError::UnknownBuffer(buffer));
            },
        };
        if metadata.width != latest.width || metadata.height != latest.height {
            return Err(TaskStateError::SizeMismatch);
        }
        let format: (u32, u64) = (metadata.format.fourcc, metadata.format.modifier);
        if !self.feedback.contains(&format) {
            return Err(TaskStateError::UnsupportedFormat);
        }
        let request = PresentRequest {
            object,
            frame,
            buffer,
            configure_serial,
            acquire_point,
            release_point,
        };
        self.require_unused(request)?;
        if !damage_fits(&damage, latest.width, latest.height) {
            return Err(TaskStateError::InvalidDamage);
        }
        self.last_acquire_point = acquire_point;
        self.last_release_point = release_point;
        self.busy_buffers.insert(buffer.0);
        self.in_flight.insert(frame.0, PendingWireFrame { buffer, release_point });
        proof {
            lemma_present_keeps_invariant(old(self)@, request, damage@);
        }
        Ok(AcceptedWireFrame { object, frame, buffer, acquire_point, release_point, damage })
    }

    /// Consume and immediately release a frame produced for a configure which
    /// the host superseded while Android was rendering it.
    ///
    /// Unlike [`Self::present`], this path does not require the old buffer to
    /// remain registered: Denial may have revoked the superseded target before
    /// its late present arrives. Its timeline points are consumed.
    pub fn discard_superseded_present(
        &mut self,
        object: TaskObjectId,
        frame: FrameId,
        buffer: BufferId,
        configure_serial: u32,
        acquire_point: u64,
        release_point: u64,
    ) -> (result: Result<DenialMessage, TaskStateError>)
        requires
            old(self)@.wf(),
        ensures
            final(self)@.wf(),
            ({
                let request = PresentRequest {
                    object,
                    frame,
                    buffer,
                    configure_serial,
                    acquire_point,
                    release_point,
                };
                match result {
                    Ok(message) => {
                        &&& old(self)@.discard_error(request) is None
                        &&& final(self)@ == old(self)@.with_discarded(request)
                        &&& message == (DenialMessage::BufferReleased {
                            object: old(self)@.object,
                            frame,
                            buffer,
                            release_point,
                        })
                    },
                    Err(error) => {
                        &&& old(self)@.discard_error(request) == Some(error)
                        &&& final(self)@ == old(self)@
                    },
                }
            }),
    {
        self.require_object(object)?;
        if !self.timelines_bound {
            return Err(TaskStateError::TimelinesUnbound);
        }
        let latest = match self.configure {
            Some(latest) => latest,
            None => {
                return Err(TaskStateError::MissingConfigure);
            },
        };
        if !serial_precedes(configure_serial, latest.serial) {
            return Err(
                TaskStateError::StaleConfigure {
                    expected: latest.serial,
                    actual: configure_serial,
                },
            );
        }
        let request = PresentRequest {
            object,
            frame,
            buffer,
            configure_serial,
            acquire_point,
            release_point,
        };
        self.require_unused(request)?;
        self.last_acquire_point = acquire_point;
        self.last_release_point = release_point;
        Ok(DenialMessage::BufferReleased { object: self.object, frame, buffer, release_point })
    }

    /// End a frame whose tuple matches.
    fn end_frame(&mut self, frame: FrameId, buffer: BufferId, release_point: u64) -> (result: Result<
        (),
        TaskStateError,
    >)
        requires
            old(self)@.wf(),
        ensures
            final(self)@.wf(),
            result == outcome(old(self)@.release_error(frame, buffer, release_point)),
            final(self)@ == (if result is Ok {
                old(self)@.without_frame(frame, buffer)
            } else {
                old(self)@
            }),
    {
        let pending: PendingWireFrame = match self.in_flight.get(&frame.0) {
            Some(pending) => *pending,
            None => {
                return Err(TaskStateError::UnknownFrame(frame));
            },
        };
        if pending.buffer != buffer || pending.release_point != release_point {
            return Err(TaskStateError::ReleaseMismatch);
        }
        self.in_flight.remove(&frame.0);
        self.busy_buffers.remove(&buffer.0);
        proof {
            assert(self@.busy =~= old(self)@.busy.remove(buffer.0));
            lemma_release_keeps_invariant(old(self)@, frame, buffer, release_point);
        }
        Ok(())
    }

    /// Complete a frame after Denial has signalled its release timeline point.
    ///
    /// Unknown frames and tuple mismatches do not release the buffer.
    pub fn release(&mut self, frame: FrameId, buffer: BufferId, release_point: u64) -> (result: Result<
        DenialMessage,
        TaskStateError,
    >)
        requires
            old(self)@.wf(),
        ensures
            final(self)@.wf(),
            match result {
                Ok(message) => {
                    &&& old(self)@.release_error(frame, buffer, release_point) is None
                    &&& final(self)@ == old(self)@.without_frame(frame, buffer)
                    &&& message == (DenialMessage::BufferReleased {
                        object: old(self)@.object,
                        frame,
                        buffer,
                        release_point,
                    })
                },
                Err(error) => {
                    &&& old(self)@.release_error(frame, buffer, release_point) == Some(error)
                    &&& final(self)@ == old(self)@
                },
            },
    {
        self.end_frame(frame, buffer, release_point)?;
        Ok(DenialMessage::BufferReleased { object: self.object, frame, buffer, release_point })
    }

    /// Roll back a present which failed before Denial submitted or otherwise
    /// began using its buffer. Timeline points remain consumed.
    pub fn cancel_unsubmitted(&mut self, frame: FrameId, buffer: BufferId, release_point: u64) -> (result:
        Result<(), TaskStateError>)
        requires
            old(self)@.wf(),
        ensures
            final(self)@.wf(),
            result == outcome(old(self)@.release_error(frame, buffer, release_point)),
            final(self)@ == (if result is Ok {
                old(self)@.without_frame(frame, buffer)
            } else {
                old(self)@
            }),
    {
        self.end_frame(frame, buffer, release_point)
    }

    /// Number of imported allocations cached for the task.
    pub fn registered_buffer_count(&self) -> (count: usize)
        ensures
            count == self@.buffers.len(),
    {
        assert(self.buffers@.dom() =~= self@.buffers.dom());
        self.buffers.len()
    }

    /// Check that a frame is in flight with exactly this buffer and point.
    pub fn check_in_flight(&self, frame: FrameId, buffer: BufferId, release_point: u64) -> (result:
        Result<(), TaskStateError>)
        ensures
            result == outcome(self@.release_error(frame, buffer, release_point)),
    {
        match self.in_flight.get(&frame.0) {
            Some(pending) => if pending.buffer == buffer && pending.release_point
                == release_point {
                Ok(())
            } else {
                Err(TaskStateError::ReleaseMismatch)
            },
            None => Err(TaskStateError::UnknownFrame(frame)),
        }
    }

    /// Number of frames still owned by Denial.
    pub fn in_flight_count(&self) -> (count: usize)
        ensures
            count == self@.in_flight.len(),
    {
        self.in_flight.len()
    }

    fn require_object(&self, object: TaskObjectId) -> (result: Result<(), TaskStateError>)
        ensures
            result == outcome(
                if object == self@.object {
                    None
                } else {
                    Some(
                        TaskStateError::WrongObject { expected: self@.object, actual: object },
                    )
                },
            ),
    {
        if object == self.object {
            Ok(())
        } else {
            Err(TaskStateError::WrongObject { expected: self.object, actual: object })
        }
    }
}

proof fn lemma_present_keeps_invariant(
    state: TaskModel,
    request: PresentRequest,
    damage: Seq<Damage>,
)
    requires
        state.wf(),
        state.present_error(request, damage) is None,
    ensures
        state.with_present(request).wf(),
{
    let next = state.with_present(request);
    assert(next.in_flight.contains_key(request.frame.0));
    assert forall|id: u64| #[trigger] next.busy.contains(id) implies exists|frame: u64| #[trigger]
        next.in_flight.contains_key(frame) && next.in_flight[frame].buffer.0 == id by {
        if id != request.buffer.0 {
            let frame = choose|frame: u64| #[trigger]
                state.in_flight.contains_key(frame) && state.in_flight[frame].buffer.0 == id;
            assert(next.in_flight.contains_key(frame));
        }
    }
}

proof fn lemma_release_keeps_invariant(
    state: TaskModel,
    frame: FrameId,
    buffer: BufferId,
    release_point: u64,
)
    requires
        state.wf(),
        state.release_error(frame, buffer, release_point) is None,
    ensures
        state.without_frame(frame, buffer).wf(),
{
    let next = state.without_frame(frame, buffer);
    assert forall|id: u64| #[trigger] next.busy.contains(id) implies exists|other: u64| #[trigger]
        next.in_flight.contains_key(other) && next.in_flight[other].buffer.0 == id by {
        let other = choose|other: u64| #[trigger]
            state.in_flight.contains_key(other) && state.in_flight[other].buffer.0 == id;
        assert(next.in_flight.contains_key(other));
    }
    assert forall|other: u64| #[trigger] next.in_flight.contains_key(other) implies next.busy.contains(
        next.in_flight[other].buffer.0,
    ) by {
        assert(state.in_flight.contains_key(other));
        assert(state.in_flight[other].buffer != state.in_flight[frame.0].buffer);
    }
}

/// Release before reuse: while a presented frame is in flight, its buffer can
/// neither be presented again nor retired, and its frame identity cannot be
/// presented again.
pub proof fn law_release_before_reuse(
    state: TaskModel,
    request: PresentRequest,
    damage: Seq<Damage>,
    again: PresentRequest,
    next_damage: Seq<Damage>,
)
    requires
        state.wf(),
        state.present_error(request, damage) is None,
        again.buffer == request.buffer || again.frame == request.frame,
    ensures
        state.with_present(request).present_error(again, next_damage) is Some,
        state.with_present(request).discard_error(again) is Some,
        state.with_present(request).unregister_error(request.buffer) == Some(
            TaskStateError::BufferInFlight(request.buffer),
        ),
{
}

/// Releasing or cancelling the frame of a present with its own tuple succeeds
/// and gives back every buffer and frame identity; only the two timeline
/// points stay consumed.
pub proof fn law_release_undoes_present(
    state: TaskModel,
    request: PresentRequest,
    damage: Seq<Damage>,
)
    requires
        state.wf(),
        state.present_error(request, damage) is None,
    ensures
        ({
            let presented = state.with_present(request);
            &&& presented.release_error(
                request.frame,
                request.buffer,
                request.release_point,
            ) is None
            &&& presented.without_frame(request.frame, request.buffer) == state.with_discarded(
                request,
            )
        }),
{
    let ended = state.with_present(request).without_frame(request.frame, request.buffer);
    assert(ended.in_flight =~= state.in_flight);
    assert(ended.busy =~= state.busy);
}

/// A release succeeds once: the frame is unknown afterwards.
pub proof fn law_release_is_final(
    state: TaskModel,
    frame: FrameId,
    buffer: BufferId,
    release_point: u64,
)
    requires
        state.wf(),
        state.release_error(frame, buffer, release_point) is None,
    ensures
        state.without_frame(frame, buffer).release_error(frame, buffer, release_point) == Some(
            TaskStateError::UnknownFrame(frame),
        ),
        state.without_frame(frame, buffer).unregister_error(buffer) is None,
{
}

/// Accepted and discarded presents both move the two timelines forward, and a
/// consumed point is never accepted again, not even after the frame ended.
pub proof fn law_points_only_advance(
    state: TaskModel,
    request: PresentRequest,
    damage: Seq<Damage>,
    again: PresentRequest,
    next_damage: Seq<Damage>,
)
    requires
        state.wf(),
        state.present_error(request, damage) is None || state.discard_error(request) is None,
        again.acquire_point <= request.acquire_point || again.release_point
            <= request.release_point,
    ensures
        request.acquire_point > state.last_acquire_point,
        request.release_point > state.last_release_point,
        state.with_present(request).without_frame(request.frame, request.buffer).present_error(
            again,
            next_damage,
        ) is Some,
        state.with_discarded(request).present_error(again, next_damage) is Some,
        state.with_discarded(request).discard_error(again) is Some,
{
}

/// An acknowledgement of a superseded configure is accepted and changes
/// nothing: the latest configure stays unacknowledged, and presents keep being
/// refused.
pub proof fn law_superseded_acknowledgement_is_ignored(
    state: TaskModel,
    serial: u32,
    width: u32,
    height: u32,
    older: u32,
    request: PresentRequest,
    damage: Seq<Damage>,
)
    requires
        state.wf(),
        state.configure is None || state.configure->0.serial != serial,
        precedes(older, serial),
    ensures
        ({
            let configured = state.with_configure(serial, width, height);
            &&& configured.acknowledge_error(older) is None
            &&& configured.with_acknowledgement(older) == configured
            &&& configured.acknowledged_serial is None
            &&& configured.present_error(request, damage) is Some
        }),
{
}

/// Of two different serials at less than half the range, exactly one is older;
/// a serial is never older than itself.
pub proof fn law_serial_order(first: u32, second: u32)
    ensures
        !precedes(first, first),
        !(precedes(first, second) && precedes(second, first)),
        first != second && (second - first) % 0x1_0000_0000 != 0x8000_0000 ==> precedes(
            first,
            second,
        ) || precedes(second, first),
{
}

/// Law: a frame is accepted exactly when it is for the task, the timelines are
/// bound, its configuration is the latest and acknowledged, its buffer is
/// registered, free, of that configuration's size and of an announced format,
/// its identity is new, both of its points advance and its damage lies inside
/// the configuration.
pub proof fn law_presents_are_accepted_when_ready(
    state: TaskModel,
    request: PresentRequest,
    damage: Seq<Damage>,
)
    ensures
        state.present_error(request, damage) is None <==> {
            &&& request.object == state.object
            &&& state.timelines_bound
            &&& state.configure is Some
            &&& request.configure_serial == state.configure->0.serial
            &&& state.acknowledged_serial == Some(request.configure_serial)
            &&& state.buffers.contains_key(request.buffer.0)
            &&& state.buffers[request.buffer.0].width == state.configure->0.width
            &&& state.buffers[request.buffer.0].height == state.configure->0.height
            &&& state.feedback.contains(
                (
                    state.buffers[request.buffer.0].format.fourcc,
                    state.buffers[request.buffer.0].format.modifier,
                ),
            )
            &&& !state.busy.contains(request.buffer.0)
            &&& !state.in_flight.contains_key(request.frame.0)
            &&& state.last_acquire_point < request.acquire_point
            &&& state.last_release_point < request.release_point
            &&& damage.len() <= 256
            &&& forall|i: int|
                0 <= i < damage.len() ==> {
                    &&& 0 < (#[trigger] damage[i]).width
                    &&& 0 < damage[i].height
                    &&& damage[i].x + damage[i].width <= state.configure->0.width
                    &&& damage[i].y + damage[i].height <= state.configure->0.height
                }
        },
{
    if state.configure is Some {
        let latest = state.configure->0;
        assert(forall|i: int|
            0 <= i < damage.len() ==> (inside(#[trigger] damage[i], latest.width, latest.height)
                <==> {
                &&& 0 < damage[i].width
                &&& 0 < damage[i].height
                &&& damage[i].x + damage[i].width <= latest.width
                &&& damage[i].y + damage[i].height <= latest.height
            }));
    }
}

/// Law: an accepted frame occupies its buffer, is in flight with its own buffer
/// and release point, and moves both timelines to its points; nothing else of
/// the task changes.
pub proof fn law_presents_occupy_their_buffer(state: TaskModel, request: PresentRequest, other: u64)
    ensures
        ({
            let next = state.with_present(request);
            &&& next.busy.contains(request.buffer.0)
            &&& other != request.buffer.0 ==> next.busy.contains(other) == state.busy.contains(
                other,
            )
            &&& next.in_flight.contains_key(request.frame.0)
            &&& next.in_flight[request.frame.0].buffer == request.buffer
            &&& next.in_flight[request.frame.0].release_point == request.release_point
            &&& other != request.frame.0 ==> {
                &&& next.in_flight.contains_key(other) == state.in_flight.contains_key(other)
                &&& next.in_flight[other] == state.in_flight[other]
            }
            &&& next.last_acquire_point == request.acquire_point
            &&& next.last_release_point == request.release_point
            &&& next.buffers == state.buffers
            &&& next.configure == state.configure
            &&& next.acknowledged_serial == state.acknowledged_serial
            &&& next.feedback == state.feedback
            &&& next.feedback_generation == state.feedback_generation
            &&& next.object == state.object
            &&& next.timelines_bound == state.timelines_bound
        }),
{
}

/// Law: a frame for an older configuration is dropped when it could be
/// accepted otherwise; dropping it uses up its two points and nothing else.
pub proof fn law_outdated_presents_only_use_their_points(state: TaskModel, request: PresentRequest)
    ensures
        state.discard_error(request) is None <==> {
            &&& request.object == state.object
            &&& state.timelines_bound
            &&& state.configure is Some
            &&& precedes(request.configure_serial, state.configure->0.serial)
            &&& !state.busy.contains(request.buffer.0)
            &&& !state.in_flight.contains_key(request.frame.0)
            &&& state.last_acquire_point < request.acquire_point
            &&& state.last_release_point < request.release_point
        },
        ({
            let next = state.with_discarded(request);
            &&& next.last_acquire_point == request.acquire_point
            &&& next.last_release_point == request.release_point
            &&& next.busy == state.busy
            &&& next.in_flight == state.in_flight
            &&& next.buffers == state.buffers
            &&& next.configure == state.configure
            &&& next.acknowledged_serial == state.acknowledged_serial
            &&& next.feedback == state.feedback
            &&& next.object == state.object
            &&& next.timelines_bound == state.timelines_bound
        }),
{
}

/// Law: serials go round, and one is before another when at most half the way
/// lies ahead.
pub proof fn law_serials_precede_by_half_the_circle(actual: u32, step: int)
    ensures
        !precedes(actual, actual),
        0 < step < 2_147_483_648 && actual + step <= 4_294_967_295 ==> precedes(
            actual,
            (actual + step) as u32,
        ),
        0 < step < 2_147_483_648 && actual + step > 4_294_967_295 ==> precedes(
            actual,
            (actual + step - 4_294_967_296) as u32,
        ),
        0 < step < 2_147_483_648 && actual - step >= 0 ==> !precedes(
            actual,
            (actual - step) as u32,
        ),
{
}

/// Law: a configuration is the latest once it came, and has to be acknowledged
/// anew unless its serial is the one that was acknowledged.
pub proof fn law_configurations_replace_each_other(
    state: TaskModel,
    serial: u32,
    width: u32,
    height: u32,
)
    ensures
        ({
            let next = state.with_configure(serial, width, height);
            &&& next.configure == Some(ConfiguredSize { serial, width, height })
            &&& state.configure is None || state.configure->0.serial != serial
                ==> next.acknowledged_serial is None
            &&& state.configure is Some && state.configure->0.serial == serial
                ==> next.acknowledged_serial == state.acknowledged_serial
            &&& next.buffers == state.buffers
            &&& next.in_flight == state.in_flight
            &&& next.busy == state.busy
        }),
{
}

/// Law: the latest serial or one before it can be acknowledged; only the latest
/// one counts.
pub proof fn law_only_the_latest_acknowledgement_counts(state: TaskModel, serial: u32)
    ensures
        state.configure is None ==> state.acknowledge_error(serial) == Some(
            TaskStateError::MissingConfigure,
        ),
        state.configure is Some ==> {
            let latest = state.configure->0.serial;
            &&& serial == latest || precedes(serial, latest) ==> state.acknowledge_error(
                serial,
            ) is None
            &&& serial != latest && !precedes(serial, latest) ==> state.acknowledge_error(serial)
                == Some(TaskStateError::StaleConfigure { expected: latest, actual: serial })
            &&& serial == latest ==> state.with_acknowledgement(serial).acknowledged_serial == Some(
                serial,
            )
            &&& serial != latest ==> state.with_acknowledgement(serial) == state
        },
{
}

/// Law: format feedback is accepted when its generation advances and it names
/// one to 256 different formats, none of them with the reserved modifier; the
/// announced formats are then those.
pub proof fn law_feedback_announces_its_formats(
    state: TaskModel,
    generation: u32,
    formats: Seq<FormatModifier>,
    i: int,
)
    requires
        0 <= i < formats.len(),
    ensures
        state.feedback_error(generation, formats) is None ==> {
            &&& generation > state.feedback_generation
            &&& formats[i].modifier != 0xffff_ffff_ffff_ffff
            &&& state.with_feedback(generation, formats).feedback.len() <= 256
        },
        generation <= state.feedback_generation ==> state.feedback_error(generation, formats)
            == Some(
            TaskStateError::FeedbackRegression {
                previous: state.feedback_generation,
                actual: generation,
            },
        ),
        state.with_feedback(generation, formats).feedback_generation == generation,
        state.with_feedback(generation, formats).feedback.contains(
            (formats[i].fourcc, formats[i].modifier),
        ),
        forall|pair: (u32, u64)| #[trigger]
            state.with_feedback(generation, formats).feedback.contains(pair) ==> exists|j: int|
                0 <= j < formats.len() && (#[trigger] formats[j]).fourcc == pair.0
                    && formats[j].modifier == pair.1,
{
    let pairs = formats.map_values(|format: FormatModifier| (format.fourcc, format.modifier));
    assert(pairs[i] == (formats[i].fourcc, formats[i].modifier));
    assert forall|pair: (u32, u64)| #[trigger]
        state.with_feedback(generation, formats).feedback.contains(pair) implies exists|j: int|
        0 <= j < formats.len() && (#[trigger] formats[j]).fourcc == pair.0 && formats[j].modifier
            == pair.1 by {
        let j = choose|j: int| 0 <= j < pairs.len() && pairs[j] == pair;
        assert(formats[j].fourcc == pair.0);
    }
}

/// Law: a buffer is registered once, up to 256 of them, and can be retired only
/// while it is registered and free.
pub proof fn law_buffers_are_registered_once(
    state: TaskModel,
    buffer: BufferView,
    verdict: Result<(), TransportError>,
    other: u64,
)
    ensures
        state.register_error(buffer, verdict) is None <==> {
            &&& verdict is Ok
            &&& buffer.id.0 != 0
            &&& buffer.format.modifier != 0xffff_ffff_ffff_ffff
            &&& !state.buffers.contains_key(buffer.id.0)
            &&& state.buffers.len() < 256
        },
        state.with_buffer(buffer).buffers.contains_key(buffer.id.0),
        state.with_buffer(buffer).buffers[buffer.id.0] == buffer,
        other != buffer.id.0 ==> state.with_buffer(buffer).buffers.contains_key(other)
            == state.buffers.contains_key(other),
        state.unregister_error(buffer.id) is None <==> state.buffers.contains_key(buffer.id.0)
            && !state.busy.contains(buffer.id.0),
        !state.without_buffer(buffer.id).buffers.contains_key(buffer.id.0),
        other != buffer.id.0 ==> state.without_buffer(buffer.id).buffers.contains_key(other)
            == state.buffers.contains_key(other),
        state.with_buffer(buffer).in_flight == state.in_flight,
        state.without_buffer(buffer.id).in_flight == state.in_flight,
{
}

/// Law: a release ends the frame that it names when it names the frame's own
/// buffer and point, and frees that buffer alone.
pub proof fn law_releases_end_their_frame(
    state: TaskModel,
    frame: FrameId,
    buffer: BufferId,
    release_point: u64,
    other: u64,
)
    ensures
        state.release_error(frame, buffer, release_point) is None <==> {
            &&& state.in_flight.contains_key(frame.0)
            &&& state.in_flight[frame.0].buffer == buffer
            &&& state.in_flight[frame.0].release_point == release_point
        },
        !state.in_flight.contains_key(frame.0) ==> state.release_error(
            frame,
            buffer,
            release_point,
        ) == Some(TaskStateError::UnknownFrame(frame)),
        ({
            let next = state.without_frame(frame, buffer);
            &&& !next.in_flight.contains_key(frame.0)
            &&& !next.busy.contains(buffer.0)
            &&& other != frame.0 ==> next.in_flight.contains_key(other)
                == state.in_flight.contains_key(other)
            &&& other != buffer.0 ==> next.busy.contains(other) == state.busy.contains(other)
            &&& next.buffers == state.buffers
            &&& next.last_acquire_point == state.last_acquire_point
            &&& next.last_release_point == state.last_release_point
        }),
{
}

/// Law: a new task has no timeline, no configuration, no buffer and no frame,
/// and its timelines stand at zero.
pub proof fn law_new_tasks_are_empty(object: TaskObjectId)
    ensures
        ({
            let task = TaskModel::fresh(object);
            &&& task.object == object
            &&& !task.timelines_bound
            &&& task.feedback_generation == 0
            &&& task.feedback.len() == 0
            &&& task.configure is None
            &&& task.acknowledged_serial is None
            &&& task.buffers.len() == 0
            &&& task.in_flight.len() == 0
            &&& task.busy.len() == 0
            &&& task.last_acquire_point == 0
            &&& task.last_release_point == 0
        }),
{
}

/// Law: format feedback is accepted exactly when its generation advances and it
/// names 1 to 256 different formats without the reserved modifier.
pub proof fn law_feedback_is_accepted_in_range(
    state: TaskModel,
    generation: u32,
    formats: Seq<FormatModifier>,
)
    ensures
        state.feedback_error(generation, formats) is None <==> {
            let pairs = formats.map_values(
                |format: FormatModifier| (format.fourcc, format.modifier),
            ).to_set();
            &&& generation > state.feedback_generation
            &&& 1 <= pairs.len() <= 256
            &&& forall|i: int|
                0 <= i < formats.len() ==> (#[trigger] formats[i]).modifier
                    != 0xffff_ffff_ffff_ffff
        },
{
}

} // verus!
