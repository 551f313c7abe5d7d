//! Broker between `SurfaceFlinger` and the presentation sink: one connection per
//! exported display or task.

use std::collections::BTreeMap;

use vstd::prelude::*;

use crate::composer::hwc3::{Session, SessionModel};
use crate::composer::{DisplayId, TaskId, TaskWindowError};
use crate::control::{numbered, window_error_text, window_text, CoordinatorModel, TaskCoordinator};
use crate::ordered::{in_order, ordered_keys};
use crate::sink::SelectedTarget;
use crate::text::{append, append_chars, chars_of, contains_text, format_number, holds, text_of};
use crate::transport::{BufferId, BufferMetadata, BufferView, PlaneMetadata};

verus! {

broadcast use vstd::laws_cmp::group_laws_cmp;

/// Targets that one connection may hold at once.
pub const MAX_RESERVATIONS: usize = 3;

/// The task is not exported.
pub const ERROR_NO_ENTRY: i32 = -2;

/// The operation failed.
pub const ERROR_IO: i32 = -5;

/// Try again later.
pub const ERROR_TRY_AGAIN: i32 = -11;

/// The connection holds too many targets.
pub const ERROR_BUSY: i32 = -16;

/// The request names a target that the connection does not hold.
pub const ERROR_INVALID: i32 = -22;

/// Request of `SurfaceFlinger`.
#[derive(Clone, Copy, Debug, PartialEq, Eq, Structural)]
#[allow(inconsistent_fields)]
pub enum Request {
    /// Choose the channel of a task, or of the bootstrap display with zero.
    Hello {
        /// Android task.
        task: u64,
    },
    /// Ask for a target to render into.
    Acquire {
        /// Display of the channel.
        display: u64,
    },
    /// Present a rendered target.
    Present {
        /// Display of the channel.
        display: u64,
        /// Rendered target.
        buffer: u64,
    },
    /// Give a target back without presenting it.
    Cancel {
        /// Display of the channel.
        display: u64,
        /// Target to give back.
        buffer: u64,
    },
    /// The task of the channel is gone.
    Retire {
        /// Display of the channel.
        display: u64,
    },
}

/// Layout of one plane of a target.
#[derive(Clone, Copy, Debug, PartialEq, Eq, Structural)]
pub struct Plane {
    /// Byte offset of the plane.
    pub offset: u32,
    /// Row stride in bytes.
    pub stride: u32,
}

/// Response to `SurfaceFlinger`.
#[derive(Clone, Debug, PartialEq, Eq)]
#[allow(inconsistent_fields)]
pub enum Response {
    /// Channel that was chosen.
    Hello {
        /// Display of the channel.
        display: u64,
        /// Width in pixels.
        width: u32,
        /// Height in pixels.
        height: u32,
    },
    /// Target to render into; its plane descriptors go with the response.
    Target {
        /// Display of the channel.
        display: u64,
        /// Target.
        buffer: u64,
        /// Configure serial whose size the target satisfies.
        configure_serial: u32,
        /// Width in pixels.
        width: u32,
        /// Height in pixels.
        height: u32,
        /// DRM format.
        fourcc: u32,
        /// DRM modifier.
        modifier: u64,
        /// Planes in order.
        planes: Vec<Plane>,
    },
    /// The request is done.
    Ack,
    /// The request failed.
    Error {
        /// Negative error number.
        code: i32,
    },
}

/// Contents of a [`Response`].
#[verifier::ext_equal]
#[allow(inconsistent_fields)]
pub enum ResponseView {
    Hello { display: u64, width: u32, height: u32 },
    Target {
        display: u64,
        buffer: u64,
        configure_serial: u32,
        width: u32,
        height: u32,
        fourcc: u32,
        modifier: u64,
        planes: Seq<Plane>,
    },
    Ack,
    Error { code: i32 },
}

impl View for Response {
    type V = ResponseView;

    open spec fn view(&self) -> ResponseView {
        match *self {
            Response::Hello { display, width, height } => ResponseView::Hello {
                display,
                width,
                height,
            },
            Response::Target {
                display,
                buffer,
                configure_serial,
                width,
                height,
                fourcc,
                modifier,
                planes,
            } => ResponseView::Target {
                display,
                buffer,
                configure_serial,
                width,
                height,
                fourcc,
                modifier,
                planes: planes@,
            },
            Response::Ack => ResponseView::Ack,
            Response::Error { code } => ResponseView::Error { code },
        }
    }
}

/// Display behind a connection, with its size.
#[derive(Clone, Copy, Debug, PartialEq, Eq, Structural)]
pub struct Channel {
    /// Display of the channel.
    pub display: DisplayId,
    /// Width in pixels.
    pub width: u32,
    /// Height in pixels.
    pub height: u32,
}

/// Error number of a failed selection: an unknown task may never be asked for
/// again, one that is not ready may.
pub open spec fn selection_code(error: Seq<char>) -> i32 {
    if holds(error, "is not authorized for export"@) {
        ERROR_NO_ENTRY
    } else if holds(error, "export is not ready"@) {
        ERROR_TRY_AGAIN
    } else {
        ERROR_IO
    }
}

/// Error number of a failed selection.
pub fn channel_error_code(error: &str) -> (code: i32)
    ensures
        code == selection_code(error@),
{
    let text = chars_of(error);
    if contains_text(&text, &chars_of("is not authorized for export")) {
        ERROR_NO_ENTRY
    } else if contains_text(&text, &chars_of("export is not ready")) {
        ERROR_TRY_AGAIN
    } else {
        ERROR_IO
    }
}

/// Channel of a task, or why there is none.
pub open spec fn channel_of(
    coordinator: CoordinatorModel,
    session: SessionModel,
    bootstrap: Channel,
    task: u64,
) -> Result<Channel, Seq<char>> {
    if task == 0 {
        Ok(bootstrap)
    } else {
        match coordinator.direct_display(TaskId(task)) {
            Err(text) => Err(text),
            Ok(display) => if !session.windows.windows.contains_key(display.0) {
                Err(window_text(TaskWindowError::UnknownDisplay(display)))
            } else {
                match session.windows.windows[display.0].composer.configure {
                    None => Err(
                        numbered("direct task "@, task as int, " has no Denial configure"@),
                    ),
                    Some(configure) => Ok(
                        Channel { display, width: configure.width, height: configure.height },
                    ),
                }
            },
        }
    }
}

/// Channel of a task: that of the bootstrap display for zero, and otherwise
/// that of a direct task which was authorized and is bound and configured.
pub fn select_channel(
    coordinator: &TaskCoordinator,
    session: &Session,
    bootstrap: &Channel,
    task: u64,
) -> (result: Result<Channel, String>)
    ensures
        match channel_of(coordinator@, session@, *bootstrap, task) {
            Ok(channel) => result is Ok && result->Ok_0 == channel,
            Err(text) => result is Err && result->Err_0@ == text,
        },
{
    if task == 0 {
        return Ok(*bootstrap);
    }
    let display = coordinator.direct_task_display(TaskId(task))?;
    match session.windows().composer_for_display(display) {
        Ok(composer) => match composer.latest_configure() {
            Some(configure) => Ok(
                Channel { display, width: configure.width, height: configure.height },
            ),
            None => {
                let mut text: Vec<char> = chars_of("direct task ");
                append_chars(&mut text, &format_number(task));
                append(&mut text, " has no Denial configure");
                Err(text_of(&text))
            },
        },
        Err(error) => Err(window_error_text(&error)),
    }
}

/// Check the size of the bootstrap display.
pub fn check_bootstrap(width: u32, height: u32) -> (result: Result<(), String>)
    ensures
        if width != 0 && height != 0 {
            result is Ok
        } else {
            &&& result is Err
            &&& result->Err_0@ == "SurfaceFlinger bridge received an empty display size"@
        },
{
    if width == 0 || height == 0 {
        return Err("SurfaceFlinger bridge received an empty display size".to_owned());
    }
    Ok(())
}

/// What the service thread does with a request.
#[derive(Clone, Debug)]
pub enum SurfaceStep {
    /// Select the channel of a task, then report it.
    Select {
        /// Android task.
        task: u64,
    },
    /// Answer.
    Reply(Response),
    /// Acquire a target from the sink and send it, then report that.
    Acquire {
        /// Display of the channel.
        display: DisplayId,
    },
    /// Submit a target to the sink, then answer.
    Present {
        /// Display of the channel.
        display: DisplayId,
        /// Target to submit.
        target: BufferMetadata,
    },
    /// Give a target back to the sink and acknowledge.
    Cancel {
        /// Display of the channel.
        display: DisplayId,
        /// Target to give back.
        buffer: BufferId,
    },
    /// Give all targets back to the sink, retire the task, acknowledge and close.
    Retire {
        /// Display of the channel.
        display: DisplayId,
        /// Task to retire.
        task: TaskId,
        /// Targets to give back.
        cancel: Vec<BufferId>,
    },
    /// Close the connection for this reason.
    Close(String),
}

/// Channel that a connection chose.
#[derive(Clone, Copy, Debug, PartialEq, Eq, Structural)]
pub struct Selected {
    /// Display of the channel.
    pub display: DisplayId,
    /// Task of the channel, zero for the bootstrap display.
    pub task: u64,
}

/// State of one connection.
#[derive(Debug)]
pub struct SurfaceConnection {
    channel: Option<Selected>,
    reservations: BTreeMap<u64, BufferMetadata>,
}

/// Model of a [`SurfaceConnection`].
#[verifier::ext_equal]
pub struct ConnectionModel {
    /// Display and task of the channel, after the handshake.
    pub channel: Option<Selected>,
    /// Targets that the connection holds.
    pub reservations: Map<u64, BufferView>,
}

impl View for SurfaceConnection {
    type V = ConnectionModel;

    closed spec fn view(&self) -> ConnectionModel {
        ConnectionModel {
            channel: self.channel,
            reservations: self.reservations@.map_values(|target: BufferMetadata| target@),
        }
    }
}

/// Why a request does not reach the channel of its connection.
pub open spec fn display_error(channel: Option<Selected>, requested: u64) -> Option<Seq<char>> {
    match channel {
        None => Some("SurfaceFlinger hello is required"@),
        Some(Selected { display: selected, .. }) => if requested == selected.0 {
            None
        } else {
            Some(
                numbered(
                    numbered(
                        "SurfaceFlinger addressed display "@,
                        requested as int,
                        "; selected channel is "@,
                    ),
                    selected.0 as int,
                    ""@,
                ),
            )
        },
    }
}

impl ConnectionModel {
    /// The invariant of every reachable connection: it holds no more targets
    /// than it may, and they stand under their own identity.
    pub open spec fn wf(self) -> bool {
        &&& self.reservations.dom().finite()
        &&& self.reservations.len() <= MAX_RESERVATIONS
        &&& forall|key: u64| #[trigger]
            self.reservations.contains_key(key) ==> self.reservations[key].id.0 == key
    }

    /// State without a target.
    pub open spec fn without(self, buffer: u64) -> ConnectionModel {
        ConnectionModel { reservations: self.reservations.remove(buffer), ..self }
    }

    /// Targets that the connection holds, in order.
    pub open spec fn held(self) -> Seq<BufferId> {
        in_order(self.reservations.dom()).map_values(|buffer: u64| BufferId(buffer))
    }

    /// Whether a step answers a request, and leaves this state.
    pub open spec fn answers(self, request: Request, step: SurfaceStep, after: ConnectionModel) -> bool {
        match request {
            Request::Hello { task } => {
                &&& after == self
                &&& if self.channel is None {
                    step == (SurfaceStep::Select { task })
                } else {
                    step matches SurfaceStep::Close(text) && text@
                        == "repeated SurfaceFlinger hello"@
                }
            },
            Request::Acquire { display } => {
                &&& after == self
                &&& match display_error(self.channel, display) {
                    Some(reason) => step matches SurfaceStep::Close(text) && text@ == reason,
                    None => if self.reservations.len() >= MAX_RESERVATIONS {
                        step matches SurfaceStep::Reply(response) && response@
                            == (ResponseView::Error { code: ERROR_BUSY })
                    } else {
                        step == (SurfaceStep::Acquire { display: DisplayId(display) })
                    },
                }
            },
            Request::Present { display, buffer } => match display_error(self.channel, display) {
                Some(reason) => {
                    &&& step matches SurfaceStep::Close(text)
                    &&& text@ == reason
                    &&& after == self
                },
                None => if self.reservations.contains_key(buffer) {
                    &&& step matches SurfaceStep::Present { display: shown, target }
                    &&& shown.0 == display
                    &&& target@ == self.reservations[buffer]
                    &&& after == self.without(buffer)
                } else {
                    &&& step matches SurfaceStep::Reply(response)
                    &&& response@ == (ResponseView::Error { code: ERROR_INVALID })
                    &&& after == self
                },
            },
            Request::Cancel { display, buffer } => match display_error(self.channel, display) {
                Some(reason) => {
                    &&& step matches SurfaceStep::Close(text)
                    &&& text@ == reason
                    &&& after == self
                },
                None => if self.reservations.contains_key(buffer) {
                    &&& step == (SurfaceStep::Cancel {
                        display: DisplayId(display),
                        buffer: BufferId(buffer),
                    })
                    &&& after == self.without(buffer)
                } else {
                    &&& step matches SurfaceStep::Reply(response)
                    &&& response@ == (ResponseView::Error { code: ERROR_INVALID })
                    &&& after == self
                },
            },
            Request::Retire { display } => match display_error(self.channel, display) {
                Some(reason) => {
                    &&& step matches SurfaceStep::Close(text)
                    &&& text@ == reason
                    &&& after == self
                },
                None => if self.channel->0.task == 0 {
                    &&& step matches SurfaceStep::Close(text)
                    &&& text@ == "bootstrap display cannot be retired"@
                    &&& after == self
                } else {
                    &&& step matches SurfaceStep::Retire { display: shown, task, cancel }
                    &&& shown.0 == display
                    &&& task == TaskId(self.channel->0.task)
                    &&& cancel@ == self.held()
                    &&& after == (ConnectionModel { reservations: Map::empty(), ..self })
                },
            },
        }
    }
}

/// Planes of a target as a response carries them.
pub open spec fn planes_of(planes: Seq<PlaneMetadata>) -> Seq<Plane> {
    planes.map_values(
        |plane: PlaneMetadata| Plane { offset: plane.offset, stride: plane.stride },
    )
}

/// Response that lends a target.
pub fn target_response(display: DisplayId, target: &SelectedTarget) -> (response: Response)
    ensures
        response@ == (ResponseView::Target {
            display: display.0,
            buffer: target.metadata.id.0,
            configure_serial: target.configure_serial,
            width: target.metadata.width,
            height: target.metadata.height,
            fourcc: target.metadata.format.fourcc,
            modifier: target.metadata.format.modifier,
            planes: planes_of(target.metadata.planes@),
        }),
{
    let mut planes: Vec<Plane> = Vec::new();
    let mut index: usize = 0;
    while index < target.metadata.planes.len()
        invariant
            index <= target.metadata.planes@.len(),
            planes@ == planes_of(target.metadata.planes@).take(index as int),
        decreases target.metadata.planes@.len() - index,
    {
        let plane = target.metadata.planes[index];
        planes.push(Plane { offset: plane.offset, stride: plane.stride });
        index = index + 1;
        assert(planes@ =~= planes_of(target.metadata.planes@).take(index as int));
    }
    assert(planes@ =~= planes_of(target.metadata.planes@));
    Response::Target {
        display: display.0,
        buffer: target.metadata.id.0,
        configure_serial: target.configure_serial,
        width: target.metadata.width,
        height: target.metadata.height,
        fourcc: target.metadata.format.fourcc,
        modifier: target.metadata.format.modifier,
        planes,
    }
}

/// Response to a present or to a cancellation.
pub fn done_response(done: bool) -> (response: Response)
    ensures
        response@ == (if done {
            ResponseView::Ack
        } else {
            ResponseView::Error { code: ERROR_IO }
        }),
{
    if done {
        Response::Ack
    } else {
        Response::Error { code: ERROR_IO }
    }
}

impl SurfaceConnection {
    /// Connection before its handshake.
    pub fn new() -> (connection: SurfaceConnection)
        ensures
            connection@.wf(),
            connection@ == (ConnectionModel { channel: None, reservations: Map::empty() }),
    {
        let connection = SurfaceConnection { channel: None, reservations: BTreeMap::new() };
        assert(connection@.reservations =~= Map::empty());
        connection
    }

    fn wrong_display(&self, requested: u64) -> (reason: Option<String>)
        ensures
            match display_error(self@.channel, requested) {
                Some(text) => reason is Some && reason->0@ == text,
                None => reason is None && self@.channel is Some && self@.channel->0.display.0
                    == requested,
            },
    {
        match self.channel {
            None => Some("SurfaceFlinger hello is required".to_owned()),
            Some(Selected { display: selected, .. }) => {
                if requested == selected.0 {
                    return None;
                }
                let mut text: Vec<char> = chars_of("SurfaceFlinger addressed display ");
                append_chars(&mut text, &format_number(requested));
                append(&mut text, "; selected channel is ");
                append_chars(&mut text, &format_number(selected.0));
                append(&mut text, "");
                Some(text_of(&text))
            },
        }
    }

    fn holdings(&self) -> (buffers: Vec<BufferId>)
        ensures
            buffers@ == self@.held(),
    {
        let keys = ordered_keys(&self.reservations);
        assert(self.reservations@.dom() =~= self@.reservations.dom());
        let mut buffers: Vec<BufferId> = Vec::new();
        let mut index: usize = 0;
        while index < keys.len()
            invariant
                index <= keys@.len(),
                buffers@.len() == index,
                forall|i: int| 0 <= i < index ==> #[trigger] buffers@[i] == BufferId(keys@[i]),
            decreases keys@.len() - index,
        {
            buffers.push(BufferId(keys[index]));
            index = index + 1;
        }
        assert(buffers@ =~= self@.held());
        buffers
    }

    /// Take one request.
    pub fn receive(&mut self, request: &Request) -> (step: SurfaceStep)
        requires
            old(self)@.wf(),
        ensures
            final(self)@.wf(),
            old(self)@.answers(*request, step, final(self)@),
    {
        match request {
            Request::Hello { task } => {
                if self.channel.is_none() {
                    SurfaceStep::Select { task: *task }
                } else {
                    SurfaceStep::Close("repeated SurfaceFlinger hello".to_owned())
                }
            },
            Request::Acquire { display } => {
                if let Some(reason) = self.wrong_display(*display) {
                    return SurfaceStep::Close(reason);
                }
                assert(self.reservations@.dom() =~= self@.reservations.dom());
                if self.reservations.len() >= MAX_RESERVATIONS {
                    return SurfaceStep::Reply(Response::Error { code: ERROR_BUSY });
                }
                SurfaceStep::Acquire { display: DisplayId(*display) }
            },
            Request::Present { display, buffer } => {
                if let Some(reason) = self.wrong_display(*display) {
                    return SurfaceStep::Close(reason);
                }
                match self.reservations.remove(buffer) {
                    Some(target) => {
                        proof {
                            assert(self@.reservations =~= old(self)@.reservations.remove(*buffer));
                        }
                        SurfaceStep::Present { display: DisplayId(*display), target }
                    },
                    None => {
                        proof {
                            assert(self@.reservations =~= old(self)@.reservations);
                        }
                        SurfaceStep::Reply(Response::Error { code: ERROR_INVALID })
                    },
                }
            },
            Request::Cancel { display, buffer } => {
                if let Some(reason) = self.wrong_display(*display) {
                    return SurfaceStep::Close(reason);
                }
                match self.reservations.remove(buffer) {
                    Some(_) => {
                        proof {
                            assert(self@.reservations =~= old(self)@.reservations.remove(*buffer));
                        }
                        SurfaceStep::Cancel {
                            display: DisplayId(*display),
                            buffer: BufferId(*buffer),
                        }
                    },
                    None => {
                        proof {
                            assert(self@.reservations =~= old(self)@.reservations);
                        }
                        SurfaceStep::Reply(Response::Error { code: ERROR_INVALID })
                    },
                }
            },
            Request::Retire { display } => {
                if let Some(reason) = self.wrong_display(*display) {
                    return SurfaceStep::Close(reason);
                }
                let task: u64 = match self.channel {
                    Some(Selected { task, .. }) => task,
                    None => 0,
                };
                if task == 0 {
                    return SurfaceStep::Close("bootstrap display cannot be retired".to_owned());
                }
                let cancel = self.holdings();
                self.reservations = BTreeMap::new();
                assert(self@.reservations =~= Map::empty());
                SurfaceStep::Retire { display: DisplayId(*display), task: TaskId(task), cancel }
            },
        }
    }

    /// Take note of a selection: the answer, after which a failed connection is
    /// closed.
    pub fn selected(&mut self, task: u64, selection: &Result<Channel, String>) -> (response: Response)
        requires
            old(self)@.wf(),
            old(self)@.channel is None,
        ensures
            final(self)@.wf(),
            match *selection {
                Ok(channel) => {
                    &&& response@ == (ResponseView::Hello {
                        display: channel.display.0,
                        width: channel.width,
                        height: channel.height,
                    })
                    &&& final(self)@ == (ConnectionModel {
                        channel: Some(Selected { display: channel.display, task }),
                        ..old(self)@
                    })
                },
                Err(text) => {
                    &&& response@ == (ResponseView::Error { code: selection_code(text@) })
                    &&& final(self)@ == old(self)@
                },
            },
    {
        match selection {
            Ok(channel) => {
                self.channel = Some(Selected { display: channel.display, task });
                Response::Hello {
                    display: channel.display.0,
                    width: channel.width,
                    height: channel.height,
                }
            },
            Err(error) => Response::Error { code: channel_error_code(error.as_str()) },
        }
    }

    /// Answer to a request for a target that the sink did not have.
    pub fn unavailable() -> (response: Response)
        ensures
            response@ == (ResponseView::Error { code: ERROR_TRY_AGAIN }),
    {
        Response::Error { code: ERROR_TRY_AGAIN }
    }

    /// Keep a target that was sent to `SurfaceFlinger` after
    /// [`SurfaceStep::Acquire`], or fail where it was lent already.
    pub fn lent(&mut self, target: BufferMetadata) -> (result: Result<(), String>)
        requires
            old(self)@.wf(),
            old(self)@.reservations.len() < MAX_RESERVATIONS,
        ensures
            final(self)@.wf(),
            final(self)@ == (ConnectionModel {
                reservations: old(self)@.reservations.insert(target.id.0, target@),
                ..old(self)@
            }),
            if old(self)@.reservations.contains_key(target.id.0) {
                &&& result is Err
                &&& result->Err_0@ == numbered(
                    "SurfaceFlinger acquired duplicate target "@,
                    target.id.0 as int,
                    ""@,
                )
            } else {
                result is Ok
            },
    {
        let buffer: u64 = target.id.0;
        let ghost metadata = target@;
        let previous = self.reservations.insert(buffer, target);
        assert(self@.reservations =~= old(self)@.reservations.insert(buffer, metadata));
        if previous.is_some() {
            let mut text: Vec<char> = chars_of("SurfaceFlinger acquired duplicate target ");
            append_chars(&mut text, &format_number(buffer));
            append(&mut text, "");
            return Err(text_of(&text));
        }
        Ok(())
    }

    /// Targets to give back to the sink when the connection ends, and the
    /// display of the channel, or that of the bootstrap display.
    pub fn finish(self, bootstrap: DisplayId) -> (rest: (DisplayId, Vec<BufferId>))
        ensures
            rest.0 == (match self@.channel {
                Some(Selected { display, .. }) => display,
                None => bootstrap,
            }),
            rest.1@ == self@.held(),
    {
        let buffers = self.holdings();
        let display = match self.channel {
            Some(Selected { display, .. }) => display,
            None => bootstrap,
        };
        (display, buffers)
    }
}

/// A connection touches no display but that of its own channel, and none before
/// its handshake.
pub proof fn law_connections_stay_in_their_channel(
    model: ConnectionModel,
    request: Request,
    step: SurfaceStep,
    after: ConnectionModel,
)
    requires
        model.answers(request, step, after),
    ensures
        after.channel == model.channel,
        match step {
            SurfaceStep::Acquire { display } => model.channel is Some && display
                == model.channel->0.display,
            SurfaceStep::Present { display, .. } => model.channel is Some && display
                == model.channel->0.display,
            SurfaceStep::Cancel { display, .. } => model.channel is Some && display
                == model.channel->0.display,
            SurfaceStep::Retire { display, task, .. } => model.channel is Some && display
                == model.channel->0.display && task.0 == model.channel->0.task && task.0 != 0,
            _ => true,
        },
{
}

/// A connection never holds more targets than it may: a request keeps the bound,
/// and only one that leaves room for another target is told to acquire it.
pub proof fn law_held_targets_are_bounded(
    model: ConnectionModel,
    request: Request,
    step: SurfaceStep,
    after: ConnectionModel,
)
    requires
        model.wf(),
        model.answers(request, step, after),
    ensures
        after.wf(),
        after.reservations.len() <= MAX_RESERVATIONS,
        step is Acquire ==> after.reservations.len() < MAX_RESERVATIONS,
{
}

/// A target is presented or given back once: it leaves the connection with that
/// step, and a second request for it is refused.
pub proof fn law_targets_are_used_once(
    model: ConnectionModel,
    display: u64,
    buffer: u64,
    first: SurfaceStep,
    after: ConnectionModel,
    second: SurfaceStep,
    last: ConnectionModel,
)
    requires
        model.answers(Request::Present { display, buffer }, first, after),
        first is Present,
        after.answers(Request::Present { display, buffer }, second, last),
    ensures
        second is Reply,
        last == after,
{
}

/// Law: how a channel that cannot be selected is answered: one that may not be
/// exported does not exist, one that is not ready is worth another try, and
/// anything else is an input/output error.
pub proof fn law_refused_channels_have_fixed_codes(error: Seq<char>)
    ensures
        holds(error, "is not authorized for export"@) ==> selection_code(error) == -2,
        !holds(error, "is not authorized for export"@) && holds(error, "export is not ready"@)
            ==> selection_code(error) == -11,
        !holds(error, "is not authorized for export"@) && !holds(error, "export is not ready"@)
            ==> selection_code(error) == -5,
{
}

/// Law: without a task the bootstrap channel is selected; with one, the display
/// of its own export at the size that it was configured to.
pub proof fn law_channels_are_those_of_their_task(
    coordinator: CoordinatorModel,
    session: SessionModel,
    bootstrap: Channel,
    task: u64,
)
    ensures
        task == 0 ==> channel_of(coordinator, session, bootstrap, task) == Ok::<
            Channel,
            Seq<char>,
        >(bootstrap),
        task != 0 && channel_of(coordinator, session, bootstrap, task) is Ok ==> {
            let channel = channel_of(coordinator, session, bootstrap, task)->Ok_0;
            let configure = session.windows.windows[channel.display.0].composer.configure;
            &&& coordinator.direct_display(TaskId(task)) == Ok::<DisplayId, Seq<char>>(
                channel.display,
            )
            &&& session.windows.windows.contains_key(channel.display.0)
            &&& configure is Some
            &&& channel.width == configure->0.width
            &&& channel.height == configure->0.height
        },
        task != 0 && coordinator.direct_display(TaskId(task)) is Err ==> channel_of(
            coordinator,
            session,
            bootstrap,
            task,
        ) == Err::<Channel, Seq<char>>(coordinator.direct_display(TaskId(task))->Err_0),
{
}

/// Law: a request is for the display of the selected channel.
pub proof fn law_requests_are_for_the_selected_display(channel: Option<Selected>, requested: u64)
    ensures
        display_error(channel, requested) is None <==> channel is Some
            && channel->0.display.0 == requested,
        channel is None ==> display_error(channel, requested) == Some(
            "SurfaceFlinger hello is required"@,
        ),
{
}

/// Law: a channel is selected once.
pub proof fn law_channels_are_selected_once(
    connection: ConnectionModel,
    task: u64,
    step: SurfaceStep,
    after: ConnectionModel,
)
    requires
        connection.answers((Request::Hello { task }), step, after),
    ensures
        after == connection,
        connection.channel is None <==> step == (SurfaceStep::Select { task }),
        connection.channel is Some ==> step is Close,
{
}

/// Law: up to three targets can be held, and a fourth is refused as busy.
pub proof fn law_at_most_three_targets_are_held(
    connection: ConnectionModel,
    display: u64,
    step: SurfaceStep,
    after: ConnectionModel,
)
    requires
        connection.answers((Request::Acquire { display }), step, after),
        connection.channel is Some,
        connection.channel->0.display.0 == display,
    ensures
        after == connection,
        connection.reservations.len() < 3 ==> step == (SurfaceStep::Acquire {
            display: DisplayId(display),
        }),
        connection.reservations.len() >= 3 ==> {
            &&& step is Reply
            &&& step->Reply_0@ == (ResponseView::Error { code: -16i32 })
        },
{
}

/// Law: a held target is shown or given back as itself, on its own display, and
/// is held no longer; one that is not held is refused.
pub proof fn law_held_targets_are_used_up(
    connection: ConnectionModel,
    display: u64,
    buffer: u64,
    step: SurfaceStep,
    after: ConnectionModel,
)
    requires
        connection.channel is Some,
        connection.channel->0.display.0 == display,
    ensures
        connection.answers((Request::Present { display, buffer }), step, after) ==> {
            &&& connection.reservations.contains_key(buffer) ==> {
                &&& step is Present
                &&& step->Present_display.0 == display
                &&& step->target@ == connection.reservations[buffer]
                &&& !after.reservations.contains_key(buffer)
            }
            &&& !connection.reservations.contains_key(buffer) ==> {
                &&& step is Reply
                &&& step->Reply_0@ == (ResponseView::Error { code: -22i32 })
                &&& after == connection
            }
        },
        connection.answers((Request::Cancel { display, buffer }), step, after) ==> {
            &&& connection.reservations.contains_key(buffer) ==> {
                &&& step is Cancel
                &&& step->Cancel_display.0 == display
                &&& step->buffer.0 == buffer
                &&& !after.reservations.contains_key(buffer)
            }
            &&& !connection.reservations.contains_key(buffer) ==> {
                &&& step is Reply
                &&& step->Reply_0@ == (ResponseView::Error { code: -22i32 })
                &&& after == connection
            }
        },
{
}

/// Law: a retired channel gives back everything that it held, and the bootstrap
/// channel is never retired.
pub proof fn law_retired_channels_hold_nothing(
    connection: ConnectionModel,
    display: u64,
    step: SurfaceStep,
    after: ConnectionModel,
    key: u64,
)
    requires
        connection.wf(),
        connection.channel is Some,
        connection.channel->0.display.0 == display,
        connection.answers((Request::Retire { display }), step, after),
    ensures
        connection.channel->0.task == 0 ==> step is Close && after == connection,
        connection.channel->0.task != 0 ==> {
            &&& step is Retire
            &&& step->Retire_task.0 == connection.channel->0.task
            &&& after.reservations.len() == 0
            &&& connection.reservations.contains_key(key) ==> step->cancel@.contains(BufferId(key))
        },
{
    if connection.channel->0.task != 0 && connection.reservations.contains_key(key) {
        let keys = in_order(connection.reservations.dom());
        crate::ordered::lemma_in_order_lists(connection.reservations.dom());
        assert(connection.reservations.dom().contains(key));
        let i = choose|i: int| 0 <= i < keys.len() && keys[i] == key;
        assert(connection.held()[i] == BufferId(key));
    }
}

/// Law: planes are described by their own offset and stride, in order.
pub proof fn law_planes_are_described_in_order(planes: Seq<PlaneMetadata>, i: int)
    requires
        0 <= i < planes.len(),
    ensures
        planes_of(planes).len() == planes.len(),
        planes_of(planes)[i].offset == planes[i].offset,
        planes_of(planes)[i].stride == planes[i].stride,
{
}

} // verus!
