//! Decisions of the privileged two-phase task lifecycle service.
//!
//! A launcher reserves a display and a native window, starts an activity on it,
//! and binds the task that Android reports. The service thread performs the
//! steps that touch Composer, Denial or the socket, and reports how each went.

use std::collections::BTreeMap;

use vstd::prelude::*;

use crate::composer::hwc3::{ErrorCode, Session, SessionModel};
use crate::composer::task_control::{
    passed, RegistryModel, TaskControlError, TaskControlRegistry, TaskRegistration,
    TaskRegistrationPhase,
};
use crate::composer::{DisplayId, PowerMode, ReservedTaskWindowSpec, TaskId, TaskWindowError};
use crate::ordered::{lists, ordered_keys};
use crate::protocol::TaskObjectId;
use crate::service::ComposerLifecycle;
use crate::text::{
    append, append_chars, chars_of, cut, cut_text, decimal, format_number, same, text_of,
};

verus! {

broadcast use vstd::laws_cmp::group_laws_cmp;

/// Longest failure text of a response, in bytes.
pub const MAX_MESSAGE_BYTES: usize = 1024;

/// Time that Denial has for the first configure, in milliseconds.
pub const CONFIGURE_TIMEOUT_MILLIS: u64 = 5000;

/// Kind of a control failure.
#[derive(Clone, Copy, Debug, PartialEq, Eq, Structural)]
pub enum ControlErrorCode {
    /// The connection did not follow the handshake.
    Protocol,
    /// The request itself is wrong.
    InvalidRequest,
    /// The request names nothing that lives.
    NotFound,
    /// The request does not go with the state of what it names.
    Conflict,
    /// Denial did not configure the window in time.
    ConfigureTimeout,
    /// Composer, Denial or the service itself failed.
    Backend,
}

impl ControlErrorCode {
    /// Name of this kind in texts.
    pub open spec fn name(self) -> Seq<char> {
        match self {
            ControlErrorCode::Protocol => "Protocol"@,
            ControlErrorCode::InvalidRequest => "InvalidRequest"@,
            ControlErrorCode::NotFound => "NotFound"@,
            ControlErrorCode::Conflict => "Conflict"@,
            ControlErrorCode::ConfigureTimeout => "ConfigureTimeout"@,
            ControlErrorCode::Backend => "Backend"@,
        }
    }

    pub(crate) fn label(self) -> (name: &'static str)
        ensures
            name@ == self.name(),
    {
        match self {
            ControlErrorCode::Protocol => "Protocol",
            ControlErrorCode::InvalidRequest => "InvalidRequest",
            ControlErrorCode::NotFound => "NotFound",
            ControlErrorCode::Conflict => "Conflict",
            ControlErrorCode::ConfigureTimeout => "ConfigureTimeout",
            ControlErrorCode::Backend => "Backend",
        }
    }
}

/// Request of a privileged client.
#[derive(Clone, Debug, PartialEq, Eq)]
#[allow(inconsistent_fields)]
pub enum ControlRequest {
    /// Range of protocol versions that the client speaks.
    Hello {
        /// Lowest major version.
        min_major: u16,
        /// Highest major version.
        max_major: u16,
    },
    /// Reserve a display and a native window for a package.
    Reserve {
        /// Number chosen by the client.
        request_id: u64,
        /// Package to launch.
        package: String,
    },
    /// Bind the task that Android reported for a reserved window.
    Bind {
        /// Number chosen by the client.
        request_id: u64,
        /// Reserved object.
        object: u64,
        /// Android task.
        task: u64,
        /// Android logical display.
        android_display: u32,
    },
    /// Register a task that lives on an ordinary Android display.
    RegisterDirect {
        /// Number chosen by the client.
        request_id: u64,
        /// Owning package.
        package: String,
        /// Android task.
        task: u64,
        /// Android logical display.
        android_display: u32,
    },
    /// Remove a window.
    Remove {
        /// Number chosen by the client.
        request_id: u64,
        /// Object to remove.
        object: u64,
    },
}

/// Response to a privileged client.
#[derive(Clone, Debug, PartialEq, Eq)]
#[allow(inconsistent_fields)]
pub enum ControlResponse {
    /// Protocol version of the service.
    ServerHello {
        /// Major version.
        major: u16,
        /// Minor version.
        minor: u16,
    },
    /// The display is ready for a launch.
    Reserved {
        /// Number of the request.
        request_id: u64,
        /// Reserved object.
        object: u64,
        /// Reserved display.
        display: u64,
    },
    /// The task is bound.
    Bound {
        /// Number of the request.
        request_id: u64,
        /// Bound object.
        object: u64,
        /// Bound task.
        task: u64,
        /// Composer display.
        display: u64,
        /// Android logical display.
        android_display: u32,
    },
    /// The window is gone.
    Removed {
        /// Number of the request.
        request_id: u64,
        /// Removed object.
        object: u64,
    },
    /// The request failed.
    Error {
        /// Number of the request.
        request_id: u64,
        /// Kind of the failure.
        code: ControlErrorCode,
        /// Text of the failure.
        message: String,
    },
}

/// Contents of a [`ControlResponse`].
#[verifier::ext_equal]
#[allow(inconsistent_fields)]
pub enum ResponseView {
    ServerHello { major: u16, minor: u16 },
    Reserved { request_id: u64, object: u64, display: u64 },
    Bound { request_id: u64, object: u64, task: u64, display: u64, android_display: u32 },
    Removed { request_id: u64, object: u64 },
    Error { request_id: u64, code: ControlErrorCode, message: Seq<char> },
}

impl View for ControlResponse {
    type V = ResponseView;

    open spec fn view(&self) -> ResponseView {
        match *self {
            ControlResponse::ServerHello { major, minor } => ResponseView::ServerHello {
                major,
                minor,
            },
            ControlResponse::Reserved { request_id, object, display } => ResponseView::Reserved {
                request_id,
                object,
                display,
            },
            ControlResponse::Bound {
                request_id,
                object,
                task,
                display,
                android_display,
            } => ResponseView::Bound { request_id, object, task, display, android_display },
            ControlResponse::Removed { request_id, object } => ResponseView::Removed {
                request_id,
                object,
            },
            ControlResponse::Error { request_id, code, message } => ResponseView::Error {
                request_id,
                code,
                message: message@,
            },
        }
    }
}

/// Failure of a request.
#[derive(Clone, Debug, PartialEq, Eq)]
pub struct ControlFailure {
    /// Kind of the failure.
    pub code: ControlErrorCode,
    /// Text of the failure.
    pub message: String,
}

/// Contents of a [`ControlFailure`].
#[verifier::ext_equal]
pub struct FailureView {
    pub code: ControlErrorCode,
    pub message: Seq<char>,
}

impl View for ControlFailure {
    type V = FailureView;

    open spec fn view(&self) -> FailureView {
        FailureView { code: self.code, message: self.message@ }
    }
}

/// Failure of Composer, Denial or the service.
pub open spec fn backend_failure(message: Seq<char>) -> FailureView {
    FailureView { code: ControlErrorCode::Backend, message }
}

/// Number of a request.
pub open spec fn number_of_request(request: ControlRequest) -> u64 {
    match request {
        ControlRequest::Hello { .. } => 0,
        ControlRequest::Reserve { request_id, .. } => request_id,
        ControlRequest::Bind { request_id, .. } => request_id,
        ControlRequest::RegisterDirect { request_id, .. } => request_id,
        ControlRequest::Remove { request_id, .. } => request_id,
    }
}

/// Number of a request.
pub fn request_id(request: &ControlRequest) -> (number: u64)
    ensures
        number == number_of_request(*request),
{
    match request {
        ControlRequest::Hello { .. } => 0,
        ControlRequest::Reserve { request_id, .. } => *request_id,
        ControlRequest::Bind { request_id, .. } => *request_id,
        ControlRequest::RegisterDirect { request_id, .. } => *request_id,
        ControlRequest::Remove { request_id, .. } => *request_id,
    }
}

/// Text of a failure as a response carries it.
pub open spec fn bounded_message(message: Seq<char>) -> Seq<char> {
    if cut(message, MAX_MESSAGE_BYTES as int).len() == 0 {
        "unspecified task-control failure"@
    } else {
        cut(message, MAX_MESSAGE_BYTES as int)
    }
}

/// Response to a failed request.
pub fn error_response(request_id: u64, code: ControlErrorCode, message: &str) -> (response:
    ControlResponse)
    ensures
        response@ == (ResponseView::Error {
            request_id,
            code,
            message: bounded_message(message@),
        }),
{
    let bounded = chars_of(cut_text(message, MAX_MESSAGE_BYTES));
    let message: String = if bounded.len() == 0 {
        "unspecified task-control failure".to_owned()
    } else {
        text_of(&bounded)
    };
    ControlResponse::Error { request_id, code, message }
}

/// Whether a peer may use the control socket: root or the system user.
pub fn privileged_peer(uid: u32) -> (privileged: bool)
    ensures
        privileged == (uid == 0 || uid == 1000),
{
    uid == 0 || uid == 1000
}

/// What to do with a request.
#[derive(Clone, Debug)]
pub enum ControlStep {
    /// Answer at once.
    Reply(ControlResponse),
    /// Perform the request.
    Perform(ControlRequest),
}

/// State of one client connection.
#[derive(Clone, Copy, Debug, PartialEq, Eq, Structural)]
pub struct ControlConnection {
    /// Protocol version of the service.
    pub major: u16,
    /// Minor version of the service.
    pub minor: u16,
    /// Whether the handshake is over.
    pub ready: bool,
}

impl ControlConnection {
    /// Connection before its handshake.
    pub fn new(major: u16, minor: u16) -> (connection: ControlConnection)
        ensures
            connection == (ControlConnection { major, minor, ready: false }),
    {
        ControlConnection { major, minor, ready: false }
    }

    /// Whether a request is the handshake that this connection waits for.
    pub open spec fn greets(self, request: ControlRequest) -> bool {
        match request {
            ControlRequest::Hello { min_major, max_major } => !self.ready && min_major
                <= self.major <= max_major,
            _ => false,
        }
    }

    /// Take one request: a connection answers nothing before its handshake, and
    /// shakes hands once.
    pub fn accept(&mut self, request: ControlRequest) -> (step: ControlStep)
        ensures
            final(self).major == old(self).major,
            final(self).minor == old(self).minor,
            final(self).ready == (old(self).ready || old(self).greets(request)),
            match step {
                ControlStep::Perform(performed) => {
                    &&& old(self).ready
                    &&& !(request is Hello)
                    &&& performed == request
                },
                ControlStep::Reply(response) => if old(self).greets(request) {
                    response@ == (ResponseView::ServerHello {
                        major: old(self).major,
                        minor: old(self).minor,
                    })
                } else if request is Hello {
                    response@ == (ResponseView::Error {
                        request_id: 0,
                        code: ControlErrorCode::Protocol,
                        message: bounded_message("repeated or incompatible task-control hello"@),
                    })
                } else {
                    &&& !old(self).ready
                    &&& response@ == (ResponseView::Error {
                        request_id: number_of_request(request),
                        code: ControlErrorCode::Protocol,
                        message: bounded_message("task-control hello is required"@),
                    })
                },
            },
    {
        if let ControlRequest::Hello { min_major, max_major } = &request {
            if !self.ready && *min_major <= self.major && *max_major >= self.major {
                self.ready = true;
                return ControlStep::Reply(
                    ControlResponse::ServerHello { major: self.major, minor: self.minor },
                );
            }
            return ControlStep::Reply(
                error_response(
                    0,
                    ControlErrorCode::Protocol,
                    "repeated or incompatible task-control hello",
                ),
            );
        }
        if !self.ready {
            return ControlStep::Reply(
                error_response(
                    request_id(&request),
                    ControlErrorCode::Protocol,
                    "task-control hello is required",
                ),
            );
        }
        ControlStep::Perform(request)
    }
}

/// Response to the outcome of a request.
pub fn respond(request_id: u64, outcome: Result<ControlResponse, ControlFailure>) -> (response:
    ControlResponse)
    ensures
        match outcome {
            Ok(answer) => response == answer,
            Err(failure) => response@ == (ResponseView::Error {
                request_id,
                code: failure.code,
                message: bounded_message(failure.message@),
            }),
        },
{
    match outcome {
        Ok(response) => response,
        Err(failure) => error_response(request_id, failure.code, failure.message.as_str()),
    }
}

/// Text with a number between two parts.
pub open spec fn numbered(before: Seq<char>, number: int, after: Seq<char>) -> Seq<char> {
    before + decimal(number) + after
}

pub(crate) fn numbered_text(before: &str, number: u64, after: &str) -> (text: String)
    ensures
        text@ == numbered(before@, number as int, after@),
{
    let mut text: Vec<char> = chars_of(before);
    append_chars(&mut text, &format_number(number));
    append(&mut text, after);
    text_of(&text)
}

fn prefixed(before: &str, detail: &str) -> (text: String)
    ensures
        text@ == before@ + detail@,
{
    let mut text: Vec<char> = chars_of(before);
    append(&mut text, detail);
    text_of(&text)
}

/// Name of a phase in texts.
pub open spec fn phase_name(phase: TaskRegistrationPhase) -> Seq<char> {
    match phase {
        TaskRegistrationPhase::Reserved => "Reserved"@,
        TaskRegistrationPhase::Staged => "Staged"@,
        TaskRegistrationPhase::Connected => "Connected"@,
        TaskRegistrationPhase::Bound => "Bound"@,
        TaskRegistrationPhase::Removing => "Removing"@,
    }
}

fn phase_label(phase: TaskRegistrationPhase) -> (name: &'static str)
    ensures
        name@ == phase_name(phase),
{
    match phase {
        TaskRegistrationPhase::Reserved => "Reserved",
        TaskRegistrationPhase::Staged => "Staged",
        TaskRegistrationPhase::Connected => "Connected",
        TaskRegistrationPhase::Bound => "Bound",
        TaskRegistrationPhase::Removing => "Removing",
    }
}

/// Text of a window error.
pub open spec fn window_text(error: TaskWindowError) -> Seq<char> {
    match error {
        TaskWindowError::WindowLimit => "the Android task-window limit has been reached"@,
        TaskWindowError::InvalidTask => "Android task identity must be non-zero"@,
        TaskWindowError::InvalidDisplay => "Android display identity must be non-zero"@,
        TaskWindowError::DuplicateTask(task) => numbered(
            "task TaskId("@,
            task.0 as int,
            ") already has a native window"@,
        ),
        TaskWindowError::DuplicateDisplay(display) => numbered(
            "display DisplayId("@,
            display.0 as int,
            ") already belongs to another task window"@,
        ),
        TaskWindowError::UnknownTask(task) => numbered(
            "task TaskId("@,
            task.0 as int,
            ") has no native window"@,
        ),
        TaskWindowError::UnknownDisplay(display) => numbered(
            "display DisplayId("@,
            display.0 as int,
            ") has no native task window"@,
        ),
        TaskWindowError::UnboundDisplay(display) => numbered(
            "display DisplayId("@,
            display.0 as int,
            ") is staged but has no Android task identity yet"@,
        ),
        TaskWindowError::DisplayAlreadyBound(display) => numbered(
            "display DisplayId("@,
            display.0 as int,
            ") is already bound to an Android task"@,
        ),
        TaskWindowError::InvalidPackage => "package identity is invalid"@,
        TaskWindowError::BuffersInFlight { task, buffers } => numbered(
            numbered("task TaskId("@, task.0 as int, ") still has "@),
            buffers as int,
            " buffers in flight"@,
        ),
        TaskWindowError::DisplayBuffersInFlight { display, buffers } => numbered(
            numbered("display DisplayId("@, display.0 as int, ") still has "@),
            buffers as int,
            " buffers in flight"@,
        ),
    }
}

/// Text of a window error.
pub fn window_error_text(error: &TaskWindowError) -> (text: String)
    ensures
        text@ == window_text(*error),
{
    match error {
        TaskWindowError::WindowLimit => {
            "the Android task-window limit has been reached".to_owned()
        },
        TaskWindowError::InvalidTask => "Android task identity must be non-zero".to_owned(),
        TaskWindowError::InvalidDisplay => "Android display identity must be non-zero".to_owned(),
        TaskWindowError::DuplicateTask(task) => {
            numbered_text("task TaskId(", task.0, ") already has a native window")
        },
        TaskWindowError::DuplicateDisplay(display) => numbered_text(
            "display DisplayId(",
            display.0,
            ") already belongs to another task window",
        ),
        TaskWindowError::UnknownTask(task) => {
            numbered_text("task TaskId(", task.0, ") has no native window")
        },
        TaskWindowError::UnknownDisplay(display) => {
            numbered_text("display DisplayId(", display.0, ") has no native task window")
        },
        TaskWindowError::UnboundDisplay(display) => numbered_text(
            "display DisplayId(",
            display.0,
            ") is staged but has no Android task identity yet",
        ),
        TaskWindowError::DisplayAlreadyBound(display) => numbered_text(
            "display DisplayId(",
            display.0,
            ") is already bound to an Android task",
        ),
        TaskWindowError::InvalidPackage => "package identity is invalid".to_owned(),
        TaskWindowError::BuffersInFlight { task, buffers } => {
            let before = numbered_text("task TaskId(", task.0, ") still has ");
            numbered_text(before.as_str(), *buffers as u64, " buffers in flight")
        },
        TaskWindowError::DisplayBuffersInFlight { display, buffers } => {
            let before = numbered_text("display DisplayId(", display.0, ") still has ");
            numbered_text(before.as_str(), *buffers as u64, " buffers in flight")
        },
    }
}

/// Text of a registry error.
pub open spec fn registry_text(error: TaskControlError) -> Seq<char> {
    match error {
        TaskControlError::TaskLimit => "the Android task-registration limit has been reached"@,
        TaskControlError::DuplicateTask(task) => numbered(
            "Android task TaskId("@,
            task.0 as int,
            ") already has a registration"@,
        ),
        TaskControlError::UnknownObject(object) => numbered(
            "Droidloom object TaskObjectId("@,
            object.0 as int,
            ") has no registration"@,
        ),
        TaskControlError::UnknownTask(task) => numbered(
            "Android task TaskId("@,
            task.0 as int,
            ") has no registration"@,
        ),
        TaskControlError::InvalidPhase { object, actual, requested } => numbered(
            "Droidloom object TaskObjectId("@,
            object.0 as int,
            ") cannot move from "@,
        ) + phase_name(actual) + " to "@ + phase_name(requested),
        TaskControlError::IdentifierExhausted => {
            "task display/object identity space is exhausted"@
        },
        TaskControlError::InvalidSpec(error) => window_text(error),
    }
}

/// Text of a registry error.
pub fn registry_error_text(error: &TaskControlError) -> (text: String)
    ensures
        text@ == registry_text(*error),
{
    match error {
        TaskControlError::TaskLimit => {
            "the Android task-registration limit has been reached".to_owned()
        },
        TaskControlError::DuplicateTask(task) => numbered_text(
            "Android task TaskId(",
            task.0,
            ") already has a registration",
        ),
        TaskControlError::UnknownObject(object) => numbered_text(
            "Droidloom object TaskObjectId(",
            object.0,
            ") has no registration",
        ),
        TaskControlError::UnknownTask(task) => {
            numbered_text("Android task TaskId(", task.0, ") has no registration")
        },
        TaskControlError::InvalidPhase { object, actual, requested } => {
            let mut text: Vec<char> = chars_of("Droidloom object TaskObjectId(");
            append_chars(&mut text, &format_number(object.0));
            append(&mut text, ") cannot move from ");
            append(&mut text, phase_label(*actual));
            append(&mut text, " to ");
            append(&mut text, phase_label(*requested));
            text_of(&text)
        },
        TaskControlError::IdentifierExhausted => {
            "task display/object identity space is exhausted".to_owned()
        },
        TaskControlError::InvalidSpec(error) => window_error_text(error),
    }
}

/// Kind of a registry error for a client: what it names is unknown, it does not
/// go with the state, or it is wrong in itself.
pub open spec fn registry_code(error: TaskControlError) -> ControlErrorCode {
    match error {
        TaskControlError::UnknownObject(_) => ControlErrorCode::NotFound,
        TaskControlError::UnknownTask(_) => ControlErrorCode::NotFound,
        TaskControlError::InvalidSpec(TaskWindowError::UnknownTask(_)) => {
            ControlErrorCode::NotFound
        },
        TaskControlError::InvalidSpec(TaskWindowError::UnknownDisplay(_)) => {
            ControlErrorCode::NotFound
        },
        TaskControlError::DuplicateTask(_) => ControlErrorCode::Conflict,
        TaskControlError::InvalidPhase { .. } => ControlErrorCode::Conflict,
        TaskControlError::InvalidSpec(TaskWindowError::DuplicateTask(_)) => {
            ControlErrorCode::Conflict
        },
        TaskControlError::InvalidSpec(TaskWindowError::DuplicateDisplay(_)) => {
            ControlErrorCode::Conflict
        },
        TaskControlError::InvalidSpec(TaskWindowError::DisplayAlreadyBound(_)) => {
            ControlErrorCode::Conflict
        },
        _ => ControlErrorCode::InvalidRequest,
    }
}

/// Failure of a registry error.
pub open spec fn registry_failure(error: TaskControlError) -> FailureView {
    FailureView { code: registry_code(error), message: registry_text(error) }
}

/// Failure that a registry error is to a client.
pub fn control_error(error: &TaskControlError) -> (failure: ControlFailure)
    ensures
        failure@ == registry_failure(*error),
{
    let code = match error {
        TaskControlError::UnknownObject(_) | TaskControlError::UnknownTask(_) => {
            ControlErrorCode::NotFound
        },
        TaskControlError::DuplicateTask(_) | TaskControlError::InvalidPhase { .. } => {
            ControlErrorCode::Conflict
        },
        TaskControlError::InvalidSpec(error) => match error {
            TaskWindowError::UnknownTask(_) | TaskWindowError::UnknownDisplay(_) => {
                ControlErrorCode::NotFound
            },
            TaskWindowError::DuplicateTask(_)
            | TaskWindowError::DuplicateDisplay(_)
            | TaskWindowError::DisplayAlreadyBound(_) => ControlErrorCode::Conflict,
            _ => ControlErrorCode::InvalidRequest,
        },
        TaskControlError::TaskLimit | TaskControlError::IdentifierExhausted => {
            ControlErrorCode::InvalidRequest
        },
    };
    ControlFailure { code, message: registry_error_text(error) }
}

/// Failure of a step outside of the coordinator: what was done, and the text of
/// what went wrong.
pub fn backend(action: &str, detail: &str) -> (failure: ControlFailure)
    ensures
        failure@ == backend_failure(action@ + detail@),
{
    ControlFailure { code: ControlErrorCode::Backend, message: prefixed(action, detail) }
}

/// Task of an ordinary Android display, with that display.
#[derive(Clone, Copy, Debug, PartialEq, Eq, Structural)]
pub struct DirectTask {
    /// Android task.
    pub task: TaskId,
    /// Android logical display.
    pub android_display: u32,
}

/// Where input of an object goes.
#[derive(Clone, Copy, Debug, PartialEq, Eq, Structural)]
pub struct InputRoute {
    /// Android task.
    pub task: TaskId,
    /// Android logical display.
    pub android_display: u32,
    /// Numerator of the logical-to-buffer scale.
    pub scale_numerator: u32,
    /// Denominator of the logical-to-buffer scale.
    pub scale_denominator: u32,
}

/// Next step of a binding.
#[derive(Clone, Debug)]
pub enum BindStep {
    /// The task was bound before.
    Done(ControlResponse),
    /// Bind the task of this display in Denial and in Composer.
    Bind(DisplayId),
}

/// State shared by the control listener and the Denial event pump.
#[derive(Debug)]
pub struct TaskCoordinator {
    registry: TaskControlRegistry,
    retired: BTreeMap<u64, ()>,
    input_scales: BTreeMap<u64, (u32, u32)>,
    direct_tasks: BTreeMap<u64, u64>,
    direct_android_displays: BTreeMap<u64, u32>,
}

/// Model of a [`TaskCoordinator`].
#[verifier::ext_equal]
pub struct CoordinatorModel {
    pub registry: RegistryModel,
    /// Objects that were removed on purpose.
    pub retired: Set<u64>,
    /// Logical-to-buffer scales by object.
    pub input_scales: Map<u64, (u32, u32)>,
    /// Objects of direct tasks, by task.
    pub direct_tasks: Map<u64, u64>,
    /// Android displays of direct tasks, by object.
    pub direct_android_displays: Map<u64, u32>,
}

impl View for TaskCoordinator {
    type V = CoordinatorModel;

    closed spec fn view(&self) -> CoordinatorModel {
        CoordinatorModel {
            registry: self.registry@,
            retired: self.retired@.dom(),
            input_scales: self.input_scales@,
            direct_tasks: self.direct_tasks@,
            direct_android_displays: self.direct_android_displays@,
        }
    }
}

/// Registry without a reservation that nobody has seen.
pub open spec fn cancelled(registry: RegistryModel, object: TaskObjectId) -> RegistryModel {
    if registry.transition_error(
        object,
        TaskRegistrationPhase::Reserved,
        TaskRegistrationPhase::Reserved,
    ) is None {
        registry.without(object)
    } else {
        registry
    }
}

/// Registry with a removal begun, where it can be.
pub open spec fn removing(registry: RegistryModel, object: TaskObjectId) -> RegistryModel {
    if registry.removal_error(object) is None {
        registry.with_phase(object, TaskRegistrationPhase::Removing)
    } else {
        registry
    }
}

/// Registry with a removal finished, where it can be.
pub open spec fn removed(registry: RegistryModel, object: TaskObjectId) -> RegistryModel {
    if registry.transition_error(
        object,
        TaskRegistrationPhase::Removing,
        TaskRegistrationPhase::Removing,
    ) is None {
        registry.without(object)
    } else {
        registry
    }
}

impl CoordinatorModel {
    /// The invariant of every reachable coordinator: no two tasks share an
    /// object, and every object of a direct channel was issued before.
    pub open spec fn wf(self) -> bool {
        &&& self.registry.wf()
        &&& forall|object: u64| #[trigger]
            self.direct_android_displays.contains_key(object) ==> passed(
                object,
                self.registry.next_object,
            )
        &&& forall|task: u64| #[trigger]
            self.direct_tasks.contains_key(task) ==> passed(
                self.direct_tasks[task],
                self.registry.next_object,
            )
        &&& forall|a: u64, b: u64|
            #![trigger self.direct_tasks[a], self.direct_tasks[b]]
            self.direct_tasks.contains_key(a) && self.direct_tasks.contains_key(b) && a != b
                ==> self.direct_tasks[a] != self.direct_tasks[b]
    }

    /// Failure to reserve a window.
    pub open spec fn reserve_failure(self, package: Seq<char>, direct: Option<DirectTask>) -> Option<
        FailureView,
    > {
        match self.registry.reserve_error(package) {
            Some(error) => Some(registry_failure(error)),
            None => match direct {
                Some(owner) => if self.direct_tasks.contains_key(owner.task.0) {
                    Some(
                        FailureView {
                            code: ControlErrorCode::Conflict,
                            message: numbered(
                                "Android task "@,
                                owner.task.0 as int,
                                " already has a direct channel"@,
                            ),
                        },
                    )
                } else {
                    None
                },
                None => None,
            },
        }
    }

    /// State after a reservation was begun, or refused. Identities of a refused
    /// one stay used.
    pub open spec fn reserving(self, package: String, direct: Option<DirectTask>) -> CoordinatorModel {
        if self.registry.reserve_error(package@) is Some {
            self
        } else {
            let object = TaskObjectId(self.registry.next_object->0);
            let registry = self.registry.with_reservation(package);
            match direct {
                None => CoordinatorModel { registry, ..self },
                Some(owner) => if self.direct_tasks.contains_key(owner.task.0) {
                    CoordinatorModel { registry: cancelled(registry, object), ..self }
                } else {
                    CoordinatorModel {
                        registry,
                        direct_tasks: self.direct_tasks.insert(owner.task.0, object.0),
                        direct_android_displays: self.direct_android_displays.insert(
                            object.0,
                            owner.android_display,
                        ),
                        ..self
                    }
                },
            }
        }
    }

    /// State without the direct channel of an object.
    pub open spec fn untied(self, object: TaskObjectId, direct: Option<DirectTask>) -> CoordinatorModel {
        match direct {
            Some(owner) => CoordinatorModel {
                direct_tasks: self.direct_tasks.remove(owner.task.0),
                direct_android_displays: self.direct_android_displays.remove(object.0),
                ..self
            },
            None => self,
        }
    }

    /// State after Composer refused to stage a reservation.
    pub open spec fn unstaged(self, object: TaskObjectId, direct: Option<DirectTask>) -> CoordinatorModel {
        CoordinatorModel { registry: cancelled(self.registry, object), ..self }.untied(
            object,
            direct,
        )
    }

    /// State with a reservation that Composer staged.
    pub open spec fn in_stage(self, object: TaskObjectId) -> CoordinatorModel {
        CoordinatorModel {
            registry: self.registry.with_phase(object, TaskRegistrationPhase::Staged),
            ..self
        }
    }

    /// State after Denial refused a staged window.
    pub open spec fn unregistered(self, object: TaskObjectId, direct: Option<DirectTask>) -> CoordinatorModel {
        CoordinatorModel {
            registry: removed(removing(self.registry, object), object),
            retired: self.retired.insert(object.0),
            ..self
        }.untied(object, direct)
    }

    /// Phase of a live object.
    pub open spec fn in_phase(self, object: TaskObjectId, phase: TaskRegistrationPhase) -> bool {
        self.registry.registrations.contains_key(object.0)
            && self.registry.registrations[object.0].phase == phase
    }

    /// Whether a window can be launched on.
    pub open spec fn launchable(self, object: TaskObjectId) -> bool {
        self.in_phase(object, TaskRegistrationPhase::Connected) || self.in_phase(
            object,
            TaskRegistrationPhase::Bound,
        )
    }

    /// Direct tasks without those of an object.
    pub open spec fn tasks_without(self, object: u64) -> Map<u64, u64> {
        if exists|task: u64| self.owns(task, object) {
            self.direct_tasks.remove(choose|task: u64| self.owns(task, object))
        } else {
            self.direct_tasks
        }
    }

    /// Whether a direct task owns an object.
    pub open spec fn owns(self, task: u64, object: u64) -> bool {
        self.direct_tasks.contains_key(task) && self.direct_tasks[task] == object
    }

    /// State after a removal was finished.
    pub open spec fn forgotten(self, object: TaskObjectId) -> CoordinatorModel {
        CoordinatorModel {
            registry: self.registry.without(object),
            retired: self.retired.insert(object.0),
            input_scales: self.input_scales.remove(object.0),
            direct_tasks: if self.direct_android_displays.contains_key(object.0) {
                self.tasks_without(object.0)
            } else {
                self.direct_tasks
            },
            direct_android_displays: self.direct_android_displays.remove(object.0),
        }
    }
}

/// How the service status of each Composer error reads in texts. The statuses
/// are those of the service interface, which is not part of this library.
#[derive(Clone, Debug, PartialEq, Eq)]
pub struct StatusTexts {
    /// Status of [`ErrorCode::BadConfig`].
    pub bad_config: String,
    /// Status of [`ErrorCode::BadDisplay`].
    pub bad_display: String,
    /// Status of [`ErrorCode::BadLayer`].
    pub bad_layer: String,
    /// Status of [`ErrorCode::BadParameter`].
    pub bad_parameter: String,
    /// Status of [`ErrorCode::NoResources`].
    pub no_resources: String,
    /// Status of [`ErrorCode::NotValidated`].
    pub not_validated: String,
    /// Status of [`ErrorCode::Unsupported`].
    pub unsupported: String,
}

impl StatusTexts {
    /// Text of the status of an error.
    pub open spec fn of(self, code: ErrorCode) -> Seq<char> {
        match code {
            ErrorCode::BadConfig => self.bad_config@,
            ErrorCode::BadDisplay => self.bad_display@,
            ErrorCode::BadLayer => self.bad_layer@,
            ErrorCode::BadParameter => self.bad_parameter@,
            ErrorCode::NoResources => self.no_resources@,
            ErrorCode::NotValidated => self.not_validated@,
            ErrorCode::Unsupported => self.unsupported@,
        }
    }

    /// Text of the status of an error.
    pub fn text(&self, code: ErrorCode) -> (text: &str)
        ensures
            text@ == self.of(code),
    {
        match code {
            ErrorCode::BadConfig => self.bad_config.as_str(),
            ErrorCode::BadDisplay => self.bad_display.as_str(),
            ErrorCode::BadLayer => self.bad_layer.as_str(),
            ErrorCode::BadParameter => self.bad_parameter.as_str(),
            ErrorCode::NoResources => self.no_resources.as_str(),
            ErrorCode::NotValidated => self.not_validated.as_str(),
            ErrorCode::Unsupported => self.unsupported.as_str(),
        }
    }
}

/// Why Composer refuses to bind a task to a window: one that is announced, or,
/// for a direct task, one that is not.
pub open spec fn window_bind_error(
    connected: Set<u64>,
    session: SessionModel,
    display: DisplayId,
    task: TaskId,
    direct: bool,
) -> Option<ErrorCode> {
    if connected.contains(display.0) == direct {
        Some(ErrorCode::BadDisplay)
    } else if session.windows.bind_error(display, task) is Some {
        Some(ErrorCode::BadParameter)
    } else {
        None
    }
}

/// Text about a scale that cannot be used.
pub open spec fn invalid_scale_text(object: TaskObjectId, numerator: u32, denominator: u32) -> Seq<
    char,
> {
    numbered(
        numbered(
            numbered(
                "Droidloom object "@,
                object.0 as int,
                " received an invalid input scale "@,
            ),
            numerator as int,
            "/"@,
        ),
        denominator as int,
        ""@,
    )
}

/// Only one task owns an object.
proof fn lemma_owner(model: CoordinatorModel, task: u64, object: u64)
    requires
        model.wf(),
        model.owns(task, object),
    ensures
        model.tasks_without(object) == model.direct_tasks.remove(task),
{
    let other = choose|other: u64| model.owns(other, object);
    assert(model.owns(other, object));
    assert(model.direct_tasks[task] == model.direct_tasks[other]);
}

impl TaskCoordinator {
    /// Coordinator of one Composer/Denial connection. `seed` is the first
    /// object identity, taken from the wall clock; a seed that does not fit a
    /// signed number is replaced by one.
    pub fn new(seed: Option<u64>) -> (coordinator: TaskCoordinator)
        requires
            seed != Some(0u64),
        ensures
            coordinator@.wf(),
            coordinator@ == (CoordinatorModel {
                registry: RegistryModel::fresh(
                    1,
                    match seed {
                        Some(seed) => if seed <= i64::MAX {
                            seed
                        } else {
                            1
                        },
                        None => 1,
                    },
                ),
                retired: Set::empty(),
                input_scales: Map::empty(),
                direct_tasks: Map::empty(),
                direct_android_displays: Map::empty(),
            }),
    {
        let first: u64 = match seed {
            Some(seed) => if seed <= i64::MAX as u64 {
                seed
            } else {
                1
            },
            None => 1,
        };
        let registry = match TaskControlRegistry::with_first_ids(1, first) {
            Ok(registry) => registry,
            Err(_) => TaskControlRegistry::default(),
        };
        let coordinator = TaskCoordinator {
            registry,
            retired: BTreeMap::new(),
            input_scales: BTreeMap::new(),
            direct_tasks: BTreeMap::new(),
            direct_android_displays: BTreeMap::new(),
        };
        assert(coordinator@.retired =~= Set::empty());
        assert(coordinator@.input_scales =~= Map::empty());
        assert(coordinator@.direct_tasks =~= Map::empty());
        assert(coordinator@.direct_android_displays =~= Map::empty());
        coordinator
    }

    /// Whether an object was removed on purpose, so that a final event which is
    /// already queued may be dropped without accepting unknown objects.
    pub fn is_retired(&self, object: TaskObjectId) -> (retired: bool)
        ensures
            retired == self@.retired.contains(object.0),
    {
        self.retired.contains_key(&object.0)
    }

    /// Whether an object is a task channel of an ordinary Android display,
    /// which must never be announced as a display.
    pub fn is_direct_task(&self, object: TaskObjectId) -> (direct: bool)
        ensures
            direct == self@.direct_android_displays.contains_key(object.0),
    {
        self.direct_android_displays.contains_key(&object.0)
    }

    fn begin_reserve(&mut self, package: String, direct: Option<DirectTask>) -> (result: Result<
        TaskRegistration,
        ControlFailure,
    >)
        requires
            old(self)@.wf(),
        ensures
            final(self)@.wf(),
            final(self)@ == old(self)@.reserving(package, direct),
            match old(self)@.reserve_failure(package@, direct) {
                Some(failure) => result is Err && result->Err_0@ == failure,
                None => result is Ok && result->Ok_0 == old(self)@.registry.next_registration(
                    package,
                ),
            },
    {
        let ghost before = self@;
        let registration = match self.registry.reserve(package) {
            Ok(registration) => registration,
            Err(error) => {
                return Err(control_error(&error));
            },
        };
        let ghost reserved = self@;
        proof {
            assert forall|task: u64| #[trigger] self@.direct_tasks.contains_key(task) implies passed(
                self@.direct_tasks[task],
                self@.registry.next_object,
            ) by {
                assert(before.direct_tasks.contains_key(task));
            }
            assert forall|a: u64, b: u64|
                #![trigger self@.direct_tasks[a], self@.direct_tasks[b]]
                self@.direct_tasks.contains_key(a) && self@.direct_tasks.contains_key(b) && a
                    != b implies self@.direct_tasks[a] != self@.direct_tasks[b] by {
                assert(before.direct_tasks[a] != before.direct_tasks[b]);
            }
        }
        if let Some(owner) = direct {
            if self.direct_tasks.contains_key(&owner.task.0) {
                let _ = self.registry.cancel_reservation(registration.object);
                return Err(
                    ControlFailure {
                        code: ControlErrorCode::Conflict,
                        message: numbered_text(
                            "Android task ",
                            owner.task.0,
                            " already has a direct channel",
                        ),
                    },
                );
            }
            self.direct_tasks.insert(owner.task.0, registration.object.0);
            self.direct_android_displays.insert(registration.object.0, owner.android_display);
            proof {
                let after = self@;
                assert(after =~= before.reserving(package, direct));
                assert forall|task: u64| #[trigger] after.direct_tasks.contains_key(task) implies passed(
                    after.direct_tasks[task],
                    after.registry.next_object,
                ) by {
                    if task != owner.task.0 {
                        assert(before.direct_tasks.contains_key(task));
                    }
                }
                assert forall|a: u64, b: u64|
                    #![trigger after.direct_tasks[a], after.direct_tasks[b]]
                    after.direct_tasks.contains_key(a) && after.direct_tasks.contains_key(b) && a
                        != b implies after.direct_tasks[a] != after.direct_tasks[b] by {
                    if a != owner.task.0 {
                        assert(before.direct_tasks.contains_key(a));
                    }
                    if b != owner.task.0 {
                        assert(before.direct_tasks.contains_key(b));
                    }
                    if a != owner.task.0 && b != owner.task.0 {
                        assert(before.direct_tasks[a] != before.direct_tasks[b]);
                    }
                }
            }
        }
        Ok(registration)
    }

    fn untie(&mut self, object: TaskObjectId, direct: Option<DirectTask>)
        requires
            old(self)@.wf(),
        ensures
            final(self)@.wf(),
            final(self)@ == old(self)@.untied(object, direct),
    {
        if let Some(owner) = direct {
            self.direct_tasks.remove(&owner.task.0);
            self.direct_android_displays.remove(&object.0);
            proof {
                let (before, after) = (old(self)@, self@);
                assert(after =~= before.untied(object, direct));
                assert forall|a: u64, b: u64|
                    #![trigger after.direct_tasks[a], after.direct_tasks[b]]
                    after.direct_tasks.contains_key(a) && after.direct_tasks.contains_key(b) && a
                        != b implies after.direct_tasks[a] != after.direct_tasks[b] by {
                    assert(before.direct_tasks[a] != before.direct_tasks[b]);
                }
                assert forall|task: u64| #[trigger] after.direct_tasks.contains_key(task) implies passed(
                    after.direct_tasks[task],
                    after.registry.next_object,
                ) by {
                    assert(before.direct_tasks.contains_key(task));
                }
            }
        }
    }

    fn staged(
        &mut self,
        object: TaskObjectId,
        direct: Option<DirectTask>,
        failure: Option<String>,
    ) -> (result: Result<(), ControlFailure>)
        requires
            old(self)@.wf(),
        ensures
            final(self)@.wf(),
            match failure {
                Some(detail) => {
                    &&& result is Err
                    &&& result->Err_0@ == backend_failure("stage Composer display: "@ + detail@)
                    &&& final(self)@ == old(self)@.unstaged(object, direct)
                },
                None => match old(self)@.registry.transition_error(
                    object,
                    TaskRegistrationPhase::Reserved,
                    TaskRegistrationPhase::Staged,
                ) {
                    Some(error) => {
                        &&& result is Err
                        &&& result->Err_0@ == registry_failure(error)
                        &&& final(self)@ == old(self)@
                    },
                    None => result is Ok && final(self)@ == old(self)@.in_stage(object),
                },
            },
    {
        let ghost before = self@;
        if let Some(detail) = failure {
            let _ = self.registry.cancel_reservation(object);
            proof {
                lemma_direct_kept(before, self@);
            }
            self.untie(object, direct);
            return Err(backend("stage Composer display: ", detail.as_str()));
        }
        let result = self.registry.mark_staged(object);
        proof {
            lemma_direct_kept(before, self@);
        }
        match result {
            Ok(()) => Ok(()),
            Err(error) => Err(control_error(&error)),
        }
    }

    /// Reserve a window and stage it in Composer: the identities that Denial
    /// registers next. `direct` is the task of an ordinary Android display that
    /// the window is for, where it is for one; `texts` are those of the service.
    pub fn reserve_with_kind(
        &mut self,
        lifecycle: &ComposerLifecycle,
        session: &mut Session,
        texts: &StatusTexts,
        package: String,
        direct: Option<DirectTask>,
    ) -> (result: Result<TaskRegistration, ControlFailure>)
        requires
            old(self)@.wf(),
            old(session)@.wf(),
        ensures
            final(self)@.wf(),
            final(session)@.wf(),
            ({
                let registration = old(self)@.registry.next_registration(package);
                let begun = old(self)@.reserving(package, direct);
                let windows = old(session)@.windows;
                if old(self)@.reserve_failure(package@, direct) is Some {
                    &&& result is Err
                    &&& result->Err_0@ == old(self)@.reserve_failure(package@, direct)->0
                    &&& final(self)@ == begun
                    &&& final(session)@ == old(session)@
                } else if windows.reserve_error(registration.reservation) is Some {
                    &&& result is Err
                    &&& result->Err_0@ == backend_failure(
                        "stage Composer display: "@ + texts.of(ErrorCode::BadParameter),
                    )
                    &&& final(self)@ == begun.unstaged(registration.object, direct)
                    &&& final(session)@ == old(session)@
                } else {
                    &&& result == Ok::<TaskRegistration, ControlFailure>(registration)
                    &&& final(self)@ == begun.in_stage(registration.object)
                    &&& final(session)@ == (SessionModel {
                        windows: windows.with_reservation(registration.reservation),
                        ..old(session)@
                    })
                }
            }),
    {
        let registration = match self.begin_reserve(package, direct) {
            Ok(registration) => registration,
            Err(failure) => {
                return Err(failure);
            },
        };
        let reservation = ReservedTaskWindowSpec {
            display: registration.reservation.display,
            package: registration.reservation.package.clone(),
        };
        let failure = match lifecycle.stage_task(session, reservation) {
            Ok(()) => None,
            Err(code) => Some(texts.text(code).to_owned()),
        };
        match self.staged(registration.object, direct, failure) {
            Ok(()) => Ok(registration),
            Err(failure) => Err(failure),
        }
    }

    /// Take note of how Denial registered a staged window. After a failure the
    /// caller also removes the display from Composer.
    pub fn registered(
        &mut self,
        object: TaskObjectId,
        direct: Option<DirectTask>,
        failure: Option<String>,
    ) -> (result: Result<(), ControlFailure>)
        requires
            old(self)@.wf(),
        ensures
            final(self)@.wf(),
            match failure {
                Some(detail) => {
                    &&& result is Err
                    &&& result->Err_0@ == backend_failure("stage Denial task: "@ + detail@)
                    &&& final(self)@ == old(self)@.unregistered(object, direct)
                },
                None => result is Ok && final(self)@ == old(self)@,
            },
    {
        if let Some(detail) = failure {
            let ghost before = self@;
            let _ = self.registry.begin_removal(object);
            let _ = self.registry.finish_removal(object);
            self.retired.insert(object.0, ());
            proof {
                assert(self@.retired =~= before.retired.insert(object.0));
                lemma_direct_kept(before, self@);
            }
            self.untie(object, direct);
            return Err(backend("stage Denial task: ", detail.as_str()));
        }
        Ok(())
    }

    /// Whether a reserve request still waits for the first configure.
    pub fn awaits_configure(&self, object: TaskObjectId) -> (waits: bool)
        ensures
            waits == self@.in_phase(object, TaskRegistrationPhase::Staged),
    {
        match self.registry.get(object) {
            Ok(registration) => registration.phase == TaskRegistrationPhase::Staged,
            Err(_) => false,
        }
    }

    /// Answer a reserve request after its wait. After a failure the caller
    /// removes the window.
    pub fn reserved(&self, request_id: u64, object: TaskObjectId, display: DisplayId) -> (result: Result<
        ControlResponse,
        ControlFailure,
    >)
        ensures
            if self@.launchable(object) {
                &&& result is Ok
                &&& result->Ok_0@ == (ResponseView::Reserved {
                    request_id,
                    object: object.0,
                    display: display.0,
                })
            } else {
                &&& result is Err
                &&& result->Err_0@ == (FailureView {
                    code: ControlErrorCode::ConfigureTimeout,
                    message: numbered(
                        numbered(
                            numbered(
                                "request "@,
                                request_id as int,
                                ": Denial did not configure object "@,
                            ),
                            object.0 as int,
                            " within "@,
                        ),
                        CONFIGURE_TIMEOUT_MILLIS as int,
                        " ms"@,
                    ),
                })
            },
    {
        let connected: bool = match self.registry.get(object) {
            Ok(registration) => registration.phase == TaskRegistrationPhase::Connected
                || registration.phase == TaskRegistrationPhase::Bound,
            Err(_) => false,
        };
        if connected {
            return Ok(
                ControlResponse::Reserved { request_id, object: object.0, display: display.0 },
            );
        }
        let first = numbered_text("request ", request_id, ": Denial did not configure object ");
        let second = numbered_text(first.as_str(), object.0, " within ");
        Err(
            ControlFailure {
                code: ControlErrorCode::ConfigureTimeout,
                message: numbered_text(second.as_str(), CONFIGURE_TIMEOUT_MILLIS, " ms"),
            },
        )
    }

    /// Mark a configured display as launchable: whether pending reserve
    /// requests must look again. Later configures change nothing.
    pub fn display_connected(&mut self, object: TaskObjectId) -> (result: Result<bool, String>)
        requires
            old(self)@.wf(),
        ensures
            final(self)@.wf(),
            if !old(self)@.registry.registrations.contains_key(object.0) {
                &&& result is Err
                &&& result->Err_0@ == registry_text(TaskControlError::UnknownObject(object))
                &&& final(self)@ == old(self)@
            } else {
                &&& result is Ok
                &&& result->Ok_0 == old(self)@.in_phase(object, TaskRegistrationPhase::Staged)
                &&& final(self)@ == (if result->Ok_0 {
                    CoordinatorModel {
                        registry: old(self)@.registry.with_phase(
                            object,
                            TaskRegistrationPhase::Connected,
                        ),
                        ..old(self)@
                    }
                } else {
                    old(self)@
                })
            },
    {
        let ghost before = self@;
        let staged: bool = match self.registry.get(object) {
            Ok(registration) => registration.phase == TaskRegistrationPhase::Staged,
            Err(error) => {
                return Err(registry_error_text(&error));
            },
        };
        if staged {
            if let Err(error) = self.registry.mark_connected(object) {
                return Err(registry_error_text(&error));
            }
            proof {
                lemma_direct_kept(before, self@);
            }
        }
        Ok(staged)
    }

    /// Record the logical-to-buffer scale of the latest configure.
    pub fn set_input_scale(&mut self, object: TaskObjectId, numerator: u32, denominator: u32) -> (result:
        Result<(), String>)
        requires
            old(self)@.wf(),
        ensures
            final(self)@.wf(),
            if numerator == 0 || denominator == 0 {
                &&& result is Err
                &&& result->Err_0@ == invalid_scale_text(object, numerator, denominator)
                &&& final(self)@ == old(self)@
            } else if !old(self)@.registry.registrations.contains_key(object.0) {
                &&& result is Err
                &&& result->Err_0@ == registry_text(TaskControlError::UnknownObject(object))
                &&& final(self)@ == old(self)@
            } else {
                &&& result is Ok
                &&& final(self)@ == (CoordinatorModel {
                    input_scales: old(self)@.input_scales.insert(
                        object.0,
                        (numerator, denominator),
                    ),
                    ..old(self)@
                })
            },
    {
        if numerator == 0 || denominator == 0 {
            let first = numbered_text(
                "Droidloom object ",
                object.0,
                " received an invalid input scale ",
            );
            let second = numbered_text(first.as_str(), numerator as u64, "/");
            return Err(numbered_text(second.as_str(), denominator as u64, ""));
        }
        if let Err(error) = self.registry.get(object) {
            return Err(registry_error_text(&error));
        }
        let ghost before = self@;
        self.input_scales.insert(object.0, (numerator, denominator));
        proof {
            lemma_direct_kept(before, self@);
        }
        Ok(())
    }

    /// Begin the binding of a task to a connected window.
    pub fn begin_bind(
        &self,
        request_id: u64,
        object: TaskObjectId,
        task: TaskId,
        android_display: u32,
    ) -> (result: Result<BindStep, ControlFailure>)
        ensures
            match result {
                Err(failure) => failure@ == self@.bind_failure(object, task, android_display)->0
                    && self@.bind_failure(object, task, android_display) is Some,
                Ok(step) => {
                    let registration = self@.registry.registrations[object.0];
                    &&& self@.bind_failure(object, task, android_display) is None
                    &&& match step {
                        BindStep::Done(response) => {
                            &&& self@.rebinds(object, task, android_display)
                            &&& response@ == (ResponseView::Bound {
                                request_id,
                                object: object.0,
                                task: task.0,
                                display: registration.reservation.display.0,
                                android_display,
                            })
                        },
                        BindStep::Bind(display) => {
                            &&& !self@.rebinds(object, task, android_display)
                            &&& display == registration.reservation.display
                        },
                    }
                },
            },
    {
        if android_display > i32::MAX as u32 {
            return Err(display_range(android_display));
        }
        let registration = match self.registry.get(object) {
            Ok(registration) => registration,
            Err(error) => {
                return Err(control_error(&error));
            },
        };
        if registration.phase == TaskRegistrationPhase::Bound && registration.task == Some(task)
            && registration.android_display == Some(android_display) {
            return Ok(
                BindStep::Done(
                    ControlResponse::Bound {
                        request_id,
                        object: object.0,
                        task: task.0,
                        display: registration.reservation.display.0,
                        android_display,
                    },
                ),
            );
        }
        if registration.phase != TaskRegistrationPhase::Connected {
            return Err(
                ControlFailure {
                    code: ControlErrorCode::Conflict,
                    message: numbered_text("object ", object.0, " is not awaiting task binding"),
                },
            );
        }
        Ok(BindStep::Bind(registration.reservation.display))
    }

    fn finish_bind(
        &mut self,
        request_id: u64,
        object: TaskObjectId,
        task: TaskId,
        android_display: u32,
    ) -> (result: Result<ControlResponse, ControlFailure>)
        requires
            old(self)@.wf(),
        ensures
            final(self)@.wf(),
            match old(self)@.registry.bind_error(object, task) {
                Some(error) => {
                    &&& result is Err
                    &&& result->Err_0@ == registry_failure(error)
                    &&& final(self)@ == old(self)@
                },
                None => {
                    &&& result is Ok
                    &&& result->Ok_0@ == (ResponseView::Bound {
                        request_id,
                        object: object.0,
                        task: task.0,
                        display: old(self)@.registry.registrations[object.0].reservation.display.0,
                        android_display,
                    })
                    &&& final(self)@ == (CoordinatorModel {
                        registry: old(self)@.registry.with_binding(object, task, android_display),
                        ..old(self)@
                    })
                },
            },
    {
        let ghost before = self@;
        let result = self.registry.bind_task(object, task, android_display);
        proof {
            lemma_direct_kept(before, self@);
        }
        match result {
            Ok(spec) => Ok(
                ControlResponse::Bound {
                    request_id,
                    object: object.0,
                    task: task.0,
                    display: spec.display.0,
                    android_display,
                },
            ),
            Err(error) => Err(control_error(&error)),
        }
    }

    /// Bind a task whose identity Denial was told, in Composer and here, and
    /// answer the request.
    pub fn bind(
        &mut self,
        lifecycle: &ComposerLifecycle,
        session: &mut Session,
        texts: &StatusTexts,
        request_id: u64,
        object: TaskObjectId,
        display: DisplayId,
        task: TaskId,
        android_display: u32,
    ) -> (result: Result<ControlResponse, ControlFailure>)
        requires
            old(self)@.wf(),
            old(session)@.wf(),
        ensures
            final(self)@.wf(),
            final(session)@.wf(),
            match window_bind_error(lifecycle@, old(session)@, display, task, false) {
                Some(code) => {
                    &&& result is Err
                    &&& result->Err_0@ == backend_failure(
                        "bind Composer task identity: "@ + texts.of(code),
                    )
                    &&& final(self)@ == old(self)@
                    &&& final(session)@ == old(session)@
                },
                None => {
                    &&& final(session)@ == (SessionModel {
                        windows: old(session)@.windows.with_binding(display, task),
                        ..old(session)@
                    })
                    &&& match old(self)@.registry.bind_error(object, task) {
                        Some(error) => {
                            &&& result is Err
                            &&& result->Err_0@ == registry_failure(error)
                            &&& final(self)@ == old(self)@
                        },
                        None => {
                            &&& result is Ok
                            &&& result->Ok_0@ == (ResponseView::Bound {
                                request_id,
                                object: object.0,
                                task: task.0,
                                display: old(
                                    self,
                                )@.registry.registrations[object.0].reservation.display.0,
                                android_display,
                            })
                            &&& final(self)@ == (CoordinatorModel {
                                registry: old(self)@.registry.with_binding(
                                    object,
                                    task,
                                    android_display,
                                ),
                                ..old(self)@
                            })
                        },
                    }
                },
            },
    {
        match lifecycle.bind_task(session, display, task) {
            Ok(_) => self.finish_bind(request_id, object, task, android_display),
            Err(code) => Err(backend("bind Composer task identity: ", texts.text(code))),
        }
    }

    /// Begin the registration of a task that was verified on an ordinary
    /// Android display: the window that it has already, or none, where a new one
    /// is to be reserved for it. This registry is also the allowlist that keeps
    /// out the home screen and system tasks.
    pub fn begin_direct(&self, task: TaskId, package: &str, android_display: u32) -> (result: Result<
        Option<(TaskObjectId, DisplayId)>,
        String,
    >)
        ensures
            match self@.direct_failure(task, package@, android_display) {
                Some(text) => result is Err && result->Err_0@ == text,
                None => {
                    &&& result is Ok
                    &&& result->Ok_0 == (if self@.direct_tasks.contains_key(task.0) {
                        let object = self@.direct_tasks[task.0];
                        Some(
                            (
                                TaskObjectId(object),
                                self@.registry.registrations[object].reservation.display,
                            ),
                        )
                    } else {
                        None
                    })
                },
            },
    {
        if task.0 == 0 || task.0 > i32::MAX as u64 {
            return Err(numbered_text("invalid Android task identity ", task.0, ""));
        }
        let existing = match self.direct_tasks.get(&task.0) {
            Some(object) => TaskObjectId(*object),
            None => {
                return Ok(None);
            },
        };
        let registration = match self.registry.get(existing) {
            Ok(registration) => registration,
            Err(error) => {
                return Err(registry_error_text(&error));
            },
        };
        let owned: bool = same(
            &chars_of(registration.reservation.package.as_str()),
            &chars_of(package),
        );
        if !owned || registration.android_display != Some(android_display) {
            return Err(
                numbered_text(
                    "Android task ",
                    task.0,
                    " is already registered with different ownership",
                ),
            );
        }
        Ok(Some((existing, registration.reservation.display)))
    }

    fn finish_direct(&mut self, object: TaskObjectId, task: TaskId, android_display: u32) -> (result:
        Result<(), String>)
        requires
            old(self)@.wf(),
        ensures
            final(self)@.wf(),
            match old(self)@.registry.bind_error(object, task) {
                Some(error) => {
                    &&& result is Err
                    &&& result->Err_0@ == registry_text(error)
                    &&& final(self)@ == old(self)@
                },
                None => {
                    &&& result is Ok
                    &&& final(self)@ == (CoordinatorModel {
                        registry: old(self)@.registry.with_binding(object, task, android_display),
                        ..old(self)@
                    })
                },
            },
    {
        let ghost before = self@;
        let result = self.registry.bind_task(object, task, android_display);
        proof {
            lemma_direct_kept(before, self@);
        }
        match result {
            Ok(_) => Ok(()),
            Err(error) => Err(registry_error_text(&error)),
        }
    }

    /// Bind a direct task whose identity Denial was told, in Composer, which
    /// does not announce its window, and here.
    pub fn register_direct_task(
        &mut self,
        lifecycle: &ComposerLifecycle,
        session: &mut Session,
        texts: &StatusTexts,
        object: TaskObjectId,
        display: DisplayId,
        task: TaskId,
        android_display: u32,
    ) -> (result: Result<(TaskObjectId, DisplayId), String>)
        requires
            old(self)@.wf(),
            old(session)@.wf(),
        ensures
            final(self)@.wf(),
            final(session)@.wf(),
            match window_bind_error(lifecycle@, old(session)@, display, task, true) {
                Some(code) => {
                    &&& result is Err
                    &&& result->Err_0@ == "bind direct Composer task identity: "@ + texts.of(code)
                    &&& final(self)@ == old(self)@
                    &&& final(session)@ == old(session)@
                },
                None => {
                    let windows = old(session)@.windows;
                    let bound = SessionModel {
                        windows: windows.with_binding(display, task),
                        ..old(session)@
                    };
                    &&& final(session)@ == bound.with_composer(
                        display,
                        windows.windows[display.0].composer.powered(PowerMode::On),
                    )
                    &&& match old(self)@.registry.bind_error(object, task) {
                        Some(error) => {
                            &&& result is Err
                            &&& result->Err_0@ == registry_text(error)
                            &&& final(self)@ == old(self)@
                        },
                        None => {
                            &&& result == Ok::<(TaskObjectId, DisplayId), String>((object, display))
                            &&& final(self)@ == (CoordinatorModel {
                                registry: old(self)@.registry.with_binding(
                                    object,
                                    task,
                                    android_display,
                                ),
                                ..old(self)@
                            })
                        },
                    }
                },
            },
    {
        match lifecycle.bind_direct_task(session, display, task) {
            Ok(_) => {},
            Err(code) => {
                let mut text = chars_of("bind direct Composer task identity: ");
                append(&mut text, texts.text(code));
                return Err(text_of(&text));
            },
        }
        match self.finish_direct(object, task, android_display) {
            Ok(()) => Ok((object, display)),
            Err(text) => Err(text),
        }
    }

    /// Display of a direct task that was authorized before. A connection for any
    /// other task fails here and never gets a window.
    pub fn direct_task_display(&self, task: TaskId) -> (result: Result<DisplayId, String>)
        ensures
            match self@.direct_display(task) {
                Ok(display) => result is Ok && result->Ok_0 == display,
                Err(text) => result is Err && result->Err_0@ == text,
            },
    {
        let object = match self.direct_tasks.get(&task.0) {
            Some(object) => TaskObjectId(*object),
            None => {
                return Err(
                    numbered_text("Android task ", task.0, " is not authorized for export"),
                );
            },
        };
        let registration = match self.registry.get(object) {
            Ok(registration) => registration,
            Err(error) => {
                return Err(registry_error_text(&error));
            },
        };
        if registration.phase != TaskRegistrationPhase::Bound {
            return Err(numbered_text("Android task ", task.0, " export is not ready"));
        }
        Ok(registration.reservation.display)
    }

    /// Object of a direct task whose layers are gone, for its removal.
    pub fn retire_direct_task(&self, task: TaskId) -> (result: Result<TaskObjectId, String>)
        ensures
            if self@.direct_tasks.contains_key(task.0) {
                result is Ok && result->Ok_0 == TaskObjectId(self@.direct_tasks[task.0])
            } else {
                &&& result is Err
                &&& result->Err_0@ == numbered(
                    "Android task "@,
                    task.0 as int,
                    " is not authorized for export"@,
                )
            },
    {
        match self.direct_tasks.get(&task.0) {
            Some(object) => Ok(TaskObjectId(*object)),
            None => Err(numbered_text("Android task ", task.0, " is not authorized for export")),
        }
    }

    /// Begin a removal: the window to take down in Denial and in Composer, or
    /// none, where nobody has seen it yet and it is gone already.
    pub fn begin_remove(&mut self, object: TaskObjectId) -> (result: Result<
        Option<TaskRegistration>,
        ControlFailure,
    >)
        requires
            old(self)@.wf(),
        ensures
            final(self)@.wf(),
            ({
                let before = old(self)@;
                let registration = before.registry.registrations[object.0];
                if !before.registry.registrations.contains_key(object.0) {
                    &&& result is Err
                    &&& result->Err_0@ == registry_failure(TaskControlError::UnknownObject(object))
                    &&& final(self)@ == before
                } else if registration.phase == TaskRegistrationPhase::Reserved {
                    &&& result is Ok
                    &&& result->Ok_0 is None
                    &&& final(self)@ == (CoordinatorModel {
                        registry: before.registry.without(object),
                        retired: before.retired.insert(object.0),
                        input_scales: before.input_scales.remove(object.0),
                        ..before
                    })
                } else {
                    &&& result is Ok
                    &&& result->Ok_0 == Some(registration)
                    &&& final(self)@ == (CoordinatorModel {
                        registry: removing(before.registry, object),
                        ..before
                    })
                }
            }),
    {
        let ghost before = self@;
        let registration = match self.registry.get(object) {
            Ok(registration) => registration.duplicate(),
            Err(error) => {
                return Err(control_error(&error));
            },
        };
        if registration.phase == TaskRegistrationPhase::Reserved {
            if let Err(error) = self.registry.cancel_reservation(object) {
                return Err(control_error(&error));
            }
            self.input_scales.remove(&object.0);
            self.retired.insert(object.0, ());
            proof {
                assert(self@.retired =~= before.retired.insert(object.0));
                lemma_direct_kept(before, self@);
            }
            return Ok(None);
        }
        if registration.phase != TaskRegistrationPhase::Removing {
            if let Err(error) = self.registry.begin_removal(object) {
                return Err(control_error(&error));
            }
        }
        proof {
            lemma_direct_kept(before, self@);
        }
        Ok(Some(registration))
    }

    /// Finish a removal after Denial and Composer dropped the window.
    pub fn finish_remove(&mut self, object: TaskObjectId) -> (result: Result<(), ControlFailure>)
        requires
            old(self)@.wf(),
        ensures
            final(self)@.wf(),
            match old(self)@.registry.transition_error(
                object,
                TaskRegistrationPhase::Removing,
                TaskRegistrationPhase::Removing,
            ) {
                Some(error) => {
                    &&& result is Err
                    &&& result->Err_0@ == registry_failure(error)
                    &&& final(self)@ == old(self)@
                },
                None => result is Ok && final(self)@ == old(self)@.forgotten(object),
            },
    {
        let ghost before = self@;
        if let Err(error) = self.registry.finish_removal(object) {
            return Err(control_error(&error));
        }
        self.input_scales.remove(&object.0);
        let direct: bool = self.direct_android_displays.contains_key(&object.0);
        self.direct_android_displays.remove(&object.0);
        let ghost rest = self@;
        if direct {
            match self.task_of(object) {
                Some(task) => {
                    self.direct_tasks.remove(&task);
                    proof {
                        assert(rest.owns(task, object.0));
                        assert(before.owns(task, object.0));
                        lemma_owner(before, task, object.0);
                    }
                },
                None => {
                    assert forall|task: u64| !before.owns(task, object.0) by {
                        assert(!rest.owns(task, object.0));
                    }
                },
            }
        }
        self.retired.insert(object.0, ());
        proof {
            let after = self@;
            assert(after.retired =~= before.retired.insert(object.0));
            assert(after.direct_tasks =~= before.forgotten(object).direct_tasks);
            assert(after =~= before.forgotten(object));
            assert forall|a: u64, b: u64|
                #![trigger after.direct_tasks[a], after.direct_tasks[b]]
                after.direct_tasks.contains_key(a) && after.direct_tasks.contains_key(b) && a
                    != b implies after.direct_tasks[a] != after.direct_tasks[b] by {
                assert(before.direct_tasks[a] != before.direct_tasks[b]);
            }
            assert forall|task: u64| #[trigger] after.direct_tasks.contains_key(task) implies passed(
                after.direct_tasks[task],
                after.registry.next_object,
            ) by {
                assert(before.direct_tasks.contains_key(task));
            }
        }
        Ok(())
    }

    fn task_of(&self, object: TaskObjectId) -> (task: Option<u64>)
        ensures
            match task {
                Some(task) => self@.owns(task, object.0),
                None => forall|task: u64| !self@.owns(task, object.0),
            },
    {
        let keys = ordered_keys(&self.direct_tasks);
        let mut index: usize = 0;
        while index < keys.len()
            invariant
                index <= keys@.len(),
                lists(keys@, self@.direct_tasks.dom()),
                forall|i: int| 0 <= i < index ==> !self@.owns(#[trigger] keys@[i], object.0),
            decreases keys@.len() - index,
        {
            let task: u64 = keys[index];
            proof {
                assert(keys@.contains(task));
                assert(self@.direct_tasks.dom().contains(task));
            }
            if let Some(owned) = self.direct_tasks.get(&task) {
                if *owned == object.0 {
                    return Some(task);
                }
            }
            index = index + 1;
        }
        proof {
            assert forall|task: u64| !self@.owns(task, object.0) by {
                if self@.direct_tasks.contains_key(task) {
                    assert(self@.direct_tasks.dom().contains(task));
                    let i = choose|i: int| 0 <= i < keys@.len() && keys@[i] == task;
                    assert(!self@.owns(keys@[i], object.0));
                }
            }
        }
        None
    }

    /// Answer a remove request without taking anything down, where the object
    /// is gone already.
    pub fn removal_is_done(&self, request_id: u64, object: TaskObjectId) -> (response: Option<
        ControlResponse,
    >)
        ensures
            match response {
                Some(response) => self@.retired.contains(object.0) && response@
                    == (ResponseView::Removed { request_id, object: object.0 }),
                None => !self@.retired.contains(object.0),
            },
    {
        if self.is_retired(object) {
            Some(ControlResponse::Removed { request_id, object: object.0 })
        } else {
            None
        }
    }

    /// Where the input of a live object goes.
    pub fn input_route_for_object(&self, object: TaskObjectId) -> (result: Result<InputRoute, String>)
        ensures
            match self@.input_route(object) {
                Ok(route) => result is Ok && result->Ok_0 == route,
                Err(text) => result is Err && result->Err_0@ == text,
            },
    {
        let registration = match self.registry.get(object) {
            Ok(registration) => registration,
            Err(error) => {
                return Err(registry_error_text(&error));
            },
        };
        let android_display: u32 = match registration.android_display {
            Some(display) => display,
            None => {
                return Err(
                    numbered_text(
                        "Droidloom object ",
                        object.0,
                        " has not been bound to an Android logical display",
                    ),
                );
            },
        };
        let task = match registration.task {
            Some(task) => task,
            None => {
                return Err(
                    numbered_text(
                        "Droidloom object ",
                        object.0,
                        " has not been bound to an Android task",
                    ),
                );
            },
        };
        match self.input_scales.get(&object.0) {
            Some(scale) => Ok(
                InputRoute {
                    task,
                    android_display,
                    scale_numerator: scale.0,
                    scale_denominator: scale.1,
                },
            ),
            None => Err(
                numbered_text(
                    "Droidloom object ",
                    object.0,
                    " has not received a configured input scale",
                ),
            ),
        }
    }

    /// Android task behind a direct object.
    pub fn direct_task_route_for_object(&self, object: TaskObjectId) -> (result: Result<
        DirectTask,
        String,
    >)
        requires
            self@.wf(),
        ensures
            if !self@.direct_android_displays.contains_key(object.0) {
                &&& result is Err
                &&& result->Err_0@ == numbered(
                    "Droidloom object "@,
                    object.0 as int,
                    " is not a direct task"@,
                )
            } else {
                match result {
                    Ok(route) => {
                        &&& self@.owns(route.task.0, object.0)
                        &&& route.android_display == self@.direct_android_displays[object.0]
                    },
                    Err(text) => {
                        &&& forall|task: u64| !self@.owns(task, object.0)
                        &&& text@ == numbered(
                            "Droidloom object "@,
                            object.0 as int,
                            " has no Android task"@,
                        )
                    },
                }
            },
    {
        let android_display: u32 = match self.direct_android_displays.get(&object.0) {
            Some(display) => *display,
            None => {
                return Err(
                    numbered_text("Droidloom object ", object.0, " is not a direct task"),
                );
            },
        };
        match self.task_of(object) {
            Some(task) => Ok(DirectTask { task: TaskId(task), android_display }),
            None => Err(numbered_text("Droidloom object ", object.0, " has no Android task")),
        }
    }
}

fn display_range(android_display: u32) -> (failure: ControlFailure)
    ensures
        failure@ == range_failure(android_display),
{
    ControlFailure {
        code: ControlErrorCode::InvalidRequest,
        message: numbered_text(
            "Android display ID ",
            android_display as u64,
            " exceeds the framework range",
        ),
    }
}

/// Refuse an Android display that the framework cannot have.
pub fn check_android_display(android_display: u32) -> (result: Result<(), ControlFailure>)
    ensures
        if android_display <= i32::MAX {
            result is Ok
        } else {
            result is Err && result->Err_0@ == range_failure(android_display)
        },
{
    if android_display > i32::MAX as u32 {
        return Err(display_range(android_display));
    }
    Ok(())
}

/// Failure of an Android display that the framework cannot have.
pub open spec fn range_failure(android_display: u32) -> FailureView {
    FailureView {
        code: ControlErrorCode::InvalidRequest,
        message: numbered(
            "Android display ID "@,
            android_display as int,
            " exceeds the framework range"@,
        ),
    }
}

impl CoordinatorModel {
    /// Whether a binding was made before.
    pub open spec fn rebinds(self, object: TaskObjectId, task: TaskId, android_display: u32) -> bool {
        let registration = self.registry.registrations[object.0];
        &&& registration.phase == TaskRegistrationPhase::Bound
        &&& registration.task == Some(task)
        &&& registration.android_display == Some(android_display)
    }

    /// Failure to begin a binding.
    pub open spec fn bind_failure(self, object: TaskObjectId, task: TaskId, android_display: u32) -> Option<
        FailureView,
    > {
        if android_display > i32::MAX {
            Some(range_failure(android_display))
        } else if !self.registry.registrations.contains_key(object.0) {
            Some(registry_failure(TaskControlError::UnknownObject(object)))
        } else if self.rebinds(object, task, android_display) || self.in_phase(
            object,
            TaskRegistrationPhase::Connected,
        ) {
            None
        } else {
            Some(
                FailureView {
                    code: ControlErrorCode::Conflict,
                    message: numbered(
                        "object "@,
                        object.0 as int,
                        " is not awaiting task binding"@,
                    ),
                },
            )
        }
    }

    /// Reason not to register a direct task.
    pub open spec fn direct_failure(self, task: TaskId, package: Seq<char>, android_display: u32) -> Option<
        Seq<char>,
    > {
        if task.0 == 0 || task.0 > i32::MAX {
            Some(numbered("invalid Android task identity "@, task.0 as int, ""@))
        } else if !self.direct_tasks.contains_key(task.0) {
            None
        } else {
            let object = self.direct_tasks[task.0];
            let registration = self.registry.registrations[object];
            if !self.registry.registrations.contains_key(object) {
                Some(registry_text(TaskControlError::UnknownObject(TaskObjectId(object))))
            } else if registration.reservation.package@ != package || registration.android_display
                != Some(android_display) {
                Some(
                    numbered(
                        "Android task "@,
                        task.0 as int,
                        " is already registered with different ownership"@,
                    ),
                )
            } else {
                None
            }
        }
    }

    /// Display of an authorized direct task, or why there is none.
    pub open spec fn direct_display(self, task: TaskId) -> Result<DisplayId, Seq<char>> {
        let object = self.direct_tasks[task.0];
        if !self.direct_tasks.contains_key(task.0) {
            Err(numbered("Android task "@, task.0 as int, " is not authorized for export"@))
        } else if !self.registry.registrations.contains_key(object) {
            Err(registry_text(TaskControlError::UnknownObject(TaskObjectId(object))))
        } else if self.registry.registrations[object].phase != TaskRegistrationPhase::Bound {
            Err(numbered("Android task "@, task.0 as int, " export is not ready"@))
        } else {
            Ok(self.registry.registrations[object].reservation.display)
        }
    }

    /// Where the input of an object goes, or why it goes nowhere.
    pub open spec fn input_route(self, object: TaskObjectId) -> Result<InputRoute, Seq<char>> {
        let registration = self.registry.registrations[object.0];
        if !self.registry.registrations.contains_key(object.0) {
            Err(registry_text(TaskControlError::UnknownObject(object)))
        } else if registration.android_display is None {
            Err(
                numbered(
                    "Droidloom object "@,
                    object.0 as int,
                    " has not been bound to an Android logical display"@,
                ),
            )
        } else if registration.task is None {
            Err(
                numbered(
                    "Droidloom object "@,
                    object.0 as int,
                    " has not been bound to an Android task"@,
                ),
            )
        } else if !self.input_scales.contains_key(object.0) {
            Err(
                numbered(
                    "Droidloom object "@,
                    object.0 as int,
                    " has not received a configured input scale"@,
                ),
            )
        } else {
            Ok(
                InputRoute {
                    task: registration.task->0,
                    android_display: registration.android_display->0,
                    scale_numerator: self.input_scales[object.0].0,
                    scale_denominator: self.input_scales[object.0].1,
                },
            )
        }
    }
}

/// What adds no direct channel and takes back no identity keeps the invariant on
/// the channels.
proof fn lemma_direct_kept(before: CoordinatorModel, after: CoordinatorModel)
    requires
        before.wf(),
        after.registry.wf(),
        after.direct_tasks == before.direct_tasks,
        after.direct_android_displays.dom().subset_of(before.direct_android_displays.dom()),
        after.registry.next_object == before.registry.next_object,
    ensures
        after.wf(),
{
    assert forall|object: u64| #[trigger]
        after.direct_android_displays.contains_key(object) implies passed(
        object,
        after.registry.next_object,
    ) by {
        assert(before.direct_android_displays.contains_key(object));
    }
}

/// A window that a timed-out or removed request leaves behind is remembered as
/// retired, and no live object is retired again under its number: a finished
/// removal takes away the registration, its scale and its direct channel.
pub proof fn law_removed_objects_are_forgotten(model: CoordinatorModel, object: TaskObjectId)
    requires
        model.wf(),
    ensures
        ({
            let after = model.forgotten(object);
            &&& after.retired.contains(object.0)
            &&& !after.registry.registrations.contains_key(object.0)
            &&& !after.input_scales.contains_key(object.0)
            &&& !after.direct_android_displays.contains_key(object.0)
            &&& after.input_route(object) is Err
            &&& model.direct_android_displays.contains_key(object.0) ==> forall|task: u64|
                !after.owns(task, object.0)
        }),
{
    let after = model.forgotten(object);
    if model.direct_android_displays.contains_key(object.0) {
        assert forall|task: u64| !after.owns(task, object.0) by {
            if model.owns(task, object.0) {
                lemma_owner(model, task, object.0);
            }
        }
    }
}

/// A task that was never registered is refused its window: only begun
/// registrations of that very task can make it known.
pub proof fn law_unsolicited_tasks_are_refused(
    model: CoordinatorModel,
    package: String,
    direct: Option<DirectTask>,
    task: TaskId,
)
    requires
        model.wf(),
        !model.direct_tasks.contains_key(task.0),
        direct is Some ==> direct->0.task != task,
    ensures
        model.direct_display(task) is Err,
        model.reserving(package, direct).direct_display(task) is Err,
{
}

/// A registered direct task that is asked for again, by the same owner, gets
/// the window that it has; another owner is refused.
pub proof fn law_direct_tasks_keep_their_window(
    model: CoordinatorModel,
    task: TaskId,
    package: Seq<char>,
    android_display: u32,
)
    requires
        model.wf(),
        0 < task.0 <= i32::MAX,
        model.direct_tasks.contains_key(task.0),
        model.registry.registrations.contains_key(model.direct_tasks[task.0]),
    ensures
        ({
            let registration = model.registry.registrations[model.direct_tasks[task.0]];
            model.direct_failure(task, package, android_display) is None <==> (
            registration.reservation.package@ == package && registration.android_display == Some(
                android_display,
            ))
        }),
{
}

/// A failed staging or registration leaves nothing behind but used identities:
/// neither the window nor its direct channel is known any more.
pub proof fn law_failed_reservations_leave_nothing(
    model: CoordinatorModel,
    package: String,
    direct: Option<DirectTask>,
)
    requires
        model.wf(),
        model.reserve_failure(package@, direct) is None,
    ensures
        ({
            let object = TaskObjectId(model.registry.next_object->0);
            let begun = model.reserving(package, direct);
            let staged = begun.in_stage(object);
            let unstaged = begun.unstaged(object, direct);
            let unregistered = staged.unregistered(object, direct);
            &&& unstaged.registry.registrations == model.registry.registrations
            &&& unstaged.direct_tasks == model.direct_tasks
            &&& unstaged.direct_android_displays == model.direct_android_displays
            &&& unregistered.registry.registrations == model.registry.registrations
            &&& unregistered.direct_tasks == model.direct_tasks
            &&& unregistered.direct_android_displays == model.direct_android_displays
            &&& unregistered.retired.contains(object.0)
        }),
{
    let object = TaskObjectId(model.registry.next_object->0);
    let begun = model.reserving(package, direct);
    let staged = begun.in_stage(object);
    if model.registry.registrations.contains_key(object.0) {
        assert(model.registry.registration_wf(object.0));
    }
    assert(begun.unstaged(object, direct).registry.registrations
        =~= model.registry.registrations);
    assert(begun.unstaged(object, direct).direct_tasks =~= model.direct_tasks);
    assert(begun.unstaged(object, direct).direct_android_displays
        =~= model.direct_android_displays);
    assert(staged.unregistered(object, direct).registry.registrations
        =~= model.registry.registrations);
    assert(staged.unregistered(object, direct).direct_tasks =~= model.direct_tasks);
    assert(staged.unregistered(object, direct).direct_android_displays
        =~= model.direct_android_displays);
}

/// Law: a request is answered under its own number; a greeting has none.
pub proof fn law_requests_are_answered_under_their_number(request: ControlRequest)
    ensures
        match request {
            ControlRequest::Hello { .. } => number_of_request(request) == 0,
            ControlRequest::Reserve { request_id, .. } => number_of_request(request) == request_id,
            ControlRequest::Bind { request_id, .. } => number_of_request(request) == request_id,
            ControlRequest::RegisterDirect { request_id, .. } => number_of_request(request)
                == request_id,
            ControlRequest::Remove { request_id, .. } => number_of_request(request) == request_id,
        },
{
}

/// Law: what is unknown is not found, what is there already or elsewhere in its
/// life is a conflict, and anything else is an invalid request.
pub proof fn law_failures_are_classified(
    object: TaskObjectId,
    task: TaskId,
    display: DisplayId,
    actual: TaskRegistrationPhase,
    requested: TaskRegistrationPhase,
)
    ensures
        registry_code(TaskControlError::UnknownObject(object)) is NotFound,
        registry_code(TaskControlError::UnknownTask(task)) is NotFound,
        registry_code(TaskControlError::InvalidSpec(TaskWindowError::UnknownTask(task))) is NotFound,
        registry_code(
            TaskControlError::InvalidSpec(TaskWindowError::UnknownDisplay(display)),
        ) is NotFound,
        registry_code(TaskControlError::DuplicateTask(task)) is Conflict,
        registry_code(
            (TaskControlError::InvalidPhase { object, actual, requested }),
        ) is Conflict,
        registry_code(
            TaskControlError::InvalidSpec(TaskWindowError::DuplicateTask(task)),
        ) is Conflict,
        registry_code(
            TaskControlError::InvalidSpec(TaskWindowError::DuplicateDisplay(display)),
        ) is Conflict,
        registry_code(
            TaskControlError::InvalidSpec(TaskWindowError::DisplayAlreadyBound(display)),
        ) is Conflict,
        registry_code(TaskControlError::TaskLimit) is InvalidRequest,
        registry_code(TaskControlError::IdentifierExhausted) is InvalidRequest,
        registry_code(
            TaskControlError::InvalidSpec(TaskWindowError::InvalidPackage),
        ) is InvalidRequest,
        registry_code(TaskControlError::InvalidSpec(TaskWindowError::InvalidTask)) is InvalidRequest,
{
}

/// Law: a direct reservation ties its task to the new object and that object to
/// its Android display; an ordinary one ties nothing.
pub proof fn law_direct_reservations_tie_their_task(
    model: CoordinatorModel,
    package: String,
    direct: Option<DirectTask>,
)
    requires
        model.reserve_failure(package@, direct) is None,
    ensures
        ({
            let after = model.reserving(package, direct);
            &&& direct is None ==> {
                &&& after.direct_tasks == model.direct_tasks
                &&& after.direct_android_displays == model.direct_android_displays
            }
            &&& direct matches Some(owner) ==> {
                &&& after.direct_tasks.contains_key(owner.task.0)
                &&& after.direct_tasks[owner.task.0] == model.registry.next_object->0
                &&& after.direct_android_displays[model.registry.next_object->0]
                    == owner.android_display
                &&& !model.direct_tasks.contains_key(owner.task.0)
            }
            &&& after.registry == model.registry.with_reservation(package)
            &&& after.retired == model.retired
            &&& after.input_scales == model.input_scales
        }),
{
}

/// Law: an object can be launched into once its window is connected, and until
/// it is removed.
pub proof fn law_connected_objects_can_be_launched(model: CoordinatorModel, object: TaskObjectId)
    ensures
        model.launchable(object) <==> {
            &&& model.registry.registrations.contains_key(object.0)
            &&& {
                ||| model.registry.registrations[object.0].phase is Connected
                ||| model.registry.registrations[object.0].phase is Bound
            }
        },
{
}

/// Law: a forgotten object is gone from everything, and what belongs to others
/// stays.
pub proof fn law_forgotten_objects_leave_the_rest(
    model: CoordinatorModel,
    object: TaskObjectId,
    other: u64,
)
    ensures
        ({
            let after = model.forgotten(object);
            &&& after.retired.contains(object.0)
            &&& !after.input_scales.contains_key(object.0)
            &&& !after.direct_android_displays.contains_key(object.0)
            &&& other != object.0 ==> {
                &&& after.retired.contains(other) == model.retired.contains(other)
                &&& after.input_scales.contains_key(other) == model.input_scales.contains_key(other)
                &&& after.direct_android_displays.contains_key(other)
                    == model.direct_android_displays.contains_key(other)
            }
            &&& !model.owns(other, object.0) && model.direct_tasks.contains_key(other)
                ==> after.direct_tasks.contains_key(other) && after.direct_tasks[other]
                == model.direct_tasks[other]
        }),
{
    if exists|task: u64| model.owns(task, object.0) {
        let task = choose|task: u64| model.owns(task, object.0);
        assert(model.owns(task, object.0));
    }
}

/// Law: a window takes a task while its display is hidden for a direct channel
/// or announced for an ordinary one.
pub proof fn law_windows_take_tasks_by_channel(
    connected: Set<u64>,
    session: SessionModel,
    display: DisplayId,
    task: TaskId,
    direct: bool,
)
    ensures
        window_bind_error(connected, session, display, task, direct) is None <==> {
            &&& direct ==> !connected.contains(display.0)
            &&& !direct ==> connected.contains(display.0)
            &&& session.windows.bind_error(display, task) is None
        },
        direct == connected.contains(display.0) ==> window_bind_error(
            connected,
            session,
            display,
            task,
            direct,
        ) == Some(ErrorCode::BadDisplay),
{
}

/// Law: a task is bound to a connected object, or again to the object, the task
/// and the display that it is bound to; the display's number fits the
/// framework's.
pub proof fn law_tasks_are_bound_to_connected_objects(
    model: CoordinatorModel,
    object: TaskObjectId,
    task: TaskId,
    android_display: u32,
)
    ensures
        model.bind_failure(object, task, android_display) is None <==> {
            let registration = model.registry.registrations[object.0];
            &&& android_display <= 2_147_483_647
            &&& model.registry.registrations.contains_key(object.0)
            &&& {
                ||| registration.phase is Connected
                ||| {
                    &&& registration.phase is Bound
                    &&& registration.task == Some(task)
                    &&& registration.android_display == Some(android_display)
                }
            }
        },
        android_display > 2_147_483_647 ==> {
            &&& model.bind_failure(object, task, android_display) is Some
            &&& model.bind_failure(object, task, android_display)->0.code is InvalidRequest
        },
        android_display <= 2_147_483_647 && !model.registry.registrations.contains_key(object.0)
            ==> model.bind_failure(object, task, android_display)->0.code is NotFound,
{
}

/// Law: a direct task has a positive 31-bit identity and, where it has a channel
/// already, the package and the display of that channel.
pub proof fn law_direct_tasks_keep_their_owner(
    model: CoordinatorModel,
    task: TaskId,
    package: Seq<char>,
    android_display: u32,
)
    ensures
        model.direct_failure(task, package, android_display) is None <==> {
            let object = model.direct_tasks[task.0];
            &&& 0 < task.0 <= 2_147_483_647
            &&& model.direct_tasks.contains_key(task.0) ==> {
                &&& model.registry.registrations.contains_key(object)
                &&& model.registry.registrations[object].reservation.package@ == package
                &&& model.registry.registrations[object].android_display == Some(android_display)
            }
        },
{
}

/// Law: a direct task is exported on the display of its own reservation, once it
/// is bound.
pub proof fn law_exports_use_the_reserved_display(model: CoordinatorModel, task: TaskId)
    ensures
        model.direct_display(task) is Ok <==> {
            &&& model.direct_tasks.contains_key(task.0)
            &&& model.registry.registrations.contains_key(model.direct_tasks[task.0])
            &&& model.registry.registrations[model.direct_tasks[task.0]].phase is Bound
        },
        model.direct_display(task) is Ok ==> model.direct_display(task)->Ok_0
            == model.registry.registrations[model.direct_tasks[task.0]].reservation.display,
        !model.direct_tasks.contains_key(task.0) ==> model.direct_display(task) == Err::<
            DisplayId,
            Seq<char>,
        >("Android task "@ + decimal(task.0 as int) + " is not authorized for export"@),
{
}

/// Law: input for an object goes to its own task and display at its own scale,
/// once all three are known.
pub proof fn law_input_goes_to_its_own_task(model: CoordinatorModel, object: TaskObjectId)
    ensures
        model.input_route(object) is Ok <==> {
            &&& model.registry.registrations.contains_key(object.0)
            &&& model.registry.registrations[object.0].android_display is Some
            &&& model.registry.registrations[object.0].task is Some
            &&& model.input_scales.contains_key(object.0)
        },
        model.input_route(object) is Ok ==> {
            let route = model.input_route(object)->Ok_0;
            &&& Some(route.task) == model.registry.registrations[object.0].task
            &&& Some(route.android_display)
                == model.registry.registrations[object.0].android_display
            &&& (route.scale_numerator, route.scale_denominator) == model.input_scales[object.0]
        },
{
}

/// Law: a message is at most 1024 bytes of what was said, and never empty.
pub proof fn law_messages_are_never_empty(message: Seq<char>)
    ensures
        bounded_message(message).len() > 0,
        message.len() > 0 && vstd::utf8::encode_utf8(message).len() <= 1024 ==> bounded_message(
            message,
        ) == message,
        bounded_message(Seq::empty()) == "unspecified task-control failure"@,
{
    reveal_strlit("unspecified task-control failure");
    assert(vstd::utf8::encode_utf8(Seq::<char>::empty()) =~= Seq::<u8>::empty());
}

/// Law: a connection is greeted once, when its versions reach the server's.
pub proof fn law_connections_are_greeted_once(
    connection: ControlConnection,
    min_major: u16,
    max_major: u16,
)
    ensures
        connection.greets((ControlRequest::Hello { min_major, max_major })) <==> !connection.ready
            && min_major <= connection.major <= max_major,
        forall|request: ControlRequest| #[trigger] connection.greets(request) ==> request is Hello,
{
}

/// Law: an object leaves the registry from the phase that allows it.
pub proof fn law_objects_leave_from_their_phase(registry: RegistryModel, object: TaskObjectId)
    ensures
        ({
            let known = registry.registrations.contains_key(object.0);
            let phase = registry.registrations[object.0].phase;
            &&& known && phase is Reserved ==> cancelled(registry, object) == registry.without(object)
            &&& !(known && phase is Reserved) ==> cancelled(registry, object) == registry
            &&& known && phase is Removing ==> removed(registry, object) == registry.without(object)
            &&& !(known && phase is Removing) ==> removed(registry, object) == registry
            &&& known && (phase is Staged || phase is Connected || phase is Bound) ==> removing(
                registry,
                object,
            ).registrations[object.0].phase is Removing
            &&& !(known && (phase is Staged || phase is Connected || phase is Bound)) ==> removing(
                registry,
                object,
            ) == registry
        }),
{
}

/// Law: an object whose registration fails is taken back with everything that a
/// direct channel tied to it.
pub proof fn law_failed_registrations_are_taken_back(
    model: CoordinatorModel,
    object: TaskObjectId,
    owner: DirectTask,
)
    ensures
        ({
            let after = model.unstaged(object, Some(owner));
            &&& !after.direct_tasks.contains_key(owner.task.0)
            &&& !after.direct_android_displays.contains_key(object.0)
            &&& after.registry == cancelled(model.registry, object)
            &&& after.retired == model.retired
        }),
        ({
            let after = model.unregistered(object, Some(owner));
            &&& !after.direct_tasks.contains_key(owner.task.0)
            &&& !after.direct_android_displays.contains_key(object.0)
            &&& after.retired.contains(object.0)
            &&& after.registry == removed(removing(model.registry, object), object)
        }),
        model.unstaged(object, None).direct_tasks == model.direct_tasks,
        model.unregistered(object, None).direct_tasks == model.direct_tasks,
        model.in_stage(object).registry.registrations[object.0].phase is Staged,
{
}

/// Law: how failures are told.
pub proof fn law_failures_are_told_in_words(
    object: TaskObjectId,
    task: TaskId,
    display: DisplayId,
    error: TaskWindowError,
)
    ensures
        registry_text(TaskControlError::TaskLimit)
            == "the Android task-registration limit has been reached"@,
        registry_text(TaskControlError::IdentifierExhausted)
            == "task display/object identity space is exhausted"@,
        registry_text(TaskControlError::UnknownObject(object)) == "Droidloom object TaskObjectId("@
            + decimal(object.0 as int) + ") has no registration"@,
        registry_text(TaskControlError::UnknownTask(task)) == "Android task TaskId("@ + decimal(
            task.0 as int,
        ) + ") has no registration"@,
        registry_text(TaskControlError::DuplicateTask(task)) == "Android task TaskId("@ + decimal(
            task.0 as int,
        ) + ") already has a registration"@,
        registry_text(TaskControlError::InvalidSpec(error)) == window_text(error),
        registry_text(
            (TaskControlError::InvalidPhase {
                object,
                actual: TaskRegistrationPhase::Staged,
                requested: TaskRegistrationPhase::Bound,
            }),
        ) == "Droidloom object TaskObjectId("@ + decimal(object.0 as int) + ") cannot move from "@
            + "Staged"@ + " to "@ + "Bound"@,
        window_text(TaskWindowError::WindowLimit)
            == "the Android task-window limit has been reached"@,
        window_text(TaskWindowError::UnknownDisplay(display)) == "display DisplayId("@ + decimal(
            display.0 as int,
        ) + ") has no native task window"@,
        window_text(TaskWindowError::UnknownTask(task)) == "task TaskId("@ + decimal(task.0 as int)
            + ") has no native window"@,
        window_text(TaskWindowError::InvalidPackage) == "package identity is invalid"@,
        window_text(TaskWindowError::InvalidTask) == "Android task identity must be non-zero"@,
        window_text(TaskWindowError::InvalidDisplay)
            == "Android display identity must be non-zero"@,
        registry_failure(TaskControlError::UnknownObject(object)).message == registry_text(
            TaskControlError::UnknownObject(object),
        ),
        registry_failure(TaskControlError::UnknownObject(object)).code is NotFound,
        backend_failure(window_text(error)).code is Backend,
        backend_failure(window_text(error)).message == window_text(error),
{
}

/// Law: the names of the answers' codes and of the phases.
pub proof fn law_codes_and_phases_have_fixed_names()
    ensures
        ControlErrorCode::Protocol.name() == "Protocol"@,
        ControlErrorCode::InvalidRequest.name() == "InvalidRequest"@,
        ControlErrorCode::NotFound.name() == "NotFound"@,
        ControlErrorCode::Conflict.name() == "Conflict"@,
        ControlErrorCode::ConfigureTimeout.name() == "ConfigureTimeout"@,
        ControlErrorCode::Backend.name() == "Backend"@,
        phase_name(TaskRegistrationPhase::Reserved) == "Reserved"@,
        phase_name(TaskRegistrationPhase::Staged) == "Staged"@,
        phase_name(TaskRegistrationPhase::Connected) == "Connected"@,
        phase_name(TaskRegistrationPhase::Bound) == "Bound"@,
        phase_name(TaskRegistrationPhase::Removing) == "Removing"@,
        CONFIGURE_TIMEOUT_MILLIS == 5000,
{
}

/// Law: the status of an error is the text that was given for it.
pub proof fn law_statuses_belong_to_their_error(texts: StatusTexts)
    ensures
        texts.of(ErrorCode::BadConfig) == texts.bad_config@,
        texts.of(ErrorCode::BadDisplay) == texts.bad_display@,
        texts.of(ErrorCode::BadLayer) == texts.bad_layer@,
        texts.of(ErrorCode::BadParameter) == texts.bad_parameter@,
        texts.of(ErrorCode::NoResources) == texts.no_resources@,
        texts.of(ErrorCode::NotValidated) == texts.not_validated@,
        texts.of(ErrorCode::Unsupported) == texts.unsupported@,
{
}

/// Law: how the remaining failures of a window are told.
pub proof fn law_window_failures_are_told_in_words(
    task: TaskId,
    display: DisplayId,
    buffers: usize,
    object: TaskObjectId,
    numerator: u32,
    denominator: u32,
    android_display: u32,
)
    ensures
        window_text(TaskWindowError::DuplicateTask(task)) == "task TaskId("@ + decimal(
            task.0 as int,
        ) + ") already has a native window"@,
        window_text(TaskWindowError::DuplicateDisplay(display)) == "display DisplayId("@ + decimal(
            display.0 as int,
        ) + ") already belongs to another task window"@,
        window_text(TaskWindowError::UnboundDisplay(display)) == "display DisplayId("@ + decimal(
            display.0 as int,
        ) + ") is staged but has no Android task identity yet"@,
        window_text(TaskWindowError::DisplayAlreadyBound(display)) == "display DisplayId("@
            + decimal(display.0 as int) + ") is already bound to an Android task"@,
        window_text((TaskWindowError::BuffersInFlight { task, buffers })) == "task TaskId("@
            + decimal(task.0 as int) + ") still has "@ + decimal(buffers as int)
            + " buffers in flight"@,
        window_text((TaskWindowError::DisplayBuffersInFlight { display, buffers }))
            == "display DisplayId("@ + decimal(display.0 as int) + ") still has "@ + decimal(
            buffers as int,
        ) + " buffers in flight"@,
        invalid_scale_text(object, numerator, denominator) == "Droidloom object "@ + decimal(
            object.0 as int,
        ) + " received an invalid input scale "@ + decimal(numerator as int) + "/"@ + decimal(
            denominator as int,
        ) + ""@,
        range_failure(android_display).message == "Android display ID "@ + decimal(
            android_display as int,
        ) + " exceeds the framework range"@,
        range_failure(android_display).code is InvalidRequest,
{
}

} // verus!
