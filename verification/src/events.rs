//! Decisions of the Composer service about host events: the handshake, the
//! event loop and the dispatch of what an event did.

use vstd::prelude::*;

use crate::composer::denial::{message_object, object_of, AppliedDenialEvent};
use crate::composer::{DisplayId, TaskId};
use crate::control::{
    numbered, registry_text, CoordinatorModel, InputRoute, TaskCoordinator,
};
use crate::protocol::capability::REQUIRED_V1;
use crate::protocol::{
    AndroidMessage, AndroidView, DenialMessage, DenialView, InputEvent, TaskObjectId,
    PROTOCOL_MAJOR,
};
use crate::service::ComposerLifecycle;
use crate::sink::DenialPresentationSink;
use crate::text::{append, append_chars, chars_of, format_number, text_of};

verus! {

/// Socket and render node of the service.
#[derive(Clone, Debug, PartialEq, Eq)]
pub struct ServicePaths {
    /// Socket of Denial.
    pub socket: String,
    /// DRM render node.
    pub render_node: String,
}

/// Paths that the arguments name, without the name of the program.
pub fn arguments(values: &Vec<String>) -> (result: Result<ServicePaths, String>)
    ensures
        if values@.len() > 2 {
            &&& result is Err
            &&& result->Err_0@ == "usage: composer-service [DENIAL_SOCKET [DRM_RENDER_NODE]]"@
        } else {
            &&& result is Ok
            &&& result->Ok_0.socket@ == (if values@.len() > 0 {
                values@[0]@
            } else {
                "/dev/socket/droidloom/denial"@
            })
            &&& result->Ok_0.render_node@ == (if values@.len() > 1 {
                values@[1]@
            } else {
                "/dev/dri/renderD128"@
            })
        },
{
    if values.len() > 2 {
        return Err("usage: composer-service [DENIAL_SOCKET [DRM_RENDER_NODE]]".to_owned());
    }
    let socket: String = if values.len() > 0 {
        values[0].clone()
    } else {
        "/dev/socket/droidloom/denial".to_owned()
    };
    let render_node: String = if values.len() > 1 {
        values[1].clone()
    } else {
        "/dev/dri/renderD128".to_owned()
    };
    Ok(ServicePaths { socket, render_node })
}

/// First record of the service.
pub fn client_hello() -> (message: AndroidMessage)
    ensures
        message@ == (AndroidView::ClientHello {
            min_major: PROTOCOL_MAJOR,
            max_major: PROTOCOL_MAJOR,
            capabilities: REQUIRED_V1,
        }),
{
    AndroidMessage::ClientHello {
        min_major: PROTOCOL_MAJOR,
        max_major: PROTOCOL_MAJOR,
        capabilities: REQUIRED_V1,
    }
}

/// Why the answer to the first record ends the service, if it does.
pub open spec fn hello_error(message: DenialView) -> Option<Seq<char>> {
    match message {
        DenialView::ServerHello { major, capabilities, .. } => if major == PROTOCOL_MAJOR
            && capabilities & REQUIRED_V1 == REQUIRED_V1 {
            None
        } else {
            Some("Denial returned an incompatible handshake response"@)
        },
        DenialView::Error { message, .. } => Some("Denial rejected handshake: "@ + message),
        _ => Some("Denial returned an incompatible handshake response"@),
    }
}

fn prefixed(before: &str, detail: &str) -> (text: String)
    ensures
        text@ == before@ + detail@,
{
    let mut text: Vec<char> = chars_of(before);
    append(&mut text, detail);
    text_of(&text)
}

/// Check the answer to the first record.
pub fn check_server_hello(message: &DenialMessage) -> (result: Result<(), String>)
    ensures
        match hello_error(message@) {
            Some(text) => result is Err && result->Err_0@ == text,
            None => result is Ok,
        },
{
    match message {
        DenialMessage::ServerHello { major, capabilities, .. } => {
            if *major == PROTOCOL_MAJOR && *capabilities & REQUIRED_V1 == REQUIRED_V1 {
                Ok(())
            } else {
                Err("Denial returned an incompatible handshake response".to_owned())
            }
        },
        DenialMessage::Error { message, .. } => Err(
            prefixed("Denial rejected handshake: ", message.as_str()),
        ),
        _ => Err("Denial returned an incompatible handshake response".to_owned()),
    }
}

/// What the event loop does with a record.
#[derive(Clone, Debug, PartialEq, Eq)]
pub enum EventStep {
    /// Send this record.
    Reply(AndroidMessage),
    /// End the service for this reason.
    Fail(String),
    /// Register the render target of the record, with its descriptors.
    RegisterTarget,
    /// Unregister the render target of the record.
    UnregisterTarget,
    /// Apply the record to the task of this object.
    Task {
        /// Object of the task.
        object: TaskObjectId,
        /// Timestamp and refresh period of a presentation, for the clocks.
        presented: Option<(u64, u64)>,
    },
}

/// What the event loop does with a record.
pub fn next_step(message: &DenialMessage) -> (step: EventStep)
    ensures
        match message@ {
            DenialView::Ping { cookie } => step matches EventStep::Reply(reply) && reply@
                == (AndroidView::Pong { cookie }),
            DenialView::Error { message, .. } => step matches EventStep::Fail(text) && text@
                == "Denial protocol error: "@ + message,
            DenialView::ServerHello { .. } => step matches EventStep::Fail(text) && text@
                == "repeated Denial ServerHello"@,
            DenialView::RegisterRenderTarget { .. } => step is RegisterTarget,
            DenialView::UnregisterRenderTarget { .. } => step is UnregisterTarget,
            DenialView::Presented { object, timestamp_nanos, refresh_period_nanos, .. } => step == (
            EventStep::Task {
                object,
                presented: Some((timestamp_nanos, refresh_period_nanos)),
            }),
            other => step == (EventStep::Task { object: object_of(other)->0, presented: None }),
        },
{
    match message {
        DenialMessage::Ping { cookie } => EventStep::Reply(
            AndroidMessage::Pong { cookie: *cookie },
        ),
        DenialMessage::Error { message, .. } => EventStep::Fail(
            prefixed("Denial protocol error: ", message.as_str()),
        ),
        DenialMessage::ServerHello { .. } => EventStep::Fail(
            "repeated Denial ServerHello".to_owned(),
        ),
        DenialMessage::RegisterRenderTarget { .. } => EventStep::RegisterTarget,
        DenialMessage::UnregisterRenderTarget { .. } => EventStep::UnregisterTarget,
        DenialMessage::Presented { object, timestamp_nanos, refresh_period_nanos, .. } => {
            EventStep::Task {
                object: *object,
                presented: Some((*timestamp_nanos, *refresh_period_nanos)),
            }
        },
        _ => match message_object(message) {
            Some(object) => EventStep::Task { object, presented: None },
            None => EventStep::Fail("task event omitted object identity".to_owned()),
        },
    }
}

/// Display of an object that an event names: none for an object that was
/// removed on purpose, whose last events may still come. An object that nobody
/// knows ends the service.
pub fn event_display(
    sink: &DenialPresentationSink,
    coordinator: &TaskCoordinator,
    object: TaskObjectId,
) -> (result: Result<Option<DisplayId>, String>)
    requires
        sink@.wf(),
    ensures
        match sink@.display_of(object) {
            Some(key) => result == Ok::<Option<DisplayId>, String>(Some(DisplayId(key))),
            None => if coordinator@.retired.contains(object.0) {
                result == Ok::<Option<DisplayId>, String>(None)
            } else {
                &&& result is Err
                &&& result->Err_0@ == numbered(
                    "Denial task object TaskObjectId("@,
                    object.0 as int,
                    ") is not registered"@,
                )
            },
        },
{
    match sink.display_for_object(object) {
        Ok(display) => Ok(Some(display)),
        Err(_) => {
            if coordinator.is_retired(object) {
                return Ok(None);
            }
            let mut text: Vec<char> = chars_of("Denial task object TaskObjectId(");
            append_chars(&mut text, &format_number(object.0));
            append(&mut text, ") is not registered");
            Err(text_of(&text))
        },
    }
}

/// What is left to do for an event that was applied.
#[derive(Clone, Debug, PartialEq, Eq)]
pub enum Dispatch {
    /// Nothing.
    Done,
    /// Ask Android to lay a task out anew; a failure is only logged.
    TaskBounds {
        /// Android task.
        task: TaskId,
        /// Android logical display.
        android_display: u32,
        /// Width in pixels.
        width: u32,
        /// Height in pixels.
        height: u32,
        /// Numerator of the scale.
        scale_numerator: u32,
        /// Denominator of the scale.
        scale_denominator: u32,
    },
    /// Refresh a connected display.
    Refresh(DisplayId),
    /// Announce a display.
    Connect(DisplayId),
    /// Focus a task; a failure is only logged.
    Focus(TaskId),
    /// Ask Android to remove a task; a failure is only logged.
    CloseTask(TaskId),
    /// Drop the close of a display that is no task; it is only logged.
    IgnoreClose,
    /// Route input; a failure is only logged.
    Input {
        /// Where it goes.
        route: InputRoute,
        /// Host input sequence.
        serial: u64,
        /// Monotonic event timestamp.
        timestamp_nanos: u64,
        /// Input event.
        event: InputEvent,
    },
    /// Drop input of an object that is not bound, for this reason.
    DropInput(String),
}

/// Whether a direct object belongs to the task.
pub open spec fn direct_owner(coordinator: CoordinatorModel, object: TaskObjectId, task: TaskId) -> bool {
    coordinator.direct_android_displays.contains_key(object.0) && coordinator.owns(
        task.0,
        object.0,
    )
}

/// Why a direct object has no task, if it has none.
pub open spec fn unowned(coordinator: CoordinatorModel, object: TaskObjectId, text: Seq<char>) -> bool {
    &&& forall|task: u64| !coordinator.owns(task, object.0)
    &&& text == numbered("Droidloom object "@, object.0 as int, " has no Android task"@)
}

/// Decide what is left to do for an event that was applied to a task. Direct
/// tasks live on ordinary Android displays: they are laid out, focused and
/// closed through Android, and their channel is never announced as a display.
pub fn dispatch_event(
    lifecycle: &ComposerLifecycle,
    coordinator: &TaskCoordinator,
    object: TaskObjectId,
    display: DisplayId,
    event: &AppliedDenialEvent,
) -> (result: Result<Dispatch, String>)
    requires
        coordinator@.wf(),
    ensures
        ({
            let direct = coordinator@.direct_android_displays.contains_key(object.0);
            match *event {
                AppliedDenialEvent::Configure {
                    width,
                    height,
                    scale_numerator,
                    scale_denominator,
                    ..
                } => if direct {
                    match result {
                        Ok(Dispatch::TaskBounds {
                            task,
                            android_display,
                            width: w,
                            height: h,
                            scale_numerator: n,
                            scale_denominator: d,
                        }) => {
                            &&& direct_owner(coordinator@, object, task)
                            &&& android_display
                                == coordinator@.direct_android_displays[object.0]
                            &&& (w, h, n, d) == (
                                width,
                                height,
                                scale_numerator,
                                scale_denominator,
                            )
                        },
                        Ok(_) => false,
                        Err(text) => unowned(coordinator@, object, text@),
                    }
                } else if lifecycle@.contains(display.0) {
                    result == Ok::<Dispatch, String>(Dispatch::Refresh(display))
                } else {
                    result == Ok::<Dispatch, String>(Dispatch::Connect(display))
                },
                AppliedDenialEvent::Visibility { focused, .. } => if focused && direct {
                    match result {
                        Ok(Dispatch::Focus(task)) => direct_owner(coordinator@, object, task),
                        Ok(_) => false,
                        Err(text) => unowned(coordinator@, object, text@),
                    }
                } else {
                    result == Ok::<Dispatch, String>(Dispatch::Done)
                },
                AppliedDenialEvent::Close => if direct {
                    match result {
                        Ok(Dispatch::CloseTask(task)) => direct_owner(coordinator@, object, task),
                        Ok(_) => false,
                        Err(text) => unowned(coordinator@, object, text@),
                    }
                } else {
                    result == Ok::<Dispatch, String>(Dispatch::IgnoreClose)
                },
                AppliedDenialEvent::Input { serial, timestamp_nanos, event } => {
                    match coordinator@.input_route(object) {
                        Ok(route) => result == Ok::<Dispatch, String>(
                            (Dispatch::Input { route, serial, timestamp_nanos, event }),
                        ),
                        Err(reason) => match result {
                            Ok(Dispatch::DropInput(text)) => text@ == reason,
                            _ => false,
                        },
                    }
                },
                _ => result == Ok::<Dispatch, String>(Dispatch::Done),
            }
        }),
{
    match event {
        AppliedDenialEvent::Configure {
            width,
            height,
            scale_numerator,
            scale_denominator,
            ..
        } => {
            if coordinator.is_direct_task(object) {
                let owner = coordinator.direct_task_route_for_object(object)?;
                return Ok(
                    Dispatch::TaskBounds {
                        task: owner.task,
                        android_display: owner.android_display,
                        width: *width,
                        height: *height,
                        scale_numerator: *scale_numerator,
                        scale_denominator: *scale_denominator,
                    },
                );
            }
            if lifecycle.is_connected(display) {
                Ok(Dispatch::Refresh(display))
            } else {
                Ok(Dispatch::Connect(display))
            }
        },
        AppliedDenialEvent::Visibility { focused, .. } => {
            if *focused && coordinator.is_direct_task(object) {
                let owner = coordinator.direct_task_route_for_object(object)?;
                return Ok(Dispatch::Focus(owner.task));
            }
            Ok(Dispatch::Done)
        },
        AppliedDenialEvent::Close => {
            if !coordinator.is_direct_task(object) {
                return Ok(Dispatch::IgnoreClose);
            }
            let owner = coordinator.direct_task_route_for_object(object)?;
            Ok(Dispatch::CloseTask(owner.task))
        },
        AppliedDenialEvent::Input { serial, timestamp_nanos, event } => {
            match coordinator.input_route_for_object(object) {
                Ok(route) => Ok(
                    Dispatch::Input {
                        route,
                        serial: *serial,
                        timestamp_nanos: *timestamp_nanos,
                        event: *event,
                    },
                ),
                Err(reason) => Ok(Dispatch::DropInput(reason)),
            }
        },
        AppliedDenialEvent::FormatFeedback { .. }
        | AppliedDenialEvent::Insets { .. }
        | AppliedDenialEvent::BufferReleased(_)
        | AppliedDenialEvent::Presented(_) => Ok(Dispatch::Done),
    }
}

/// Take a configure that was applied and acknowledged into the coordinator,
/// before the display is announced: whether pending reserve requests must look
/// again.
pub fn configure_applied(
    coordinator: &mut TaskCoordinator,
    object: TaskObjectId,
    scale_numerator: u32,
    scale_denominator: u32,
) -> (result: Result<bool, String>)
    requires
        old(coordinator)@.wf(),
    ensures
        final(coordinator)@.wf(),
        ({
            let before = old(coordinator)@;
            let staged = before.in_phase(
                object,
                crate::composer::task_control::TaskRegistrationPhase::Staged,
            );
            if scale_numerator == 0 || scale_denominator == 0 {
                &&& result is Err
                &&& result->Err_0@ == crate::control::invalid_scale_text(
                    object,
                    scale_numerator,
                    scale_denominator,
                )
                &&& final(coordinator)@ == before
            } else if !before.registry.registrations.contains_key(object.0) {
                &&& result is Err
                &&& result->Err_0@ == registry_text(
                    crate::composer::task_control::TaskControlError::UnknownObject(object),
                )
                &&& final(coordinator)@ == before
            } else {
                &&& result is Ok
                &&& result->Ok_0 == staged
                &&& final(coordinator)@ == (CoordinatorModel {
                    input_scales: before.input_scales.insert(
                        object.0,
                        (scale_numerator, scale_denominator),
                    ),
                    registry: if staged {
                        before.registry.with_phase(
                            object,
                            crate::composer::task_control::TaskRegistrationPhase::Connected,
                        )
                    } else {
                        before.registry
                    },
                    ..before
                })
            }
        }),
{
    coordinator.set_input_scale(object, scale_numerator, scale_denominator)?;
    coordinator.display_connected(object)
}

/// A late event of a window that was removed on purpose is dropped, and an
/// unknown object is never taken for one.
pub proof fn law_only_retired_objects_are_dropped(
    coordinator: CoordinatorModel,
    object: TaskObjectId,
)
    requires
        coordinator.wf(),
    ensures
        coordinator.forgotten(object).retired.contains(object.0),
        forall|other: u64|
            other != object.0 ==> (coordinator.forgotten(object).retired.contains(other)
                <==> coordinator.retired.contains(other)),
{
}

/// Law: a handshake ends well only with a greeting of version 1 that has every
/// capability that is needed; a refusal is reported in the host's own words.
pub proof fn law_handshakes_end_with_a_fitting_greeting(message: DenialView)
    ensures
        hello_error(message) is None <==> match message {
            DenialView::ServerHello { major, capabilities, .. } => major == 1 && capabilities & 0xdf
                == 0xdf,
            _ => false,
        },
        message matches DenialView::Error { message: text, .. } ==> hello_error(message) == Some(
            "Denial rejected handshake: "@ + text,
        ),
{
}

} // verus!
