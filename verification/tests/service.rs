//! The composer service: task control, input routes, surface connections and
//! host events.

use droidloom::composer::denial::AppliedDenialEvent;
use droidloom::composer::hwc3::{ErrorCode, Session};
use droidloom::composer::{DisplayId, ReservedTaskWindowSpec, TaskId, TaskWindowError};
use droidloom::composer::task_control::TaskControlError;
use droidloom::control::{
    check_android_display, control_error, error_response, privileged_peer, registry_error_text,
    respond, BindStep, ControlConnection, ControlErrorCode, ControlFailure, ControlRequest,
    ControlResponse, ControlStep, DirectTask, InputRoute, StatusTexts, TaskCoordinator,
};
use droidloom::events::{
    arguments, check_server_hello, client_hello, configure_applied, dispatch_event, event_display,
    next_step, Dispatch, EventStep,
};
use droidloom::input::{
    route_input, scale_fixed_coordinate, InputRecord, PointerIds, PointerRoute,
};
use droidloom::protocol::{
    capability, AndroidMessage, DenialMessage, InputEvent, KeyAction, NavigationAction,
    TaskObjectId, TouchAction, Transform, Visibility,
};
use droidloom::service::ComposerLifecycle;
use droidloom::sink::{DenialPresentationSink, SelectedTarget};
use droidloom::surface::{
    channel_error_code, check_bootstrap, done_response, select_channel, target_response, Channel,
    Request, Response, SurfaceConnection, SurfaceStep, ERROR_BUSY, ERROR_IO, ERROR_NO_ENTRY,
    ERROR_TRY_AGAIN,
};
use droidloom::transport::{
    BufferId, BufferMetadata, FormatModifier, PlaneMetadata, TransportError,
};

#[test]
fn fractional_output_scale_maps_logical_input_to_android_pixels() {
    assert_eq!(scale_fixed_coordinate(240 << 16, 132, 120), Ok(264 << 16));
    assert_eq!(scale_fixed_coordinate(400 << 16, 3, 2), Ok(600 << 16));
}

#[test]
fn coordinates_that_cannot_be_scaled_are_refused() {
    assert_eq!(
        scale_fixed_coordinate(1, 0, 2),
        Err("invalid logical-to-buffer input scale 0/2".to_owned())
    );
    assert!(scale_fixed_coordinate(i32::MAX, 2, 1).is_err());
    assert_eq!(scale_fixed_coordinate(-3, 1, 2), Ok(-2));
    assert_eq!(scale_fixed_coordinate(3, 1, 2), Ok(2));
}

#[test]
fn opaque_host_touch_slots_are_mapped_to_android_ids() {
    let mut ids = PointerIds::new(31);
    assert_eq!(
        ids.translate(0, i32::MAX as u32, 29, TouchAction::Down),
        Ok(Some(PointerRoute { android_id: 0, task: 29 }))
    );
    assert_eq!(
        ids.translate(0, i32::MAX as u32, 99, TouchAction::Motion),
        Ok(Some(PointerRoute { android_id: 0, task: 29 }))
    );
    assert_eq!(
        ids.translate(0, i32::MAX as u32, 99, TouchAction::Up),
        Ok(Some(PointerRoute { android_id: 0, task: 29 }))
    );
}

#[test]
fn pointer_ids_are_scoped_to_android_display() {
    let mut ids = PointerIds::new(31);
    let mut id = |display: u32, source: u32, action: TouchAction| {
        ids.translate(display, source, 29, action).unwrap().unwrap().android_id
    };
    assert_eq!(id(0, 8, TouchAction::Down), 0);
    assert_eq!(id(0, 9, TouchAction::Down), 1);
    assert_eq!(id(4, 8, TouchAction::Down), 0);
    assert_eq!(id(0, 8, TouchAction::Up), 0);
    assert_eq!(id(0, 10, TouchAction::Down), 0);
}

#[test]
fn pointers_are_refused_without_a_contact_or_an_identity() {
    let mut ids = PointerIds::new(0);
    assert!(ids.translate(0, 8, 29, TouchAction::Motion).is_err());
    assert_eq!(ids.translate(0, 8, 29, TouchAction::Cancel), Ok(None));
    ids.translate(0, 8, 29, TouchAction::Down).unwrap();
    assert!(ids.translate(0, 8, 29, TouchAction::Down).is_err());
    assert!(ids.translate(0, 9, 29, TouchAction::Down).is_err());
    ids.clear();
    assert!(ids.translate(0, 9, 29, TouchAction::Down).is_ok());
}

const ROUTE: InputRoute = InputRoute {
    task: TaskId(26),
    android_display: 0,
    scale_numerator: 3,
    scale_denominator: 2,
};

#[test]
fn input_is_routed_in_buffer_pixels() {
    let mut ids = PointerIds::new(31);
    let touch = InputEvent::Touch {
        action: TouchAction::Down,
        pointer_id: 7,
        x_fixed: 200 << 16,
        y_fixed: 100 << 16,
        pressure: 9,
    };
    assert_eq!(
        route_input(&mut ids, 1, &ROUTE, 5, &touch),
        Ok(Some(InputRecord::Touch {
            display: 0,
            task: 26,
            timestamp_nanos: 5,
            action: 0,
            pointer_id: 0,
            x_fixed: 300 << 16,
            y_fixed: 150 << 16,
            pressure: 9,
        }))
    );
    let key = InputEvent::Key { action: KeyAction::Down, keycode: 30, repeat: 0 };
    assert!(matches!(
        route_input(&mut ids, 2, &ROUTE, 6, &key),
        Ok(Some(InputRecord::Key { task: 26, keycode: 30, serial: 2, .. }))
    ));
    let back = InputEvent::Navigation { action: NavigationAction::Back };
    assert_eq!(
        route_input(&mut ids, 3, &ROUTE, 7, &back),
        Err("navigation injection is not implemented yet".to_owned())
    );
}

#[test]
fn task_selection_failures_have_stable_retry_semantics() {
    assert_eq!(
        channel_error_code("Android task 2 is not authorized for export"),
        ERROR_NO_ENTRY
    );
    assert_eq!(
        channel_error_code("Android task 7 export is not ready"),
        ERROR_TRY_AGAIN
    );
    assert_eq!(
        channel_error_code("task-control state lock is poisoned"),
        ERROR_IO
    );
}

#[test]
fn control_connections_start_with_a_handshake() {
    let mut connection = ControlConnection::new(1, 4);
    let reserve = ControlRequest::Reserve {
        request_id: 3,
        package: "org.example.app".to_owned(),
    };
    assert!(matches!(
        connection.accept(reserve.clone()),
        ControlStep::Reply(ControlResponse::Error { code: ControlErrorCode::Protocol, .. })
    ));
    assert!(matches!(
        connection.accept(ControlRequest::Hello { min_major: 2, max_major: 3 }),
        ControlStep::Reply(ControlResponse::Error { .. })
    ));
    assert!(matches!(
        connection.accept(ControlRequest::Hello { min_major: 1, max_major: 1 }),
        ControlStep::Reply(ControlResponse::ServerHello { major: 1, minor: 4 })
    ));
    assert!(matches!(connection.accept(reserve), ControlStep::Perform(_)));
    assert!(privileged_peer(0) && privileged_peer(1000) && !privileged_peer(2000));
}

#[test]
fn failures_keep_their_kind_and_text() {
    let failure = control_error(&TaskControlError::UnknownTask(TaskId(4)));
    assert_eq!(failure.code, ControlErrorCode::NotFound);
    assert_eq!(
        failure.message,
        registry_error_text(&TaskControlError::UnknownTask(TaskId(4)))
    );
    assert_eq!(
        control_error(&TaskControlError::DuplicateTask(TaskId(4))).code,
        ControlErrorCode::Conflict
    );
    assert_eq!(
        control_error(&TaskControlError::InvalidSpec(TaskWindowError::InvalidPackage)).code,
        ControlErrorCode::InvalidRequest
    );
    assert_eq!(
        respond(6, Err(failure.clone())),
        ControlResponse::Error {
            request_id: 6,
            code: ControlErrorCode::NotFound,
            message: failure.message,
        }
    );
    let ControlResponse::Error { message, .. } =
        error_response(1, ControlErrorCode::Backend, &"x".repeat(5_000))
    else {
        panic!("expected an error")
    };
    assert_eq!(message.len(), 1_024);
    let ControlResponse::Error { message, .. } = error_response(1, ControlErrorCode::Backend, "")
    else {
        panic!("expected an error")
    };
    assert_eq!(message, "unspecified task-control failure");
    assert!(check_android_display(u32::MAX).is_err());
    assert!(check_android_display(3).is_ok());
}

/// Texts of the service statuses.
fn texts() -> StatusTexts {
    StatusTexts {
        bad_config: "status 1".to_owned(),
        bad_display: "status 2".to_owned(),
        bad_layer: "status 3".to_owned(),
        bad_parameter: "status 4".to_owned(),
        no_resources: "status 6".to_owned(),
        not_validated: "status 7".to_owned(),
        unsupported: "status 8".to_owned(),
    }
}

fn register_direct(
    coordinator: &mut TaskCoordinator,
    lifecycle: &ComposerLifecycle,
    session: &mut Session,
    object: TaskObjectId,
    display: DisplayId,
) -> Result<(TaskObjectId, DisplayId), String> {
    coordinator.register_direct_task(
        lifecycle,
        session,
        &texts(),
        object,
        display,
        TaskId(26),
        0,
    )
}

#[test]
fn statuses_read_as_the_service_has_them() {
    assert_eq!(texts().text(ErrorCode::BadConfig), "status 1");
    assert_eq!(texts().text(ErrorCode::BadLayer), "status 3");
    assert_eq!(texts().text(ErrorCode::NoResources), "status 6");
    assert_eq!(texts().text(ErrorCode::NotValidated), "status 7");
    assert_eq!(texts().text(ErrorCode::Unsupported), "status 8");
}

/// Coordinator with one staged window, and the windows of the cell.
fn staged_in_cell(
    package: &str,
    direct: Option<DirectTask>,
) -> (TaskCoordinator, Session, TaskObjectId, DisplayId) {
    let mut coordinator = TaskCoordinator::new(None);
    let mut session = Session::default();
    let lifecycle = ComposerLifecycle::new();
    let registration = coordinator
        .reserve_with_kind(&lifecycle, &mut session, &texts(), package.to_owned(), direct)
        .unwrap();
    let object = registration.object;
    let display = registration.reservation.display;
    coordinator.registered(object, direct, None).unwrap();
    (coordinator, session, object, display)
}

fn staged(package: &str, direct: Option<DirectTask>) -> (TaskCoordinator, TaskObjectId, DisplayId) {
    let (coordinator, _, object, display) = staged_in_cell(package, direct);
    (coordinator, object, display)
}

/// Announce a window after its first configure.
fn announce(session: &mut Session, object: TaskObjectId, display: DisplayId) -> ComposerLifecycle {
    let reservation =
        ReservedTaskWindowSpec { display, package: "org.example.app".to_owned() };
    let mut sink = DenialPresentationSink::new();
    let binding = sink.register_task(object, &reservation).unwrap();
    sink.task_registered(binding);
    let formats = vec![FormatModifier { fourcc: 875_713_112, modifier: 0 }];
    for message in [
        DenialMessage::FormatFeedback { object, generation: 1, formats },
        DenialMessage::Configure {
            object,
            serial: 5,
            width: 800,
            height: 600,
            scale_numerator: 1,
            scale_denominator: 1,
            transform: Transform::Normal,
            refresh_millihz: 60_000,
        },
    ] {
        sink.apply_task_event(session, &message, Err(TransportError::Rejected)).unwrap();
    }
    let mut lifecycle = ComposerLifecycle::new();
    lifecycle.connect_display(session, display).unwrap();
    lifecycle
}

#[test]
fn a_reservation_is_answered_after_its_configure_and_then_bound() {
    let (mut coordinator, mut session, object, display) = staged_in_cell("org.example.app", None);
    assert!(coordinator.awaits_configure(object));
    assert_eq!(
        coordinator.reserved(1, object, display).unwrap_err().code,
        ControlErrorCode::ConfigureTimeout
    );
    assert_eq!(configure_applied(&mut coordinator, object, 3, 2), Ok(true));
    assert!(!coordinator.awaits_configure(object));
    assert_eq!(
        coordinator.reserved(1, object, display),
        Ok(ControlResponse::Reserved { request_id: 1, object: object.0, display: display.0 })
    );
    assert!(matches!(
        coordinator.begin_bind(2, object, TaskId(26), 5),
        Ok(BindStep::Bind(target)) if target == display
    ));
    let silent = ComposerLifecycle::new();
    assert_eq!(
        coordinator.bind(&silent, &mut session, &texts(), 2, object, display, TaskId(26), 5),
        Err(ControlFailure {
            code: ControlErrorCode::Backend,
            message: "bind Composer task identity: status 2".to_owned(),
        })
    );
    let lifecycle = announce(&mut session, object, display);
    let bound =
        coordinator.bind(&lifecycle, &mut session, &texts(), 2, object, display, TaskId(26), 5).unwrap();
    assert_eq!(
        bound,
        ControlResponse::Bound {
            request_id: 2,
            object: object.0,
            task: 26,
            display: display.0,
            android_display: 5,
        }
    );
    assert!(matches!(
        coordinator.begin_bind(3, object, TaskId(26), 5),
        Ok(BindStep::Done(ControlResponse::Bound { request_id: 3, .. }))
    ));
    assert_eq!(
        coordinator.input_route_for_object(object),
        Ok(InputRoute {
            task: TaskId(26),
            android_display: 5,
            scale_numerator: 3,
            scale_denominator: 2,
        })
    );
    assert!(coordinator.set_input_scale(object, 0, 1).is_err());
}

#[test]
fn removed_objects_are_forgotten_and_failed_reservations_leave_nothing() {
    let (mut coordinator, object, _) = staged("org.example.app", None);
    assert!(coordinator.begin_remove(object).unwrap().is_some());
    coordinator.finish_remove(object).unwrap();
    assert!(coordinator.is_retired(object));
    assert_eq!(
        coordinator.removal_is_done(9, object),
        Some(ControlResponse::Removed { request_id: 9, object: object.0 })
    );
    assert!(coordinator.input_route_for_object(object).is_err());
    let mut fresh = TaskCoordinator::new(Some(40));
    let mut session = Session::default();
    let lifecycle = ComposerLifecycle::new();
    let occupied = ReservedTaskWindowSpec {
        display: DisplayId(1),
        package: "org.example.other".to_owned(),
    };
    lifecycle.stage_task(&mut session, occupied).unwrap();
    assert_eq!(
        fresh.reserve_with_kind(&lifecycle, &mut session, &texts(), "org.example.app".to_owned(), None),
        Err(ControlFailure {
            code: ControlErrorCode::Backend,
            message: "stage Composer display: status 4".to_owned(),
        })
    );
    assert!(fresh.display_connected(TaskObjectId(40)).is_err());
    assert!(fresh
        .reserve_with_kind(&lifecycle, &mut session, &texts(), "not/a/package".to_owned(), None)
        .is_err());
    let next = fresh
        .reserve_with_kind(&lifecycle, &mut session, &texts(), "org.example.app".to_owned(), None)
        .unwrap();
    assert_eq!((next.object, next.reservation.display), (TaskObjectId(41), DisplayId(2)));
}

const DIRECT: DirectTask = DirectTask { task: TaskId(26), android_display: 0 };

fn exported() -> (TaskCoordinator, TaskObjectId, DisplayId) {
    let (mut coordinator, mut session, object, display) =
        staged_in_cell("org.example.app", Some(DIRECT));
    configure_applied(&mut coordinator, object, 1, 1).unwrap();
    let announced = announce(&mut session, object, display);
    let silent = ComposerLifecycle::new();
    assert_eq!(
        register_direct(&mut coordinator, &announced, &mut session, object, display),
        Err("bind direct Composer task identity: status 2".to_owned())
    );
    assert_eq!(
        register_direct(&mut coordinator, &silent, &mut session, object, display),
        Ok((object, display))
    );
    (coordinator, object, display)
}

#[test]
fn direct_tasks_keep_their_window() {
    let (coordinator, object, display) = exported();
    assert!(coordinator.is_direct_task(object));
    assert_eq!(
        coordinator.begin_direct(TaskId(26), "org.example.app", 0),
        Ok(Some((object, display)))
    );
    assert!(coordinator.begin_direct(TaskId(26), "org.example.other", 0).is_err());
    assert_eq!(coordinator.begin_direct(TaskId(27), "org.example.app", 0), Ok(None));
    assert_eq!(coordinator.direct_task_display(TaskId(26)), Ok(display));
    assert_eq!(coordinator.direct_task_route_for_object(object), Ok(DIRECT));
    assert_eq!(coordinator.retire_direct_task(TaskId(26)), Ok(object));
    assert_eq!(
        coordinator.direct_task_display(TaskId(2)),
        Err("Android task 2 is not authorized for export".to_owned())
    );
}

fn target() -> BufferMetadata {
    BufferMetadata {
        id: BufferId(11),
        width: 800,
        height: 600,
        format: FormatModifier { fourcc: 875_713_112, modifier: 0 },
        planes: vec![PlaneMetadata { index: 0, offset: 0, stride: 3_200 }],
    }
}

const BOOTSTRAP: Channel = Channel { display: DisplayId(1), width: 1920, height: 1200 };

#[test]
fn surface_connections_stay_in_their_channel() {
    let coordinator = TaskCoordinator::new(None);
    let session = Session::default();
    let mut connection = SurfaceConnection::new();
    assert!(matches!(
        connection.receive(&Request::Acquire { display: 1 }),
        SurfaceStep::Close(_)
    ));
    assert!(matches!(
        connection.receive(&Request::Hello { task: 0 }),
        SurfaceStep::Select { task: 0 }
    ));
    let channel = select_channel(&coordinator, &session, &BOOTSTRAP, 0);
    assert_eq!(channel, Ok(BOOTSTRAP));
    assert!(select_channel(&coordinator, &session, &BOOTSTRAP, 26).is_err());
    assert_eq!(
        connection.selected(0, &channel),
        Response::Hello { display: 1, width: 1920, height: 1200 }
    );
    assert!(matches!(connection.receive(&Request::Hello { task: 0 }), SurfaceStep::Close(_)));
    assert!(matches!(
        connection.receive(&Request::Acquire { display: 2 }),
        SurfaceStep::Close(_)
    ));
    assert!(matches!(
        connection.receive(&Request::Acquire { display: 1 }),
        SurfaceStep::Acquire { display: DisplayId(1) }
    ));
    connection.lent(target()).unwrap();
    assert!(matches!(
        connection.receive(&Request::Present { display: 1, buffer: 11 }),
        SurfaceStep::Present { target, .. } if target.id == BufferId(11)
    ));
    assert!(!matches!(
        connection.receive(&Request::Present { display: 1, buffer: 11 }),
        SurfaceStep::Present { .. }
    ));
    connection.lent(target()).unwrap();
    assert_eq!(connection.finish(DisplayId(1)), (DisplayId(1), vec![BufferId(11)]));
}

#[test]
fn a_connection_holds_three_targets_at_most() {
    let mut connection = SurfaceConnection::new();
    connection.selected(0, &Ok(BOOTSTRAP));
    for buffer in 11..14 {
        assert!(matches!(
            connection.receive(&Request::Acquire { display: 1 }),
            SurfaceStep::Acquire { display: DisplayId(1) }
        ));
        connection.lent(BufferMetadata { id: BufferId(buffer), ..target() }).unwrap();
    }
    assert!(matches!(
        connection.receive(&Request::Acquire { display: 1 }),
        SurfaceStep::Reply(Response::Error { code: ERROR_BUSY })
    ));
    assert!(matches!(
        connection.receive(&Request::Cancel { display: 1, buffer: 12 }),
        SurfaceStep::Cancel { buffer: BufferId(12), .. }
    ));
    assert!(matches!(
        connection.receive(&Request::Acquire { display: 1 }),
        SurfaceStep::Acquire { .. }
    ));
    assert_eq!(
        connection.finish(DisplayId(1)),
        (DisplayId(1), vec![BufferId(11), BufferId(13)])
    );
}

#[test]
fn surface_responses_describe_the_target() {
    let response = target_response(
        DisplayId(1),
        &SelectedTarget { metadata: target(), configure_serial: 5 },
    );
    assert!(matches!(
        &response,
        Response::Target { display: 1, buffer: 11, configure_serial: 5, planes, .. }
            if planes[0].stride == 3_200
    ));
    assert_eq!(done_response(true), Response::Ack);
    assert_eq!(done_response(false), Response::Error { code: ERROR_IO });
    assert!(check_bootstrap(0, 600).is_err());
    assert!(check_bootstrap(800, 600).is_ok());
}

#[test]
fn service_arguments_have_defaults() {
    let paths = arguments(&vec![]).unwrap();
    assert_eq!(paths.socket, "/dev/socket/droidloom/denial");
    let paths = arguments(&vec!["/run/denial".to_owned()]).unwrap();
    assert_eq!(paths.socket, "/run/denial");
    assert!(arguments(&vec![String::new(), String::new(), String::new()]).is_err());
}

#[test]
fn the_event_loop_answers_pings_and_ends_on_errors() {
    assert!(matches!(client_hello(), AndroidMessage::ClientHello { min_major: 1, .. }));
    assert!(check_server_hello(&DenialMessage::Ping { cookie: 1 }).is_err());
    let hello = DenialMessage::ServerHello {
        major: 1,
        minor: 3,
        capabilities: capability::REQUIRED_V1,
        max_task_objects: 1,
        max_buffers_per_task: 1,
        max_damage_rects: 1,
    };
    assert_eq!(check_server_hello(&hello), Ok(()));
    assert!(matches!(next_step(&hello), EventStep::Fail(_)));
    assert!(matches!(
        next_step(&DenialMessage::Ping { cookie: 4 }),
        EventStep::Reply(AndroidMessage::Pong { cookie: 4 })
    ));
    assert!(matches!(
        next_step(&DenialMessage::Close { object: TaskObjectId(3) }),
        EventStep::Task { object: TaskObjectId(3), presented: None }
    ));
}

#[test]
fn only_events_of_retired_objects_are_dropped() {
    let (mut coordinator, object, _) = staged("org.example.app", None);
    let sink = DenialPresentationSink::new();
    assert!(event_display(&sink, &coordinator, object).is_err());
    coordinator.begin_remove(object).unwrap();
    coordinator.finish_remove(object).unwrap();
    assert_eq!(event_display(&sink, &coordinator, object), Ok(None));
}

#[test]
fn host_events_reach_the_task_of_their_object() {
    let (coordinator, object, display) = exported();
    let lifecycle = ComposerLifecycle::new();
    let dispatch = |event: AppliedDenialEvent| {
        dispatch_event(&lifecycle, &coordinator, object, display, &event)
    };
    assert_eq!(
        dispatch(AppliedDenialEvent::Configure {
            serial: 1,
            width: 800,
            height: 600,
            scale_numerator: 1,
            scale_denominator: 1,
            transform: Transform::Normal,
            refresh_millihz: 60_000,
        }),
        Ok(Dispatch::TaskBounds {
            task: TaskId(26),
            android_display: 0,
            width: 800,
            height: 600,
            scale_numerator: 1,
            scale_denominator: 1,
        })
    );
    assert_eq!(
        dispatch(AppliedDenialEvent::Visibility {
            visibility: Visibility::Visible,
            focused: true,
        }),
        Ok(Dispatch::Focus(TaskId(26)))
    );
    assert_eq!(dispatch(AppliedDenialEvent::Close), Ok(Dispatch::CloseTask(TaskId(26))));
}
