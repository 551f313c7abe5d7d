//! The display service: presentation channels, layer buffers, command batches,
//! display clocks and hotplug.

use droidloom::aidl::{
    command_error, composition, core_composition, display_id, error_result, execute_commands,
    layer_id, present_payload, CommandResultPayload, DisplayRequest, LayerRequest,
};
use droidloom::composer::hwc3::{CommandResult, ErrorCode, Session};
use droidloom::composer::{
    Composition, DisplayId, LayerId, PowerMode, ReservedTaskWindowSpec, TaskId,
};
use droidloom::gles::{blending, image_attributes, texture_corners, viewport, Blending, GlesError};
use droidloom::minigbm::{
    blend_code, composition_code, transform_code, BufferUpdate, ComposedSubmission,
    ImportedMinigbmBuffer, LayerCrop, LayerRect, LayerUpdate, MinigbmBufferAdapter,
    RequestedBlend, RequestedComposition, RequestedTransform,
};
use droidloom::protocol::{AndroidMessage, DenialMessage, DescriptorKind, TaskObjectId, Transform};
use droidloom::service::{
    active_config, configure_refresh_period, create_layer, destroy_layer, display_attribute,
    display_configuration, display_name, display_vsync_period, render_intents, set_active_config,
    set_active_config_with_constraints, set_client_target_slot_count, set_color_mode,
    set_power_mode, set_vsync_enabled, unsupported, vsync_period, ClientLease, ComposerLifecycle,
    DisplayAttribute,
};
use droidloom::sink::{
    pin_android_display_extent, rendered_target, DenialPresentationSink, DenialSinkError,
    PresentationFailure,
};
use droidloom::transport::{
    AcceptedFrame, BufferId, BufferMetadata, Configure, FormatModifier, FrameId, PlaneMetadata,
    ReleasedFrame, TransportError,
};
use droidloom::vsync::{
    average_micros, callback_arguments, next_vsync_after, periods_compatible, phase_distance,
    CallbackTally, DueVsync, VsyncSchedule, VsyncWait,
};

const DISPLAY: DisplayId = DisplayId(9);
const OBJECT: TaskObjectId = TaskObjectId(7);
const FORMAT: FormatModifier = FormatModifier { fourcc: 875_713_112, modifier: 0 };

#[test]
fn android_display_extent_remains_the_hotplug_size() {
    let mut extent = None;
    pin_android_display_extent(&mut extent, 480, 800).expect("initial configure");
    pin_android_display_extent(&mut extent, 1264, 2684).expect("host-scale configure");
    assert_eq!(extent, Some((480, 800)));
}

#[test]
fn android_display_extent_rejects_empty_configures() {
    let mut extent = None;
    assert!(pin_android_display_extent(&mut extent, 0, 800).is_err());
    assert_eq!(extent, None);
}

#[test]
fn predicted_vsync_advances_from_the_host_phase_without_drift() {
    assert_eq!(next_vsync_after(100, 80, 10), 110);
    assert_eq!(next_vsync_after(100, 105, 10), 105);
    assert_eq!(next_vsync_after(107, 80, 10), 110);
}

#[test]
fn phase_correction_requires_matching_refresh_periods() {
    assert!(periods_compatible(8_333_333, 8_333_334));
    assert!(!periods_compatible(8_333_333, 16_666_666));
}

#[test]
fn phase_distance_ignores_whole_refresh_periods() {
    assert_eq!(phase_distance(110, 80, 10), 0);
    assert_eq!(phase_distance(107, 80, 10), 3);
    assert_eq!(phase_distance(108, 80, 10), 2);
}

#[test]
fn phase_distance_is_the_same_in_both_directions() {
    assert_eq!(phase_distance(80, 107, 10), 3);
    assert_eq!(phase_distance(80, 97, 10), 3);
    assert_eq!(phase_distance(120, 107, 10), 3);
    assert_eq!(phase_distance(0, u64::MAX, 2), 1);
}

fn update() -> LayerUpdate {
    LayerUpdate {
        update: 1,
        modifies: true,
        new_buffer_slot_count: 0,
        slots_to_clear: None,
        buffer: None,
        composition: None,
        display_frame: Some(LayerRect { left: 0, top: 0, right: 100, bottom: 50 }),
        source_crop: None,
        transform: None,
        blend_mode: None,
        plane_alpha: None,
        color: None,
        z: None,
    }
}

fn imported(handle: u64) -> ImportedMinigbmBuffer {
    ImportedMinigbmBuffer { handle, width: 64, height: 32, protected_content: false }
}

fn with_buffer(slot: i32, handle: u64) -> LayerUpdate {
    LayerUpdate {
        composition: Some(RequestedComposition::Device),
        buffer: Some(BufferUpdate {
            slot,
            import: Some(Ok(imported(handle))),
            duplicated: true,
            fence: Some(true),
        }),
        ..update()
    }
}

fn adapter() -> MinigbmBufferAdapter {
    let mut buffers = MinigbmBufferAdapter::new();
    buffers.create_layer_slots(DISPLAY, LayerId(1), 2).unwrap();
    buffers
}

fn metadata() -> BufferMetadata {
    BufferMetadata {
        id: BufferId(11),
        width: 800,
        height: 600,
        format: FORMAT,
        planes: vec![PlaneMetadata { index: 0, offset: 0, stride: 3_200 }],
    }
}

fn frame(id: u64) -> AcceptedFrame {
    AcceptedFrame {
        frame_id: FrameId(id),
        buffer: metadata(),
        damage: Vec::new(),
        requires_acquire_fence: true,
    }
}

fn compose(buffers: &mut MinigbmBufferAdapter) -> ComposedSubmission {
    buffers.prepare_render_target(DISPLAY, Ok(metadata())).unwrap();
    buffers.submit_composed_target(DISPLAY, &frame(1), None)
}

#[test]
fn solid_color_ignores_surface_flinger_empty_source_crop() {
    let mut buffers = adapter();
    let solid = LayerUpdate {
        composition: Some(RequestedComposition::SolidColor),
        source_crop: Some(false),
        color: Some(true),
        ..update()
    };
    buffers.update_layer(DISPLAY, LayerId(1), &solid).unwrap();
    let ComposedSubmission::Submit { layers, .. } = compose(&mut buffers) else {
        panic!("expected a submission")
    };
    assert_eq!(layers[0].source_crop, LayerCrop::Frame { width: 100, height: 50 });
    assert_eq!(layers[0].solid_color, Some(1));
}

#[test]
fn buffered_layer_still_rejects_empty_source_crop() {
    let mut buffers = adapter();
    let empty = LayerUpdate { source_crop: Some(false), ..with_buffer(0, 3) };
    assert_eq!(
        buffers.update_layer(DISPLAY, LayerId(1), &empty).unwrap_err(),
        ErrorCode::BadParameter
    );
}

#[test]
fn buffered_layer_keeps_valid_source_crop() {
    let mut buffers = adapter();
    let cropped = LayerUpdate { source_crop: Some(true), ..with_buffer(0, 3) };
    buffers.update_layer(DISPLAY, LayerId(1), &cropped).unwrap();
    let ComposedSubmission::Submit { layers, .. } = compose(&mut buffers) else {
        panic!("expected a submission")
    };
    assert_eq!(layers[0].source_crop, LayerCrop::Update(1));
}

#[test]
fn slots_remember_buffers_and_fences_are_taken_once() {
    let mut buffers = adapter();
    buffers.update_layer(DISPLAY, LayerId(1), &with_buffer(0, 3)).unwrap();
    let ComposedSubmission::Submit { layers, target } = compose(&mut buffers) else {
        panic!("expected a submission")
    };
    assert_eq!(target, metadata());
    assert_eq!(layers[0].acquire_fence, Some(1));
    assert_eq!(layers[0].buffer, Some(imported(3)));
    let ComposedSubmission::Submit { layers, .. } = compose(&mut buffers) else {
        panic!("expected a submission")
    };
    assert_eq!(layers[0].acquire_fence, None);
    let reuse = LayerUpdate {
        buffer: Some(BufferUpdate { slot: 0, import: None, duplicated: true, fence: None }),
        ..update()
    };
    assert_eq!(buffers.update_layer(DISPLAY, LayerId(1), &reuse), Ok(Some(false)));
    let clear = LayerUpdate { slots_to_clear: Some(vec![0]), ..update() };
    buffers.update_layer(DISPLAY, LayerId(1), &clear).unwrap();
    assert_eq!(
        buffers.update_layer(DISPLAY, LayerId(1), &reuse),
        Err(ErrorCode::BadParameter)
    );
    let beyond = LayerUpdate { slots_to_clear: Some(vec![2]), ..update() };
    assert_eq!(
        buffers.update_layer(DISPLAY, LayerId(1), &beyond),
        Err(ErrorCode::BadParameter)
    );
}

#[test]
fn a_frame_of_another_target_is_cancelled() {
    let mut buffers = adapter();
    buffers.prepare_render_target(DISPLAY, Ok(metadata())).unwrap();
    assert!(buffers.has_pending_target(DISPLAY));
    assert!(buffers.prepare_render_target(DISPLAY, Ok(metadata())).is_err());
    let mut other = frame(1);
    other.buffer.id = BufferId(12);
    assert!(matches!(
        buffers.submit_composed_target(DISPLAY, &other, None),
        ComposedSubmission::Failed { .. }
    ));
    assert!(!buffers.has_pending_target(DISPLAY));
    assert_eq!(buffers.cancel_render_target(DISPLAY), None);
}

#[test]
fn interface_codes_are_translated() {
    assert_eq!(composition_code(RequestedComposition::SolidColor), Ok(3));
    assert!(composition_code(RequestedComposition::Other).is_err());
    assert_eq!(transform_code(RequestedTransform::Rot90), Ok(4));
    assert_eq!(transform_code(RequestedTransform::Rot270), Ok(7));
    assert!(transform_code(RequestedTransform::Other).is_err());
    assert_eq!(blend_code(RequestedBlend::Coverage), Ok(3));
    assert!(blend_code(RequestedBlend::Other).is_err());
    for value in [
        Composition::Client,
        Composition::Device,
        Composition::SolidColor,
        Composition::Cursor,
        Composition::Sideband,
    ] {
        assert_eq!(core_composition(composition(value)), Ok(value));
    }
    assert_eq!(display_id(-1), Err(ErrorCode::BadDisplay));
    assert_eq!(layer_id(-1), Err(ErrorCode::BadLayer));
    assert_eq!(display_id(5), Ok(DisplayId(5)));
    assert_eq!(
        command_error(3, ErrorCode::BadLayer),
        CommandResultPayload::Error { command_index: 3, error_code: 3 }
    );
}

/// Session and sink with one configured task display.
fn connected() -> (Session, DenialPresentationSink) {
    let reservation = ReservedTaskWindowSpec {
        display: DISPLAY,
        package: "org.example.app".to_owned(),
    };
    let mut session = Session::default();
    let lifecycle = ComposerLifecycle::new();
    lifecycle.stage_task(&mut session, reservation.clone()).unwrap();
    let mut sink = DenialPresentationSink::new();
    let binding = sink.register_task(OBJECT, &reservation).unwrap();
    sink.task_registered(binding);
    for message in [
        DenialMessage::FormatFeedback { object: OBJECT, generation: 1, formats: vec![FORMAT] },
        DenialMessage::Configure {
            object: OBJECT,
            serial: 5,
            width: 800,
            height: 600,
            scale_numerator: 1,
            scale_denominator: 1,
            transform: Transform::Normal,
            refresh_millihz: 60_000,
        },
    ] {
        sink.apply_task_event(&mut session, &message, Err(TransportError::Rejected)).unwrap();
    }
    sink.acknowledge_configure(&mut session, DISPLAY, 5, Ok(())).unwrap();
    (session, sink)
}

fn request(display: i64) -> DisplayRequest {
    DisplayRequest {
        display,
        has_color_transform: false,
        has_brightness: false,
        has_output_buffer: false,
        has_active_config: false,
        picture_profile: 0,
        layers: Vec::new(),
        validate_display: false,
        accept_display_changes: false,
        present_display: false,
        present_or_validate_display: false,
    }
}

#[test]
fn command_batches_answer_every_request_in_order() {
    let (mut session, mut sink) = connected();
    let mut buffers = MinigbmBufferAdapter::new();
    set_power_mode(&mut session, 9, Some(PowerMode::On)).unwrap();
    let layer = create_layer(&mut session, &mut buffers, 9, 3).unwrap();
    let mut change = request(9);
    change.layers.push(LayerRequest {
        layer,
        has_sideband_stream: false,
        update: LayerUpdate { composition: Some(RequestedComposition::Device), ..update() },
    });
    change.validate_display = true;
    let payloads = execute_commands(
        &mut session,
        &mut sink,
        &mut buffers,
        &vec![request(-1), change, request(77)],
    );
    assert_eq!(
        payloads[0],
        CommandResultPayload::Error { command_index: 0, error_code: ErrorCode::BadDisplay.code() }
    );
    assert!(matches!(
        &payloads[1],
        CommandResultPayload::ChangedCompositionTypes { display: 9, layers }
            if layers[0].layer == layer && layers[0].composition == RequestedComposition::Client
    ));
    assert_eq!(
        payloads[2],
        CommandResultPayload::Error { command_index: 2, error_code: ErrorCode::BadDisplay.code() }
    );
    destroy_layer(&mut session, &mut buffers, 9, layer).unwrap();
    assert_eq!(
        destroy_layer(&mut session, &mut buffers, 9, layer),
        Err(ErrorCode::BadLayer)
    );
}

#[test]
fn unsupported_requests_are_refused() {
    let (mut session, mut sink) = connected();
    let mut buffers = MinigbmBufferAdapter::new();
    let mut colored = request(9);
    colored.has_color_transform = true;
    let payloads = execute_commands(&mut session, &mut sink, &mut buffers, &vec![colored]);
    assert_eq!(
        payloads,
        vec![CommandResultPayload::Error {
            command_index: 0,
            error_code: ErrorCode::Unsupported.code(),
        }]
    );
}

#[test]
fn a_failed_submission_is_rolled_back_before_denial_saw_it() {
    let (mut session, _) = connected();
    set_power_mode(&mut session, 9, Some(PowerMode::On)).unwrap();
    let composer = session.windows_mut().composer_for_display_mut(DISPLAY).unwrap();
    composer.submit_rendered_target(DISPLAY, Ok(frame(4))).unwrap();
    let failure = PresentationFailure::unsubmitted(ErrorCode::NoResources);
    assert!(present_payload(
        &mut session,
        DISPLAY,
        FrameId(4),
        true,
        Err(failure),
        Ok(BufferId(11))
    )
    .is_err());
    let composer = session.windows().composer_for_display(DISPLAY).unwrap();
    assert_eq!(composer.in_flight_count(), 0);
    assert!(PresentationFailure::accepted(ErrorCode::NoResources).accepted_by_denial);
}

#[test]
fn render_targets_are_lent_until_denial_releases_them() {
    let (mut session, mut sink) = connected();
    set_power_mode(&mut session, 9, Some(PowerMode::On)).unwrap();
    assert!(sink.acquire_surfaceflinger_target(DISPLAY).is_err());
    sink.register_render_target(OBJECT, 5, metadata(), &vec![DescriptorKind::DmabufPlane])
        .unwrap();
    let target = sink.acquire_surfaceflinger_target(DISPLAY).unwrap();
    assert_eq!(target.metadata, metadata());
    assert_eq!(target.configure_serial, 5);
    sink.target_reserved(DISPLAY, BufferId(11));
    assert!(sink.acquire_surfaceflinger_target(DISPLAY).is_err());
    let client = rendered_target(&target.metadata);
    assert!(client.has_acquire_fence);
    assert_eq!((client.damage[0].width, client.damage[0].height), (800, 600));
    let accepted = sink
        .submit_surfaceflinger_target(&mut session, DISPLAY, &target.metadata, Ok(frame(1)))
        .unwrap();
    let prepared = sink
        .prepare_surfaceflinger_frame(DISPLAY, &accepted, &target.metadata)
        .unwrap();
    assert!(matches!(prepared.message, AndroidMessage::Present { frame: FrameId(1), .. }));
    sink.frame_sent(DISPLAY, FrameId(1), BufferId(11), prepared.release_point, true);
    assert_eq!(sink.take_direct_present_fence(DISPLAY), Ok(()));
    assert!(sink.take_direct_present_fence(DISPLAY).is_err());
    assert!(sink.acquire_surfaceflinger_target(DISPLAY).is_err());
    sink.apply_task_event(
        &mut session,
        &DenialMessage::BufferReleased {
            object: OBJECT,
            frame: FrameId(1),
            buffer: BufferId(11),
            release_point: prepared.release_point,
        },
        Ok(ReleasedFrame { frame_id: FrameId(1), buffer: BufferId(11) }),
    )
    .unwrap();
    assert!(sink.acquire_surfaceflinger_target(DISPLAY).is_ok());
    sink.unregister_render_target(OBJECT, BufferId(11)).unwrap();
    assert!(sink.acquire_surfaceflinger_target(DISPLAY).is_err());
}

#[test]
fn composed_frames_keep_their_target_until_it_is_released() {
    let (_, mut sink) = connected();
    sink.register_render_target(OBJECT, 5, metadata(), &vec![DescriptorKind::DmabufPlane])
        .unwrap();
    sink.target_reserved(DISPLAY, BufferId(11));
    let other = BufferMetadata { id: BufferId(12), ..metadata() };
    assert_eq!(
        sink.begin_frame(DISPLAY, &frame(1), &other),
        Err(PresentationFailure::unsubmitted(ErrorCode::BadParameter))
    );
    assert_eq!(sink.begin_frame(DISPLAY, &frame(1), &metadata()), Ok((800, 600)));
    let unsent = sink.prepare_composed_frame(DISPLAY, &frame(1)).unwrap();
    sink.frame_unsent(DISPLAY, FrameId(1), BufferId(11), unsent.release_point, true);
    assert_eq!(
        sink.prepare_composed_frame(DISPLAY, &frame(1)).unwrap_err(),
        PresentationFailure::unsubmitted(ErrorCode::BadParameter)
    );
    sink.target_reserved(DISPLAY, BufferId(11));
    let sent = sink.prepare_composed_frame(DISPLAY, &frame(2)).unwrap();
    assert_eq!(sent.release_point, unsent.release_point + 1);
    sink.frame_sent(DISPLAY, FrameId(2), BufferId(11), sent.release_point, false);
    assert!(sink.take_direct_present_fence(DISPLAY).is_err());
    assert!(sink.acquire_surfaceflinger_target(DISPLAY).is_err());
    sink.unregister_render_target(OBJECT, BufferId(11)).unwrap();
    assert!(sink.holds_target(DISPLAY, BufferId(11)));
    assert!(!sink.holds_target(DISPLAY, BufferId(12)));
    assert!(!sink.holds_target(DisplayId(8), BufferId(11)));
}

#[test]
fn removed_tasks_are_announced_as_gone() {
    let (mut session, _) = connected();
    let mut schedule = VsyncSchedule::new();
    let mut lifecycle = ComposerLifecycle::new();
    lifecycle.connect_display(&session, DISPLAY).unwrap();
    assert_eq!(
        lifecycle.remove_task(&mut session, &mut schedule, TaskId(26)),
        Err(ErrorCode::BadDisplay)
    );
    lifecycle.bind_task(&mut session, DISPLAY, TaskId(26)).unwrap();
    let (spec, number) =
        lifecycle.remove_task(&mut session, &mut schedule, TaskId(26)).unwrap();
    assert_eq!((spec.task, spec.display, number), (TaskId(26), DISPLAY, Some(9)));
    assert!(!lifecycle.is_connected(DISPLAY));
    let error = CommandResult::Error { command_index: 2, code: ErrorCode::BadLayer };
    assert_eq!(error_result(&error), Some(command_error(2, ErrorCode::BadLayer)));
}

#[test]
fn buffers_are_registered_once_with_their_metadata() {
    let reservation =
        ReservedTaskWindowSpec { display: DISPLAY, package: "org.example.app".to_owned() };
    let binding = DenialPresentationSink::new().register_task(OBJECT, &reservation).unwrap();
    assert_eq!(
        binding.register_buffer_message(&frame(1)),
        AndroidMessage::RegisterBuffer { object: OBJECT, buffer: metadata() }
    );
}

#[test]
fn sink_errors_name_what_is_missing() {
    let (mut session, mut sink) = connected();
    assert_eq!(sink.android_display_extent(DISPLAY), Ok((800, 600)));
    let unknown = DenialSinkError::UnknownDisplay(DisplayId(3));
    assert_eq!(unknown.error_code(), ErrorCode::BadDisplay);
    assert_eq!(sink.android_display_extent(DisplayId(3)), Err(unknown));
    assert_eq!(sink.display_for_object(OBJECT), Ok(DISPLAY));
    assert!(sink.display_for_object(TaskObjectId(8)).is_err());
    assert_eq!(
        sink.bind_task(DISPLAY, TaskId(26)).unwrap(),
        Some(AndroidMessage::BindTask {
            object: OBJECT,
            task: droidloom::protocol::AndroidTaskId(26),
        })
    );
    sink.task_bound(DISPLAY, TaskId(26)).unwrap();
    assert_eq!(
        sink.request_activation(DISPLAY).unwrap(),
        AndroidMessage::RequestActivation { object: OBJECT }
    );
    assert!(sink
        .apply_task_event(
            &mut session,
            &DenialMessage::Ping { cookie: 1 },
            Err(TransportError::Rejected)
        )
        .is_err());
    assert_eq!(
        sink.unregister_task(DISPLAY).unwrap(),
        AndroidMessage::DestroyTask { object: OBJECT }
    );
    sink.task_removed(DISPLAY);
    assert!(sink.display_for_object(OBJECT).is_err());
}

#[test]
fn displays_are_described_and_announced_once() {
    let (session, _) = connected();
    assert_eq!(
        configure_refresh_period(Configure {
            serial: 1,
            width: 1,
            height: 1,
            refresh_millihz: 60_000,
        }),
        Ok(16_666_666)
    );
    assert_eq!(
        vsync_period(Configure { serial: 1, width: 1, height: 1, refresh_millihz: 0 }),
        Err(ErrorCode::BadConfig)
    );
    let shape = display_configuration(&session, 9).unwrap();
    assert_eq!((shape.width, shape.height, shape.vsync_period), (800, 600, 16_666_666));
    assert_eq!(display_attribute(&session, 9, 0, DisplayAttribute::Width), Ok(800));
    assert_eq!(
        display_attribute(&session, 9, 77, DisplayAttribute::Width),
        Err(ErrorCode::BadConfig)
    );
    assert_eq!(display_name(&session, 9).unwrap(), "Droidloom:9:org.example.app");
    assert_eq!(display_name(&session, 8), Err(ErrorCode::BadDisplay));
    let mut lifecycle = ComposerLifecycle::new();
    assert_eq!(lifecycle.connect_display(&session, DISPLAY), Ok(9));
    assert_eq!(lifecycle.connect_display(&session, DISPLAY), Err(ErrorCode::BadDisplay));
    assert!(lifecycle.is_connected(DISPLAY));
    let mut schedule = VsyncSchedule::new();
    assert_eq!(lifecycle.disconnect_display(&mut schedule, DISPLAY), Some(9));
    assert_eq!(lifecycle.disconnect_display(&mut schedule, DISPLAY), None);
}

#[test]
fn a_display_has_one_configuration() {
    let (session, _) = connected();
    assert_eq!(active_config(&session, 9), Ok(0));
    assert_eq!(active_config(&session, 8), Err(ErrorCode::BadDisplay));
    assert_eq!(set_active_config(&session, 9, 0), Ok(()));
    assert_eq!(set_active_config(&session, 9, 1), Err(ErrorCode::BadConfig));
    assert_eq!(set_active_config(&session, -1, 0), Err(ErrorCode::BadDisplay));
    assert_eq!(set_active_config_with_constraints(&session, 9, 0), ErrorCode::Unsupported);
    assert_eq!(set_active_config_with_constraints(&session, 9, 1), ErrorCode::BadConfig);
    assert_eq!(display_vsync_period(&session, 9), Ok(16_666_666));
    assert_eq!(display_vsync_period(&session, 8), Err(ErrorCode::BadDisplay));
}

#[test]
fn displays_are_native_and_colorimetric() {
    let (session, _) = connected();
    assert_eq!(set_color_mode(&session, 9, true, true), Ok(()));
    assert_eq!(set_color_mode(&session, 9, true, false), Err(ErrorCode::BadParameter));
    assert_eq!(set_color_mode(&session, 9, false, true), Err(ErrorCode::BadParameter));
    assert_eq!(set_color_mode(&session, 8, true, true), Err(ErrorCode::BadDisplay));
    assert_eq!(render_intents(&session, 9, true), Ok(()));
    assert_eq!(render_intents(&session, 9, false), Err(ErrorCode::BadParameter));
    assert_eq!(unsupported(&session, 9), ErrorCode::Unsupported);
    assert_eq!(unsupported(&session, 8), ErrorCode::BadDisplay);
}

#[test]
fn one_client_lives_at_a_time() {
    let mut lease = ClientLease::new();
    let mut schedule = VsyncSchedule::new();
    schedule.set_enabled(DISPLAY, true, 10, 0).unwrap();
    assert_eq!(lease.create_client(), Ok(()));
    assert_eq!(lease.create_client(), Err(ErrorCode::NoResources));
    lease.client_dropped(&mut schedule);
    assert_eq!(schedule.wait(0), VsyncWait::Idle);
    assert_eq!(lease.create_client(), Ok(()));
}

#[test]
fn failed_layers_leave_no_slots() {
    let (mut session, _) = connected();
    let mut buffers = MinigbmBufferAdapter::new();
    assert!(create_layer(&mut session, &mut buffers, 9, -1).is_err());
    assert_eq!(
        create_layer(&mut session, &mut buffers, 8, 3),
        Err(ErrorCode::BadDisplay)
    );
    let layer = create_layer(&mut session, &mut buffers, 9, 3).unwrap();
    assert!(layer >= 0);
    assert!(set_client_target_slot_count(&session, &mut buffers, 9, 3).is_ok());
    assert!(set_client_target_slot_count(&session, &mut buffers, 8, 3).is_err());
}

#[test]
fn clocks_tick_in_phase_until_they_are_stopped() {
    let (mut session, _) = connected();
    let mut schedule = VsyncSchedule::new();
    assert_eq!(schedule.wait(0), VsyncWait::Idle);
    assert!(set_vsync_enabled(&mut session, &mut schedule, 9, true, 1_000).is_err());
    set_power_mode(&mut session, 9, Some(PowerMode::On)).unwrap();
    set_vsync_enabled(&mut session, &mut schedule, 9, true, 1_000).unwrap();
    assert_eq!(schedule.wait(1_000), VsyncWait::For(16_666_666));
    assert!(schedule.tick(1_000).is_empty());
    assert_eq!(schedule.wait(16_667_666), VsyncWait::Due);
    let due = schedule.tick(16_667_666);
    assert_eq!(
        due,
        vec![DueVsync {
            display: DISPLAY,
            timestamp_nanos: 16_667_666,
            period_nanos: 16_666_666,
        }]
    );
    assert_eq!(callback_arguments(&due[0]), Some((9, 16_667_666, 16_666_666)));
    assert_eq!(schedule.wait(16_667_666), VsyncWait::For(16_666_666));
    schedule.callbacks_done(5, 5, &vec![DISPLAY]);
    assert_eq!(schedule.wait(16_667_666), VsyncWait::Idle);
    assert_eq!(schedule.set_enabled(DISPLAY, true, 0, 1), Err(ErrorCode::BadConfig));
    assert_eq!(average_micros(3_000_000, 3), 1_000);
    assert_eq!(average_micros(3_000_000, 0), 0);
    let mut tally = CallbackTally::new();
    tally.count(0, 4);
    tally.count(4, 10);
    assert_eq!((tally.total_nanos, tally.max_nanos), (10, 6));
}

#[test]
fn gl_imports_and_transforms_are_exact() {
    assert!(image_attributes(&metadata(), &vec![3]).is_ok());
    assert!(image_attributes(&metadata(), &vec![]).is_err());
    assert_eq!(
        viewport(&metadata(), 0, (400, 300)),
        Err(GlesError("Denial render target is not framebuffer complete"))
    );
    assert_eq!(blending(1), Ok(Blending::Off));
    assert!(blending(9).is_err());
    let corners = texture_corners(0);
    assert!(!corners.iter().any(|corner| corner.mirror_horizontal || corner.mirror_vertical));
    let mirrored = texture_corners(3);
    assert!(mirrored.iter().all(|corner| corner.mirror_horizontal && corner.mirror_vertical));
    for right in [false, true] {
        for bottom in [false, true] {
            assert!(texture_corners(4)
                .iter()
                .any(|corner| corner.right == right && corner.bottom == bottom));
        }
    }
}
