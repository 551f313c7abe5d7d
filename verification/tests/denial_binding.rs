//! Binding one Denial task object to one task display.

use droidloom::composer::denial::{AppliedDenialEvent, DenialBridgeError, DenialTaskBinding};
use droidloom::composer::hwc3::Session;
use droidloom::composer::{
    ClientTarget, Composition, DisplayId, LayerId, LayerState, PowerMode, ReservedTaskWindowSpec,
    TaskId, TaskWindowSpec,
};
use droidloom::protocol::android::encode_android;
use droidloom::protocol::{
    presentation_flag, AndroidDisplayId, AndroidMessage, AndroidTaskId, DenialMessage,
    TaskObjectId, Transform, Visibility,
};
use droidloom::transport::{
    AcceptedFrame, BufferId, BufferMetadata, Configure, Damage, FormatModifier, FrameId,
    PlaneMetadata, ReleasedFrame, TransportError,
};

/// No event but a release reads how the transport answers one.
const UNREAD: Result<ReleasedFrame, TransportError> = Err(TransportError::Rejected);

fn accepted(target: &ClientTarget) -> AcceptedFrame {
    AcceptedFrame {
        frame_id: FrameId(1),
        buffer: target.buffer.clone(),
        damage: target.damage.clone(),
        requires_acquire_fence: target.has_acquire_fence,
    }
}

const FORMAT: FormatModifier = FormatModifier {
    fourcc: u32::from_le_bytes(*b"XR24"),
    modifier: 0,
};

fn setup() -> (Session, DenialTaskBinding) {
    let spec = TaskWindowSpec {
        task: TaskId(42),
        display: DisplayId(9),
        package: "org.example.app".to_owned(),
    };
    let mut session = Session::default();
    session.create_task_window(spec.clone()).unwrap();
    let mut binding = DenialTaskBinding::new(
        TaskObjectId(7),
        &ReservedTaskWindowSpec {
            display: spec.display,
            package: spec.package.clone(),
        },
    )
    .unwrap();
    assert_eq!(
        binding.create_task_message(),
        AndroidMessage::CreateTask {
            object: TaskObjectId(7),
            display: AndroidDisplayId(9),
            package: "org.example.app".to_owned(),
        }
    );
    assert_eq!(
        binding.bind_task_message(TaskId(42)).unwrap(),
        AndroidMessage::BindTask {
            object: TaskObjectId(7),
            task: AndroidTaskId(42),
        }
    );
    binding.mark_task_bound(TaskId(42)).unwrap();
    (session, binding)
}

fn configure(session: &mut Session, binding: &mut DenialTaskBinding) {
    binding
        .apply_event(
            session,
            &DenialMessage::FormatFeedback {
                object: TaskObjectId(7),
                generation: 1,
                formats: vec![FORMAT],
            },
            UNREAD,
        )
        .unwrap();
    binding
        .apply_event(
            session,
            &DenialMessage::Configure {
                object: TaskObjectId(7),
                serial: 5,
                width: 800,
                height: 600,
                scale_numerator: 1,
                scale_denominator: 1,
                transform: Transform::Normal,
                refresh_millihz: 60_000,
            },
            UNREAD,
        )
        .unwrap();
    assert_eq!(
        binding.acknowledge_configure(session, 5, Ok(())).unwrap(),
        AndroidMessage::AckConfigure {
            object: TaskObjectId(7),
            serial: 5,
        }
    );
}

#[test]
fn host_events_update_only_the_bound_task_display() {
    let (mut session, mut binding) = setup();
    configure(&mut session, &mut binding);
    assert_eq!(
        binding.apply_event(
            &mut session,
            &DenialMessage::Visibility {
                object: TaskObjectId(8),
                visibility: Visibility::Visible,
                focused: true,
            },
            UNREAD,
        ),
        Err(DenialBridgeError::WrongObject {
            expected: TaskObjectId(7),
            actual: TaskObjectId(8),
        })
    );
    assert_eq!(
        session
            .windows()
            .composer_for_display(DisplayId(9))
            .unwrap()
            .latest_configure(),
        Some(Configure {
            serial: 5,
            width: 800,
            height: 600,
            refresh_millihz: 60_000,
        })
    );
}

#[test]
fn accepted_composer_frame_becomes_one_descriptor_free_present() {
    let (mut session, mut binding) = setup();
    configure(&mut session, &mut binding);
    let composer = session
        .windows_mut()
        .composer_for_display_mut(DisplayId(9))
        .unwrap();
    composer
        .set_power_mode(DisplayId(9), PowerMode::On)
        .unwrap();
    composer
        .create_layer(
            DisplayId(9),
            LayerState {
                id: LayerId(1),
                requested_composition: Composition::Client,
                z: 0,
                protected_content: false,
            },
        )
        .unwrap();
    composer.validate_display(DisplayId(9)).unwrap();
    composer.accept_display_changes(DisplayId(9)).unwrap();
    composer
        .set_client_target(
            DisplayId(9),
            ClientTarget {
                buffer: BufferMetadata {
                    id: BufferId(11),
                    width: 800,
                    height: 600,
                    format: FORMAT,
                    planes: vec![PlaneMetadata {
                        index: 0,
                        offset: 0,
                        stride: 3_200,
                    }],
                },
                damage: vec![Damage {
                    x: 0,
                    y: 0,
                    width: 800,
                    height: 600,
                }],
                has_acquire_fence: true,
            },
        )
        .unwrap();
    let frame = {
        let outcome = Ok(accepted(composer.present_request(DisplayId(9)).unwrap()));
        composer.present_display(DisplayId(9), outcome).unwrap().frame
    };
    let prepared = binding.prepare_present(DisplayId(9), &frame).unwrap();
    let AndroidMessage::Present {
        acquire_point,
        release_point,
        ..
    } = prepared.message
    else {
        panic!("expected present")
    };
    assert_eq!((acquire_point, release_point), (1, 1));
    let encoded = encode_android(
        &AndroidMessage::Present {
        object: TaskObjectId(7),
        frame: frame.frame_id,
        buffer: frame.buffer.id,
        configure_serial: 5,
        acquire_point,
        release_point,
        damage: frame.damage,
        },
        Ok(()),
    )
    .unwrap();
    assert!(encoded.descriptors.is_empty());
}

#[test]
fn release_and_presentation_events_return_to_composer() {
    let (mut session, mut binding) = setup();
    configure(&mut session, &mut binding);
    let composer = session
        .windows_mut()
        .composer_for_display_mut(DisplayId(9))
        .unwrap();
    composer
        .set_power_mode(DisplayId(9), PowerMode::On)
        .unwrap();
    composer.set_vsync_enabled(DisplayId(9), true).unwrap();
    composer
        .create_layer(
            DisplayId(9),
            LayerState {
                id: LayerId(1),
                requested_composition: Composition::Client,
                z: 0,
                protected_content: false,
            },
        )
        .unwrap();
    composer.validate_display(DisplayId(9)).unwrap();
    composer.accept_display_changes(DisplayId(9)).unwrap();
    composer
        .set_client_target(
            DisplayId(9),
            ClientTarget {
                buffer: BufferMetadata {
                    id: BufferId(11),
                    width: 800,
                    height: 600,
                    format: FORMAT,
                    planes: vec![PlaneMetadata {
                        index: 0,
                        offset: 0,
                        stride: 3_200,
                    }],
                },
                damage: Vec::new(),
                has_acquire_fence: true,
            },
        )
        .unwrap();
    let presented = {
        let outcome = Ok(accepted(composer.present_request(DisplayId(9)).unwrap()));
        composer.present_display(DisplayId(9), outcome).unwrap().frame
    };
    let frame = presented.frame_id;
    binding.prepare_present(DisplayId(9), &presented).unwrap();
    assert!(matches!(
        binding
            .apply_event(
                &mut session,
                &DenialMessage::Presented {
                    object: TaskObjectId(7),
                    frame,
                    timestamp_nanos: 1_000_000_000,
                    refresh_period_nanos: 16_666_666,
                    sequence: 1,
                    flags: presentation_flag::DISPLAYED,
                },
                UNREAD,
            )
            .unwrap(),
        AppliedDenialEvent::Presented(Some(_))
    ));
    assert!(matches!(
        binding
            .apply_event(
                &mut session,
                &DenialMessage::BufferReleased {
                    object: TaskObjectId(7),
                    frame,
                    buffer: BufferId(11),
                    release_point: 1,
                },
                Ok(ReleasedFrame { frame_id: frame, buffer: BufferId(11) }),
            )
            .unwrap(),
        AppliedDenialEvent::BufferReleased(_)
    ));
    assert_eq!(
        session
            .windows()
            .composer_for_display(DisplayId(9))
            .unwrap()
            .in_flight_count(),
        0
    );
}

#[test]
fn an_event_without_an_object_is_refused() {
    let (mut session, mut binding) = setup();
    assert_eq!(
        binding.apply_event(&mut session, &DenialMessage::Ping { cookie: 1 }, UNREAD),
        Err(DenialBridgeError::UnexpectedMessage)
    );
}

#[test]
fn a_cancelled_present_leaves_its_frame_free_and_its_points_used() {
    let (mut session, mut binding) = setup();
    configure(&mut session, &mut binding);
    let frame = AcceptedFrame {
        frame_id: FrameId(3),
        buffer: BufferMetadata {
            id: BufferId(11),
            width: 800,
            height: 600,
            format: FORMAT,
            planes: vec![PlaneMetadata { index: 0, offset: 0, stride: 3_200 }],
        },
        damage: Vec::new(),
        requires_acquire_fence: true,
    };
    let first = binding.prepare_present(DisplayId(9), &frame).unwrap();
    assert!(binding.prepare_present(DisplayId(9), &frame).is_err());
    binding.cancel_unsubmitted_present(FrameId(3), first.release_point).unwrap();
    let second = binding.prepare_present(DisplayId(9), &frame).unwrap();
    assert!(second.release_point > first.release_point);
    assert!(binding.prepare_present(DisplayId(8), &frame).is_err());
}

#[test]
fn a_binding_is_bound_to_one_task() {
    let (_, mut binding) = setup();
    assert_eq!(binding.task(), Some(TaskId(42)));
    assert_eq!(binding.object(), TaskObjectId(7));
    assert_eq!(binding.display(), DisplayId(9));
    assert!(binding.mark_task_bound(TaskId(43)).is_err());
    assert!(binding.bind_task_message(TaskId(43)).is_err());
}
