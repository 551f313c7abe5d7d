//! The Denial wire protocol: framing, round trips and the presentation stream
//! of one task.

use droidloom::protocol::android::{self, OP_PRESENT};
use droidloom::protocol::denial::{self, OP_PING};
use droidloom::protocol::state::{serial_precedes, TaskPresentationState, TaskStateError};
use droidloom::protocol::{
    capability, content_state, presentation_flag, AndroidDisplayId, AndroidMessage, AndroidTaskId,
    DecodedPacket, DenialMessage, DescriptorKind, EncodedPacket, InputEvent, KeyAction,
    NavigationAction, ProtocolErrorCode, TaskObjectId, TouchAction, Transform, Visibility,
    WireError, HEADER_BYTES, MAX_BUFFERS_PER_TASK, MAX_DAMAGE_RECTS, MAX_PACKET_BYTES,
    MAX_TASK_OBJECTS,
};
use droidloom::transport::{
    BufferId, BufferMetadata, Damage, FormatModifier, FrameId, PlaneMetadata, TransportError,
};

fn encode_android(message: &AndroidMessage) -> Result<EncodedPacket, WireError> {
    android::encode_android(message, Ok(()))
}

fn decode_android(
    packet: &[u8],
    descriptors: usize,
) -> Result<DecodedPacket<AndroidMessage>, WireError> {
    android::decode_android(packet, descriptors, Ok(()))
}

fn encode_denial(message: &DenialMessage) -> Result<EncodedPacket, WireError> {
    denial::encode_denial(message, Ok(()))
}

fn decode_denial(
    packet: &[u8],
    descriptors: usize,
) -> Result<DecodedPacket<DenialMessage>, WireError> {
    denial::decode_denial(packet, descriptors, Ok(()))
}

const OBJECT: TaskObjectId = TaskObjectId(7);

fn buffer() -> BufferMetadata {
    BufferMetadata {
        id: BufferId(11),
        width: 1080,
        height: 2400,
        format: FormatModifier {
            fourcc: u32::from_le_bytes(*b"XR24"),
            modifier: 0,
        },
        planes: vec![PlaneMetadata {
            index: 0,
            offset: 0,
            stride: 4_320,
        }],
    }
}

fn round_trip_android(message: &AndroidMessage) {
    let encoded = encode_android(message).unwrap();
    let decoded = decode_android(&encoded.bytes, encoded.descriptors.len()).unwrap();
    assert_eq!(&decoded.message, message);
    assert_eq!(decoded.descriptors, encoded.descriptors);
}

fn round_trip_denial(message: &DenialMessage) {
    let encoded = encode_denial(message).unwrap();
    let decoded = decode_denial(&encoded.bytes, encoded.descriptors.len()).unwrap();
    assert_eq!(&decoded.message, message);
    assert_eq!(decoded.descriptors, encoded.descriptors);
}

#[test]
fn activation_does_not_raise_the_wire_version_of_legacy_handshakes() {
    let hello = encode_android(&AndroidMessage::ClientHello {
        min_major: 1, max_major: 1,
        capabilities: capability::REQUIRED_V1 | capability::TASK_ACTIVATION,
    }).unwrap();
    let create = encode_android(&AndroidMessage::CreateTask {
        object: OBJECT, display: AndroidDisplayId(9), package: "org.example.app".into(),
    }).unwrap();
    for legacy in [hello, create] {
        assert_eq!(&legacy.bytes[6..8], &3_u16.to_le_bytes());
    }
    let activation = encode_android(&AndroidMessage::RequestActivation { object: OBJECT }).unwrap();
    assert_eq!(&activation.bytes[6..8], &4_u16.to_le_bytes());
    assert!(activation.descriptors.is_empty());
    assert_eq!(activation.bytes.len(), HEADER_BYTES);
}

#[test]
fn android_control_messages_round_trip() {
    for message in [
        AndroidMessage::ClientHello {
            min_major: 1,
            max_major: 1,
            capabilities: capability::REQUIRED_V1,
        },
        AndroidMessage::CreateTask {
            object: OBJECT,
            display: AndroidDisplayId(9),
            package: "org.example.app".to_owned(),
        },
        AndroidMessage::BindTask {
            object: OBJECT,
            task: AndroidTaskId(42),
        },
        AndroidMessage::AckConfigure {
            object: OBJECT,
            serial: 5,
        },
        AndroidMessage::SetContentState {
            object: OBJECT,
            flags: content_state::OPAQUE,
        },
        AndroidMessage::SetFrameRate {
            object: OBJECT,
            millihz: 120_000,
        },
        AndroidMessage::UnregisterBuffer {
            object: OBJECT,
            buffer: BufferId(11),
        },
        AndroidMessage::DestroyTask { object: OBJECT },
        AndroidMessage::RequestActivation { object: OBJECT },
        AndroidMessage::Pong { cookie: 99 },
    ] {
        round_trip_android(&message);
    }
}

#[test]
fn buffer_registration_names_exact_plane_descriptor_roles() {
    let message = AndroidMessage::RegisterBuffer {
        object: OBJECT,
        buffer: buffer(),
    };
    let encoded = encode_android(&message).unwrap();
    assert_eq!(encoded.descriptors, vec![DescriptorKind::DmabufPlane]);
    assert_eq!(decode_android(&encoded.bytes, 1).unwrap().message, message);
    assert_eq!(
        decode_android(&encoded.bytes, 0),
        Err(WireError::DescriptorCount {
            expected: 1,
            actual: 0,
        })
    );
}

#[test]
fn host_render_target_registration_names_exact_plane_descriptor_roles() {
    let message = DenialMessage::RegisterRenderTarget {
        object: OBJECT,
        configure_serial: 5,
        buffer: buffer(),
    };
    let encoded = encode_denial(&message).unwrap();
    assert_eq!(encoded.descriptors, vec![DescriptorKind::DmabufPlane]);
    assert_eq!(decode_denial(&encoded.bytes, 1).unwrap().message, message);
    assert_eq!(
        decode_denial(&encoded.bytes, 0),
        Err(WireError::DescriptorCount {
            expected: 1,
            actual: 0,
        })
    );
    round_trip_denial(&DenialMessage::UnregisterRenderTarget {
        object: OBJECT,
        buffer: BufferId(11),
    });
}

#[test]
fn timeline_descriptors_are_shared_once_in_fixed_order() {
    let message = AndroidMessage::BindTimelines { object: OBJECT };
    let encoded = encode_android(&message).unwrap();
    assert_eq!(
        encoded.descriptors,
        vec![
            DescriptorKind::AcquireTimeline,
            DescriptorKind::ReleaseTimeline
        ]
    );
    assert_eq!(decode_android(&encoded.bytes, 2).unwrap().message, message);
}

#[test]
fn steady_state_present_is_descriptor_free() {
    let message = AndroidMessage::Present {
        object: OBJECT,
        frame: FrameId(21),
        buffer: BufferId(11),
        configure_serial: 5,
        acquire_point: 17,
        release_point: 18,
        damage: vec![Damage {
            x: 0,
            y: 0,
            width: 1080,
            height: 2400,
        }],
    };
    let encoded = encode_android(&message).unwrap();
    assert!(encoded.descriptors.is_empty());
    round_trip_android(&message);
}

#[test]
fn denial_task_state_round_trips() {
    for message in [
        DenialMessage::ServerHello {
            major: 1,
            minor: 0,
            capabilities: capability::REQUIRED_V1,
            max_task_objects: MAX_TASK_OBJECTS,
            max_buffers_per_task: MAX_BUFFERS_PER_TASK,
            max_damage_rects: u32::try_from(MAX_DAMAGE_RECTS).unwrap(),
        },
        DenialMessage::Configure {
            object: OBJECT,
            serial: 5,
            width: 1080,
            height: 2400,
            scale_numerator: 3,
            scale_denominator: 2,
            transform: Transform::Rotate90,
            refresh_millihz: 120_000,
        },
        DenialMessage::Insets {
            object: OBJECT,
            left: 0,
            top: 96,
            right: 0,
            bottom: 120,
        },
        DenialMessage::Visibility {
            object: OBJECT,
            visibility: Visibility::Visible,
            focused: true,
        },
        DenialMessage::Close { object: OBJECT },
        DenialMessage::BufferReleased {
            object: OBJECT,
            frame: FrameId(21),
            buffer: BufferId(11),
            release_point: 18,
        },
        DenialMessage::Presented {
            object: OBJECT,
            frame: FrameId(21),
            timestamp_nanos: 999,
            refresh_period_nanos: 8_333_333,
            sequence: 300,
            flags: presentation_flag::DISPLAYED | presentation_flag::DIRECT_SCANOUT,
        },
        DenialMessage::Ping { cookie: 99 },
    ] {
        round_trip_denial(&message);
    }
}

#[test]
fn format_feedback_and_all_input_variants_round_trip() {
    round_trip_denial(&DenialMessage::FormatFeedback {
        object: OBJECT,
        generation: 1,
        formats: vec![buffer().format],
    });
    for event in [
        InputEvent::Touch {
            action: TouchAction::Motion,
            pointer_id: 3,
            x_fixed: 10 << 16,
            y_fixed: 20 << 16,
            pressure: 32_768,
        },
        InputEvent::Key {
            action: KeyAction::Down,
            keycode: 30,
            repeat: 0,
        },
        InputEvent::Navigation {
            action: NavigationAction::Back,
        },
    ] {
        round_trip_denial(&DenialMessage::Input {
            object: OBJECT,
            serial: 8,
            timestamp_nanos: 999,
            event,
        });
    }
}

#[test]
fn error_message_may_be_connection_or_task_scoped() {
    for object in [None, Some(OBJECT)] {
        round_trip_denial(&DenialMessage::Error {
            object,
            code: ProtocolErrorCode::InvalidState,
            offending_opcode: OP_PRESENT,
            message: "stale configure".to_owned(),
        });
    }
}

#[test]
fn framing_rejects_mutation_and_direction_confusion() {
    let mut encoded = encode_android(&AndroidMessage::Pong { cookie: 7 }).unwrap();
    encoded.bytes[0] = b'X';
    assert_eq!(
        decode_android(&encoded.bytes, 0),
        Err(WireError::InvalidMagic)
    );

    let denial = encode_denial(&DenialMessage::Ping { cookie: 7 }).unwrap();
    assert_eq!(
        decode_android(&denial.bytes, 0),
        Err(WireError::UnknownOpcode(OP_PING))
    );
}

#[test]
fn malformed_identity_and_unbounded_damage_fail_closed() {
    assert_eq!(
        encode_android(&AndroidMessage::CreateTask {
            object: OBJECT,
            display: AndroidDisplayId(2),
            package: "not/a/package".to_owned(),
        }),
        Err(WireError::InvalidString {
            field: "task identity"
        })
    );
    assert!(matches!(
        encode_android(&AndroidMessage::Present {
            object: OBJECT,
            frame: FrameId(1),
            buffer: BufferId(1),
            configure_serial: 1,
            acquire_point: 1,
            release_point: 1,
            damage: vec![Damage {
                x: u32::MAX,
                y: 0,
                width: 2,
                height: 1,
            }],
        }),
        Err(WireError::Limit {
            field: "damage rectangle"
        })
    ));
}

#[test]
fn trailing_payload_and_unknown_header_bits_are_fatal() {
    let encoded = encode_android(&AndroidMessage::Pong { cookie: 7 }).unwrap();
    let mut trailing = encoded.bytes.clone();
    trailing.push(0);
    assert_eq!(decode_android(&trailing, 0), Err(WireError::LengthMismatch));

    let mut flags = encoded.bytes;
    flags[12] = 1;
    assert_eq!(
        decode_android(&flags, 0),
        Err(WireError::UnsupportedHeaderBits)
    );
}

fn receiver() -> TaskPresentationState {
    let mut state = TaskPresentationState::new(OBJECT).unwrap();
    state.bind_timelines().unwrap();
    state.replace_feedback(1, vec![buffer().format]).unwrap();
    state.configure(5, 1080, 2400, 120_000).unwrap();
    state.acknowledge_configure(5).unwrap();
    state.register_buffer(buffer(), Ok(())).unwrap();
    state
}

#[test]
fn task_receiver_caches_import_and_releases_only_after_signal() {
    let mut state = receiver();
    let damage = vec![Damage {
        x: 0,
        y: 0,
        width: 1080,
        height: 2400,
    }];
    let accepted = state
        .present(OBJECT, FrameId(1), BufferId(11), 5, 7, 8, damage)
        .unwrap();
    assert_eq!(accepted.release_point, 8);
    assert_eq!(state.registered_buffer_count(), 1);
    assert_eq!(state.in_flight_count(), 1);
    assert_eq!(
        state.unregister_buffer(BufferId(11)),
        Err(TaskStateError::BufferInFlight(BufferId(11)))
    );
    assert_eq!(
        state.release(FrameId(1), BufferId(11), 8).unwrap(),
        DenialMessage::BufferReleased {
            object: OBJECT,
            frame: FrameId(1),
            buffer: BufferId(11),
            release_point: 8,
        }
    );
    assert_eq!(state.in_flight_count(), 0);
    assert_eq!(state.unregister_buffer(BufferId(11)).unwrap(), buffer());
}

#[test]
fn task_receiver_rejects_unbound_and_stale_configure_presents() {
    let mut state = TaskPresentationState::new(OBJECT).unwrap();
    state.replace_feedback(1, vec![buffer().format]).unwrap();
    state.configure(5, 1080, 2400, 120_000).unwrap();
    state.acknowledge_configure(5).unwrap();
    state.register_buffer(buffer(), Ok(())).unwrap();
    assert_eq!(
        state.present(OBJECT, FrameId(1), BufferId(11), 5, 1, 1, Vec::new()),
        Err(TaskStateError::TimelinesUnbound)
    );
    state.bind_timelines().unwrap();
    state.configure(6, 1080, 2400, 120_000).unwrap();
    assert_eq!(
        state.present(OBJECT, FrameId(1), BufferId(11), 5, 1, 1, Vec::new()),
        Err(TaskStateError::StaleConfigure {
            expected: 6,
            actual: 5,
        })
    );
    assert_eq!(
        state.present(OBJECT, FrameId(1), BufferId(11), 6, 1, 1, Vec::new()),
        Err(TaskStateError::UnacknowledgedConfigure)
    );
}

#[test]
fn superseded_configure_ack_is_coalesced_without_acknowledging_latest() {
    let mut state = receiver();
    state.configure(6, 1080, 2400, 120_000).unwrap();

    state.acknowledge_configure(5).unwrap();
    assert_eq!(
        state.present(OBJECT, FrameId(1), BufferId(11), 6, 1, 1, Vec::new()),
        Err(TaskStateError::UnacknowledgedConfigure)
    );
    assert_eq!(
        state.acknowledge_configure(7),
        Err(TaskStateError::StaleConfigure {
            expected: 6,
            actual: 7,
        })
    );

    state.acknowledge_configure(6).unwrap();
    state
        .present(OBJECT, FrameId(1), BufferId(11), 6, 1, 1, Vec::new())
        .unwrap();
}

#[test]
fn superseded_present_is_released_without_reviving_a_retired_buffer() {
    let mut state = receiver();
    state.unregister_buffer(BufferId(11)).unwrap();
    state.configure(6, 720, 1280, 120_000).unwrap();

    assert_eq!(
        state
            .discard_superseded_present(OBJECT, FrameId(41), BufferId(11), 5, 7, 8,)
            .unwrap(),
        DenialMessage::BufferReleased {
            object: OBJECT,
            frame: FrameId(41),
            buffer: BufferId(11),
            release_point: 8,
        }
    );
    assert_eq!(state.in_flight_count(), 0);
    assert_eq!(state.registered_buffer_count(), 0);

    assert_eq!(
        state.discard_superseded_present(OBJECT, FrameId(42), BufferId(12), 7, 9, 10,),
        Err(TaskStateError::StaleConfigure {
            expected: 6,
            actual: 7,
        })
    );
}

#[test]
fn task_receiver_rejects_point_regression_and_release_mismatch() {
    let mut state = receiver();
    state
        .present(OBJECT, FrameId(1), BufferId(11), 5, 7, 8, Vec::new())
        .unwrap();
    assert_eq!(
        state.release(FrameId(1), BufferId(99), 8),
        Err(TaskStateError::ReleaseMismatch)
    );
    state.release(FrameId(1), BufferId(11), 8).unwrap();
    assert_eq!(
        state.present(OBJECT, FrameId(2), BufferId(11), 5, 7, 9, Vec::new()),
        Err(TaskStateError::TimelineRegression {
            timeline: "acquire",
            previous: 7,
            actual: 7,
        })
    );
}

#[test]
fn ping_packet_has_exact_bytes() {
    let encoded = encode_denial(&DenialMessage::Ping { cookie: 0x0102_0304_0506_0708 }).unwrap();
    let mut expected = droidloom::protocol::MAGIC.to_vec();
    for half in [1_u16, 3, OP_PING, 0] {
        expected.extend_from_slice(&half.to_le_bytes());
    }
    expected.extend_from_slice(&0_u32.to_le_bytes());
    expected.extend_from_slice(&0_u64.to_le_bytes());
    expected.extend_from_slice(&8_u32.to_le_bytes());
    expected.extend_from_slice(&0_u32.to_le_bytes());
    assert_eq!(expected.len(), HEADER_BYTES);
    expected.extend_from_slice(&0x0102_0304_0506_0708_u64.to_le_bytes());
    assert_eq!(encoded.bytes, expected);
    assert!(encoded.descriptors.is_empty());
}

#[test]
fn refused_metadata_never_reaches_the_wire() {
    let message = AndroidMessage::RegisterBuffer { object: OBJECT, buffer: buffer() };
    let encoded = encode_android(&message).unwrap();
    assert!(android::encode_android(&message, Err(TransportError::Rejected)).is_err());
    assert!(android::decode_android(&encoded.bytes, 1, Err(TransportError::Rejected)).is_err());
    assert_eq!(android::android_buffer(&encoded.bytes, 1), Some(buffer()));
}

#[test]
fn text_that_is_not_utf8_is_refused() {
    let message = AndroidMessage::CreateTask {
        object: OBJECT,
        display: AndroidDisplayId(9),
        package: "org.example.app".to_owned(),
    };
    let mut encoded = encode_android(&message).unwrap();
    let last = encoded.bytes.len() - 1;
    assert_eq!(encoded.bytes[last], b'p');
    assert_eq!(decode_android(&encoded.bytes, 0).unwrap().message, message);
    encoded.bytes[last] = 0xff;
    assert!(matches!(
        decode_android(&encoded.bytes, 0),
        Err(WireError::InvalidString { .. })
    ));
}

#[test]
fn every_framing_error_has_an_input() {
    let encoded = encode_android(&AndroidMessage::Pong { cookie: 7 }).unwrap();
    assert_eq!(decode_android(&encoded.bytes[..31], 0), Err(WireError::ShortHeader));
    assert_eq!(
        decode_android(&vec![0; MAX_PACKET_BYTES + 1], 0),
        Err(WireError::PacketTooLarge)
    );
    let mut version = encoded.bytes.clone();
    version[4] = 2;
    assert!(matches!(
        decode_android(&version, 0),
        Err(WireError::UnsupportedVersion { major: 2, .. })
    ));
    let mut opcode = encoded.bytes.clone();
    opcode[8] = 0x77;
    assert_eq!(decode_android(&opcode, 0), Err(WireError::UnknownOpcode(0x77)));
    assert_eq!(
        decode_android(&encoded.bytes, 1),
        Err(WireError::DescriptorCount { expected: 0, actual: 1 })
    );
}

#[test]
fn serials_are_ordered_across_the_wrap() {
    assert!(serial_precedes(5, 6));
    assert!(!serial_precedes(6, 5));
    assert!(!serial_precedes(6, 6));
    assert!(serial_precedes(u32::MAX, 0));
    assert!(!serial_precedes(0, u32::MAX));
}

#[test]
fn an_unsubmitted_frame_is_undone_and_its_points_stay_used() {
    let mut state = receiver();
    state
        .present(OBJECT, FrameId(1), BufferId(11), 5, 7, 8, Vec::new())
        .unwrap();
    state.cancel_unsubmitted(FrameId(1), BufferId(11), 8).unwrap();
    assert_eq!(state.in_flight_count(), 0);
    assert!(matches!(
        state.present(OBJECT, FrameId(2), BufferId(11), 5, 7, 9, Vec::new()),
        Err(TaskStateError::TimelineRegression { .. })
    ));
    state
        .present(OBJECT, FrameId(2), BufferId(11), 5, 8, 9, Vec::new())
        .unwrap();
}
