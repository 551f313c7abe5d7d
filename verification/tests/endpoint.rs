//! The host endpoint of one Android connection, and the records it takes.

use droidloom::endpoint::{
    DenialEndpoint, EndpointAction, EndpointError, EndpointListenerError, EndpointStep,
    ExpectedPeer,
};
use droidloom::ipc::{
    ancillary_count, android_init_descriptor_variable, android_message, android_record,
    check_received, check_send, check_sent, check_storage, denial_message, denial_record,
    init_socket_descriptor, init_socket_variable, require_descriptor_count, socket_address_length,
    IpcError, PeerCredentials,
};
use droidloom::protocol::{
    capability, AndroidDisplayId, AndroidMessage, AndroidTaskId, DenialMessage, InputEvent, NavigationAction,
    ProtocolErrorCode, TaskObjectId, Transform, Visibility, MAX_PACKET_BYTES,
};
use droidloom::transport::{
    BufferId, BufferMetadata, FormatModifier, FrameId, PlaneMetadata, TransportError,
};

/// Send one message over the wire and perform what the endpoint asks for.
fn exchange(
    endpoint: &mut DenialEndpoint,
    message: AndroidMessage,
) -> Result<(EndpointAction, Option<DenialMessage>), EndpointError> {
    let descriptors = match &message {
        AndroidMessage::BindTimelines { .. } => 2,
        AndroidMessage::RegisterBuffer { buffer, .. } => buffer.planes.len(),
        _ => 0,
    };
    let record = android_record(&message, descriptors, Ok(())).unwrap();
    let packet = android_message(&record.bytes, descriptors, Ok(())).unwrap();
    match endpoint.receive_action(packet.message, &packet.descriptors, Ok(()))? {
        EndpointStep::SendHello(hello) => Ok((endpoint.hello_sent(), Some(hello))),
        EndpointStep::ImportTimelines { object } => {
            Ok((endpoint.timelines_imported(object, true)?, None))
        }
        EndpointStep::ExportAcquireFence(frame) => {
            Ok((endpoint.finish_present(frame, true)?, None))
        }
        EndpointStep::ReleaseSuperseded { object, frame, message, .. } => Ok((
            EndpointAction::SupersededPresentDiscarded { object, frame },
            Some(message),
        )),
        EndpointStep::Act(action) => Ok((action, None)),
    }
}

fn hello(capabilities: u64) -> AndroidMessage {
    AndroidMessage::ClientHello { min_major: 1, max_major: 1, capabilities }
}

fn create(object: u64, display: u64) -> AndroidMessage {
    AndroidMessage::CreateTask {
        object: TaskObjectId(object),
        display: AndroidDisplayId(display),
        package: "org.example.app".to_owned(),
    }
}

#[test]
fn exact_peer_policy_rejects_every_identity_mismatch() {
    let expected = ExpectedPeer { pid: 1, uid: 2, gid: 3 };
    assert!(expected.accepts(PeerCredentials { pid: 1, uid: 2, gid: 3 }));
    for actual in [
        PeerCredentials { pid: 4, uid: 2, gid: 3 },
        PeerCredentials { pid: 1, uid: 4, gid: 3 },
        PeerCredentials { pid: 1, uid: 2, gid: 4 },
    ] {
        assert!(!expected.accepts(actual));
    }
}

#[test]
fn development_pid_wildcard_keeps_uid_and_gid_exact() {
    let expected = ExpectedPeer { pid: 0, uid: 1000, gid: 1000 };
    assert!(expected.accepts(PeerCredentials { pid: 42, uid: 1000, gid: 1000 }));
    assert!(!expected.accepts(PeerCredentials { pid: 42, uid: 1001, gid: 1000 }));
    assert!(!expected.accepts(PeerCredentials { pid: 42, uid: 1000, gid: 1001 }));
}

#[test]
fn refused_peers_are_named() {
    let expected = ExpectedPeer { pid: 1, uid: 2, gid: 3 };
    let actual = PeerCredentials { pid: 1, uid: 4, gid: 3 };
    assert!(expected.authorize(PeerCredentials { pid: 1, uid: 2, gid: 3 }).is_ok());
    assert!(matches!(
        expected.authorize(actual),
        Err(EndpointListenerError::UnexpectedPeer { .. })
    ));
}

#[test]
fn hello_selects_required_v1_capabilities() {
    let mut denial = DenialEndpoint::new();
    let (action, reply) = exchange(&mut denial, hello(capability::REQUIRED_V1)).unwrap();
    assert!(matches!(action, EndpointAction::ClientReady));
    assert!(matches!(
        reply.unwrap(),
        DenialMessage::ServerHello { capabilities: capability::REQUIRED_V1, .. }
    ));
}

#[test]
fn activation_requires_mutual_support_and_a_bound_live_task() {
    for (host_support, client_support) in [(false, true), (true, false), (true, true)] {
        let endpoint = DenialEndpoint::new();
        let mut denial = if host_support { endpoint.with_activation_requests() } else { endpoint };
        let capabilities = capability::REQUIRED_V1
            | if client_support { capability::TASK_ACTIVATION } else { 0 };
        let (_, reply) = exchange(&mut denial, hello(capabilities)).unwrap();
        let Some(DenialMessage::ServerHello { capabilities, minor, .. }) = reply else {
            panic!("missing hello")
        };
        let supported = host_support && client_support;
        assert_eq!(capabilities & capability::TASK_ACTIVATION != 0, supported);
        assert_eq!(minor, if supported { 4 } else { 3 });
        let object = TaskObjectId(1);
        // Unknown task, even with the capability.
        assert!(exchange(&mut denial, AndroidMessage::RequestActivation { object }).is_err());
        exchange(&mut denial, create(1, 1)).unwrap();
        // A reserved display is not a bound task.
        assert!(exchange(&mut denial, AndroidMessage::RequestActivation { object }).is_err());
        exchange(&mut denial, AndroidMessage::BindTask { object, task: AndroidTaskId(26) })
            .unwrap();
        // Reopening requests activation of the same object, never a second window.
        for _ in 0..2 {
            let answer = exchange(&mut denial, AndroidMessage::RequestActivation { object });
            if supported {
                assert!(matches!(
                    answer.unwrap().0,
                    EndpointAction::RequestActivation { object: TaskObjectId(1) }
                ));
            } else {
                assert_eq!(answer, Err(EndpointError::IncompatibleClient));
            }
        }
    }
}

#[test]
fn every_android_task_becomes_an_independent_native_action() {
    let mut denial = DenialEndpoint::new();
    exchange(&mut denial, hello(capability::REQUIRED_V1)).unwrap();
    for (object, task, display) in [(1, 11, 101), (2, 12, 102)] {
        let (action, _) = exchange(
            &mut denial,
            AndroidMessage::CreateTask {
                object: TaskObjectId(object),
                display: AndroidDisplayId(display),
                package: format!("org.example.app{task}"),
            },
        )
        .unwrap();
        assert!(matches!(
            action,
            EndpointAction::CreateTask { object: TaskObjectId(value), .. } if value == object
        ));
        let (action, _) = exchange(
            &mut denial,
            AndroidMessage::BindTask {
                object: TaskObjectId(object),
                task: AndroidTaskId(task),
            },
        )
        .unwrap();
        assert!(matches!(
            action,
            EndpointAction::BindTask {
                object: TaskObjectId(value),
                task: AndroidTaskId(bound),
            } if value == object && bound == task
        ));
    }
}

#[test]
fn task_messages_before_hello_fail_closed() {
    let mut denial = DenialEndpoint::new();
    assert_eq!(
        exchange(&mut denial, create(1, 1)),
        Err(EndpointError::HandshakeRequired)
    );
}

#[test]
fn a_second_hello_and_an_incompatible_client_are_refused() {
    let mut denial = DenialEndpoint::new();
    assert_eq!(exchange(&mut denial, hello(0)), Err(EndpointError::IncompatibleClient));
    assert!(!denial.is_ready());
    exchange(&mut denial, hello(capability::REQUIRED_V1)).unwrap();
    assert!(denial.is_ready());
    assert_eq!(
        exchange(&mut denial, hello(capability::REQUIRED_V1)),
        Err(EndpointError::RepeatedHandshake)
    );
}

#[test]
fn identities_belong_to_one_live_task() {
    let mut denial = DenialEndpoint::new();
    exchange(&mut denial, hello(capability::REQUIRED_V1)).unwrap();
    exchange(&mut denial, create(1, 1)).unwrap();
    assert_eq!(exchange(&mut denial, create(1, 2)), Err(EndpointError::DuplicateIdentity));
    assert_eq!(exchange(&mut denial, create(2, 1)), Err(EndpointError::DuplicateIdentity));
    assert_eq!(
        exchange(&mut denial, AndroidMessage::DestroyTask { object: TaskObjectId(9) }),
        Err(EndpointError::UnknownObject(TaskObjectId(9)))
    );
    exchange(&mut denial, AndroidMessage::DestroyTask { object: TaskObjectId(1) }).unwrap();
    exchange(&mut denial, create(1, 1)).unwrap();
}

const OBJECT: TaskObjectId = TaskObjectId(1);
const FORMAT: FormatModifier = FormatModifier { fourcc: 875_713_112, modifier: 0 };

fn buffer() -> BufferMetadata {
    BufferMetadata {
        id: BufferId(11),
        width: 800,
        height: 600,
        format: FORMAT,
        planes: vec![PlaneMetadata { index: 0, offset: 0, stride: 3_200 }],
    }
}

/// Endpoint with one configured task that owns one buffer.
fn configured() -> DenialEndpoint {
    let mut denial = DenialEndpoint::new();
    exchange(&mut denial, hello(capability::REQUIRED_V1)).unwrap();
    exchange(&mut denial, create(1, 1)).unwrap();
    exchange(&mut denial, AndroidMessage::BindTimelines { object: OBJECT }).unwrap();
    denial.send_format_feedback(OBJECT, 1, vec![FORMAT]).unwrap();
    denial
        .send_configure(OBJECT, 5, 800, 600, 1, 1, Transform::Normal, 60_000)
        .unwrap();
    exchange(&mut denial, AndroidMessage::AckConfigure { object: OBJECT, serial: 5 }).unwrap();
    exchange(&mut denial, AndroidMessage::RegisterBuffer { object: OBJECT, buffer: buffer() })
        .unwrap();
    denial
}

fn present(frame: u64, point: u64) -> AndroidMessage {
    AndroidMessage::Present {
        object: OBJECT,
        frame: FrameId(frame),
        buffer: BufferId(11),
        configure_serial: 5,
        acquire_point: point,
        release_point: point,
        damage: Vec::new(),
    }
}

#[test]
fn a_presented_frame_is_released_once() {
    let mut denial = configured();
    let (action, _) = exchange(&mut denial, present(1, 1)).unwrap();
    assert!(matches!(action, EndpointAction::Present { .. }));
    assert!(exchange(&mut denial, present(2, 2)).is_err());
    assert_eq!(
        denial.finish_release(OBJECT, FrameId(1)),
        Ok(Some(DenialMessage::BufferReleased {
            object: OBJECT,
            frame: FrameId(1),
            buffer: BufferId(11),
            release_point: 1,
        }))
    );
    assert_eq!(
        denial.finish_release(OBJECT, FrameId(1)),
        Err(EndpointError::UnknownFrame { object: OBJECT, frame: FrameId(1) })
    );
    exchange(&mut denial, present(2, 2)).unwrap();
}

#[test]
fn a_retired_task_is_removed_with_its_last_frame() {
    let mut denial = configured();
    exchange(&mut denial, present(1, 1)).unwrap();
    exchange(&mut denial, AndroidMessage::DestroyTask { object: OBJECT }).unwrap();
    assert_eq!(denial.finish_release(OBJECT, FrameId(1)), Ok(None));
    assert_eq!(
        denial.finish_release(OBJECT, FrameId(1)),
        Err(EndpointError::UnknownObject(OBJECT))
    );
    exchange(&mut denial, create(1, 1)).unwrap();
}

#[test]
fn a_frame_of_a_superseded_configure_is_discarded() {
    let mut denial = configured();
    denial
        .send_configure(OBJECT, 6, 400, 300, 1, 1, Transform::Normal, 60_000)
        .unwrap();
    let (action, reply) = exchange(&mut denial, present(1, 1)).unwrap();
    assert_eq!(
        action,
        EndpointAction::SupersededPresentDiscarded { object: OBJECT, frame: FrameId(1) }
    );
    assert_eq!(
        reply,
        Some(DenialMessage::BufferReleased {
            object: OBJECT,
            frame: FrameId(1),
            buffer: BufferId(11),
            release_point: 1,
        })
    );
}

#[test]
fn host_events_name_a_live_task() {
    let denial = configured();
    assert_eq!(
        denial.send_close(OBJECT),
        Ok(DenialMessage::Close { object: OBJECT })
    );
    assert_eq!(
        denial.send_close(TaskObjectId(2)),
        Err(EndpointError::UnknownObject(TaskObjectId(2)))
    );
    assert_eq!(
        denial.send_visibility(OBJECT, Visibility::Visible, true),
        Ok(DenialMessage::Visibility {
            object: OBJECT,
            visibility: Visibility::Visible,
            focused: true,
        })
    );
    assert!(denial
        .send_input(
            OBJECT,
            1,
            2,
            InputEvent::Navigation { action: NavigationAction::Back },
        )
        .is_ok());
    assert!(matches!(
        denial.send_fatal(Some(OBJECT), ProtocolErrorCode::InvalidMessage, 3, "bad".to_owned()),
        DenialMessage::Error { .. }
    ));
}

#[test]
fn android_init_socket_name_matches_descriptor_sanitization() {
    assert_eq!(
        android_init_descriptor_variable("droidloom-task-control"),
        "ANDROID_SOCKET_droidloom_task_control"
    );
    assert_eq!(
        android_init_descriptor_variable("already_valid"),
        "ANDROID_SOCKET_already_valid"
    );
}

#[test]
fn descriptor_mismatch_fails_before_sending() {
    let message = AndroidMessage::BindTimelines { object: TaskObjectId(7) };
    assert_eq!(
        android_record(&message, 0, Ok(())),
        Err(IpcError::DescriptorMismatch { expected: 2, actual: 0 })
    );
    assert!(android_record(&message, 2, Ok(())).is_ok());
}

#[test]
fn records_are_bounded_in_both_directions() {
    assert_eq!(check_send(0, 0), Err(IpcError::Truncated));
    assert_eq!(check_send(MAX_PACKET_BYTES + 1, 0), Err(IpcError::Truncated));
    assert!(matches!(check_send(1, 100), Err(IpcError::DescriptorLimit { actual: 100, .. })));
    assert_eq!(check_send(1, 0), Ok(()));
    assert_eq!(check_sent(8, 8), Ok(()));
    assert_eq!(check_sent(8, -1), Err(IpcError::Io));
    assert_eq!(check_sent(8, 7), Err(IpcError::ShortSend { expected: 8, actual: 7 }));
    assert_eq!(check_storage(0), Err(IpcError::Truncated));
    assert_eq!(check_storage(128), Ok(()));
    assert_eq!(check_received(-1, false, 0), Err(IpcError::Io));
    assert_eq!(check_received(0, false, 0), Err(IpcError::PeerClosed));
    assert_eq!(check_received(8, true, 0), Err(IpcError::Truncated));
    assert_eq!(check_received(8, false, 0), Ok(()));
    assert_eq!(ancillary_count(true, 24, 16), Ok(2));
    assert_eq!(ancillary_count(true, 25, 16), Err(IpcError::InvalidAncillary));
    assert_eq!(ancillary_count(true, 16, 16), Err(IpcError::InvalidAncillary));
    assert_eq!(ancillary_count(false, 24, 16), Err(IpcError::InvalidAncillary));
    assert_eq!(
        require_descriptor_count(2, 1),
        Err(IpcError::DescriptorMismatch { expected: 2, actual: 1 })
    );
}

#[test]
fn socket_names_and_paths_are_validated() {
    assert!(matches!(init_socket_variable(""), Err(IpcError::InvalidInitSocket(_))));
    assert_eq!(
        init_socket_variable("denial"),
        Ok("ANDROID_SOCKET_denial".to_owned())
    );
    assert_eq!(socket_address_length(b"/run/denial", 2, 108), Ok(14));
    assert_eq!(socket_address_length(b"", 2, 108), Err(IpcError::InvalidPath));
    assert_eq!(socket_address_length(b"/a\0b", 2, 108), Err(IpcError::InvalidPath));
    assert_eq!(socket_address_length(&[b'a'; 108], 2, 108), Err(IpcError::InvalidPath));
}

#[test]
fn denial_records_round_trip() {
    let message = DenialMessage::Ping { cookie: 3 };
    let record = denial_record(&message, 0, Ok(())).unwrap();
    assert_eq!(denial_message(&record.bytes, 0, Ok(())).unwrap().message, message);
    assert!(matches!(
        denial_message(&record.bytes, 1, Ok(())),
        Err(IpcError::Wire(_))
    ));
    let buffer = AndroidMessage::RegisterBuffer { object: OBJECT, buffer: buffer() };
    assert!(android_record(&buffer, 1, Err(TransportError::Rejected)).is_err());
}

#[test]
fn init_sockets_are_numbered_descriptors() {
    assert_eq!(init_socket_descriptor("control", Some("5")), Ok(5));
    assert_eq!(init_socket_descriptor("control", Some("+5")), Ok(5));
    assert_eq!(init_socket_descriptor("control", Some("-0")), Ok(0));
    assert_eq!(init_socket_descriptor("control", Some("2147483647")), Ok(2_147_483_647));
    for value in [None, Some(""), Some("-1"), Some("-"), Some("5 "), Some("2147483648")] {
        assert_eq!(
            init_socket_descriptor("control", value),
            Err(IpcError::InvalidInitSocket("control".to_owned()))
        );
    }
}
