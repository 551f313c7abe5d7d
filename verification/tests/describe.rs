//! Texts of the errors.

use droidloom::composer::denial::DenialBridgeError;
use droidloom::composer::{ComposerError, DisplayId, LayerId, PowerMode, TaskWindowError};
use droidloom::endpoint::{EndpointError, EndpointListenerError};
use droidloom::ipc::IpcError;
use droidloom::protocol::state::TaskStateError;
use droidloom::protocol::{DescriptorKind, TaskObjectId, WireError};
use droidloom::sink::DenialSinkError;
use droidloom::transport::{BufferId, FrameId, TransportError};

#[test]
fn packet_errors_name_what_is_wrong() {
    assert_eq!(
        WireError::ShortHeader.describe(""),
        "packet is shorter than the 32-byte header"
    );
    assert_eq!(WireError::PacketTooLarge.describe(""), "packet exceeds the 65536-byte bound");
    assert_eq!(
        WireError::UnsupportedVersion { major: 2, minor: 0 }.describe(""),
        "unsupported protocol version 2.0"
    );
    for (opcode, text) in [(0x2a, "0x002a"), (0xf1e2, "0xf1e2"), (0, "0x0000")] {
        assert_eq!(
            WireError::UnknownOpcode(opcode).describe(""),
            format!("unknown or wrong-direction opcode {text}")
        );
    }
    assert_eq!(
        WireError::DescriptorCount { expected: 2, actual: 1 }.describe(""),
        "expected 2 descriptors but received 1"
    );
    assert_eq!(WireError::InvalidString { field: "package" }.describe(""), "invalid package string");
    assert_eq!(
        WireError::InvalidEnum { field: "transform", value: 9 }.describe(""),
        "invalid transform value 9"
    );
    assert_eq!(
        WireError::Limit { field: "damage" }.describe(""),
        "damage exceeds its protocol bound"
    );
    let refused = WireError::Transport(TransportError::Rejected);
    assert_eq!(refused.describe("no planes"), "no planes");
}

#[test]
fn task_object_errors_name_both_sides() {
    assert_eq!(
        TaskStateError::WrongObject { expected: TaskObjectId(7), actual: TaskObjectId(8) }
            .describe(""),
        "message addressed task object TaskObjectId(8); expected TaskObjectId(7)"
    );
    assert_eq!(
        TaskStateError::StaleConfigure { expected: 5, actual: 4 }.describe(""),
        "configure serial 4 does not match latest serial 5"
    );
    assert_eq!(
        TaskStateError::UnknownFrame(FrameId(3)).describe(""),
        "frame FrameId(3) is not in flight"
    );
    assert_eq!(
        TaskStateError::TimelineRegression { timeline: "acquire", previous: 6, actual: 5 }
            .describe(""),
        "acquire timeline point 5 is not newer than 6"
    );
    assert_eq!(
        TaskStateError::Wire(WireError::InvalidMagic).describe(""),
        "invalid protocol magic"
    );
}

#[test]
fn composer_errors_reach_through_their_wrappers() {
    let unknown =
        ComposerError::UnknownDisplay { expected: DisplayId(1), actual: DisplayId(2) };
    assert_eq!(
        unknown.describe(""),
        "display DisplayId(2) is unknown; this composer owns DisplayId(1)"
    );
    assert_eq!(
        ComposerError::UnsupportedPowerMode(PowerMode::DozeSuspend).describe(""),
        "power mode DozeSuspend is unsupported"
    );
    assert_eq!(
        ComposerError::NonMonotonicPresentation { previous: 9, actual: 8 }.describe(""),
        "presentation timestamp 8 precedes 9"
    );
    let protected = DenialBridgeError::Composer(ComposerError::ProtectedContent(LayerId(4)));
    assert_eq!(
        DenialSinkError::Bridge(protected).describe(""),
        "protected layer LayerId(4) is unsupported"
    );
    assert_eq!(
        DenialBridgeError::Task(TaskWindowError::InvalidPackage).describe(""),
        "package identity is invalid"
    );
    let transport = ComposerError::Transport(TransportError::MissingFence);
    assert_eq!(DenialSinkError::Composer(transport).describe("fence is missing"), "fence is missing");
}

#[test]
fn presentation_errors_name_their_display_or_buffer() {
    assert_eq!(
        DenialSinkError::UnknownDisplay(DisplayId(3)).describe(""),
        "Denial task display DisplayId(3) is not registered"
    );
    assert_eq!(
        DenialSinkError::UnknownRenderTarget(BufferId(11)).describe(""),
        "Denial revoked unknown render target BufferId(11)"
    );
    assert_eq!(
        DenialSinkError::Graphics("no extent".to_owned()).describe(""),
        "Droidloom layer composition failed: no extent"
    );
    assert_eq!(DenialSinkError::Syncobj.describe("ioctl failed"), "ioctl failed");
}

#[test]
fn socket_and_endpoint_errors_have_texts() {
    assert_eq!(IpcError::Io.describe("broken pipe"), "socket I/O failed: broken pipe");
    assert_eq!(
        IpcError::InvalidInitSocket("control".to_owned()).describe(""),
        "invalid or missing Android init socket control"
    );
    assert_eq!(
        IpcError::ShortSend { expected: 32, actual: 31 }.describe(""),
        "short sequenced-packet send: 31 of 32 bytes"
    );
    assert_eq!(IpcError::Wire(WireError::Truncated).describe(""), "truncated message payload");
    assert_eq!(
        EndpointError::MissingDescriptor(DescriptorKind::ReleaseTimeline).describe(""),
        "Droidloom packet omitted descriptor role ReleaseTimeline"
    );
    assert_eq!(
        EndpointError::UnknownFrame { object: TaskObjectId(7), frame: FrameId(3) }.describe(""),
        "Droidloom frame FrameId(3) is not pending for task TaskObjectId(7)"
    );
    assert_eq!(
        EndpointError::State(TaskStateError::BufferLimit).describe(""),
        "registered buffer limit reached"
    );
    assert_eq!(
        EndpointListenerError::UnexpectedPeer {
            expected_pid: 0,
            expected_uid: 1,
            expected_gid: 2,
            actual_pid: 3,
            actual_uid: 4,
            actual_gid: 5,
        }
        .describe(""),
        "rejected Droidloom peer pid=3 uid=4 gid=5; expected pid=0 (0 is the development \
         wildcard) uid=1 gid=2"
    );
}
