//! Texts of the errors, as logs and clients see them.
//!
//! An error that passes on what another part of the system said takes that text
//! as `outside`; other errors do not read it.

use vstd::prelude::*;

use crate::composer::denial::DenialBridgeError;
use crate::composer::{ComposerError, PowerMode};
use crate::control::{numbered, numbered_text, window_error_text, window_text};
use crate::endpoint::{EndpointError, EndpointListenerError};
use crate::ipc::IpcError;
use crate::protocol::state::TaskStateError;
use crate::protocol::{DescriptorKind, WireError, HEADER_BYTES, MAX_PACKET_BYTES};
use crate::sink::{DenialSinkError, SinkErrorView};
use crate::text::{append, append_chars, chars_of, decimal, format_number, text_of};

verus! {

/// Digit of a number below sixteen.
pub open spec fn hexadecimal_digit(value: int) -> char {
    "0123456789abcdef"@[value]
}

/// Number with its base and four digits.
pub open spec fn hexadecimal(value: u16) -> Seq<char> {
    "0x"@ + seq![
        hexadecimal_digit(value as int / 4096),
        hexadecimal_digit(value as int / 256 % 16),
        hexadecimal_digit(value as int / 16 % 16),
        hexadecimal_digit(value as int % 16),
    ]
}

fn digit_of(value: u16) -> (digit: char)
    requires
        value < 16,
    ensures
        digit == hexadecimal_digit(value as int),
{
    let digits = chars_of("0123456789abcdef");
    proof {
        reveal_strlit("0123456789abcdef");
    }
    digits[value as usize]
}

fn hexadecimal_text(value: u16) -> (text: String)
    ensures
        text@ == hexadecimal(value),
{
    let mut text = chars_of("0x");
    text.push(digit_of(value / 4096));
    text.push(digit_of(value / 256 % 16));
    text.push(digit_of(value / 16 % 16));
    text.push(digit_of(value % 16));
    assert(text@ =~= hexadecimal(value));
    text_of(&text)
}

/// Name of a power mode in texts.
pub open spec fn power_name(value: PowerMode) -> Seq<char> {
    match value {
        PowerMode::Off => "Off"@,
        PowerMode::On => "On"@,
        PowerMode::Doze => "Doze"@,
        PowerMode::DozeSuspend => "DozeSuspend"@,
    }
}

fn power_label(value: PowerMode) -> (name: &'static str)
    ensures
        name@ == power_name(value),
{
    match value {
        PowerMode::Off => "Off",
        PowerMode::On => "On",
        PowerMode::Doze => "Doze",
        PowerMode::DozeSuspend => "DozeSuspend",
    }
}

/// Name of a descriptor role in texts.
pub open spec fn descriptor_name(value: DescriptorKind) -> Seq<char> {
    match value {
        DescriptorKind::DmabufPlane => "DmabufPlane"@,
        DescriptorKind::LayerStream => "LayerStream"@,
        DescriptorKind::AcquireTimeline => "AcquireTimeline"@,
        DescriptorKind::ReleaseTimeline => "ReleaseTimeline"@,
    }
}

fn descriptor_label(value: DescriptorKind) -> (name: &'static str)
    ensures
        name@ == descriptor_name(value),
{
    match value {
        DescriptorKind::DmabufPlane => "DmabufPlane",
        DescriptorKind::LayerStream => "LayerStream",
        DescriptorKind::AcquireTimeline => "AcquireTimeline",
        DescriptorKind::ReleaseTimeline => "ReleaseTimeline",
    }
}

/// Text of a packet error.
pub open spec fn wire_text(error: WireError, outside: Seq<char>) -> Seq<char> {
    match error {
        WireError::ShortHeader => numbered(
            "packet is shorter than the "@,
            HEADER_BYTES as int,
            "-byte header"@,
        ),
        WireError::PacketTooLarge => numbered(
            "packet exceeds the "@,
            MAX_PACKET_BYTES as int,
            "-byte bound"@,
        ),
        WireError::InvalidMagic => "invalid protocol magic"@,
        WireError::UnsupportedVersion { major, minor } => numbered(
            "unsupported protocol version "@,
            major as int,
            "."@,
        ) + decimal(minor as int),
        WireError::LengthMismatch => "packet payload length does not match its header"@,
        WireError::UnsupportedHeaderBits => "packet contains unsupported header bits"@,
        WireError::UnknownOpcode(opcode) => "unknown or wrong-direction opcode "@
            + hexadecimal(opcode),
        WireError::DescriptorCount { expected, actual } => numbered(
            "expected "@,
            expected as int,
            " descriptors but received "@,
        ) + decimal(actual as int),
        WireError::Truncated => "truncated message payload"@,
        WireError::TrailingBytes => "message payload contains trailing bytes"@,
        WireError::InvalidString { field } => "invalid "@ + field@ + " string"@,
        WireError::InvalidObject => "task object zero is reserved for connection messages"@,
        WireError::InvalidEnum { field, value } => "invalid "@
            + field@ + " value "@ + decimal(value as int),
        WireError::Limit { field } => field@ + " exceeds its protocol bound"@,
        WireError::Transport(_) => outside,
    }
}

impl WireError {
    /// Text of this error.
    pub fn describe(&self, outside: &str) -> (text: String)
        ensures
            text@ == wire_text(*self, outside@),
    {
        match self {
            WireError::ShortHeader => numbered_text(
                "packet is shorter than the ",
                HEADER_BYTES as u64,
                "-byte header",
            ),
            WireError::PacketTooLarge => numbered_text(
                "packet exceeds the ",
                MAX_PACKET_BYTES as u64,
                "-byte bound",
            ),
            WireError::InvalidMagic => "invalid protocol magic".to_owned(),
            WireError::UnsupportedVersion { major, minor } => {
                let mut text = chars_of("unsupported protocol version ");
                append_chars(&mut text, &format_number(*major as u64));
                append(&mut text, ".");
                append_chars(&mut text, &format_number(*minor as u64));
                text_of(&text)
            },
            WireError::LengthMismatch => {
                "packet payload length does not match its header".to_owned()
            },
            WireError::UnsupportedHeaderBits => {
                "packet contains unsupported header bits".to_owned()
            },
            WireError::UnknownOpcode(opcode) => {
                let mut text = chars_of("unknown or wrong-direction opcode ");
                append(&mut text, hexadecimal_text(*opcode).as_str());
                text_of(&text)
            },
            WireError::DescriptorCount { expected, actual } => {
                let mut text = chars_of("expected ");
                append_chars(&mut text, &format_number(*expected as u64));
                append(&mut text, " descriptors but received ");
                append_chars(&mut text, &format_number(*actual as u64));
                text_of(&text)
            },
            WireError::Truncated => "truncated message payload".to_owned(),
            WireError::TrailingBytes => "message payload contains trailing bytes".to_owned(),
            WireError::InvalidString { field } => {
                let mut text = chars_of("invalid ");
                append(&mut text, field);
                append(&mut text, " string");
                text_of(&text)
            },
            WireError::InvalidObject => {
                "task object zero is reserved for connection messages".to_owned()
            },
            WireError::InvalidEnum { field, value } => {
                let mut text = chars_of("invalid ");
                append(&mut text, field);
                append(&mut text, " value ");
                append_chars(&mut text, &format_number(*value));
                text_of(&text)
            },
            WireError::Limit { field } => {
                let mut text = chars_of(field);
                append(&mut text, " exceeds its protocol bound");
                text_of(&text)
            },
            WireError::Transport(_) => outside.to_owned(),
        }
    }
}

/// Text of a task-object error.
pub open spec fn state_text(error: TaskStateError, outside: Seq<char>) -> Seq<char> {
    match error {
        TaskStateError::WrongObject { expected, actual } => numbered(
            numbered(
                "message addressed task object TaskObjectId("@,
                actual.0 as int,
                "); expected TaskObjectId("@,
            ),
            expected.0 as int,
            ")"@,
        ),
        TaskStateError::TimelinesAlreadyBound => "task timelines are already bound"@,
        TaskStateError::TimelinesUnbound => "task timelines are not bound"@,
        TaskStateError::FeedbackRegression { previous, actual } => numbered(
            "format feedback generation "@,
            actual as int,
            " is not newer than "@,
        ) + decimal(previous as int),
        TaskStateError::MissingConfigure => "task has no configure"@,
        TaskStateError::StaleConfigure { expected, actual } => numbered(
            "configure serial "@,
            actual as int,
            " does not match latest serial "@,
        ) + decimal(expected as int),
        TaskStateError::UnacknowledgedConfigure => "latest configure is not acknowledged"@,
        TaskStateError::DuplicateBuffer(buffer) => numbered(
            "buffer BufferId("@,
            buffer.0 as int,
            ") is already registered"@,
        ),
        TaskStateError::BufferLimit => "registered buffer limit reached"@,
        TaskStateError::UnknownBuffer(buffer) => numbered(
            "buffer BufferId("@,
            buffer.0 as int,
            ") is not registered"@,
        ),
        TaskStateError::BufferInFlight(buffer) => numbered(
            "buffer BufferId("@,
            buffer.0 as int,
            ") is still in flight"@,
        ),
        TaskStateError::DuplicateFrame(frame) => numbered(
            "frame FrameId("@,
            frame.0 as int,
            ") is already in flight"@,
        ),
        TaskStateError::UnknownFrame(frame) => numbered(
            "frame FrameId("@,
            frame.0 as int,
            ") is not in flight"@,
        ),
        TaskStateError::ReleaseMismatch => "release tuple does not match the accepted frame"@,
        TaskStateError::TimelineRegression { timeline, previous, actual } => numbered(
            timeline@ + " timeline point "@,
            actual as int,
            " is not newer than "@,
        ) + decimal(previous as int),
        TaskStateError::SizeMismatch => "buffer dimensions do not match the latest configure"@,
        TaskStateError::UnsupportedFormat => {
            "buffer format/modifier is absent from current feedback"@
        },
        TaskStateError::InvalidDamage => "damage rectangle exceeds the registered buffer"@,
        TaskStateError::Wire(error) => wire_text(error, outside),
    }
}

impl TaskStateError {
    /// Text of this error.
    pub fn describe(&self, outside: &str) -> (text: String)
        ensures
            text@ == state_text(*self, outside@),
    {
        match self {
            TaskStateError::WrongObject { expected, actual } => {
                let mut text = chars_of("message addressed task object TaskObjectId(");
                append_chars(&mut text, &format_number(actual.0));
                append(&mut text, "); expected TaskObjectId(");
                append_chars(&mut text, &format_number(expected.0));
                append(&mut text, ")");
                text_of(&text)
            },
            TaskStateError::TimelinesAlreadyBound => "task timelines are already bound".to_owned(),
            TaskStateError::TimelinesUnbound => "task timelines are not bound".to_owned(),
            TaskStateError::FeedbackRegression { previous, actual } => {
                let mut text = chars_of("format feedback generation ");
                append_chars(&mut text, &format_number(*actual as u64));
                append(&mut text, " is not newer than ");
                append_chars(&mut text, &format_number(*previous as u64));
                text_of(&text)
            },
            TaskStateError::MissingConfigure => "task has no configure".to_owned(),
            TaskStateError::StaleConfigure { expected, actual } => {
                let mut text = chars_of("configure serial ");
                append_chars(&mut text, &format_number(*actual as u64));
                append(&mut text, " does not match latest serial ");
                append_chars(&mut text, &format_number(*expected as u64));
                text_of(&text)
            },
            TaskStateError::UnacknowledgedConfigure => {
                "latest configure is not acknowledged".to_owned()
            },
            TaskStateError::DuplicateBuffer(buffer) => numbered_text(
                "buffer BufferId(",
                buffer.0,
                ") is already registered",
            ),
            TaskStateError::BufferLimit => "registered buffer limit reached".to_owned(),
            TaskStateError::UnknownBuffer(buffer) => numbered_text(
                "buffer BufferId(",
                buffer.0,
                ") is not registered",
            ),
            TaskStateError::BufferInFlight(buffer) => numbered_text(
                "buffer BufferId(",
                buffer.0,
                ") is still in flight",
            ),
            TaskStateError::DuplicateFrame(frame) => numbered_text(
                "frame FrameId(",
                frame.0,
                ") is already in flight",
            ),
            TaskStateError::UnknownFrame(frame) => numbered_text(
                "frame FrameId(",
                frame.0,
                ") is not in flight",
            ),
            TaskStateError::ReleaseMismatch => {
                "release tuple does not match the accepted frame".to_owned()
            },
            TaskStateError::TimelineRegression { timeline, previous, actual } => {
                let mut text = chars_of(timeline);
                append(&mut text, " timeline point ");
                append_chars(&mut text, &format_number(*actual));
                append(&mut text, " is not newer than ");
                append_chars(&mut text, &format_number(*previous));
                text_of(&text)
            },
            TaskStateError::SizeMismatch => {
                "buffer dimensions do not match the latest configure".to_owned()
            },
            TaskStateError::UnsupportedFormat => {
                "buffer format/modifier is absent from current feedback".to_owned()
            },
            TaskStateError::InvalidDamage => {
                "damage rectangle exceeds the registered buffer".to_owned()
            },
            TaskStateError::Wire(error) => error.describe(outside),
        }
    }
}

/// Text of a Composer error.
pub open spec fn composer_text(error: ComposerError, outside: Seq<char>) -> Seq<char> {
    match error {
        ComposerError::UnknownDisplay { expected, actual } => numbered(
            numbered(
                "display DisplayId("@,
                actual.0 as int,
                ") is unknown; this composer owns DisplayId("@,
            ),
            expected.0 as int,
            ")"@,
        ),
        ComposerError::DuplicateLayer(layer) => numbered(
            "layer LayerId("@,
            layer.0 as int,
            ") already exists"@,
        ),
        ComposerError::UnknownLayer(layer) => numbered(
            "layer LayerId("@,
            layer.0 as int,
            ") does not exist"@,
        ),
        ComposerError::NotValidated => "display must be validated after its latest state change"@,
        ComposerError::ChangesNotAccepted => "required composition changes have not been accepted"@,
        ComposerError::MissingClientTarget => "present requires one client target"@,
        ComposerError::DisplayOff => "display is powered off"@,
        ComposerError::UnsupportedPowerMode(mode) => "power mode "@
            + power_name(mode) + " is unsupported"@,
        ComposerError::NonMonotonicPresentation { previous, actual } => numbered(
            "presentation timestamp "@,
            actual as int,
            " precedes "@,
        ) + decimal(previous as int),
        ComposerError::MissingRefreshRate => "display configure has no refresh rate"@,
        ComposerError::ProtectedContent(layer) => numbered(
            "protected layer LayerId("@,
            layer.0 as int,
            ") is unsupported"@,
        ),
        ComposerError::Transport(_) => outside,
    }
}

impl ComposerError {
    /// Text of this error.
    pub fn describe(&self, outside: &str) -> (text: String)
        ensures
            text@ == composer_text(*self, outside@),
    {
        match self {
            ComposerError::UnknownDisplay { expected, actual } => {
                let mut text = chars_of("display DisplayId(");
                append_chars(&mut text, &format_number(actual.0));
                append(&mut text, ") is unknown; this composer owns DisplayId(");
                append_chars(&mut text, &format_number(expected.0));
                append(&mut text, ")");
                text_of(&text)
            },
            ComposerError::DuplicateLayer(layer) => numbered_text(
                "layer LayerId(",
                layer.0,
                ") already exists",
            ),
            ComposerError::UnknownLayer(layer) => numbered_text(
                "layer LayerId(",
                layer.0,
                ") does not exist",
            ),
            ComposerError::NotValidated => {
                "display must be validated after its latest state change".to_owned()
            },
            ComposerError::ChangesNotAccepted => {
                "required composition changes have not been accepted".to_owned()
            },
            ComposerError::MissingClientTarget => "present requires one client target".to_owned(),
            ComposerError::DisplayOff => "display is powered off".to_owned(),
            ComposerError::UnsupportedPowerMode(mode) => {
                let mut text = chars_of("power mode ");
                append(&mut text, power_label(*mode));
                append(&mut text, " is unsupported");
                text_of(&text)
            },
            ComposerError::NonMonotonicPresentation { previous, actual } => {
                let mut text = chars_of("presentation timestamp ");
                append_chars(&mut text, &format_number(*actual));
                append(&mut text, " precedes ");
                append_chars(&mut text, &format_number(*previous));
                text_of(&text)
            },
            ComposerError::MissingRefreshRate => "display configure has no refresh rate".to_owned(),
            ComposerError::ProtectedContent(layer) => numbered_text(
                "protected layer LayerId(",
                layer.0,
                ") is unsupported",
            ),
            ComposerError::Transport(_) => outside.to_owned(),
        }
    }
}

/// Text of a bridge error.
pub open spec fn bridge_text(error: DenialBridgeError, outside: Seq<char>) -> Seq<char> {
    match error {
        DenialBridgeError::WrongObject { expected, actual } => numbered(
            numbered(
                "message addressed TaskObjectId("@,
                actual.0 as int,
                "); binding owns TaskObjectId("@,
            ),
            expected.0 as int,
            ")"@,
        ),
        DenialBridgeError::UnexpectedMessage => {
            "message is not a task event handled by the Composer bridge"@
        },
        DenialBridgeError::ReleaseMismatch => {
            "Denial release buffer does not match Composer frame ownership"@
        },
        DenialBridgeError::TimelineExhausted => "DRM syncobj timeline point space exhausted"@,
        DenialBridgeError::Task(error) => window_text(error),
        DenialBridgeError::Composer(error) => composer_text(error, outside),
    }
}

impl DenialBridgeError {
    /// Text of this error.
    pub fn describe(&self, outside: &str) -> (text: String)
        ensures
            text@ == bridge_text(*self, outside@),
    {
        match self {
            DenialBridgeError::WrongObject { expected, actual } => {
                let mut text = chars_of("message addressed TaskObjectId(");
                append_chars(&mut text, &format_number(actual.0));
                append(&mut text, "); binding owns TaskObjectId(");
                append_chars(&mut text, &format_number(expected.0));
                append(&mut text, ")");
                text_of(&text)
            },
            DenialBridgeError::UnexpectedMessage => {
                "message is not a task event handled by the Composer bridge".to_owned()
            },
            DenialBridgeError::ReleaseMismatch => {
                "Denial release buffer does not match Composer frame ownership".to_owned()
            },
            DenialBridgeError::TimelineExhausted => {
                "DRM syncobj timeline point space exhausted".to_owned()
            },
            DenialBridgeError::Task(error) => window_error_text(error),
            DenialBridgeError::Composer(error) => error.describe(outside),
        }
    }
}

/// Text of a socket error.
pub open spec fn ipc_text(error: IpcError, outside: Seq<char>) -> Seq<char> {
    match error {
        IpcError::Io => "socket I/O failed: "@ + outside,
        IpcError::InvalidPath => "invalid Unix socket path"@,
        IpcError::NotSeqPacket => "descriptor is not a Unix SOCK_SEQPACKET socket"@,
        IpcError::InvalidInitSocket(name) => "invalid or missing Android init socket "@ + name@,
        IpcError::DescriptorLimit { actual, maximum } => numbered(
            "packet carries "@,
            actual as int,
            " descriptors; maximum is "@,
        ) + decimal(maximum as int),
        IpcError::DescriptorMismatch { expected, actual } => numbered(
            "message requires "@,
            expected as int,
            " descriptors but caller supplied "@,
        ) + decimal(actual as int),
        IpcError::Truncated => "sequenced packet or ancillary data was truncated"@,
        IpcError::InvalidAncillary => "invalid ancillary descriptor data"@,
        IpcError::ShortSend { expected, actual } => numbered(
            numbered("short sequenced-packet send: "@, actual as int, " of "@),
            expected as int,
            " bytes"@,
        ),
        IpcError::PeerClosed => "peer closed the protocol connection"@,
        IpcError::Wire(error) => wire_text(error, outside),
    }
}

impl IpcError {
    /// Text of this error.
    pub fn describe(&self, outside: &str) -> (text: String)
        ensures
            text@ == ipc_text(*self, outside@),
    {
        match self {
            IpcError::Io => {
                let mut text = chars_of("socket I/O failed: ");
                append(&mut text, outside);
                text_of(&text)
            },
            IpcError::InvalidPath => "invalid Unix socket path".to_owned(),
            IpcError::NotSeqPacket => "descriptor is not a Unix SOCK_SEQPACKET socket".to_owned(),
            IpcError::InvalidInitSocket(name) => {
                let mut text = chars_of("invalid or missing Android init socket ");
                append(&mut text, name.as_str());
                text_of(&text)
            },
            IpcError::DescriptorLimit { actual, maximum } => {
                let mut text = chars_of("packet carries ");
                append_chars(&mut text, &format_number(*actual as u64));
                append(&mut text, " descriptors; maximum is ");
                append_chars(&mut text, &format_number(*maximum as u64));
                text_of(&text)
            },
            IpcError::DescriptorMismatch { expected, actual } => {
                let mut text = chars_of("message requires ");
                append_chars(&mut text, &format_number(*expected as u64));
                append(&mut text, " descriptors but caller supplied ");
                append_chars(&mut text, &format_number(*actual as u64));
                text_of(&text)
            },
            IpcError::Truncated => "sequenced packet or ancillary data was truncated".to_owned(),
            IpcError::InvalidAncillary => "invalid ancillary descriptor data".to_owned(),
            IpcError::ShortSend { expected, actual } => {
                let mut text = chars_of("short sequenced-packet send: ");
                append_chars(&mut text, &format_number(*actual as u64));
                append(&mut text, " of ");
                append_chars(&mut text, &format_number(*expected as u64));
                append(&mut text, " bytes");
                text_of(&text)
            },
            IpcError::PeerClosed => "peer closed the protocol connection".to_owned(),
            IpcError::Wire(error) => error.describe(outside),
        }
    }
}

/// Text of an endpoint error.
pub open spec fn endpoint_text(error: EndpointError, outside: Seq<char>) -> Seq<char> {
    match error {
        EndpointError::HandshakeRequired => "Droidloom message arrived before ClientHello"@,
        EndpointError::RepeatedHandshake => "Droidloom ClientHello was repeated"@,
        EndpointError::IncompatibleClient => {
            "Droidloom client version or required capabilities are incompatible"@
        },
        EndpointError::TaskLimit => "Droidloom task-object capacity reached"@,
        EndpointError::DuplicateIdentity => {
            "Droidloom task object, Android task, or display identity is already live"@
        },
        EndpointError::UnknownObject(object) => numbered(
            "unknown Droidloom task object TaskObjectId("@,
            object.0 as int,
            ")"@,
        ),
        EndpointError::TaskBusy(object) => numbered(
            "Droidloom task TaskObjectId("@,
            object.0 as int,
            ") still has frames in flight"@,
        ),
        EndpointError::MissingDescriptor(kind) => "Droidloom packet omitted descriptor role "@
            + descriptor_name(kind),
        EndpointError::UnknownFrame { object, frame } => numbered(
            numbered(
                "Droidloom frame FrameId("@,
                frame.0 as int,
                ") is not pending for task TaskObjectId("@,
            ),
            object.0 as int,
            ")"@,
        ),
        EndpointError::Ipc => outside,
        EndpointError::State(error) => state_text(error, outside),
        EndpointError::Syncobj => outside,
    }
}

impl EndpointError {
    /// Text of this error.
    pub fn describe(&self, outside: &str) -> (text: String)
        ensures
            text@ == endpoint_text(*self, outside@),
    {
        match self {
            EndpointError::HandshakeRequired => {
                "Droidloom message arrived before ClientHello".to_owned()
            },
            EndpointError::RepeatedHandshake => "Droidloom ClientHello was repeated".to_owned(),
            EndpointError::IncompatibleClient => {
                "Droidloom client version or required capabilities are incompatible".to_owned()
            },
            EndpointError::TaskLimit => "Droidloom task-object capacity reached".to_owned(),
            EndpointError::DuplicateIdentity => {
                "Droidloom task object, Android task, or display identity is already live"
                    .to_owned()
            },
            EndpointError::UnknownObject(object) => numbered_text(
                "unknown Droidloom task object TaskObjectId(",
                object.0,
                ")",
            ),
            EndpointError::TaskBusy(object) => numbered_text(
                "Droidloom task TaskObjectId(",
                object.0,
                ") still has frames in flight",
            ),
            EndpointError::MissingDescriptor(kind) => {
                let mut text = chars_of("Droidloom packet omitted descriptor role ");
                append(&mut text, descriptor_label(*kind));
                text_of(&text)
            },
            EndpointError::UnknownFrame { object, frame } => {
                let mut text = chars_of("Droidloom frame FrameId(");
                append_chars(&mut text, &format_number(frame.0));
                append(&mut text, ") is not pending for task TaskObjectId(");
                append_chars(&mut text, &format_number(object.0));
                append(&mut text, ")");
                text_of(&text)
            },
            EndpointError::Ipc => outside.to_owned(),
            EndpointError::State(error) => error.describe(outside),
            EndpointError::Syncobj => outside.to_owned(),
        }
    }
}

/// Text of a listener error.
pub open spec fn listener_text(error: EndpointListenerError, outside: Seq<char>) -> Seq<char> {
    match error {
        EndpointListenerError::Ipc => outside,
        EndpointListenerError::UnexpectedPeer {
            expected_pid,
            expected_uid,
            expected_gid,
            actual_pid,
            actual_uid,
            actual_gid,
        } => numbered(
            numbered(
                numbered(
                    numbered(
                        numbered("rejected Droidloom peer pid="@, actual_pid as int, " uid="@),
                        actual_uid as int,
                        " gid="@,
                    ),
                    actual_gid as int,
                    "; expected pid="@,
                ),
                expected_pid as int,
                " (0 is the development wildcard) uid="@,
            ),
            expected_uid as int,
            " gid="@,
        ) + decimal(expected_gid as int),
    }
}

impl EndpointListenerError {
    /// Text of this error.
    pub fn describe(&self, outside: &str) -> (text: String)
        ensures
            text@ == listener_text(*self, outside@),
    {
        match self {
            EndpointListenerError::Ipc => outside.to_owned(),
            EndpointListenerError::UnexpectedPeer {
                expected_pid,
                expected_uid,
                expected_gid,
                actual_pid,
                actual_uid,
                actual_gid,
            } => {
                let mut text = chars_of("rejected Droidloom peer pid=");
                append_chars(&mut text, &format_number(*actual_pid as u64));
                append(&mut text, " uid=");
                append_chars(&mut text, &format_number(*actual_uid as u64));
                append(&mut text, " gid=");
                append_chars(&mut text, &format_number(*actual_gid as u64));
                append(&mut text, "; expected pid=");
                append_chars(&mut text, &format_number(*expected_pid as u64));
                append(&mut text, " (0 is the development wildcard) uid=");
                append_chars(&mut text, &format_number(*expected_uid as u64));
                append(&mut text, " gid=");
                append_chars(&mut text, &format_number(*expected_gid as u64));
                text_of(&text)
            },
        }
    }
}

/// Text of a presentation error.
pub open spec fn sink_text(error: SinkErrorView, outside: Seq<char>) -> Seq<char> {
    match error {
        SinkErrorView::DuplicateDisplay(display) => numbered(
            "Denial task display DisplayId("@,
            display.0 as int,
            ") is already registered"@,
        ),
        SinkErrorView::DuplicateObject(object) => numbered(
            "Denial task object TaskObjectId("@,
            object.0 as int,
            ") is already registered"@,
        ),
        SinkErrorView::UnknownDisplay(display) => numbered(
            "Denial task display DisplayId("@,
            display.0 as int,
            ") is not registered"@,
        ),
        SinkErrorView::UnknownObject(object) => numbered(
            "Denial task object TaskObjectId("@,
            object.0 as int,
            ") is not registered"@,
        ),
        SinkErrorView::ConnectionMessage => {
            "connection-scoped Denial message cannot be applied to a task"@
        },
        SinkErrorView::BufferMetadataMismatch(buffer) => numbered(
            "buffer BufferId("@,
            buffer.0 as int,
            ") was reused with different immutable metadata"@,
        ),
        SinkErrorView::PlaneDescriptorMismatch => {
            "DMA-BUF plane descriptor count does not match metadata"@
        },
        SinkErrorView::DuplicateRenderTarget(buffer) => numbered(
            "Denial repeated render target BufferId("@,
            buffer.0 as int,
            ")"@,
        ),
        SinkErrorView::UnknownRenderTarget(buffer) => numbered(
            "Denial revoked unknown render target BufferId("@,
            buffer.0 as int,
            ")"@,
        ),
        SinkErrorView::NoRenderTarget(display) => numbered(
            "Denial display DisplayId("@,
            display.0 as int,
            ") has no idle render target"@,
        ),
        SinkErrorView::Poisoned => "Denial task presentation state lock is poisoned"@,
        SinkErrorView::Bridge(error) => bridge_text(error, outside),
        SinkErrorView::Ipc => outside,
        SinkErrorView::Syncobj => outside,
        SinkErrorView::Graphics(detail) => "Droidloom layer composition failed: "@ + detail,
        SinkErrorView::Composer(error) => composer_text(error, outside),
    }
}

impl DenialSinkError {
    /// Text of this error.
    pub fn describe(&self, outside: &str) -> (text: String)
        ensures
            text@ == sink_text(self@, outside@),
    {
        match self {
            DenialSinkError::DuplicateDisplay(display) => numbered_text(
                "Denial task display DisplayId(",
                display.0,
                ") is already registered",
            ),
            DenialSinkError::DuplicateObject(object) => numbered_text(
                "Denial task object TaskObjectId(",
                object.0,
                ") is already registered",
            ),
            DenialSinkError::UnknownDisplay(display) => numbered_text(
                "Denial task display DisplayId(",
                display.0,
                ") is not registered",
            ),
            DenialSinkError::UnknownObject(object) => numbered_text(
                "Denial task object TaskObjectId(",
                object.0,
                ") is not registered",
            ),
            DenialSinkError::ConnectionMessage => {
                "connection-scoped Denial message cannot be applied to a task".to_owned()
            },
            DenialSinkError::BufferMetadataMismatch(buffer) => numbered_text(
                "buffer BufferId(",
                buffer.0,
                ") was reused with different immutable metadata",
            ),
            DenialSinkError::PlaneDescriptorMismatch => {
                "DMA-BUF plane descriptor count does not match metadata".to_owned()
            },
            DenialSinkError::DuplicateRenderTarget(buffer) => numbered_text(
                "Denial repeated render target BufferId(",
                buffer.0,
                ")",
            ),
            DenialSinkError::UnknownRenderTarget(buffer) => numbered_text(
                "Denial revoked unknown render target BufferId(",
                buffer.0,
                ")",
            ),
            DenialSinkError::NoRenderTarget(display) => numbered_text(
                "Denial display DisplayId(",
                display.0,
                ") has no idle render target",
            ),
            DenialSinkError::Poisoned => {
                "Denial task presentation state lock is poisoned".to_owned()
            },
            DenialSinkError::Bridge(error) => error.describe(outside),
            DenialSinkError::Ipc => outside.to_owned(),
            DenialSinkError::Syncobj => outside.to_owned(),
            DenialSinkError::Graphics(detail) => {
                let mut text = chars_of("Droidloom layer composition failed: ");
                append(&mut text, detail.as_str());
                text_of(&text)
            },
            DenialSinkError::Composer(error) => error.describe(outside),
        }
    }
}

/// Law: how a malformed packet is told.
pub proof fn law_wire_errors_are_told(
    major: u16,
    minor: u16,
    opcode: u16,
    expected: usize,
    actual: usize,
    field: &'static str,
    value: u64,
    inner: crate::transport::TransportError,
    outside: Seq<char>,
)
    ensures
        wire_text(WireError::ShortHeader, outside) == "packet is shorter than the "@ + decimal(32)
            + "-byte header"@,
        wire_text(WireError::PacketTooLarge, outside) == "packet exceeds the "@ + decimal(65_536)
            + "-byte bound"@,
        wire_text(WireError::InvalidMagic, outside) == "invalid protocol magic"@,
        wire_text((WireError::UnsupportedVersion { major, minor }), outside)
            == "unsupported protocol version "@ + decimal(major as int) + "."@
            + decimal(minor as int),
        wire_text(WireError::LengthMismatch, outside)
            == "packet payload length does not match its header"@,
        wire_text(WireError::UnsupportedHeaderBits, outside)
            == "packet contains unsupported header bits"@,
        wire_text(WireError::UnknownOpcode(opcode), outside)
            == "unknown or wrong-direction opcode "@ + hexadecimal(opcode),
        wire_text((WireError::DescriptorCount { expected, actual }), outside) == "expected "@
            + decimal(expected as int) + " descriptors but received "@ + decimal(actual as int),
        wire_text(WireError::Truncated, outside) == "truncated message payload"@,
        wire_text(WireError::TrailingBytes, outside) == "message payload contains trailing bytes"@,
        wire_text((WireError::InvalidString { field }), outside) == "invalid "@ + field@
            + " string"@,
        wire_text(WireError::InvalidObject, outside)
            == "task object zero is reserved for connection messages"@,
        wire_text((WireError::InvalidEnum { field, value }), outside) == "invalid "@ + field@
            + " value "@ + decimal(value as int),
        wire_text((WireError::Limit { field }), outside) == field@ + " exceeds its protocol bound"@,
        wire_text(WireError::Transport(inner), outside) == outside,
{
}

/// Law: how a message that does not fit its task is told.
pub proof fn law_state_errors_are_told(
    expected: crate::protocol::TaskObjectId,
    actual: crate::protocol::TaskObjectId,
    previous: u32,
    next: u32,
    buffer: crate::transport::BufferId,
    frame: crate::transport::FrameId,
    timeline: &'static str,
    point: u64,
    last: u64,
    inner: WireError,
    outside: Seq<char>,
)
    ensures
        state_text((TaskStateError::WrongObject { expected, actual }), outside)
            == "message addressed task object TaskObjectId("@ + decimal(actual.0 as int)
            + "); expected TaskObjectId("@ + decimal(expected.0 as int) + ")"@,
        state_text(TaskStateError::TimelinesAlreadyBound, outside)
            == "task timelines are already bound"@,
        state_text(TaskStateError::TimelinesUnbound, outside) == "task timelines are not bound"@,
        state_text((TaskStateError::FeedbackRegression { previous, actual: next }), outside)
            == "format feedback generation "@ + decimal(next as int) + " is not newer than "@
            + decimal(previous as int),
        state_text(TaskStateError::MissingConfigure, outside) == "task has no configure"@,
        state_text(
            (TaskStateError::StaleConfigure {
                expected: previous,
                actual: next,
            }),
            outside,
        ) == "configure serial "@ + decimal(next as int) + " does not match latest serial "@
            + decimal(previous as int),
        state_text(TaskStateError::UnacknowledgedConfigure, outside)
            == "latest configure is not acknowledged"@,
        state_text(TaskStateError::DuplicateBuffer(buffer), outside) == "buffer BufferId("@
            + decimal(buffer.0 as int) + ") is already registered"@,
        state_text(TaskStateError::BufferLimit, outside) == "registered buffer limit reached"@,
        state_text(TaskStateError::UnknownBuffer(buffer), outside) == "buffer BufferId("@
            + decimal(buffer.0 as int) + ") is not registered"@,
        state_text(TaskStateError::BufferInFlight(buffer), outside) == "buffer BufferId("@
            + decimal(buffer.0 as int) + ") is still in flight"@,
        state_text(TaskStateError::DuplicateFrame(frame), outside) == "frame FrameId("@
            + decimal(frame.0 as int) + ") is already in flight"@,
        state_text(TaskStateError::UnknownFrame(frame), outside) == "frame FrameId("@
            + decimal(frame.0 as int) + ") is not in flight"@,
        state_text(TaskStateError::ReleaseMismatch, outside)
            == "release tuple does not match the accepted frame"@,
        state_text(
            (TaskStateError::TimelineRegression {
                timeline,
                previous: last,
                actual: point,
            }),
            outside,
        ) == timeline@ + " timeline point "@ + decimal(point as int) + " is not newer than "@
            + decimal(last as int),
        state_text(TaskStateError::SizeMismatch, outside)
            == "buffer dimensions do not match the latest configure"@,
        state_text(TaskStateError::UnsupportedFormat, outside)
            == "buffer format/modifier is absent from current feedback"@,
        state_text(TaskStateError::InvalidDamage, outside)
            == "damage rectangle exceeds the registered buffer"@,
        state_text(TaskStateError::Wire(inner), outside) == wire_text(inner, outside),
{
}

/// Law: how a refused operation on a display is told.
pub proof fn law_composer_errors_are_told(
    expected: crate::composer::DisplayId,
    actual: crate::composer::DisplayId,
    layer: crate::composer::LayerId,
    previous: u64,
    timestamp: u64,
    inner: crate::transport::TransportError,
    outside: Seq<char>,
)
    ensures
        composer_text((ComposerError::UnknownDisplay { expected, actual }), outside)
            == "display DisplayId("@ + decimal(actual.0 as int)
            + ") is unknown; this composer owns DisplayId("@ + decimal(expected.0 as int) + ")"@,
        composer_text(ComposerError::DuplicateLayer(layer), outside) == "layer LayerId("@
            + decimal(layer.0 as int) + ") already exists"@,
        composer_text(ComposerError::UnknownLayer(layer), outside) == "layer LayerId("@
            + decimal(layer.0 as int) + ") does not exist"@,
        composer_text(ComposerError::NotValidated, outside)
            == "display must be validated after its latest state change"@,
        composer_text(ComposerError::ChangesNotAccepted, outside)
            == "required composition changes have not been accepted"@,
        composer_text(ComposerError::MissingClientTarget, outside)
            == "present requires one client target"@,
        composer_text(ComposerError::DisplayOff, outside) == "display is powered off"@,
        composer_text(ComposerError::UnsupportedPowerMode(PowerMode::Doze), outside)
            == "power mode "@ + "Doze"@ + " is unsupported"@,
        composer_text(ComposerError::UnsupportedPowerMode(PowerMode::DozeSuspend), outside)
            == "power mode "@ + "DozeSuspend"@ + " is unsupported"@,
        composer_text(
            (ComposerError::NonMonotonicPresentation {
                previous,
                actual: timestamp,
            }),
            outside,
        ) == "presentation timestamp "@ + decimal(timestamp as int) + " precedes "@
            + decimal(previous as int),
        composer_text(ComposerError::MissingRefreshRate, outside)
            == "display configure has no refresh rate"@,
        composer_text(ComposerError::ProtectedContent(layer), outside)
            == "protected layer LayerId("@ + decimal(layer.0 as int) + ") is unsupported"@,
        composer_text(ComposerError::Transport(inner), outside) == outside,
        power_name(PowerMode::Off) == "Off"@,
        power_name(PowerMode::On) == "On"@,
{
}

/// Law: how a refused event of the host is told.
pub proof fn law_bridge_errors_are_told(
    expected: crate::protocol::TaskObjectId,
    actual: crate::protocol::TaskObjectId,
    window: crate::composer::TaskWindowError,
    inner: ComposerError,
    outside: Seq<char>,
)
    ensures
        bridge_text((DenialBridgeError::WrongObject { expected, actual }), outside)
            == "message addressed TaskObjectId("@ + decimal(actual.0 as int)
            + "); binding owns TaskObjectId("@ + decimal(expected.0 as int) + ")"@,
        bridge_text(DenialBridgeError::UnexpectedMessage, outside)
            == "message is not a task event handled by the Composer bridge"@,
        bridge_text(DenialBridgeError::ReleaseMismatch, outside)
            == "Denial release buffer does not match Composer frame ownership"@,
        bridge_text(DenialBridgeError::TimelineExhausted, outside)
            == "DRM syncobj timeline point space exhausted"@,
        bridge_text(DenialBridgeError::Task(window), outside) == window_text(window),
        bridge_text(DenialBridgeError::Composer(inner), outside) == composer_text(inner, outside),
{
}

/// Law: how a failed transport is told.
pub proof fn law_ipc_errors_are_told(
    actual: usize,
    maximum: usize,
    expected: usize,
    inner: WireError,
    outside: Seq<char>,
)
    ensures
        ipc_text(IpcError::Io, outside) == "socket I/O failed: "@ + outside,
        ipc_text(IpcError::InvalidPath, outside) == "invalid Unix socket path"@,
        ipc_text(IpcError::NotSeqPacket, outside)
            == "descriptor is not a Unix SOCK_SEQPACKET socket"@,
        ipc_text((IpcError::DescriptorLimit { actual, maximum }), outside) == "packet carries "@
            + decimal(actual as int) + " descriptors; maximum is "@ + decimal(maximum as int),
        ipc_text((IpcError::DescriptorMismatch { expected, actual }), outside)
            == "message requires "@ + decimal(expected as int)
            + " descriptors but caller supplied "@ + decimal(actual as int),
        ipc_text(IpcError::Truncated, outside)
            == "sequenced packet or ancillary data was truncated"@,
        ipc_text(IpcError::InvalidAncillary, outside) == "invalid ancillary descriptor data"@,
        ipc_text((IpcError::ShortSend { expected, actual }), outside)
            == "short sequenced-packet send: "@ + decimal(actual as int) + " of "@
            + decimal(expected as int) + " bytes"@,
        ipc_text(IpcError::PeerClosed, outside) == "peer closed the protocol connection"@,
        ipc_text(IpcError::Wire(inner), outside) == wire_text(inner, outside),
{
}

/// Law: how a refused message of the cell is told.
pub proof fn law_endpoint_errors_are_told(
    object: crate::protocol::TaskObjectId,
    frame: crate::transport::FrameId,
    inner: TaskStateError,
    outside: Seq<char>,
)
    ensures
        endpoint_text(EndpointError::HandshakeRequired, outside)
            == "Droidloom message arrived before ClientHello"@,
        endpoint_text(EndpointError::RepeatedHandshake, outside)
            == "Droidloom ClientHello was repeated"@,
        endpoint_text(EndpointError::IncompatibleClient, outside)
            == "Droidloom client version or required capabilities are incompatible"@,
        endpoint_text(EndpointError::TaskLimit, outside)
            == "Droidloom task-object capacity reached"@,
        endpoint_text(EndpointError::DuplicateIdentity, outside)
            == "Droidloom task object, Android task, or display identity is already live"@,
        endpoint_text(EndpointError::UnknownObject(object), outside)
            == "unknown Droidloom task object TaskObjectId("@ + decimal(object.0 as int) + ")"@,
        endpoint_text(EndpointError::TaskBusy(object), outside) == "Droidloom task TaskObjectId("@
            + decimal(object.0 as int) + ") still has frames in flight"@,
        endpoint_text(EndpointError::MissingDescriptor(DescriptorKind::DmabufPlane), outside)
            == "Droidloom packet omitted descriptor role "@ + "DmabufPlane"@,
        endpoint_text(EndpointError::MissingDescriptor(DescriptorKind::LayerStream), outside)
            == "Droidloom packet omitted descriptor role "@ + "LayerStream"@,
        endpoint_text(EndpointError::MissingDescriptor(DescriptorKind::AcquireTimeline), outside)
            == "Droidloom packet omitted descriptor role "@ + "AcquireTimeline"@,
        endpoint_text(EndpointError::MissingDescriptor(DescriptorKind::ReleaseTimeline), outside)
            == "Droidloom packet omitted descriptor role "@ + "ReleaseTimeline"@,
        endpoint_text((EndpointError::UnknownFrame { object, frame }), outside)
            == "Droidloom frame FrameId("@ + decimal(frame.0 as int)
            + ") is not pending for task TaskObjectId("@ + decimal(object.0 as int) + ")"@,
        endpoint_text(EndpointError::Ipc, outside) == outside,
        endpoint_text(EndpointError::Syncobj, outside) == outside,
        endpoint_text(EndpointError::State(inner), outside) == state_text(inner, outside),
{
}

/// Law: a refused peer is told with what it is and what was expected.
pub proof fn law_refused_peers_are_told(
    expected_pid: u32,
    expected_uid: u32,
    expected_gid: u32,
    actual_pid: u32,
    actual_uid: u32,
    actual_gid: u32,
    outside: Seq<char>,
)
    ensures
        listener_text(
            (EndpointListenerError::UnexpectedPeer {
                expected_pid,
                expected_uid,
                expected_gid,
                actual_pid,
                actual_uid,
                actual_gid,
            }),
            outside,
        ) == "rejected Droidloom peer pid="@ + decimal(actual_pid as int) + " uid="@
            + decimal(actual_uid as int) + " gid="@ + decimal(actual_gid as int)
            + "; expected pid="@ + decimal(expected_pid as int)
            + " (0 is the development wildcard) uid="@ + decimal(expected_uid as int) + " gid="@
            + decimal(expected_gid as int),
        listener_text(EndpointListenerError::Ipc, outside) == outside,
{
}

/// Law: how a failed presentation is told.
pub proof fn law_sink_errors_are_told(
    display: crate::composer::DisplayId,
    object: crate::protocol::TaskObjectId,
    buffer: crate::transport::BufferId,
    detail: Seq<char>,
    bridge: DenialBridgeError,
    inner: ComposerError,
    outside: Seq<char>,
)
    ensures
        sink_text(SinkErrorView::DuplicateDisplay(display), outside)
            == "Denial task display DisplayId("@ + decimal(display.0 as int)
            + ") is already registered"@,
        sink_text(SinkErrorView::DuplicateObject(object), outside)
            == "Denial task object TaskObjectId("@ + decimal(object.0 as int)
            + ") is already registered"@,
        sink_text(SinkErrorView::UnknownDisplay(display), outside)
            == "Denial task display DisplayId("@ + decimal(display.0 as int)
            + ") is not registered"@,
        sink_text(SinkErrorView::UnknownObject(object), outside)
            == "Denial task object TaskObjectId("@ + decimal(object.0 as int)
            + ") is not registered"@,
        sink_text(SinkErrorView::ConnectionMessage, outside)
            == "connection-scoped Denial message cannot be applied to a task"@,
        sink_text(SinkErrorView::BufferMetadataMismatch(buffer), outside) == "buffer BufferId("@
            + decimal(buffer.0 as int) + ") was reused with different immutable metadata"@,
        sink_text(SinkErrorView::PlaneDescriptorMismatch, outside)
            == "DMA-BUF plane descriptor count does not match metadata"@,
        sink_text(SinkErrorView::DuplicateRenderTarget(buffer), outside)
            == "Denial repeated render target BufferId("@ + decimal(buffer.0 as int) + ")"@,
        sink_text(SinkErrorView::UnknownRenderTarget(buffer), outside)
            == "Denial revoked unknown render target BufferId("@ + decimal(buffer.0 as int) + ")"@,
        sink_text(SinkErrorView::NoRenderTarget(display), outside) == "Denial display DisplayId("@
            + decimal(display.0 as int) + ") has no idle render target"@,
        sink_text(SinkErrorView::Poisoned, outside)
            == "Denial task presentation state lock is poisoned"@,
        sink_text(SinkErrorView::Graphics(detail), outside)
            == "Droidloom layer composition failed: "@ + detail,
        sink_text(SinkErrorView::Ipc, outside) == outside,
        sink_text(SinkErrorView::Syncobj, outside) == outside,
        sink_text(SinkErrorView::Bridge(bridge), outside) == bridge_text(bridge, outside),
        sink_text(SinkErrorView::Composer(inner), outside) == composer_text(inner, outside),
{
}

/// Law: an opcode is told as `0x` and four digits, from the highest down, each a
/// digit or a letter from `a` to `f`.
pub proof fn law_opcodes_are_told_in_base_sixteen(value: u16, i: int)
    requires
        0 <= i < 4,
    ensures
        hexadecimal(value).len() == 6,
        hexadecimal(value)[0] == '0',
        hexadecimal(value)[1] == 'x',
        ({
            let digit = if i == 0 {
                value as int / 4096
            } else if i == 1 {
                value as int / 256 % 16
            } else if i == 2 {
                value as int / 16 % 16
            } else {
                value as int % 16
            };
            &&& 0 <= digit < 16
            &&& digit < 10 ==> hexadecimal(value)[2 + i] as int == 48 + digit
            &&& digit >= 10 ==> hexadecimal(value)[2 + i] as int == 87 + digit
        }),
{
    reveal_strlit("0x");
    reveal_strlit("0123456789abcdef");
}

} // verus!
