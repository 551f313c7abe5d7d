//! Wire contract between the Android cell and the Denial host for task windows
//! and presentation.
//!
//! One packet travels per sequenced-socket record. The platform adapters attach
//! the descriptor roles that the codec names, and keep descriptor ownership.

use vstd::prelude::*;

pub use crate::package::MAX_PACKAGE_BYTES;
pub use crate::transport::{
    BufferId, BufferMetadata, BufferView, Damage, FormatModifier, FrameId, PlaneMetadata,
    TransportError,
};

pub mod android;
pub mod capability;
pub mod codes;
pub mod content_state;
pub mod denial;
pub mod fields;
pub mod packet;
pub mod presentation_flag;
pub mod state;
pub mod wire;

verus! {

/// Four-byte marker at the start of every packet: `DLOM` in ASCII.
pub const MAGIC: [u8; 4] = [0x44, 0x4c, 0x4f, 0x4d];

/// Protocol major implemented by this crate.
pub const PROTOCOL_MAJOR: u16 = 1;

/// Protocol minor implemented by this crate.
pub const PROTOCOL_MINOR: u16 = 4;

/// Wire version retained by existing records, including initial negotiation.
pub const BASE_PROTOCOL_MINOR: u16 = 3;

/// Fixed wire-header size.
pub const HEADER_BYTES: usize = 32;

/// Maximum complete sequenced packet, including its header.
pub const MAX_PACKET_BYTES: usize = 65_536;

/// Maximum ancillary descriptors carried by any version-1 packet.
pub const MAX_PACKET_DESCRIPTORS: usize = 4;

/// Maximum diagnostic error text length in bytes.
pub const MAX_ERROR_BYTES: usize = 1_024;

/// Maximum format/modifier pairs in one feedback generation.
pub const MAX_FORMATS: usize = 256;

/// Maximum damage rectangles in one present.
pub const MAX_DAMAGE_RECTS: usize = 256;

/// Maximum task objects admitted by the v1 protocol.
pub const MAX_TASK_OBJECTS: u32 = 4_096;

/// Maximum registered client-target allocations per task.
pub const MAX_BUFFERS_PER_TASK: u32 = 256;

/// Per-connection object naming one native Denial task window.
#[derive(Clone, Copy, Debug, PartialEq, Eq, PartialOrd, Ord, Structural)]
pub struct TaskObjectId(pub u64);

/// Android framework task identity; treated as an untrusted claim by Denial.
#[derive(Clone, Copy, Debug, PartialEq, Eq, PartialOrd, Ord, Structural)]
pub struct AndroidTaskId(pub u64);

/// Host-managed Android logical display dedicated to one task.
#[derive(Clone, Copy, Debug, PartialEq, Eq, PartialOrd, Ord, Structural)]
pub struct AndroidDisplayId(pub u64);

/// Required meaning and ordering of an attached `SCM_RIGHTS` descriptor.
#[derive(Clone, Copy, Debug, PartialEq, Eq, Structural)]
pub enum DescriptorKind {
    /// One DMA-BUF plane, ordered by its dense plane index.
    DmabufPlane,
    /// Authenticated task-scoped layer request/release socket.
    LayerStream,
    /// Opaque descriptor exporting the task's acquire syncobj timeline.
    AcquireTimeline,
    /// Opaque descriptor exporting the task's release syncobj timeline.
    ReleaseTimeline,
}

/// A validated packet ready for the platform's sequenced-socket adapter.
#[derive(Clone, Debug, PartialEq, Eq)]
pub struct EncodedPacket {
    /// Complete packet bytes, including the fixed header.
    pub bytes: Vec<u8>,
    /// Descriptor roles to attach in exactly this order.
    pub descriptors: Vec<DescriptorKind>,
}

/// A decoded message and the validated roles of received descriptors.
#[derive(Clone, Debug, PartialEq, Eq)]
pub struct DecodedPacket<T> {
    /// Typed protocol message.
    pub message: T,
    /// Descriptor roles received in exactly this order.
    pub descriptors: Vec<DescriptorKind>,
}

/// Android-to-Denial protocol messages.
#[derive(Clone, Debug, PartialEq, Eq)]
#[allow(inconsistent_fields)]
pub enum AndroidMessage {
    /// Start version and capability negotiation for one authenticated cell.
    ClientHello {
        /// Oldest major version the client understands.
        min_major: u16,
        /// Newest major version the client understands.
        max_major: u16,
        /// Feature bits supported by the client.
        capabilities: u64,
    },
    /// Request one native Denial task window and no shared desktop surface.
    CreateTask {
        /// New per-connection task object.
        object: TaskObjectId,
        /// Dedicated Android logical display ID.
        display: AndroidDisplayId,
        /// Requested Android package identity.
        package: String,
    },
    /// Bind the real `ActivityTaskManager` ID after launch on the configured
    /// display. The create phase deliberately carries no synthetic task ID.
    BindTask {
        /// Existing per-connection task object.
        object: TaskObjectId,
        /// Nonzero task ID reported by the privileged Android controller.
        task: AndroidTaskId,
    },
    /// Tear down one task object after every buffer is released.
    DestroyTask {
        /// Task to destroy.
        object: TaskObjectId,
    },
    /// Share acquire and release DRM syncobj timelines for one task.
    BindTimelines {
        /// Task receiving the two timeline descriptors.
        object: TaskObjectId,
    },
    /// Acknowledge the latest Denial size/configuration serial.
    AckConfigure {
        /// Task being configured.
        object: TaskObjectId,
        /// Latest configure serial.
        serial: u32,
    },
    /// Register immutable DMA-BUF metadata and plane descriptors once.
    RegisterBuffer {
        /// Owning task.
        object: TaskObjectId,
        /// Allocation metadata paired with the attached plane descriptors.
        buffer: BufferMetadata,
    },
    /// Retire an idle registered DMA-BUF.
    UnregisterBuffer {
        /// Owning task.
        object: TaskObjectId,
        /// Allocation to retire.
        buffer: BufferId,
    },
    /// Atomically submit damage and syncobj points for a registered buffer.
    Present {
        /// Owning task.
        object: TaskObjectId,
        /// Unique frame identity.
        frame: FrameId,
        /// Previously registered allocation.
        buffer: BufferId,
        /// Configure serial governing this buffer's dimensions.
        configure_serial: u32,
        /// Point Denial must wait for on the acquire timeline.
        acquire_point: u64,
        /// Point Denial must signal on the release timeline.
        release_point: u64,
        /// Buffer-coordinate damage.
        damage: Vec<Damage>,
    },
    /// Delegate two private sockets for layer requests and completion events.
    BindLayerStream {
        /// Existing, authorized task object.
        object: TaskObjectId,
    },
    /// Update opaque/secure/HDR state for following presents.
    SetContentState {
        /// Owning task.
        object: TaskObjectId,
        /// Bitwise [`content_state`] values.
        flags: u32,
    },
    /// Submit a task frame-rate vote; zero withdraws it.
    SetFrameRate {
        /// Owning task.
        object: TaskObjectId,
        /// Requested rate in millihertz.
        millihz: u32,
    },
    /// Ask the host to present an existing task after an Android intent launch.
    /// Requires negotiated `TASK_ACTIVATION`; focus remains host-authoritative.
    RequestActivation {
        /// Existing task to activate.
        object: TaskObjectId,
    },
    /// Answer a host liveness probe.
    Pong {
        /// Cookie copied from the matching host ping.
        cookie: u64,
    },
}

/// Contents of an [`AndroidMessage`].
#[verifier::ext_equal]
#[allow(inconsistent_fields)]
pub enum AndroidView {
    ClientHello {
        min_major: u16,
        max_major: u16,
        capabilities: u64,
    },
    CreateTask {
        object: TaskObjectId,
        display: AndroidDisplayId,
        package: Seq<char>,
    },
    BindTask {
        object: TaskObjectId,
        task: AndroidTaskId,
    },
    DestroyTask {
        object: TaskObjectId,
    },
    BindTimelines {
        object: TaskObjectId,
    },
    AckConfigure {
        object: TaskObjectId,
        serial: u32,
    },
    RegisterBuffer {
        object: TaskObjectId,
        buffer: BufferView,
    },
    UnregisterBuffer {
        object: TaskObjectId,
        buffer: BufferId,
    },
    Present {
        object: TaskObjectId,
        frame: FrameId,
        buffer: BufferId,
        configure_serial: u32,
        acquire_point: u64,
        release_point: u64,
        damage: Seq<Damage>,
    },
    BindLayerStream {
        object: TaskObjectId,
    },
    SetContentState {
        object: TaskObjectId,
        flags: u32,
    },
    SetFrameRate {
        object: TaskObjectId,
        millihz: u32,
    },
    RequestActivation {
        object: TaskObjectId,
    },
    Pong {
        cookie: u64,
    },
}

impl View for AndroidMessage {
    type V = AndroidView;

    open spec fn view(&self) -> AndroidView {
        match *self {
            AndroidMessage::ClientHello {
                min_major,
                max_major,
                capabilities,
            } => AndroidView::ClientHello {
                min_major,
                max_major,
                capabilities,
            },
            AndroidMessage::CreateTask { object, display, package } => AndroidView::CreateTask {
                object,
                display,
                package: package@,
            },
            AndroidMessage::BindTask { object, task } => AndroidView::BindTask { object, task },
            AndroidMessage::DestroyTask { object } => AndroidView::DestroyTask { object },
            AndroidMessage::BindTimelines { object } => AndroidView::BindTimelines { object },
            AndroidMessage::AckConfigure { object, serial } => AndroidView::AckConfigure {
                object,
                serial,
            },
            AndroidMessage::RegisterBuffer { object, buffer } => AndroidView::RegisterBuffer {
                object,
                buffer: buffer@,
            },
            AndroidMessage::UnregisterBuffer { object, buffer } => AndroidView::UnregisterBuffer {
                object,
                buffer,
            },
            AndroidMessage::Present {
                object,
                frame,
                buffer,
                configure_serial,
                acquire_point,
                release_point,
                damage,
            } => AndroidView::Present {
                object,
                frame,
                buffer,
                configure_serial,
                acquire_point,
                release_point,
                damage: damage@,
            },
            AndroidMessage::BindLayerStream { object } => AndroidView::BindLayerStream { object },
            AndroidMessage::SetContentState { object, flags } => AndroidView::SetContentState {
                object,
                flags,
            },
            AndroidMessage::SetFrameRate { object, millihz } => AndroidView::SetFrameRate {
                object,
                millihz,
            },
            AndroidMessage::RequestActivation { object } => AndroidView::RequestActivation {
                object,
            },
            AndroidMessage::Pong { cookie } => AndroidView::Pong { cookie },
        }
    }
}

/// Denial-to-Android protocol messages.
#[derive(Clone, Debug, PartialEq, Eq)]
#[allow(inconsistent_fields)]
pub enum DenialMessage {
    /// Select one version and publish authoritative connection limits.
    ServerHello {
        /// Selected protocol major.
        major: u16,
        /// Selected protocol minor.
        minor: u16,
        /// Feature bits active for this connection.
        capabilities: u64,
        /// Maximum simultaneously live task objects.
        max_task_objects: u32,
        /// Maximum registered allocations per task.
        max_buffers_per_task: u32,
        /// Maximum damage rectangles per present.
        max_damage_rects: u32,
    },
    /// Replace the authoritative DMA-BUF import feedback generation.
    FormatFeedback {
        /// Task whose renderer/output constraints this feedback describes.
        object: TaskObjectId,
        /// Monotonic feedback generation.
        generation: u32,
        /// Accepted explicit DRM format/modifier pairs.
        formats: Vec<FormatModifier>,
    },
    /// Lend one Denial-owned DMA-BUF render target to Droidloom.
    RegisterRenderTarget {
        /// Task allowed to render into this target.
        object: TaskObjectId,
        /// Configure serial whose dimensions this target satisfies.
        configure_serial: u32,
        /// Immutable allocation metadata paired with DMA-BUF plane FDs.
        buffer: BufferMetadata,
    },
    /// Revoke one idle Denial-owned render target.
    UnregisterRenderTarget {
        /// Owning task.
        object: TaskObjectId,
        /// Target that Droidloom must stop using.
        buffer: BufferId,
    },
    /// Configure native task size, scale, transform, and refresh policy.
    Configure {
        /// Task being configured.
        object: TaskObjectId,
        /// Monotonic configure serial.
        serial: u32,
        /// Required client-target width in pixels.
        width: u32,
        /// Required client-target height in pixels.
        height: u32,
        /// Logical-scale numerator.
        scale_numerator: u32,
        /// Logical-scale denominator.
        scale_denominator: u32,
        /// Host-authoritative output transform.
        transform: Transform,
        /// Current refresh rate in millihertz.
        refresh_millihz: u32,
    },
    /// Update Denial-owned system-bar and cutout insets.
    Insets {
        /// Owning task.
        object: TaskObjectId,
        /// Left logical inset.
        left: u32,
        /// Top logical inset.
        top: u32,
        /// Right logical inset.
        right: u32,
        /// Bottom logical inset.
        bottom: u32,
    },
    /// Update authoritative task visibility and keyboard focus.
    Visibility {
        /// Owning task.
        object: TaskObjectId,
        /// Current shell visibility.
        visibility: Visibility,
        /// Whether the task owns keyboard focus.
        focused: bool,
    },
    /// Request that Android finish the named task.
    Close {
        /// Task Android should finish.
        object: TaskObjectId,
    },
    /// Confirm that Denial has signalled the frame's release timeline point.
    BufferReleased {
        /// Owning task.
        object: TaskObjectId,
        /// Released frame.
        frame: FrameId,
        /// Buffer now eligible for reuse.
        buffer: BufferId,
        /// Release timeline point that was signalled.
        release_point: u64,
    },
    /// Report host presentation timing independently of buffer release.
    Presented {
        /// Owning task.
        object: TaskObjectId,
        /// Presented frame.
        frame: FrameId,
        /// Monotonic presentation timestamp.
        timestamp_nanos: u64,
        /// Actual refresh period.
        refresh_period_nanos: u64,
        /// Denial presentation sequence.
        sequence: u64,
        /// Presentation flags from [`presentation_flag`].
        flags: u32,
    },
    /// Route one typed native input event to an Android task.
    Input {
        /// Target task.
        object: TaskObjectId,
        /// Host input sequence.
        serial: u64,
        /// Monotonic event timestamp.
        timestamp_nanos: u64,
        /// Typed event payload.
        event: InputEvent,
    },
    /// Fatal protocol error; Denial closes the connection after sending it.
    Error {
        /// Optional task related to the failure.
        object: Option<TaskObjectId>,
        /// Stable protocol error code.
        code: ProtocolErrorCode,
        /// Opcode rejected by Denial, or zero for connection-level failures.
        offending_opcode: u16,
        /// Bounded diagnostic text, never used for machine decisions.
        message: String,
    },
    /// Probe client liveness without polling.
    Ping {
        /// Opaque cookie the client must return unchanged.
        cookie: u64,
    },
}

/// Contents of a [`DenialMessage`].
#[verifier::ext_equal]
#[allow(inconsistent_fields)]
pub enum DenialView {
    ServerHello {
        major: u16,
        minor: u16,
        capabilities: u64,
        max_task_objects: u32,
        max_buffers_per_task: u32,
        max_damage_rects: u32,
    },
    FormatFeedback {
        object: TaskObjectId,
        generation: u32,
        formats: Seq<FormatModifier>,
    },
    RegisterRenderTarget {
        object: TaskObjectId,
        configure_serial: u32,
        buffer: BufferView,
    },
    UnregisterRenderTarget {
        object: TaskObjectId,
        buffer: BufferId,
    },
    Configure {
        object: TaskObjectId,
        serial: u32,
        width: u32,
        height: u32,
        scale_numerator: u32,
        scale_denominator: u32,
        transform: Transform,
        refresh_millihz: u32,
    },
    Insets {
        object: TaskObjectId,
        left: u32,
        top: u32,
        right: u32,
        bottom: u32,
    },
    Visibility {
        object: TaskObjectId,
        visibility: Visibility,
        focused: bool,
    },
    Close {
        object: TaskObjectId,
    },
    BufferReleased {
        object: TaskObjectId,
        frame: FrameId,
        buffer: BufferId,
        release_point: u64,
    },
    Presented {
        object: TaskObjectId,
        frame: FrameId,
        timestamp_nanos: u64,
        refresh_period_nanos: u64,
        sequence: u64,
        flags: u32,
    },
    Input {
        object: TaskObjectId,
        serial: u64,
        timestamp_nanos: u64,
        event: InputEvent,
    },
    Error {
        object: Option<TaskObjectId>,
        code: ProtocolErrorCode,
        offending_opcode: u16,
        message: Seq<char>,
    },
    Ping {
        cookie: u64,
    },
}

impl View for DenialMessage {
    type V = DenialView;

    open spec fn view(&self) -> DenialView {
        match *self {
            DenialMessage::ServerHello {
                major,
                minor,
                capabilities,
                max_task_objects,
                max_buffers_per_task,
                max_damage_rects,
            } => DenialView::ServerHello {
                major,
                minor,
                capabilities,
                max_task_objects,
                max_buffers_per_task,
                max_damage_rects,
            },
            DenialMessage::FormatFeedback {
                object,
                generation,
                formats,
            } => DenialView::FormatFeedback {
                object,
                generation,
                formats: formats@,
            },
            DenialMessage::RegisterRenderTarget {
                object,
                configure_serial,
                buffer,
            } => DenialView::RegisterRenderTarget {
                object,
                configure_serial,
                buffer: buffer@,
            },
            DenialMessage::UnregisterRenderTarget {
                object,
                buffer,
            } => DenialView::UnregisterRenderTarget {
                object,
                buffer,
            },
            DenialMessage::Configure {
                object,
                serial,
                width,
                height,
                scale_numerator,
                scale_denominator,
                transform,
                refresh_millihz,
            } => DenialView::Configure {
                object,
                serial,
                width,
                height,
                scale_numerator,
                scale_denominator,
                transform,
                refresh_millihz,
            },
            DenialMessage::Insets { object, left, top, right, bottom } => DenialView::Insets {
                object,
                left,
                top,
                right,
                bottom,
            },
            DenialMessage::Visibility { object, visibility, focused } => DenialView::Visibility {
                object,
                visibility,
                focused,
            },
            DenialMessage::Close { object } => DenialView::Close { object },
            DenialMessage::BufferReleased {
                object,
                frame,
                buffer,
                release_point,
            } => DenialView::BufferReleased {
                object,
                frame,
                buffer,
                release_point,
            },
            DenialMessage::Presented {
                object,
                frame,
                timestamp_nanos,
                refresh_period_nanos,
                sequence,
                flags,
            } => DenialView::Presented {
                object,
                frame,
                timestamp_nanos,
                refresh_period_nanos,
                sequence,
                flags,
            },
            DenialMessage::Input { object, serial, timestamp_nanos, event } => DenialView::Input {
                object,
                serial,
                timestamp_nanos,
                event,
            },
            DenialMessage::Error { object, code, offending_opcode, message } => DenialView::Error {
                object,
                code,
                offending_opcode,
                message: message@,
            },
            DenialMessage::Ping { cookie } => DenialView::Ping { cookie },
        }
    }
}

/// Native output transform selected by Denial.
#[derive(Clone, Copy, Debug, PartialEq, Eq, Structural)]
pub enum Transform {
    /// No rotation.
    Normal,
    /// Clockwise quarter turn.
    Rotate90,
    /// Half turn.
    Rotate180,
    /// Clockwise three-quarter turn.
    Rotate270,
}

/// Denial-authoritative task visibility.
#[derive(Clone, Copy, Debug, PartialEq, Eq, Structural)]
pub enum Visibility {
    /// Not present in the visible scene.
    Hidden,
    /// Visible to the user.
    Visible,
    /// Present but fully obscured.
    Obscured,
}

/// Typed input routed from Denial; coordinates are signed 16.16 logical units.
#[derive(Clone, Copy, Debug, PartialEq, Eq, Structural)]
#[allow(inconsistent_fields)]
pub enum InputEvent {
    /// One multitouch contact transition or motion sample.
    Touch {
        /// Contact operation.
        action: TouchAction,
        /// Stable contact identity until the matching up/cancel.
        pointer_id: u32,
        /// Logical x coordinate in signed 16.16 fixed point.
        x_fixed: i32,
        /// Logical y coordinate in signed 16.16 fixed point.
        y_fixed: i32,
        /// Normalized pressure from zero through 65,535.
        pressure: u16,
    },
    /// Linux input key transition.
    Key {
        /// Press/release operation.
        action: KeyAction,
        /// Linux evdev key code.
        keycode: u32,
        /// Host-generated repeat count.
        repeat: u16,
    },
    /// Denial shell navigation mapped to Android task APIs.
    Navigation {
        /// Host shell action.
        action: NavigationAction,
    },
}

/// Touch contact operation.
#[derive(Clone, Copy, Debug, PartialEq, Eq, Structural)]
pub enum TouchAction {
    /// New contact.
    Down,
    /// Existing contact movement.
    Motion,
    /// Contact lifted.
    Up,
    /// Gesture stream cancelled by host policy.
    Cancel,
}

/// Key operation.
#[derive(Clone, Copy, Debug, PartialEq, Eq, Structural)]
pub enum KeyAction {
    /// Key press.
    Down,
    /// Key release.
    Up,
}

/// Denial mobile-shell navigation action.
#[derive(Clone, Copy, Debug, PartialEq, Eq, Structural)]
pub enum NavigationAction {
    /// Navigate within or finish the current Android activity.
    Back,
    /// Move to Denial home while updating Android visibility.
    Home,
    /// Open Denial overview backed by Android task enumeration.
    Overview,
}

/// Stable fatal error codes sent before disconnect.
#[derive(Clone, Copy, Debug, PartialEq, Eq, Structural)]
pub enum ProtocolErrorCode {
    /// Handshake version ranges or capabilities do not intersect.
    Incompatible,
    /// A message or identity is malformed.
    InvalidMessage,
    /// A task, display, frame, or buffer identity conflicts.
    DuplicateObject,
    /// A message references an object that does not exist.
    UnknownObject,
    /// A bounded resource limit was exceeded.
    ResourceLimit,
    /// Configure, buffer, frame, or release ordering is invalid.
    InvalidState,
    /// The requested content cannot use a secure path.
    ProtectedContent,
    /// Denial cannot import the requested format/modifier.
    UnsupportedFormat,
}

/// Invalid packet shape or typed payload.
#[derive(Clone, Copy, Debug, PartialEq, Eq)]
pub enum WireError {
    /// Packet is shorter than the fixed header.
    ShortHeader,
    /// Packet exceeds the hard connection bound.
    PacketTooLarge,
    /// Packet does not carry the Droidloom magic.
    InvalidMagic,
    /// Packet targets a version this codec cannot interpret.
    UnsupportedVersion {
        /// Received major version.
        major: u16,
        /// Received minor version.
        minor: u16,
    },
    /// Packet payload length differs from the header.
    LengthMismatch,
    /// Header flags or reserved fields contain unknown non-zero bits.
    UnsupportedHeaderBits,
    /// Opcode is not defined for this direction.
    UnknownOpcode(u16),
    /// The packet carried the wrong number of descriptors.
    DescriptorCount {
        /// Count implied by the typed message.
        expected: usize,
        /// Count observed by the socket adapter.
        actual: usize,
    },
    /// Payload ended before its typed fields were complete.
    Truncated,
    /// Payload has bytes after the typed message.
    TrailingBytes,
    /// A string was not bounded valid UTF-8.
    InvalidString {
        /// Name of the rejected field.
        field: &'static str,
    },
    /// A task-scoped opcode carried the reserved connection object zero.
    InvalidObject,
    /// A typed enum or bit field contains an unknown value.
    InvalidEnum {
        /// Name of the rejected field.
        field: &'static str,
        /// Rejected numeric value.
        value: u64,
    },
    /// A count or numeric field exceeds a versioned bound.
    Limit {
        /// Name of the rejected field.
        field: &'static str,
    },
    /// Existing transport invariants rejected buffer metadata.
    Transport(TransportError),
}

} // verus!
