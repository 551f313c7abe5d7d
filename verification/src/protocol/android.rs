//! Messages from the Android cell to the Denial host.

use vstd::prelude::*;

use super::fields::{
    bits_error, buffer_at, buffer_bytes, buffer_error, connection_error, damage_error,
    damages_at, damages_bytes, encode_buffer, first, given, known_bits, lemma_buffer_canonical,
    lemma_buffer_len, lemma_buffer_round_trip, lemma_damages_canonical, lemma_damages_error,
    lemma_damages_len, lemma_damages_round_trip, nonzero, object_error, plane_count_error,
    read_buffer,
    require_connection, unless, valid_object, validate_buffer, validate_damage, zero_error,
};
use super::packet::{
    finish_packet, framed, header_at, layout_error, lemma_header_canonical,
    lemma_header_round_trip, packet_bytes, packet_minor, packet_view, parse_header, payload_of,
    plane_roles, plane_roles_view, validate_descriptor_layout, OP_REQUEST_ACTIVATION,
};
use super::wire::{
    lemma_le_at_first, lemma_le_at_second, lemma_le_at_whole, lemma_le_bytes_len,
    lemma_le_bytes_of_value, lemma_spans, lemma_string_canonical, lemma_string_round_trip, le_at,
    le_bytes, string_at, string_bytes, Reader, Writer,
};
use super::{
    content_state, AndroidDisplayId, AndroidMessage, AndroidTaskId, AndroidView, BufferId,
    BufferMetadata, BufferView, Damage, DecodedPacket, DescriptorKind, EncodedPacket, FrameId,
    TaskObjectId, TransportError, WireError, MAX_DAMAGE_RECTS, PROTOCOL_MINOR,
};
use crate::package::{package_name, valid_package, MAX_PACKAGE_BYTES};

verus! {

pub const OP_CLIENT_HELLO: u16 = 0x0001;

pub const OP_CREATE_TASK: u16 = 0x0002;

pub const OP_DESTROY_TASK: u16 = 0x0003;

pub const OP_BIND_TIMELINES: u16 = 0x0004;

pub const OP_ACK_CONFIGURE: u16 = 0x0005;

pub const OP_REGISTER_BUFFER: u16 = 0x0006;

pub const OP_UNREGISTER_BUFFER: u16 = 0x0007;

pub const OP_PRESENT: u16 = 0x0008;

pub const OP_SET_CONTENT_STATE: u16 = 0x0009;

pub const OP_SET_FRAME_RATE: u16 = 0x000a;

pub const OP_PONG: u16 = 0x000b;

pub const OP_BIND_TASK: u16 = 0x000c;

pub const OP_BIND_LAYER_STREAM: u16 = 0x000d;

/// Highest frame-rate vote in millihertz.
pub const MAX_FRAME_RATE: u32 = 1_000_000;

/// Opcode of a message.
pub open spec fn android_opcode(message: AndroidView) -> u16 {
    match message {
        AndroidView::ClientHello { .. } => OP_CLIENT_HELLO,
        AndroidView::CreateTask { .. } => OP_CREATE_TASK,
        AndroidView::BindTask { .. } => OP_BIND_TASK,
        AndroidView::DestroyTask { .. } => OP_DESTROY_TASK,
        AndroidView::BindTimelines { .. } => OP_BIND_TIMELINES,
        AndroidView::AckConfigure { .. } => OP_ACK_CONFIGURE,
        AndroidView::RegisterBuffer { .. } => OP_REGISTER_BUFFER,
        AndroidView::UnregisterBuffer { .. } => OP_UNREGISTER_BUFFER,
        AndroidView::Present { .. } => OP_PRESENT,
        AndroidView::BindLayerStream { .. } => OP_BIND_LAYER_STREAM,
        AndroidView::SetContentState { .. } => OP_SET_CONTENT_STATE,
        AndroidView::SetFrameRate { .. } => OP_SET_FRAME_RATE,
        AndroidView::RequestActivation { .. } => OP_REQUEST_ACTIVATION,
        AndroidView::Pong { .. } => OP_PONG,
    }
}

/// Task object of a message, or zero for the connection.
pub open spec fn android_object(message: AndroidView) -> u64 {
    match message {
        AndroidView::ClientHello { .. } => 0,
        AndroidView::CreateTask { object, .. } => object.0,
        AndroidView::BindTask { object, .. } => object.0,
        AndroidView::DestroyTask { object } => object.0,
        AndroidView::BindTimelines { object } => object.0,
        AndroidView::AckConfigure { object, .. } => object.0,
        AndroidView::RegisterBuffer { object, .. } => object.0,
        AndroidView::UnregisterBuffer { object, .. } => object.0,
        AndroidView::Present { object, .. } => object.0,
        AndroidView::BindLayerStream { object } => object.0,
        AndroidView::SetContentState { object, .. } => object.0,
        AndroidView::SetFrameRate { object, .. } => object.0,
        AndroidView::RequestActivation { object } => object.0,
        AndroidView::Pong { .. } => 0,
    }
}

/// Descriptor roles attached to a message, in order.
pub open spec fn android_roles(message: AndroidView) -> Seq<DescriptorKind> {
    match message {
        AndroidView::BindTimelines { .. } => seq![
            DescriptorKind::AcquireTimeline,
            DescriptorKind::ReleaseTimeline,
        ],
        AndroidView::RegisterBuffer { buffer, .. } => plane_roles_view(buffer.planes.len()),
        AndroidView::BindLayerStream { .. } => seq![
            DescriptorKind::LayerStream,
            DescriptorKind::LayerStream,
        ],
        _ => Seq::empty(),
    }
}

/// Version range of a greeting.
pub open spec fn version_error(min_major: u16, max_major: u16) -> Option<WireError> {
    if min_major == 0 || min_major > max_major {
        Some(WireError::InvalidEnum { field: "version range", value: min_major as u64 })
    } else {
        None
    }
}

/// Display and package of a new task.
pub open spec fn identity_error(display: AndroidDisplayId, package: Seq<char>) -> Option<
    WireError,
> {
    if display.0 == 0 || !package_name(package) {
        Some(WireError::InvalidString { field: "task identity" })
    } else {
        None
    }
}

/// Identities, serial and points of a present.
pub open spec fn present_error(
    frame: FrameId,
    buffer: BufferId,
    configure_serial: u32,
    acquire_point: u64,
    release_point: u64,
) -> Option<WireError> {
    first(
        zero_error("frame ID", frame.0),
        first(
            zero_error("buffer ID", buffer.0),
            first(
                zero_error("configure serial", configure_serial as u64),
                first(
                    zero_error("acquire point", acquire_point),
                    zero_error("release point", release_point),
                ),
            ),
        ),
    )
}

/// Number of damage rectangles of a present.
pub open spec fn damage_count_error(count: nat) -> Option<WireError> {
    if count > MAX_DAMAGE_RECTS {
        Some(WireError::Limit { field: "damage" })
    } else {
        None
    }
}

/// Bounds of every damage rectangle of a present.
pub open spec fn damage_list_error(damage: Seq<Damage>) -> Option<WireError> {
    if exists|i: int| 0 <= i < damage.len() && damage_error(#[trigger] damage[i]) is Some {
        Some(WireError::Limit { field: "damage rectangle" })
    } else {
        None
    }
}

/// Frame-rate vote.
pub open spec fn frame_rate_error(millihz: u32) -> Option<WireError> {
    if millihz > MAX_FRAME_RATE {
        Some(WireError::Limit { field: "frame rate" })
    } else {
        None
    }
}

/// First reason to refuse to encode a message; `verdict` is what the
/// transport says of the buffer metadata in it.
pub open spec fn android_error(
    message: AndroidView,
    verdict: Result<(), TransportError>,
) -> Option<WireError> {
    let object = object_error(android_object(message));
    match message {
        AndroidView::ClientHello { min_major, max_major, .. } => version_error(
            min_major,
            max_major,
        ),
        AndroidView::CreateTask { display, package, .. } => first(
            object,
            identity_error(display, package),
        ),
        AndroidView::BindTask { task, .. } => first(
            zero_error("Android task identity", task.0),
            object,
        ),
        AndroidView::AckConfigure { serial, .. } => first(
            zero_error("configure serial", serial as u64),
            object,
        ),
        AndroidView::RegisterBuffer { buffer, .. } => first(
            buffer_error("buffer identity or modifier", buffer, verdict),
            first(plane_count_error(buffer.planes.len()), object),
        ),
        AndroidView::UnregisterBuffer { buffer, .. } => first(
            zero_error("buffer ID", buffer.0),
            object,
        ),
        AndroidView::Present {
            frame,
            buffer,
            configure_serial,
            acquire_point,
            release_point,
            damage,
            ..
        } => first(
            present_error(frame, buffer, configure_serial, acquire_point, release_point),
            first(damage_count_error(damage.len()), first(damage_list_error(damage), object)),
        ),
        AndroidView::SetContentState { flags, .. } => first(
            bits_error("content state", flags as u64, content_state::KNOWN as u64),
            object,
        ),
        AndroidView::SetFrameRate { millihz, .. } => first(frame_rate_error(millihz), object),
        AndroidView::Pong { .. } => None,
        _ => object,
    }
}

/// Payload of a present.
pub open spec fn present_payload(
    frame: FrameId,
    buffer: BufferId,
    configure_serial: u32,
    acquire_point: u64,
    release_point: u64,
    damage: Seq<Damage>,
) -> Seq<u8> {
    le_bytes(frame.0 as nat, 8) + le_bytes(buffer.0 as nat, 8) + le_bytes(
        configure_serial as nat,
        4,
    ) + le_bytes(acquire_point as nat, 8) + le_bytes(release_point as nat, 8) + le_bytes(
        damage.len(),
        2,
    ) + damages_bytes(damage)
}

/// Payload of a message.
pub open spec fn android_payload(message: AndroidView) -> Seq<u8> {
    match message {
        AndroidView::ClientHello { min_major, max_major, capabilities } => {
            le_bytes(min_major as nat, 2) + le_bytes(max_major as nat, 2) + le_bytes(
                capabilities as nat,
                8,
            )
        },
        AndroidView::CreateTask { display, package, .. } => {
            le_bytes(display.0 as nat, 8) + string_bytes(package)
        },
        AndroidView::BindTask { task, .. } => le_bytes(task.0 as nat, 8),
        AndroidView::AckConfigure { serial, .. } => le_bytes(serial as nat, 4),
        AndroidView::RegisterBuffer { buffer, .. } => buffer_bytes(buffer),
        AndroidView::UnregisterBuffer { buffer, .. } => le_bytes(buffer.0 as nat, 8),
        AndroidView::Present {
            frame,
            buffer,
            configure_serial,
            acquire_point,
            release_point,
            damage,
            ..
        } => present_payload(
            frame,
            buffer,
            configure_serial,
            acquire_point,
            release_point,
            damage,
        ),
        AndroidView::SetContentState { flags, .. } => le_bytes(flags as nat, 4),
        AndroidView::SetFrameRate { millihz, .. } => le_bytes(millihz as nat, 4),
        AndroidView::Pong { cookie } => le_bytes(cookie as nat, 8),
        _ => Seq::empty(),
    }
}

/// Result of encoding a message.
pub open spec fn encoded_android(
    message: AndroidView,
    verdict: Result<(), TransportError>,
) -> Result<(Seq<u8>, Seq<DescriptorKind>), WireError> {
    match android_error(message, verdict) {
        Some(error) => Err(error),
        None => framed(
            android_opcode(message),
            android_object(message),
            android_payload(message),
            android_roles(message),
        ),
    }
}

/// Append the fields of a present.
fn encode_present(
    payload: &mut Writer,
    frame: FrameId,
    buffer: BufferId,
    configure_serial: u32,
    acquire_point: u64,
    release_point: u64,
    damage: &Vec<Damage>,
) -> (result: Result<(), WireError>)
    requires
        old(payload).bytes@ == Seq::<u8>::empty(),
    ensures
        ({
            let error = first(
                present_error(frame, buffer, configure_serial, acquire_point, release_point),
                first(damage_count_error(damage@.len()), damage_list_error(damage@)),
            );
            match result {
                Ok(_) => {
                    &&& error is None
                    &&& final(payload).bytes@ == present_payload(
                        frame,
                        buffer,
                        configure_serial,
                        acquire_point,
                        release_point,
                        damage@,
                    )
                },
                Err(refused) => error == Some(refused),
            }
        }),
{
    nonzero("frame ID", frame.0)?;
    nonzero("buffer ID", buffer.0)?;
    nonzero("configure serial", configure_serial as u64)?;
    nonzero("acquire point", acquire_point)?;
    nonzero("release point", release_point)?;
    if damage.len() > MAX_DAMAGE_RECTS {
        return Err(WireError::Limit { field: "damage" });
    }
    payload.u64(frame.0);
    payload.u64(buffer.0);
    payload.u32(configure_serial);
    payload.u64(acquire_point);
    payload.u64(release_point);
    payload.u16(damage.len() as u16);
    let ghost head = payload.bytes@;
    let mut index: usize = 0;
    assert(head + damages_bytes(damage@.take(0)) =~= head);
    while index < damage.len()
        invariant
            index <= damage@.len() <= MAX_DAMAGE_RECTS,
            present_error(frame, buffer, configure_serial, acquire_point, release_point) is None,
            payload.bytes@ == head + damages_bytes(damage@.take(index as int)),
            forall|i: int| 0 <= i < index ==> damage_error(#[trigger] damage@[i]) is None,
        decreases damage@.len() - index,
    {
        let rect: Damage = damage[index];
        validate_damage(rect)?;
        proof {
            let next = damage@.take(index + 1);
            assert(next.drop_last() =~= damage@.take(index as int));
            assert(next.last() == rect);
        }
        payload.u32(rect.x);
        payload.u32(rect.y);
        payload.u32(rect.width);
        payload.u32(rect.height);
        index = index + 1;
        assert(payload.bytes@ =~= head + damages_bytes(damage@.take(index as int)));
    }
    assert(damage@.take(index as int) =~= damage@);
    proof {
        let empty = Seq::<u8>::empty();
        assert(empty + le_bytes(frame.0 as nat, 8) =~= le_bytes(frame.0 as nat, 8));
    }
    Ok(())
}

/// Encode one Android-to-Denial message.
///
/// `verdict` is what the transport says of the buffer metadata in the message;
/// other messages do not depend on it.
#[verifier::rlimit(40)]
#[verifier::spinoff_prover]
pub fn encode_android(message: &AndroidMessage, verdict: Result<(), TransportError>) -> (result:
    Result<EncodedPacket, WireError>)
    ensures
        packet_view(result) == encoded_android(message@, verdict),
{
    let mut payload = Writer::new();
    let opcode: u16;
    let object: u64;
    let descriptors: Vec<DescriptorKind>;
    match message {
        AndroidMessage::ClientHello { min_major, max_major, capabilities } => {
            if *min_major == 0 || *min_major > *max_major {
                return Err(
                    WireError::InvalidEnum { field: "version range", value: *min_major as u64 },
                );
            }
            payload.u16(*min_major);
            payload.u16(*max_major);
            payload.u64(*capabilities);
            opcode = OP_CLIENT_HELLO;
            object = 0;
            descriptors = Vec::new();
        },
        AndroidMessage::CreateTask { object: task_object, display, package } => {
            object = valid_object(*task_object)?;
            if display.0 == 0 || !valid_package(package.as_str()) {
                return Err(WireError::InvalidString { field: "task identity" });
            }
            payload.u64(display.0);
            payload.string(package.as_str(), MAX_PACKAGE_BYTES, "package")?;
            opcode = OP_CREATE_TASK;
            descriptors = Vec::new();
        },
        AndroidMessage::BindTask { object: task_object, task } => {
            nonzero("Android task identity", task.0)?;
            payload.u64(task.0);
            opcode = OP_BIND_TASK;
            object = valid_object(*task_object)?;
            descriptors = Vec::new();
        },
        AndroidMessage::DestroyTask { object: task_object } => {
            opcode = OP_DESTROY_TASK;
            object = valid_object(*task_object)?;
            descriptors = Vec::new();
        },
        AndroidMessage::BindTimelines { object: task_object } => {
            opcode = OP_BIND_TIMELINES;
            object = valid_object(*task_object)?;
            descriptors = vec![DescriptorKind::AcquireTimeline, DescriptorKind::ReleaseTimeline];
        },
        AndroidMessage::AckConfigure { object: task_object, serial } => {
            nonzero("configure serial", *serial as u64)?;
            payload.u32(*serial);
            opcode = OP_ACK_CONFIGURE;
            object = valid_object(*task_object)?;
            descriptors = Vec::new();
        },
        AndroidMessage::RegisterBuffer { object: task_object, buffer } => {
            validate_buffer("buffer identity or modifier", buffer, verdict)?;
            encode_buffer(&mut payload, buffer)?;
            opcode = OP_REGISTER_BUFFER;
            object = valid_object(*task_object)?;
            descriptors = plane_roles(buffer.planes.len());
        },
        AndroidMessage::UnregisterBuffer { object: task_object, buffer } => {
            nonzero("buffer ID", buffer.0)?;
            payload.u64(buffer.0);
            opcode = OP_UNREGISTER_BUFFER;
            object = valid_object(*task_object)?;
            descriptors = Vec::new();
        },
        AndroidMessage::Present {
            object: task_object,
            frame,
            buffer,
            configure_serial,
            acquire_point,
            release_point,
            damage,
        } => {
            encode_present(
                &mut payload,
                *frame,
                *buffer,
                *configure_serial,
                *acquire_point,
                *release_point,
                damage,
            )?;
            opcode = OP_PRESENT;
            object = valid_object(*task_object)?;
            descriptors = Vec::new();
        },
        AndroidMessage::BindLayerStream { object: task_object } => {
            opcode = OP_BIND_LAYER_STREAM;
            object = valid_object(*task_object)?;
            descriptors = vec![DescriptorKind::LayerStream, DescriptorKind::LayerStream];
        },
        AndroidMessage::SetContentState { object: task_object, flags } => {
            known_bits("content state", *flags as u64, content_state::KNOWN as u64)?;
            payload.u32(*flags);
            opcode = OP_SET_CONTENT_STATE;
            object = valid_object(*task_object)?;
            descriptors = Vec::new();
        },
        AndroidMessage::SetFrameRate { object: task_object, millihz } => {
            if *millihz > MAX_FRAME_RATE {
                return Err(WireError::Limit { field: "frame rate" });
            }
            payload.u32(*millihz);
            opcode = OP_SET_FRAME_RATE;
            object = valid_object(*task_object)?;
            descriptors = Vec::new();
        },
        AndroidMessage::RequestActivation { object: task_object } => {
            opcode = OP_REQUEST_ACTIVATION;
            object = valid_object(*task_object)?;
            descriptors = Vec::new();
        },
        AndroidMessage::Pong { cookie } => {
            payload.u64(*cookie);
            opcode = OP_PONG;
            object = 0;
            descriptors = Vec::new();
        },
    }
    assert(payload.bytes@ =~= android_payload(message@));
    assert(descriptors@ =~= android_roles(message@));
    finish_packet(opcode, object, payload.bytes.as_slice(), descriptors)
}

/// A message read from a payload and the offset after it, or the first error.
pub type AndroidRead = Result<(AndroidView, int), WireError>;

/// Present in a payload.
pub open spec fn present_at(object: TaskObjectId, bytes: Seq<u8>) -> AndroidRead {
    let frame = FrameId(le_at(bytes, 0, 8) as u64);
    let buffer = BufferId(le_at(bytes, 8, 8) as u64);
    let configure_serial = le_at(bytes, 16, 4) as u32;
    let acquire_point = le_at(bytes, 20, 8) as u64;
    let release_point = le_at(bytes, 28, 8) as u64;
    let count = le_at(bytes, 36, 2);
    given(
        bytes,
        36,
        unless(
            present_error(frame, buffer, configure_serial, acquire_point, release_point),
            given(
                bytes,
                38,
                unless(
                    damage_count_error(count),
                    match damages_at(bytes, 38, count) {
                        Err(error) => Err(error),
                        Ok(damage) => Ok(
                            (
                                AndroidView::Present {
                                    object,
                                    frame,
                                    buffer,
                                    configure_serial,
                                    acquire_point,
                                    release_point,
                                    damage,
                                },
                                (38 + 16 * count) as int,
                            ),
                        ),
                    },
                ),
            ),
        ),
    )
}

/// Message of the given opcode and object in a payload.
pub open spec fn android_at(
    opcode: u16,
    object: u64,
    bytes: Seq<u8>,
    verdict: Result<(), TransportError>,
) -> AndroidRead {
    let id = TaskObjectId(object);
    let word = le_at(bytes, 0, 4) as u32;
    let long = le_at(bytes, 0, 8) as u64;
    if opcode == OP_CLIENT_HELLO {
        let min_major = le_at(bytes, 0, 2) as u16;
        let max_major = le_at(bytes, 2, 2) as u16;
        let capabilities = le_at(bytes, 4, 8) as u64;
        unless(
            connection_error(object),
            given(
                bytes,
                4,
                unless(
                    version_error(min_major, max_major),
                    given(
                        bytes,
                        12,
                        Ok((AndroidView::ClientHello { min_major, max_major, capabilities }, 12)),
                    ),
                ),
            ),
        )
    } else if opcode == OP_PONG {
        unless(
            connection_error(object),
            given(bytes, 8, Ok((AndroidView::Pong { cookie: long }, 8))),
        )
    } else if opcode == OP_CREATE_TASK {
        unless(
            object_error(object),
            given(
                bytes,
                8,
                match string_at(bytes, 8, MAX_PACKAGE_BYTES as int, "package") {
                    Err(error) => Err(error),
                    Ok((package, next)) => unless(
                        identity_error(AndroidDisplayId(long), package),
                        Ok(
                            (
                                AndroidView::CreateTask {
                                    object: id,
                                    display: AndroidDisplayId(long),
                                    package,
                                },
                                next,
                            ),
                        ),
                    ),
                },
            ),
        )
    } else if opcode == OP_BIND_TASK {
        unless(
            object_error(object),
            given(
                bytes,
                8,
                unless(
                    zero_error("Android task identity", long),
                    Ok((AndroidView::BindTask { object: id, task: AndroidTaskId(long) }, 8)),
                ),
            ),
        )
    } else if opcode == OP_DESTROY_TASK {
        unless(object_error(object), Ok((AndroidView::DestroyTask { object: id }, 0)))
    } else if opcode == OP_BIND_TIMELINES {
        unless(object_error(object), Ok((AndroidView::BindTimelines { object: id }, 0)))
    } else if opcode == OP_ACK_CONFIGURE {
        unless(
            object_error(object),
            given(
                bytes,
                4,
                unless(
                    zero_error("configure serial", word as u64),
                    Ok((AndroidView::AckConfigure { object: id, serial: word }, 4)),
                ),
            ),
        )
    } else if opcode == OP_REGISTER_BUFFER {
        unless(
            object_error(object),
            match buffer_at(bytes, 0) {
                Err(error) => Err(error),
                Ok((buffer, next)) => unless(
                    buffer_error("buffer identity or modifier", buffer, verdict),
                    Ok((AndroidView::RegisterBuffer { object: id, buffer }, next)),
                ),
            },
        )
    } else if opcode == OP_UNREGISTER_BUFFER {
        unless(
            object_error(object),
            given(
                bytes,
                8,
                unless(
                    zero_error("buffer ID", long),
                    Ok((AndroidView::UnregisterBuffer { object: id, buffer: BufferId(long) }, 8)),
                ),
            ),
        )
    } else if opcode == OP_PRESENT {
        unless(object_error(object), present_at(id, bytes))
    } else if opcode == OP_BIND_LAYER_STREAM {
        unless(object_error(object), Ok((AndroidView::BindLayerStream { object: id }, 0)))
    } else if opcode == OP_SET_CONTENT_STATE {
        unless(
            object_error(object),
            given(
                bytes,
                4,
                unless(
                    bits_error("content state", word as u64, content_state::KNOWN as u64),
                    Ok((AndroidView::SetContentState { object: id, flags: word }, 4)),
                ),
            ),
        )
    } else if opcode == OP_SET_FRAME_RATE {
        unless(
            object_error(object),
            given(
                bytes,
                4,
                unless(
                    frame_rate_error(word),
                    Ok((AndroidView::SetFrameRate { object: id, millihz: word }, 4)),
                ),
            ),
        )
    } else if opcode == OP_REQUEST_ACTIVATION {
        unless(object_error(object), Ok((AndroidView::RequestActivation { object: id }, 0)))
    } else {
        Err(WireError::UnknownOpcode(opcode))
    }
}

/// Result of decoding a packet received with `received` descriptors.
pub open spec fn decoded_android(
    packet: Seq<u8>,
    received: usize,
    verdict: Result<(), TransportError>,
) -> Result<(AndroidView, Seq<DescriptorKind>), WireError> {
    match header_at(packet, received) {
        Err(error) => Err(error),
        Ok(header) => match android_at(
            header.opcode,
            header.object,
            payload_of(packet),
            verdict,
        ) {
            Err(error) => Err(error),
            Ok((message, next)) => if next < payload_of(packet).len() {
                Err(WireError::TrailingBytes)
            } else {
                match layout_error(header.fd_count, received, android_roles(message).len()) {
                    Some(error) => Err(error),
                    None => Ok((message, android_roles(message))),
                }
            },
        },
    }
}

/// Contents of the result of the decoder.
pub open spec fn decoded_view(result: Result<DecodedPacket<AndroidMessage>, WireError>) -> Result<
    (AndroidView, Seq<DescriptorKind>),
    WireError,
> {
    match result {
        Ok(packet) => Ok((packet.message@, packet.descriptors@)),
        Err(error) => Err(error),
    }
}

/// Read a present.
fn decode_present(object: TaskObjectId, payload: &mut Reader<'_>) -> (result: Result<
    AndroidMessage,
    WireError,
>)
    requires
        old(payload).wf(),
        old(payload).position == 0,
    ensures
        final(payload).wf(),
        final(payload).bytes@ == old(payload).bytes@,
        match (result, present_at(object, old(payload).bytes@)) {
            (Ok(message), Ok((expected, next))) => {
                &&& message@ == expected
                &&& final(payload).position == next
            },
            (Err(error), Err(expected)) => error == expected,
            _ => false,
        },
{
    let ghost bytes = payload.bytes@;
    let frame = FrameId(payload.u64()?);
    let buffer = BufferId(payload.u64()?);
    let configure_serial: u32 = payload.u32()?;
    let acquire_point: u64 = payload.u64()?;
    let release_point: u64 = payload.u64()?;
    nonzero("frame ID", frame.0)?;
    nonzero("buffer ID", buffer.0)?;
    nonzero("configure serial", configure_serial as u64)?;
    nonzero("acquire point", acquire_point)?;
    nonzero("release point", release_point)?;
    let count: usize = payload.u16()? as usize;
    if count > MAX_DAMAGE_RECTS {
        return Err(WireError::Limit { field: "damage" });
    }
    let mut damage: Vec<Damage> = Vec::new();
    let mut index: usize = 0;
    while index < count
        invariant
            index <= count <= MAX_DAMAGE_RECTS,
            payload.wf(),
            payload.bytes@ == bytes,
            old(payload).bytes@ == bytes,
            bytes.len() >= 38,
            payload.position == 38 + 16 * index,
            count == le_at(bytes, 36, 2),
            frame == FrameId(le_at(bytes, 0, 8) as u64),
            buffer == BufferId(le_at(bytes, 8, 8) as u64),
            configure_serial == le_at(bytes, 16, 4) as u32,
            acquire_point == le_at(bytes, 20, 8) as u64,
            release_point == le_at(bytes, 28, 8) as u64,
            present_error(frame, buffer, configure_serial, acquire_point, release_point) is None,
            damages_at(bytes, 38, index as nat) == Ok::<Seq<Damage>, WireError>(damage@),
        decreases count - index,
    {
        proof {
            if damages_at(bytes, 38, (index + 1) as nat) is Err {
                lemma_damages_error(bytes, 38, (index + 1) as nat, count as nat);
            }
        }
        let rect = Damage {
            x: payload.u32()?,
            y: payload.u32()?,
            width: payload.u32()?,
            height: payload.u32()?,
        };
        validate_damage(rect)?;
        damage.push(rect);
        index = index + 1;
    }
    Ok(
        AndroidMessage::Present {
            object,
            frame,
            buffer,
            configure_serial,
            acquire_point,
            release_point,
            damage,
        },
    )
}

/// Read the message of the given opcode and object.
#[verifier::rlimit(40)]
#[verifier::spinoff_prover]
fn decode_android_payload(
    opcode: u16,
    object_id: u64,
    payload: &mut Reader<'_>,
    verdict: Result<(), TransportError>,
) -> (result: Result<AndroidMessage, WireError>)
    requires
        old(payload).wf(),
        old(payload).position == 0,
    ensures
        final(payload).wf(),
        final(payload).bytes@ == old(payload).bytes@,
        match (result, android_at(opcode, object_id, old(payload).bytes@, verdict)) {
            (Ok(message), Ok((expected, next))) => {
                &&& message@ == expected
                &&& final(payload).position == next
            },
            (Err(error), Err(expected)) => error == expected,
            _ => false,
        },
{
    let object = TaskObjectId(object_id);
    match opcode {
        OP_CLIENT_HELLO => {
            require_connection(object_id)?;
            let min_major: u16 = payload.u16()?;
            let max_major: u16 = payload.u16()?;
            if min_major == 0 || min_major > max_major {
                return Err(
                    WireError::InvalidEnum { field: "version range", value: min_major as u64 },
                );
            }
            Ok(AndroidMessage::ClientHello { min_major, max_major, capabilities: payload.u64()? })
        },
        OP_CREATE_TASK => {
            valid_object(object)?;
            let display = AndroidDisplayId(payload.u64()?);
            let package = payload.string(MAX_PACKAGE_BYTES, "package")?;
            if display.0 == 0 || !valid_package(package.as_str()) {
                return Err(WireError::InvalidString { field: "task identity" });
            }
            Ok(AndroidMessage::CreateTask { object, display, package })
        },
        OP_BIND_TASK => {
            valid_object(object)?;
            let task = AndroidTaskId(payload.u64()?);
            nonzero("Android task identity", task.0)?;
            Ok(AndroidMessage::BindTask { object, task })
        },
        OP_DESTROY_TASK => {
            valid_object(object)?;
            Ok(AndroidMessage::DestroyTask { object })
        },
        OP_BIND_TIMELINES => {
            valid_object(object)?;
            Ok(AndroidMessage::BindTimelines { object })
        },
        OP_ACK_CONFIGURE => {
            valid_object(object)?;
            let serial: u32 = payload.u32()?;
            nonzero("configure serial", serial as u64)?;
            Ok(AndroidMessage::AckConfigure { object, serial })
        },
        OP_REGISTER_BUFFER => {
            valid_object(object)?;
            let buffer = read_buffer(payload)?;
            validate_buffer("buffer identity or modifier", &buffer, verdict)?;
            Ok(AndroidMessage::RegisterBuffer { object, buffer })
        },
        OP_UNREGISTER_BUFFER => {
            valid_object(object)?;
            let buffer = BufferId(payload.u64()?);
            nonzero("buffer ID", buffer.0)?;
            Ok(AndroidMessage::UnregisterBuffer { object, buffer })
        },
        OP_PRESENT => {
            valid_object(object)?;
            decode_present(object, payload)
        },
        OP_BIND_LAYER_STREAM => {
            valid_object(object)?;
            Ok(AndroidMessage::BindLayerStream { object })
        },
        OP_SET_CONTENT_STATE => {
            valid_object(object)?;
            let flags: u32 = payload.u32()?;
            known_bits("content state", flags as u64, content_state::KNOWN as u64)?;
            Ok(AndroidMessage::SetContentState { object, flags })
        },
        OP_SET_FRAME_RATE => {
            valid_object(object)?;
            let millihz: u32 = payload.u32()?;
            if millihz > MAX_FRAME_RATE {
                return Err(WireError::Limit { field: "frame rate" });
            }
            Ok(AndroidMessage::SetFrameRate { object, millihz })
        },
        OP_REQUEST_ACTIVATION => {
            valid_object(object)?;
            Ok(AndroidMessage::RequestActivation { object })
        },
        OP_PONG => {
            require_connection(object_id)?;
            Ok(AndroidMessage::Pong { cookie: payload.u64()? })
        },
        _ => Err(WireError::UnknownOpcode(opcode)),
    }
}

/// Descriptor roles of a message.
fn roles_of(message: &AndroidMessage) -> (roles: Vec<DescriptorKind>)
    ensures
        roles@ == android_roles(message@),
{
    let roles = match message {
        AndroidMessage::BindTimelines { .. } => vec![
            DescriptorKind::AcquireTimeline,
            DescriptorKind::ReleaseTimeline,
        ],
        AndroidMessage::RegisterBuffer { buffer, .. } => plane_roles(buffer.planes.len()),
        AndroidMessage::BindLayerStream { .. } => vec![
            DescriptorKind::LayerStream,
            DescriptorKind::LayerStream,
        ],
        _ => Vec::new(),
    };
    assert(roles@ =~= android_roles(message@));
    roles
}

/// Decode one Android-to-Denial sequenced packet.
///
/// `received_descriptors` is the exact number extracted from the record's
/// ancillary data by the socket adapter. `verdict` is what the transport says
/// of the metadata that [`android_buffer`] finds in the packet; other packets
/// do not depend on it.
pub fn decode_android(
    packet: &[u8],
    received_descriptors: usize,
    verdict: Result<(), TransportError>,
) -> (result: Result<DecodedPacket<AndroidMessage>, WireError>)
    ensures
        decoded_view(result) == decoded_android(packet@, received_descriptors, verdict),
{
    let header = parse_header(packet, received_descriptors)?;
    let mut payload = Reader::new(header.payload);
    let message = decode_android_payload(header.opcode, header.object, &mut payload, verdict)?;
    payload.finish()?;
    let descriptors = roles_of(&message);
    validate_descriptor_layout(header.fd_count, received_descriptors, descriptors.as_slice())?;
    Ok(DecodedPacket { message, descriptors })
}

/// Buffer metadata in a packet whose decoding depends on what the transport
/// says of it.
pub open spec fn android_buffer_at(packet: Seq<u8>, received: usize) -> Option<BufferView> {
    match header_at(packet, received) {
        Ok(header) => if header.opcode == OP_REGISTER_BUFFER && header.object != 0 {
            match buffer_at(payload_of(packet), 0) {
                Ok((buffer, _)) => Some(buffer),
                Err(_) => None,
            }
        } else {
            None
        },
        Err(_) => None,
    }
}

/// Find the buffer metadata that the transport has to judge before the packet
/// is decoded.
pub fn android_buffer(packet: &[u8], received_descriptors: usize) -> (buffer: Option<
    BufferMetadata,
>)
    ensures
        match (buffer, android_buffer_at(packet@, received_descriptors)) {
            (Some(buffer), Some(expected)) => buffer@ == expected,
            (None, None) => true,
            _ => false,
        },
{
    let header = match parse_header(packet, received_descriptors) {
        Ok(header) => header,
        Err(_) => {
            return None;
        },
    };
    if header.opcode != OP_REGISTER_BUFFER || header.object == 0 {
        return None;
    }
    let mut payload = Reader::new(header.payload);
    match read_buffer(&mut payload) {
        Ok(buffer) => Some(buffer),
        Err(_) => None,
    }
}

/// Size of an encodable payload.
proof fn lemma_android_payload_len(message: AndroidView, verdict: Result<(), TransportError>)
    requires
        android_error(message, verdict) is None,
    ensures
        android_payload(message).len() <= 5_000,
        android_roles(message).len() <= 255,
{
    broadcast use lemma_le_bytes_len;

    match message {
        AndroidView::RegisterBuffer { buffer, .. } => lemma_buffer_len(buffer),
        AndroidView::Present { damage, .. } => lemma_damages_len(damage),
        _ => {},
    }
}

/// Encoding succeeds exactly on the messages without an error.
pub proof fn law_android_encodes_valid_messages(
    message: AndroidView,
    verdict: Result<(), TransportError>,
)
    ensures
        encoded_android(message, verdict) is Ok <==> android_error(message, verdict) is None,
{
    if android_error(message, verdict) is None {
        lemma_android_payload_len(message, verdict);
    }
}

proof fn lemma_present_round_trip(message: AndroidView, verdict: Result<(), TransportError>)
    requires
        message is Present,
        android_error(message, verdict) is None,
    ensures
        android_at(
            android_opcode(message),
            android_object(message),
            android_payload(message),
            verdict,
        ) == Ok::<(AndroidView, int), WireError>((message, android_payload(message).len() as int)),
{
    broadcast use lemma_le_bytes_len, lemma_le_at_first, lemma_le_at_second, lemma_le_at_whole;

    lemma_spans();
    if let AndroidView::Present {
        object,
        frame,
        buffer,
        configure_serial,
        acquire_point,
        release_point,
        damage,
    } = message {
        let bytes = android_payload(message);
        let head = le_bytes(frame.0 as nat, 8) + le_bytes(buffer.0 as nat, 8) + le_bytes(
            configure_serial as nat,
            4,
        ) + le_bytes(acquire_point as nat, 8) + le_bytes(release_point as nat, 8) + le_bytes(
            damage.len(),
            2,
        );
        lemma_damages_len(damage);
        lemma_damages_round_trip(head, damage, Seq::empty());
        assert(bytes =~= head + damages_bytes(damage) + Seq::<u8>::empty());
        assert(le_at(bytes, 0, 8) == frame.0);
        assert(le_at(bytes, 8, 8) == buffer.0);
        assert(le_at(bytes, 16, 4) == configure_serial);
        assert(le_at(bytes, 20, 8) == acquire_point);
        assert(le_at(bytes, 28, 8) == release_point);
        assert(le_at(bytes, 36, 2) == damage.len());
    }
}

proof fn lemma_android_payload_round_trip(
    message: AndroidView,
    verdict: Result<(), TransportError>,
)
    requires
        android_error(message, verdict) is None,
        message matches AndroidView::RegisterBuffer { buffer, .. } ==> 1 <= buffer.planes.len()
            <= 4,
    ensures
        android_at(
            android_opcode(message),
            android_object(message),
            android_payload(message),
            verdict,
        ) == Ok::<(AndroidView, int), WireError>((message, android_payload(message).len() as int)),
{
    broadcast use lemma_le_bytes_len, lemma_le_at_first, lemma_le_at_second, lemma_le_at_whole;

    lemma_spans();
    let bytes = android_payload(message);
    let empty = Seq::<u8>::empty();
    match message {
        AndroidView::ClientHello { min_major, max_major, capabilities } => {
            assert(le_at(bytes, 0, 2) == min_major);
            assert(le_at(bytes, 2, 2) == max_major);
            assert(le_at(bytes, 4, 8) == capabilities);
        },
        AndroidView::CreateTask { display, package, .. } => {
            let head = le_bytes(display.0 as nat, 8);
            lemma_string_round_trip(head, package, empty, MAX_PACKAGE_BYTES as int, "package");
            assert(bytes =~= head + string_bytes(package) + empty);
            assert(le_at(bytes, 0, 8) == display.0);
        },
        AndroidView::RegisterBuffer { buffer, .. } => {
            lemma_buffer_round_trip(empty, buffer, empty);
            assert(bytes =~= empty + buffer_bytes(buffer) + empty);
        },
        AndroidView::Present { .. } => lemma_present_round_trip(message, verdict),
        _ => {},
    }
}

/// Every message that encodes decodes to itself with the same descriptor
/// roles. Buffer metadata has one to four planes.
#[verifier::spinoff_prover]
pub proof fn law_android_round_trip(message: AndroidView, verdict: Result<(), TransportError>)
    requires
        encoded_android(message, verdict) is Ok,
        message matches AndroidView::RegisterBuffer { buffer, .. } ==> 1 <= buffer.planes.len()
            <= 4,
    ensures
        ({
            let (packet, roles) = encoded_android(message, verdict)->Ok_0;
            decoded_android(packet, roles.len() as usize, verdict) == Ok::<
                (AndroidView, Seq<DescriptorKind>),
                WireError,
            >((message, roles))
        }),
{
    lemma_android_payload_len(message, verdict);
    lemma_android_payload_round_trip(message, verdict);
    let opcode = android_opcode(message);
    lemma_header_round_trip(
        packet_minor(opcode),
        opcode,
        android_roles(message).len() as usize,
        android_object(message),
        android_payload(message),
    );
}

proof fn lemma_android_payload_canonical(
    opcode: u16,
    object: u64,
    bytes: Seq<u8>,
    verdict: Result<(), TransportError>,
)
    requires
        android_at(opcode, object, bytes, verdict) is Ok,
        android_at(opcode, object, bytes, verdict)->Ok_0.1 >= bytes.len(),
    ensures
        ({
            let message = android_at(opcode, object, bytes, verdict)->Ok_0.0;
            &&& android_opcode(message) == opcode
            &&& android_object(message) == object
            &&& android_payload(message) == bytes
            &&& android_error(message, verdict) is None
        }),
{
    broadcast use lemma_le_bytes_len;

    lemma_spans();
    let (message, next) = android_at(opcode, object, bytes, verdict)->Ok_0;
    let again = android_payload(message);
    match message {
        AndroidView::ClientHello { .. } => {
            lemma_le_bytes_of_value(bytes.subrange(0, 2));
            lemma_le_bytes_of_value(bytes.subrange(2, 4));
            lemma_le_bytes_of_value(bytes.subrange(4, 12));
        },
        AndroidView::CreateTask { .. } => {
            lemma_le_bytes_of_value(bytes.subrange(0, 8));
            lemma_string_canonical(bytes, 8, MAX_PACKAGE_BYTES as int, "package");
        },
        AndroidView::BindTask { .. } | AndroidView::UnregisterBuffer { .. } | AndroidView::Pong {
            ..
        } => {
            lemma_le_bytes_of_value(bytes.subrange(0, 8));
        },
        AndroidView::AckConfigure { .. } | AndroidView::SetContentState { .. }
        | AndroidView::SetFrameRate { .. } => {
            lemma_le_bytes_of_value(bytes.subrange(0, 4));
        },
        AndroidView::RegisterBuffer { .. } => {
            lemma_buffer_canonical(bytes, 0);
        },
        AndroidView::Present { damage, .. } => {
            lemma_le_bytes_of_value(bytes.subrange(0, 8));
            lemma_le_bytes_of_value(bytes.subrange(8, 16));
            lemma_le_bytes_of_value(bytes.subrange(16, 20));
            lemma_le_bytes_of_value(bytes.subrange(20, 28));
            lemma_le_bytes_of_value(bytes.subrange(28, 36));
            lemma_le_bytes_of_value(bytes.subrange(36, 38));
            lemma_damages_canonical(bytes, 38, le_at(bytes, 36, 2));
            assert forall|i: int| 0 <= i < damage.len() implies damage_error(
                #[trigger] damage[i],
            ) is None by {}
        },
        _ => {},
    }
    assert(again =~= bytes);
}

/// A packet that decodes is, but for an older minor version in its header, the
/// one packet that the decoded message encodes to.
#[verifier::spinoff_prover]
pub proof fn law_android_canonical(
    packet: Seq<u8>,
    received: usize,
    verdict: Result<(), TransportError>,
)
    requires
        decoded_android(packet, received, verdict) is Ok,
    ensures
        ({
            let (message, roles) = decoded_android(packet, received, verdict)->Ok_0;
            let minor = header_at(packet, received)->Ok_0.minor;
            &&& roles.len() == received
            &&& minor <= PROTOCOL_MINOR
            &&& encoded_android(message, verdict) is Ok
            &&& packet == packet_bytes(
                minor,
                android_opcode(message),
                roles.len(),
                android_object(message),
                android_payload(message),
            )
            &&& minor == packet_minor(android_opcode(message)) ==> encoded_android(
                message,
                verdict,
            ) == Ok::<(Seq<u8>, Seq<DescriptorKind>), WireError>((packet, roles))
        }),
{
    lemma_header_canonical(packet, received);
    let header = header_at(packet, received)->Ok_0;
    lemma_android_payload_canonical(header.opcode, header.object, payload_of(packet), verdict);
    let message = decoded_android(packet, received, verdict)->Ok_0.0;
    lemma_android_payload_len(message, verdict);
}

/// Law: an encoded message names its opcode, its object and its descriptors in
/// the header.
pub proof fn law_android_messages_are_labelled(
    message: AndroidView,
    verdict: Result<(), TransportError>,
)
    requires
        encoded_android(message, verdict) is Ok,
    ensures
        ({
            let (packet, roles) = encoded_android(message, verdict)->Ok_0;
            let opcode = le_at(packet, 8, 2);
            let object = le_at(packet, 16, 8);
            let timelines = seq![DescriptorKind::AcquireTimeline, DescriptorKind::ReleaseTimeline];
            let streams = seq![DescriptorKind::LayerStream, DescriptorKind::LayerStream];
            &&& le_at(packet, 10, 2) == roles.len()
            &&& match message {
                AndroidView::ClientHello { .. } => opcode == 1 && object == 0 && roles.len() == 0,
                AndroidView::CreateTask { object: id, .. } => opcode == 2 && object == id.0
                    && roles.len() == 0,
                AndroidView::DestroyTask { object: id } => opcode == 3 && object == id.0
                    && roles.len() == 0,
                AndroidView::BindTimelines { object: id } => opcode == 4 && object == id.0
                    && roles == timelines,
                AndroidView::AckConfigure { object: id, .. } => opcode == 5 && object == id.0
                    && roles.len() == 0,
                AndroidView::RegisterBuffer { object: id, buffer } => opcode == 6 && object == id.0
                    && roles.len() == buffer.planes.len() && forall|i: int|
                    0 <= i < roles.len() ==> (#[trigger] roles[i]) is DmabufPlane,
                AndroidView::UnregisterBuffer { object: id, .. } => opcode == 7 && object == id.0
                    && roles.len() == 0,
                AndroidView::Present { object: id, .. } => opcode == 8 && object == id.0
                    && roles.len() == 0,
                AndroidView::SetContentState { object: id, .. } => opcode == 9 && object == id.0
                    && roles.len() == 0,
                AndroidView::SetFrameRate { object: id, .. } => opcode == 10 && object == id.0
                    && roles.len() == 0,
                AndroidView::Pong { .. } => opcode == 11 && object == 0 && roles.len() == 0,
                AndroidView::BindTask { object: id, .. } => opcode == 12 && object == id.0
                    && roles.len() == 0,
                AndroidView::BindLayerStream { object: id } => opcode == 13 && object == id.0
                    && roles == streams,
                AndroidView::RequestActivation { object: id } => opcode == 14 && object == id.0
                    && roles.len() == 0,
            }
        }),
{
    super::packet::law_messages_are_framed_up_to_the_limit(
        android_opcode(message),
        android_object(message),
        android_payload(message),
        android_roles(message),
    );
}

/// Law: behind the header an encoded message holds its fields at fixed places.
pub proof fn law_android_messages_have_a_fixed_layout(
    message: AndroidView,
    verdict: Result<(), TransportError>,
)
    requires
        encoded_android(message, verdict) is Ok,
    ensures
        ({
            let packet = encoded_android(message, verdict)->Ok_0.0;
            let body = packet.subrange(32, packet.len() as int);
            match message {
                AndroidView::ClientHello { min_major, max_major, capabilities } => {
                    &&& body.len() == 12
                    &&& le_at(body, 0, 2) == min_major
                    &&& le_at(body, 2, 2) == max_major
                    &&& le_at(body, 4, 8) == capabilities
                },
                AndroidView::CreateTask { display, package, .. } => {
                    &&& le_at(body, 0, 8) == display.0
                    &&& body.subrange(8, body.len() as int) == string_bytes(package)
                },
                AndroidView::BindTask { task, .. } => body.len() == 8 && le_at(body, 0, 8)
                    == task.0,
                AndroidView::AckConfigure { serial, .. } => body.len() == 4 && le_at(body, 0, 4)
                    == serial,
                AndroidView::RegisterBuffer { buffer, .. } => body == buffer_bytes(buffer),
                AndroidView::UnregisterBuffer { buffer, .. } => body.len() == 8 && le_at(body, 0, 8)
                    == buffer.0,
                AndroidView::Present {
                    frame,
                    buffer,
                    configure_serial,
                    acquire_point,
                    release_point,
                    damage,
                    ..
                } => {
                    &&& le_at(body, 0, 8) == frame.0
                    &&& le_at(body, 8, 8) == buffer.0
                    &&& le_at(body, 16, 4) == configure_serial
                    &&& le_at(body, 20, 8) == acquire_point
                    &&& le_at(body, 28, 8) == release_point
                    &&& le_at(body, 36, 2) == damage.len()
                    &&& body.subrange(38, body.len() as int) == damages_bytes(damage)
                },
                AndroidView::SetContentState { flags, .. } => body.len() == 4 && le_at(body, 0, 4)
                    == flags,
                AndroidView::SetFrameRate { millihz, .. } => body.len() == 4 && le_at(body, 0, 4)
                    == millihz,
                AndroidView::Pong { cookie } => body.len() == 8 && le_at(body, 0, 8) == cookie,
                _ => body.len() == 0,
            }
        }),
{
    broadcast use lemma_le_bytes_len, lemma_le_at_first, lemma_le_at_second, lemma_le_at_whole;

    lemma_spans();
    super::packet::law_messages_are_framed_up_to_the_limit(
        android_opcode(message),
        android_object(message),
        android_payload(message),
        android_roles(message),
    );
    let body = android_payload(message);
    match message {
        AndroidView::CreateTask { display, package, .. } => {
            assert(le_at(body, 0, 8) == display.0);
            assert(body.subrange(8, body.len() as int) =~= string_bytes(package));
        },
        AndroidView::Present { frame, buffer, damage, .. } => {
            lemma_damages_len(damage);
            assert(le_at(body, 0, 8) == frame.0);
            assert(body.subrange(38, body.len() as int) =~= damages_bytes(damage));
        },
        _ => {},
    }
}

/// Law: a message encodes exactly when what it says is in range.
pub proof fn law_android_messages_encode_in_range(
    message: AndroidView,
    verdict: Result<(), TransportError>,
)
    ensures
        encoded_android(message, verdict) is Ok <==> match message {
            AndroidView::ClientHello { min_major, max_major, .. } => 0 < min_major <= max_major,
            AndroidView::CreateTask { object, display, package } => object.0 != 0 && display.0 != 0
                && package_name(package),
            AndroidView::BindTask { object, task } => object.0 != 0 && task.0 != 0,
            AndroidView::DestroyTask { object } => object.0 != 0,
            AndroidView::BindTimelines { object } => object.0 != 0,
            AndroidView::AckConfigure { object, serial } => object.0 != 0 && serial != 0,
            AndroidView::RegisterBuffer { object, buffer } => {
                &&& object.0 != 0
                &&& buffer.id.0 != 0
                &&& buffer.format.modifier != 0xffff_ffff_ffff_ffff
                &&& buffer.planes.len() <= 255
                &&& verdict is Ok
            },
            AndroidView::UnregisterBuffer { object, buffer } => object.0 != 0 && buffer.0 != 0,
            AndroidView::Present {
                object,
                frame,
                buffer,
                configure_serial,
                acquire_point,
                release_point,
                damage,
            } => {
                &&& object.0 != 0
                &&& frame.0 != 0
                &&& buffer.0 != 0
                &&& configure_serial != 0
                &&& acquire_point != 0
                &&& release_point != 0
                &&& damage.len() <= 256
                &&& forall|i: int|
                    0 <= i < damage.len() ==> damage_error(#[trigger] damage[i]) is None
            },
            AndroidView::BindLayerStream { object } => object.0 != 0,
            AndroidView::SetContentState { object, flags } => object.0 != 0 && flags as u64 & !7u64
                == 0,
            AndroidView::SetFrameRate { object, millihz } => object.0 != 0 && millihz <= 1_000_000,
            AndroidView::RequestActivation { object } => object.0 != 0,
            AndroidView::Pong { .. } => true,
        },
{
    law_android_encodes_valid_messages(message, verdict);
}

/// Law: the first fault of a frame decides how it is refused.
pub proof fn law_presents_are_refused_by_their_first_fault(
    object: TaskObjectId,
    frame: FrameId,
    buffer: BufferId,
    configure_serial: u32,
    acquire_point: u64,
    release_point: u64,
    damage: Seq<Damage>,
    verdict: Result<(), TransportError>,
)
    ensures
        ({
            let message = AndroidView::Present {
                object,
                frame,
                buffer,
                configure_serial,
                acquire_point,
                release_point,
                damage,
            };
            let error = android_error(message, verdict);
            let points = acquire_point != 0 && release_point != 0;
            &&& frame.0 == 0 ==> error == Some(
                WireError::InvalidEnum { field: "frame ID", value: 0 },
            )
            &&& frame.0 != 0 && buffer.0 == 0 ==> error == Some(
                WireError::InvalidEnum { field: "buffer ID", value: 0 },
            )
            &&& frame.0 != 0 && buffer.0 != 0 && configure_serial == 0 ==> error == Some(
                WireError::InvalidEnum { field: "configure serial", value: 0 },
            )
            &&& frame.0 != 0 && buffer.0 != 0 && configure_serial != 0 && acquire_point == 0
                ==> error == Some(WireError::InvalidEnum { field: "acquire point", value: 0 })
            &&& frame.0 != 0 && buffer.0 != 0 && configure_serial != 0 && acquire_point != 0
                && release_point == 0 ==> error == Some(
                WireError::InvalidEnum { field: "release point", value: 0 },
            )
            &&& frame.0 != 0 && buffer.0 != 0 && configure_serial != 0 && points && damage.len()
                > 256 ==> error == Some(WireError::Limit { field: "damage" })
        }),
{
}

/// Law: how the other messages are refused.
pub proof fn law_android_messages_are_refused_by_name(
    object: TaskObjectId,
    display: AndroidDisplayId,
    package: Seq<char>,
    task: AndroidTaskId,
    buffer: BufferId,
    serial: u32,
    flags: u32,
    millihz: u32,
    min_major: u16,
    max_major: u16,
    capabilities: u64,
    verdict: Result<(), TransportError>,
)
    ensures
        min_major == 0 || min_major > max_major ==> android_error(
            (AndroidView::ClientHello { min_major, max_major, capabilities }),
            verdict,
        ) == Some(WireError::InvalidEnum { field: "version range", value: min_major as u64 }),
        object.0 == 0 ==> {
            &&& android_error((AndroidView::CreateTask { object, display, package }), verdict)
                == Some(WireError::InvalidObject)
            &&& android_error((AndroidView::DestroyTask { object }), verdict) == Some(
                WireError::InvalidObject,
            )
            &&& android_error((AndroidView::RequestActivation { object }), verdict) == Some(
                WireError::InvalidObject,
            )
        },
        object.0 != 0 && (display.0 == 0 || !package_name(package)) ==> android_error(
            (AndroidView::CreateTask { object, display, package }),
            verdict,
        ) == Some(WireError::InvalidString { field: "task identity" }),
        task.0 == 0 ==> android_error((AndroidView::BindTask { object, task }), verdict) == Some(
            WireError::InvalidEnum { field: "Android task identity", value: 0 },
        ),
        serial == 0 ==> android_error((AndroidView::AckConfigure { object, serial }), verdict)
            == Some(WireError::InvalidEnum { field: "configure serial", value: 0 }),
        buffer.0 == 0 ==> android_error((AndroidView::UnregisterBuffer { object, buffer }), verdict)
            == Some(WireError::InvalidEnum { field: "buffer ID", value: 0 }),
        flags as u64 & !7u64 != 0 ==> android_error(
            (AndroidView::SetContentState { object, flags }),
            verdict,
        ) == Some(WireError::InvalidEnum { field: "content state", value: flags as u64 }),
        millihz > 1_000_000 ==> android_error(
            (AndroidView::SetFrameRate { object, millihz }),
            verdict,
        ) == Some(WireError::Limit { field: "frame rate" }),
{
}

/// Law: a packet with a good header is refused as unknown for its opcode, as
/// misplaced for its object, as too short or as too long for its length.
pub proof fn law_android_packets_are_refused_for_cause(
    packet: Seq<u8>,
    received: usize,
    verdict: Result<(), TransportError>,
)
    requires
        header_at(packet, received) is Ok,
    ensures
        ({
            let opcode = header_at(packet, received)->Ok_0.opcode;
            let object = header_at(packet, received)->Ok_0.object;
            let body = packet.subrange(32, packet.len() as int);
            let decoded = decoded_android(packet, received, verdict);
            let refused = |error: WireError|
                decoded == Err::<(AndroidView, Seq<DescriptorKind>), WireError>(error);
            &&& opcode == 0 || opcode > 14 ==> refused(WireError::UnknownOpcode(opcode))
            &&& (opcode == 1 || opcode == 11) && object != 0 ==> refused(WireError::InvalidObject)
            &&& 2 <= opcode <= 14 && opcode != 11 && object == 0 ==> refused(WireError::InvalidObject)
            &&& object != 0 && (opcode == 3 || opcode == 4 || opcode == 13 || opcode == 14)
                && body.len() > 0 ==> refused(WireError::TrailingBytes)
            &&& object != 0 && (opcode == 5 || opcode == 9 || opcode == 10) && body.len() < 4
                ==> refused(WireError::Truncated)
            &&& object != 0 && (opcode == 7 || opcode == 12) && body.len() < 8 ==> refused(
                WireError::Truncated,
            )
            &&& object != 0 && opcode == 8 && body.len() < 36 ==> refused(WireError::Truncated)
            &&& object == 0 && opcode == 11 && body.len() < 8 ==> refused(WireError::Truncated)
            &&& object == 0 && opcode == 11 && body.len() > 8 ==> refused(WireError::TrailingBytes)
            &&& object == 0 && opcode == 1 && body.len() < 4 ==> refused(WireError::Truncated)
            &&& object == 0 && opcode == 11 && body.len() == 8 && received != 0 ==> refused(
                WireError::DescriptorCount { expected: 0, actual: received },
            )
            &&& object != 0 && opcode == 4 && body.len() == 0 && received != 2 ==> refused(
                WireError::DescriptorCount { expected: 2, actual: received },
            )
        }),
{
}

/// Law: the buffer that a packet registers is found in a packet with that opcode
/// and an object, and it is the one that decoding gives.
pub proof fn law_registered_buffers_are_found(
    packet: Seq<u8>,
    received: usize,
    verdict: Result<(), TransportError>,
)
    ensures
        android_buffer_at(packet, received) is Some ==> {
            &&& header_at(packet, received) is Ok
            &&& header_at(packet, received)->Ok_0.opcode == 6
            &&& header_at(packet, received)->Ok_0.object != 0
        },
        decoded_android(packet, received, verdict) matches Ok((message, _)) ==> match message {
            AndroidView::RegisterBuffer { buffer, .. } => android_buffer_at(packet, received)
                == Some(buffer),
            _ => android_buffer_at(packet, received) is None,
        },
{
}

} // verus!
