//! Messages from the Denial host to the Android cell.

use vstd::prelude::*;

use super::android::decoded_android;
use super::codes::{
    decode_error_code, decode_transform, decode_visibility, error_code_of, transform_of,
    visibility_of,
};
use super::fields::{
    bits_error, bool_of, buffer_at, buffer_bytes, buffer_error, configure_error,
    connection_error, decode_bool, decode_input, encode_buffer, encode_input, event_at,
    event_bytes, first, formats_at, formats_bytes, given, known_bits, lemma_buffer_canonical,
    lemma_buffer_len, lemma_buffer_round_trip, lemma_event_canonical, lemma_event_round_trip,
    lemma_formats_canonical, lemma_formats_error, lemma_formats_len, lemma_formats_round_trip,
    modifier_error, nonzero, object_error, plane_count_error, read_buffer, require_connection,
    server_hello_error, unless, valid_object, validate_buffer, validate_configure,
    validate_server_hello, zero_error,
};
use super::packet::{
    finish_packet, framed, header_at, layout_error, lemma_header_canonical,
    lemma_header_round_trip, packet_bytes, packet_minor, packet_view, parse_header, payload_of,
    plane_roles, plane_roles_view, validate_descriptor_layout,
};
use super::wire::{
    lemma_le_at_first, lemma_le_at_second, lemma_le_at_whole, lemma_le_bytes_len,
    lemma_le_bytes_of_value, lemma_spans, lemma_string_canonical, lemma_string_round_trip, le_at,
    le_bytes, string_at, string_bytes, string_fits, Reader, Writer,
};
use super::{
    presentation_flag, BufferId, BufferMetadata, BufferView, DecodedPacket, DenialMessage,
    DenialView, DescriptorKind, EncodedPacket, FormatModifier, FrameId, TaskObjectId,
    TransportError, Visibility, WireError, MAX_ERROR_BYTES, MAX_FORMATS, PROTOCOL_MINOR,
};

verus! {

pub const OP_SERVER_HELLO: u16 = 0x8001;

pub const OP_FORMAT_FEEDBACK: u16 = 0x8002;

pub const OP_CONFIGURE: u16 = 0x8003;

pub const OP_INSETS: u16 = 0x8004;

pub const OP_VISIBILITY: u16 = 0x8005;

pub const OP_CLOSE: u16 = 0x8006;

pub const OP_BUFFER_RELEASED: u16 = 0x8007;

pub const OP_PRESENTED: u16 = 0x8008;

pub const OP_INPUT: u16 = 0x8009;

pub const OP_ERROR: u16 = 0x800a;

pub const OP_PING: u16 = 0x800b;

pub const OP_REGISTER_RENDER_TARGET: u16 = 0x800c;

pub const OP_UNREGISTER_RENDER_TARGET: u16 = 0x800d;

/// Opcode of a message.
pub open spec fn denial_opcode(message: DenialView) -> u16 {
    match message {
        DenialView::ServerHello { .. } => OP_SERVER_HELLO,
        DenialView::FormatFeedback { .. } => OP_FORMAT_FEEDBACK,
        DenialView::RegisterRenderTarget { .. } => OP_REGISTER_RENDER_TARGET,
        DenialView::UnregisterRenderTarget { .. } => OP_UNREGISTER_RENDER_TARGET,
        DenialView::Configure { .. } => OP_CONFIGURE,
        DenialView::Insets { .. } => OP_INSETS,
        DenialView::Visibility { .. } => OP_VISIBILITY,
        DenialView::Close { .. } => OP_CLOSE,
        DenialView::BufferReleased { .. } => OP_BUFFER_RELEASED,
        DenialView::Presented { .. } => OP_PRESENTED,
        DenialView::Input { .. } => OP_INPUT,
        DenialView::Error { .. } => OP_ERROR,
        DenialView::Ping { .. } => OP_PING,
    }
}

/// Task object of a message, or zero for the connection.
pub open spec fn denial_object(message: DenialView) -> u64 {
    match message {
        DenialView::ServerHello { .. } => 0,
        DenialView::FormatFeedback { object, .. } => object.0,
        DenialView::RegisterRenderTarget { object, .. } => object.0,
        DenialView::UnregisterRenderTarget { object, .. } => object.0,
        DenialView::Configure { object, .. } => object.0,
        DenialView::Insets { object, .. } => object.0,
        DenialView::Visibility { object, .. } => object.0,
        DenialView::Close { object } => object.0,
        DenialView::BufferReleased { object, .. } => object.0,
        DenialView::Presented { object, .. } => object.0,
        DenialView::Input { object, .. } => object.0,
        DenialView::Error { object: Some(object), .. } => object.0,
        DenialView::Error { object: None, .. } => 0,
        DenialView::Ping { .. } => 0,
    }
}

/// Descriptor roles attached to a message, in order.
pub open spec fn denial_roles(message: DenialView) -> Seq<DescriptorKind> {
    match message {
        DenialView::RegisterRenderTarget { buffer, .. } => plane_roles_view(buffer.planes.len()),
        _ => Seq::empty(),
    }
}

/// Number of formats in one feedback generation.
pub open spec fn format_count_error(count: nat) -> Option<WireError> {
    if count == 0 || count > MAX_FORMATS {
        Some(WireError::Limit { field: "format feedback" })
    } else {
        None
    }
}

/// Modifiers of one feedback generation.
pub open spec fn format_list_error(formats: Seq<FormatModifier>) -> Option<WireError> {
    if exists|i: int| 0 <= i < formats.len() && modifier_error(#[trigger] formats[i]) is Some {
        Some(WireError::InvalidEnum { field: "DRM modifier", value: u64::MAX })
    } else {
        None
    }
}

/// Identities and point of a release.
pub open spec fn release_error(frame: FrameId, buffer: BufferId, release_point: u64) -> Option<
    WireError,
> {
    first(
        zero_error("frame ID", frame.0),
        first(zero_error("buffer ID", buffer.0), zero_error("release point", release_point)),
    )
}

/// Identity, period and flags of a presentation report.
pub open spec fn presented_error(frame: FrameId, refresh_period_nanos: u64, flags: u32) -> Option<
    WireError,
> {
    first(
        zero_error("frame ID", frame.0),
        first(
            zero_error("refresh period", refresh_period_nanos),
            bits_error("presentation flags", flags as u64, presentation_flag::KNOWN as u64),
        ),
    )
}

/// Size of a diagnostic text.
pub open spec fn text_error(message: Seq<char>) -> Option<WireError> {
    if string_fits(message, MAX_ERROR_BYTES as int) {
        None
    } else {
        Some(WireError::InvalidString { field: "error" })
    }
}

/// First reason to refuse to encode a message; `verdict` is what the
/// transport says of the buffer metadata in it.
pub open spec fn denial_error(message: DenialView, verdict: Result<(), TransportError>) -> Option<
    WireError,
> {
    let object = object_error(denial_object(message));
    match message {
        DenialView::ServerHello {
            major,
            minor,
            capabilities,
            max_task_objects,
            max_buffers_per_task,
            max_damage_rects,
        } => server_hello_error(
            major,
            minor,
            capabilities,
            max_task_objects,
            max_buffers_per_task,
            max_damage_rects,
        ),
        DenialView::FormatFeedback { generation, formats, .. } => first(
            zero_error("feedback generation", generation as u64),
            first(format_count_error(formats.len()), first(format_list_error(formats), object)),
        ),
        DenialView::RegisterRenderTarget { configure_serial, buffer, .. } => first(
            zero_error("configure serial", configure_serial as u64),
            first(
                buffer_error("render-target identity or modifier", buffer, verdict),
                first(plane_count_error(buffer.planes.len()), object),
            ),
        ),
        DenialView::UnregisterRenderTarget { buffer, .. } => first(
            zero_error("render-target ID", buffer.0),
            object,
        ),
        DenialView::Configure {
            serial,
            width,
            height,
            scale_numerator,
            scale_denominator,
            refresh_millihz,
            ..
        } => first(
            configure_error(
                serial,
                width,
                height,
                scale_numerator,
                scale_denominator,
                refresh_millihz,
            ),
            object,
        ),
        DenialView::BufferReleased { frame, buffer, release_point, .. } => first(
            release_error(frame, buffer, release_point),
            object,
        ),
        DenialView::Presented { frame, refresh_period_nanos, flags, .. } => first(
            presented_error(frame, refresh_period_nanos, flags),
            object,
        ),
        DenialView::Input { serial, .. } => first(zero_error("input serial", serial), object),
        DenialView::Error { object: scope, message, .. } => first(
            text_error(message),
            if scope is Some {
                object
            } else {
                None
            },
        ),
        DenialView::Ping { .. } => None,
        _ => object,
    }
}

/// Payload of a message.
pub open spec fn denial_payload(message: DenialView) -> Seq<u8> {
    match message {
        DenialView::ServerHello {
            major,
            minor,
            capabilities,
            max_task_objects,
            max_buffers_per_task,
            max_damage_rects,
        } => {
            le_bytes(major as nat, 2) + le_bytes(minor as nat, 2) + le_bytes(
                capabilities as nat,
                8,
            ) + le_bytes(max_task_objects as nat, 4) + le_bytes(max_buffers_per_task as nat, 4)
                + le_bytes(max_damage_rects as nat, 4)
        },
        DenialView::FormatFeedback { generation, formats, .. } => {
            le_bytes(generation as nat, 4) + le_bytes(formats.len(), 2) + formats_bytes(formats)
        },
        DenialView::RegisterRenderTarget { configure_serial, buffer, .. } => {
            le_bytes(configure_serial as nat, 4) + buffer_bytes(buffer)
        },
        DenialView::UnregisterRenderTarget { buffer, .. } => le_bytes(buffer.0 as nat, 8),
        DenialView::Configure {
            serial,
            width,
            height,
            scale_numerator,
            scale_denominator,
            transform,
            refresh_millihz,
            ..
        } => {
            le_bytes(serial as nat, 4) + le_bytes(width as nat, 4) + le_bytes(height as nat, 4)
                + le_bytes(scale_numerator as nat, 4) + le_bytes(scale_denominator as nat, 4)
                + le_bytes(transform.number() as nat, 1) + le_bytes(refresh_millihz as nat, 4)
        },
        DenialView::Insets { left, top, right, bottom, .. } => {
            le_bytes(left as nat, 4) + le_bytes(top as nat, 4) + le_bytes(right as nat, 4)
                + le_bytes(bottom as nat, 4)
        },
        DenialView::Visibility { visibility, focused, .. } => {
            le_bytes(visibility.number() as nat, 1) + le_bytes(
                if focused {
                    1
                } else {
                    0
                },
                1,
            )
        },
        DenialView::Close { .. } => Seq::empty(),
        DenialView::BufferReleased { frame, buffer, release_point, .. } => {
            le_bytes(frame.0 as nat, 8) + le_bytes(buffer.0 as nat, 8) + le_bytes(
                release_point as nat,
                8,
            )
        },
        DenialView::Presented {
            frame,
            timestamp_nanos,
            refresh_period_nanos,
            sequence,
            flags,
            ..
        } => {
            le_bytes(frame.0 as nat, 8) + le_bytes(timestamp_nanos as nat, 8) + le_bytes(
                refresh_period_nanos as nat,
                8,
            ) + le_bytes(sequence as nat, 8) + le_bytes(flags as nat, 4)
        },
        DenialView::Input { serial, timestamp_nanos, event, .. } => {
            le_bytes(serial as nat, 8) + le_bytes(timestamp_nanos as nat, 8) + event_bytes(event)
        },
        DenialView::Error { code, offending_opcode, message, .. } => {
            le_bytes(code.number() as nat, 2) + le_bytes(offending_opcode as nat, 2)
                + string_bytes(message)
        },
        DenialView::Ping { cookie } => le_bytes(cookie as nat, 8),
    }
}

/// Result of encoding a message.
pub open spec fn encoded_denial(
    message: DenialView,
    verdict: Result<(), TransportError>,
) -> Result<(Seq<u8>, Seq<DescriptorKind>), WireError> {
    match denial_error(message, verdict) {
        Some(error) => Err(error),
        None => framed(
            denial_opcode(message),
            denial_object(message),
            denial_payload(message),
            denial_roles(message),
        ),
    }
}

/// Append the fields of a feedback generation.
fn encode_feedback(payload: &mut Writer, generation: u32, formats: &Vec<FormatModifier>) -> (result:
    Result<(), WireError>)
    requires
        old(payload).bytes@ == Seq::<u8>::empty(),
    ensures
        ({
            let error = first(
                zero_error("feedback generation", generation as u64),
                first(format_count_error(formats@.len()), format_list_error(formats@)),
            );
            match result {
                Ok(_) => {
                    &&& error is None
                    &&& final(payload).bytes@ == le_bytes(generation as nat, 4) + le_bytes(
                        formats@.len(),
                        2,
                    ) + formats_bytes(formats@)
                },
                Err(refused) => error == Some(refused),
            }
        }),
{
    nonzero("feedback generation", generation as u64)?;
    if formats.len() == 0 || formats.len() > MAX_FORMATS {
        return Err(WireError::Limit { field: "format feedback" });
    }
    payload.u32(generation);
    payload.u16(formats.len() as u16);
    let ghost head = payload.bytes@;
    let mut index: usize = 0;
    assert(head + formats_bytes(formats@.take(0)) =~= head);
    while index < formats.len()
        invariant
            index <= formats@.len() <= MAX_FORMATS,
            0 < formats@.len(),
            generation != 0,
            payload.bytes@ == head + formats_bytes(formats@.take(index as int)),
            forall|i: int| 0 <= i < index ==> modifier_error(#[trigger] formats@[i]) is None,
        decreases formats@.len() - index,
    {
        let format: FormatModifier = formats[index];
        if format.modifier == u64::MAX {
            assert(modifier_error(formats@[index as int]) is Some);
            return Err(WireError::InvalidEnum { field: "DRM modifier", value: format.modifier });
        }
        proof {
            let next = formats@.take(index + 1);
            assert(next.drop_last() =~= formats@.take(index as int));
            assert(next.last() == format);
        }
        payload.u32(format.fourcc);
        payload.u64(format.modifier);
        index = index + 1;
        assert(payload.bytes@ =~= head + formats_bytes(formats@.take(index as int)));
    }
    assert(formats@.take(index as int) =~= formats@);
    proof {
        let empty = Seq::<u8>::empty();
        assert(empty + le_bytes(generation as nat, 4) =~= le_bytes(generation as nat, 4));
    }
    Ok(())
}

/// Encode one Denial-to-Android message.
///
/// `verdict` is what the transport says of the buffer metadata in the message;
/// other messages do not depend on it.
#[verifier::rlimit(40)]
#[verifier::spinoff_prover]
pub fn encode_denial(message: &DenialMessage, verdict: Result<(), TransportError>) -> (result:
    Result<EncodedPacket, WireError>)
    ensures
        packet_view(result) == encoded_denial(message@, verdict),
{
    let mut payload = Writer::new();
    let opcode: u16;
    let object: u64;
    let mut descriptors: Vec<DescriptorKind> = Vec::new();
    match message {
        DenialMessage::ServerHello {
            major,
            minor,
            capabilities,
            max_task_objects,
            max_buffers_per_task,
            max_damage_rects,
        } => {
            validate_server_hello(
                *major,
                *minor,
                *capabilities,
                *max_task_objects,
                *max_buffers_per_task,
                *max_damage_rects,
            )?;
            payload.u16(*major);
            payload.u16(*minor);
            payload.u64(*capabilities);
            payload.u32(*max_task_objects);
            payload.u32(*max_buffers_per_task);
            payload.u32(*max_damage_rects);
            opcode = OP_SERVER_HELLO;
            object = 0;
        },
        DenialMessage::FormatFeedback { object: task_object, generation, formats } => {
            encode_feedback(&mut payload, *generation, formats)?;
            opcode = OP_FORMAT_FEEDBACK;
            object = valid_object(*task_object)?;
        },
        DenialMessage::RegisterRenderTarget { object: task_object, configure_serial, buffer } => {
            nonzero("configure serial", *configure_serial as u64)?;
            validate_buffer("render-target identity or modifier", buffer, verdict)?;
            payload.u32(*configure_serial);
            encode_buffer(&mut payload, buffer)?;
            opcode = OP_REGISTER_RENDER_TARGET;
            object = valid_object(*task_object)?;
            descriptors = plane_roles(buffer.planes.len());
        },
        DenialMessage::UnregisterRenderTarget { object: task_object, buffer } => {
            nonzero("render-target ID", buffer.0)?;
            payload.u64(buffer.0);
            opcode = OP_UNREGISTER_RENDER_TARGET;
            object = valid_object(*task_object)?;
        },
        DenialMessage::Configure {
            object: task_object,
            serial,
            width,
            height,
            scale_numerator,
            scale_denominator,
            transform,
            refresh_millihz,
        } => {
            validate_configure(
                *serial,
                *width,
                *height,
                *scale_numerator,
                *scale_denominator,
                *refresh_millihz,
            )?;
            payload.u32(*serial);
            payload.u32(*width);
            payload.u32(*height);
            payload.u32(*scale_numerator);
            payload.u32(*scale_denominator);
            payload.u8(transform.code());
            payload.u32(*refresh_millihz);
            opcode = OP_CONFIGURE;
            object = valid_object(*task_object)?;
        },
        DenialMessage::Insets { object: task_object, left, top, right, bottom } => {
            payload.u32(*left);
            payload.u32(*top);
            payload.u32(*right);
            payload.u32(*bottom);
            opcode = OP_INSETS;
            object = valid_object(*task_object)?;
        },
        DenialMessage::Visibility { object: task_object, visibility, focused } => {
            payload.u8(visibility.code());
            payload.u8(
                if *focused {
                    1
                } else {
                    0
                },
            );
            opcode = OP_VISIBILITY;
            object = valid_object(*task_object)?;
        },
        DenialMessage::Close { object: task_object } => {
            opcode = OP_CLOSE;
            object = valid_object(*task_object)?;
        },
        DenialMessage::BufferReleased { object: task_object, frame, buffer, release_point } => {
            nonzero("frame ID", frame.0)?;
            nonzero("buffer ID", buffer.0)?;
            nonzero("release point", *release_point)?;
            payload.u64(frame.0);
            payload.u64(buffer.0);
            payload.u64(*release_point);
            opcode = OP_BUFFER_RELEASED;
            object = valid_object(*task_object)?;
        },
        DenialMessage::Presented {
            object: task_object,
            frame,
            timestamp_nanos,
            refresh_period_nanos,
            sequence,
            flags,
        } => {
            nonzero("frame ID", frame.0)?;
            nonzero("refresh period", *refresh_period_nanos)?;
            known_bits("presentation flags", *flags as u64, presentation_flag::KNOWN as u64)?;
            payload.u64(frame.0);
            payload.u64(*timestamp_nanos);
            payload.u64(*refresh_period_nanos);
            payload.u64(*sequence);
            payload.u32(*flags);
            opcode = OP_PRESENTED;
            object = valid_object(*task_object)?;
        },
        DenialMessage::Input { object: task_object, serial, timestamp_nanos, event } => {
            nonzero("input serial", *serial)?;
            payload.u64(*serial);
            payload.u64(*timestamp_nanos);
            encode_input(&mut payload, *event);
            opcode = OP_INPUT;
            object = valid_object(*task_object)?;
        },
        DenialMessage::Error { object: scope, code, offending_opcode, message: text } => {
            payload.u16(code.code());
            payload.u16(*offending_opcode);
            payload.string(text.as_str(), MAX_ERROR_BYTES, "error")?;
            opcode = OP_ERROR;
            object = match scope {
                Some(task_object) => valid_object(*task_object)?,
                None => 0,
            };
        },
        DenialMessage::Ping { cookie } => {
            payload.u64(*cookie);
            opcode = OP_PING;
            object = 0;
        },
    }
    assert(payload.bytes@ =~= denial_payload(message@));
    assert(descriptors@ =~= denial_roles(message@));
    finish_packet(opcode, object, payload.bytes.as_slice(), descriptors)
}

/// A message read from a payload and the offset after it, or the first error.
pub type DenialRead = Result<(DenialView, int), WireError>;

/// Feedback generation in a payload.
pub open spec fn feedback_at(object: TaskObjectId, bytes: Seq<u8>) -> DenialRead {
    let generation = le_at(bytes, 0, 4) as u32;
    let count = le_at(bytes, 4, 2);
    given(
        bytes,
        4,
        unless(
            zero_error("feedback generation", generation as u64),
            given(
                bytes,
                6,
                unless(
                    format_count_error(count),
                    match formats_at(bytes, 6, count) {
                        Err(error) => Err(error),
                        Ok(formats) => Ok(
                            (
                                DenialView::FormatFeedback { object, generation, formats },
                                (6 + 12 * count) as int,
                            ),
                        ),
                    },
                ),
            ),
        ),
    )
}

/// Render-target registration in a payload.
pub open spec fn render_target_at(
    object: TaskObjectId,
    bytes: Seq<u8>,
    verdict: Result<(), TransportError>,
) -> DenialRead {
    let configure_serial = le_at(bytes, 0, 4) as u32;
    given(
        bytes,
        4,
        unless(
            zero_error("configure serial", configure_serial as u64),
            match buffer_at(bytes, 4) {
                Err(error) => Err(error),
                Ok((buffer, next)) => unless(
                    buffer_error("buffer identity or modifier", buffer, verdict),
                    Ok(
                        (
                            DenialView::RegisterRenderTarget { object, configure_serial, buffer },
                            next,
                        ),
                    ),
                ),
            },
        ),
    )
}

/// Configure in a payload.
pub open spec fn configure_at(object: TaskObjectId, bytes: Seq<u8>) -> DenialRead {
    let serial = le_at(bytes, 0, 4) as u32;
    let width = le_at(bytes, 4, 4) as u32;
    let height = le_at(bytes, 8, 4) as u32;
    let scale_numerator = le_at(bytes, 12, 4) as u32;
    let scale_denominator = le_at(bytes, 16, 4) as u32;
    let refresh_millihz = le_at(bytes, 21, 4) as u32;
    given(
        bytes,
        21,
        match transform_of(le_at(bytes, 20, 1) as u8) {
            Err(error) => Err(error),
            Ok(transform) => given(
                bytes,
                25,
                unless(
                    configure_error(
                        serial,
                        width,
                        height,
                        scale_numerator,
                        scale_denominator,
                        refresh_millihz,
                    ),
                    Ok(
                        (
                            DenialView::Configure {
                                object,
                                serial,
                                width,
                                height,
                                scale_numerator,
                                scale_denominator,
                                transform,
                                refresh_millihz,
                            },
                            25,
                        ),
                    ),
                ),
            ),
        },
    )
}

/// Visibility update in a payload.
pub open spec fn visibility_at(object: TaskObjectId, bytes: Seq<u8>) -> DenialRead {
    given(
        bytes,
        1,
        match visibility_of(le_at(bytes, 0, 1) as u8) {
            Err(error) => Err(error),
            Ok(visibility) => given(
                bytes,
                2,
                match bool_of(le_at(bytes, 1, 1) as u8, "focus") {
                    Err(error) => Err(error),
                    Ok(focused) => Ok((DenialView::Visibility { object, visibility, focused }, 2)),
                },
            ),
        },
    )
}

/// Release in a payload.
pub open spec fn released_at(object: TaskObjectId, bytes: Seq<u8>) -> DenialRead {
    let frame = FrameId(le_at(bytes, 0, 8) as u64);
    let buffer = BufferId(le_at(bytes, 8, 8) as u64);
    let release_point = le_at(bytes, 16, 8) as u64;
    given(
        bytes,
        24,
        unless(
            release_error(frame, buffer, release_point),
            Ok((DenialView::BufferReleased { object, frame, buffer, release_point }, 24)),
        ),
    )
}

/// Presentation report in a payload.
pub open spec fn presented_at(object: TaskObjectId, bytes: Seq<u8>) -> DenialRead {
    let frame = FrameId(le_at(bytes, 0, 8) as u64);
    let timestamp_nanos = le_at(bytes, 8, 8) as u64;
    let refresh_period_nanos = le_at(bytes, 16, 8) as u64;
    let sequence = le_at(bytes, 24, 8) as u64;
    let flags = le_at(bytes, 32, 4) as u32;
    given(
        bytes,
        36,
        unless(
            presented_error(frame, refresh_period_nanos, flags),
            Ok(
                (
                    DenialView::Presented {
                        object,
                        frame,
                        timestamp_nanos,
                        refresh_period_nanos,
                        sequence,
                        flags,
                    },
                    36,
                ),
            ),
        ),
    )
}

/// Input in a payload.
pub open spec fn input_at(object: TaskObjectId, bytes: Seq<u8>) -> DenialRead {
    let serial = le_at(bytes, 0, 8) as u64;
    let timestamp_nanos = le_at(bytes, 8, 8) as u64;
    given(
        bytes,
        8,
        unless(
            zero_error("input serial", serial),
            given(
                bytes,
                16,
                match event_at(bytes, 16) {
                    Err(error) => Err(error),
                    Ok((event, next)) => Ok(
                        (DenialView::Input { object, serial, timestamp_nanos, event }, next),
                    ),
                },
            ),
        ),
    )
}

/// Error report in a payload.
pub open spec fn error_at(object: u64, bytes: Seq<u8>) -> DenialRead {
    given(
        bytes,
        2,
        match error_code_of(le_at(bytes, 0, 2) as u16) {
            Err(error) => Err(error),
            Ok(code) => given(
                bytes,
                4,
                match string_at(bytes, 4, MAX_ERROR_BYTES as int, "error") {
                    Err(error) => Err(error),
                    Ok((message, next)) => Ok(
                        (
                            DenialView::Error {
                                object: if object != 0 {
                                    Some(TaskObjectId(object))
                                } else {
                                    None
                                },
                                code,
                                offending_opcode: le_at(bytes, 2, 2) as u16,
                                message,
                            },
                            next,
                        ),
                    ),
                },
            ),
        },
    )
}

/// Server greeting in a payload.
pub open spec fn server_hello_at(bytes: Seq<u8>) -> DenialRead {
    let major = le_at(bytes, 0, 2) as u16;
    let minor = le_at(bytes, 2, 2) as u16;
    let capabilities = le_at(bytes, 4, 8) as u64;
    let max_task_objects = le_at(bytes, 12, 4) as u32;
    let max_buffers_per_task = le_at(bytes, 16, 4) as u32;
    let max_damage_rects = le_at(bytes, 20, 4) as u32;
    given(
        bytes,
        24,
        unless(
            server_hello_error(
                major,
                minor,
                capabilities,
                max_task_objects,
                max_buffers_per_task,
                max_damage_rects,
            ),
            Ok(
                (
                    DenialView::ServerHello {
                        major,
                        minor,
                        capabilities,
                        max_task_objects,
                        max_buffers_per_task,
                        max_damage_rects,
                    },
                    24,
                ),
            ),
        ),
    )
}

/// Message of the given opcode and object in a payload.
pub open spec fn denial_at(
    opcode: u16,
    object: u64,
    bytes: Seq<u8>,
    verdict: Result<(), TransportError>,
) -> DenialRead {
    let id = TaskObjectId(object);
    let long = le_at(bytes, 0, 8) as u64;
    if opcode == OP_SERVER_HELLO {
        unless(connection_error(object), server_hello_at(bytes))
    } else if opcode == OP_PING {
        unless(
            connection_error(object),
            given(bytes, 8, Ok((DenialView::Ping { cookie: long }, 8))),
        )
    } else if opcode == OP_ERROR {
        error_at(object, bytes)
    } else if opcode == OP_FORMAT_FEEDBACK {
        unless(object_error(object), feedback_at(id, bytes))
    } else if opcode == OP_REGISTER_RENDER_TARGET {
        unless(object_error(object), render_target_at(id, bytes, verdict))
    } else if opcode == OP_UNREGISTER_RENDER_TARGET {
        unless(
            object_error(object),
            given(
                bytes,
                8,
                unless(
                    zero_error("render-target ID", long),
                    Ok(
                        (
                            DenialView::UnregisterRenderTarget { object: id, buffer: BufferId(long) },
                            8,
                        ),
                    ),
                ),
            ),
        )
    } else if opcode == OP_CONFIGURE {
        unless(object_error(object), configure_at(id, bytes))
    } else if opcode == OP_INSETS {
        unless(
            object_error(object),
            given(
                bytes,
                16,
                Ok(
                    (
                        DenialView::Insets {
                            object: id,
                            left: le_at(bytes, 0, 4) as u32,
                            top: le_at(bytes, 4, 4) as u32,
                            right: le_at(bytes, 8, 4) as u32,
                            bottom: le_at(bytes, 12, 4) as u32,
                        },
                        16,
                    ),
                ),
            ),
        )
    } else if opcode == OP_VISIBILITY {
        unless(object_error(object), visibility_at(id, bytes))
    } else if opcode == OP_CLOSE {
        unless(object_error(object), Ok((DenialView::Close { object: id }, 0)))
    } else if opcode == OP_BUFFER_RELEASED {
        unless(object_error(object), released_at(id, bytes))
    } else if opcode == OP_PRESENTED {
        unless(object_error(object), presented_at(id, bytes))
    } else if opcode == OP_INPUT {
        unless(object_error(object), input_at(id, bytes))
    } else {
        Err(WireError::UnknownOpcode(opcode))
    }
}

/// Result of decoding a packet received with `received` descriptors.
pub open spec fn decoded_denial(
    packet: Seq<u8>,
    received: usize,
    verdict: Result<(), TransportError>,
) -> Result<(DenialView, Seq<DescriptorKind>), WireError> {
    match header_at(packet, received) {
        Err(error) => Err(error),
        Ok(header) => match denial_at(
            header.opcode,
            header.object,
            payload_of(packet),
            verdict,
        ) {
            Err(error) => Err(error),
            Ok((message, next)) => if next < payload_of(packet).len() {
                Err(WireError::TrailingBytes)
            } else {
                match layout_error(header.fd_count, received, denial_roles(message).len()) {
                    Some(error) => Err(error),
                    None => Ok((message, denial_roles(message))),
                }
            },
        },
    }
}

/// Contents of the result of the decoder.
pub open spec fn decoded_view(result: Result<DecodedPacket<DenialMessage>, WireError>) -> Result<
    (DenialView, Seq<DescriptorKind>),
    WireError,
> {
    match result {
        Ok(packet) => Ok((packet.message@, packet.descriptors@)),
        Err(error) => Err(error),
    }
}

/// Whether a read message and cursor are the expected ones.
spec fn read_is(
    result: Result<DenialMessage, WireError>,
    before: Reader<'_>,
    after: Reader<'_>,
    expected: DenialRead,
) -> bool {
    &&& after.wf()
    &&& after.bytes@ == before.bytes@
    &&& match (result, expected) {
        (Ok(message), Ok((view, next))) => {
            &&& message@ == view
            &&& after.position == next
        },
        (Err(error), Err(expected)) => error == expected,
        _ => false,
    }
}

/// Read a feedback generation.
fn decode_feedback(object: TaskObjectId, payload: &mut Reader<'_>) -> (result: Result<
    DenialMessage,
    WireError,
>)
    requires
        old(payload).wf(),
        old(payload).position == 0,
    ensures
        read_is(result, *old(payload), *final(payload), feedback_at(object, old(payload).bytes@)),
{
    let ghost bytes = payload.bytes@;
    let generation: u32 = payload.u32()?;
    nonzero("feedback generation", generation as u64)?;
    let count: usize = payload.u16()? as usize;
    if count == 0 || count > MAX_FORMATS {
        return Err(WireError::Limit { field: "format feedback" });
    }
    let mut formats: Vec<FormatModifier> = Vec::new();
    let mut index: usize = 0;
    while index < count
        invariant
            index <= count <= MAX_FORMATS,
            0 < count,
            generation != 0,
            payload.wf(),
            payload.bytes@ == bytes,
            old(payload).bytes@ == bytes,
            bytes.len() >= 6,
            payload.position == 6 + 12 * index,
            generation == le_at(bytes, 0, 4) as u32,
            count == le_at(bytes, 4, 2),
            formats_at(bytes, 6, index as nat) == Ok::<Seq<FormatModifier>, WireError>(formats@),
        decreases count - index,
    {
        proof {
            if formats_at(bytes, 6, (index + 1) as nat) is Err {
                lemma_formats_error(bytes, 6, (index + 1) as nat, count as nat);
            }
        }
        let format = FormatModifier { fourcc: payload.u32()?, modifier: payload.u64()? };
        if format.modifier == u64::MAX {
            return Err(WireError::InvalidEnum { field: "DRM modifier", value: format.modifier });
        }
        formats.push(format);
        index = index + 1;
    }
    Ok(DenialMessage::FormatFeedback { object, generation, formats })
}

/// Read a render-target registration.
fn decode_render_target(
    object: TaskObjectId,
    payload: &mut Reader<'_>,
    verdict: Result<(), TransportError>,
) -> (result: Result<DenialMessage, WireError>)
    requires
        old(payload).wf(),
        old(payload).position == 0,
    ensures
        read_is(
            result,
            *old(payload),
            *final(payload),
            render_target_at(object, old(payload).bytes@, verdict),
        ),
{
    let configure_serial: u32 = payload.u32()?;
    nonzero("configure serial", configure_serial as u64)?;
    let buffer = read_buffer(payload)?;
    validate_buffer("buffer identity or modifier", &buffer, verdict)?;
    Ok(DenialMessage::RegisterRenderTarget { object, configure_serial, buffer })
}

/// Read a configure.
fn decode_configure(object: TaskObjectId, payload: &mut Reader<'_>) -> (result: Result<
    DenialMessage,
    WireError,
>)
    requires
        old(payload).wf(),
        old(payload).position == 0,
    ensures
        read_is(result, *old(payload), *final(payload), configure_at(object, old(payload).bytes@)),
{
    let serial: u32 = payload.u32()?;
    let width: u32 = payload.u32()?;
    let height: u32 = payload.u32()?;
    let scale_numerator: u32 = payload.u32()?;
    let scale_denominator: u32 = payload.u32()?;
    let transform = decode_transform(payload.u8()?)?;
    let refresh_millihz: u32 = payload.u32()?;
    validate_configure(
        serial,
        width,
        height,
        scale_numerator,
        scale_denominator,
        refresh_millihz,
    )?;
    Ok(
        DenialMessage::Configure {
            object,
            serial,
            width,
            height,
            scale_numerator,
            scale_denominator,
            transform,
            refresh_millihz,
        },
    )
}

/// Read a server greeting.
fn decode_server_hello(payload: &mut Reader<'_>) -> (result: Result<DenialMessage, WireError>)
    requires
        old(payload).wf(),
        old(payload).position == 0,
    ensures
        read_is(result, *old(payload), *final(payload), server_hello_at(old(payload).bytes@)),
{
    let major: u16 = payload.u16()?;
    let minor: u16 = payload.u16()?;
    let capabilities: u64 = payload.u64()?;
    let max_task_objects: u32 = payload.u32()?;
    let max_buffers_per_task: u32 = payload.u32()?;
    let max_damage_rects: u32 = payload.u32()?;
    validate_server_hello(
        major,
        minor,
        capabilities,
        max_task_objects,
        max_buffers_per_task,
        max_damage_rects,
    )?;
    Ok(
        DenialMessage::ServerHello {
            major,
            minor,
            capabilities,
            max_task_objects,
            max_buffers_per_task,
            max_damage_rects,
        },
    )
}

/// Read a presentation report.
fn decode_presented(object: TaskObjectId, payload: &mut Reader<'_>) -> (result: Result<
    DenialMessage,
    WireError,
>)
    requires
        old(payload).wf(),
        old(payload).position == 0,
    ensures
        read_is(result, *old(payload), *final(payload), presented_at(object, old(payload).bytes@)),
{
    let frame = FrameId(payload.u64()?);
    let timestamp_nanos: u64 = payload.u64()?;
    let refresh_period_nanos: u64 = payload.u64()?;
    let sequence: u64 = payload.u64()?;
    let flags: u32 = payload.u32()?;
    nonzero("frame ID", frame.0)?;
    nonzero("refresh period", refresh_period_nanos)?;
    known_bits("presentation flags", flags as u64, presentation_flag::KNOWN as u64)?;
    Ok(
        DenialMessage::Presented {
            object,
            frame,
            timestamp_nanos,
            refresh_period_nanos,
            sequence,
            flags,
        },
    )
}

/// Read the message of the given opcode and object.
#[verifier::rlimit(40)]
#[verifier::spinoff_prover]
fn decode_denial_payload(
    opcode: u16,
    object_id: u64,
    payload: &mut Reader<'_>,
    verdict: Result<(), TransportError>,
) -> (result: Result<DenialMessage, WireError>)
    requires
        old(payload).wf(),
        old(payload).position == 0,
    ensures
        read_is(
            result,
            *old(payload),
            *final(payload),
            denial_at(opcode, object_id, old(payload).bytes@, verdict),
        ),
{
    let object = TaskObjectId(object_id);
    match opcode {
        OP_SERVER_HELLO => {
            require_connection(object_id)?;
            decode_server_hello(payload)
        },
        OP_FORMAT_FEEDBACK => {
            valid_object(object)?;
            decode_feedback(object, payload)
        },
        OP_REGISTER_RENDER_TARGET => {
            valid_object(object)?;
            decode_render_target(object, payload, verdict)
        },
        OP_UNREGISTER_RENDER_TARGET => {
            valid_object(object)?;
            let buffer = BufferId(payload.u64()?);
            nonzero("render-target ID", buffer.0)?;
            Ok(DenialMessage::UnregisterRenderTarget { object, buffer })
        },
        OP_CONFIGURE => {
            valid_object(object)?;
            decode_configure(object, payload)
        },
        OP_INSETS => {
            valid_object(object)?;
            Ok(
                DenialMessage::Insets {
                    object,
                    left: payload.u32()?,
                    top: payload.u32()?,
                    right: payload.u32()?,
                    bottom: payload.u32()?,
                },
            )
        },
        OP_VISIBILITY => {
            valid_object(object)?;
            let visibility = decode_visibility(payload.u8()?)?;
            let focused = decode_bool(payload.u8()?, "focus")?;
            Ok(DenialMessage::Visibility { object, visibility, focused })
        },
        OP_CLOSE => {
            valid_object(object)?;
            Ok(DenialMessage::Close { object })
        },
        OP_BUFFER_RELEASED => {
            valid_object(object)?;
            let frame = FrameId(payload.u64()?);
            let buffer = BufferId(payload.u64()?);
            let release_point: u64 = payload.u64()?;
            nonzero("frame ID", frame.0)?;
            nonzero("buffer ID", buffer.0)?;
            nonzero("release point", release_point)?;
            Ok(DenialMessage::BufferReleased { object, frame, buffer, release_point })
        },
        OP_PRESENTED => {
            valid_object(object)?;
            decode_presented(object, payload)
        },
        OP_INPUT => {
            valid_object(object)?;
            let serial: u64 = payload.u64()?;
            nonzero("input serial", serial)?;
            let timestamp_nanos: u64 = payload.u64()?;
            let event = decode_input(payload)?;
            Ok(DenialMessage::Input { object, serial, timestamp_nanos, event })
        },
        OP_ERROR => {
            let scope: Option<TaskObjectId> = if object_id != 0 {
                Some(object)
            } else {
                None
            };
            let code = decode_error_code(payload.u16()?)?;
            let offending_opcode: u16 = payload.u16()?;
            let message = payload.string(MAX_ERROR_BYTES, "error")?;
            Ok(DenialMessage::Error { object: scope, code, offending_opcode, message })
        },
        OP_PING => {
            require_connection(object_id)?;
            Ok(DenialMessage::Ping { cookie: payload.u64()? })
        },
        _ => Err(WireError::UnknownOpcode(opcode)),
    }
}

/// Descriptor roles of a message.
fn roles_of(message: &DenialMessage) -> (roles: Vec<DescriptorKind>)
    ensures
        roles@ == denial_roles(message@),
{
    match message {
        DenialMessage::RegisterRenderTarget { buffer, .. } => plane_roles(buffer.planes.len()),
        _ => Vec::new(),
    }
}

/// Decode one Denial-to-Android sequenced packet.
///
/// `received_descriptors` is the exact number extracted from the record's
/// ancillary data by the socket adapter. `verdict` is what the transport says
/// of the metadata that [`denial_buffer`] finds in the packet; other packets do
/// not depend on it.
pub fn decode_denial(
    packet: &[u8],
    received_descriptors: usize,
    verdict: Result<(), TransportError>,
) -> (result: Result<DecodedPacket<DenialMessage>, WireError>)
    ensures
        decoded_view(result) == decoded_denial(packet@, received_descriptors, verdict),
{
    let header = parse_header(packet, received_descriptors)?;
    let mut payload = Reader::new(header.payload);
    let message = decode_denial_payload(header.opcode, header.object, &mut payload, verdict)?;
    payload.finish()?;
    let descriptors = roles_of(&message);
    validate_descriptor_layout(header.fd_count, received_descriptors, descriptors.as_slice())?;
    Ok(DecodedPacket { message, descriptors })
}

/// Buffer metadata in a packet whose decoding depends on what the transport
/// says of it.
pub open spec fn denial_buffer_at(packet: Seq<u8>, received: usize) -> Option<BufferView> {
    let payload = payload_of(packet);
    match header_at(packet, received) {
        Ok(header) => if header.opcode == OP_REGISTER_RENDER_TARGET && header.object != 0
            && payload.len() >= 4 && le_at(payload, 0, 4) != 0 {
            match buffer_at(payload, 4) {
                Ok((buffer, _)) => Some(buffer),
                Err(_) => None,
            }
        } else {
            None
        },
        Err(_) => None,
    }
}

/// Find the buffer metadata that the transport has to judge before the packet
/// is decoded.
pub fn denial_buffer(packet: &[u8], received_descriptors: usize) -> (buffer: Option<
    BufferMetadata,
>)
    ensures
        match (buffer, denial_buffer_at(packet@, received_descriptors)) {
            (Some(buffer), Some(expected)) => buffer@ == expected,
            (None, None) => true,
            _ => false,
        },
{
    let header = match parse_header(packet, received_descriptors) {
        Ok(header) => header,
        Err(_) => {
            return None;
        },
    };
    if header.opcode != OP_REGISTER_RENDER_TARGET || header.object == 0 {
        return None;
    }
    let mut payload = Reader::new(header.payload);
    match payload.u32() {
        Ok(configure_serial) => {
            if configure_serial == 0 {
                return None;
            }
        },
        Err(_) => {
            return None;
        },
    }
    match read_buffer(&mut payload) {
        Ok(buffer) => Some(buffer),
        Err(_) => None,
    }
}

/// Size of an encodable payload.
proof fn lemma_denial_payload_len(message: DenialView, verdict: Result<(), TransportError>)
    requires
        denial_error(message, verdict) is None,
    ensures
        denial_payload(message).len() <= 5_000,
        denial_roles(message).len() <= 255,
{
    broadcast use lemma_le_bytes_len;

    match message {
        DenialView::RegisterRenderTarget { buffer, .. } => lemma_buffer_len(buffer),
        DenialView::FormatFeedback { formats, .. } => lemma_formats_len(formats),
        _ => {},
    }
}

/// Encoding succeeds exactly on the messages without an error.
pub proof fn law_denial_encodes_valid_messages(
    message: DenialView,
    verdict: Result<(), TransportError>,
)
    ensures
        encoded_denial(message, verdict) is Ok <==> denial_error(message, verdict) is None,
{
    if denial_error(message, verdict) is None {
        lemma_denial_payload_len(message, verdict);
    }
}

#[verifier::rlimit(40)]
#[verifier::spinoff_prover]
proof fn lemma_denial_payload_round_trip(message: DenialView, verdict: Result<(), TransportError>)
    requires
        denial_error(message, verdict) is None,
        message matches DenialView::RegisterRenderTarget { buffer, .. } ==> 1
            <= buffer.planes.len() <= 4,
    ensures
        denial_at(
            denial_opcode(message),
            denial_object(message),
            denial_payload(message),
            verdict,
        ) == Ok::<(DenialView, int), WireError>((message, denial_payload(message).len() as int)),
{
    broadcast use lemma_le_bytes_len, lemma_le_at_first, lemma_le_at_second, lemma_le_at_whole;

    lemma_spans();
    let bytes = denial_payload(message);
    let empty = Seq::<u8>::empty();
    match message {
        DenialView::ServerHello {
            major,
            minor,
            capabilities,
            max_task_objects,
            max_buffers_per_task,
            max_damage_rects,
        } => {
            assert(le_at(bytes, 0, 2) == major);
            assert(le_at(bytes, 2, 2) == minor);
            assert(le_at(bytes, 4, 8) == capabilities);
            assert(le_at(bytes, 12, 4) == max_task_objects);
            assert(le_at(bytes, 16, 4) == max_buffers_per_task);
            assert(le_at(bytes, 20, 4) == max_damage_rects);
        },
        DenialView::FormatFeedback { generation, formats, .. } => {
            let head = le_bytes(generation as nat, 4) + le_bytes(formats.len(), 2);
            lemma_formats_len(formats);
            lemma_formats_round_trip(head, formats, empty);
            assert(bytes =~= head + formats_bytes(formats) + empty);
            assert(le_at(bytes, 0, 4) == generation);
            assert(le_at(bytes, 4, 2) == formats.len());
        },
        DenialView::RegisterRenderTarget { configure_serial, buffer, .. } => {
            let head = le_bytes(configure_serial as nat, 4);
            lemma_buffer_round_trip(head, buffer, empty);
            assert(bytes =~= head + buffer_bytes(buffer) + empty);
            assert(le_at(bytes, 0, 4) == configure_serial);
        },
        DenialView::UnregisterRenderTarget { buffer, .. } => {
            assert(le_at(bytes, 0, 8) == buffer.0);
        },
        DenialView::Configure {
            serial,
            width,
            height,
            scale_numerator,
            scale_denominator,
            transform,
            refresh_millihz,
            ..
        } => {
            assert(le_at(bytes, 0, 4) == serial);
            assert(le_at(bytes, 4, 4) == width);
            assert(le_at(bytes, 8, 4) == height);
            assert(le_at(bytes, 12, 4) == scale_numerator);
            assert(le_at(bytes, 16, 4) == scale_denominator);
            assert(le_at(bytes, 20, 1) == transform.number());
            assert(le_at(bytes, 21, 4) == refresh_millihz);
        },
        DenialView::Insets { left, top, right, bottom, .. } => {
            assert(le_at(bytes, 0, 4) == left);
            assert(le_at(bytes, 4, 4) == top);
            assert(le_at(bytes, 8, 4) == right);
            assert(le_at(bytes, 12, 4) == bottom);
        },
        DenialView::Visibility { visibility, focused, .. } => {
            assert(le_at(bytes, 0, 1) == visibility.number());
            assert(le_at(bytes, 1, 1) == if focused {
                1nat
            } else {
                0nat
            });
        },
        DenialView::Close { .. } => {},
        DenialView::BufferReleased { frame, buffer, release_point, .. } => {
            assert(le_at(bytes, 0, 8) == frame.0);
            assert(le_at(bytes, 8, 8) == buffer.0);
            assert(le_at(bytes, 16, 8) == release_point);
        },
        DenialView::Presented {
            frame,
            timestamp_nanos,
            refresh_period_nanos,
            sequence,
            flags,
            ..
        } => {
            assert(le_at(bytes, 0, 8) == frame.0);
            assert(le_at(bytes, 8, 8) == timestamp_nanos);
            assert(le_at(bytes, 16, 8) == refresh_period_nanos);
            assert(le_at(bytes, 24, 8) == sequence);
            assert(le_at(bytes, 32, 4) == flags);
        },
        DenialView::Input { serial, timestamp_nanos, event, .. } => {
            let head = le_bytes(serial as nat, 8) + le_bytes(timestamp_nanos as nat, 8);
            lemma_event_round_trip(head, event, empty);
            assert(bytes =~= head + event_bytes(event) + empty);
            assert(le_at(bytes, 0, 8) == serial);
            assert(le_at(bytes, 8, 8) == timestamp_nanos);
        },
        DenialView::Error { code, offending_opcode, message: text, .. } => {
            let head = le_bytes(code.number() as nat, 2) + le_bytes(offending_opcode as nat, 2);
            lemma_string_round_trip(head, text, empty, MAX_ERROR_BYTES as int, "error");
            assert(bytes =~= head + string_bytes(text) + empty);
            assert(le_at(bytes, 0, 2) == code.number());
            assert(le_at(bytes, 2, 2) == offending_opcode);
        },
        DenialView::Ping { cookie } => {
            assert(le_at(bytes, 0, 8) == cookie);
        },
    }
}

/// Every message that encodes decodes to itself with the same descriptor
/// roles. Buffer metadata has one to four planes.
#[verifier::spinoff_prover]
pub proof fn law_denial_round_trip(message: DenialView, verdict: Result<(), TransportError>)
    requires
        encoded_denial(message, verdict) is Ok,
        message matches DenialView::RegisterRenderTarget { buffer, .. } ==> 1
            <= buffer.planes.len() <= 4,
    ensures
        ({
            let (packet, roles) = encoded_denial(message, verdict)->Ok_0;
            decoded_denial(packet, roles.len() as usize, verdict) == Ok::<
                (DenialView, Seq<DescriptorKind>),
                WireError,
            >((message, roles))
        }),
{
    lemma_denial_payload_len(message, verdict);
    lemma_denial_payload_round_trip(message, verdict);
    let opcode = denial_opcode(message);
    lemma_header_round_trip(
        packet_minor(opcode),
        opcode,
        denial_roles(message).len() as usize,
        denial_object(message),
        denial_payload(message),
    );
}

#[verifier::rlimit(40)]
#[verifier::spinoff_prover]
proof fn lemma_denial_payload_canonical(
    opcode: u16,
    object: u64,
    bytes: Seq<u8>,
    verdict: Result<(), TransportError>,
)
    requires
        denial_at(opcode, object, bytes, verdict) is Ok,
        denial_at(opcode, object, bytes, verdict)->Ok_0.1 >= bytes.len(),
    ensures
        ({
            let message = denial_at(opcode, object, bytes, verdict)->Ok_0.0;
            &&& denial_opcode(message) == opcode
            &&& denial_object(message) == object
            &&& denial_payload(message) == bytes
            &&& denial_error(message, verdict) is None
        }),
{
    broadcast use lemma_le_bytes_len;

    lemma_spans();
    let (message, next) = denial_at(opcode, object, bytes, verdict)->Ok_0;
    let again = denial_payload(message);
    match message {
        DenialView::ServerHello { .. } => {
            lemma_le_bytes_of_value(bytes.subrange(0, 2));
            lemma_le_bytes_of_value(bytes.subrange(2, 4));
            lemma_le_bytes_of_value(bytes.subrange(4, 12));
            lemma_le_bytes_of_value(bytes.subrange(12, 16));
            lemma_le_bytes_of_value(bytes.subrange(16, 20));
            lemma_le_bytes_of_value(bytes.subrange(20, 24));
        },
        DenialView::FormatFeedback { formats, .. } => {
            lemma_le_bytes_of_value(bytes.subrange(0, 4));
            lemma_le_bytes_of_value(bytes.subrange(4, 6));
            lemma_formats_canonical(bytes, 6, le_at(bytes, 4, 2));
            assert forall|i: int| 0 <= i < formats.len() implies modifier_error(
                #[trigger] formats[i],
            ) is None by {}
        },
        DenialView::RegisterRenderTarget { .. } => {
            lemma_le_bytes_of_value(bytes.subrange(0, 4));
            lemma_buffer_canonical(bytes, 4);
        },
        DenialView::UnregisterRenderTarget { .. } | DenialView::Ping { .. } => {
            lemma_le_bytes_of_value(bytes.subrange(0, 8));
        },
        DenialView::Configure { .. } => {
            lemma_le_bytes_of_value(bytes.subrange(0, 4));
            lemma_le_bytes_of_value(bytes.subrange(4, 8));
            lemma_le_bytes_of_value(bytes.subrange(8, 12));
            lemma_le_bytes_of_value(bytes.subrange(12, 16));
            lemma_le_bytes_of_value(bytes.subrange(16, 20));
            lemma_le_bytes_of_value(bytes.subrange(20, 21));
            lemma_le_bytes_of_value(bytes.subrange(21, 25));
        },
        DenialView::Insets { .. } => {
            lemma_le_bytes_of_value(bytes.subrange(0, 4));
            lemma_le_bytes_of_value(bytes.subrange(4, 8));
            lemma_le_bytes_of_value(bytes.subrange(8, 12));
            lemma_le_bytes_of_value(bytes.subrange(12, 16));
        },
        DenialView::Visibility { .. } => {
            lemma_le_bytes_of_value(bytes.subrange(0, 1));
            lemma_le_bytes_of_value(bytes.subrange(1, 2));
        },
        DenialView::Close { .. } => {},
        DenialView::BufferReleased { .. } => {
            lemma_le_bytes_of_value(bytes.subrange(0, 8));
            lemma_le_bytes_of_value(bytes.subrange(8, 16));
            lemma_le_bytes_of_value(bytes.subrange(16, 24));
        },
        DenialView::Presented { .. } => {
            lemma_le_bytes_of_value(bytes.subrange(0, 8));
            lemma_le_bytes_of_value(bytes.subrange(8, 16));
            lemma_le_bytes_of_value(bytes.subrange(16, 24));
            lemma_le_bytes_of_value(bytes.subrange(24, 32));
            lemma_le_bytes_of_value(bytes.subrange(32, 36));
        },
        DenialView::Input { .. } => {
            lemma_le_bytes_of_value(bytes.subrange(0, 8));
            lemma_le_bytes_of_value(bytes.subrange(8, 16));
            lemma_event_canonical(bytes, 16);
        },
        DenialView::Error { .. } => {
            lemma_le_bytes_of_value(bytes.subrange(0, 2));
            lemma_le_bytes_of_value(bytes.subrange(2, 4));
            lemma_string_canonical(bytes, 4, MAX_ERROR_BYTES as int, "error");
        },
    }
    assert(again =~= bytes);
}

/// A packet that decodes is, but for an older minor version in its header, the
/// one packet that the decoded message encodes to.
#[verifier::spinoff_prover]
pub proof fn law_denial_canonical(
    packet: Seq<u8>,
    received: usize,
    verdict: Result<(), TransportError>,
)
    requires
        decoded_denial(packet, received, verdict) is Ok,
    ensures
        ({
            let (message, roles) = decoded_denial(packet, received, verdict)->Ok_0;
            let minor = header_at(packet, received)->Ok_0.minor;
            &&& roles.len() == received
            &&& minor <= PROTOCOL_MINOR
            &&& encoded_denial(message, verdict) is Ok
            &&& packet == packet_bytes(
                minor,
                denial_opcode(message),
                roles.len(),
                denial_object(message),
                denial_payload(message),
            )
            &&& minor == packet_minor(denial_opcode(message)) ==> encoded_denial(
                message,
                verdict,
            ) == Ok::<(Seq<u8>, Seq<DescriptorKind>), WireError>((packet, roles))
        }),
{
    lemma_header_canonical(packet, received);
    let header = header_at(packet, received)->Ok_0;
    lemma_denial_payload_canonical(header.opcode, header.object, payload_of(packet), verdict);
    let message = decoded_denial(packet, received, verdict)->Ok_0.0;
    lemma_denial_payload_len(message, verdict);
}

/// No packet decodes in both directions: each decoder reports the other
/// direction's opcode as unknown.
#[verifier::spinoff_prover]
pub proof fn law_directions_are_disjoint(
    packet: Seq<u8>,
    received: usize,
    verdict: Result<(), TransportError>,
)
    ensures
        decoded_android(packet, received, verdict) is Ok ==> decoded_denial(
            packet,
            received,
            verdict,
        ) == Err::<(DenialView, Seq<DescriptorKind>), WireError>(
            WireError::UnknownOpcode(header_at(packet, received)->Ok_0.opcode),
        ),
        decoded_denial(packet, received, verdict) is Ok ==> decoded_android(
            packet,
            received,
            verdict,
        ) == Err::<(super::AndroidView, Seq<DescriptorKind>), WireError>(
            WireError::UnknownOpcode(header_at(packet, received)->Ok_0.opcode),
        ),
{
}

/// Law: an encoded message names its opcode, its object and its descriptors in
/// the header.
pub proof fn law_denial_messages_are_labelled(
    message: DenialView,
    verdict: Result<(), TransportError>,
)
    requires
        encoded_denial(message, verdict) is Ok,
    ensures
        ({
            let (packet, roles) = encoded_denial(message, verdict)->Ok_0;
            let opcode = le_at(packet, 8, 2);
            let object = le_at(packet, 16, 8);
            &&& le_at(packet, 10, 2) == roles.len()
            &&& message !is RegisterRenderTarget ==> roles.len() == 0
            &&& match message {
                DenialView::ServerHello { .. } => opcode == 0x8001 && object == 0,
                DenialView::FormatFeedback { object: id, .. } => opcode == 0x8002 && object == id.0,
                DenialView::Configure { object: id, .. } => opcode == 0x8003 && object == id.0,
                DenialView::Insets { object: id, .. } => opcode == 0x8004 && object == id.0,
                DenialView::Visibility { object: id, .. } => opcode == 0x8005 && object == id.0,
                DenialView::Close { object: id } => opcode == 0x8006 && object == id.0,
                DenialView::BufferReleased { object: id, .. } => opcode == 0x8007 && object == id.0,
                DenialView::Presented { object: id, .. } => opcode == 0x8008 && object == id.0,
                DenialView::Input { object: id, .. } => opcode == 0x8009 && object == id.0,
                DenialView::Error { object: scope, .. } => opcode == 0x800a && match scope {
                    Some(id) => object == id.0,
                    None => object == 0,
                },
                DenialView::Ping { .. } => opcode == 0x800b && object == 0,
                DenialView::RegisterRenderTarget { object: id, buffer, .. } => opcode == 0x800c
                    && object == id.0 && roles.len() == buffer.planes.len() && forall|i: int|
                    0 <= i < roles.len() ==> (#[trigger] roles[i]) is DmabufPlane,
                DenialView::UnregisterRenderTarget { object: id, .. } => opcode == 0x800d && object
                    == id.0,
            }
        }),
{
    super::packet::law_messages_are_framed_up_to_the_limit(
        denial_opcode(message),
        denial_object(message),
        denial_payload(message),
        denial_roles(message),
    );
}

/// Law: behind the header an encoded message holds its fields at fixed places.
#[verifier::rlimit(40)]
#[verifier::spinoff_prover]
pub proof fn law_denial_messages_have_a_fixed_layout(
    message: DenialView,
    verdict: Result<(), TransportError>,
)
    requires
        encoded_denial(message, verdict) is Ok,
    ensures
        ({
            let packet = encoded_denial(message, verdict)->Ok_0.0;
            let body = packet.subrange(32, packet.len() as int);
            match message {
                DenialView::ServerHello {
                    major,
                    minor,
                    capabilities,
                    max_task_objects,
                    max_buffers_per_task,
                    max_damage_rects,
                } => {
                    &&& body.len() == 24
                    &&& le_at(body, 0, 2) == major
                    &&& le_at(body, 2, 2) == minor
                    &&& le_at(body, 4, 8) == capabilities
                    &&& le_at(body, 12, 4) == max_task_objects
                    &&& le_at(body, 16, 4) == max_buffers_per_task
                    &&& le_at(body, 20, 4) == max_damage_rects
                },
                DenialView::FormatFeedback { generation, formats, .. } => {
                    &&& le_at(body, 0, 4) == generation
                    &&& le_at(body, 4, 2) == formats.len()
                    &&& body.subrange(6, body.len() as int) == formats_bytes(formats)
                },
                DenialView::RegisterRenderTarget { configure_serial, buffer, .. } => {
                    &&& le_at(body, 0, 4) == configure_serial
                    &&& body.subrange(4, body.len() as int) == buffer_bytes(buffer)
                },
                DenialView::UnregisterRenderTarget { buffer, .. } => body.len() == 8 && le_at(
                    body,
                    0,
                    8,
                ) == buffer.0,
                DenialView::Configure {
                    serial,
                    width,
                    height,
                    scale_numerator,
                    scale_denominator,
                    transform,
                    refresh_millihz,
                    ..
                } => {
                    &&& body.len() == 25
                    &&& le_at(body, 0, 4) == serial
                    &&& le_at(body, 4, 4) == width
                    &&& le_at(body, 8, 4) == height
                    &&& le_at(body, 12, 4) == scale_numerator
                    &&& le_at(body, 16, 4) == scale_denominator
                    &&& le_at(body, 20, 1) == transform.number()
                    &&& le_at(body, 21, 4) == refresh_millihz
                },
                DenialView::Insets { left, top, right, bottom, .. } => {
                    &&& body.len() == 16
                    &&& le_at(body, 0, 4) == left
                    &&& le_at(body, 4, 4) == top
                    &&& le_at(body, 8, 4) == right
                    &&& le_at(body, 12, 4) == bottom
                },
                DenialView::Visibility { visibility, focused, .. } => {
                    &&& body.len() == 2
                    &&& le_at(body, 0, 1) == visibility.number()
                    &&& focused ==> le_at(body, 1, 1) == 1
                    &&& !focused ==> le_at(body, 1, 1) == 0
                },
                DenialView::Close { .. } => body.len() == 0,
                DenialView::BufferReleased { frame, buffer, release_point, .. } => {
                    &&& body.len() == 24
                    &&& le_at(body, 0, 8) == frame.0
                    &&& le_at(body, 8, 8) == buffer.0
                    &&& le_at(body, 16, 8) == release_point
                },
                DenialView::Presented {
                    frame,
                    timestamp_nanos,
                    refresh_period_nanos,
                    sequence,
                    flags,
                    ..
                } => {
                    &&& body.len() == 36
                    &&& le_at(body, 0, 8) == frame.0
                    &&& le_at(body, 8, 8) == timestamp_nanos
                    &&& le_at(body, 16, 8) == refresh_period_nanos
                    &&& le_at(body, 24, 8) == sequence
                    &&& le_at(body, 32, 4) == flags
                },
                DenialView::Input { serial, timestamp_nanos, event, .. } => {
                    &&& le_at(body, 0, 8) == serial
                    &&& le_at(body, 8, 8) == timestamp_nanos
                    &&& body.subrange(16, body.len() as int) == event_bytes(event)
                },
                DenialView::Error { code, offending_opcode, message: text, .. } => {
                    &&& le_at(body, 0, 2) == code.number()
                    &&& le_at(body, 2, 2) == offending_opcode
                    &&& body.subrange(4, body.len() as int) == string_bytes(text)
                },
                DenialView::Ping { cookie } => body.len() == 8 && le_at(body, 0, 8) == cookie,
            }
        }),
{
    broadcast use lemma_le_bytes_len, lemma_le_at_first, lemma_le_at_second, lemma_le_at_whole;

    lemma_spans();
    super::packet::law_messages_are_framed_up_to_the_limit(
        denial_opcode(message),
        denial_object(message),
        denial_payload(message),
        denial_roles(message),
    );
    let body = denial_payload(message);
    match message {
        DenialView::FormatFeedback { generation, formats, .. } => {
            lemma_formats_len(formats);
            assert(le_at(body, 0, 4) == generation);
            assert(le_at(body, 4, 2) == formats.len());
            assert(body.subrange(6, body.len() as int) =~= formats_bytes(formats));
        },
        DenialView::RegisterRenderTarget { configure_serial, buffer, .. } => {
            assert(le_at(body, 0, 4) == configure_serial);
            assert(body.subrange(4, body.len() as int) =~= buffer_bytes(buffer));
        },
        DenialView::Input { serial, timestamp_nanos, event, .. } => {
            assert(le_at(body, 0, 8) == serial);
            assert(le_at(body, 8, 8) == timestamp_nanos);
            assert(body.subrange(16, body.len() as int) =~= event_bytes(event));
        },
        DenialView::Error { code, offending_opcode, message: text, .. } => {
            assert(le_at(body, 0, 2) == code.number());
            assert(le_at(body, 2, 2) == offending_opcode);
            assert(body.subrange(4, body.len() as int) =~= string_bytes(text));
        },
        _ => {},
    }
}

/// Law: a message encodes exactly when what it says is in range.
pub proof fn law_denial_messages_encode_in_range(
    message: DenialView,
    verdict: Result<(), TransportError>,
)
    ensures
        encoded_denial(message, verdict) is Ok <==> match message {
            DenialView::ServerHello {
                major,
                minor,
                capabilities,
                max_task_objects,
                max_buffers_per_task,
                max_damage_rects,
            } => server_hello_error(
                major,
                minor,
                capabilities,
                max_task_objects,
                max_buffers_per_task,
                max_damage_rects,
            ) is None,
            DenialView::FormatFeedback { object, generation, formats } => {
                &&& object.0 != 0
                &&& generation != 0
                &&& 1 <= formats.len() <= 256
                &&& forall|i: int|
                    0 <= i < formats.len() ==> (#[trigger] formats[i]).modifier
                        != 0xffff_ffff_ffff_ffff
            },
            DenialView::RegisterRenderTarget { object, configure_serial, buffer } => {
                &&& object.0 != 0
                &&& configure_serial != 0
                &&& buffer.id.0 != 0
                &&& buffer.format.modifier != 0xffff_ffff_ffff_ffff
                &&& buffer.planes.len() <= 255
                &&& verdict is Ok
            },
            DenialView::UnregisterRenderTarget { object, buffer } => object.0 != 0 && buffer.0 != 0,
            DenialView::Configure {
                object,
                serial,
                width,
                height,
                scale_numerator,
                scale_denominator,
                refresh_millihz,
                ..
            } => object.0 != 0 && configure_error(
                serial,
                width,
                height,
                scale_numerator,
                scale_denominator,
                refresh_millihz,
            ) is None,
            DenialView::Insets { object, .. } => object.0 != 0,
            DenialView::Visibility { object, .. } => object.0 != 0,
            DenialView::Close { object } => object.0 != 0,
            DenialView::BufferReleased { object, frame, buffer, release_point } => object.0 != 0
                && frame.0 != 0 && buffer.0 != 0 && release_point != 0,
            DenialView::Presented { object, frame, refresh_period_nanos, flags, .. } => object.0
                != 0 && frame.0 != 0 && refresh_period_nanos != 0 && flags as u64 & !7u64 == 0,
            DenialView::Input { object, serial, .. } => object.0 != 0 && serial != 0,
            DenialView::Error { object, message: text, .. } => {
                &&& object matches Some(id) ==> id.0 != 0
                &&& vstd::utf8::encode_utf8(text).len() <= 1_024
            },
            DenialView::Ping { .. } => true,
        },
{
    law_denial_encodes_valid_messages(message, verdict);
    if let DenialView::FormatFeedback { formats, .. } = message {
        assert(forall|i: int|
            0 <= i < formats.len() ==> (modifier_error(#[trigger] formats[i]) is None <==> formats[i].modifier
                != 0xffff_ffff_ffff_ffff));
    }
}

/// Law: how messages are refused.
pub proof fn law_denial_messages_are_refused_by_name(
    object: TaskObjectId,
    generation: u32,
    formats: Seq<FormatModifier>,
    configure_serial: u32,
    buffer: BufferView,
    frame: FrameId,
    release_point: u64,
    timestamp_nanos: u64,
    refresh_period_nanos: u64,
    sequence: u64,
    flags: u32,
    serial: u64,
    event: super::InputEvent,
    verdict: Result<(), TransportError>,
)
    ensures
        generation == 0 ==> denial_error(
            (DenialView::FormatFeedback { object, generation, formats }),
            verdict,
        ) == Some(WireError::InvalidEnum { field: "feedback generation", value: 0 }),
        generation != 0 && (formats.len() == 0 || formats.len() > 256) ==> denial_error(
            (DenialView::FormatFeedback { object, generation, formats }),
            verdict,
        ) == Some(WireError::Limit { field: "format feedback" }),
        configure_serial == 0 ==> denial_error(
            (DenialView::RegisterRenderTarget { object, configure_serial, buffer }),
            verdict,
        ) == Some(WireError::InvalidEnum { field: "configure serial", value: 0 }),
        configure_serial != 0 && verdict is Err ==> denial_error(
            (DenialView::RegisterRenderTarget { object, configure_serial, buffer }),
            verdict,
        ) == Some(WireError::Transport(verdict->Err_0)),
        buffer.id.0 == 0 ==> denial_error(
            (DenialView::UnregisterRenderTarget { object, buffer: buffer.id }),
            verdict,
        ) == Some(WireError::InvalidEnum { field: "render-target ID", value: 0 }),
        frame.0 == 0 ==> denial_error(
            (DenialView::BufferReleased { object, frame, buffer: buffer.id, release_point }),
            verdict,
        ) == Some(WireError::InvalidEnum { field: "frame ID", value: 0 }),
        frame.0 != 0 && buffer.id.0 != 0 && release_point == 0 ==> denial_error(
            (DenialView::BufferReleased { object, frame, buffer: buffer.id, release_point }),
            verdict,
        ) == Some(WireError::InvalidEnum { field: "release point", value: 0 }),
        frame.0 != 0 && refresh_period_nanos == 0 ==> denial_error(
            (DenialView::Presented {
                object,
                frame,
                timestamp_nanos,
                refresh_period_nanos,
                sequence,
                flags,
            }),
            verdict,
        ) == Some(WireError::InvalidEnum { field: "refresh period", value: 0 }),
        frame.0 != 0 && refresh_period_nanos != 0 && flags as u64 & !7u64 != 0 ==> denial_error(
            (DenialView::Presented {
                object,
                frame,
                timestamp_nanos,
                refresh_period_nanos,
                sequence,
                flags,
            }),
            verdict,
        ) == Some(WireError::InvalidEnum { field: "presentation flags", value: flags as u64 }),
        serial == 0 ==> denial_error(
            (DenialView::Input { object, serial, timestamp_nanos, event }),
            verdict,
        ) == Some(WireError::InvalidEnum { field: "input serial", value: 0 }),
        object.0 == 0 ==> denial_error((DenialView::Close { object }), verdict) == Some(
            WireError::InvalidObject,
        ),
{
}

/// Law: a packet with a good header is refused as unknown for its opcode, as
/// misplaced for its object, as too short or as too long for its length.
pub proof fn law_denial_packets_are_refused_for_cause(
    packet: Seq<u8>,
    received: usize,
    verdict: Result<(), TransportError>,
)
    requires
        header_at(packet, received) is Ok,
    ensures
        ({
            let opcode = header_at(packet, received)->Ok_0.opcode;
            let object = header_at(packet, received)->Ok_0.object;
            let body = packet.subrange(32, packet.len() as int);
            let decoded = decoded_denial(packet, received, verdict);
            let refused = |error: WireError|
                decoded == Err::<(DenialView, Seq<DescriptorKind>), WireError>(error);
            &&& opcode < 0x8001 || opcode > 0x800d ==> refused(WireError::UnknownOpcode(opcode))
            &&& (opcode == 0x8001 || opcode == 0x800b) && object != 0 ==> refused(
                WireError::InvalidObject,
            )
            &&& 0x8002 <= opcode <= 0x800d && opcode != 0x800a && opcode != 0x800b && object == 0
                ==> refused(WireError::InvalidObject)
            &&& object == 0 && opcode == 0x8001 && body.len() < 24 ==> refused(WireError::Truncated)
            &&& object == 0 && opcode == 0x800b && body.len() < 8 ==> refused(WireError::Truncated)
            &&& object == 0 && opcode == 0x800b && body.len() > 8 ==> refused(
                WireError::TrailingBytes,
            )
            &&& object != 0 && opcode == 0x8006 && body.len() > 0 ==> refused(
                WireError::TrailingBytes,
            )
            &&& object != 0 && opcode == 0x8004 && body.len() < 16 ==> refused(WireError::Truncated)
            &&& object != 0 && opcode == 0x8004 && body.len() > 16 ==> refused(
                WireError::TrailingBytes,
            )
            &&& object != 0 && opcode == 0x8007 && body.len() < 24 ==> refused(WireError::Truncated)
            &&& object != 0 && opcode == 0x8008 && body.len() < 36 ==> refused(WireError::Truncated)
            &&& object != 0 && opcode == 0x8003 && body.len() < 21 ==> refused(WireError::Truncated)
            &&& object != 0 && opcode == 0x8009 && body.len() < 8 ==> refused(WireError::Truncated)
            &&& object != 0 && opcode == 0x800d && body.len() < 8 ==> refused(WireError::Truncated)
            &&& object != 0 && opcode == 0x8006 && body.len() == 0 && received != 0 ==> refused(
                WireError::DescriptorCount { expected: 0, actual: received },
            )
        }),
{
}

/// Law: the target that a packet registers is found in a packet with that opcode,
/// an object and a serial, and it is the one that decoding gives.
pub proof fn law_registered_targets_are_found(
    packet: Seq<u8>,
    received: usize,
    verdict: Result<(), TransportError>,
)
    ensures
        denial_buffer_at(packet, received) is Some ==> {
            let body = packet.subrange(32, packet.len() as int);
            &&& header_at(packet, received) is Ok
            &&& header_at(packet, received)->Ok_0.opcode == 0x800c
            &&& header_at(packet, received)->Ok_0.object != 0
            &&& body.len() >= 4
            &&& le_at(body, 0, 4) != 0
        },
        decoded_denial(packet, received, verdict) matches Ok((message, _)) ==> match message {
            DenialView::RegisterRenderTarget { buffer, .. } => denial_buffer_at(packet, received)
                == Some(buffer),
            _ => denial_buffer_at(packet, received) is None,
        },
{
    lemma_spans();
    if header_at(packet, received) is Ok && payload_of(packet).len() >= 4 {
        lemma_le_bytes_of_value(payload_of(packet).subrange(0, 4));
    }
}

} // verus!
