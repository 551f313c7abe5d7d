//! Fixed packet header and descriptor layout.

use vstd::prelude::*;

use super::wire::{
    lemma_le_at_first, lemma_le_at_second, lemma_le_at_whole, lemma_le_bytes_len,
    lemma_le_bytes_of_value, lemma_spans, le_at, le_bytes, Reader, Writer,
};
use super::{
    DescriptorKind, EncodedPacket, WireError, BASE_PROTOCOL_MINOR, HEADER_BYTES, MAGIC,
    MAX_PACKET_BYTES, PROTOCOL_MAJOR, PROTOCOL_MINOR,
};

verus! {

/// Opcode of an activation request, the only one introduced by minor 4.
pub const OP_REQUEST_ACTIVATION: u16 = 0x000e;

/// Minor version in the header of a packet.
///
/// Existing peers reject a header newer than their implementation before
/// reading capabilities, so only the negotiated new opcode carries minor 4.
pub open spec fn packet_minor(opcode: u16) -> u16 {
    if opcode == OP_REQUEST_ACTIVATION {
        PROTOCOL_MINOR
    } else {
        BASE_PROTOCOL_MINOR
    }
}

/// Header of a packet.
pub open spec fn header_bytes(
    minor: u16,
    opcode: u16,
    fd_count: nat,
    object: u64,
    payload_length: nat,
) -> Seq<u8> {
    MAGIC@ + le_bytes(PROTOCOL_MAJOR as nat, 2) + le_bytes(minor as nat, 2) + le_bytes(
        opcode as nat,
        2,
    ) + le_bytes(fd_count, 2) + le_bytes(0, 4) + le_bytes(object as nat, 8) + le_bytes(
        payload_length,
        4,
    ) + le_bytes(0, 4)
}

/// Complete packet: header, then payload.
pub open spec fn packet_bytes(
    minor: u16,
    opcode: u16,
    fd_count: nat,
    object: u64,
    payload: Seq<u8>,
) -> Seq<u8> {
    header_bytes(minor, opcode, fd_count, object, payload.len()) + payload
}

/// Typed part of a header.
pub struct HeaderView {
    pub minor: u16,
    pub opcode: u16,
    pub fd_count: usize,
    pub object: u64,
}

/// Header of a received packet with `received` descriptors, or the first
/// reason to reject it.
pub open spec fn header_at(packet: Seq<u8>, received: usize) -> Result<HeaderView, WireError> {
    let major = le_at(packet, 4, 2) as u16;
    let minor = le_at(packet, 6, 2) as u16;
    let fd_count = le_at(packet, 10, 2) as usize;
    if packet.len() < HEADER_BYTES {
        Err(WireError::ShortHeader)
    } else if packet.len() > MAX_PACKET_BYTES {
        Err(WireError::PacketTooLarge)
    } else if packet.subrange(0, 4) != MAGIC@ {
        Err(WireError::InvalidMagic)
    } else if major != PROTOCOL_MAJOR || minor > PROTOCOL_MINOR {
        Err(WireError::UnsupportedVersion { major, minor })
    } else if le_at(packet, 12, 4) != 0 || le_at(packet, 28, 4) != 0 {
        Err(WireError::UnsupportedHeaderBits)
    } else if packet.len() != HEADER_BYTES + le_at(packet, 24, 4) {
        Err(WireError::LengthMismatch)
    } else if fd_count != received {
        Err(WireError::DescriptorCount { expected: fd_count, actual: received })
    } else {
        Ok(
            HeaderView {
                minor,
                opcode: le_at(packet, 8, 2) as u16,
                fd_count,
                object: le_at(packet, 16, 8) as u64,
            },
        )
    }
}

/// Payload of a packet.
pub open spec fn payload_of(packet: Seq<u8>) -> Seq<u8> {
    packet.subrange(HEADER_BYTES as int, packet.len() as int)
}

/// Result of framing a payload.
pub open spec fn framed(
    opcode: u16,
    object: u64,
    payload: Seq<u8>,
    descriptors: Seq<DescriptorKind>,
) -> Result<(Seq<u8>, Seq<DescriptorKind>), WireError> {
    if HEADER_BYTES + payload.len() > MAX_PACKET_BYTES {
        Err(WireError::PacketTooLarge)
    } else if descriptors.len() > 0xffff {
        Err(WireError::Limit { field: "descriptors" })
    } else {
        Ok(
            (
                packet_bytes(packet_minor(opcode), opcode, descriptors.len(), object, payload),
                descriptors,
            ),
        )
    }
}

/// Contents of the result of an encoder.
pub open spec fn packet_view(result: Result<EncodedPacket, WireError>) -> Result<
    (Seq<u8>, Seq<DescriptorKind>),
    WireError,
> {
    match result {
        Ok(packet) => Ok((packet.bytes@, packet.descriptors@)),
        Err(error) => Err(error),
    }
}

/// Header of a received packet.
pub struct Header<'a> {
    /// Operation named by the packet.
    pub opcode: u16,
    /// Descriptor count named by the packet.
    pub fd_count: usize,
    /// Task object, or zero for the connection.
    pub object: u64,
    /// Bytes after the header.
    pub payload: &'a [u8],
}

/// Put a payload behind its header.
pub fn finish_packet(
    opcode: u16,
    object: u64,
    payload: &[u8],
    descriptors: Vec<DescriptorKind>,
) -> (result: Result<EncodedPacket, WireError>)
    ensures
        packet_view(result) == framed(opcode, object, payload@, descriptors@),
{
    if payload.len() > MAX_PACKET_BYTES - HEADER_BYTES {
        return Err(WireError::PacketTooLarge);
    }
    if descriptors.len() > 0xffff {
        return Err(WireError::Limit { field: "descriptors" });
    }
    let minor: u16 = if opcode == OP_REQUEST_ACTIVATION {
        PROTOCOL_MINOR
    } else {
        BASE_PROTOCOL_MINOR
    };
    let mut writer = Writer::new();
    writer.bytes.push(MAGIC[0]);
    writer.bytes.push(MAGIC[1]);
    writer.bytes.push(MAGIC[2]);
    writer.bytes.push(MAGIC[3]);
    assert(writer.bytes@ =~= MAGIC@);
    writer.u16(PROTOCOL_MAJOR);
    writer.u16(minor);
    writer.u16(opcode);
    writer.u16(descriptors.len() as u16);
    writer.u32(0);
    writer.u64(object);
    writer.u32(payload.len() as u32);
    writer.u32(0);
    let ghost head = writer.bytes@;
    let mut bytes = writer.bytes;
    bytes.extend_from_slice(payload);
    assert(bytes@ =~= head + payload@);
    Ok(EncodedPacket { bytes, descriptors })
}

/// Check the header of a received packet and borrow its payload.
pub fn parse_header<'a>(packet: &'a [u8], received_descriptors: usize) -> (result: Result<
    Header<'a>,
    WireError,
>)
    ensures
        match (result, header_at(packet@, received_descriptors)) {
            (Ok(header), Ok(expected)) => {
                &&& header.opcode == expected.opcode
                &&& header.fd_count == expected.fd_count
                &&& header.object == expected.object
                &&& header.payload@ == payload_of(packet@)
            },
            (Err(error), Err(expected)) => error == expected,
            _ => false,
        },
{
    if packet.len() < HEADER_BYTES {
        return Err(WireError::ShortHeader);
    }
    if packet.len() > MAX_PACKET_BYTES {
        return Err(WireError::PacketTooLarge);
    }
    assert(packet@.subrange(0, 4) == MAGIC@ <==> {
        &&& packet@[0] == MAGIC@[0]
        &&& packet@[1] == MAGIC@[1]
        &&& packet@[2] == MAGIC@[2]
        &&& packet@[3] == MAGIC@[3]
    }) by {
        let start = packet@.subrange(0, 4);
        if packet@[0] == MAGIC@[0] && packet@[1] == MAGIC@[1] && packet@[2] == MAGIC@[2]
            && packet@[3] == MAGIC@[3] {
            assert(start =~= MAGIC@);
        }
        if start == MAGIC@ {
            assert(start[0] == packet@[0] && start[1] == packet@[1] && start[2] == packet@[2]
                && start[3] == packet@[3]);
        }
    }
    if packet[0] != MAGIC[0] || packet[1] != MAGIC[1] || packet[2] != MAGIC[2] || packet[3]
        != MAGIC[3] {
        return Err(WireError::InvalidMagic);
    }
    let mut reader = Reader { bytes: packet, position: 4 };
    let major: u16 = reader.u16()?;
    let minor: u16 = reader.u16()?;
    if major != PROTOCOL_MAJOR || minor > PROTOCOL_MINOR {
        return Err(WireError::UnsupportedVersion { major, minor });
    }
    let opcode: u16 = reader.u16()?;
    let fd_count: u16 = reader.u16()?;
    let flags: u32 = reader.u32()?;
    let object: u64 = reader.u64()?;
    let payload_length: u32 = reader.u32()?;
    let reserved: u32 = reader.u32()?;
    if flags != 0 || reserved != 0 {
        return Err(WireError::UnsupportedHeaderBits);
    }
    if (packet.len() - HEADER_BYTES) as u64 != payload_length as u64 {
        return Err(WireError::LengthMismatch);
    }
    let fd_count: usize = fd_count as usize;
    if fd_count != received_descriptors {
        return Err(
            WireError::DescriptorCount { expected: fd_count, actual: received_descriptors },
        );
    }
    let payload = vstd::slice::slice_subrange(packet, HEADER_BYTES, packet.len());
    Ok(Header { opcode, fd_count, object, payload })
}

/// One plane role per plane.
pub open spec fn plane_roles_view(count: nat) -> Seq<DescriptorKind> {
    Seq::new(count, |i: int| DescriptorKind::DmabufPlane)
}

/// One plane role per plane.
pub fn plane_roles(count: usize) -> (roles: Vec<DescriptorKind>)
    ensures
        roles@ == plane_roles_view(count as nat),
{
    let mut roles: Vec<DescriptorKind> = Vec::new();
    let mut index: usize = 0;
    while index < count
        invariant
            index <= count,
            roles@ == plane_roles_view(index as nat),
        decreases count - index,
    {
        roles.push(DescriptorKind::DmabufPlane);
        index = index + 1;
        assert(roles@ =~= plane_roles_view(index as nat));
    }
    roles
}

/// Whether both descriptor counts match the roles of the message.
pub open spec fn layout_error(header_count: usize, received: usize, expected: nat) -> Option<
    WireError,
> {
    if header_count != expected || received != expected {
        Some(WireError::DescriptorCount { expected: expected as usize, actual: received })
    } else {
        None
    }
}

/// Require that both descriptor counts match the roles of the message.
pub fn validate_descriptor_layout(
    header_count: usize,
    received_count: usize,
    expected: &[DescriptorKind],
) -> (result: Result<(), WireError>)
    ensures
        result == (match layout_error(header_count, received_count, expected@.len()) {
            Some(error) => Err(error),
            None => Ok(()),
        }),
{
    if header_count != expected.len() || received_count != expected.len() {
        Err(WireError::DescriptorCount { expected: expected.len(), actual: received_count })
    } else {
        Ok(())
    }
}

/// Parsing a framed packet gives back what was framed.
pub proof fn lemma_header_round_trip(
    minor: u16,
    opcode: u16,
    fd_count: usize,
    object: u64,
    payload: Seq<u8>,
)
    requires
        minor <= PROTOCOL_MINOR,
        fd_count <= 0xffff,
        HEADER_BYTES + payload.len() <= MAX_PACKET_BYTES,
    ensures
        header_at(packet_bytes(minor, opcode, fd_count as nat, object, payload), fd_count) == Ok::<
            HeaderView,
            WireError,
        >(HeaderView { minor, opcode, fd_count, object }),
        payload_of(packet_bytes(minor, opcode, fd_count as nat, object, payload)) == payload,
{
    broadcast use
        lemma_le_bytes_len,
        lemma_le_at_first,
        lemma_le_at_second,
        lemma_le_at_whole,
    ;

    lemma_spans();
    let packet = packet_bytes(minor, opcode, fd_count as nat, object, payload);
    assert(packet.subrange(0, 4) =~= MAGIC@);
    assert(payload_of(packet) =~= payload);
    assert(le_at(packet, 4, 2) == PROTOCOL_MAJOR);
    assert(le_at(packet, 6, 2) == minor);
    assert(le_at(packet, 8, 2) == opcode);
    assert(le_at(packet, 10, 2) == fd_count);
    assert(le_at(packet, 12, 4) == 0);
    assert(le_at(packet, 16, 8) == object);
    assert(le_at(packet, 24, 4) == payload.len());
    assert(le_at(packet, 28, 4) == 0);
}

/// A packet with an accepted header is the framing of its own payload.
pub proof fn lemma_header_canonical(packet: Seq<u8>, received: usize)
    requires
        header_at(packet, received) is Ok,
    ensures
        ({
            let header = header_at(packet, received)->Ok_0;
            packet == packet_bytes(
                header.minor,
                header.opcode,
                header.fd_count as nat,
                header.object,
                payload_of(packet),
            )
        }),
{
    broadcast use lemma_le_bytes_len;

    lemma_spans();
    let header = header_at(packet, received)->Ok_0;
    let again = packet_bytes(
        header.minor,
        header.opcode,
        header.fd_count as nat,
        header.object,
        payload_of(packet),
    );
    lemma_le_bytes_of_value(packet.subrange(4, 6));
    lemma_le_bytes_of_value(packet.subrange(6, 8));
    lemma_le_bytes_of_value(packet.subrange(8, 10));
    lemma_le_bytes_of_value(packet.subrange(10, 12));
    lemma_le_bytes_of_value(packet.subrange(12, 16));
    lemma_le_bytes_of_value(packet.subrange(16, 24));
    lemma_le_bytes_of_value(packet.subrange(24, 28));
    lemma_le_bytes_of_value(packet.subrange(28, 32));
    assert(again =~= packet.subrange(0, 4) + packet.subrange(4, 6) + packet.subrange(6, 8)
        + packet.subrange(8, 10) + packet.subrange(10, 12) + packet.subrange(12, 16)
        + packet.subrange(16, 24) + packet.subrange(24, 28) + packet.subrange(28, 32)
        + payload_of(packet));
    assert(again =~= packet);
}

/// Law: a packet starts with a header of 32 bytes: the magic `DLOM`, the
/// version, the opcode, the number of descriptors, four zero bytes, the object,
/// the length of the payload and four zero bytes. The payload follows it.
pub proof fn law_headers_have_a_fixed_layout(
    minor: u16,
    opcode: u16,
    fd_count: nat,
    object: u64,
    payload: Seq<u8>,
)
    requires
        fd_count <= 65_535,
        payload.len() <= 4_294_967_295,
    ensures
        ({
            let packet = packet_bytes(minor, opcode, fd_count, object, payload);
            &&& packet.len() == 32 + payload.len()
            &&& packet.subrange(0, 4) == seq![0x44u8, 0x4cu8, 0x4fu8, 0x4du8]
            &&& le_at(packet, 4, 2) == 1
            &&& le_at(packet, 6, 2) == minor
            &&& le_at(packet, 8, 2) == opcode
            &&& le_at(packet, 10, 2) == fd_count
            &&& le_at(packet, 12, 4) == 0
            &&& le_at(packet, 16, 8) == object
            &&& le_at(packet, 24, 4) == payload.len()
            &&& le_at(packet, 28, 4) == 0
            &&& packet.subrange(32, packet.len() as int) == payload
        }),
{
    broadcast use
        lemma_le_bytes_len,
        lemma_le_at_first,
        lemma_le_at_second,
        lemma_le_at_whole,
    ;

    lemma_spans();
    let packet = packet_bytes(minor, opcode, fd_count, object, payload);
    assert(packet.subrange(0, 4) =~= MAGIC@);
    assert(MAGIC@ =~= seq![0x44u8, 0x4cu8, 0x4fu8, 0x4du8]);
    assert(packet.subrange(32, packet.len() as int) =~= payload);
}

/// Law: only an activation request carries the newest minor version.
pub proof fn law_only_activations_need_the_newest_minor(opcode: u16)
    ensures
        packet_minor(opcode) == (if opcode == 14 {
            4u16
        } else {
            3u16
        }),
{
}

/// Law: a header is accepted exactly when the packet has the size, the magic,
/// a known version, no unknown bits, the length and the descriptors that it
/// says; what was accepted is what stands in it.
pub proof fn law_headers_are_accepted_as_written(packet: Seq<u8>, received: usize)
    ensures
        header_at(packet, received) is Ok <==> {
            &&& 32 <= packet.len() <= 65_536
            &&& packet.subrange(0, 4) == seq![0x44u8, 0x4cu8, 0x4fu8, 0x4du8]
            &&& le_at(packet, 4, 2) == 1
            &&& le_at(packet, 6, 2) <= 4
            &&& le_at(packet, 12, 4) == 0
            &&& le_at(packet, 28, 4) == 0
            &&& packet.len() == 32 + le_at(packet, 24, 4)
            &&& le_at(packet, 10, 2) == received
        },
        header_at(packet, received) is Ok ==> {
            let header = header_at(packet, received)->Ok_0;
            &&& header.minor == le_at(packet, 6, 2)
            &&& header.opcode == le_at(packet, 8, 2)
            &&& header.fd_count == le_at(packet, 10, 2)
            &&& header.object == le_at(packet, 16, 8)
            &&& payload_of(packet) == packet.subrange(32, packet.len() as int)
        },
{
    lemma_spans();
    assert(MAGIC@ =~= seq![0x44u8, 0x4cu8, 0x4fu8, 0x4du8]);
    if 32 <= packet.len() {
        lemma_le_bytes_of_value(packet.subrange(4, 6));
        lemma_le_bytes_of_value(packet.subrange(6, 8));
        lemma_le_bytes_of_value(packet.subrange(8, 10));
        lemma_le_bytes_of_value(packet.subrange(10, 12));
        lemma_le_bytes_of_value(packet.subrange(16, 24));
    }
}

/// Law: the first fault of a header decides how it is refused.
pub proof fn law_headers_are_refused_by_their_first_fault(packet: Seq<u8>, received: usize)
    ensures
        packet.len() < 32 ==> header_at(packet, received) == Err::<HeaderView, WireError>(
            WireError::ShortHeader,
        ),
        packet.len() > 65_536 ==> header_at(packet, received) == Err::<HeaderView, WireError>(
            WireError::PacketTooLarge,
        ),
        32 <= packet.len() <= 65_536 && packet.subrange(0, 4) != seq![
            0x44u8,
            0x4cu8,
            0x4fu8,
            0x4du8,
        ] ==> header_at(packet, received) == Err::<HeaderView, WireError>(WireError::InvalidMagic),
        header_at(packet, received) is Err && header_at(packet, received)->Err_0
            is UnsupportedVersion ==> le_at(packet, 4, 2) != 1 || le_at(packet, 6, 2) > 4,
        header_at(packet, received) is Err && header_at(packet, received)->Err_0
            is DescriptorCount ==> {
            &&& le_at(packet, 4, 2) == 1
            &&& packet.len() == 32 + le_at(packet, 24, 4)
            &&& header_at(packet, received)->Err_0 == WireError::DescriptorCount {
                expected: le_at(packet, 10, 2) as usize,
                actual: received,
            }
            &&& le_at(packet, 10, 2) != received
        },
{
    lemma_spans();
    assert(MAGIC@ =~= seq![0x44u8, 0x4cu8, 0x4fu8, 0x4du8]);
    if 32 <= packet.len() {
        lemma_le_bytes_of_value(packet.subrange(4, 6));
        lemma_le_bytes_of_value(packet.subrange(6, 8));
        lemma_le_bytes_of_value(packet.subrange(10, 12));
    }
}

/// Law: a message is framed unless the packet would be over 64 KiB, and then
/// carries its descriptors, one for each that it counts.
pub proof fn law_messages_are_framed_up_to_the_limit(
    opcode: u16,
    object: u64,
    payload: Seq<u8>,
    descriptors: Seq<DescriptorKind>,
)
    ensures
        framed(opcode, object, payload, descriptors) is Ok <==> payload.len() <= 65_504
            && descriptors.len() <= 65_535,
        payload.len() > 65_504 ==> framed(opcode, object, payload, descriptors) == Err::<
            (Seq<u8>, Seq<DescriptorKind>),
            WireError,
        >(WireError::PacketTooLarge),
        framed(opcode, object, payload, descriptors) is Ok ==> {
            let (packet, roles) = framed(opcode, object, payload, descriptors)->Ok_0;
            &&& roles == descriptors
            &&& packet.len() == 32 + payload.len()
            &&& le_at(packet, 6, 2) == (if opcode == 14 {
                4nat
            } else {
                3nat
            })
            &&& le_at(packet, 8, 2) == opcode
            &&& le_at(packet, 10, 2) == descriptors.len()
            &&& le_at(packet, 16, 8) == object
            &&& packet.subrange(32, packet.len() as int) == payload
        },
{
    if payload.len() <= 65_504 && descriptors.len() <= 65_535 {
        law_headers_have_a_fixed_layout(
            packet_minor(opcode),
            opcode,
            descriptors.len(),
            object,
            payload,
        );
    }
}

} // verus!
