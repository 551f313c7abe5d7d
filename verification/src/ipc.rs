//! Decisions of the Unix transport for the Denial-native protocol.
//!
//! Socket calls stay with the platform adapter. It asks here whether a record
//! may be sent, whether what the kernel returned is one complete record, and
//! which role each received descriptor has.

use vstd::prelude::*;

use crate::protocol::android::{decode_android, decoded_android, encode_android, encoded_android};
use crate::protocol::denial::{decode_denial, decoded_denial, encode_denial, encoded_denial};
use crate::protocol::{
    AndroidMessage, AndroidView, DecodedPacket, DenialMessage, DenialView, DescriptorKind,
    EncodedPacket, TransportError, WireError, MAX_PACKET_BYTES, MAX_PACKET_DESCRIPTORS,
};
use crate::text::{alphanumeric, chars_of, is_alphanumeric, number, parse_number, text_of};

verus! {

/// Size of one descriptor in ancillary data.
pub const DESCRIPTOR_BYTES: usize = 4;

/// Credentials authenticated by the kernel for a connected local peer.
#[derive(Clone, Copy, Debug, PartialEq, Eq, Structural)]
pub struct PeerCredentials {
    /// Peer process ID at connection time.
    pub pid: u32,
    /// Effective peer user ID.
    pub uid: u32,
    /// Effective peer group ID.
    pub gid: u32,
}

/// Socket, ancillary-data, or wire failure.
#[derive(Clone, Debug, PartialEq, Eq)]
#[allow(inconsistent_fields)]
pub enum IpcError {
    /// Linux/Android socket operation failed.
    Io,
    /// Endpoint path is empty, contains NUL, or exceeds the socket address.
    InvalidPath,
    /// A supplied descriptor is not a connected sequenced-packet socket.
    NotSeqPacket,
    /// Android init did not supply a valid named listening socket descriptor.
    InvalidInitSocket(String),
    /// A caller exceeded the protocol descriptor bound.
    DescriptorLimit {
        /// Supplied count.
        actual: usize,
        /// Protocol maximum.
        maximum: usize,
    },
    /// A typed packet was paired with the wrong descriptor count.
    DescriptorMismatch {
        /// Count defined by the message.
        expected: usize,
        /// Count supplied by the caller.
        actual: usize,
    },
    /// Kernel reported record or ancillary truncation.
    Truncated,
    /// Ancillary data was malformed or had an unexpected type.
    InvalidAncillary,
    /// Sequenced-packet send did not consume exactly one complete record.
    ShortSend {
        /// Required record length.
        expected: usize,
        /// Bytes accepted by the kernel.
        actual: usize,
    },
    /// Peer performed an orderly socket shutdown.
    PeerClosed,
    /// Safe protocol codec rejected the record.
    Wire(WireError),
}

/// Outcome of a check that fails with the first error found.
pub open spec fn checked(error: Option<IpcError>) -> Result<(), IpcError> {
    match error {
        Some(error) => Err(error),
        None => Ok(()),
    }
}

/// Environment variable in which Android init passes a named socket: every
/// character that is not a letter or digit becomes an underscore.
pub open spec fn variable_name(name: Seq<char>) -> Seq<char> {
    ("ANDROID_SOCKET_"@ + name).map_values(
        |character: char|
            if alphanumeric(character) {
                character
            } else {
                '_'
            },
    )
}

/// Environment variable in which Android init passes a named socket.
pub fn android_init_descriptor_variable(name: &str) -> (variable: String)
    ensures
        variable@ == variable_name(name@),
{
    let mut plain = chars_of("ANDROID_SOCKET_");
    crate::text::append(&mut plain, name);
    let mut characters: Vec<char> = Vec::new();
    let mut index: usize = 0;
    while index < plain.len()
        invariant
            index <= plain@.len(),
            plain@ == "ANDROID_SOCKET_"@ + name@,
            characters@ == variable_name(name@).take(index as int),
        decreases plain@.len() - index,
    {
        let character: char = plain[index];
        if is_alphanumeric(character) {
            characters.push(character);
        } else {
            characters.push('_');
        }
        index = index + 1;
        assert(characters@ =~= variable_name(name@).take(index as int));
    }
    assert(characters@ =~= variable_name(name@));
    text_of(&characters)
}

/// Whether a socket name can be one of Android init.
pub open spec fn init_name(name: Seq<char>) -> bool {
    &&& name.len() > 0
    &&& forall|i: int|
        0 <= i < name.len() ==> {
            ||| alphanumeric(#[trigger] name[i])
            ||| name[i] == '-'
            ||| name[i] == '_'
        }
}

/// Environment variable of a named init socket, or an error for a name that
/// init cannot give a socket.
pub fn init_socket_variable(name: &str) -> (result: Result<String, IpcError>)
    ensures
        match result {
            Ok(variable) => init_name(name@) && variable@ == variable_name(name@),
            Err(error) => {
                &&& !init_name(name@)
                &&& error is InvalidInitSocket
                &&& error->InvalidInitSocket_0@ == name@
            },
        },
{
    let characters = chars_of(name);
    if characters.len() == 0 {
        return Err(IpcError::InvalidInitSocket(name.to_owned()));
    }
    let mut index: usize = 0;
    while index < characters.len()
        invariant
            index <= characters@.len(),
            characters@ == name@,
            forall|i: int|
                0 <= i < index ==> {
                    ||| alphanumeric(#[trigger] name@[i])
                    ||| name@[i] == '-'
                    ||| name@[i] == '_'
                },
        decreases characters@.len() - index,
    {
        let character: char = characters[index];
        if !(is_alphanumeric(character) || character == '-' || character == '_') {
            assert(!alphanumeric(name@[index as int]));
            return Err(IpcError::InvalidInitSocket(name.to_owned()));
        }
        index = index + 1;
    }
    Ok(android_init_descriptor_variable(name))
}

/// Descriptor that a text stands for: a number of at most `i32::MAX`, or a
/// negative zero.
pub open spec fn descriptor_number(value: Seq<char>) -> Option<int> {
    if value.len() > 0 && value[0] == '-' {
        let digits = value.skip(1);
        if digits.len() > 0 && forall|i: int| 0 <= i < digits.len() ==> #[trigger] digits[i] == '0' {
            Some(0int)
        } else {
            None
        }
    } else {
        number(value, i32::MAX as int)
    }
}

/// Descriptor of a named init socket in the value of its environment variable.
pub fn init_socket_descriptor(name: &str, value: Option<&str>) -> (result: Result<i32, IpcError>)
    ensures
        match result {
            Ok(descriptor) => value is Some && descriptor_number(value->0@) == Some(
                descriptor as int,
            ),
            Err(error) => {
                &&& value is None || descriptor_number(value->0@) is None
                &&& error is InvalidInitSocket
                &&& error->InvalidInitSocket_0@ == name@
            },
        },
{
    let text = match value {
        Some(value) => chars_of(value),
        None => {
            return Err(IpcError::InvalidInitSocket(name.to_owned()));
        },
    };
    if text.len() > 0 && text[0] == '-' {
        let mut index: usize = 1;
        while index < text.len()
            invariant
                1 <= index <= text@.len(),
                text@[0] == '-',
                value is Some,
                text@ == value->0@,
                forall|i: int| 0 <= i < index - 1 ==> #[trigger] text@.skip(1)[i] == '0',
            decreases text@.len() - index,
        {
            if text[index] != '0' {
                assert(text@.skip(1)[index - 1] != '0');
                return Err(IpcError::InvalidInitSocket(name.to_owned()));
            }
            index = index + 1;
        }
        if text.len() == 1 {
            return Err(IpcError::InvalidInitSocket(name.to_owned()));
        }
        return Ok(0);
    }
    match parse_number(&text, i32::MAX as u64) {
        Some(descriptor) => {
            proof {
                crate::text::lemma_number_range(text@, i32::MAX as int);
            }
            Ok(descriptor as i32)
        },
        None => Err(IpcError::InvalidInitSocket(name.to_owned())),
    }
}

/// Whether a path can be the name of a Unix socket whose address holds
/// `capacity` path bytes, with the final NUL.
pub open spec fn socket_path(path: Seq<u8>, capacity: usize) -> bool {
    &&& path.len() > 0
    &&& !path.contains(0)
    &&& path.len() < capacity
}

/// Length of the address of a Unix socket: what stands before the path, the
/// path and its final NUL.
pub fn socket_address_length(path: &[u8], path_offset: usize, capacity: usize) -> (result: Result<
    u32,
    IpcError,
>)
    ensures
        result == (if socket_path(path@, capacity) && path_offset + path@.len() + 1 <= u32::MAX {
            Ok((path_offset + path@.len() + 1) as u32)
        } else {
            Err(IpcError::InvalidPath)
        }),
{
    let length: usize = path.len();
    if length == 0 || length >= capacity {
        return Err(IpcError::InvalidPath);
    }
    let mut index: usize = 0;
    while index < length
        invariant
            index <= length == path@.len(),
            forall|i: int| 0 <= i < index ==> #[trigger] path@[i] != 0,
        decreases length - index,
    {
        if path[index] == 0 {
            assert(path@[index as int] == 0);
            assert(path@.contains(0));
            return Err(IpcError::InvalidPath);
        }
        index = index + 1;
    }
    assert(!path@.contains(0));
    match path_offset.checked_add(length) {
        Some(sum) => match sum.checked_add(1) {
            Some(total) => if total as u64 <= u32::MAX as u64 {
                Ok(total as u32)
            } else {
                Err(IpcError::InvalidPath)
            },
            None => Err(IpcError::InvalidPath),
        },
        None => Err(IpcError::InvalidPath),
    }
}

/// First reason not to send a record.
pub open spec fn send_error(length: usize, descriptors: usize) -> Option<IpcError> {
    if length == 0 || length > MAX_PACKET_BYTES {
        Some(IpcError::Truncated)
    } else if descriptors > MAX_PACKET_DESCRIPTORS {
        Some(
            IpcError::DescriptorLimit { actual: descriptors, maximum: MAX_PACKET_DESCRIPTORS },
        )
    } else {
        None
    }
}

/// Check a record before it is sent.
pub fn check_send(length: usize, descriptors: usize) -> (result: Result<(), IpcError>)
    ensures
        result == checked(send_error(length, descriptors)),
{
    if length == 0 || length > MAX_PACKET_BYTES {
        return Err(IpcError::Truncated);
    }
    if descriptors > MAX_PACKET_DESCRIPTORS {
        return Err(
            IpcError::DescriptorLimit { actual: descriptors, maximum: MAX_PACKET_DESCRIPTORS },
        );
    }
    Ok(())
}

/// Check what the kernel says of a send: exactly one complete record.
pub fn check_sent(expected: usize, sent: i64) -> (result: Result<(), IpcError>)
    ensures
        result == (if sent < 0 {
            Err(IpcError::Io)
        } else if sent as int == expected {
            Ok(())
        } else {
            Err(
                IpcError::ShortSend {
                    expected,
                    actual: if sent as int <= usize::MAX {
                        sent as usize
                    } else {
                        0
                    },
                },
            )
        }),
{
    if sent < 0 {
        return Err(IpcError::Io);
    }
    let actual: usize = if sent as u64 <= usize::MAX as u64 {
        sent as usize
    } else {
        return Err(IpcError::ShortSend { expected, actual: 0 });
    };
    if actual != expected {
        return Err(IpcError::ShortSend { expected, actual });
    }
    Ok(())
}

/// Check the storage for a receive.
pub fn check_storage(length: usize) -> (result: Result<(), IpcError>)
    ensures
        result == (if length == 0 || length > MAX_PACKET_BYTES {
            Err(IpcError::Truncated)
        } else {
            Ok(())
        }),
{
    if length == 0 || length > MAX_PACKET_BYTES {
        return Err(IpcError::Truncated);
    }
    Ok(())
}

/// Descriptors in one block of ancillary data of `length` bytes, `header` of
/// them before the data.
pub fn ancillary_count(carries_descriptors: bool, length: usize, header: usize) -> (result: Result<
    usize,
    IpcError,
>)
    ensures
        match result {
            Ok(count) => {
                &&& carries_descriptors
                &&& count > 0
                &&& length == header + count * DESCRIPTOR_BYTES
            },
            Err(error) => {
                &&& error == IpcError::InvalidAncillary
                &&& !(carries_descriptors && header < length && (length - header)
                    % DESCRIPTOR_BYTES as int == 0)
            },
        },
{
    if !carries_descriptors || length < header {
        return Err(IpcError::InvalidAncillary);
    }
    let data: usize = length - header;
    if data == 0 || data % DESCRIPTOR_BYTES != 0 {
        return Err(IpcError::InvalidAncillary);
    }
    Ok(data / DESCRIPTOR_BYTES)
}

/// First reason to drop what the kernel returned for a receive.
pub open spec fn receive_error(received: i64, truncated: bool, descriptors: usize) -> Option<
    IpcError,
> {
    if received < 0 {
        Some(IpcError::Io)
    } else if received == 0 {
        Some(IpcError::PeerClosed)
    } else if truncated {
        Some(IpcError::Truncated)
    } else if descriptors > MAX_PACKET_DESCRIPTORS {
        Some(
            IpcError::DescriptorLimit { actual: descriptors, maximum: MAX_PACKET_DESCRIPTORS },
        )
    } else {
        None
    }
}

/// Check what the kernel returned for a receive. After an error every received
/// descriptor is closed.
pub fn check_received(received: i64, truncated: bool, descriptors: usize) -> (result: Result<
    (),
    IpcError,
>)
    ensures
        result == checked(receive_error(received, truncated, descriptors)),
{
    if received < 0 {
        return Err(IpcError::Io);
    }
    if received == 0 {
        return Err(IpcError::PeerClosed);
    }
    if truncated {
        return Err(IpcError::Truncated);
    }
    if descriptors > MAX_PACKET_DESCRIPTORS {
        return Err(
            IpcError::DescriptorLimit { actual: descriptors, maximum: MAX_PACKET_DESCRIPTORS },
        );
    }
    Ok(())
}

/// Check a descriptor count against the one that a message defines.
pub fn require_descriptor_count(expected: usize, actual: usize) -> (result: Result<(), IpcError>)
    ensures
        result == (if expected == actual {
            Ok(())
        } else {
            Err(IpcError::DescriptorMismatch { expected, actual })
        }),
{
    if expected == actual {
        Ok(())
    } else {
        Err(IpcError::DescriptorMismatch { expected, actual })
    }
}

/// Record to send for an encoded message that comes with some descriptors.
pub open spec fn outgoing(
    encoded: Result<(Seq<u8>, Seq<DescriptorKind>), WireError>,
    descriptors: usize,
) -> Result<Seq<u8>, IpcError> {
    match encoded {
        Err(error) => Err(IpcError::Wire(error)),
        Ok((bytes, roles)) => if roles.len() == descriptors {
            Ok(bytes)
        } else {
            Err(
                IpcError::DescriptorMismatch { expected: roles.len() as usize, actual: descriptors },
            )
        },
    }
}

/// Contents of a record.
pub open spec fn record_view(record: Result<EncodedPacket, IpcError>) -> Result<
    Seq<u8>,
    IpcError,
> {
    match record {
        Ok(packet) => Ok(packet.bytes@),
        Err(error) => Err(error),
    }
}

fn paired(encoded: Result<EncodedPacket, WireError>, descriptors: usize) -> (record: Result<
    EncodedPacket,
    IpcError,
>)
    ensures
        record_view(record) == outgoing(
            crate::protocol::packet::packet_view(encoded),
            descriptors,
        ),
{
    match encoded {
        Ok(packet) => {
            require_descriptor_count(packet.descriptors.len(), descriptors)?;
            Ok(packet)
        },
        Err(error) => Err(IpcError::Wire(error)),
    }
}

/// Record to send for an Android-to-Denial message with its exact descriptors.
/// `verdict` is what the transport says of buffer metadata in it.
pub fn android_record(
    message: &AndroidMessage,
    descriptors: usize,
    verdict: Result<(), TransportError>,
) -> (record: Result<EncodedPacket, IpcError>)
    ensures
        record_view(record) == outgoing(encoded_android(message@, verdict), descriptors),
{
    paired(encode_android(message, verdict), descriptors)
}

/// Record to send for a Denial-to-Android message with its exact descriptors.
pub fn denial_record(
    message: &DenialMessage,
    descriptors: usize,
    verdict: Result<(), TransportError>,
) -> (record: Result<EncodedPacket, IpcError>)
    ensures
        record_view(record) == outgoing(encoded_denial(message@, verdict), descriptors),
{
    paired(encode_denial(message, verdict), descriptors)
}

/// Outcome of a receive: the message, and the role of each descriptor in the
/// order in which they came.
pub open spec fn incoming<T>(
    decoded: Result<(T, Seq<DescriptorKind>), WireError>,
    descriptors: usize,
) -> Result<(T, Seq<DescriptorKind>), IpcError> {
    match decoded {
        Err(error) => Err(IpcError::Wire(error)),
        Ok((message, roles)) => if roles.len() == descriptors {
            Ok((message, roles))
        } else {
            Err(
                IpcError::DescriptorMismatch { expected: roles.len() as usize, actual: descriptors },
            )
        },
    }
}

/// Message of a received Android-to-Denial record, with the role of each of
/// its descriptors. `verdict` is what the transport says of buffer metadata in
/// it.
pub fn android_message(
    record: &[u8],
    descriptors: usize,
    verdict: Result<(), TransportError>,
) -> (result: Result<DecodedPacket<AndroidMessage>, IpcError>)
    ensures
        match result {
            Ok(packet) => incoming(decoded_android(record@, descriptors, verdict), descriptors)
                == Ok::<(AndroidView, Seq<DescriptorKind>), IpcError>(
                (packet.message@, packet.descriptors@),
            ),
            Err(error) => incoming(decoded_android(record@, descriptors, verdict), descriptors)
                == Err::<(AndroidView, Seq<DescriptorKind>), IpcError>(error),
        },
{
    match decode_android(record, descriptors, verdict) {
        Ok(packet) => {
            require_descriptor_count(packet.descriptors.len(), descriptors)?;
            Ok(packet)
        },
        Err(error) => Err(IpcError::Wire(error)),
    }
}

/// Message of a received Denial-to-Android record, with the role of each of
/// its descriptors.
pub fn denial_message(
    record: &[u8],
    descriptors: usize,
    verdict: Result<(), TransportError>,
) -> (result: Result<DecodedPacket<DenialMessage>, IpcError>)
    ensures
        match result {
            Ok(packet) => incoming(decoded_denial(record@, descriptors, verdict), descriptors)
                == Ok::<(DenialView, Seq<DescriptorKind>), IpcError>(
                (packet.message@, packet.descriptors@),
            ),
            Err(error) => incoming(decoded_denial(record@, descriptors, verdict), descriptors)
                == Err::<(DenialView, Seq<DescriptorKind>), IpcError>(error),
        },
{
    match decode_denial(record, descriptors, verdict) {
        Ok(packet) => {
            require_descriptor_count(packet.descriptors.len(), descriptors)?;
            Ok(packet)
        },
        Err(error) => Err(IpcError::Wire(error)),
    }
}

/// A variable name holds letters, digits and underscores only, whatever the
/// socket is named.
pub proof fn law_variable_is_sanitized(name: Seq<char>, i: int)
    requires
        0 <= i < variable_name(name).len(),
    ensures
        alphanumeric(variable_name(name)[i]) || variable_name(name)[i] == '_',
{
}

/// Law: a record is sent when it has 1 to 65536 bytes and at most four
/// descriptors.
pub proof fn law_records_are_bounded(length: usize, descriptors: usize)
    ensures
        send_error(length, descriptors) is None <==> 1 <= length <= 65_536 && descriptors <= 4,
        length == 0 || length > 65_536 ==> send_error(length, descriptors) == Some(
            IpcError::Truncated,
        ),
        1 <= length <= 65_536 && descriptors > 4 ==> send_error(length, descriptors) == Some(
            IpcError::DescriptorLimit { actual: descriptors, maximum: 4 },
        ),
{
}

/// Law: a record is received when something came, whole and with at most four
/// descriptors; nothing at all is the end of the connection.
pub proof fn law_records_are_received_whole(received: i64, truncated: bool, descriptors: usize)
    ensures
        receive_error(received, truncated, descriptors) is None <==> received > 0 && !truncated
            && descriptors <= 4,
        received < 0 ==> receive_error(received, truncated, descriptors) == Some(IpcError::Io),
        received == 0 ==> receive_error(received, truncated, descriptors) == Some(
            IpcError::PeerClosed,
        ),
        received > 0 && truncated ==> receive_error(received, truncated, descriptors) == Some(
            IpcError::Truncated,
        ),
{
}

/// Law: a message goes out and comes in with exactly the descriptors that it
/// speaks of.
pub proof fn law_messages_carry_their_descriptors<T>(
    encoded: Result<(Seq<u8>, Seq<DescriptorKind>), WireError>,
    decoded: Result<(T, Seq<DescriptorKind>), WireError>,
    descriptors: usize,
)
    ensures
        outgoing(encoded, descriptors) is Ok <==> encoded is Ok && encoded->Ok_0.1.len()
            == descriptors,
        outgoing(encoded, descriptors) is Ok ==> outgoing(encoded, descriptors)->Ok_0
            == encoded->Ok_0.0,
        encoded is Err ==> outgoing(encoded, descriptors) == Err::<Seq<u8>, IpcError>(
            IpcError::Wire(encoded->Err_0),
        ),
        incoming(decoded, descriptors) is Ok <==> decoded is Ok && decoded->Ok_0.1.len()
            == descriptors,
        incoming(decoded, descriptors) is Ok ==> incoming(decoded, descriptors)->Ok_0
            == decoded->Ok_0,
        decoded is Err ==> incoming(decoded, descriptors) == Err::<
            (T, Seq<DescriptorKind>),
            IpcError,
        >(IpcError::Wire(decoded->Err_0)),
{
}

/// Law: a socket path is not empty, holds no zero byte and leaves room for one
/// at its end.
pub proof fn law_socket_paths_fit(path: Seq<u8>, capacity: usize)
    ensures
        socket_path(path, capacity) <==> {
            &&& 0 < path.len() < capacity
            &&& forall|i: int| 0 <= i < path.len() ==> #[trigger] path[i] != 0
        },
{
    if path.contains(0) {
        let i = choose|i: int| 0 <= i < path.len() && path[i] == 0;
        assert(path[i] == 0);
    } else {
        assert forall|i: int| 0 <= i < path.len() implies #[trigger] path[i] != 0 by {
            assert(path.contains(path[i]));
        }
    }
}

/// Law: the variable of a socket is its name behind `ANDROID_SOCKET_`, with
/// letters and digits as they are and anything else as an underscore.
pub proof fn law_variables_are_named_after_their_socket(name: Seq<char>, i: int)
    requires
        0 <= i < name.len(),
    ensures
        variable_name(name).len() == 15 + name.len(),
        variable_name(name).take(15) == "ANDROID_SOCKET_"@,
        'a' <= name[i] <= 'z' || 'A' <= name[i] <= 'Z' || '0' <= name[i] <= '9'
            ==> variable_name(name)[15 + i] == name[i],
        !('a' <= name[i] <= 'z' || 'A' <= name[i] <= 'Z' || '0' <= name[i] <= '9')
            ==> variable_name(name)[15 + i] == '_',
        init_name(name) ==> {
            ||| 'a' <= name[i] <= 'z'
            ||| 'A' <= name[i] <= 'Z'
            ||| '0' <= name[i] <= '9'
            ||| name[i] == '-'
            ||| name[i] == '_'
        },
{
    reveal_strlit("ANDROID_SOCKET_");
    assert(("ANDROID_SOCKET_"@ + name)[15 + i] == name[i]);
    assert(variable_name(name).take(15) =~= "ANDROID_SOCKET_"@);
}

/// Law: a descriptor is named by an unsigned number of 31 bits; the only negative
/// one is zero.
pub proof fn law_descriptors_are_named_by_numbers(value: Seq<char>)
    ensures
        value.len() > 0 && value[0] != '-' ==> descriptor_number(value) == number(
            value,
            2_147_483_647,
        ),
        value.len() == 0 ==> descriptor_number(value) is None,
        descriptor_number(value) matches Some(descriptor) ==> 0 <= descriptor <= 2_147_483_647,
        value.len() > 0 && value[0] == '-' && descriptor_number(value) is Some
            ==> descriptor_number(value) == Some(0int) && value.len() > 1 && forall|i: int|
            1 <= i < value.len() ==> #[trigger] value[i] == '0',
{
    broadcast use crate::text::lemma_number_range;

    if value.len() > 0 && value[0] == '-' && descriptor_number(value) is Some {
        let digits = value.skip(1);
        assert forall|i: int| 1 <= i < value.len() implies #[trigger] value[i] == '0' by {
            assert(digits[i - 1] == value[i]);
        }
    }
}

/// Law: a socket of init is named by one or more letters, digits, hyphens and
/// underscores.
pub proof fn law_init_sockets_are_named_plainly(name: Seq<char>)
    ensures
        init_name(name) <==> {
            &&& name.len() >= 1
            &&& forall|i: int|
                0 <= i < name.len() ==> {
                    ||| 'a' <= #[trigger] name[i] <= 'z'
                    ||| 'A' <= name[i] <= 'Z'
                    ||| '0' <= name[i] <= '9'
                    ||| name[i] == '-'
                    ||| name[i] == '_'
                }
        },
{
}

} // verus!
