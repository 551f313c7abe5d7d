//! Checks and composite fields shared by the two message directions.

use vstd::prelude::*;

use super::codes::{
    decode_key_action, decode_navigation_action, decode_touch_action, key_action_of,
    navigation_action_of, touch_action_of,
};
use super::wire::{
    complement, lemma_le_at_first, lemma_le_at_second, lemma_le_at_whole, lemma_le_bytes_len,
    lemma_le_bytes_of_value, lemma_spans, le_at, le_bytes, signed, Reader, Writer,
};
use super::{
    capability, BufferId, BufferMetadata, BufferView, Damage, FormatModifier, InputEvent,
    PlaneMetadata, TaskObjectId, TransportError, WireError, MAX_BUFFERS_PER_TASK,
    MAX_DAMAGE_RECTS, MAX_TASK_OBJECTS, PROTOCOL_MAJOR, PROTOCOL_MINOR,
};

verus! {

/// Outcome of a check that found at most one error.
pub open spec fn checked(error: Option<WireError>) -> Result<(), WireError> {
    match error {
        Some(error) => Err(error),
        None => Ok(()),
    }
}

/// The first of two errors.
pub open spec fn first(error: Option<WireError>, next: Option<WireError>) -> Option<WireError> {
    if error is Some {
        error
    } else {
        next
    }
}

/// An error, or what follows from its absence.
pub open spec fn unless<T>(error: Option<WireError>, read: Result<T, WireError>) -> Result<
    T,
    WireError,
> {
    match error {
        Some(error) => Err(error),
        None => read,
    }
}

/// What follows from `width` bytes being there.
pub open spec fn given<T>(bytes: Seq<u8>, width: int, read: Result<T, WireError>) -> Result<
    T,
    WireError,
> {
    if bytes.len() < width {
        Err(WireError::Truncated)
    } else {
        read
    }
}

/// Task messages name a non-zero object.
pub open spec fn object_error(object: u64) -> Option<WireError> {
    if object == 0 {
        Some(WireError::InvalidObject)
    } else {
        None
    }
}

/// Connection messages name object zero.
pub open spec fn connection_error(object: u64) -> Option<WireError> {
    if object == 0 {
        None
    } else {
        Some(WireError::InvalidObject)
    }
}

/// Identities, serials and points are not zero.
pub open spec fn zero_error(field: &'static str, value: u64) -> Option<WireError> {
    if value == 0 {
        Some(WireError::InvalidEnum { field, value })
    } else {
        None
    }
}

/// Bit fields hold known bits only.
pub open spec fn bits_error(field: &'static str, value: u64, known: u64) -> Option<WireError> {
    if value & !known == 0 {
        None
    } else {
        Some(WireError::InvalidEnum { field, value })
    }
}

/// Damage is not empty and its edges fit 32 bits.
pub open spec fn damage_error(damage: Damage) -> Option<WireError> {
    if damage.width == 0 || damage.height == 0 || damage.x + damage.width > u32::MAX || damage.y
        + damage.height > u32::MAX {
        Some(WireError::Limit { field: "damage rectangle" })
    } else {
        None
    }
}

/// Feedback names explicit modifiers only.
pub open spec fn modifier_error(format: FormatModifier) -> Option<WireError> {
    if format.modifier == u64::MAX {
        Some(WireError::InvalidEnum { field: "DRM modifier", value: format.modifier })
    } else {
        None
    }
}

/// A server greeting selects this protocol, all required capabilities and
/// limits inside the protocol bounds.
pub open spec fn server_hello_error(
    major: u16,
    minor: u16,
    capabilities: u64,
    max_task_objects: u32,
    max_buffers_per_task: u32,
    max_damage_rects: u32,
) -> Option<WireError> {
    if major != PROTOCOL_MAJOR || minor > PROTOCOL_MINOR {
        Some(WireError::UnsupportedVersion { major, minor })
    } else if capabilities & capability::REQUIRED_V1 != capability::REQUIRED_V1 {
        Some(WireError::InvalidEnum { field: "required capabilities", value: capabilities })
    } else if max_task_objects == 0 || max_task_objects > MAX_TASK_OBJECTS {
        Some(WireError::Limit { field: "task objects" })
    } else if max_buffers_per_task == 0 || max_buffers_per_task > MAX_BUFFERS_PER_TASK {
        Some(WireError::Limit { field: "buffers per task" })
    } else if max_damage_rects == 0 || max_damage_rects > MAX_DAMAGE_RECTS {
        Some(WireError::Limit { field: "damage rectangles" })
    } else {
        None
    }
}

/// A configure has a serial, a bounded size, a scale and a bounded refresh
/// rate.
pub open spec fn configure_error(
    serial: u32,
    width: u32,
    height: u32,
    scale_numerator: u32,
    scale_denominator: u32,
    refresh_millihz: u32,
) -> Option<WireError> {
    if serial == 0 || width == 0 || height == 0 || width > 16_384 || height > 16_384
        || scale_numerator == 0 || scale_denominator == 0 || refresh_millihz == 0 || refresh_millihz
        > 1_000_000 {
        Some(WireError::Limit { field: "configure" })
    } else {
        None
    }
}

/// Require a task object.
pub fn valid_object(object: TaskObjectId) -> (result: Result<u64, WireError>)
    ensures
        result == (match object_error(object.0) {
            Some(error) => Err(error),
            None => Ok(object.0),
        }),
{
    if object.0 == 0 {
        Err(WireError::InvalidObject)
    } else {
        Ok(object.0)
    }
}

/// Require the connection object.
pub fn require_connection(object: u64) -> (result: Result<(), WireError>)
    ensures
        result == checked(connection_error(object)),
{
    if object == 0 {
        Ok(())
    } else {
        Err(WireError::InvalidObject)
    }
}

/// Require a non-zero value.
pub fn nonzero(field: &'static str, value: u64) -> (result: Result<(), WireError>)
    ensures
        result == checked(zero_error(field, value)),
{
    if value == 0 {
        Err(WireError::InvalidEnum { field, value })
    } else {
        Ok(())
    }
}

/// Require known bits only.
pub fn known_bits(field: &'static str, value: u64, known: u64) -> (result: Result<(), WireError>)
    ensures
        result == checked(bits_error(field, value, known)),
{
    if value & !known == 0 {
        Ok(())
    } else {
        Err(WireError::InvalidEnum { field, value })
    }
}

/// Require a non-empty damage rectangle whose edges fit 32 bits.
pub fn validate_damage(damage: Damage) -> (result: Result<(), WireError>)
    ensures
        result == checked(damage_error(damage)),
{
    if damage.width == 0 || damage.height == 0 || damage.x.checked_add(damage.width).is_none()
        || damage.y.checked_add(damage.height).is_none() {
        Err(WireError::Limit { field: "damage rectangle" })
    } else {
        Ok(())
    }
}

/// Require an acceptable server greeting.
pub fn validate_server_hello(
    major: u16,
    minor: u16,
    capabilities: u64,
    max_task_objects: u32,
    max_buffers_per_task: u32,
    max_damage_rects: u32,
) -> (result: Result<(), WireError>)
    ensures
        result == checked(
            server_hello_error(
                major,
                minor,
                capabilities,
                max_task_objects,
                max_buffers_per_task,
                max_damage_rects,
            ),
        ),
{
    if major != PROTOCOL_MAJOR || minor > PROTOCOL_MINOR {
        return Err(WireError::UnsupportedVersion { major, minor });
    }
    if capabilities & capability::REQUIRED_V1 != capability::REQUIRED_V1 {
        return Err(WireError::InvalidEnum { field: "required capabilities", value: capabilities });
    }
    if max_task_objects == 0 || max_task_objects > MAX_TASK_OBJECTS {
        return Err(WireError::Limit { field: "task objects" });
    }
    if max_buffers_per_task == 0 || max_buffers_per_task > MAX_BUFFERS_PER_TASK {
        return Err(WireError::Limit { field: "buffers per task" });
    }
    if max_damage_rects == 0 || max_damage_rects as u64 > MAX_DAMAGE_RECTS as u64 {
        return Err(WireError::Limit { field: "damage rectangles" });
    }
    Ok(())
}

/// Require a bounded configure.
pub fn validate_configure(
    serial: u32,
    width: u32,
    height: u32,
    scale_numerator: u32,
    scale_denominator: u32,
    refresh_millihz: u32,
) -> (result: Result<(), WireError>)
    ensures
        result == checked(
            configure_error(
                serial,
                width,
                height,
                scale_numerator,
                scale_denominator,
                refresh_millihz,
            ),
        ),
{
    if serial == 0 || width == 0 || height == 0 || width > 16_384 || height > 16_384
        || scale_numerator == 0 || scale_denominator == 0 || refresh_millihz == 0 || refresh_millihz
        > 1_000_000 {
        Err(WireError::Limit { field: "configure" })
    } else {
        Ok(())
    }
}

/// Boolean held by a byte.
pub open spec fn bool_of(value: u8, field: &'static str) -> Result<bool, WireError> {
    if value == 0 {
        Ok(false)
    } else if value == 1 {
        Ok(true)
    } else {
        Err(WireError::InvalidEnum { field, value: value as u64 })
    }
}

/// Decode a boolean byte.
pub fn decode_bool(value: u8, field: &'static str) -> (result: Result<bool, WireError>)
    ensures
        result == bool_of(value, field),
{
    match value {
        0 => Ok(false),
        1 => Ok(true),
        _ => Err(WireError::InvalidEnum { field, value: value as u64 }),
    }
}

/// Wire form of one plane.
pub open spec fn plane_bytes(value: PlaneMetadata) -> Seq<u8> {
    le_bytes(value.index as nat, 4) + le_bytes(value.offset as nat, 4) + le_bytes(
        value.stride as nat,
        4,
    )
}

/// Wire form of a list of planes.
pub open spec fn planes_bytes(list: Seq<PlaneMetadata>) -> Seq<u8>
    decreases list.len(),
{
    if list.len() == 0 {
        Seq::empty()
    } else {
        planes_bytes(list.drop_last()) + plane_bytes(list.last())
    }
}

/// The plane at `offset`.
pub open spec fn plane_at(bytes: Seq<u8>, offset: int) -> PlaneMetadata {
    PlaneMetadata {
        index: le_at(bytes, offset, 4) as u32,
        offset: le_at(bytes, offset + 4, 4) as u32,
        stride: le_at(bytes, offset + 8, 4) as u32,
    }
}

/// The first `count` planes of a list at `offset`, or the first error in
/// them.
pub open spec fn planes_at(bytes: Seq<u8>, offset: int, count: nat) -> Result<
    Seq<PlaneMetadata>,
    WireError,
>
    decreases count,
{
    if count == 0 {
        Ok(Seq::empty())
    } else {
        match planes_at(bytes, offset, (count - 1) as nat) {
            Err(error) => Err(error),
            Ok(list) => if bytes.len() < offset + 12 * count {
                Err(WireError::Truncated)
            } else {
                Ok(list.push(plane_at(bytes, offset + 12 * (count - 1))))
            },
        }
    }
}

proof fn lemma_planes_error(bytes: Seq<u8>, offset: int, count: nat, total: nat)
    requires
        count <= total,
        planes_at(bytes, offset, count) is Err,
    ensures
        planes_at(bytes, offset, total) == planes_at(bytes, offset, count),
    decreases total,
{
    if count < total {
        lemma_planes_error(bytes, offset, count, (total - 1) as nat);
    }
}

/// Length of the wire form of a list of planes.
pub proof fn lemma_planes_len(list: Seq<PlaneMetadata>)
    ensures
        planes_bytes(list).len() == 12 * list.len(),
    decreases list.len(),
{
    broadcast use lemma_le_bytes_len;

    if list.len() > 0 {
        lemma_planes_len(list.drop_last());
    }
}

/// A written list of planes reads back.
pub proof fn lemma_planes_round_trip(before: Seq<u8>, list: Seq<PlaneMetadata>, after: Seq<u8>)
    ensures
        planes_at(before + planes_bytes(list) + after, before.len() as int, list.len()) == Ok::<
            Seq<PlaneMetadata>,
            WireError,
        >(list),
    decreases list.len(),
{
    if list.len() > 0 {
        broadcast use
            lemma_le_bytes_len,
            lemma_le_at_first,
            lemma_le_at_second,
            lemma_le_at_whole,
        ;

        lemma_spans();
        let start = list.drop_last();
        let last = plane_bytes(list.last());
        let bytes = before + planes_bytes(list) + after;
        lemma_planes_len(start);
        lemma_planes_round_trip(before, start, last + after);
        assert(bytes =~= before + planes_bytes(start) + (last + after));
        assert(plane_at(bytes, (before.len() + 12 * start.len()) as int) == list.last());
        assert(start.push(list.last()) =~= list);
    } else {
        assert(list =~= Seq::<PlaneMetadata>::empty());
    }
}

/// An accepted list of planes has exactly one wire form.
pub proof fn lemma_planes_canonical(bytes: Seq<u8>, offset: int, count: nat)
    requires
        0 <= offset <= bytes.len(),
        planes_at(bytes, offset, count) is Ok,
    ensures
        offset + 12 * count <= bytes.len(),
        planes_at(bytes, offset, count)->Ok_0.len() == count,
        planes_bytes(planes_at(bytes, offset, count)->Ok_0) == bytes.subrange(
            offset,
            offset + 12 * count,
        ),
    decreases count,
{
    let list = planes_at(bytes, offset, count)->Ok_0;
    if count == 0 {
        assert(planes_bytes(list) =~= bytes.subrange(offset, offset));
    } else {
        broadcast use lemma_le_bytes_len;

        lemma_spans();
        lemma_planes_canonical(bytes, offset, (count - 1) as nat);
        let at = offset + 12 * (count - 1);
        assert(list.drop_last() =~= planes_at(bytes, offset, (count - 1) as nat)->Ok_0);
        lemma_le_bytes_of_value(bytes.subrange(at + 0, at + 4));
        lemma_le_bytes_of_value(bytes.subrange(at + 4, at + 8));
        lemma_le_bytes_of_value(bytes.subrange(at + 8, at + 12));
        assert(plane_bytes(list.last()) =~= bytes.subrange(at, at + 12));
        assert(planes_bytes(list) =~= bytes.subrange(offset, offset + 12 * count));
    }
}

/// Wire form of one damage rectangle.
pub open spec fn damage_bytes(value: Damage) -> Seq<u8> {
    le_bytes(value.x as nat, 4) + le_bytes(value.y as nat, 4) + le_bytes(value.width as nat, 4)
        + le_bytes(value.height as nat, 4)
}

/// Wire form of a list of damage rectangles.
pub open spec fn damages_bytes(list: Seq<Damage>) -> Seq<u8>
    decreases list.len(),
{
    if list.len() == 0 {
        Seq::empty()
    } else {
        damages_bytes(list.drop_last()) + damage_bytes(list.last())
    }
}

/// The damage rectangle at `offset`.
pub open spec fn damage_at(bytes: Seq<u8>, offset: int) -> Damage {
    Damage {
        x: le_at(bytes, offset, 4) as u32,
        y: le_at(bytes, offset + 4, 4) as u32,
        width: le_at(bytes, offset + 8, 4) as u32,
        height: le_at(bytes, offset + 12, 4) as u32,
    }
}

/// The first `count` damage rectangles of a list at `offset`, or the first error in
/// them.
pub open spec fn damages_at(bytes: Seq<u8>, offset: int, count: nat) -> Result<
    Seq<Damage>,
    WireError,
>
    decreases count,
{
    if count == 0 {
        Ok(Seq::empty())
    } else {
        match damages_at(bytes, offset, (count - 1) as nat) {
            Err(error) => Err(error),
            Ok(list) => if bytes.len() < offset + 16 * count {
                Err(WireError::Truncated)
            } else if damage_error(damage_at(bytes, offset + 16 * (count - 1))) is Some {
                Err(damage_error(damage_at(bytes, offset + 16 * (count - 1)))->Some_0)
            } else {
                Ok(list.push(damage_at(bytes, offset + 16 * (count - 1))))
            },
        }
    }
}

/// An error in the first rectangles of a list is the error of the list.
pub proof fn lemma_damages_error(bytes: Seq<u8>, offset: int, count: nat, total: nat)
    requires
        count <= total,
        damages_at(bytes, offset, count) is Err,
    ensures
        damages_at(bytes, offset, total) == damages_at(bytes, offset, count),
    decreases total,
{
    if count < total {
        lemma_damages_error(bytes, offset, count, (total - 1) as nat);
    }
}

/// Length of the wire form of a list of damage rectangles.
pub proof fn lemma_damages_len(list: Seq<Damage>)
    ensures
        damages_bytes(list).len() == 16 * list.len(),
    decreases list.len(),
{
    broadcast use lemma_le_bytes_len;

    if list.len() > 0 {
        lemma_damages_len(list.drop_last());
    }
}

/// A written list of damage rectangles reads back.
pub proof fn lemma_damages_round_trip(before: Seq<u8>, list: Seq<Damage>, after: Seq<u8>)
    requires
        forall|i: int| 0 <= i < list.len() ==> damage_error(#[trigger] list[i]) is None,
    ensures
        damages_at(before + damages_bytes(list) + after, before.len() as int, list.len()) == Ok::<
            Seq<Damage>,
            WireError,
        >(list),
    decreases list.len(),
{
    if list.len() > 0 {
        broadcast use
            lemma_le_bytes_len,
            lemma_le_at_first,
            lemma_le_at_second,
            lemma_le_at_whole,
        ;

        lemma_spans();
        let start = list.drop_last();
        let last = damage_bytes(list.last());
        let bytes = before + damages_bytes(list) + after;
        lemma_damages_len(start);
        lemma_damages_round_trip(before, start, last + after);
        assert(bytes =~= before + damages_bytes(start) + (last + after));
        assert(damage_at(bytes, (before.len() + 16 * start.len()) as int) == list.last());
        assert(start.push(list.last()) =~= list);
    } else {
        assert(list =~= Seq::<Damage>::empty());
    }
}

/// An accepted list of damage rectangles has exactly one wire form.
pub proof fn lemma_damages_canonical(bytes: Seq<u8>, offset: int, count: nat)
    requires
        0 <= offset <= bytes.len(),
        damages_at(bytes, offset, count) is Ok,
    ensures
        offset + 16 * count <= bytes.len(),
        damages_at(bytes, offset, count)->Ok_0.len() == count,
        forall|i: int|
            0 <= i < count ==> damage_error(
                #[trigger] damages_at(bytes, offset, count)->Ok_0[i],
            ) is None,
        damages_bytes(damages_at(bytes, offset, count)->Ok_0) == bytes.subrange(
            offset,
            offset + 16 * count,
        ),
    decreases count,
{
    let list = damages_at(bytes, offset, count)->Ok_0;
    if count == 0 {
        assert(damages_bytes(list) =~= bytes.subrange(offset, offset));
    } else {
        broadcast use lemma_le_bytes_len;

        lemma_spans();
        lemma_damages_canonical(bytes, offset, (count - 1) as nat);
        let at = offset + 16 * (count - 1);
        assert(list.drop_last() =~= damages_at(bytes, offset, (count - 1) as nat)->Ok_0);
        lemma_le_bytes_of_value(bytes.subrange(at + 0, at + 4));
        lemma_le_bytes_of_value(bytes.subrange(at + 4, at + 8));
        lemma_le_bytes_of_value(bytes.subrange(at + 8, at + 12));
        lemma_le_bytes_of_value(bytes.subrange(at + 12, at + 16));
        assert(damage_bytes(list.last()) =~= bytes.subrange(at, at + 16));
        assert(damages_bytes(list) =~= bytes.subrange(offset, offset + 16 * count));
    }
}

/// Wire form of one format.
pub open spec fn format_bytes(value: FormatModifier) -> Seq<u8> {
    le_bytes(value.fourcc as nat, 4) + le_bytes(value.modifier as nat, 8)
}

/// Wire form of a list of formats.
pub open spec fn formats_bytes(list: Seq<FormatModifier>) -> Seq<u8>
    decreases list.len(),
{
    if list.len() == 0 {
        Seq::empty()
    } else {
        formats_bytes(list.drop_last()) + format_bytes(list.last())
    }
}

/// The format at `offset`.
pub open spec fn format_at(bytes: Seq<u8>, offset: int) -> FormatModifier {
    FormatModifier {
        fourcc: le_at(bytes, offset, 4) as u32,
        modifier: le_at(bytes, offset + 4, 8) as u64,
    }
}

/// The first `count` formats of a list at `offset`, or the first error in
/// them.
pub open spec fn formats_at(bytes: Seq<u8>, offset: int, count: nat) -> Result<
    Seq<FormatModifier>,
    WireError,
>
    decreases count,
{
    if count == 0 {
        Ok(Seq::empty())
    } else {
        match formats_at(bytes, offset, (count - 1) as nat) {
            Err(error) => Err(error),
            Ok(list) => if bytes.len() < offset + 12 * count {
                Err(WireError::Truncated)
            } else if modifier_error(format_at(bytes, offset + 12 * (count - 1))) is Some {
                Err(modifier_error(format_at(bytes, offset + 12 * (count - 1)))->Some_0)
            } else {
                Ok(list.push(format_at(bytes, offset + 12 * (count - 1))))
            },
        }
    }
}

/// An error in the first formats of a list is the error of the list.
pub proof fn lemma_formats_error(bytes: Seq<u8>, offset: int, count: nat, total: nat)
    requires
        count <= total,
        formats_at(bytes, offset, count) is Err,
    ensures
        formats_at(bytes, offset, total) == formats_at(bytes, offset, count),
    decreases total,
{
    if count < total {
        lemma_formats_error(bytes, offset, count, (total - 1) as nat);
    }
}

/// Length of the wire form of a list of formats.
pub proof fn lemma_formats_len(list: Seq<FormatModifier>)
    ensures
        formats_bytes(list).len() == 12 * list.len(),
    decreases list.len(),
{
    broadcast use lemma_le_bytes_len;

    if list.len() > 0 {
        lemma_formats_len(list.drop_last());
    }
}

/// A written list of formats reads back.
pub proof fn lemma_formats_round_trip(before: Seq<u8>, list: Seq<FormatModifier>, after: Seq<u8>)
    requires
        forall|i: int| 0 <= i < list.len() ==> modifier_error(#[trigger] list[i]) is None,
    ensures
        formats_at(before + formats_bytes(list) + after, before.len() as int, list.len()) == Ok::<
            Seq<FormatModifier>,
            WireError,
        >(list),
    decreases list.len(),
{
    if list.len() > 0 {
        broadcast use
            lemma_le_bytes_len,
            lemma_le_at_first,
            lemma_le_at_second,
            lemma_le_at_whole,
        ;

        lemma_spans();
        let start = list.drop_last();
        let last = format_bytes(list.last());
        let bytes = before + formats_bytes(list) + after;
        lemma_formats_len(start);
        lemma_formats_round_trip(before, start, last + after);
        assert(bytes =~= before + formats_bytes(start) + (last + after));
        assert(format_at(bytes, (before.len() + 12 * start.len()) as int) == list.last());
        assert(start.push(list.last()) =~= list);
    } else {
        assert(list =~= Seq::<FormatModifier>::empty());
    }
}

/// An accepted list of formats has exactly one wire form.
pub proof fn lemma_formats_canonical(bytes: Seq<u8>, offset: int, count: nat)
    requires
        0 <= offset <= bytes.len(),
        formats_at(bytes, offset, count) is Ok,
    ensures
        offset + 12 * count <= bytes.len(),
        formats_at(bytes, offset, count)->Ok_0.len() == count,
        forall|i: int|
            0 <= i < count ==> modifier_error(
                #[trigger] formats_at(bytes, offset, count)->Ok_0[i],
            ) is None,
        formats_bytes(formats_at(bytes, offset, count)->Ok_0) == bytes.subrange(
            offset,
            offset + 12 * count,
        ),
    decreases count,
{
    let list = formats_at(bytes, offset, count)->Ok_0;
    if count == 0 {
        assert(formats_bytes(list) =~= bytes.subrange(offset, offset));
    } else {
        broadcast use lemma_le_bytes_len;

        lemma_spans();
        lemma_formats_canonical(bytes, offset, (count - 1) as nat);
        let at = offset + 12 * (count - 1);
        assert(list.drop_last() =~= formats_at(bytes, offset, (count - 1) as nat)->Ok_0);
        lemma_le_bytes_of_value(bytes.subrange(at + 0, at + 4));
        lemma_le_bytes_of_value(bytes.subrange(at + 4, at + 12));
        assert(format_bytes(list.last()) =~= bytes.subrange(at, at + 12));
        assert(formats_bytes(list) =~= bytes.subrange(offset, offset + 12 * count));
    }
}

/// Number of bytes of a buffer before its planes.
pub const BUFFER_HEAD_BYTES: usize = 29;

/// Wire form of buffer metadata.
pub open spec fn buffer_bytes(buffer: BufferView) -> Seq<u8> {
    le_bytes(buffer.id.0 as nat, 8) + le_bytes(buffer.width as nat, 4) + le_bytes(
        buffer.height as nat,
        4,
    ) + le_bytes(buffer.format.fourcc as nat, 4) + le_bytes(buffer.format.modifier as nat, 8)
        + le_bytes(buffer.planes.len(), 1) + planes_bytes(buffer.planes)
}

/// Buffer metadata at `offset` and the offset after it, before any judgement
/// of what it says.
pub open spec fn buffer_at(bytes: Seq<u8>, offset: int) -> Result<(BufferView, int), WireError> {
    let count = le_at(bytes, offset + 28, 1);
    if bytes.len() < offset + BUFFER_HEAD_BYTES {
        Err(WireError::Truncated)
    } else if count == 0 || count > 4 {
        Err(WireError::Limit { field: "DMA-BUF planes" })
    } else {
        match planes_at(bytes, offset + BUFFER_HEAD_BYTES, count) {
            Err(error) => Err(error),
            Ok(planes) => Ok(
                (
                    BufferView {
                        id: BufferId(le_at(bytes, offset, 8) as u64),
                        width: le_at(bytes, offset + 8, 4) as u32,
                        height: le_at(bytes, offset + 12, 4) as u32,
                        format: FormatModifier {
                            fourcc: le_at(bytes, offset + 16, 4) as u32,
                            modifier: le_at(bytes, offset + 20, 8) as u64,
                        },
                        planes,
                    },
                    offset + BUFFER_HEAD_BYTES + 12 * count,
                ),
            ),
        }
    }
}

/// Errors of buffer metadata: first what the transport says of it, then a
/// reserved identity or an implicit modifier.
pub open spec fn buffer_error(
    field: &'static str,
    buffer: BufferView,
    verdict: Result<(), TransportError>,
) -> Option<WireError> {
    if verdict is Err {
        Some(WireError::Transport(verdict->Err_0))
    } else if buffer.id.0 == 0 || buffer.format.modifier == u64::MAX {
        Some(WireError::InvalidEnum { field, value: buffer.id.0 })
    } else {
        None
    }
}

/// Number of planes that a packet can name.
pub open spec fn plane_count_error(count: nat) -> Option<WireError> {
    if count > 255 {
        Some(WireError::Limit { field: "DMA-BUF planes" })
    } else {
        None
    }
}

/// Judge buffer metadata, given what the transport says of it.
pub fn validate_buffer(
    field: &'static str,
    buffer: &BufferMetadata,
    verdict: Result<(), TransportError>,
) -> (result: Result<(), WireError>)
    ensures
        result == checked(buffer_error(field, buffer@, verdict)),
{
    if let Err(error) = verdict {
        return Err(WireError::Transport(error));
    }
    if buffer.id.0 == 0 || buffer.format.modifier == u64::MAX {
        return Err(WireError::InvalidEnum { field, value: buffer.id.0 });
    }
    Ok(())
}

/// Append buffer metadata.
pub fn encode_buffer(payload: &mut Writer, buffer: &BufferMetadata) -> (result: Result<
    (),
    WireError,
>)
    ensures
        match result {
            Ok(_) => {
                &&& buffer@.planes.len() <= 255
                &&& final(payload).bytes@ == old(payload).bytes@ + buffer_bytes(buffer@)
            },
            Err(error) => {
                &&& buffer@.planes.len() > 255
                &&& error == WireError::Limit { field: "DMA-BUF planes" }
            },
        },
{
    payload.u64(buffer.id.0);
    payload.u32(buffer.width);
    payload.u32(buffer.height);
    payload.u32(buffer.format.fourcc);
    payload.u64(buffer.format.modifier);
    if buffer.planes.len() > 255 {
        return Err(WireError::Limit { field: "DMA-BUF planes" });
    }
    payload.u8(buffer.planes.len() as u8);
    let ghost head = payload.bytes@;
    let mut index: usize = 0;
    assert(buffer.planes@.take(0) =~= Seq::<PlaneMetadata>::empty());
    assert(head + planes_bytes(buffer.planes@.take(0)) =~= head);
    while index < buffer.planes.len()
        invariant
            index <= buffer.planes@.len(),
            payload.bytes@ == head + planes_bytes(buffer.planes@.take(index as int)),
        decreases buffer.planes@.len() - index,
    {
        let plane: PlaneMetadata = buffer.planes[index];
        proof {
            let next = buffer.planes@.take(index + 1);
            assert(next.drop_last() =~= buffer.planes@.take(index as int));
            assert(next.last() == plane);
        }
        payload.u32(plane.index);
        payload.u32(plane.offset);
        payload.u32(plane.stride);
        index = index + 1;
        assert(payload.bytes@ =~= head + planes_bytes(buffer.planes@.take(index as int)));
    }
    assert(buffer.planes@.take(index as int) =~= buffer.planes@);
    assert(payload.bytes@ =~= old(payload).bytes@ + buffer_bytes(buffer@));
    Ok(())
}

/// Read buffer metadata without judging it.
pub fn read_buffer(payload: &mut Reader<'_>) -> (result: Result<BufferMetadata, WireError>)
    requires
        old(payload).wf(),
    ensures
        final(payload).wf(),
        final(payload).bytes@ == old(payload).bytes@,
        match (result, buffer_at(old(payload).bytes@, old(payload).position as int)) {
            (Ok(buffer), Ok((expected, next))) => {
                &&& buffer@ == expected
                &&& final(payload).position == next
            },
            (Err(error), Err(expected)) => error == expected,
            _ => false,
        },
{
    let id: u64 = payload.u64()?;
    let width: u32 = payload.u32()?;
    let height: u32 = payload.u32()?;
    let fourcc: u32 = payload.u32()?;
    let modifier: u64 = payload.u64()?;
    let count: u8 = payload.u8()?;
    if count == 0 || count > 4 {
        return Err(WireError::Limit { field: "DMA-BUF planes" });
    }
    let mut planes: Vec<PlaneMetadata> = Vec::new();
    let mut index: u8 = 0;
    let ghost bytes = payload.bytes@;
    let ghost start = payload.position as int;
    while index < count
        invariant
            index <= count <= 4,
            payload.wf(),
            payload.bytes@ == bytes,
            payload.position == start + 12 * index,
            planes_at(bytes, start, index as nat) == Ok::<Seq<PlaneMetadata>, WireError>(planes@),
            old(payload).bytes@ == bytes,
            start == old(payload).position + BUFFER_HEAD_BYTES,
            count == le_at(bytes, old(payload).position + 28, 1),
        decreases count - index,
    {
        proof {
            if bytes.len() < start + 12 * (index + 1) {
                assert(planes_at(bytes, start, (index + 1) as nat) is Err);
                lemma_planes_error(bytes, start, (index + 1) as nat, count as nat);
            }
        }
        let plane = PlaneMetadata {
            index: payload.u32()?,
            offset: payload.u32()?,
            stride: payload.u32()?,
        };
        planes.push(plane);
        index = index + 1;
    }
    Ok(
        BufferMetadata {
            id: BufferId(id),
            width,
            height,
            format: FormatModifier { fourcc, modifier },
            planes,
        },
    )
}

/// Wire form of an input event.
pub open spec fn event_bytes(event: InputEvent) -> Seq<u8> {
    match event {
        InputEvent::Touch { action, pointer_id, x_fixed, y_fixed, pressure } => {
            le_bytes(0, 1) + le_bytes(action.number() as nat, 1) + le_bytes(pointer_id as nat, 4)
                + le_bytes(complement(x_fixed), 4) + le_bytes(complement(y_fixed), 4) + le_bytes(
                pressure as nat,
                2,
            )
        },
        InputEvent::Key { action, keycode, repeat } => {
            le_bytes(1, 1) + le_bytes(action.number() as nat, 1) + le_bytes(keycode as nat, 4)
                + le_bytes(repeat as nat, 2)
        },
        InputEvent::Navigation { action } => {
            le_bytes(2, 1) + le_bytes(action.number() as nat, 1)
        },
    }
}

/// Input event at `offset` and the offset after it.
pub open spec fn event_at(bytes: Seq<u8>, offset: int) -> Result<(InputEvent, int), WireError> {
    let kind = le_at(bytes, offset, 1) as u8;
    let action = le_at(bytes, offset + 1, 1) as u8;
    if bytes.len() < offset + 1 {
        Err(WireError::Truncated)
    } else if kind > 2 {
        Err(WireError::InvalidEnum { field: "input event", value: kind as u64 })
    } else if bytes.len() < offset + 2 {
        Err(WireError::Truncated)
    } else if kind == 0 {
        match touch_action_of(action) {
            Err(error) => Err(error),
            Ok(action) => if bytes.len() < offset + 16 {
                Err(WireError::Truncated)
            } else {
                Ok(
                    (
                        InputEvent::Touch {
                            action,
                            pointer_id: le_at(bytes, offset + 2, 4) as u32,
                            x_fixed: signed(le_at(bytes, offset + 6, 4)),
                            y_fixed: signed(le_at(bytes, offset + 10, 4)),
                            pressure: le_at(bytes, offset + 14, 2) as u16,
                        },
                        offset + 16,
                    ),
                )
            },
        }
    } else if kind == 1 {
        match key_action_of(action) {
            Err(error) => Err(error),
            Ok(action) => if bytes.len() < offset + 8 {
                Err(WireError::Truncated)
            } else {
                Ok(
                    (
                        InputEvent::Key {
                            action,
                            keycode: le_at(bytes, offset + 2, 4) as u32,
                            repeat: le_at(bytes, offset + 6, 2) as u16,
                        },
                        offset + 8,
                    ),
                )
            },
        }
    } else {
        match navigation_action_of(action) {
            Err(error) => Err(error),
            Ok(action) => Ok((InputEvent::Navigation { action }, offset + 2)),
        }
    }
}

/// Append an input event.
pub fn encode_input(payload: &mut Writer, event: InputEvent)
    ensures
        final(payload).bytes@ == old(payload).bytes@ + event_bytes(event),
{
    match event {
        InputEvent::Touch { action, pointer_id, x_fixed, y_fixed, pressure } => {
            payload.u8(0);
            payload.u8(action.code());
            payload.u32(pointer_id);
            payload.i32(x_fixed);
            payload.i32(y_fixed);
            payload.u16(pressure);
        },
        InputEvent::Key { action, keycode, repeat } => {
            payload.u8(1);
            payload.u8(action.code());
            payload.u32(keycode);
            payload.u16(repeat);
        },
        InputEvent::Navigation { action } => {
            payload.u8(2);
            payload.u8(action.code());
        },
    }
    assert(payload.bytes@ =~= old(payload).bytes@ + event_bytes(event));
}

/// Read an input event.
pub fn decode_input(payload: &mut Reader<'_>) -> (result: Result<InputEvent, WireError>)
    requires
        old(payload).wf(),
    ensures
        final(payload).wf(),
        final(payload).bytes@ == old(payload).bytes@,
        match (result, event_at(old(payload).bytes@, old(payload).position as int)) {
            (Ok(event), Ok((expected, next))) => {
                &&& event == expected
                &&& final(payload).position == next
            },
            (Err(error), Err(expected)) => error == expected,
            _ => false,
        },
{
    let kind: u8 = payload.u8()?;
    match kind {
        0 => Ok(
            InputEvent::Touch {
                action: decode_touch_action(payload.u8()?)?,
                pointer_id: payload.u32()?,
                x_fixed: payload.i32()?,
                y_fixed: payload.i32()?,
                pressure: payload.u16()?,
            },
        ),
        1 => Ok(
            InputEvent::Key {
                action: decode_key_action(payload.u8()?)?,
                keycode: payload.u32()?,
                repeat: payload.u16()?,
            },
        ),
        2 => Ok(InputEvent::Navigation { action: decode_navigation_action(payload.u8()?)? }),
        value => Err(WireError::InvalidEnum { field: "input event", value: value as u64 }),
    }
}

/// Length of the wire form of buffer metadata.
pub proof fn lemma_buffer_len(buffer: BufferView)
    ensures
        buffer_bytes(buffer).len() == BUFFER_HEAD_BYTES + 12 * buffer.planes.len(),
{
    broadcast use lemma_le_bytes_len;

    lemma_planes_len(buffer.planes);
}

/// Written buffer metadata of one to four planes reads back.
pub proof fn lemma_buffer_round_trip(before: Seq<u8>, buffer: BufferView, after: Seq<u8>)
    requires
        1 <= buffer.planes.len() <= 4,
    ensures
        buffer_at(before + buffer_bytes(buffer) + after, before.len() as int) == Ok::<
            (BufferView, int),
            WireError,
        >((buffer, (before.len() + buffer_bytes(buffer).len()) as int)),
{
    broadcast use lemma_le_bytes_len, lemma_le_at_first, lemma_le_at_second, lemma_le_at_whole;

    lemma_spans();
    lemma_buffer_len(buffer);
    lemma_planes_len(buffer.planes);
    let bytes = before + buffer_bytes(buffer) + after;
    let at = before.len() as int;
    let head = before + (le_bytes(buffer.id.0 as nat, 8) + le_bytes(buffer.width as nat, 4)
        + le_bytes(buffer.height as nat, 4) + le_bytes(buffer.format.fourcc as nat, 4) + le_bytes(
        buffer.format.modifier as nat,
        8,
    ) + le_bytes(buffer.planes.len(), 1));
    assert(bytes =~= head + planes_bytes(buffer.planes) + after);
    lemma_planes_round_trip(head, buffer.planes, after);
    assert(le_at(bytes, at, 8) == buffer.id.0);
    assert(le_at(bytes, at + 8, 4) == buffer.width);
    assert(le_at(bytes, at + 12, 4) == buffer.height);
    assert(le_at(bytes, at + 16, 4) == buffer.format.fourcc);
    assert(le_at(bytes, at + 20, 8) == buffer.format.modifier);
    assert(le_at(bytes, at + 28, 1) == buffer.planes.len());
}

/// Accepted buffer metadata has exactly one wire form.
pub proof fn lemma_buffer_canonical(bytes: Seq<u8>, offset: int)
    requires
        0 <= offset <= bytes.len(),
        buffer_at(bytes, offset) is Ok,
    ensures
        offset <= buffer_at(bytes, offset)->Ok_0.1 <= bytes.len(),
        1 <= buffer_at(bytes, offset)->Ok_0.0.planes.len() <= 4,
        buffer_bytes(buffer_at(bytes, offset)->Ok_0.0) == bytes.subrange(
            offset,
            buffer_at(bytes, offset)->Ok_0.1,
        ),
{
    broadcast use lemma_le_bytes_len;

    lemma_spans();
    let (buffer, next) = buffer_at(bytes, offset)->Ok_0;
    let count = le_at(bytes, offset + 28, 1);
    lemma_planes_canonical(bytes, offset + BUFFER_HEAD_BYTES, count);
    lemma_le_bytes_of_value(bytes.subrange(offset, offset + 8));
    lemma_le_bytes_of_value(bytes.subrange(offset + 8, offset + 12));
    lemma_le_bytes_of_value(bytes.subrange(offset + 12, offset + 16));
    lemma_le_bytes_of_value(bytes.subrange(offset + 16, offset + 20));
    lemma_le_bytes_of_value(bytes.subrange(offset + 20, offset + 28));
    lemma_le_bytes_of_value(bytes.subrange(offset + 28, offset + 29));
    assert(buffer_bytes(buffer) =~= bytes.subrange(offset, next));
}

/// A written input event reads back.
pub proof fn lemma_event_round_trip(before: Seq<u8>, event: InputEvent, after: Seq<u8>)
    ensures
        event_at(before + event_bytes(event) + after, before.len() as int) == Ok::<
            (InputEvent, int),
            WireError,
        >((event, (before.len() + event_bytes(event).len()) as int)),
{
    broadcast use lemma_le_bytes_len, lemma_le_at_first, lemma_le_at_second, lemma_le_at_whole;

    lemma_spans();
    let bytes = before + event_bytes(event) + after;
    let at = before.len() as int;
    match event {
        InputEvent::Touch { action, pointer_id, x_fixed, y_fixed, pressure } => {
            assert(le_at(bytes, at, 1) == 0);
            assert(le_at(bytes, at + 1, 1) == action.number());
            assert(le_at(bytes, at + 2, 4) == pointer_id);
            assert(le_at(bytes, at + 6, 4) == complement(x_fixed));
            assert(le_at(bytes, at + 10, 4) == complement(y_fixed));
            assert(le_at(bytes, at + 14, 2) == pressure);
        },
        InputEvent::Key { action, keycode, repeat } => {
            assert(le_at(bytes, at, 1) == 1);
            assert(le_at(bytes, at + 1, 1) == action.number());
            assert(le_at(bytes, at + 2, 4) == keycode);
            assert(le_at(bytes, at + 6, 2) == repeat);
        },
        InputEvent::Navigation { action } => {
            assert(le_at(bytes, at, 1) == 2);
            assert(le_at(bytes, at + 1, 1) == action.number());
        },
    }
}

/// An accepted input event has exactly one wire form.
pub proof fn lemma_event_canonical(bytes: Seq<u8>, offset: int)
    requires
        0 <= offset <= bytes.len(),
        event_at(bytes, offset) is Ok,
    ensures
        offset <= event_at(bytes, offset)->Ok_0.1 <= bytes.len(),
        event_bytes(event_at(bytes, offset)->Ok_0.0) == bytes.subrange(
            offset,
            event_at(bytes, offset)->Ok_0.1,
        ),
{
    broadcast use lemma_le_bytes_len;

    lemma_spans();
    let (event, next) = event_at(bytes, offset)->Ok_0;
    lemma_le_bytes_of_value(bytes.subrange(offset, offset + 1));
    lemma_le_bytes_of_value(bytes.subrange(offset + 1, offset + 2));
    match event {
        InputEvent::Touch { .. } => {
            lemma_le_bytes_of_value(bytes.subrange(offset + 2, offset + 6));
            lemma_le_bytes_of_value(bytes.subrange(offset + 6, offset + 10));
            lemma_le_bytes_of_value(bytes.subrange(offset + 10, offset + 14));
            lemma_le_bytes_of_value(bytes.subrange(offset + 14, offset + 16));
        },
        InputEvent::Key { .. } => {
            lemma_le_bytes_of_value(bytes.subrange(offset + 2, offset + 6));
            lemma_le_bytes_of_value(bytes.subrange(offset + 6, offset + 8));
        },
        InputEvent::Navigation { .. } => {},
    }
    assert(event_bytes(event) =~= bytes.subrange(offset, next));
}

/// Law: planes stand one after another, each as its index, its offset and its
/// stride in four bytes each.
pub proof fn law_planes_have_a_fixed_layout(list: Seq<PlaneMetadata>, i: int)
    requires
        0 <= i < list.len(),
    ensures
        planes_bytes(list).len() == 12 * list.len(),
        le_at(planes_bytes(list), 12 * i, 4) == list[i].index,
        le_at(planes_bytes(list), 12 * i + 4, 4) == list[i].offset,
        le_at(planes_bytes(list), 12 * i + 8, 4) == list[i].stride,
    decreases list.len(),
{
    broadcast use lemma_le_bytes_len, lemma_le_at_first, lemma_le_at_second, lemma_le_at_whole;

    lemma_spans();
    lemma_planes_len(list);
    lemma_planes_len(list.drop_last());
    if i < list.len() - 1 {
        law_planes_have_a_fixed_layout(list.drop_last(), i);
    }
}

/// Law: damaged rectangles stand one after another, each as its left edge, its
/// top edge, its width and its height in four bytes each.
pub proof fn law_damage_has_a_fixed_layout(list: Seq<Damage>, i: int)
    requires
        0 <= i < list.len(),
    ensures
        damages_bytes(list).len() == 16 * list.len(),
        le_at(damages_bytes(list), 16 * i, 4) == list[i].x,
        le_at(damages_bytes(list), 16 * i + 4, 4) == list[i].y,
        le_at(damages_bytes(list), 16 * i + 8, 4) == list[i].width,
        le_at(damages_bytes(list), 16 * i + 12, 4) == list[i].height,
    decreases list.len(),
{
    broadcast use lemma_le_bytes_len, lemma_le_at_first, lemma_le_at_second, lemma_le_at_whole;

    lemma_spans();
    lemma_damages_len(list);
    lemma_damages_len(list.drop_last());
    if i < list.len() - 1 {
        law_damage_has_a_fixed_layout(list.drop_last(), i);
    }
}

/// Law: formats stand one after another, each as its code in four bytes and its
/// modifier in eight.
pub proof fn law_formats_have_a_fixed_layout(list: Seq<FormatModifier>, i: int)
    requires
        0 <= i < list.len(),
    ensures
        formats_bytes(list).len() == 12 * list.len(),
        le_at(formats_bytes(list), 12 * i, 4) == list[i].fourcc,
        le_at(formats_bytes(list), 12 * i + 4, 8) == list[i].modifier,
    decreases list.len(),
{
    broadcast use lemma_le_bytes_len, lemma_le_at_first, lemma_le_at_second, lemma_le_at_whole;

    lemma_spans();
    lemma_formats_len(list);
    lemma_formats_len(list.drop_last());
    if i < list.len() - 1 {
        law_formats_have_a_fixed_layout(list.drop_last(), i);
    }
}

/// Law: buffer metadata is the identity, the width, the height, the format, its
/// modifier and the number of planes, and then the planes.
pub proof fn law_buffers_have_a_fixed_layout(buffer: BufferView)
    requires
        buffer.planes.len() <= 255,
    ensures
        buffer_bytes(buffer).len() == 29 + 12 * buffer.planes.len(),
        le_at(buffer_bytes(buffer), 0, 8) == buffer.id.0,
        le_at(buffer_bytes(buffer), 8, 4) == buffer.width,
        le_at(buffer_bytes(buffer), 12, 4) == buffer.height,
        le_at(buffer_bytes(buffer), 16, 4) == buffer.format.fourcc,
        le_at(buffer_bytes(buffer), 20, 8) == buffer.format.modifier,
        le_at(buffer_bytes(buffer), 28, 1) == buffer.planes.len(),
        buffer_bytes(buffer).subrange(29, buffer_bytes(buffer).len() as int) == planes_bytes(
            buffer.planes,
        ),
{
    broadcast use lemma_le_bytes_len, lemma_le_at_first, lemma_le_at_second, lemma_le_at_whole;

    lemma_spans();
    lemma_buffer_len(buffer);
    lemma_planes_len(buffer.planes);
    assert(buffer_bytes(buffer).subrange(29, buffer_bytes(buffer).len() as int) =~= planes_bytes(
        buffer.planes,
    ));
}

/// Law: an input event is its kind (0 for a touch, 1 for a key, 2 for a
/// navigation), its action and what belongs to that kind.
pub proof fn law_events_have_a_fixed_layout(event: InputEvent)
    ensures
        ({
            let bytes = event_bytes(event);
            match event {
                InputEvent::Touch { action, pointer_id, x_fixed, y_fixed, pressure } => {
                    &&& bytes.len() == 16
                    &&& le_at(bytes, 0, 1) == 0
                    &&& le_at(bytes, 1, 1) == action.number()
                    &&& le_at(bytes, 2, 4) == pointer_id
                    &&& le_at(bytes, 6, 4) == (if x_fixed < 0 {
                        x_fixed + 4_294_967_296
                    } else {
                        x_fixed as int
                    })
                    &&& le_at(bytes, 10, 4) == (if y_fixed < 0 {
                        y_fixed + 4_294_967_296
                    } else {
                        y_fixed as int
                    })
                    &&& le_at(bytes, 14, 2) == pressure
                },
                InputEvent::Key { action, keycode, repeat } => {
                    &&& bytes.len() == 8
                    &&& le_at(bytes, 0, 1) == 1
                    &&& le_at(bytes, 1, 1) == action.number()
                    &&& le_at(bytes, 2, 4) == keycode
                    &&& le_at(bytes, 6, 2) == repeat
                },
                InputEvent::Navigation { action } => {
                    &&& bytes.len() == 2
                    &&& le_at(bytes, 0, 1) == 2
                    &&& le_at(bytes, 1, 1) == action.number()
                },
            }
        }),
{
    broadcast use lemma_le_bytes_len, lemma_le_at_first, lemma_le_at_second, lemma_le_at_whole;

    lemma_spans();
    let bytes = event_bytes(event);
    match event {
        InputEvent::Touch { action, pointer_id, x_fixed, y_fixed, pressure } => {
            assert(le_at(bytes, 0, 1) == 0);
            assert(le_at(bytes, 1, 1) == action.number());
            assert(le_at(bytes, 2, 4) == pointer_id);
            assert(le_at(bytes, 6, 4) == complement(x_fixed));
            assert(le_at(bytes, 10, 4) == complement(y_fixed));
            assert(le_at(bytes, 14, 2) == pressure);
        },
        InputEvent::Key { .. } => {
            assert(le_at(bytes, 0, 1) == 1);
        },
        InputEvent::Navigation { .. } => {
            assert(le_at(bytes, 0, 1) == 2);
        },
    }
}

/// Law: what each field of a message may hold.
pub proof fn law_fields_are_bounded(
    object: u64,
    damage: Damage,
    format: FormatModifier,
    buffer: BufferView,
    verdict: Result<(), TransportError>,
    field: &'static str,
    value: u64,
)
    ensures
        object_error(object) is None <==> object != 0,
        connection_error(object) is None <==> object == 0,
        zero_error(field, value) is None <==> value != 0,
        value == 0 ==> zero_error(field, value) == Some(
            WireError::InvalidEnum { field, value: 0 },
        ),
        damage_error(damage) is None <==> {
            &&& damage.width > 0
            &&& damage.height > 0
            &&& damage.x + damage.width <= 4_294_967_295
            &&& damage.y + damage.height <= 4_294_967_295
        },
        modifier_error(format) is None <==> format.modifier != 0xffff_ffff_ffff_ffff,
        buffer_error(field, buffer, verdict) is None <==> {
            &&& verdict is Ok
            &&& buffer.id.0 != 0
            &&& buffer.format.modifier != 0xffff_ffff_ffff_ffff
        },
        verdict is Err ==> buffer_error(field, buffer, verdict) == Some(
            WireError::Transport(verdict->Err_0),
        ),
        plane_count_error(buffer.planes.len()) is None <==> buffer.planes.len() <= 255,
{
}

/// Law: a configuration is accepted when it is numbered, its size is positive
/// and at most 16384 pixels each way, its scale is positive and its refresh
/// rate is positive and at most 1000 Hz.
pub proof fn law_configurations_are_bounded(
    serial: u32,
    width: u32,
    height: u32,
    scale_numerator: u32,
    scale_denominator: u32,
    refresh_millihz: u32,
)
    ensures
        configure_error(
            serial,
            width,
            height,
            scale_numerator,
            scale_denominator,
            refresh_millihz,
        ) is None <==> {
            &&& serial > 0
            &&& 0 < width <= 16_384
            &&& 0 < height <= 16_384
            &&& scale_numerator > 0
            &&& scale_denominator > 0
            &&& 0 < refresh_millihz <= 1_000_000
        },
{
}

/// Law: a host is accepted when it speaks version 1 up to minor 4, has every
/// capability that the cell needs and announces positive limits that are not
/// above those of the protocol.
pub proof fn law_hosts_are_accepted_with_what_is_needed(
    major: u16,
    minor: u16,
    capabilities: u64,
    max_task_objects: u32,
    max_buffers_per_task: u32,
    max_damage_rects: u32,
)
    ensures
        server_hello_error(
            major,
            minor,
            capabilities,
            max_task_objects,
            max_buffers_per_task,
            max_damage_rects,
        ) is None <==> {
            &&& major == 1
            &&& minor <= 4
            &&& capabilities & 0xdf == 0xdf
            &&& 0 < max_task_objects <= 4_096
            &&& 0 < max_buffers_per_task <= 256
            &&& 0 < max_damage_rects <= 256
        },
{
}

/// Law: a flag is written as zero or one, and nothing else is read as one.
pub proof fn law_flags_are_zero_or_one(value: u8, field: &'static str)
    ensures
        bool_of(0, field) == Ok::<bool, WireError>(false),
        bool_of(1, field) == Ok::<bool, WireError>(true),
        value > 1 ==> bool_of(value, field) == Err::<bool, WireError>(
            WireError::InvalidEnum { field, value: value as u64 },
        ),
{
}

} // verus!
