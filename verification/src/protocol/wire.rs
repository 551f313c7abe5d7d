//! Little-endian fields and bounded strings, written to and read from a
//! packet.

use vstd::prelude::*;
use vstd::utf8::{decode_utf8, encode_utf8, valid_utf8};

use super::WireError;

verus! {

/// The `width` lowest base-256 digits of `value`, least significant first.
pub open spec fn le_bytes(value: nat, width: nat) -> Seq<u8>
    decreases width,
{
    if width == 0 {
        Seq::empty()
    } else {
        seq![(value % 256) as u8] + le_bytes(value / 256, (width - 1) as nat)
    }
}

/// Number written in base 256, least significant digit first.
pub open spec fn le_value(bytes: Seq<u8>) -> nat
    decreases bytes.len(),
{
    if bytes.len() == 0 {
        0
    } else {
        bytes[0] as nat + 256 * le_value(bytes.skip(1))
    }
}

/// Little-endian number of `width` bytes at `offset`.
pub open spec fn le_at(bytes: Seq<u8>, offset: int, width: int) -> nat {
    le_value(bytes.subrange(offset, offset + width))
}

/// Number of values that fit in `width` bytes.
pub open spec fn span(width: nat) -> nat
    decreases width,
{
    if width == 0 {
        1
    } else {
        256 * span((width - 1) as nat)
    }
}

/// Spans of the field widths on the wire.
pub proof fn lemma_spans()
    ensures
        span(1) == 0x100,
        span(2) == 0x1_0000,
        span(4) == 0x1_0000_0000,
        span(8) == 0x1_0000_0000_0000_0000,
{
    reveal_with_fuel(span, 9);
}

pub broadcast proof fn lemma_le_bytes_len(value: nat, width: nat)
    ensures
        (#[trigger] le_bytes(value, width)).len() == width,
    decreases width,
{
    if width > 0 {
        lemma_le_bytes_len(value / 256, (width - 1) as nat);
    }
}

/// Reading back the digits of a number that fits gives the number.
pub broadcast proof fn lemma_le_value_of_bytes(value: nat, width: nat)
    requires
        value < span(width),
    ensures
        le_value(#[trigger] le_bytes(value, width)) == value,
    decreases width,
{
    if width > 0 {
        let rest = (width - 1) as nat;
        lemma_le_value_of_bytes(value / 256, rest);
        assert(le_bytes(value, width).skip(1) =~= le_bytes(value / 256, rest));
    }
}

/// A number read from bytes fits their width, and its digits are those bytes.
pub proof fn lemma_le_bytes_of_value(bytes: Seq<u8>)
    ensures
        le_value(bytes) < span(bytes.len()),
        le_bytes(le_value(bytes), bytes.len()) == bytes,
    decreases bytes.len(),
{
    if bytes.len() > 0 {
        let rest = bytes.skip(1);
        lemma_le_bytes_of_value(rest);
        let value = le_value(bytes);
        assert(value % 256 == bytes[0] as nat);
        assert(value / 256 == le_value(rest));
        assert(le_bytes(value, bytes.len()) =~= bytes);
    }
}

/// A field inside the first of two joined parts.
pub broadcast proof fn lemma_le_at_first(first: Seq<u8>, second: Seq<u8>, offset: int, width: int)
    requires
        0 <= offset,
        0 <= width,
        offset + width <= first.len(),
    ensures
        #[trigger] le_at(first + second, offset, width) == le_at(first, offset, width),
{
    assert((first + second).subrange(offset, offset + width) =~= first.subrange(
        offset,
        offset + width,
    ));
}

/// A field inside the second of two joined parts.
pub broadcast proof fn lemma_le_at_second(
    first: Seq<u8>,
    second: Seq<u8>,
    offset: int,
    width: int,
)
    requires
        first.len() <= offset,
        0 <= width,
        offset + width <= first.len() + second.len(),
    ensures
        #[trigger] le_at(first + second, offset, width) == le_at(
            second,
            offset - first.len(),
            width,
        ),
{
    assert((first + second).subrange(offset, offset + width) =~= second.subrange(
        offset - first.len(),
        offset - first.len() + width,
    ));
}

/// A field that is the whole of the digits of one number.
pub broadcast proof fn lemma_le_at_whole(value: nat, width: nat)
    requires
        value < span(width),
    ensures
        #[trigger] le_at(le_bytes(value, width), 0, width as int) == value,
{
    lemma_le_bytes_len(value, width);
    lemma_le_value_of_bytes(value, width);
    assert(le_bytes(value, width).subrange(0, width as int) =~= le_bytes(value, width));
}

/// Growing packet payload.
pub struct Writer {
    /// Bytes written so far.
    pub bytes: Vec<u8>,
}

impl Writer {
    /// Empty payload.
    pub fn new() -> (writer: Writer)
        ensures
            writer.bytes@ == Seq::<u8>::empty(),
    {
        Writer { bytes: Vec::new() }
    }

    /// Append the `width` lowest little-endian bytes of `value`.
    fn digits(&mut self, value: u64, width: usize)
        ensures
            final(self).bytes@ == old(self).bytes@ + le_bytes(value as nat, width as nat),
    {
        let mut rest: u64 = value;
        let mut written: usize = 0;
        let ghost start = self.bytes@;
        proof {
            assert(self.bytes@ + le_bytes(rest as nat, width as nat) =~= start + le_bytes(
                value as nat,
                width as nat,
            ));
        }
        while written < width
            invariant
                written <= width,
                self.bytes@ + le_bytes(rest as nat, (width - written) as nat) == start + le_bytes(
                    value as nat,
                    width as nat,
                ),
            decreases width - written,
        {
            let ghost before = self.bytes@;
            let ghost tail = le_bytes((rest / 256) as nat, (width - written - 1) as nat);
            let digit: u8 = (rest % 256) as u8;
            self.bytes.push(digit);
            proof {
                assert(before + le_bytes(rest as nat, (width - written) as nat)
                    =~= self.bytes@ + tail);
            }
            rest = rest / 256;
            written = written + 1;
        }
        assert(self.bytes@ =~= self.bytes@ + le_bytes(rest as nat, 0));
    }

    /// Append one byte.
    pub fn u8(&mut self, value: u8)
        ensures
            final(self).bytes@ == old(self).bytes@ + le_bytes(value as nat, 1),
    {
        self.digits(value as u64, 1);
    }

    /// Append a 16-bit number.
    pub fn u16(&mut self, value: u16)
        ensures
            final(self).bytes@ == old(self).bytes@ + le_bytes(value as nat, 2),
    {
        self.digits(value as u64, 2);
    }

    /// Append a 32-bit number.
    pub fn u32(&mut self, value: u32)
        ensures
            final(self).bytes@ == old(self).bytes@ + le_bytes(value as nat, 4),
    {
        self.digits(value as u64, 4);
    }

    /// Append a 64-bit number.
    pub fn u64(&mut self, value: u64)
        ensures
            final(self).bytes@ == old(self).bytes@ + le_bytes(value as nat, 8),
    {
        self.digits(value, 8);
    }

    /// Append a signed 32-bit number in two's complement.
    pub fn i32(&mut self, value: i32)
        ensures
            final(self).bytes@ == old(self).bytes@ + le_bytes(complement(value), 4),
    {
        let bits: u64 = if value >= 0 {
            value as u64
        } else {
            (value as i64 + 0x1_0000_0000) as u64
        };
        self.digits(bits, 4);
    }

    /// Append a 16-bit byte count and the UTF-8 bytes of `value`.
    pub fn string(&mut self, value: &str, limit: usize, field: &'static str) -> (result: Result<
        (),
        WireError,
    >)
        ensures
            match result {
                Ok(_) => {
                    &&& string_fits(value@, limit as int)
                    &&& final(self).bytes@ == old(self).bytes@ + string_bytes(value@)
                },
                Err(error) => {
                    &&& !string_fits(value@, limit as int)
                    &&& error == WireError::InvalidString { field }
                    &&& final(self).bytes@ == old(self).bytes@
                },
            },
    {
        let bytes = value.as_bytes();
        if bytes.len() > limit || bytes.len() > 0xffff {
            return Err(WireError::InvalidString { field });
        }
        self.u16(bytes.len() as u16);
        self.bytes.extend_from_slice(bytes);
        assert(self.bytes@ =~= old(self).bytes@ + string_bytes(value@));
        Ok(())
    }
}

/// Two's complement bits of a signed 32-bit number.
pub open spec fn complement(value: i32) -> nat {
    if value >= 0 {
        value as nat
    } else {
        (value + 0x1_0000_0000) as nat
    }
}

/// Signed 32-bit number with the given two's complement bits.
pub open spec fn signed(bits: nat) -> i32 {
    if bits < 0x8000_0000 {
        bits as i32
    } else {
        (bits - 0x1_0000_0000) as i32
    }
}

/// Whether the UTF-8 form of a text has at most `limit` bytes and its length
/// fits the 16-bit count.
pub open spec fn string_fits(text: Seq<char>, limit: int) -> bool {
    encode_utf8(text).len() <= limit && encode_utf8(text).len() <= 0xffff
}

/// Byte count and UTF-8 form of a text.
pub open spec fn string_bytes(text: Seq<char>) -> Seq<u8> {
    le_bytes(encode_utf8(text).len(), 2) + encode_utf8(text)
}

/// Text of at most `limit` bytes at `offset`, with the offset after it.
pub open spec fn string_at(
    bytes: Seq<u8>,
    offset: int,
    limit: int,
    field: &'static str,
) -> Result<(Seq<char>, int), WireError> {
    let length = le_at(bytes, offset, 2) as int;
    let text = bytes.subrange(offset + 2, offset + 2 + length);
    if bytes.len() < offset + 2 {
        Err(WireError::Truncated)
    } else if length > limit {
        Err(WireError::InvalidString { field })
    } else if bytes.len() < offset + 2 + length {
        Err(WireError::Truncated)
    } else if !valid_utf8(text) {
        Err(WireError::InvalidString { field })
    } else {
        Ok((decode_utf8(text), offset + 2 + length))
    }
}

/// A written text reads back.
pub proof fn lemma_string_round_trip(
    before: Seq<u8>,
    text: Seq<char>,
    after: Seq<u8>,
    limit: int,
    field: &'static str,
)
    requires
        string_fits(text, limit),
    ensures
        string_at(before + string_bytes(text) + after, before.len() as int, limit, field) == Ok::<
            (Seq<char>, int),
            WireError,
        >((text, (before.len() + string_bytes(text).len()) as int)),
{
    broadcast use
        lemma_le_bytes_len,
        lemma_le_at_first,
        lemma_le_at_second,
        lemma_le_at_whole,
        vstd::utf8::encode_utf8_valid_utf8,
        vstd::utf8::encode_utf8_decode_utf8,
    ;

    lemma_spans();
    let bytes = before + string_bytes(text) + after;
    let at = before.len() as int;
    let length = encode_utf8(text).len() as int;
    assert(le_at(bytes, at, 2) == length);
    assert(bytes.subrange(at + 2, at + 2 + length) =~= encode_utf8(text));
}

/// An accepted text has exactly one wire form.
pub proof fn lemma_string_canonical(bytes: Seq<u8>, offset: int, limit: int, field: &'static str)
    requires
        0 <= offset,
        string_at(bytes, offset, limit, field) is Ok,
    ensures
        offset <= string_at(bytes, offset, limit, field)->Ok_0.1 <= bytes.len(),
        string_fits(string_at(bytes, offset, limit, field)->Ok_0.0, limit),
        string_bytes(string_at(bytes, offset, limit, field)->Ok_0.0) == bytes.subrange(
            offset,
            string_at(bytes, offset, limit, field)->Ok_0.1,
        ),
{
    broadcast use lemma_le_bytes_len, vstd::utf8::decode_utf8_encode_utf8;

    lemma_spans();
    let (text, next) = string_at(bytes, offset, limit, field)->Ok_0;
    lemma_le_bytes_of_value(bytes.subrange(offset, offset + 2));
    assert(string_bytes(text) =~= bytes.subrange(offset, next));
}

/// Text held by UTF-8 bytes.
///
/// Calls `std::str::from_utf8`, which accepts exactly the valid UTF-8 byte
/// sequences and gives the text that they encode.
#[verifier::external_body]
fn text_from_utf8(bytes: &[u8]) -> (text: Option<String>)
    ensures
        match text {
            Some(text) => valid_utf8(bytes@) && text@ == decode_utf8(bytes@),
            None => !valid_utf8(bytes@),
        },
{
    std::str::from_utf8(bytes).ok().map(str::to_owned)
}

/// Cursor over a packet payload.
pub struct Reader<'a> {
    /// Whole payload.
    pub bytes: &'a [u8],
    /// Offset of the next field.
    pub position: usize,
}

impl<'a> Reader<'a> {
    /// The cursor lies inside the payload.
    pub open spec fn wf(&self) -> bool {
        self.position <= self.bytes@.len()
    }

    /// Whether `width` more bytes can be read.
    pub open spec fn holds(&self, width: int) -> bool {
        self.position + width <= self.bytes@.len()
    }

    /// Whether this cursor is `before` moved on by `width` bytes.
    pub open spec fn moved(&self, before: &Reader<'a>, width: int) -> bool {
        &&& self.bytes@ == before.bytes@
        &&& self.position == before.position + width
        &&& self.wf()
    }

    /// Cursor at the start of a payload.
    pub fn new(bytes: &'a [u8]) -> (reader: Reader<'a>)
        ensures
            reader.wf(),
            reader.bytes@ == bytes@,
            reader.position == 0,
    {
        Reader { bytes, position: 0 }
    }

    /// Read a little-endian number of `width` bytes.
    fn number(&mut self, width: usize) -> (result: Result<u64, WireError>)
        requires
            old(self).wf(),
            width <= 8,
        ensures
            match result {
                Ok(value) => {
                    &&& old(self).holds(width as int)
                    &&& value == le_at(old(self).bytes@, old(self).position as int, width as int)
                    &&& value < span(width as nat)
                    &&& final(self).moved(old(self), width as int)
                },
                Err(error) => {
                    &&& error == WireError::Truncated
                    &&& !old(self).holds(width as int)
                    &&& final(self).moved(old(self), 0)
                },
            },
    {
        let bytes = self.bytes;
        let start: usize = self.position;
        if bytes.len() - start < width {
            return Err(WireError::Truncated);
        }
        let end: usize = start + width;
        let mut index: usize = end;
        let mut value: u64 = 0;
        proof {
            lemma_spans();
            reveal_with_fuel(span, 9);
            assert(bytes@.subrange(end as int, end as int) =~= Seq::<u8>::empty());
        }
        while index > start
            invariant
                start <= index <= end <= bytes@.len(),
                end - start <= 8,
                value == le_value(bytes@.subrange(index as int, end as int)),
            decreases index,
        {
            let ghost tail = bytes@.subrange(index as int, end as int);
            index = index - 1;
            proof {
                let field = bytes@.subrange(index as int, end as int);
                assert(field.skip(1) =~= tail);
                lemma_le_bytes_of_value(tail);
                lemma_le_bytes_of_value(field);
                reveal_with_fuel(span, 9);
            }
            value = bytes[index] as u64 + 256 * value;
        }
        proof {
            lemma_le_bytes_of_value(bytes@.subrange(start as int, end as int));
        }
        self.position = end;
        Ok(value)
    }

    /// Read one byte.
    pub fn u8(&mut self) -> (result: Result<u8, WireError>)
        requires
            old(self).wf(),
        ensures
            match result {
                Ok(value) => {
                    &&& old(self).holds(1)
                    &&& value == le_at(old(self).bytes@, old(self).position as int, 1)
                    &&& final(self).moved(old(self), 1)
                },
                Err(error) => {
                    &&& error == WireError::Truncated
                    &&& !old(self).holds(1)
                    &&& final(self).moved(old(self), 0)
                },
            },
    {
        proof {
            lemma_spans();
        }
        match self.number(1) {
            Ok(value) => Ok(value as u8),
            Err(error) => Err(error),
        }
    }

    /// Read a 16-bit number.
    pub fn u16(&mut self) -> (result: Result<u16, WireError>)
        requires
            old(self).wf(),
        ensures
            match result {
                Ok(value) => {
                    &&& old(self).holds(2)
                    &&& value == le_at(old(self).bytes@, old(self).position as int, 2)
                    &&& final(self).moved(old(self), 2)
                },
                Err(error) => {
                    &&& error == WireError::Truncated
                    &&& !old(self).holds(2)
                    &&& final(self).moved(old(self), 0)
                },
            },
    {
        proof {
            lemma_spans();
        }
        match self.number(2) {
            Ok(value) => Ok(value as u16),
            Err(error) => Err(error),
        }
    }

    /// Read a 32-bit number.
    pub fn u32(&mut self) -> (result: Result<u32, WireError>)
        requires
            old(self).wf(),
        ensures
            match result {
                Ok(value) => {
                    &&& old(self).holds(4)
                    &&& value == le_at(old(self).bytes@, old(self).position as int, 4)
                    &&& final(self).moved(old(self), 4)
                },
                Err(error) => {
                    &&& error == WireError::Truncated
                    &&& !old(self).holds(4)
                    &&& final(self).moved(old(self), 0)
                },
            },
    {
        proof {
            lemma_spans();
        }
        match self.number(4) {
            Ok(value) => Ok(value as u32),
            Err(error) => Err(error),
        }
    }

    /// Read a signed 32-bit number in two's complement.
    pub fn i32(&mut self) -> (result: Result<i32, WireError>)
        requires
            old(self).wf(),
        ensures
            match result {
                Ok(value) => {
                    &&& old(self).holds(4)
                    &&& value == signed(le_at(old(self).bytes@, old(self).position as int, 4))
                    &&& final(self).moved(old(self), 4)
                },
                Err(error) => {
                    &&& error == WireError::Truncated
                    &&& !old(self).holds(4)
                    &&& final(self).moved(old(self), 0)
                },
            },
    {
        match self.u32() {
            Ok(bits) => {
                if bits < 0x8000_0000 {
                    Ok(bits as i32)
                } else {
                    Ok((bits as i64 - 0x1_0000_0000) as i32)
                }
            },
            Err(error) => Err(error),
        }
    }

    /// Read a 64-bit number.
    pub fn u64(&mut self) -> (result: Result<u64, WireError>)
        requires
            old(self).wf(),
        ensures
            match result {
                Ok(value) => {
                    &&& old(self).holds(8)
                    &&& value == le_at(old(self).bytes@, old(self).position as int, 8)
                    &&& final(self).moved(old(self), 8)
                },
                Err(error) => {
                    &&& error == WireError::Truncated
                    &&& !old(self).holds(8)
                    &&& final(self).moved(old(self), 0)
                },
            },
    {
        self.number(8)
    }

    /// Read the next `count` bytes.
    pub fn take(&mut self, count: usize) -> (result: Result<&'a [u8], WireError>)
        requires
            old(self).wf(),
        ensures
            match result {
                Ok(value) => {
                    &&& old(self).holds(count as int)
                    &&& value@ == old(self).bytes@.subrange(
                        old(self).position as int,
                        old(self).position + count,
                    )
                    &&& final(self).moved(old(self), count as int)
                },
                Err(error) => {
                    &&& error == WireError::Truncated
                    &&& !old(self).holds(count as int)
                    &&& final(self).moved(old(self), 0)
                },
            },
    {
        let bytes = self.bytes;
        let start: usize = self.position;
        if bytes.len() - start < count {
            return Err(WireError::Truncated);
        }
        let value = vstd::slice::slice_subrange(bytes, start, start + count);
        self.position = start + count;
        Ok(value)
    }

    /// Read a text of at most `limit` bytes.
    pub fn string(&mut self, limit: usize, field: &'static str) -> (result: Result<
        String,
        WireError,
    >)
        requires
            old(self).wf(),
        ensures
            final(self).bytes@ == old(self).bytes@,
            final(self).wf(),
            match (
                result,
                string_at(old(self).bytes@, old(self).position as int, limit as int, field),
            ) {
                (Ok(text), Ok((expected, next))) => {
                    &&& text@ == expected
                    &&& final(self).position == next
                },
                (Err(error), Err(expected)) => error == expected,
                _ => false,
            },
    {
        let length: u16 = match self.u16() {
            Ok(length) => length,
            Err(error) => {
                return Err(error);
            },
        };
        if length as usize > limit {
            return Err(WireError::InvalidString { field });
        }
        let bytes = match self.take(length as usize) {
            Ok(bytes) => bytes,
            Err(error) => {
                return Err(error);
            },
        };
        match text_from_utf8(bytes) {
            Some(text) => Ok(text),
            None => Err(WireError::InvalidString { field }),
        }
    }

    /// Require that every byte was read.
    pub fn finish(self) -> (result: Result<(), WireError>)
        ensures
            result == (if self.position >= self.bytes@.len() {
                Ok(())
            } else {
                Err(WireError::TrailingBytes)
            }),
    {
        if self.position >= self.bytes.len() {
            Ok(())
        } else {
            Err(WireError::TrailingBytes)
        }
    }
}

/// Law: a number is written with its lowest byte first.
pub proof fn law_numbers_are_written_lowest_byte_first(value: nat)
    ensures
        le_bytes(value, 1) == seq![(value % 256) as u8],
        le_bytes(value, 2) == seq![(value % 256) as u8, (value / 256 % 256) as u8],
        le_bytes(value, 4) == seq![
            (value % 256) as u8,
            (value / 256 % 256) as u8,
            (value / 65_536 % 256) as u8,
            (value / 16_777_216 % 256) as u8,
        ],
        le_bytes(value, 8) == le_bytes(value, 4) + le_bytes(value / 4_294_967_296, 4),
{
    reveal_with_fuel(le_bytes, 9);
}

/// Law: a number is read with its lowest byte first.
pub proof fn law_numbers_are_read_lowest_byte_first(bytes: Seq<u8>, offset: int)
    requires
        0 <= offset,
    ensures
        offset + 1 <= bytes.len() ==> le_at(bytes, offset, 1) == bytes[offset],
        offset + 2 <= bytes.len() ==> le_at(bytes, offset, 2) == bytes[offset] + 256 * bytes[offset
            + 1],
        offset + 4 <= bytes.len() ==> le_at(bytes, offset, 4) == bytes[offset] + 256 * bytes[offset
            + 1] + 65_536 * bytes[offset + 2] + 16_777_216 * bytes[offset + 3],
        offset + 8 <= bytes.len() ==> le_at(bytes, offset, 8) == le_at(bytes, offset, 4)
            + 4_294_967_296 * le_at(bytes, offset + 4, 4),
{
    if offset + 1 <= bytes.len() {
        lemma_low_byte(bytes, offset, 1);
    }
    if offset + 2 <= bytes.len() {
        lemma_low_byte(bytes, offset, 2);
        lemma_low_byte(bytes, offset + 1, 1);
    }
    if offset + 4 <= bytes.len() {
        lemma_low_byte(bytes, offset, 4);
        lemma_low_byte(bytes, offset + 1, 3);
        lemma_low_byte(bytes, offset + 2, 2);
        lemma_low_byte(bytes, offset + 3, 1);
    }
    if offset + 8 <= bytes.len() {
        lemma_low_byte(bytes, offset, 8);
        lemma_low_byte(bytes, offset + 1, 7);
        lemma_low_byte(bytes, offset + 2, 6);
        lemma_low_byte(bytes, offset + 3, 5);
        lemma_low_byte(bytes, offset + 4, 4);
        lemma_low_byte(bytes, offset + 5, 3);
        lemma_low_byte(bytes, offset + 6, 2);
        lemma_low_byte(bytes, offset + 7, 1);
    }
}

proof fn lemma_low_byte(bytes: Seq<u8>, offset: int, width: int)
    requires
        0 <= offset,
        1 <= width,
        offset + width <= bytes.len(),
    ensures
        le_at(bytes, offset, width) == bytes[offset] + 256 * le_at(bytes, offset + 1, width - 1),
        le_at(bytes, offset + width, 0) == 0,
{
    assert(bytes.subrange(offset, offset + width).skip(1) =~= bytes.subrange(
        offset + 1,
        offset + width,
    ));
    assert(bytes.subrange(offset + width, offset + width) =~= Seq::empty());
}

/// Law: a signed number is written as its two's complement, and read back
/// from it.
pub proof fn law_signed_numbers_wrap(value: i32)
    ensures
        value >= 0 ==> complement(value) == value,
        value < 0 ==> complement(value) == value + 4_294_967_296,
        signed(complement(value)) == value,
{
}

/// Law: a text is written as the number of its bytes, in two bytes, and then
/// those bytes.
pub proof fn law_texts_are_counted(text: Seq<char>)
    requires
        encode_utf8(text).len() <= 65_535,
    ensures
        le_at(string_bytes(text), 0, 2) == encode_utf8(text).len(),
        string_bytes(text).len() == 2 + encode_utf8(text).len(),
        string_bytes(text).subrange(2, string_bytes(text).len() as int) == encode_utf8(text),
        forall|limit: int| #[trigger]
            string_fits(text, limit) <==> encode_utf8(text).len() <= limit,
{
    broadcast use lemma_le_bytes_len, lemma_le_at_first, lemma_le_at_whole;

    lemma_spans();
}

} // verus!
