//! Android package names.

use vstd::prelude::*;
use vstd::utf8::encode_utf8;

verus! {

/// Maximum task/package identity length in bytes.
pub const MAX_PACKAGE_BYTES: usize = 255;

/// ASCII letter, digit or underscore.
pub open spec fn name_byte(byte: u8) -> bool {
    ||| 0x30 <= byte <= 0x39
    ||| 0x41 <= byte <= 0x5a
    ||| 0x61 <= byte <= 0x7a
    ||| byte == 0x5f
}

/// Dot between two parts of a package name.
pub open spec fn dot(byte: u8) -> bool {
    byte == 0x2e
}

/// One to 255 bytes: non-empty parts of letters, digits and underscores,
/// joined by single dots.
pub open spec fn package_name(name: Seq<char>) -> bool {
    let bytes = encode_utf8(name);
    &&& 0 < bytes.len() <= MAX_PACKAGE_BYTES
    &&& forall|i: int|
        0 <= i < bytes.len() ==> name_byte(#[trigger] bytes[i]) || {
            &&& dot(bytes[i])
            &&& 0 < i < bytes.len() - 1
            &&& !dot(bytes[i - 1])
        }
}

fn is_name_byte(byte: u8) -> (yes: bool)
    ensures
        yes == name_byte(byte),
{
    (0x30 <= byte && byte <= 0x39) || (0x41 <= byte && byte <= 0x5a) || (0x61 <= byte && byte
        <= 0x7a) || byte == 0x5f
}

/// Whether a text is a well-formed Android package name.
pub fn valid_package(package: &str) -> (valid: bool)
    ensures
        valid == package_name(package@),
{
    let bytes = package.as_bytes();
    let length: usize = bytes.len();
    if length == 0 || length > MAX_PACKAGE_BYTES {
        return false;
    }
    let mut index: usize = 0;
    while index < length
        invariant
            bytes@ == encode_utf8(package@),
            length == bytes@.len(),
            0 < length <= MAX_PACKAGE_BYTES,
            index <= length,
            forall|i: int|
                0 <= i < index ==> name_byte(#[trigger] bytes@[i]) || {
                    &&& dot(bytes@[i])
                    &&& 0 < i < length - 1
                    &&& !dot(bytes@[i - 1])
                },
        decreases length - index,
    {
        let byte: u8 = bytes[index];
        if !is_name_byte(byte) {
            if byte != 0x2e || index == 0 || index == length - 1 {
                return false;
            }
            if bytes[index - 1] == 0x2e {
                return false;
            }
        }
        index = index + 1;
    }
    true
}

/// Law: a package name has 1 to 255 bytes: letters, digits, underscores and
/// single dots between them.
pub proof fn law_package_names_are_dotted_words(name: Seq<char>)
    ensures
        package_name(name) <==> {
            let bytes = encode_utf8(name);
            &&& 1 <= bytes.len() <= 255
            &&& bytes[0] != 46
            &&& bytes[bytes.len() - 1] != 46
            &&& forall|i: int|
                0 <= i < bytes.len() ==> {
                    ||| 48 <= #[trigger] bytes[i] <= 57
                    ||| 65 <= bytes[i] <= 90
                    ||| 97 <= bytes[i] <= 122
                    ||| bytes[i] == 95
                    ||| bytes[i] == 46 && bytes[i - 1] != 46
                }
        },
{
}

} // verus!
