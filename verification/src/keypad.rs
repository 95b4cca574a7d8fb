//! The sixteen keys, `0` to `F`, and the characters that name them.

use vstd::prelude::*;

verus! {

/// The key that the ASCII character `byte` names: the value of a hexadecimal
/// digit, in either case; none for any other character.
pub open spec fn key_of(byte: u8) -> Option<u8> {
    if 0x30 <= byte <= 0x39 {
        Some((byte - 0x30) as u8)
    } else if 0x41 <= byte <= 0x46 {
        Some((byte - 0x41 + 10) as u8)
    } else if 0x61 <= byte <= 0x66 {
        Some((byte - 0x61 + 10) as u8)
    } else {
        None
    }
}

/// Computes [`key_of`].
pub fn key_from_ascii(byte: u8) -> (key: Option<u8>)
    ensures
        key == key_of(byte),
        key matches Some(k) ==> k < 16,
{
    if 0x30 <= byte && byte <= 0x39 {
        Some(byte - 0x30)
    } else if 0x41 <= byte && byte <= 0x46 {
        Some(byte - 0x41 + 10)
    } else if 0x61 <= byte && byte <= 0x66 {
        Some(byte - 0x61 + 10)
    } else {
        None
    }
}

} // verus!
