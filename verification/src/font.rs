//! The built-in hexadecimal digit sprites.

use vstd::prelude::*;

verus! {

/// Where the first glyph lies in memory.
pub const FONT_BASE: u16 = 0x50;

/// The number of bytes that one glyph occupies: five rows of eight pixels.
pub const GLYPH_BYTES: u16 = 5;

/// The sixteen glyphs, `0` to `F`, five bytes each.
pub const FONT: [u8; 80] = [
    0xF0, 0x90, 0x90, 0x90, 0xF0,
    0x20, 0x60, 0x20, 0x20, 0x70,
    0xF0, 0x10, 0xF0, 0x80, 0xF0,
    0xF0, 0x10, 0xF0, 0x10, 0x10,
    0x90, 0x90, 0xF0, 0x10, 0x10,
    0xF0, 0x80, 0xF0, 0x10, 0xF0,
    0xF0, 0x80, 0xF0, 0x90, 0xF0,
    0xF0, 0x10, 0x20, 0x40, 0x40,
    0xF0, 0x90, 0xF0, 0x90, 0xF0,
    0xF0, 0x90, 0xF0, 0x10, 0xF0,
    0xF0, 0x90, 0xF0, 0x90, 0x90,
    0xE0, 0x90, 0xE0, 0x90, 0xE0,
    0xF0, 0x80, 0x80, 0x80, 0xF0,
    0xE0, 0x90, 0x90, 0x90, 0xE0,
    0xF0, 0x80, 0xF0, 0x80, 0xF0,
    0xF0, 0x80, 0xF0, 0x80, 0x80,
];

/// The memory address of the glyph for the low nibble of `value`.
pub open spec fn glyph_address(value: u8) -> u16 {
    (FONT_BASE + (value % 16) * GLYPH_BYTES) as u16
}

/// Computes [`glyph_address`].
pub fn glyph_address_of(value: u8) -> (addr: u16)
    ensures
        addr == glyph_address(value),
        FONT_BASE <= addr,
        addr + GLYPH_BYTES <= FONT_BASE + 80,
{
    let digit: u16 = (value % 16) as u16;
    FONT_BASE + digit * GLYPH_BYTES
}

} // verus!
