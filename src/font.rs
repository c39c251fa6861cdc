//! The built-in hexadecimal digit sprites, installed at the bottom of memory.
use vstd::prelude::*;

verus! {

/// Address of the sprite for digit 0; digit `d` starts `5 * d` bytes later.
pub const FONT_BASE: u16 = 0x000;

/// Number of bytes in the digit table.
pub const FONT_LEN: usize = 80;

/// Sixteen five-row sprites, one for each hexadecimal digit.
pub const FONT: [u8; 80] = [
    0xF0, 0x90, 0x90, 0x90, 0xF0, // 0
    0x20, 0x60, 0x20, 0x20, 0x70, // 1
    0xF0, 0x10, 0xF0, 0x80, 0xF0, // 2
    0xF0, 0x10, 0xF0, 0x10, 0xF0, // 3
    0x90, 0x90, 0xF0, 0x10, 0x10, // 4
    0xF0, 0x80, 0xF0, 0x10, 0xF0, // 5
    0xF0, 0x80, 0xF0, 0x90, 0xF0, // 6
    0xF0, 0x10, 0x20, 0x40, 0x40, // 7
    0xF0, 0x90, 0xF0, 0x90, 0xF0, // 8
    0xF0, 0x90, 0xF0, 0x10, 0xF0, // 9
    0xF0, 0x90, 0xF0, 0x90, 0x90, // A
    0xE0, 0x90, 0xE0, 0x90, 0xE0, // B
    0xF0, 0x80, 0x80, 0x80, 0xF0, // C
    0xE0, 0x90, 0x90, 0x90, 0xE0, // D
    0xF0, 0x80, 0xF0, 0x80, 0xF0, // E
    0xF0, 0x80, 0xF0, 0x80, 0x80, // F
];

/// Where the sprite of `digit` starts.
pub open spec fn spec_sprite_addr(digit: u8) -> u16 {
    (FONT_BASE + 5 * digit) as u16
}

/// Address of the sprite for `digit` in the table.
pub fn sprite_addr(digit: u8) -> (r: u16)
    ensures
        r == spec_sprite_addr(digit),
{
    FONT_BASE + 5 * (digit as u16)
}

} // verus!
