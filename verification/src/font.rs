//! The built-in font: sixteen glyphs of five bytes each, the 8x5 hex digits
//! `0..=F`, kept in interpreter memory from `FONT_BASE` on.

use vstd::prelude::*;

verus! {

/// Where the font starts in memory.
pub const FONT_BASE: u16 = 0x050;

/// Bytes per glyph.
pub const GLYPH_SIZE: u16 = 5;

/// The font table.
pub const FONTSET: [u8; 80] = [
    0xF0, 0x90, 0x90, 0x90, 0xF0,
    0x20, 0x60, 0x20, 0x20, 0x70,
    0xF0, 0x10, 0xF0, 0x80, 0xF0,
    0xF0, 0x10, 0xF0, 0x10, 0xF0,
    0x90, 0x90, 0xF0, 0x10, 0x10,
    0xF0, 0x80, 0xF0, 0x10, 0xF0,
    0xF0, 0x80, 0xF0, 0x90, 0xF0,
    0xF0, 0x10, 0x20, 0x40, 0x40,
    0xF0, 0x90, 0xF0, 0x90, 0xF0,
    0xF0, 0x90, 0xF0, 0x10, 0xF0,
    0xF0, 0x90, 0xF0, 0x90, 0x90,
    0xE0, 0x90, 0xE0, 0x90, 0xE0,
    0xF0, 0x80, 0x80, 0x80, 0xF0,
    0xE0, 0x90, 0x90, 0x90, 0xE0,
    0xF0, 0x80, 0xF0, 0x80, 0xF0,
    0xF0, 0x80, 0xF0, 0x80, 0x80,
];

/// The address of the glyph for `digit`.
pub open spec fn glyph_address_spec(digit: u8) -> u16 {
    (0x050 + digit * 5) as u16
}

/// The address of the glyph for `digit`.
pub fn glyph_address(digit: u8) -> (address: u16)
    ensures
        address == glyph_address_spec(digit),
{
    FONT_BASE + digit as u16 * GLYPH_SIZE
}

/// Memory as the machine starts with it: all zero but for the font.
pub open spec fn initial_memory() -> Seq<u8> {
    Seq::new(4096, |a: int| if 0x050 <= a < 0x050 + 80 { FONTSET@[a - 0x050] } else { 0u8 })
}

/// Builds the initial memory image.
pub fn build_initial_memory() -> (memory: Vec<u8>)
    ensures
        memory@ == initial_memory(),
{
    let mut memory: Vec<u8> = Vec::new();
    let mut a: usize = 0;
    while a < 4096
        invariant
            a <= 4096,
            memory@.len() == a,
            forall|k: int| 0 <= k < a ==> memory@[k] == initial_memory()[k],
        decreases 4096 - a,
    {
        let byte: u8 = if 0x050 <= a && a < 0x050 + 80 {
            FONTSET[a - 0x050]
        } else {
            0
        };
        memory.push(byte);
        a += 1;
    }
    assert(memory@ =~= initial_memory());
    memory
}

} // verus!
