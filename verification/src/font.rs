//! A small built-in 12 x 16 digit font for angle read-outs.

use vstd::prelude::*;

verus! {

/// Get font data for digits 0-9 (12 x 16 bitmap, two bytes per row, most
/// significant bit first). Anything above 9 yields an empty glyph.
pub fn get_digit_font_data(digit: u8) -> (r: [u8; 32])
    ensures
        digit > 9 ==> forall|i: int| 0 <= i < 32 ==> r@[i] == 0,
{
    match digit {
        0 => [
            0x3F, 0xC0, 0x7F, 0xE0, 0xE0, 0x70, 0xC0, 0x30, 0xC0, 0x30, 0xC0, 0x30, 0xC0, 0x30,
            0xC0, 0x30, 0xC0, 0x30, 0xC0, 0x30, 0xC0, 0x30, 0xC0, 0x30, 0xE0, 0x70, 0x7F, 0xE0,
            0x3F, 0xC0, 0x00, 0x00,
        ],
        1 => [
            0x0C, 0x00, 0x1C, 0x00, 0x3C, 0x00, 0x0C, 0x00, 0x0C, 0x00, 0x0C, 0x00, 0x0C, 0x00,
            0x0C, 0x00, 0x0C, 0x00, 0x0C, 0x00, 0x0C, 0x00, 0x0C, 0x00, 0x0C, 0x00, 0x3F, 0x00,
            0x3F, 0x00, 0x00, 0x00,
        ],
        2 => [
            0x3F, 0xC0, 0x7F, 0xE0, 0xE0, 0x70, 0x00, 0x30, 0x00, 0x30, 0x00, 0x70, 0x00, 0xE0,
            0x01, 0xC0, 0x03, 0x80, 0x07, 0x00, 0x0E, 0x00, 0x1C, 0x00, 0x38, 0x00, 0x7F, 0xF0,
            0xFF, 0xF0, 0x00, 0x00,
        ],
        3 => [
            0x3F, 0xC0, 0x7F, 0xE0, 0xE0, 0x70, 0x00, 0x30, 0x00, 0x30, 0x00, 0x70, 0x0F, 0xE0,
            0x0F, 0xE0, 0x00, 0x70, 0x00, 0x30, 0x00, 0x30, 0xE0, 0x70, 0x7F, 0xE0, 0x3F, 0xC0,
            0x00, 0x00, 0x00, 0x00,
        ],
        4 => [
            0x01, 0xC0, 0x03, 0xC0, 0x07, 0xC0, 0x0D, 0xC0, 0x19, 0xC0, 0x31, 0xC0, 0x61, 0xC0,
            0xC1, 0xC0, 0xFF, 0xF0, 0xFF, 0xF0, 0x01, 0xC0, 0x01, 0xC0, 0x01, 0xC0, 0x01, 0xC0,
            0x01, 0xC0, 0x00, 0x00,
        ],
        5 => [
            0xFF, 0xF0, 0xFF, 0xF0, 0xE0, 0x00, 0xE0, 0x00, 0xE0, 0x00, 0xE0, 0x00, 0xFF, 0xC0,
            0xFF, 0xE0, 0x00, 0x70, 0x00, 0x30, 0x00, 0x30, 0xE0, 0x70, 0x7F, 0xE0, 0x3F, 0xC0,
            0x00, 0x00, 0x00, 0x00,
        ],
        6 => [
            0x1F, 0xC0, 0x3F, 0xE0, 0x70, 0x70, 0xE0, 0x00, 0xE0, 0x00, 0xE0, 0x00, 0xFF, 0xC0,
            0xFF, 0xE0, 0xE0, 0x70, 0xE0, 0x30, 0xE0, 0x30, 0x70, 0x70, 0x7F, 0xE0, 0x3F, 0xC0,
            0x00, 0x00, 0x00, 0x00,
        ],
        7 => [
            0xFF, 0xF0, 0xFF, 0xF0, 0x00, 0x30, 0x00, 0x60, 0x00, 0xC0, 0x01, 0x80, 0x03, 0x00,
            0x06, 0x00, 0x0C, 0x00, 0x18, 0x00, 0x30, 0x00, 0x60, 0x00, 0xC0, 0x00, 0xC0, 0x00,
            0xC0, 0x00, 0x00, 0x00,
        ],
        8 => [
            0x3F, 0xC0, 0x7F, 0xE0, 0xE0, 0x70, 0xE0, 0x70, 0xE0, 0x70, 0x70, 0xE0, 0x3F, 0xC0,
            0x7F, 0xE0, 0xE0, 0x70, 0xE0, 0x70, 0xE0, 0x70, 0xE0, 0x70, 0x7F, 0xE0, 0x3F, 0xC0,
            0x00, 0x00, 0x00, 0x00,
        ],
        9 => [
            0x3F, 0xC0, 0x7F, 0xE0, 0xE0, 0x70, 0xC0, 0x30, 0xC0, 0x30, 0xE0, 0x70, 0x7F, 0xF0,
            0x3F, 0xF0, 0x00, 0x70, 0x00, 0x70, 0x00, 0x70, 0xE0, 0xE0, 0x7F, 0xC0, 0x3F, 0x80,
            0x00, 0x00, 0x00, 0x00,
        ],
        _ => [
            0x00, 0x00, 0x00, 0x00, 0x00, 0x00, 0x00, 0x00, 0x00, 0x00, 0x00, 0x00, 0x00, 0x00,
            0x00, 0x00, 0x00, 0x00, 0x00, 0x00, 0x00, 0x00, 0x00, 0x00, 0x00, 0x00, 0x00, 0x00,
            0x00, 0x00, 0x00, 0x00,
        ],
    }
}

} // verus!
