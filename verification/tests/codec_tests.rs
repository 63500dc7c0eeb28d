//! Tests for the pure parts: colors and their wire encoding, rotation
//! values, configuration, opcodes, the font and the initialization table.

use gc9307c::color::{decode_pixel, encode_pixel, fill_solid_prefix};
use gc9307c::init::init_entries;
use gc9307c::{get_digit_font_data, Config, Instruction, Orientation, Rgb565, Rotation};

#[test]
fn rotation_next_cycles() {
    assert_eq!(Rotation::Deg0.next(), Rotation::Deg90);
    assert_eq!(Rotation::Deg90.next(), Rotation::Deg180);
    assert_eq!(Rotation::Deg180.next(), Rotation::Deg270);
    assert_eq!(Rotation::Deg270.next(), Rotation::Deg0);
    assert_eq!(Rotation::Deg0.next().next().next().next(), Rotation::Deg0);
}

#[test]
fn rotation_degrees_values() {
    assert_eq!(Rotation::Deg0.degrees(), 0);
    assert_eq!(Rotation::Deg90.degrees(), 90);
    assert_eq!(Rotation::Deg180.degrees(), 180);
    assert_eq!(Rotation::Deg270.degrees(), 270);
}

#[test]
fn orientation_register_bits() {
    assert_eq!(Orientation::Portrait.bits(), 0x40);
    assert_eq!(Orientation::Landscape.bits(), 0x20);
    assert_eq!(Orientation::PortraitSwapped.bits(), 0x80);
    assert_eq!(Orientation::LandscapeSwapped.bits(), 0xE0);
}

#[test]
fn config_default_values() {
    let c = Config::default();
    assert!(!c.rgb);
    assert!(!c.inverted);
    assert_eq!(c.orientation, Orientation::Landscape);
    assert_eq!(c.width, 320);
    assert_eq!(c.height, 172);
    assert_eq!(c.dx, 0);
    assert_eq!(c.dy, 34);
}

#[test]
fn instruction_opcodes() {
    assert_eq!(Instruction::ColumnAddressSet.opcode(), 0x2A);
    assert_eq!(Instruction::PageAddressSet.opcode(), 0x2B);
    assert_eq!(Instruction::MemoryWrite.opcode(), 0x2C);
    assert_eq!(Instruction::MemoryAccessControl.opcode(), 0x36);
    assert_eq!(Instruction::SleepOut.opcode(), 0x11);
    assert_eq!(Instruction::DisplayOn.opcode(), 0x29);
    assert_eq!(Instruction::ExtendedRegAccess1.opcode(), 0xFE);
    assert_eq!(Instruction::ExtendedRegAccess2.opcode(), 0xEF);
}

#[test]
fn rgb565_packing() {
    // Pure red, green, blue at full channel scale.
    assert_eq!(Rgb565::new(31, 0, 0).raw, 0xF800);
    assert_eq!(Rgb565::new(0, 63, 0).raw, 0x07E0);
    assert_eq!(Rgb565::new(0, 0, 31).raw, 0x001F);
    assert_eq!(Rgb565::new(31, 63, 31).raw, 0xFFFF);
    // Channel bits beyond each width are ignored.
    assert_eq!(Rgb565::new(32, 64, 32).raw, 0x0000);
    assert_eq!(Rgb565::from_raw(0x1234).raw, 0x1234);
}

#[test]
fn pixel_encoding_is_big_endian() {
    assert_eq!(encode_pixel(0xF800), (0xF8, 0x00));
    assert_eq!(encode_pixel(0x07E0), (0x07, 0xE0));
    assert_eq!(encode_pixel(0x1234), (0x12, 0x34));
    assert_eq!(decode_pixel(0x12, 0x34), 0x1234);
}

#[test]
fn pixel_roundtrip_all_values() {
    for raw in 0..=0xFFFFu16 {
        let (hi, lo) = encode_pixel(raw);
        assert_eq!(decode_pixel(hi, lo), raw);
    }
}

#[test]
fn chunk_buffer_roundtrip_all_values() {
    let mut buf = vec![0u8; 8];
    for raw in 0..=0xFFFFu16 {
        fill_solid_prefix(&mut buf, raw, 4);
        for p in 0..4 {
            assert_eq!(decode_pixel(buf[2 * p], buf[2 * p + 1]), raw);
        }
    }
}

#[test]
fn chunk_buffer_leaves_suffix() {
    let mut buf = vec![0xABu8; 10];
    fill_solid_prefix(&mut buf, 0x1234, 3);
    assert_eq!(&buf[..6], &[0x12, 0x34, 0x12, 0x34, 0x12, 0x34]);
    assert_eq!(&buf[6..], &[0xAB, 0xAB, 0xAB, 0xAB]);
}

#[test]
fn font_data_shape() {
    for digit in 0..=9u8 {
        let glyph = get_digit_font_data(digit);
        assert_eq!(glyph.len(), 32);
    }
    // Above 9 the glyph is empty.
    assert!(get_digit_font_data(10).iter().all(|b| *b == 0));
    // Digit 1 starts with its known first row.
    assert_eq!(get_digit_font_data(1)[0], 0x0C);
}

#[test]
fn init_table_shape() {
    let entries = init_entries();
    assert_eq!(entries.len(), 35);
    // Starts by unlocking extended register access.
    assert_eq!(entries[0].cmd, 0xFE);
    assert!(entries[0].params.is_empty());
    assert_eq!(entries[1].cmd, 0xEF);
    // SleepOut carries the mandatory settle delay; nothing else delays.
    for (i, e) in entries.iter().enumerate() {
        if e.cmd == 0x11 {
            assert!(e.delay_after_ms >= 200);
        } else {
            assert_eq!(e.delay_after_ms, 0, "entry {} should not delay", i);
        }
    }
    // Ends with SleepOut, DisplayOn, MemoryWrite in order.
    assert_eq!(entries[32].cmd, 0x11);
    assert_eq!(entries[33].cmd, 0x29);
    assert_eq!(entries[34].cmd, 0x2C);
}
