//! Driver core for GC9307-class LCD controllers (172 x 320, RGB565) driven
//! over a serial command/data bus, with a software-rotation layer that remaps
//! logical drawing coordinates onto the panel's fixed physical addressing.
//!
//! The driver is generic over three capability traits — [`Bus`] for the
//! serial transport, [`ControlPin`] for the data/command and reset lines and
//! [`Timer`] for millisecond delays — so the addressing, framing and
//! batched-pixel-transfer logic is specified and checked independently of any
//! particular board wiring.

use vstd::prelude::*;

pub mod color;
pub mod config;
pub mod driver;
pub mod font;
pub mod framing;
pub mod init;
pub mod instruction;
pub mod interface;
pub mod rotation;

pub use color::Rgb565;
pub use config::{Config, Orientation};
pub use driver::GC9307C;
pub use font::get_digit_font_data;
pub use instruction::Instruction;
pub use interface::{Bus, ControlPin, Error, Timer};
pub use rotation::Rotation;

verus! {

/// Physical width of the panel in pixels (short edge).
pub const SCREEN_WIDTH: u16 = 172;

/// Physical height of the panel in pixels (long edge).
pub const SCREEN_HEIGHT: u16 = 320;

/// Offset of the visible area inside controller GRAM on the X axis.
pub const OFFSET_X: u16 = 34;

/// Offset of the visible area inside controller GRAM on the Y axis.
pub const OFFSET_Y: u16 = 0;

/// Byte length of the scratch buffer used for chunked transfers.
pub const BUF_SIZE: usize = 24 * 48 * 2;

/// Pixel capacity of the scratch buffer (two bytes per pixel).
pub const MAX_DATA_LEN: usize = BUF_SIZE / 2;

} // verus!
