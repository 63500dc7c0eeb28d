//! Driver configuration: color order, inversion, hardware orientation,
//! physical panel dimensions and the global GRAM offset.

use vstd::prelude::*;

verus! {

/// Hardware orientation, one fixed MemoryAccessControl bit pattern each.
#[derive(Debug, Clone, Copy, PartialEq, Eq, Structural)]
pub enum Orientation {
    Portrait,
    Landscape,
    PortraitSwapped,
    LandscapeSwapped,
}

impl Orientation {
    /// The MemoryAccessControl base bits of this orientation.
    pub open spec fn bits_spec(self) -> u8 {
        match self {
            Orientation::Portrait => 0x40,
            Orientation::Landscape => 0x20,
            Orientation::PortraitSwapped => 0x80,
            Orientation::LandscapeSwapped => 0xE0,
        }
    }

    /// The MemoryAccessControl base bits of this orientation.
    pub fn bits(self) -> (r: u8)
        ensures
            r == self.bits_spec(),
    {
        match self {
            Orientation::Portrait => 0x40,
            Orientation::Landscape => 0x20,
            Orientation::PortraitSwapped => 0x80,
            Orientation::LandscapeSwapped => 0xE0,
        }
    }
}

/// The MemoryAccessControl register value for an orientation: its base bits,
/// with the BGR color-order bit set when the panel is not wired for RGB.
/// (The base bit patterns all leave that bit clear, so setting it adds 8.)
pub open spec fn madctl_byte(o: Orientation, rgb: bool) -> u8 {
    if rgb {
        o.bits_spec()
    } else {
        (o.bits_spec() + 8) as u8
    }
}

/// The MemoryAccessControl register value for an orientation and color
/// order, as [`madctl_byte`] states it.
pub fn madctl_value(o: Orientation, rgb: bool) -> (r: u8)
    ensures
        r == madctl_byte(o, rgb),
{
    if rgb {
        o.bits()
    } else {
        o.bits() + 8
    }
}

/// Panel configuration. `width` and `height` always describe the physical
/// frame as wired, independent of any logical rotation; `dx` and `dy` are
/// the global offset of the visible area inside controller GRAM.
#[derive(Debug, Clone, Copy, PartialEq, Eq, Structural)]
pub struct Config {
    /// True when the panel is wired for RGB color order, false for BGR.
    pub rgb: bool,
    /// True when display inversion is wanted.
    pub inverted: bool,
    /// Hardware orientation issued during initialization.
    pub orientation: Orientation,
    /// Physical frame height in pixels.
    pub height: u16,
    /// Physical frame width in pixels.
    pub width: u16,
    /// Global GRAM offset on the X axis.
    pub dx: u16,
    /// Global GRAM offset on the Y axis.
    pub dy: u16,
}

impl Config {
    /// A usable configuration: the frame is non-empty, and every physical
    /// coordinate shifted by the global offset still fits a 16-bit address
    /// field.
    pub open spec fn wf(self) -> bool {
        &&& 1 <= self.width
        &&& 1 <= self.height
        &&& self.width + self.dx <= 0x1_0000
        &&& self.height + self.dy <= 0x1_0000
    }
}

impl Default for Config {
    /// The 172 x 320 panel in landscape wiring: a 320 x 172 physical frame
    /// with the visible area offset 34 pixels on the page axis.
    fn default() -> (c: Config)
        ensures
            c == (Config {
                rgb: false,
                inverted: false,
                orientation: Orientation::Landscape,
                height: 172,
                width: 320,
                dx: 0,
                dy: 34,
            }),
            c.wf(),
    {
        Config {
            rgb: false,
            inverted: false,
            orientation: Orientation::Landscape,
            height: 172,
            width: 320,
            dx: 0,
            dy: 34,
        }
    }
}

} // verus!
