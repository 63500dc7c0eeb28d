//! The controller opcodes the driver knows by name.

use vstd::prelude::*;

verus! {

/// Controller instruction opcodes.
#[derive(Debug, Clone, Copy)]
pub enum Instruction {
    /// Read Display Identification (04h) - Returns manufacturer and version information
    ReadDisplayId,
    /// Read Display Status (09h) - Checks display operating state
    ReadDisplayStatus,
    /// Sleep In (10h) - Enter low-power mode
    SleepIn,
    /// Sleep Out (11h) - Exit low-power mode
    SleepOut,
    /// Partial Display Mode On (12h) - Enable regional refresh
    PartialModeOn,
    /// Normal Display Mode On (13h) - Full-screen mode
    NormalDisplayOn,
    /// Display Inversion Off (20h) - Disable color inversion
    DisplayInversionOff,
    /// Display Inversion On (21h) - Enable color inversion
    DisplayInversionOn,
    /// Display Off (28h) - Disable panel output
    DisplayOff,
    /// Display On (29h) - Enable panel output
    DisplayOn,
    /// Column Address Set (2Ah) - Horizontal addressing bounds
    ColumnAddressSet,
    /// Page Address Set (2Bh) - Vertical addressing bounds
    PageAddressSet,
    /// Memory Write (2Ch) - Write to memory
    MemoryWrite,
    /// Tearing Effect Line On (35h) - Enable VSync output
    TearingEffectEnable,
    /// Memory Access Control (36h) - GRAM orientation/order
    MemoryAccessControl,
    /// Pixel Format Set (3Ah) - Color depth configuration
    PixelFormatSet,
    /// Tearing Effect Control (44h) - VSync line address
    TearingEffectControl,
    /// VCore Voltage Regulation (A7h) - Core voltage adjustment
    VcoreVoltageControl,
    /// RGB Interface Control (B0h) - Signal timing parameters
    RgbInterfaceControl,
    /// Blanking Porch Control (B5h) - Vertical/horizontal timing
    BlankingPorchControl,
    /// Display Function Control (B6h) - Scan direction/number
    DisplayFunctionControl,
    /// Power Control 1 (C1h) - Main voltage regulation
    PowerControl1,
    /// VREG1A Control (C3h) - Positive charge pump
    Vreg1aControl,
    /// VREG1B Control (C4h) - Negative charge pump
    Vreg1bControl,
    /// VREG2A Control (C9h) - Analog voltage regulator
    Vreg2aControl,
    /// Frame Rate Control (E8h) - Refresh rate configuration
    FrameRateControl,
    /// SPI Interface Control (E9h) - Protocol configuration
    SpiInterfaceControl,
    /// Interface Configuration (F6h) - Bus protocol settings
    InterfaceConfiguration,
    /// Gamma Set 1 (F0h) - Primary gamma correction
    GammaSet1,
    /// Gamma Set 2 (F1h) - Secondary gamma correction
    GammaSet2,
    /// Gamma Set 3 (F2h) - Fast transition adjustment
    GammaSet3,
    /// Gamma Set 4 (F3h) - Slow transition adjustment
    GammaSet4,
    /// Extended Register Access 2 (EFh) - Advanced command mode
    ExtendedRegAccess2,
    /// Extended Register Access 1 (FEh) - Basic command mode
    ExtendedRegAccess1,
}

impl Instruction {
    /// The one-byte opcode sent on the bus for this instruction.
    pub open spec fn opcode_spec(self) -> u8 {
        match self {
            Instruction::ReadDisplayId => 0x04,
            Instruction::ReadDisplayStatus => 0x09,
            Instruction::SleepIn => 0x10,
            Instruction::SleepOut => 0x11,
            Instruction::PartialModeOn => 0x12,
            Instruction::NormalDisplayOn => 0x13,
            Instruction::DisplayInversionOff => 0x20,
            Instruction::DisplayInversionOn => 0x21,
            Instruction::DisplayOff => 0x28,
            Instruction::DisplayOn => 0x29,
            Instruction::ColumnAddressSet => 0x2A,
            Instruction::PageAddressSet => 0x2B,
            Instruction::MemoryWrite => 0x2C,
            Instruction::TearingEffectEnable => 0x35,
            Instruction::MemoryAccessControl => 0x36,
            Instruction::PixelFormatSet => 0x3A,
            Instruction::TearingEffectControl => 0x44,
            Instruction::VcoreVoltageControl => 0xA7,
            Instruction::RgbInterfaceControl => 0xB0,
            Instruction::BlankingPorchControl => 0xB5,
            Instruction::DisplayFunctionControl => 0xB6,
            Instruction::PowerControl1 => 0xC1,
            Instruction::Vreg1aControl => 0xC3,
            Instruction::Vreg1bControl => 0xC4,
            Instruction::Vreg2aControl => 0xC9,
            Instruction::FrameRateControl => 0xE8,
            Instruction::SpiInterfaceControl => 0xE9,
            Instruction::InterfaceConfiguration => 0xF6,
            Instruction::GammaSet1 => 0xF0,
            Instruction::GammaSet2 => 0xF1,
            Instruction::GammaSet3 => 0xF2,
            Instruction::GammaSet4 => 0xF3,
            Instruction::ExtendedRegAccess2 => 0xEF,
            Instruction::ExtendedRegAccess1 => 0xFE,
        }
    }

    /// The one-byte opcode sent on the bus for this instruction.
    pub fn opcode(self) -> (r: u8)
        ensures
            r == self.opcode_spec(),
    {
        match self {
            Instruction::ReadDisplayId => 0x04,
            Instruction::ReadDisplayStatus => 0x09,
            Instruction::SleepIn => 0x10,
            Instruction::SleepOut => 0x11,
            Instruction::PartialModeOn => 0x12,
            Instruction::NormalDisplayOn => 0x13,
            Instruction::DisplayInversionOff => 0x20,
            Instruction::DisplayInversionOn => 0x21,
            Instruction::DisplayOff => 0x28,
            Instruction::DisplayOn => 0x29,
            Instruction::ColumnAddressSet => 0x2A,
            Instruction::PageAddressSet => 0x2B,
            Instruction::MemoryWrite => 0x2C,
            Instruction::TearingEffectEnable => 0x35,
            Instruction::MemoryAccessControl => 0x36,
            Instruction::PixelFormatSet => 0x3A,
            Instruction::TearingEffectControl => 0x44,
            Instruction::VcoreVoltageControl => 0xA7,
            Instruction::RgbInterfaceControl => 0xB0,
            Instruction::BlankingPorchControl => 0xB5,
            Instruction::DisplayFunctionControl => 0xB6,
            Instruction::PowerControl1 => 0xC1,
            Instruction::Vreg1aControl => 0xC3,
            Instruction::Vreg1bControl => 0xC4,
            Instruction::Vreg2aControl => 0xC9,
            Instruction::FrameRateControl => 0xE8,
            Instruction::SpiInterfaceControl => 0xE9,
            Instruction::InterfaceConfiguration => 0xF6,
            Instruction::GammaSet1 => 0xF0,
            Instruction::GammaSet2 => 0xF1,
            Instruction::GammaSet3 => 0xF2,
            Instruction::GammaSet4 => 0xF3,
            Instruction::ExtendedRegAccess2 => 0xEF,
            Instruction::ExtendedRegAccess1 => 0xFE,
        }
    }
}

} // verus!
