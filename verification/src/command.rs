//! The closed catalog of controller opcodes.
//!
//! Each variant names one operation of the ILI9163C-family register map.
//! [`Command::opcode`] gives the 8-bit value that selects the operation on
//! the wire; the catalog is pure data and carries no behavior of its own.

use vstd::prelude::*;

verus! {

/// One controller operation, identified by its 8-bit opcode.
#[derive(Clone, Copy)]
pub enum Command {
    /// NOP
    Nop,
    /// SWRESET
    SoftwareReset,
    /// RDDIDIF; reads 3 data parameters after a dummy clock
    ReadDisplayId,
    /// RDDST; reads 4 data parameters after a dummy clock
    ReadDisplayStatus,
    /// RDDPM
    ReadDisplayPowerMode,
    /// RDDMADCTL
    ReadDisplayMADCTL,
    /// RDDCOLMOD
    ReadDisplayPixelFormat,
    /// RDDIM
    ReadDisplayImageMode,
    /// RDDSM
    ReadDisplaySignalMode,
    /// RDDSM
    ReadDisplaySignalMode2,
    /// SLPIN; enables low-power mode
    SleepIn,
    /// SLPOUT; leaves low-power mode (wait a bit afterwards)
    SleepOut,
    /// PTLON; enables partial mode
    PartialModeOn,
    /// NORON; leaves partial mode, enters normal mode
    NormalModeOn,
    /// INVOFF
    DisplayInversionOff,
    /// INVON; inverts the color of every pixel (not a symmetry)
    DisplayInversionOn,
    /// GAMSET
    GammaSet,
    /// DISPOFF; enters DISPLAY OFF mode without affecting the memory
    DisplayOff,
    /// DISPON
    DisplayOn,
    /// CASET; sets the active X window (4 data bytes: start and end, MSB first)
    ColumnAddressSet,
    /// PASET; sets the active Y window (4 data bytes: start and end, MSB first)
    PageAddressSet,
    /// RAMWR; writes all following data bytes to the memory until the next command
    MemoryWrite,
    /// RGBSET; sets the color translation table for 12 or 16-bit colors
    ColorSettings,
    /// RAMRD
    MemoryRead,
    /// PLTAR; specifies the partial rows enabled by PTLON
    PartialArea,
    /// VSCRDEF
    VerticalScrollingDefinition,
    /// TEOFF
    TearingEffectLineOff,
    /// TEON; defines a V-Blanking setting
    TearingEffectLineOn,
    /// MADCTL; X/Y symmetry and swap, refresh directions, RGB/BGR order
    MemoryAccessControl,
    /// VSCRSADD
    VerticalScrollingStartAddress,
    /// IDMOFF
    IdleModeOff,
    /// IDMON; 8-color mode at a lower frequency
    IdleModeOd,
    /// COLMOD
    InterfacePixelFormat,
    /// FRMCTR1; clock division ratio in normal mode
    FrameRateControlNormal,
    /// FRMCTR2; clock division ratio in idle mode
    FrameRateControlIdle,
    /// FRMCTR3; clock division ratio in partial mode
    FrameRateControlPartial,
    /// INVCTR
    DisplayInversionControl,
    /// BPCTR
    RgbInterfaceBlankingPorchSetting,
    /// DISSET5
    DisplayFunctionSet5,
    /// SDOCTR
    SourceDriverDirectionControl,
    /// GDOCTR
    GateDriverDirectionControl,
    /// PWCTR1; sets the GVDD voltage
    PowerControl1,
    /// PWCTR2; sets the AVDD, VCL, VGH and VGL supply power level
    PowerControl2,
    /// PWCTR3; operational-amplifier current in normal mode / full colors
    PowerControl3,
    /// PWCTR4; operational-amplifier current in idle mode / 8 colors
    PowerControl4,
    /// PWCTR5; operational-amplifier current in partial mode / full colors
    PowerControl5,
    /// VMCTR
    VcomControl1,
    /// VMOFCTR
    VcomOffsetControl,
    /// RDID4
    WriteId4Value,
    NvMemoryFunctionController1,
    NvMemoryFunctionController2,
    NvMemoryFunctionController3,
    /// RDID1
    ReadId1,
    /// RDID2
    ReadId2,
    /// RDID3
    ReadId3,
    /// GAMCTRP0
    PositiveGammaCorrectionSetting,
    /// GAMCTRN0
    NegativeGammaCorrectionSetting,
    /// GAM_R_SEL; gamma adjustment (E0h and E1h) enable control
    GamRSel,
}

impl Command {
    /// The opcode byte of this operation, as a specification value.
    pub open spec fn opcode_spec(self) -> u8 {
        match self {
            Command::Nop => 0x00,
            Command::SoftwareReset => 0x01,
            Command::ReadDisplayId => 0x04,
            Command::ReadDisplayStatus => 0x09,
            Command::ReadDisplayPowerMode => 0x0A,
            Command::ReadDisplayMADCTL => 0x0B,
            Command::ReadDisplayPixelFormat => 0x0C,
            Command::ReadDisplayImageMode => 0x0D,
            Command::ReadDisplaySignalMode => 0x0E,
            Command::ReadDisplaySignalMode2 => 0x0F,
            Command::SleepIn => 0x10,
            Command::SleepOut => 0x11,
            Command::PartialModeOn => 0x12,
            Command::NormalModeOn => 0x13,
            Command::DisplayInversionOff => 0x20,
            Command::DisplayInversionOn => 0x21,
            Command::GammaSet => 0x26,
            Command::DisplayOff => 0x28,
            Command::DisplayOn => 0x29,
            Command::ColumnAddressSet => 0x2A,
            Command::PageAddressSet => 0x2B,
            Command::MemoryWrite => 0x2C,
            Command::ColorSettings => 0x2D,
            Command::MemoryRead => 0x2E,
            Command::PartialArea => 0x30,
            Command::VerticalScrollingDefinition => 0x33,
            Command::TearingEffectLineOff => 0x34,
            Command::TearingEffectLineOn => 0x35,
            Command::MemoryAccessControl => 0x36,
            Command::VerticalScrollingStartAddress => 0x37,
            Command::IdleModeOff => 0x38,
            Command::IdleModeOd => 0x39,
            Command::InterfacePixelFormat => 0x3A,
            Command::FrameRateControlNormal => 0xB1,
            Command::FrameRateControlIdle => 0xB2,
            Command::FrameRateControlPartial => 0xB3,
            Command::DisplayInversionControl => 0xB4,
            Command::RgbInterfaceBlankingPorchSetting => 0xB5,
            Command::DisplayFunctionSet5 => 0xB6,
            Command::SourceDriverDirectionControl => 0xB7,
            Command::GateDriverDirectionControl => 0xB8,
            Command::PowerControl1 => 0xC0,
            Command::PowerControl2 => 0xC1,
            Command::PowerControl3 => 0xC2,
            Command::PowerControl4 => 0xC3,
            Command::PowerControl5 => 0xC4,
            Command::VcomControl1 => 0xC5,
            Command::VcomOffsetControl => 0xC7,
            Command::WriteId4Value => 0xD3,
            Command::NvMemoryFunctionController1 => 0xD5,
            Command::NvMemoryFunctionController2 => 0xD6,
            Command::NvMemoryFunctionController3 => 0xD7,
            Command::ReadId1 => 0xDA,
            Command::ReadId2 => 0xDB,
            Command::ReadId3 => 0xDC,
            Command::PositiveGammaCorrectionSetting => 0xE0,
            Command::NegativeGammaCorrectionSetting => 0xE1,
            Command::GamRSel => 0xF2,
        }
    }

    /// The opcode byte of this operation.
    pub fn opcode(self) -> (b: u8)
        ensures
            b == self.opcode_spec(),
    {
        match self {
            Command::Nop => 0x00,
            Command::SoftwareReset => 0x01,
            Command::ReadDisplayId => 0x04,
            Command::ReadDisplayStatus => 0x09,
            Command::ReadDisplayPowerMode => 0x0A,
            Command::ReadDisplayMADCTL => 0x0B,
            Command::ReadDisplayPixelFormat => 0x0C,
            Command::ReadDisplayImageMode => 0x0D,
            Command::ReadDisplaySignalMode => 0x0E,
            Command::ReadDisplaySignalMode2 => 0x0F,
            Command::SleepIn => 0x10,
            Command::SleepOut => 0x11,
            Command::PartialModeOn => 0x12,
            Command::NormalModeOn => 0x13,
            Command::DisplayInversionOff => 0x20,
            Command::DisplayInversionOn => 0x21,
            Command::GammaSet => 0x26,
            Command::DisplayOff => 0x28,
            Command::DisplayOn => 0x29,
            Command::ColumnAddressSet => 0x2A,
            Command::PageAddressSet => 0x2B,
            Command::MemoryWrite => 0x2C,
            Command::ColorSettings => 0x2D,
            Command::MemoryRead => 0x2E,
            Command::PartialArea => 0x30,
            Command::VerticalScrollingDefinition => 0x33,
            Command::TearingEffectLineOff => 0x34,
            Command::TearingEffectLineOn => 0x35,
            Command::MemoryAccessControl => 0x36,
            Command::VerticalScrollingStartAddress => 0x37,
            Command::IdleModeOff => 0x38,
            Command::IdleModeOd => 0x39,
            Command::InterfacePixelFormat => 0x3A,
            Command::FrameRateControlNormal => 0xB1,
            Command::FrameRateControlIdle => 0xB2,
            Command::FrameRateControlPartial => 0xB3,
            Command::DisplayInversionControl => 0xB4,
            Command::RgbInterfaceBlankingPorchSetting => 0xB5,
            Command::DisplayFunctionSet5 => 0xB6,
            Command::SourceDriverDirectionControl => 0xB7,
            Command::GateDriverDirectionControl => 0xB8,
            Command::PowerControl1 => 0xC0,
            Command::PowerControl2 => 0xC1,
            Command::PowerControl3 => 0xC2,
            Command::PowerControl4 => 0xC3,
            Command::PowerControl5 => 0xC4,
            Command::VcomControl1 => 0xC5,
            Command::VcomOffsetControl => 0xC7,
            Command::WriteId4Value => 0xD3,
            Command::NvMemoryFunctionController1 => 0xD5,
            Command::NvMemoryFunctionController2 => 0xD6,
            Command::NvMemoryFunctionController3 => 0xD7,
            Command::ReadId1 => 0xDA,
            Command::ReadId2 => 0xDB,
            Command::ReadId3 => 0xDC,
            Command::PositiveGammaCorrectionSetting => 0xE0,
            Command::NegativeGammaCorrectionSetting => 0xE1,
            Command::GamRSel => 0xF2,
        }
    }
}

/// A pixel format selection, the data parameter of COLMOD.
#[derive(Clone, Copy)]
pub enum PixelFormat {
    /// 16 bits per pixel (5-6-5)
    Bpp16,
    /// 18 bits per pixel, option 1
    Bpp18_1,
    /// 18 bits per pixel, option 3
    Bpp18_3,
}

impl PixelFormat {
    /// The parameter byte of this pixel format, as a specification value.
    pub open spec fn bits_spec(self) -> u8 {
        match self {
            PixelFormat::Bpp16 => 0b0101,
            PixelFormat::Bpp18_1 => 0b0110,
            PixelFormat::Bpp18_3 => 0b1110,
        }
    }

    /// The parameter byte of this pixel format.
    pub fn bits(self) -> (b: u8)
        ensures
            b == self.bits_spec(),
    {
        match self {
            PixelFormat::Bpp16 => 0b0101,
            PixelFormat::Bpp18_1 => 0b0110,
            PixelFormat::Bpp18_3 => 0b1110,
        }
    }
}

/// A gamma curve selection, the data parameter of GAMSET.
#[derive(Clone, Copy)]
pub enum GammaCurve {
    Curve1,
    Curve2,
    Curve3,
    Curve4,
}

impl GammaCurve {
    /// The parameter byte of this curve selection, as a specification value.
    pub open spec fn bits_spec(self) -> u8 {
        match self {
            GammaCurve::Curve1 => 1,
            GammaCurve::Curve2 => 2,
            GammaCurve::Curve3 => 4,
            GammaCurve::Curve4 => 8,
        }
    }

    /// The parameter byte of this curve selection.
    pub fn bits(self) -> (b: u8)
        ensures
            b == self.bits_spec(),
    {
        match self {
            GammaCurve::Curve1 => 1,
            GammaCurve::Curve2 => 2,
            GammaCurve::Curve3 => 4,
            GammaCurve::Curve4 => 8,
        }
    }
}

} // verus!
