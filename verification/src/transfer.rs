//! The register map and the transfers that the driver asks of the bus.
use vstd::prelude::*;

verus! {

/// Default 7-bit I2C address (SDO/SA0 low). With SA0 tied high it becomes `0x6B`.
pub const DEFAULT_ADDRESS: u8 = 0x6A;

/// WHO_AM_I of the LSM6DS3TR-C.
pub const WHO_AM_I_LSM6DS3TR_C: u8 = 0x6A;

/// WHO_AM_I of the closely related LSM6DS3, which shares the register map.
pub const WHO_AM_I_LSM6DS3: u8 = 0x69;

/// Identification register.
pub const REG_WHO_AM_I: u8 = 0x0F;

/// Accelerometer control: ODR | FS.
pub const REG_CTRL1_XL: u8 = 0x10;

/// Gyroscope control: ODR | FS.
pub const REG_CTRL2_G: u8 = 0x11;

/// Common control: BDU, IF_INC.
pub const REG_CTRL3_C: u8 = 0x12;

/// Temperature, 2 bytes.
pub const REG_OUT_TEMP_L: u8 = 0x20;

/// Gyroscope X..Z, 6 bytes.
pub const REG_OUTX_L_G: u8 = 0x22;

/// Accelerometer X..Z, 6 bytes.
pub const REG_OUTX_L_XL: u8 = 0x28;

/// Block data update, bit 6 of CTRL3_C.
pub const CTRL3_C_BDU: u8 = 0b0100_0000;

/// Register auto-increment, bit 2 of CTRL3_C.
pub const CTRL3_C_IF_INC: u8 = 0b0000_0100;

/// One transfer on the bus, with the device at a 7-bit address.
#[derive(Debug, Clone, Copy, PartialEq, Eq, Structural)]
pub enum Transfer {
    /// Write the register number, then read `length` bytes in the same transaction.
    Read { address: u8, register: u8, length: usize },
    /// Write the register number and one byte.
    Write { address: u8, register: u8, value: u8 },
}

} // verus!
