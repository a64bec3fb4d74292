//! Measurement ranges, output data rates and their register encodings.
use vstd::prelude::*;

use crate::fixed::Fixed;

verus! {

/// Accelerometer measurement range.
///
/// The register encoding is not in order of the ranges:
/// `00` is ±2 g, `01` is ±16 g, `10` is ±4 g and `11` is ±8 g.
#[derive(Debug, Clone, Copy, PartialEq, Eq, Structural)]
pub enum AccRange {
    /// ±2 g
    G2,
    /// ±4 g
    G4,
    /// ±8 g
    G8,
    /// ±16 g
    G16,
}

impl AccRange {
    /// The two-bit FS_XL code of the range.
    pub open spec fn code(self) -> int {
        match self {
            AccRange::G2 => 0,
            AccRange::G16 => 1,
            AccRange::G4 => 2,
            AccRange::G8 => 3,
        }
    }

    /// Micro-g per least significant bit.
    pub open spec fn micro_g(self) -> int {
        match self {
            AccRange::G2 => 61,
            AccRange::G4 => 122,
            AccRange::G8 => 244,
            AccRange::G16 => 488,
        }
    }

    /// FS_XL bits positioned in CTRL1_XL bits [3:2].
    pub fn fs_bits(self) -> (bits: u8)
        ensures
            bits == 4 * self.code(),
    {
        let code: u8 = match self {
            AccRange::G2 => 0b00,
            AccRange::G16 => 0b01,
            AccRange::G4 => 0b10,
            AccRange::G8 => 0b11,
        };
        assert(code << 2 == 4 * code) by (bit_vector)
            requires
                code < 4,
        ;
        code << 2
    }

    /// Sensitivity in mg per least significant bit.
    pub fn mg_per_lsb(self) -> (mg: Fixed)
        ensures
            mg.pico == self.micro_g() * 1_000_000_000,
    {
        match self {
            AccRange::G2 => Fixed { pico: 61_000_000_000 },
            AccRange::G4 => Fixed { pico: 122_000_000_000 },
            AccRange::G8 => Fixed { pico: 244_000_000_000 },
            AccRange::G16 => Fixed { pico: 488_000_000_000 },
        }
    }
}

/// Gyroscope measurement range.
#[derive(Debug, Clone, Copy, PartialEq, Eq, Structural)]
pub enum GyroRange {
    /// ±125 °/s
    Dps125,
    /// ±250 °/s
    Dps250,
    /// ±500 °/s
    Dps500,
    /// ±1000 °/s
    Dps1000,
    /// ±2000 °/s
    Dps2000,
}

impl GyroRange {
    /// The three bits FS_G[1:0], FS_125 of the range, FS_125 being the lowest.
    pub open spec fn code(self) -> int {
        match self {
            GyroRange::Dps125 => 1,
            GyroRange::Dps250 => 0,
            GyroRange::Dps500 => 2,
            GyroRange::Dps1000 => 4,
            GyroRange::Dps2000 => 6,
        }
    }

    /// Micro-degrees per second per least significant bit.
    pub open spec fn micro_dps(self) -> int {
        match self {
            GyroRange::Dps125 => 4_375,
            GyroRange::Dps250 => 8_750,
            GyroRange::Dps500 => 17_500,
            GyroRange::Dps1000 => 35_000,
            GyroRange::Dps2000 => 70_000,
        }
    }

    /// FS_G and FS_125 bits positioned in CTRL2_G bits [3:1].
    ///
    /// FS_125 (bit 1) takes precedence; otherwise FS_G[1:0] sit in bits [3:2].
    pub fn fs_bits(self) -> (bits: u8)
        ensures
            bits == 2 * self.code(),
    {
        let code: u8 = match self {
            GyroRange::Dps125 => 0b001,
            GyroRange::Dps250 => 0b000,
            GyroRange::Dps500 => 0b010,
            GyroRange::Dps1000 => 0b100,
            GyroRange::Dps2000 => 0b110,
        };
        assert(code << 1 == 2 * code) by (bit_vector)
            requires
                code < 8,
        ;
        code << 1
    }

    /// Sensitivity in milli-degrees per second per least significant bit.
    pub fn mdps_per_lsb(self) -> (mdps: Fixed)
        ensures
            mdps.pico == self.micro_dps() * 1_000_000_000,
    {
        match self {
            GyroRange::Dps125 => Fixed { pico: 4_375_000_000_000 },
            GyroRange::Dps250 => Fixed { pico: 8_750_000_000_000 },
            GyroRange::Dps500 => Fixed { pico: 17_500_000_000_000 },
            GyroRange::Dps1000 => Fixed { pico: 35_000_000_000_000 },
            GyroRange::Dps2000 => Fixed { pico: 70_000_000_000_000 },
        }
    }
}

/// Output data rate, shared by the accelerometer and gyroscope.
///
/// The register encoding (ODR_XL[3:0] and ODR_G[3:0]) is the same for both.
#[derive(Debug, Clone, Copy, PartialEq, Eq, Structural)]
pub enum Odr {
    Hz12_5,
    Hz26,
    Hz52,
    Hz104,
    Hz208,
    Hz416,
    Hz833,
    Hz1660,
    Hz3330,
    Hz6660,
}

impl Odr {
    /// The four-bit code of the rate.
    pub open spec fn code(self) -> int {
        match self {
            Odr::Hz12_5 => 1,
            Odr::Hz26 => 2,
            Odr::Hz52 => 3,
            Odr::Hz104 => 4,
            Odr::Hz208 => 5,
            Odr::Hz416 => 6,
            Odr::Hz833 => 7,
            Odr::Hz1660 => 8,
            Odr::Hz3330 => 9,
            Odr::Hz6660 => 10,
        }
    }

    /// ODR bits positioned in CTRL1_XL and CTRL2_G bits [7:4].
    pub fn odr_bits(self) -> (bits: u8)
        ensures
            bits == 16 * self.code(),
    {
        let code: u8 = match self {
            Odr::Hz12_5 => 0b0001,
            Odr::Hz26 => 0b0010,
            Odr::Hz52 => 0b0011,
            Odr::Hz104 => 0b0100,
            Odr::Hz208 => 0b0101,
            Odr::Hz416 => 0b0110,
            Odr::Hz833 => 0b0111,
            Odr::Hz1660 => 0b1000,
            Odr::Hz3330 => 0b1001,
            Odr::Hz6660 => 0b1010,
        };
        assert(code << 4 == 16 * code) by (bit_vector)
            requires
                code < 16,
        ;
        code << 4
    }
}

/// Sensor configuration that the device is brought up with.
#[derive(Debug, Clone, Copy, PartialEq, Eq, Structural)]
pub struct Config {
    pub acc_range: AccRange,
    pub acc_odr: Odr,
    pub gyro_range: GyroRange,
    pub gyro_odr: Odr,
}

impl Default for Config {
    /// ±4 g at 104 Hz for the accelerometer, ±500 °/s at 104 Hz for the gyroscope.
    fn default() -> (config: Self)
        ensures
            config.acc_range == AccRange::G4,
            config.acc_odr == Odr::Hz104,
            config.gyro_range == GyroRange::Dps500,
            config.gyro_odr == Odr::Hz104,
    {
        Config {
            acc_range: AccRange::G4,
            acc_odr: Odr::Hz104,
            gyro_range: GyroRange::Dps500,
            gyro_odr: Odr::Hz104,
        }
    }
}

impl Config {
    /// The value of CTRL1_XL: data rate in the upper half, range in bits [3:2].
    pub open spec fn accelerometer_control(self) -> int {
        16 * self.acc_odr.code() + 4 * self.acc_range.code()
    }

    /// The value of CTRL2_G: data rate in the upper half, range in bits [3:1].
    pub open spec fn gyroscope_control(self) -> int {
        16 * self.gyro_odr.code() + 2 * self.gyro_range.code()
    }

    /// Accelerometer control byte: ODR | FS.
    pub fn ctrl1_xl(&self) -> (value: u8)
        ensures
            value == self.accelerometer_control(),
    {
        let odr: u8 = self.acc_odr.odr_bits();
        let fs: u8 = self.acc_range.fs_bits();
        assert(odr | fs == odr + fs) by (bit_vector)
            requires
                odr % 16 == 0,
                fs < 16,
        ;
        odr | fs
    }

    /// Gyroscope control byte: ODR | FS, FS_125 included.
    pub fn ctrl2_g(&self) -> (value: u8)
        ensures
            value == self.gyroscope_control(),
    {
        let odr: u8 = self.gyro_odr.odr_bits();
        let fs: u8 = self.gyro_range.fs_bits();
        assert(odr | fs == odr + fs) by (bit_vector)
            requires
                odr % 16 == 0,
                fs < 16,
        ;
        odr | fs
    }
}

/// The fields of CTRL1_XL do not overlap: bits [7:4] are the rate, bits [3:2]
/// the range, and bits [1:0] stay clear.
pub proof fn law_accelerometer_control_fields(config: Config)
    ensures
        0 <= config.accelerometer_control() < 256,
        config.accelerometer_control() / 16 == config.acc_odr.code(),
        (config.accelerometer_control() / 4) % 4 == config.acc_range.code(),
        config.accelerometer_control() % 4 == 0,
{
}

/// The fields of CTRL2_G do not overlap: bits [7:4] are the rate, bits [3:1] the
/// range, and bit 0 stays clear. FS_125 (bit 1) is set for ±125 °/s alone, and
/// then FS_G (bits [3:2]) is clear.
pub proof fn law_gyroscope_control_fields(config: Config)
    ensures
        0 <= config.gyroscope_control() < 256,
        config.gyroscope_control() / 16 == config.gyro_odr.code(),
        (config.gyroscope_control() / 2) % 8 == config.gyro_range.code(),
        config.gyroscope_control() % 2 == 0,
        config.gyroscope_control() % 4 == 2 <==> config.gyro_range == GyroRange::Dps125,
        config.gyro_range == GyroRange::Dps125 ==> (config.gyroscope_control() / 4) % 4 == 0,
{
}

/// The two control bytes determine the configuration.
pub proof fn law_control_bytes_determine_config(a: Config, b: Config)
    requires
        a.accelerometer_control() == b.accelerometer_control(),
        a.gyroscope_control() == b.gyroscope_control(),
    ensures
        a == b,
{
    law_accelerometer_control_fields(a);
    law_accelerometer_control_fields(b);
    law_gyroscope_control_fields(a);
    law_gyroscope_control_fields(b);
}

/// The weight of a count, in millionths of a g and of a degree per second: a range
/// of twice the width has twice the weight.
pub proof fn law_sensitivities(acc: AccRange, gyro: GyroRange)
    ensures
        acc.micro_g() == match acc {
            AccRange::G2 => 61int,
            AccRange::G4 => 2 * 61int,
            AccRange::G8 => 4 * 61int,
            AccRange::G16 => 8 * 61int,
        },
        gyro.micro_dps() == match gyro {
            GyroRange::Dps125 => 4_375int,
            GyroRange::Dps250 => 2 * 4_375int,
            GyroRange::Dps500 => 4 * 4_375int,
            GyroRange::Dps1000 => 8 * 4_375int,
            GyroRange::Dps2000 => 16 * 4_375int,
        },
{
}

} // verus!
