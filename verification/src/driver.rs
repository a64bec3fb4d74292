//! The driver of a configured device.
//!
//! The driver never touches the bus. It says which [`Transfer`] it wants, and
//! is handed the reply of the bus, the bytes read or the error.
use vstd::prelude::*;

use crate::config::{AccRange, Config, GyroRange};
use crate::decoder;
use crate::decoder::SampleDecoder;
use crate::error::Error;
use crate::fixed;
use crate::fixed::Fixed;
use crate::remap::AxisRemap;
use crate::startup::Startup;
use crate::transfer;
use crate::transfer::Transfer;

verus! {

/// LSM6DS3TR-C driver.
pub struct Lsm6ds3tr<I2C> {
    i2c: I2C,
    address: u8,
    acc_range: AccRange,
    gyro_range: GyroRange,
    /// Software axis remapping applied to all accelerometer and gyroscope readings.
    axis_remap: AxisRemap,
    /// Gyroscope zero-rate bias in °/s, in the raw sensor frame (before remap).
    /// Subtracted from every gyroscope reading.
    gyro_bias_dps: (Fixed, Fixed, Fixed),
}

/// What a driver holds.
pub struct ImuState<I2C> {
    pub i2c: I2C,
    pub address: u8,
    pub acc_range: AccRange,
    pub gyro_range: GyroRange,
    pub axis_remap: AxisRemap,
    pub gyro_bias_dps: (Fixed, Fixed, Fixed),
}

impl<I2C> ImuState<I2C> {
    /// The decoder with the ranges, the remap and the bias of the driver.
    pub open spec fn decoder(self) -> SampleDecoder {
        SampleDecoder {
            acc_range: self.acc_range,
            gyro_range: self.gyro_range,
            axis_remap: self.axis_remap,
            gyro_bias_dps: self.gyro_bias_dps,
        }
    }

    /// The driver with another remap.
    pub open spec fn with_remap(self, remap: AxisRemap) -> ImuState<I2C> {
        ImuState { axis_remap: remap, ..self }
    }

    /// The transfer that fetches `length` output bytes from `register` on.
    pub open spec fn fetch(self, register: u8, length: usize) -> Transfer {
        Transfer::Read { address: self.address, register, length }
    }

    /// The acceleration in m/s² that six accelerometer bytes stand for.
    pub open spec fn acceleration_ms2(self, b: Seq<u8>) -> (int, int, int) {
        let g = self.decoder().acceleration(b);
        (g.0 * 980_665 / 100_000, g.1 * 980_665 / 100_000, g.2 * 980_665 / 100_000)
    }

    /// Identity remap and zero bias.
    pub open spec fn is_uncorrected(self) -> bool {
        self.axis_remap.is_identity() && fixed::values(self.gyro_bias_dps) == (0int, 0int, 0int)
    }
}

impl<I2C> View for Lsm6ds3tr<I2C> {
    type V = ImuState<I2C>;

    closed spec fn view(&self) -> ImuState<I2C> {
        ImuState {
            i2c: self.i2c,
            address: self.address,
            acc_range: self.acc_range,
            gyro_range: self.gyro_range,
            axis_remap: self.axis_remap,
            gyro_bias_dps: self.gyro_bias_dps,
        }
    }
}

/// The reading of a temperature register in °C: 256 counts per degree, zero at
/// 25 °C.
pub open spec fn celsius(low: u8, high: u8) -> int {
    decoder::counts(low, high) * (fixed::ONE as int / 256) + 25 * fixed::ONE
}

impl<I2C> Lsm6ds3tr<I2C> {
    /// Begin to initialise the sensor at the default address `0x6A`.
    pub fn new(i2c: I2C, config: Config) -> (startup: Startup<I2C>)
        ensures
            startup@.i2c == i2c,
            startup@.config == config,
            startup@.address == transfer::DEFAULT_ADDRESS,
    {
        Self::new_with_address(i2c, config, transfer::DEFAULT_ADDRESS)
    }

    /// Begin to initialise the sensor at an explicit I2C address (`0x6A` with SA0
    /// low, `0x6B` with SA0 high).
    pub fn new_with_address(i2c: I2C, config: Config, address: u8) -> (startup: Startup<I2C>)
        ensures
            startup@.i2c == i2c,
            startup@.config == config,
            startup@.address == address,
    {
        Startup::begin(i2c, config, address)
    }

    /// The driver of a device that has been configured.
    pub(crate) fn configured(i2c: I2C, config: Config, address: u8) -> (imu: Self)
        ensures
            imu@.i2c == i2c,
            imu@.address == address,
            imu@.acc_range == config.acc_range,
            imu@.gyro_range == config.gyro_range,
            imu@.is_uncorrected(),
    {
        Lsm6ds3tr {
            i2c,
            address,
            acc_range: config.acc_range,
            gyro_range: config.gyro_range,
            axis_remap: AxisRemap::default(),
            gyro_bias_dps: (Fixed::zero(), Fixed::zero(), Fixed::zero()),
        }
    }

    /// The bus, for carrying out a transfer.
    pub fn bus(&mut self) -> (bus: &mut I2C)
        ensures
            *bus == old(self)@.i2c,
            final(self)@ == (ImuState { i2c: *final(bus), ..old(self)@ }),
    {
        &mut self.i2c
    }

    /// Set software axis remapping applied to all sensor readings.
    ///
    /// Use this to compensate for the physical mounting orientation of the IMU.
    pub fn set_axis_remap(&mut self, remap: AxisRemap)
        ensures
            final(self)@ == (ImuState { axis_remap: remap, ..old(self)@ }),
            final(self)@ == old(self)@.with_remap(remap),
    {
        self.axis_remap = remap;
    }

    /// Snapshot this driver's ranges, remap and gyro bias as a transport-free
    /// [`SampleDecoder`].
    pub fn decoder(&self) -> (d: SampleDecoder)
        ensures
            d == self@.decoder(),
            d.acc_range == self@.acc_range,
            d.gyro_range == self@.gyro_range,
            d.axis_remap == self@.axis_remap,
            d.gyro_bias_dps == self@.gyro_bias_dps,
    {
        SampleDecoder {
            acc_range: self.acc_range,
            gyro_range: self.gyro_range,
            axis_remap: self.axis_remap,
            gyro_bias_dps: self.gyro_bias_dps,
        }
    }

    /// The transfer that fetches the accelerometer registers.
    pub fn accelerometer_transfer(&self) -> (t: Transfer)
        ensures
            t == (Transfer::Read {
                address: self@.address,
                register: transfer::REG_OUTX_L_XL,
                length: 6,
            }),
            t == self@.fetch(0x28, 6),
    {
        Transfer::Read { address: self.address, register: transfer::REG_OUTX_L_XL, length: 6 }
    }

    /// The transfer that fetches the gyroscope registers.
    pub fn gyroscope_transfer(&self) -> (t: Transfer)
        ensures
            t == (Transfer::Read {
                address: self@.address,
                register: transfer::REG_OUTX_L_G,
                length: 6,
            }),
            t == self@.fetch(0x22, 6),
    {
        Transfer::Read { address: self.address, register: transfer::REG_OUTX_L_G, length: 6 }
    }

    /// The transfer that fetches the temperature registers.
    pub fn temperature_transfer(&self) -> (t: Transfer)
        ensures
            t == (Transfer::Read {
                address: self@.address,
                register: transfer::REG_OUT_TEMP_L,
                length: 2,
            }),
            t == self@.fetch(0x20, 2),
    {
        Transfer::Read { address: self.address, register: transfer::REG_OUT_TEMP_L, length: 2 }
    }

    /// Read accelerometer, from the reply to [`Self::accelerometer_transfer`].
    /// Returns `(x, y, z)` in **g** (after axis remapping).
    pub fn read_accelerometer<E>(&self, reply: Result<[u8; 6], E>) -> (r: Result<
        (Fixed, Fixed, Fixed),
        Error<E>,
    >)
        requires
            reply is Ok ==> self@.axis_remap.wf(),
        ensures
            match reply {
                Ok(b) => r matches Ok(g) && fixed::values(g) == self@.decoder().acceleration(b@),
                Err(e) => r == Err::<(Fixed, Fixed, Fixed), Error<E>>(Error::I2c(e)),
            },
    {
        match reply {
            Ok(b) => Ok(self.decoder().decode_accelerometer(&b)),
            Err(e) => Err(Error::from(e)),
        }
    }

    /// Read accelerometer, from the reply to [`Self::accelerometer_transfer`].
    /// Returns `(x, y, z)` in **m/s²** (after axis remapping): 9.80665 times the
    /// reading in g, without rounding.
    pub fn read_accelerometer_ms2<E>(&self, reply: Result<[u8; 6], E>) -> (r: Result<
        (Fixed, Fixed, Fixed),
        Error<E>,
    >)
        requires
            reply is Ok ==> self@.axis_remap.wf(),
        ensures
            match reply {
                Ok(b) => {
                    let g = self@.decoder().acceleration(b@);
                    &&& r matches Ok(a)
                    &&& a.0.pico * 100_000 == g.0 * 980_665
                    &&& a.1.pico * 100_000 == g.1 * 980_665
                    &&& a.2.pico * 100_000 == g.2 * 980_665
                    &&& fixed::values(a) == self@.acceleration_ms2(b@)
                },
                Err(e) => r == Err::<(Fixed, Fixed, Fixed), Error<E>>(Error::I2c(e)),
            },
    {
        let ghost bytes = reply;
        match self.read_accelerometer(reply) {
            Ok((x, y, z)) => {
                proof {
                    lemma_acceleration_is_in_millionths(self@.decoder(), bytes->Ok_0@);
                }
                Ok((standard_gravities(x), standard_gravities(y), standard_gravities(z)))
            },
            Err(e) => Err(e),
        }
    }

    /// Read gyroscope, from the reply to [`Self::gyroscope_transfer`].
    /// Returns `(x, y, z)` in **degrees/s** (after axis remapping).
    pub fn read_gyroscope_dps<E>(&self, reply: Result<[u8; 6], E>) -> (r: Result<
        (Fixed, Fixed, Fixed),
        Error<E>,
    >)
        requires
            reply is Ok ==> self@.axis_remap.wf(),
        ensures
            match reply {
                Ok(b) => r matches Ok(dps) && fixed::values(dps) == self@.decoder().rate_dps(b@),
                Err(e) => r == Err::<(Fixed, Fixed, Fixed), Error<E>>(Error::I2c(e)),
            },
    {
        match reply {
            Ok(b) => Ok(self.decoder().decode_gyroscope_dps(&b)),
            Err(e) => Err(Error::from(e)),
        }
    }

    /// Read gyroscope, from the reply to [`Self::gyroscope_transfer`].
    /// Returns `(x, y, z)` in **rad/s** (after axis remapping).
    pub fn read_gyroscope<E>(&self, reply: Result<[u8; 6], E>) -> (r: Result<
        (Fixed, Fixed, Fixed),
        Error<E>,
    >)
        requires
            reply is Ok ==> self@.axis_remap.wf(),
        ensures
            match reply {
                Ok(b) => r matches Ok(rads) && fixed::values(rads) == self@.decoder().rate_rads(b@),
                Err(e) => r == Err::<(Fixed, Fixed, Fixed), Error<E>>(Error::I2c(e)),
            },
    {
        match self.read_gyroscope_dps(reply) {
            Ok((x, y, z)) => Ok(
                (decoder::to_radians(x), decoder::to_radians(y), decoder::to_radians(z)),
            ),
            Err(e) => Err(e),
        }
    }

    /// Current gyroscope zero-rate bias in °/s (raw sensor frame).
    pub fn gyro_bias_dps(&self) -> (bias: (Fixed, Fixed, Fixed))
        ensures
            bias == self@.gyro_bias_dps,
    {
        self.gyro_bias_dps
    }

    /// Read temperature, from the reply to [`Self::temperature_transfer`].
    /// Returns the value in **°C**.
    ///
    /// 16-bit two's complement, 256 LSB/°C with a 25 °C offset.
    pub fn read_temperature<E>(&self, reply: Result<[u8; 2], E>) -> (r: Result<Fixed, Error<E>>)
        ensures
            match reply {
                Ok(b) => r matches Ok(t) && t.pico == celsius(b[0], b[1]),
                Err(e) => r == Err::<Fixed, Error<E>>(Error::I2c(e)),
            },
    {
        match reply {
            Ok(b) => {
                let raw: i16 = decoder::read_counts(b[0], b[1]);
                Ok(Fixed { pico: raw as i128 * (fixed::ONE / 256) + 25 * fixed::ONE })
            },
            Err(e) => Err(Error::from(e)),
        }
    }

    /// Replace the bias.
    pub(crate) fn set_bias(&mut self, bias: (Fixed, Fixed, Fixed))
        ensures
            final(self)@ == (ImuState { gyro_bias_dps: bias, ..old(self)@ }),
    {
        self.gyro_bias_dps = bias;
    }

    /// Consume the driver and return the underlying I2C bus.
    pub fn release(self) -> (bus: I2C)
        ensures
            bus == self@.i2c,
    {
        self.i2c
    }
}

/// Every acceleration that the sensor can report is a whole number of millionths.
proof fn lemma_acceleration_is_in_millionths(d: SampleDecoder, b: Seq<u8>)
    ensures
        d.acceleration(b).0 % 1_000_000 == 0,
        d.acceleration(b).1 % 1_000_000 == 0,
        d.acceleration(b).2 % 1_000_000 == 0,
        -16_000_000_000_000 <= d.acceleration(b).0 <= 16_000_000_000_000,
        -16_000_000_000_000 <= d.acceleration(b).1 <= 16_000_000_000_000,
        -16_000_000_000_000 <= d.acceleration(b).2 <= 16_000_000_000_000,
{
    let c = decoder::axis_counts(b);
    lemma_weighted_count(d.acc_range, c.0);
    lemma_weighted_count(d.acc_range, c.1);
    lemma_weighted_count(d.acc_range, c.2);
}

/// The same of a single count.
proof fn lemma_weighted_count(range: AccRange, n: int)
    requires
        i16::MIN <= n <= i16::MAX,
    ensures
        (n * (range.micro_g() * 1_000_000)) % 1_000_000 == 0,
        (-(n * (range.micro_g() * 1_000_000))) % 1_000_000 == 0,
        -16_000_000_000_000 <= n * (range.micro_g() * 1_000_000) <= 16_000_000_000_000,
{
    match range {
        AccRange::G2 => {
            assert(n * (61 * 1_000_000int) == 61_000_000 * n);
        },
        AccRange::G4 => {
            assert(n * (122 * 1_000_000int) == 122_000_000 * n);
        },
        AccRange::G8 => {
            assert(n * (244 * 1_000_000int) == 244_000_000 * n);
        },
        AccRange::G16 => {
            assert(n * (488 * 1_000_000int) == 488_000_000 * n);
        },
    }
}

/// Multiplies a reading in g by 9.80665 m/s².
fn standard_gravities(g: Fixed) -> (a: Fixed)
    requires
        g.pico as int % 100_000 == 0,
        -100_000_000_000_000 <= g.pico <= 100_000_000_000_000,
    ensures
        a.pico * 100_000 == g.pico * 980_665,
{
    let magnitude: i128 = if g.pico < 0 {
        -g.pico
    } else {
        g.pico
    };
    let steps: i128 = magnitude / 100_000;
    assert(magnitude == 100_000 * steps) by {
        let x: int = g.pico as int;
        assert(x == 100_000 * (x / 100_000));
        assert(-x == 100_000 * (-(x / 100_000)));
    }
    let a: i128 = steps * 980_665;
    Fixed {
        pico: if g.pico < 0 {
            -a
        } else {
            a
        },
    }
}

/// The decoder of a driver has the ranges, the remap and the bias of the driver.
pub proof fn law_decoder_is_that_of_the_driver<I2C>(imu: ImuState<I2C>)
    ensures
        imu.decoder().acc_range == imu.acc_range,
        imu.decoder().gyro_range == imu.gyro_range,
        imu.decoder().axis_remap == imu.axis_remap,
        imu.decoder().gyro_bias_dps == imu.gyro_bias_dps,
{
}

/// Every reading is one read from the address of the device, of the bytes from the
/// given register on.
pub proof fn law_readings_ask_the_device<I2C>(imu: ImuState<I2C>, register: u8, length: usize)
    ensures
        imu.fetch(register, length) matches Transfer::Read { address, register: r, length: l }
            && address == imu.address && r == register && l == length,
{
}

/// A temperature is 25 °C plus a 256th of a degree for each count, the count being
/// the number in the two bytes.
pub proof fn law_temperature_is_counted_from_25_degrees(low: u8, high: u8, t: Fixed, n: int)
    requires
        t.pico == celsius(low, high),
        decoder::hold(low, high, n),
    ensures
        256 * (t.pico - 25_000_000_000_000) == n * 1_000_000_000_000,
{
}

/// An acceleration in m/s² is 9.80665 times that in g, output by output and without
/// rounding.
pub proof fn law_acceleration_in_ms2_is_that_in_g<I2C>(
    imu: ImuState<I2C>,
    b: [u8; 6],
    g: (Fixed, Fixed, Fixed),
    a: (Fixed, Fixed, Fixed),
)
    requires
        fixed::values(g) == imu.decoder().acceleration(b@),
        fixed::values(a) == imu.acceleration_ms2(b@),
    ensures
        a.0.pico * 100_000 == g.0.pico * 980_665,
        a.1.pico * 100_000 == g.1.pico * 980_665,
        a.2.pico * 100_000 == g.2.pico * 980_665,
{
    lemma_acceleration_is_in_millionths(imu.decoder(), b@);
}

/// A remap that is set applies to the readings of both sensors from then on, and to
/// nothing else: the readings are those without a remap, remapped.
pub proof fn law_remap_applies_to_all_readings<I2C>(
    imu: ImuState<I2C>,
    plain: AxisRemap,
    remap: AxisRemap,
    b: Seq<u8>,
)
    requires
        plain.is_identity(),
        remap.wf(),
    ensures
        ({
            let (before, after) = (imu.with_remap(plain), imu.with_remap(remap));
            &&& after.axis_remap == remap
            &&& after.i2c == imu.i2c && after.address == imu.address
            &&& after.acc_range == imu.acc_range && after.gyro_range == imu.gyro_range
            &&& after.gyro_bias_dps == imu.gyro_bias_dps
            &&& after.decoder().acceleration(b) == remap.remapped(
                before.decoder().acceleration(b),
            )
            &&& after.decoder().rate_dps(b) == fixed::clamp_each(
                remap.remapped(before.decoder().rate_dps(b)),
            )
        }),
{
}

} // verus!
