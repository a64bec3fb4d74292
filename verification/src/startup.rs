//! Bringing a device up: identification, then configuration.
//!
//! The control registers are written only by a [`Setup`], and a [`Setup`] is
//! made only from an accepted identification.
use vstd::prelude::*;

use crate::config::{AccRange, Config, GyroRange, Odr};
use crate::driver::{ImuState, Lsm6ds3tr};
use crate::error::Error;
use crate::remap::Sign;
use crate::transfer;
use crate::transfer::Transfer;

verus! {

/// A device that is about to be identified.
pub struct Startup<I2C> {
    i2c: I2C,
    config: Config,
    address: u8,
}

/// A device to bring up: its bus, its address and the configuration to give it.
pub struct Device<I2C> {
    pub i2c: I2C,
    pub config: Config,
    pub address: u8,
}

/// The identifications that the driver accepts. The LSM6DS3TR-C reports `0x6A`;
/// the closely related LSM6DS3 reports `0x69`.
pub open spec fn is_known(id: u8) -> bool {
    id == transfer::WHO_AM_I_LSM6DS3TR_C || id == transfer::WHO_AM_I_LSM6DS3
}

/// The transfer that identifies a device.
pub open spec fn identification(address: u8) -> Transfer {
    Transfer::Read { address, register: transfer::REG_WHO_AM_I, length: 1 }
}

/// The register writes that configure a device, in order: block data update and
/// register auto-increment, the accelerometer, the gyroscope.
pub open spec fn configuration(config: Config, address: u8) -> Seq<Transfer> {
    seq![
        Transfer::Write { address, register: transfer::REG_CTRL3_C, value: 0x44 },
        Transfer::Write {
            address,
            register: transfer::REG_CTRL1_XL,
            value: config.accelerometer_control() as u8,
        },
        Transfer::Write {
            address,
            register: transfer::REG_CTRL2_G,
            value: config.gyroscope_control() as u8,
        },
    ]
}

/// What an identification leads to: configuration if the device is known, an
/// error with the unknown identification or with the failure of the bus if not.
pub open spec fn after_identification<I2C, E>(
    device: Device<I2C>,
    reply: Result<[u8; 1], E>,
) -> Result<Progress<I2C>, Error<E>> {
    match reply {
        Ok(id) => if is_known(id[0]) {
            Ok(Progress { device, written: 0 })
        } else {
            Err(Error::WrongId(id[0]))
        },
        Err(e) => Err(Error::I2c(e)),
    }
}

/// What a register write leads to: the next one, a configured device after the
/// third, or the failure of the bus.
pub open spec fn after_write<I2C, E>(
    progress: Progress<I2C>,
    reply: Result<(), E>,
) -> Result<Advance<I2C>, Error<E>> {
    match reply {
        Ok(_) => if progress.written < 2 {
            Ok(
                Advance::Continue(
                    Progress { device: progress.device, written: progress.written + 1 },
                ),
            )
        } else {
            Ok(Advance::Ready(progress.device))
        },
        Err(e) => Err(Error::I2c(e)),
    }
}

/// Whether a driver is that of a device that has just been configured.
pub open spec fn is_fresh<I2C>(imu: ImuState<I2C>, device: Device<I2C>) -> bool {
    &&& imu.i2c == device.i2c
    &&& imu.address == device.address
    &&& imu.acc_range == device.config.acc_range
    &&& imu.gyro_range == device.config.gyro_range
    &&& imu.is_uncorrected()
}

impl<I2C> View for Startup<I2C> {
    type V = Device<I2C>;

    closed spec fn view(&self) -> Device<I2C> {
        Device { i2c: self.i2c, config: self.config, address: self.address }
    }
}

impl<I2C> Startup<I2C> {
    /// A device that nothing has been asked of yet.
    pub(crate) fn begin(i2c: I2C, config: Config, address: u8) -> (startup: Self)
        ensures
            startup@ == (Device { i2c, config, address }),
    {
        Startup { i2c, config, address }
    }

    /// The bus, for carrying out the transfer.
    pub fn bus(&mut self) -> (bus: &mut I2C)
        ensures
            *bus == old(self)@.i2c,
            final(self)@ == (Device { i2c: *final(bus), ..old(self)@ }),
    {
        &mut self.i2c
    }

    /// The transfer that asks the device who it is.
    pub fn transfer(&self) -> (t: Transfer)
        ensures
            t == identification(self@.address),
    {
        Transfer::Read { address: self.address, register: transfer::REG_WHO_AM_I, length: 1 }
    }

    /// Verify identity, from the reply to [`Self::transfer`], before any control
    /// register is touched.
    pub fn identify<E>(self, reply: Result<[u8; 1], E>) -> (r: Result<Setup<I2C>, Error<E>>)
        ensures
            match after_identification(self@, reply) {
                Ok(progress) => r matches Ok(setup) && setup@ == progress,
                Err(e) => r == Err::<Setup<I2C>, Error<E>>(e),
            },
    {
        match reply {
            Ok(id) => {
                if id[0] != transfer::WHO_AM_I_LSM6DS3TR_C && id[0] != transfer::WHO_AM_I_LSM6DS3 {
                    Err(Error::WrongId(id[0]))
                } else {
                    Ok(
                        Setup {
                            i2c: self.i2c,
                            config: self.config,
                            address: self.address,
                            stage: Stage::Common,
                        },
                    )
                }
            },
            Err(e) => Err(Error::from(e)),
        }
    }
}

/// Which register is written next.
#[derive(Debug, Clone, Copy, PartialEq, Eq, Structural)]
enum Stage {
    Common,
    Accelerometer,
    Gyroscope,
}

/// An identified device that is being configured.
pub struct Setup<I2C> {
    i2c: I2C,
    config: Config,
    address: u8,
    stage: Stage,
}

/// How far the configuration of a device has come.
pub struct Progress<I2C> {
    pub device: Device<I2C>,
    /// How many registers have been written.
    pub written: int,
}

/// Where a register write has brought the configuration of a device.
pub enum Advance<I2C> {
    Continue(Progress<I2C>),
    Ready(Device<I2C>),
}

impl<I2C> View for Setup<I2C> {
    type V = Progress<I2C>;

    closed spec fn view(&self) -> Progress<I2C> {
        Progress {
            device: Device { i2c: self.i2c, config: self.config, address: self.address },
            written: match self.stage {
                Stage::Common => 0,
                Stage::Accelerometer => 1,
                Stage::Gyroscope => 2,
            },
        }
    }
}

/// What is left to do after a register has been written.
pub enum Step<I2C> {
    /// Another register is to be written.
    Continue(Setup<I2C>),
    /// The device is configured.
    Ready(Lsm6ds3tr<I2C>),
}

impl<I2C> Setup<I2C> {
    /// The bus, for carrying out the transfer.
    pub fn bus(&mut self) -> (bus: &mut I2C)
        ensures
            *bus == old(self)@.device.i2c,
            final(self)@ == (Progress {
                device: Device { i2c: *final(bus), ..old(self)@.device },
                ..old(self)@
            }),
    {
        &mut self.i2c
    }

    /// The next register write.
    pub fn transfer(&self) -> (t: Transfer)
        ensures
            0 <= self@.written < 3,
            t == configuration(self@.device.config, self@.device.address)[self@.written],
    {
        match self.stage {
            Stage::Common => {
                assert(transfer::CTRL3_C_BDU | transfer::CTRL3_C_IF_INC == 0x44) by (bit_vector);
                Transfer::Write {
                    address: self.address,
                    register: transfer::REG_CTRL3_C,
                    value: transfer::CTRL3_C_BDU | transfer::CTRL3_C_IF_INC,
                }
            },
            Stage::Accelerometer => Transfer::Write {
                address: self.address,
                register: transfer::REG_CTRL1_XL,
                value: self.config.ctrl1_xl(),
            },
            Stage::Gyroscope => Transfer::Write {
                address: self.address,
                register: transfer::REG_CTRL2_G,
                value: self.config.ctrl2_g(),
            },
        }
    }

    /// Go on, from the reply to [`Self::transfer`].
    pub fn written<E>(self, reply: Result<(), E>) -> (r: Result<Step<I2C>, Error<E>>)
        ensures
            match after_write(self@, reply) {
                Ok(Advance::Continue(progress)) => {
                    &&& r matches Ok(Step::Continue(next))
                    &&& next@ == progress
                },
                Ok(Advance::Ready(device)) => {
                    &&& r matches Ok(Step::Ready(imu))
                    &&& imu@.i2c == device.i2c
                    &&& imu@.address == device.address
                    &&& imu@.acc_range == device.config.acc_range
                    &&& imu@.gyro_range == device.config.gyro_range
                    &&& imu@.is_uncorrected()
                    &&& is_fresh(imu@, device)
                },
                Err(e) => r == Err::<Step<I2C>, Error<E>>(e),
            },
    {
        match reply {
            Ok(()) => match self.stage {
                Stage::Common => Ok(
                    Step::Continue(Setup { stage: Stage::Accelerometer, ..self }),
                ),
                Stage::Accelerometer => Ok(
                    Step::Continue(Setup { stage: Stage::Gyroscope, ..self }),
                ),
                Stage::Gyroscope => Ok(
                    Step::Ready(Lsm6ds3tr::configured(self.i2c, self.config, self.address)),
                ),
            },
            Err(e) => Err(Error::from(e)),
        }
    }
}

/// A bring-up from start to end: the transfers carried out and what came of them.
pub struct BringUp<I2C, E> {
    pub transfers: Seq<Transfer>,
    pub outcome: Result<Device<I2C>, Error<E>>,
}

/// The rest of a bring-up, when the bus answers the writes with `replies`.
pub open spec fn run_setup<I2C, E>(
    progress: Progress<I2C>,
    replies: Seq<Result<(), E>>,
) -> BringUp<I2C, E>
    decreases 3 - progress.written,
{
    let t = configuration(progress.device.config, progress.device.address)[progress.written];
    match after_write(progress, replies[0]) {
        Ok(Advance::Continue(next)) => {
            let rest = run_setup(next, replies.drop_first());
            BringUp { transfers: seq![t] + rest.transfers, outcome: rest.outcome }
        },
        Ok(Advance::Ready(device)) => BringUp { transfers: seq![t], outcome: Ok(device) },
        Err(e) => BringUp { transfers: seq![t], outcome: Err(e) },
    }
}

/// A whole bring-up, when the bus answers the identification with `id` and the
/// writes with `replies`.
pub open spec fn run_startup<I2C, E>(
    device: Device<I2C>,
    id: Result<[u8; 1], E>,
    replies: Seq<Result<(), E>>,
) -> BringUp<I2C, E> {
    let t = identification(device.address);
    match after_identification(device, id) {
        Ok(progress) => {
            let rest = run_setup(progress, replies);
            BringUp { transfers: seq![t] + rest.transfers, outcome: rest.outcome }
        },
        Err(e) => BringUp { transfers: seq![t], outcome: Err(e) },
    }
}

/// A device that does not answer, or that is not known, is not touched: the
/// identification is the only transfer, and the error tells what happened.
pub proof fn law_unknown_device_is_not_touched<I2C, E>(
    device: Device<I2C>,
    id: Result<[u8; 1], E>,
    replies: Seq<Result<(), E>>,
)
    requires
        id matches Ok(b) ==> !is_known(b[0]),
    ensures
        run_startup(device, id, replies).transfers == seq![identification(device.address)],
        run_startup(device, id, replies).outcome == match id {
            Ok(b) => Err::<Device<I2C>, Error<E>>(Error::WrongId(b[0])),
            Err(e) => Err::<Device<I2C>, Error<E>>(Error::I2c(e)),
        },
{
}

/// A known device on a working bus is identified, then given exactly the three
/// register writes of its configuration, and is ready.
pub proof fn law_known_device_is_configured<I2C, E>(
    device: Device<I2C>,
    id: Result<[u8; 1], E>,
    replies: Seq<Result<(), E>>,
)
    requires
        id matches Ok(b) && is_known(b[0]),
        replies.len() == 3,
        forall|i: int| 0 <= i < 3 ==> (#[trigger] replies[i]) is Ok,
    ensures
        run_startup(device, id, replies).transfers == seq![identification(device.address)]
            + configuration(device.config, device.address),
        run_startup(device, id, replies).outcome == Ok::<Device<I2C>, Error<E>>(device),
{
    reveal_with_fuel(run_setup, 4);
    assert(replies[0] is Ok && replies[1] is Ok && replies[2] is Ok);
    assert(replies.drop_first()[0] == replies[1]);
    assert(replies.drop_first().drop_first()[0] == replies[2]);
    assert(run_startup(device, id, replies).transfers =~= seq![identification(device.address)]
        + configuration(device.config, device.address));
}

/// The first write that fails ends the bring-up: nothing is written after it, and
/// its error is the outcome.
pub proof fn law_failed_write_ends_startup<I2C, E>(
    device: Device<I2C>,
    id: Result<[u8; 1], E>,
    replies: Seq<Result<(), E>>,
    failed: int,
)
    requires
        id matches Ok(b) && is_known(b[0]),
        0 <= failed < 3,
        failed < replies.len(),
        forall|i: int| 0 <= i < failed ==> (#[trigger] replies[i]) is Ok,
        replies[failed] is Err,
    ensures
        run_startup(device, id, replies).transfers == seq![identification(device.address)]
            + configuration(device.config, device.address).take(failed + 1),
        run_startup(device, id, replies).outcome == Err::<Device<I2C>, Error<E>>(
            Error::I2c(replies[failed]->Err_0),
        ),
{
    reveal_with_fuel(run_setup, 4);
    let all = configuration(device.config, device.address);
    if failed >= 1 {
        assert(replies[0] is Ok);
        assert(replies.drop_first()[0] == replies[1]);
    }
    if failed >= 2 {
        assert(replies[1] is Ok);
        assert(replies.drop_first().drop_first()[0] == replies[2]);
    }
    assert(run_startup(device, id, replies).transfers =~= seq![identification(device.address)]
        + all.take(failed + 1));
}

/// A driver that is ready reads the device that was brought up, in the ranges that
/// were written to it, and corrects nothing.
pub proof fn law_ready_driver_matches_the_device<I2C>(imu: ImuState<I2C>, device: Device<I2C>)
    requires
        is_fresh(imu, device),
    ensures
        imu.i2c == device.i2c,
        imu.address == device.address,
        imu.acc_range == device.config.acc_range,
        imu.gyro_range == device.config.gyro_range,
        imu.axis_remap.axes@ == seq![0usize, 1usize, 2usize],
        imu.axis_remap.signs@ == seq![Sign::Positive, Sign::Positive, Sign::Positive],
        imu.gyro_bias_dps.0.pico == 0,
        imu.gyro_bias_dps.1.pico == 0,
        imu.gyro_bias_dps.2.pico == 0,
{
    assert(imu.axis_remap.axes@ =~= seq![0usize, 1usize, 2usize]);
    assert(imu.axis_remap.signs@ =~= seq![Sign::Positive, Sign::Positive, Sign::Positive]);
}

/// Whether a byte is a control byte with a data rate in its upper half.
pub open spec fn has_rate(value: u8, rate: Odr) -> bool {
    value as int / 16 == match rate {
        Odr::Hz12_5 => 1int,
        Odr::Hz26 => 2,
        Odr::Hz52 => 3,
        Odr::Hz104 => 4,
        Odr::Hz208 => 5,
        Odr::Hz416 => 6,
        Odr::Hz833 => 7,
        Odr::Hz1660 => 8,
        Odr::Hz3330 => 9,
        Odr::Hz6660 => 10,
    }
}

/// The byte that is written to each control register, bit by bit. First register
/// 0x12 gets bits 6 (block data update) and 2 (register auto-increment). Then
/// register 0x10 gets the rate of the accelerometer in bits [7:4] and its range in
/// bits [3:2], and nothing else. Last register 0x11 gets the rate of the gyroscope in
/// bits [7:4] and its range in bits [3:2], with bit 1 set for ±125 °/s alone, and
/// nothing else.
pub proof fn law_control_registers_bit_by_bit(
    config: Config,
    address: u8,
    written: int,
    t: Transfer,
)
    requires
        0 <= written < 3,
        t == configuration(config, address)[written],
    ensures
        ({
            &&& t matches Transfer::Write { address: to, register, value }
            &&& to == address
            &&& written == 0 ==> register == 0x12 && value == 64 + 4
            &&& written == 1 ==> {
                &&& register == 0x10
                &&& has_rate(value, config.acc_odr)
                &&& (value as int / 4) % 4 == match config.acc_range {
                    AccRange::G2 => 0int,
                    AccRange::G16 => 1,
                    AccRange::G4 => 2,
                    AccRange::G8 => 3,
                }
                &&& value as int % 4 == 0
            }
            &&& written == 2 ==> {
                &&& register == 0x11
                &&& has_rate(value, config.gyro_odr)
                &&& (value as int / 4) % 4 == match config.gyro_range {
                    GyroRange::Dps125 => 0int,
                    GyroRange::Dps250 => 0,
                    GyroRange::Dps500 => 1,
                    GyroRange::Dps1000 => 2,
                    GyroRange::Dps2000 => 3,
                }
                &&& (value as int / 2) % 2 == 1 <==> config.gyro_range == GyroRange::Dps125
                &&& value as int % 2 == 0
            }
        }),
{
    crate::config::law_accelerometer_control_fields(config);
    crate::config::law_gyroscope_control_fields(config);
    assert(written == 0 || written == 1 || written == 2);
}

/// A bring-up of a device that answers 0x6A or 0x69, on a working bus: the identity
/// is read from register 0x0F, one byte; then come three writes, to 0x12, to 0x10
/// and to 0x11, whose bytes carry the configuration; all with the one device at its
/// address, which is then ready as it was given.
pub proof fn law_bring_up_writes_the_configuration<I2C, E>(
    device: Device<I2C>,
    id: [u8; 1],
    replies: Seq<Result<(), E>>,
)
    requires
        id[0] == 0x6A || id[0] == 0x69,
        replies.len() == 3,
        forall|i: int| 0 <= i < 3 ==> (#[trigger] replies[i]) is Ok,
    ensures
        ({
            let run = run_startup(device, Ok(id), replies);
            let ts = run.transfers;
            &&& run.outcome == Ok::<Device<I2C>, Error<E>>(device)
            &&& ts.len() == 4
            &&& ts[0] == (Transfer::Read { address: device.address, register: 0x0F, length: 1 })
            &&& ts[1] == (Transfer::Write {
                address: device.address,
                register: 0x12,
                value: 0b0100_0100,
            })
            &&& ts[2] matches Transfer::Write { address: a2, register: r2, value: v2 }
            &&& ts[3] matches Transfer::Write { address: a3, register: r3, value: v3 }
            &&& a2 == device.address && r2 == 0x10
            &&& a3 == device.address && r3 == 0x11
            &&& has_rate(v2, device.config.acc_odr)
            &&& v2 as int % 16 == match device.config.acc_range {
                AccRange::G2 => 0b0000int,
                AccRange::G16 => 0b0100,
                AccRange::G4 => 0b1000,
                AccRange::G8 => 0b1100,
            }
            &&& has_rate(v3, device.config.gyro_odr)
            &&& v3 as int % 16 == match device.config.gyro_range {
                GyroRange::Dps125 => 0b0010int,
                GyroRange::Dps250 => 0b0000,
                GyroRange::Dps500 => 0b0100,
                GyroRange::Dps1000 => 0b1000,
                GyroRange::Dps2000 => 0b1100,
            }
        }),
{
    law_known_device_is_configured(device, Ok(id), replies);
    let all = configuration(device.config, device.address);
    law_control_registers_bit_by_bit(device.config, device.address, 0, all[0]);
    law_control_registers_bit_by_bit(device.config, device.address, 1, all[1]);
    law_control_registers_bit_by_bit(device.config, device.address, 2, all[2]);
    let run = run_startup(device, Ok(id), replies);
    assert(run.transfers[0] == identification(device.address));
    assert(run.transfers[1] == all[0]);
    assert(run.transfers[2] == all[1]);
    assert(run.transfers[3] == all[2]);
}

/// A device that answers anything but 0x6A and 0x69 is refused with its answer, one
/// that does not answer with the error of the bus; either way the one transfer is
/// the read of register 0x0F.
pub proof fn law_only_two_identities_are_accepted<I2C, E>(
    device: Device<I2C>,
    id: Result<[u8; 1], E>,
    replies: Seq<Result<(), E>>,
)
    requires
        id matches Ok(b) ==> b[0] != 0x6A && b[0] != 0x69,
    ensures
        ({
            let run = run_startup(device, id, replies);
            &&& run.transfers == seq![
                Transfer::Read { address: device.address, register: 0x0F, length: 1 },
            ]
            &&& id matches Ok(b) ==> run.outcome == Err::<Device<I2C>, Error<E>>(
                Error::WrongId(b[0]),
            )
            &&& id matches Err(e) ==> run.outcome == Err::<Device<I2C>, Error<E>>(Error::I2c(e))
        }),
{
}

/// A write that fails is the last transfer of a bring-up, the first of them being
/// the read of the identity.
pub proof fn law_nothing_follows_a_failed_write<I2C, E>(
    device: Device<I2C>,
    id: [u8; 1],
    replies: Seq<Result<(), E>>,
    failed: int,
)
    requires
        id[0] == 0x6A || id[0] == 0x69,
        0 <= failed < 3,
        failed < replies.len(),
        forall|i: int| 0 <= i < failed ==> (#[trigger] replies[i]) is Ok,
        replies[failed] is Err,
    ensures
        ({
            let run = run_startup(device, Ok(id), replies);
            &&& run.transfers.len() == failed + 2
            &&& run.outcome == Err::<Device<I2C>, Error<E>>(
                Error::I2c(replies[failed]->Err_0),
            )
            &&& forall|k: int| 0 <= k <= failed ==> {
                &&& (#[trigger] run.transfers[k + 1]) matches Transfer::Write {
                    address,
                    register,
                    ..
                }
                &&& address == device.address
                &&& register == seq![0x12u8, 0x10u8, 0x11u8][k]
            }
        }),
{
    law_failed_write_ends_startup(device, Ok(id), replies, failed);
    let run = run_startup(device, Ok(id), replies);
    let all = configuration(device.config, device.address);
    assert forall|k: int| 0 <= k <= failed implies {
        &&& (#[trigger] run.transfers[k + 1]) matches Transfer::Write { address, register, .. }
        &&& address == device.address
        &&& register == seq![0x12u8, 0x10u8, 0x11u8][k]
    } by {
        assert(run.transfers[k + 1] == all[k]);
        law_control_registers_bit_by_bit(device.config, device.address, k, all[k]);
        assert(k == 0 || k == 1 || k == 2);
    }
}

} // verus!
