use lsm6ds3tr::{
    AccRange, AxisRemap, Config, Error, Fixed, GyroRange, Lsm6ds3tr, Odr, Sign, Step, Transfer,
    DEFAULT_ADDRESS, ONE,
};

/// A bus that records its transfers and fails one of them.
struct Bus {
    log: Vec<Transfer>,
    id: u8,
    fail_at: Option<usize>,
}

impl Bus {
    fn new(id: u8, fail_at: Option<usize>) -> Bus {
        Bus { log: Vec::new(), id, fail_at }
    }

    fn carry_out(&mut self, t: Transfer) -> Result<(), &'static str> {
        self.log.push(t);
        if self.fail_at == Some(self.log.len() - 1) {
            Err("nack")
        } else {
            Ok(())
        }
    }
}

type Started = Result<Lsm6ds3tr<Bus>, Error<&'static str>>;

/// Brings a device up, and gives the log of the bus as it was at the end.
fn bring_up(bus: Bus, config: Config, address: u8) -> (Started, Vec<Transfer>) {
    let mut startup = Lsm6ds3tr::new_with_address(bus, config, address);
    let t = startup.transfer();
    let id = startup.bus().id;
    let reply = startup.bus().carry_out(t).map(|_| [id]);
    let mut log = startup.bus().log.clone();
    let mut setup = match startup.identify(reply) {
        Ok(setup) => setup,
        Err(e) => return (Err(e), log),
    };
    loop {
        let t = setup.transfer();
        let reply = setup.bus().carry_out(t);
        log = setup.bus().log.clone();
        match setup.written(reply) {
            Ok(Step::Continue(next)) => setup = next,
            Ok(Step::Ready(imu)) => return (Ok(imu), log),
            Err(e) => return (Err(e), log),
        }
    }
}

fn ready(config: Config) -> Lsm6ds3tr<Bus> {
    match bring_up(Bus::new(0x6A, None), config, DEFAULT_ADDRESS).0 {
        Ok(imu) => imu,
        Err(_) => panic!("device not ready"),
    }
}

fn config() -> Config {
    Config {
        acc_range: AccRange::G8,
        acc_odr: Odr::Hz833,
        gyro_range: GyroRange::Dps125,
        gyro_odr: Odr::Hz26,
    }
}

fn expected(address: u8) -> Vec<Transfer> {
    vec![
        Transfer::Read { address, register: 0x0F, length: 1 },
        Transfer::Write { address, register: 0x12, value: 0x44 },
        Transfer::Write { address, register: 0x10, value: 0x7C },
        Transfer::Write { address, register: 0x11, value: 0x22 },
    ]
}

fn block(x: i16, y: i16, z: i16) -> [u8; 6] {
    let (x, y, z) = (x.to_le_bytes(), y.to_le_bytes(), z.to_le_bytes());
    [x[0], x[1], y[0], y[1], z[0], z[1]]
}

fn picos(v: (Fixed, Fixed, Fixed)) -> (i128, i128, i128) {
    (v.0.pico, v.1.pico, v.2.pico)
}

#[test]
fn default_address() {
    assert_eq!(DEFAULT_ADDRESS, 0x6A);
    let startup = Lsm6ds3tr::new((), Config::default());
    assert_eq!(startup.transfer(), Transfer::Read { address: 0x6A, register: 0x0F, length: 1 });
}

#[test]
fn known_devices_are_configured() {
    for id in [0x6A, 0x69] {
        let (imu, log) = bring_up(Bus::new(id, None), config(), 0x6B);
        assert!(imu.is_ok());
        assert_eq!(log, expected(0x6B));
    }
}

#[test]
fn unknown_device_is_not_touched() {
    for id in [0x00, 0x68, 0x6B, 0xFF] {
        let (imu, log) = bring_up(Bus::new(id, None), config(), 0x6A);
        assert!(matches!(imu, Err(Error::WrongId(found)) if found == id));
        assert_eq!(log, expected(0x6A)[..1].to_vec());
    }
}

#[test]
fn failed_transfer_ends_the_startup() {
    for n in 0..4 {
        let (imu, log) = bring_up(Bus::new(0x6A, Some(n)), config(), 0x6A);
        assert!(matches!(imu, Err(Error::I2c("nack"))));
        assert_eq!(log, expected(0x6A)[..n + 1].to_vec());
    }
}

#[test]
fn fresh_driver_corrects_nothing() {
    let imu = ready(config());
    let d = imu.decoder();
    assert_eq!(d.acc_range, AccRange::G8);
    assert_eq!(d.gyro_range, GyroRange::Dps125);
    assert_eq!(d.axis_remap.axes, [0, 1, 2]);
    assert_eq!(d.axis_remap.signs, [Sign::Positive; 3]);
    assert_eq!(picos(imu.gyro_bias_dps()), (0, 0, 0));
}

#[test]
fn transfers_of_the_readings() {
    let imu = ready(config());
    let read = |register, length| Transfer::Read { address: 0x6A, register, length };
    assert_eq!(imu.accelerometer_transfer(), read(0x28, 6));
    assert_eq!(imu.gyroscope_transfer(), read(0x22, 6));
    assert_eq!(imu.temperature_transfer(), read(0x20, 2));
}

#[test]
fn readings_are_those_of_the_decoder() {
    let mut imu = ready(config());
    imu.set_axis_remap(AxisRemap {
        axes: [2, 0, 1],
        signs: [Sign::Negative, Sign::Positive, Sign::Negative],
    });
    let b = block(-1000, 2000, 3000);
    let reply: Result<[u8; 6], ()> = Ok(b);
    let d = imu.decoder();
    assert_eq!(imu.read_accelerometer(reply).unwrap(), d.decode_accelerometer(&b));
    assert_eq!(imu.read_gyroscope_dps(reply).unwrap(), d.decode_gyroscope_dps(&b));
    assert_eq!(imu.read_gyroscope(reply).unwrap(), d.decode_gyroscope(&b));
    // 0.244 mg and 4.375 mdps per count.
    assert_eq!(
        picos(imu.read_accelerometer(reply).unwrap()),
        (-732_000_000_000, -244_000_000_000, -488_000_000_000)
    );
    assert_eq!(
        picos(imu.read_gyroscope_dps(reply).unwrap()),
        (-13_125_000_000_000, -4_375_000_000_000, -8_750_000_000_000)
    );
}

#[test]
fn acceleration_in_metres_per_second_squared() {
    let imu = ready(Config { acc_range: AccRange::G2, ..config() });
    let reply: Result<[u8; 6], ()> = Ok(block(1, -1, i16::MIN));
    assert_eq!(
        picos(imu.read_accelerometer_ms2(reply).unwrap()),
        (598_205_650, -598_205_650, -32_768 * 598_205_650)
    );
}

#[test]
fn temperature_is_offset_by_25_degrees() {
    let imu = ready(config());
    let celsius = |raw: i16| {
        let reply: Result<[u8; 2], ()> = Ok(raw.to_le_bytes());
        imu.read_temperature(reply).unwrap().pico
    };
    assert_eq!(celsius(0), 25 * ONE);
    assert_eq!(celsius(256), 26 * ONE);
    assert_eq!(celsius(-256), 24 * ONE);
    assert_eq!(celsius(1), 25_003_906_250_000);
    assert_eq!(celsius(i16::MIN), -103 * ONE);
}

#[test]
fn bus_errors_are_passed_on() {
    let imu = ready(config());
    let six: Result<[u8; 6], u8> = Err(9);
    let two: Result<[u8; 2], u8> = Err(7);
    assert_eq!(imu.read_accelerometer(six), Err(Error::I2c(9)));
    assert_eq!(imu.read_accelerometer_ms2(six), Err(Error::I2c(9)));
    assert_eq!(imu.read_gyroscope(six), Err(Error::I2c(9)));
    assert_eq!(imu.read_gyroscope_dps(six), Err(Error::I2c(9)));
    assert_eq!(imu.read_temperature(two), Err(Error::I2c(7)));
    assert_eq!(Error::from(3u8), Error::I2c(3u8));
}

#[test]
fn release_gives_the_bus_back() {
    let mut imu = ready(config());
    imu.bus().id = 0x42;
    let bus = imu.release();
    assert_eq!(bus.id, 0x42);
    assert_eq!(bus.log, expected(0x6A));
}

/// Runs a calibration over the given replies.
fn calibrate(
    imu: &mut Lsm6ds3tr<Bus>,
    replies: &[Result<[u8; 6], u8>],
    samples: u32,
) -> Result<usize, Error<u8>> {
    let mut calibration = match imu.calibrate_gyro(samples) {
        Some(c) => c,
        None => return Ok(0),
    };
    for (i, reply) in replies.iter().enumerate() {
        match imu.calibration_sample(calibration, *reply) {
            Ok(Some(next)) => calibration = next,
            Ok(None) => return Ok(i + 1),
            Err(e) => return Err(e),
        }
    }
    panic!("more measurements wanted")
}

fn turned() -> AxisRemap {
    AxisRemap { axes: [1, 0, 2], signs: [Sign::Positive, Sign::Negative, Sign::Positive] }
}

#[test]
fn bias_is_the_average() {
    let mut imu = ready(config());
    imu.set_axis_remap(turned());
    let replies = [Ok(block(1, -1, 10)), Ok(block(2, -2, 20)), Ok(block(2, -2, 30))];
    assert_eq!(calibrate(&mut imu, &replies, 3), Ok(3));
    // 4.375 mdps per count: 5/3, -5/3 and 20 counts.
    assert_eq!(
        picos(imu.gyro_bias_dps()),
        (7_291_666_667, -7_291_666_667, 87_500_000_000)
    );
    // The remap is as it was.
    assert_eq!(imu.decoder().axis_remap.axes, [1, 0, 2]);
    assert_eq!(imu.decoder().axis_remap.signs, turned().signs);
}

#[test]
fn bias_does_not_depend_on_the_remap() {
    let replies = [Ok(block(7, -8, 9)), Ok(block(-100, 50, 1))];
    let mut plain = ready(config());
    let mut mounted = ready(config());
    mounted.set_axis_remap(turned());
    assert_eq!(calibrate(&mut plain, &replies, 2), Ok(2));
    assert_eq!(calibrate(&mut mounted, &replies, 2), Ok(2));
    assert_eq!(plain.gyro_bias_dps(), mounted.gyro_bias_dps());
}

#[test]
fn still_device_reads_zero_after_calibration() {
    let mut imu = ready(config());
    imu.set_axis_remap(turned());
    let reply = Ok(block(13, -14, 15));
    assert_eq!(calibrate(&mut imu, &[reply; 7], 7), Ok(7));
    assert_eq!(picos(imu.read_gyroscope_dps(reply).unwrap()), (0, 0, 0));
    assert_eq!(picos(imu.read_gyroscope(reply).unwrap()), (0, 0, 0));
    // A second calibration does not start from the first.
    assert_eq!(calibrate(&mut imu, &[reply; 2], 2), Ok(2));
    assert_eq!(picos(imu.read_gyroscope_dps(reply).unwrap()), (0, 0, 0));
}

#[test]
fn no_samples_change_nothing() {
    let mut imu = ready(config());
    imu.set_axis_remap(turned());
    let reply = Ok(block(13, -14, 15));
    assert_eq!(calibrate(&mut imu, &[reply], 1), Ok(1));
    let bias = imu.gyro_bias_dps();
    assert_eq!(calibrate(&mut imu, &[], 0), Ok(0));
    assert_eq!(imu.gyro_bias_dps(), bias);
    assert_eq!(imu.decoder().axis_remap.axes, [1, 0, 2]);
}

#[test]
fn failed_calibration_keeps_the_remap() {
    let mut imu = ready(config());
    let reply = Ok(block(13, -14, 15));
    assert_eq!(calibrate(&mut imu, &[reply], 1), Ok(1));
    imu.set_axis_remap(turned());
    assert_eq!(calibrate(&mut imu, &[reply, Err(5)], 3), Err(Error::I2c(5)));
    assert_eq!(picos(imu.gyro_bias_dps()), (0, 0, 0));
    assert_eq!(imu.decoder().axis_remap.axes, turned().axes);
    assert_eq!(imu.decoder().axis_remap.signs, turned().signs);
}

#[test]
fn abandoned_calibration_keeps_the_remap() {
    let mut imu = ready(config());
    imu.set_axis_remap(turned());
    assert!(imu.calibrate_gyro(3).is_some());
    assert_eq!(picos(imu.gyro_bias_dps()), (0, 0, 0));
    assert_eq!(imu.decoder().axis_remap.axes, turned().axes);
    assert_eq!(imu.decoder().axis_remap.signs, turned().signs);
}
