use lsm6ds3tr::{
    AdaptiveBeta, Config, Error, FilterStep, Fixed, Gain, Long, Lsm6ds3tr, Lsm6ds3trAhrs,
    MadgwickAhrs, Progress, Sampling, Step, Transfer, ONE,
};

type Filter = MadgwickAhrs<u32>;

fn fixed(x: f64) -> Fixed {
    Fixed { pico: (x * ONE as f64).round() as i128 }
}

/// A number that a single limb can hold.
fn short(x: Long) -> i128 {
    assert_eq!(x.high, if (x.low as i128) < 0 { -1 } else { 0 });
    x.low as i128
}

fn long(pico: i128) -> Long {
    Long::zero().plus(Fixed { pico })
}

fn vector(x: f64, y: f64, z: f64) -> [Fixed; 3] {
    [fixed(x), fixed(y), fixed(z)]
}

fn adaptive(still_min_s: f64) -> Filter {
    let mut filter = Filter::new(fixed(0.1), 0);
    let tol = fixed(0.15);
    filter.set_motion_adaptive(fixed(0.6), fixed(0.4), tol, tol, fixed(still_min_s));
    filter
}

/// The decay time of a boost, or nothing for the base gain.
fn boost(step: &FilterStep<u32>) -> Option<i128> {
    match step.gain {
        Gain::Base(beta) => {
            assert_eq!(beta, fixed(0.1));
            None
        }
        Gain::Boost { base, peak, elapsed, tau } => {
            assert_eq!((base, peak, tau), (fixed(0.1), fixed(0.6), fixed(0.4)));
            Some(short(elapsed))
        }
    }
}

fn still(filter: &mut Filter, dt: f64) -> Option<i128> {
    boost(&filter.update(vector(0.0, 0.0, 0.0), vector(0.0, 0.0, 1.0), fixed(dt)))
}

fn moving(filter: &mut Filter, dt: f64) -> Option<i128> {
    boost(&filter.update(vector(0.0, 0.0, 1.0), vector(0.0, 0.0, 1.0), fixed(dt)))
}

#[test]
fn gate_needs_both_sensors() {
    let a = AdaptiveBeta {
        beta_peak: fixed(0.6),
        decay_tau: fixed(0.4),
        accel_tol_g: fixed(0.15),
        gyro_tol_rad_s: fixed(0.15),
        still_min_s: fixed(0.0),
    };
    let rest = vector(0.0, 0.0, 0.0);
    assert!(a.is_still(rest, vector(0.6, 0.0, 0.8)));
    assert!(a.is_still(vector(0.0, -0.149, 0.0), vector(0.0, 0.0, -1.149)));
    assert!(a.is_still(rest, vector(0.851, 0.0, 0.0)));
    // The bounds themselves are out.
    assert!(!a.is_still(rest, vector(0.0, 1.15, 0.0)));
    assert!(!a.is_still(rest, vector(0.0, 0.85, 0.0)));
    assert!(!a.is_still(vector(0.09, 0.0, 0.12), vector(0.0, 0.0, 1.0)));
    assert!(a.is_still(vector(0.09, 0.0, 0.119), vector(0.0, 0.0, 1.0)));
    assert!(!a.is_still(vector(0.2, 0.0, 0.0), vector(0.0, 0.0, 1.0)));
    assert!(!a.is_still(rest, rest));
}

#[test]
fn gate_with_extreme_tolerances() {
    let gate = |accel, gyro| AdaptiveBeta {
        beta_peak: fixed(0.6),
        decay_tau: fixed(0.4),
        accel_tol_g: fixed(accel),
        gyro_tol_rad_s: fixed(gyro),
        still_min_s: fixed(0.0),
    };
    let rest = vector(0.0, 0.0, 0.0);
    let up = vector(0.0, 0.0, 1.0);
    assert!(!gate(0.0, 1.0).is_still(rest, up));
    assert!(!gate(-1.0, 1.0).is_still(rest, up));
    assert!(!gate(1.0, 0.0).is_still(rest, up));
    assert!(!gate(1.0, 1.0).is_still(rest, rest));
    assert!(gate(1.5, 1.0).is_still(rest, rest));
    let far = [Fixed { pico: i128::MIN }; 3];
    assert!(!gate(1.0, 1.0).is_still(far, up));
    assert!(!gate(1.0, 1.0).is_still(rest, far));
}

#[test]
fn gain_is_constant_unless_adaptive() {
    let mut filter = Filter::new(fixed(0.1), 0);
    for _ in 0..5 {
        assert_eq!(still(&mut filter, 10.0), None);
    }
    filter.set_motion_adaptive(fixed(0.6), fixed(0.4), fixed(0.15), fixed(0.15), fixed(0.0));
    assert_eq!(still(&mut filter, 1.0), Some(ONE));
    filter.clear_motion_adaptive();
    assert_eq!(still(&mut filter, 1.0), None);
}

#[test]
fn boost_engages_after_the_minimum() {
    let mut filter = adaptive(0.4);
    assert_eq!(still(&mut filter, 0.1), None);
    assert_eq!(still(&mut filter, 0.1), None);
    assert_eq!(still(&mut filter, 0.1), None);
    assert_eq!(still(&mut filter, 0.1), Some(0));
    assert_eq!(still(&mut filter, 0.1), Some(ONE / 10));
    assert_eq!(still(&mut filter, 0.25), Some(35 * ONE / 100));
    assert_eq!(moving(&mut filter, 0.1), None);
    assert_eq!(still(&mut filter, 0.3), None);
    assert_eq!(still(&mut filter, 0.3), Some(2 * ONE / 10));
}

#[test]
fn short_pauses_never_boost() {
    let mut filter = adaptive(0.4);
    for _ in 0..100 {
        assert_eq!(still(&mut filter, 0.2), None);
        assert_eq!(still(&mut filter, 0.19), None);
        assert_eq!(moving(&mut filter, 0.5), None);
    }
}

#[test]
fn zero_minimum_boosts_at_once() {
    let mut filter = adaptive(0.0);
    assert_eq!(still(&mut filter, 0.02), Some(2 * ONE / 100));
    assert_eq!(moving(&mut filter, 0.02), None);
    assert_eq!(still(&mut filter, 0.0), Some(0));
}

#[test]
fn long_pauses_add_up() {
    let mut filter = adaptive(0.0);
    let forever = Fixed { pico: i128::MAX };
    let back = Fixed { pico: i128::MIN };
    let (rest, up) = (vector(0.0, 0.0, 0.0), vector(0.0, 0.0, 1.0));
    let mut after = |dt| match filter.update(rest, up, dt).gain {
        Gain::Boost { elapsed, .. } => Some(elapsed),
        Gain::Base(_) => None,
    };
    assert_eq!(after(forever), Some(Long { high: 0, low: u128::MAX / 2 }));
    assert_eq!(after(forever), Some(Long { high: 0, low: u128::MAX - 1 }));
    assert_eq!(after(forever), Some(Long { high: 1, low: u128::MAX / 2 - 2 }));
    assert_eq!(after(back), Some(Long { high: 0, low: u128::MAX - 2 }));
    assert_eq!(after(back), Some(Long { high: 0, low: u128::MAX / 2 - 2 }));
    assert_eq!(after(back), None);
    assert_eq!(after(fixed(1.0)), Some(Long { high: 0, low: ONE as u128 - 3 }));
}

#[test]
fn long_minimum_is_kept() {
    let mut filter = Filter::new(fixed(0.1), 0);
    let (tol, never) = (fixed(0.15), Fixed { pico: i128::MAX });
    filter.set_motion_adaptive(fixed(0.6), fixed(0.4), tol, tol, never);
    assert_eq!(still(&mut filter, 1e20), None);
    let always = Fixed { pico: i128::MIN };
    filter.set_motion_adaptive(fixed(0.6), fixed(0.4), tol, tol, always);
    let (rest, up) = (vector(0.0, 0.0, 0.0), vector(0.0, 0.0, 1.0));
    match filter.update(rest, up, fixed(0.0)).gain {
        Gain::Boost { elapsed, .. } => {
            assert_eq!(elapsed, long(i128::MAX).plus(fixed(1e20)).plus(Fixed { pico: 1 }));
        }
        Gain::Base(_) => panic!("boost expected"),
    }
}

#[test]
fn longs_saturate() {
    let low = Long { high: i128::MIN, low: 0 };
    let high = Long { high: i128::MAX, low: u128::MAX };
    let (one, less) = (fixed(1.0), fixed(-1.0));
    assert_eq!(short(Long::zero().plus(one)), ONE);
    assert_eq!(short(Long::zero().minus(one)), -ONE);
    assert_eq!(Long::zero().minus(one).plus(one), Long::zero());
    assert_eq!(high.plus(one), high);
    assert_eq!(high.minus(less), high);
    assert_eq!(low.minus(one), low);
    assert_eq!(low.plus(less), low);
}

fn enable(filter: &mut Filter, still_min_s: f64) {
    let tol = fixed(0.15);
    filter.set_motion_adaptive(fixed(0.6), fixed(0.4), tol, tol, fixed(still_min_s));
}

#[test]
fn sample_without_the_gain_starts_anew() {
    let mut filter = adaptive(1.0);
    assert_eq!(still(&mut filter, 0.5), None);
    filter.clear_motion_adaptive();
    assert_eq!(moving(&mut filter, 0.5), None);
    enable(&mut filter, 1.0);
    assert_eq!(still(&mut filter, 0.5), None);
    assert_eq!(still(&mut filter, 0.5), Some(0));
    // Not even a device that stayed still is known to have done so.
    filter.clear_motion_adaptive();
    assert_eq!(still(&mut filter, 5.0), None);
    enable(&mut filter, 1.0);
    assert_eq!(still(&mut filter, 0.5), None);
}

#[test]
fn gain_cleared_and_set_between_samples_goes_on() {
    let mut filter = adaptive(1.0);
    assert_eq!(still(&mut filter, 0.5), None);
    filter.clear_motion_adaptive();
    enable(&mut filter, 1.0);
    assert_eq!(still(&mut filter, 0.5), Some(0));
}

#[test]
fn new_settings_take_over_the_still_time() {
    let mut filter = adaptive(1.0);
    assert_eq!(still(&mut filter, 0.5), None);
    enable(&mut filter, 0.75);
    assert_eq!(still(&mut filter, 0.5), Some(ONE / 4));
}

#[test]
fn boost_decays_from_peak_to_base() {
    let gain = Gain::Boost {
        base: fixed(0.1),
        peak: fixed(0.6),
        elapsed: long(ONE / 5),
        tau: fixed(0.4),
    };
    let beta = |decay| short(gain.beta(fixed(decay)));
    assert_eq!(beta(1.0), fixed(0.6).pico);
    assert_eq!(beta(0.5), fixed(0.35).pico);
    assert_eq!(beta(0.25), fixed(0.225).pico);
    assert_eq!(beta(0.0), fixed(0.1).pico);
    assert_eq!(beta(2.0), fixed(1.1).pico);
    assert_eq!(beta(-1.0), fixed(-0.4).pico);
    // Half a trillionth is rounded up.
    let tiny = |peak, decay| {
        let (base, elapsed, tau) = (fixed(0.0), Long::zero(), fixed(1.0));
        let gain = Gain::Boost { base, peak: Fixed { pico: peak }, elapsed, tau };
        short(gain.beta(fixed(decay)))
    };
    assert_eq!(tiny(1, 0.5), 1);
    assert_eq!(tiny(1, 0.499), 0);
    assert_eq!(tiny(-1, 0.5), 0);
    assert_eq!(tiny(-1, 0.501), -1);
    assert_eq!(tiny(-3, 0.5), -1);
    assert_eq!(short(Gain::Base(fixed(0.1)).beta(fixed(0.5))), fixed(0.1).pico);
    assert_eq!(short(Gain::Base(fixed(-0.1)).beta(fixed(0.5))), fixed(-0.1).pico);
}

#[test]
fn extreme_boosts_are_exact() {
    let (low, high) = (Fixed { pico: i128::MIN }, Fixed { pico: i128::MAX });
    let gain = |base, peak| Gain::Boost { base, peak, elapsed: Long::zero(), tau: fixed(1.0) };
    assert_eq!(gain(low, high).beta(fixed(1.0)), long(i128::MAX));
    assert_eq!(gain(high, low).beta(fixed(1.0)), long(i128::MIN));
    assert_eq!(gain(fixed(0.0), fixed(1.0)).beta(high), long(i128::MAX));
    assert_eq!(gain(fixed(0.0), fixed(-2.0)).beta(high), long(-i128::MAX).plus(high.negated()));
    // -2^127 + 2 * (2^128 - 1)
    let twice = gain(low, high).beta(fixed(2.0));
    assert_eq!(twice, Long { high: 1, low: u128::MAX / 2 - 1 });
    // (2^127)^2 / 10^12
    let square = gain(fixed(0.0), low).beta(low);
    let quotient = (1i128 << 126) / ONE;
    assert_eq!(square.high, quotient);
}

#[test]
fn gate_compares_extreme_magnitudes() {
    let at = |pico| Fixed { pico };
    let gate = |tol| AdaptiveBeta {
        beta_peak: fixed(0.6),
        decay_tau: fixed(0.4),
        accel_tol_g: at(i128::MAX),
        gyro_tol_rad_s: at(tol),
        still_min_s: fixed(0.0),
    };
    let up = vector(0.0, 0.0, 1.0);
    let big = 1i128 << 120;
    // Three, four and five.
    let long = [at(3 * big), at(0), at(-4 * big)];
    assert!(!gate(5 * big).is_still(long, up));
    assert!(gate(5 * big + 1).is_still(long, up));
    assert!(!gate(i128::MAX).is_still([at(i128::MIN); 3], up));
    assert!(gate(i128::MAX).is_still([at(i128::MAX - 1), at(0), at(0)], up));
    assert!(!gate(i128::MAX).is_still([at(i128::MAX - 1), at(1 << 80), at(0)], up));
    let rest = vector(0.0, 0.0, 0.0);
    assert!(gate(1).is_still(rest, [at(i128::MIN), at(0), at(0)]));
    assert!(!gate(1).is_still(rest, [at(i128::MIN), at(1 << 100), at(0)]));
}

#[test]
fn filter_runs_from_the_last_orientation() {
    let mut filter = Filter::new(fixed(0.1), 7);
    let gyro = vector(0.1, 0.2, 0.3);
    let accel = vector(0.0, 0.0, 1.0);
    let step = filter.update(gyro, accel, fixed(0.01));
    assert_eq!(step.quat, 7);
    assert_eq!(step.dt, fixed(0.01));
    assert_eq!(step.gyro, gyro);
    assert_eq!(step.accel, accel);
    let done: Result<u32, ()> = Ok(8);
    assert_eq!(filter.finish_update(step, done), (gyro, 8));
    assert_eq!(filter.quat(), 8);
    // A failed run keeps the orientation.
    let step = filter.update(gyro, vector(0.0, 0.0, 0.0), fixed(0.01));
    assert_eq!(step.quat, 8);
    assert_eq!(filter.finish_update(step, Err(())), (gyro, 8));
    assert_eq!(filter.quat(), 8);
}

#[test]
fn reset_needs_a_direction() {
    let filter = Filter::new(fixed(0.1), 7);
    assert_eq!(filter.reset_orientation_from_accel(vector(0.0, 0.0, 0.0)), None);
    assert_eq!(filter.reset_orientation_from_accel(vector(0.0, 9e-7, 0.0)), None);
    let smallest = vector(0.0, -1e-6, 0.0);
    assert_eq!(filter.reset_orientation_from_accel(smallest), Some(smallest));
    let up = vector(0.6, 0.0, 0.8);
    assert_eq!(filter.reset_orientation_from_accel(up), Some(up));
}

#[test]
fn reset_sets_the_orientation_and_the_still_time() {
    let mut filter = adaptive(0.4);
    assert_eq!(still(&mut filter, 0.3), None);
    filter.finish_reset(Some(11), 12);
    assert_eq!(filter.quat(), 11);
    assert_eq!(still(&mut filter, 0.3), None);
    filter.finish_reset(None, 12);
    assert_eq!(filter.quat(), 12);
}

fn device() -> Lsm6ds3trAhrs<u8, u32> {
    let id: Result<[u8; 1], ()> = Ok([0x6A]);
    let mut setup = Lsm6ds3tr::new(77u8, Config::default()).identify(id).unwrap();
    loop {
        let done: Result<(), ()> = Ok(());
        match setup.written(done).unwrap() {
            Step::Continue(next) => setup = next,
            Step::Ready(imu) => return Lsm6ds3trAhrs::new(imu, fixed(0.1), 1),
        }
    }
}

const ACCEL: [u8; 6] = [0, 0, 0, 0, 0x05, 0x20]; // 8197 counts, 1.000034 g
const GYRO: [u8; 6] = [1, 0, 0xFF, 0xFF, 0, 0];

#[test]
fn update_reads_accelerometer_then_gyroscope() {
    let mut device = device();
    device.set_motion_adaptive(fixed(0.6), fixed(0.4), fixed(0.15), fixed(0.15), fixed(0.0));
    let first = Sampling::Accelerometer;
    assert_eq!(
        device.transfer(&first),
        Transfer::Read { address: 0x6A, register: 0x28, length: 6 }
    );
    let reply: Result<[u8; 6], u8> = Ok(ACCEL);
    let second = match device.sample(first, reply) {
        Ok(Progress::Next(next)) => next,
        _ => panic!("gyroscope reading expected"),
    };
    assert_eq!(
        device.transfer(&second),
        Transfer::Read { address: 0x6A, register: 0x22, length: 6 }
    );
    let reply: Result<[u8; 6], u8> = Ok(GYRO);
    let step = match device.sample(second, reply) {
        Ok(Progress::Complete { gyro, accel }) => device.update(gyro, accel, fixed(0.02)),
        _ => panic!("complete sample expected"),
    };
    // The same registers, relayed, give the same sample.
    let mut block = [0u8; 12];
    block[0..6].copy_from_slice(&GYRO);
    block[6..12].copy_from_slice(&ACCEL);
    let sample = device.imu().decoder().decode_block(&block);
    assert_eq!(step.gyro, sample.gyro_rads);
    assert_eq!(step.accel, sample.accel_g);
    assert_eq!(step.accel[2].pico, 8197 * 122_000_000);
    assert_eq!(step.gyro[0].pico, 305_432_619);
    assert_eq!(boost(&step), Some(2 * ONE / 100));
    let gyro = step.gyro;
    let done: Result<u32, ()> = Ok(5);
    assert_eq!(device.finish_update(step, done), (gyro, 5));
    assert_eq!(device.ahrs().quat(), 5);
    assert_eq!(device.release(), 77);
}

#[test]
fn quaternion_alone() {
    let mut device = device();
    let step = device.update(vector(0.0, 0.0, 0.0), vector(0.0, 0.0, 1.0), fixed(0.1));
    let done: Result<u32, ()> = Ok(9);
    assert_eq!(device.get_quaternion(step, done), 9);
}

#[test]
fn failed_reading_leaves_the_filter_alone() {
    let mut device = device();
    device.set_motion_adaptive(fixed(0.6), fixed(0.4), fixed(0.15), fixed(0.15), fixed(0.4));
    let failed: Result<[u8; 6], u8> = Err(3);
    let first = Sampling::Accelerometer;
    assert!(matches!(device.sample(first, failed), Err(Error::I2c(3))));
    let reply: Result<[u8; 6], u8> = Ok(ACCEL);
    let second = match device.sample(first, reply) {
        Ok(Progress::Next(next)) => next,
        _ => panic!("gyroscope reading expected"),
    };
    assert!(matches!(device.sample(second, failed), Err(Error::I2c(3))));
    // No time has passed for the filter.
    assert_eq!(still(device.ahrs(), 0.3), None);
    device.clear_motion_adaptive();
    assert_eq!(device.ahrs().quat(), 1);
}

#[test]
fn sample_is_that_of_an_update() {
    let device = device();
    let first: Result<[u8; 6], u8> = Ok(ACCEL);
    let second: Result<[u8; 6], u8> = Ok(GYRO);
    let next = match device.sample(Sampling::Accelerometer, first) {
        Ok(Progress::Next(next)) => next,
        _ => panic!("gyroscope reading expected"),
    };
    assert!(matches!(device.sample(next, Err(4u8)), Err(Error::I2c(4))));
    match device.sample(next, second) {
        Ok(Progress::Complete { gyro, accel }) => {
            assert_eq!(gyro.map(|x| x.pico), [305_432_619, -305_432_619, 0]);
            assert_eq!(accel.map(|x| x.pico), [0, 0, 8197 * 122_000_000]);
        }
        _ => panic!("complete sample expected"),
    }
}

#[test]
fn sample_without_the_gain_starts_anew_on_a_device() {
    let mut device = device();
    let tol = fixed(0.15);
    device.set_motion_adaptive(fixed(0.6), fixed(0.4), tol, tol, fixed(1.0));
    assert_eq!(still(device.ahrs(), 0.5), None);
    device.clear_motion_adaptive();
    assert_eq!(moving(device.ahrs(), 0.5), None);
    device.set_motion_adaptive(fixed(0.6), fixed(0.4), tol, tol, fixed(1.0));
    assert_eq!(still(device.ahrs(), 0.5), None);
    assert_eq!(still(device.ahrs(), 0.5), Some(0));
}
