use lsm6ds3tr::{AccRange, AxisRemap, Fixed, GyroRange, SampleDecoder, Sign, ONE};

fn le(v: i16) -> [u8; 2] {
    v.to_le_bytes()
}

fn float(x: Fixed) -> f32 {
    (x.pico as f64 / ONE as f64) as f32
}

fn block(x: i16, y: i16, z: i16) -> [u8; 6] {
    let (x, y, z) = (le(x), le(y), le(z));
    [x[0], x[1], y[0], y[1], z[0], z[1]]
}

fn picos(v: (Fixed, Fixed, Fixed)) -> (i128, i128, i128) {
    (v.0.pico, v.1.pico, v.2.pico)
}

#[test]
fn decode_block_scales_and_orders_correctly() {
    // Default ranges: ±4 g (0.122 mg/LSB), ±500 °/s (17.5 mdps/LSB).
    let dec = SampleDecoder::new(AccRange::G4, GyroRange::Dps500);

    let gx = (100.0 / 0.0175) as i16; // ~100 °/s on X
    let az = (1.0 / 0.000122) as i16; // ~1 g on Z
    let mut b = [0u8; 12];
    b[0..2].copy_from_slice(&le(gx)); // gyro X (block is gyro first)
    b[10..12].copy_from_slice(&le(az)); // accel Z (bytes 6..11 are accel)

    let s = dec.decode_block(&b);
    // gyro X ≈ 100 °/s in rad/s
    assert!((float(s.gyro_rads[0]) - 100.0 * core::f32::consts::PI / 180.0).abs() < 0.01);
    assert!(float(s.gyro_rads[1]).abs() < 1e-3 && float(s.gyro_rads[2]).abs() < 1e-3);
    // accel = gravity on +Z
    assert!(float(s.accel_g[0]).abs() < 1e-3 && float(s.accel_g[1]).abs() < 1e-3);
    assert!((float(s.accel_g[2]) - 1.0).abs() < 1e-3);
}

#[test]
fn decoder_matches_axis_remap_and_bias() {
    let mut dec = SampleDecoder::new(AccRange::G4, GyroRange::Dps500);
    // Invert X and Y.
    dec.axis_remap = AxisRemap {
        axes: [0, 1, 2],
        signs: [Sign::Negative, Sign::Negative, Sign::Positive],
    };

    let g = (200.0_f32 / 0.0175) as i16; // 200 °/s on X and Y
    let mut b = [0u8; 12];
    b[0..2].copy_from_slice(&le(g));
    b[2..4].copy_from_slice(&le(g));
    let s = dec.decode_block(&b);
    // X and Y signs flipped by the remap.
    assert!(float(s.gyro_rads[0]) < 0.0 && float(s.gyro_rads[1]) < 0.0);
}

#[test]
fn sensitivities() {
    assert_eq!(AccRange::G2.mg_per_lsb(), Fixed { pico: 61_000_000_000 });
    assert_eq!(AccRange::G4.mg_per_lsb(), Fixed { pico: 122_000_000_000 });
    assert_eq!(AccRange::G8.mg_per_lsb(), Fixed { pico: 244_000_000_000 });
    assert_eq!(AccRange::G16.mg_per_lsb(), Fixed { pico: 488_000_000_000 });
    assert_eq!(GyroRange::Dps125.mdps_per_lsb(), Fixed { pico: 4_375_000_000_000 });
    assert_eq!(GyroRange::Dps250.mdps_per_lsb(), Fixed { pico: 8_750_000_000_000 });
    assert_eq!(GyroRange::Dps500.mdps_per_lsb(), Fixed { pico: 17_500_000_000_000 });
    assert_eq!(GyroRange::Dps1000.mdps_per_lsb(), Fixed { pico: 35_000_000_000_000 });
    assert_eq!(GyroRange::Dps2000.mdps_per_lsb(), Fixed { pico: 70_000_000_000_000 });
}

#[test]
fn accelerometer_covers_the_whole_register() {
    let dec = SampleDecoder::new(AccRange::G16, GyroRange::Dps125);
    let g = dec.decode_accelerometer(&block(i16::MIN, -1, i16::MAX));
    assert_eq!(picos(g), (-15_990_784_000_000, -488_000_000, 15_990_296_000_000));
}

#[test]
fn counts_are_little_endian_twos_complement() {
    let dec = SampleDecoder::new(AccRange::G2, GyroRange::Dps125);
    let g = dec.decode_accelerometer(&[0x01, 0x00, 0x00, 0x01, 0xFE, 0xFF]);
    assert_eq!(picos(g), (61_000_000, 256 * 61_000_000, -2 * 61_000_000));
    for n in [i16::MIN, -257, -256, -1, 0, 1, 255, 256, i16::MAX] {
        let g = dec.decode_accelerometer(&block(n, n, n));
        assert_eq!(g.0.pico, n as i128 * 61_000_000);
    }
}

#[test]
fn bias_is_subtracted_before_the_remap() {
    let mut dec = SampleDecoder::new(AccRange::G4, GyroRange::Dps2000);
    dec.gyro_bias_dps =
        (Fixed { pico: ONE }, Fixed { pico: 2 * ONE }, Fixed { pico: -3 * ONE });
    // Sensor X to output -Y, sensor Y to output X.
    dec.axis_remap = AxisRemap {
        axes: [1, 0, 2],
        signs: [Sign::Positive, Sign::Negative, Sign::Positive],
    };
    let dps = dec.decode_gyroscope_dps(&block(100, 200, 300));
    // 0.07 °/s per count: 7, 14 and 21 °/s.
    assert_eq!(picos(dps), (12 * ONE, -6 * ONE, 24 * ONE));
}

#[test]
fn radians_are_rounded_to_the_nearest_trillionth() {
    let mut dec = SampleDecoder::new(AccRange::G4, GyroRange::Dps125);
    dec.gyro_bias_dps =
        (Fixed { pico: -180 * ONE }, Fixed { pico: 180 * ONE }, Fixed { pico: -ONE });
    let rads = dec.decode_gyroscope(&block(0, 0, 0));
    assert_eq!(picos(rads), (3_141_592_653_590, -3_141_592_653_590, 17_453_292_520));
}

#[test]
fn block_is_gyroscope_then_accelerometer() {
    let dec = SampleDecoder::new(AccRange::G2, GyroRange::Dps250);
    let gyro = block(11, -12, 13);
    let accel = block(-21, 22, -23);
    let mut b = [0u8; 12];
    b[0..6].copy_from_slice(&gyro);
    b[6..12].copy_from_slice(&accel);
    let s = dec.decode_block(&b);
    assert_eq!((s.gyro_rads[0], s.gyro_rads[1], s.gyro_rads[2]), dec.decode_gyroscope(&gyro));
    assert_eq!((s.accel_g[0], s.accel_g[1], s.accel_g[2]), dec.decode_accelerometer(&accel));
    assert_eq!(s.accel_g[1].pico, 22 * 61_000_000);
}

#[test]
fn huge_bias_saturates() {
    let mut dec = SampleDecoder::new(AccRange::G4, GyroRange::Dps2000);
    dec.gyro_bias_dps =
        (Fixed { pico: i128::MIN }, Fixed { pico: i128::MAX }, Fixed { pico: 0 });
    let dps = dec.decode_gyroscope_dps(&block(1, -1, 0));
    assert_eq!(picos(dps), (i128::MAX, i128::MIN, 0));
    dec.axis_remap.signs = [Sign::Negative, Sign::Negative, Sign::Negative];
    let dps = dec.decode_gyroscope_dps(&block(1, -1, 0));
    assert_eq!(picos(dps), (-i128::MAX, i128::MAX, 0));
}

#[test]
fn large_bias_is_exact() {
    let mut dec = SampleDecoder::new(AccRange::G4, GyroRange::Dps2000);
    let bias = Fixed { pico: -9_223_372 * ONE };
    let far = Fixed { pico: 100_000_000_000_000_000_000_000_000 * ONE };
    dec.gyro_bias_dps = (bias, far, Fixed { pico: 0 });
    let (x, y, z) = picos(dec.decode_gyroscope_dps(&block(32767, -32768, 1)));
    assert_eq!(x, 9_225_665_690_000_000_000);
    assert_eq!(y, -far.pico - 2_293_760_000_000_000);
    assert_eq!(z, 70_000_000_000);
    let (x, y, _) = picos(dec.decode_gyroscope(&block(32767, -32768, 1)));
    assert_eq!(x, 161_018_241_978_774_507);
    assert_eq!(y, -1_745_329_251_994_329_600_000_040_033_664_250_545);
}

#[test]
fn identity_remap_changes_nothing() {
    let v = (Fixed { pico: 1 }, Fixed { pico: -2 }, Fixed { pico: 3 });
    assert_eq!(AxisRemap::default().apply(v), v);
}

#[test]
fn quarter_turn_around_z() {
    // Sensor X to output -Y, sensor Y to output X, sensor Z to output Z.
    let remap = AxisRemap {
        axes: [1, 0, 2],
        signs: [Sign::Positive, Sign::Negative, Sign::Positive],
    };
    let v = (Fixed { pico: 3 }, Fixed { pico: 4 }, Fixed { pico: 5 });
    let w = remap.apply(v);
    assert_eq!(picos(w), (4, -3, 5));
    let length = |v: (i128, i128, i128)| v.0 * v.0 + v.1 * v.1 + v.2 * v.2;
    assert_eq!(length(picos(w)), length(picos(v)));
    // Four quarter turns lead back.
    assert_eq!(remap.apply(remap.apply(remap.apply(w))), v);
}

#[test]
fn inverse_remap_gives_the_reading_back() {
    let (p, n) = (Sign::Positive, Sign::Negative);
    let remap = AxisRemap { axes: [1, 2, 0], signs: [p, n, n] };
    let inverse = AxisRemap { axes: [2, 0, 1], signs: [n, p, n] };
    let v = (Fixed { pico: 7 }, Fixed { pico: -8 }, Fixed { pico: 9 });
    assert_eq!(picos(remap.apply(v)), (-8, -9, -7));
    assert_eq!(inverse.apply(remap.apply(v)), v);
    assert_eq!(remap.apply(inverse.apply(v)), v);
    // The one number without a negative survives where it is not negated.
    let v = (Fixed { pico: 7 }, Fixed { pico: i128::MIN }, Fixed { pico: 9 });
    assert_eq!(inverse.apply(remap.apply(v)), v);
}

#[test]
fn axes_may_repeat() {
    let remap = AxisRemap {
        axes: [2, 2, 0],
        signs: [Sign::Positive, Sign::Negative, Sign::Positive],
    };
    let v = (Fixed { pico: 3 }, Fixed { pico: 4 }, Fixed { pico: 5 });
    assert_eq!(picos(remap.apply(v)), (5, -5, 3));
}

#[test]
fn fixed_arithmetic_saturates() {
    let max = Fixed { pico: i128::MAX };
    let min = Fixed { pico: i128::MIN };
    let one = Fixed { pico: ONE };
    assert_eq!(one.minus(one), Fixed::zero());
    assert_eq!(one.negated().pico, -ONE);
    assert_eq!(max.minus(one.negated()), max);
    assert_eq!(min.minus(one), min);
    assert_eq!(min.negated(), max);
}
