use lsm6ds3tr::{AccRange, Config, GyroRange, Odr};

const RATES: [Odr; 10] = [
    Odr::Hz12_5,
    Odr::Hz26,
    Odr::Hz52,
    Odr::Hz104,
    Odr::Hz208,
    Odr::Hz416,
    Odr::Hz833,
    Odr::Hz1660,
    Odr::Hz3330,
    Odr::Hz6660,
];

#[test]
fn accelerometer_range_bits() {
    assert_eq!(AccRange::G2.fs_bits(), 0b0000);
    assert_eq!(AccRange::G16.fs_bits(), 0b0100);
    assert_eq!(AccRange::G4.fs_bits(), 0b1000);
    assert_eq!(AccRange::G8.fs_bits(), 0b1100);
}

#[test]
fn gyroscope_range_bits() {
    assert_eq!(GyroRange::Dps125.fs_bits(), 0b0010);
    assert_eq!(GyroRange::Dps250.fs_bits(), 0b0000);
    assert_eq!(GyroRange::Dps500.fs_bits(), 0b0100);
    assert_eq!(GyroRange::Dps1000.fs_bits(), 0b1000);
    assert_eq!(GyroRange::Dps2000.fs_bits(), 0b1100);
}

#[test]
fn rate_bits() {
    for (i, rate) in RATES.iter().enumerate() {
        assert_eq!(rate.odr_bits(), (i as u8 + 1) << 4);
    }
}

#[test]
fn default_config() {
    let config = Config::default();
    assert_eq!(config.acc_range, AccRange::G4);
    assert_eq!(config.acc_odr, Odr::Hz104);
    assert_eq!(config.gyro_range, GyroRange::Dps500);
    assert_eq!(config.gyro_odr, Odr::Hz104);
    assert_eq!(config.ctrl1_xl(), 0x48);
    assert_eq!(config.ctrl2_g(), 0x44);
}

#[test]
fn control_bytes_determine_the_configuration() {
    let mut seen = Vec::new();
    for acc_odr in RATES {
        for acc_range in [AccRange::G2, AccRange::G4, AccRange::G8, AccRange::G16] {
            let config = Config { acc_odr, acc_range, ..Config::default() };
            let byte = config.ctrl1_xl();
            assert_eq!(byte, acc_odr.odr_bits() | acc_range.fs_bits());
            assert_eq!(byte & 0b11, 0);
            assert!(!seen.contains(&byte));
            seen.push(byte);
        }
    }
    seen.clear();
    for gyro_odr in RATES {
        for gyro_range in [
            GyroRange::Dps125,
            GyroRange::Dps250,
            GyroRange::Dps500,
            GyroRange::Dps1000,
            GyroRange::Dps2000,
        ] {
            let config = Config { gyro_odr, gyro_range, ..Config::default() };
            let byte = config.ctrl2_g();
            assert_eq!(byte, gyro_odr.odr_bits() | gyro_range.fs_bits());
            assert_eq!(byte & 1, 0);
            assert_eq!(byte & 2 != 0, gyro_range == GyroRange::Dps125);
            assert!(!seen.contains(&byte));
            seen.push(byte);
        }
    }
}
