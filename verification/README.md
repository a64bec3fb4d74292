# lsm6ds3tr

Driver for the STMicroelectronics LSM6DS3TR-C 6-axis IMU (accelerometer and
gyroscope), with the state around a Madgwick orientation filter. The library is
written in Verus: every function carries a contract, and the contracts are proved.

## Layout

- `src/`: the verified library. It does no input or output and no floating point.
  - `fixed.rs`: decimal fixed-point numbers, twelve digits after the point.
  - `wide.rs`: products and long sums of them.
  - `config.rs`: ranges, data rates, register encodings.
  - `transfer.rs`: register map and bus transfers.
  - `startup.rs`: identification and configuration of a device.
  - `remap.rs`, `decoder.rs`: register bytes to remapped, bias-corrected samples.
  - `driver.rs`, `calibration.rs`: readings and gyroscope calibration.
  - `motion.rs`, `fusion.rs`: motion-adaptive gain and filter state.
- `tests/`: tests of the library.
- `app/`: the same sensor on an `embedded-hal` bus, in `f32`, with the `ahrs`
  crate's Madgwick filter. It is a library too. Two of its modules hold an entry
  point for a program on a Linux bus, by default `/dev/i2c-4` at 50 Hz: a binary
  has only to call it.
  - `read_imu::main`: prints quaternion and temperature in a loop, or with
    `--stream` sends data over TCP.
  - `bench_imu::main`: measures how well the loop holds its rate and how much CPU
    it uses.

Functions named `law_...` state what holds of the library as a whole.
