//! Driver for the STMicroelectronics LSM6DS3TR-C 6-axis IMU (accelerometer and
//! gyroscope).
//!
//! The LSM6DS3TR-C is a single package that exposes accelerometer and gyroscope
//! behind one I2C address, with contiguous output registers and register
//! auto-increment (IF_INC).
//!
//! The library does no input and no output of its own. It says which [`Transfer`]
//! it wants and is handed the reply of the bus; it says how the orientation filter
//! is to be run and is handed the result. In between, physical quantities are decimal
//! numbers with twelve digits after the point, see [`Fixed`]. Readings in g, m/s², °/s
//! and °C are exact. Radians, the mean of a calibration and a decaying gain are rounded
//! to the nearest such number, and numbers beyond `1.7e26` saturate.
//!
//! - [`Lsm6ds3tr::new`] begins a [`Startup`], which identifies the device; an
//!   accepted device is configured by a [`Setup`], and then is an [`Lsm6ds3tr`].
//! - [`SampleDecoder`] turns register bytes into samples, with no bus.
//! - [`Lsm6ds3tr::calibrate_gyro`] begins a [`Calibration`] of the gyroscope.
//! - [`MadgwickAhrs`] is the state around an orientation filter, [`Lsm6ds3trAhrs`]
//!   the same together with a driver.
pub mod calibration;
pub mod config;
pub mod decoder;
pub mod driver;
pub mod error;
pub mod fixed;
pub mod fusion;
pub mod motion;
pub mod remap;
pub mod startup;
pub mod transfer;
pub mod wide;

pub use calibration::Calibration;
pub use config::{AccRange, Config, GyroRange, Odr};
pub use decoder::{ImuSample, SampleDecoder};
pub use driver::Lsm6ds3tr;
pub use error::Error;
pub use fixed::{Fixed, ONE};
pub use fusion::{FilterStep, Lsm6ds3trAhrs, MadgwickAhrs, Progress, Sampling};
pub use motion::{AdaptiveBeta, Gain};
pub use remap::{AxisRemap, Sign};
pub use startup::{Setup, Startup, Step};
pub use transfer::{Transfer, DEFAULT_ADDRESS};
pub use wide::Long;
