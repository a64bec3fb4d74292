[package]
name = "lsm6ds3tr"
version = "0.1.0"
edition = "2021"
publish = false

[dependencies]
ahrs = "=0.8.0"
embedded-hal = "=1.0.0"
nalgebra = "=0.34.2"

cpu-time = "1"
linux-embedded-hal = { version = "0.4", default-features = false, features = ["i2c"] }
serde-pickle = "1"
