//! What can go wrong when talking to the device.
use vstd::prelude::*;

verus! {

#[derive(Debug, PartialEq, Eq)]
pub enum Error<E> {
    /// The bus failed.
    I2c(E),
    /// WHO_AM_I returned an unexpected value, which is given. The device is not an
    /// LSM6DS3TR-C, or is at a different address.
    WrongId(u8),
}

impl<E> From<E> for Error<E> {
    fn from(e: E) -> (error: Self) {
        Error::I2c(e)
    }
}

impl<E> vstd::std_specs::convert::FromSpecImpl<E> for Error<E> {
    open spec fn obeys_from_spec() -> bool {
        true
    }

    open spec fn from_spec(e: E) -> Self {
        Error::I2c(e)
    }
}

} // verus!
