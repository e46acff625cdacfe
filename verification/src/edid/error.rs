//! Errors of the EDID layer.
use vstd::prelude::*;

verus! {

/// What can go wrong while reading or parsing EDID.
#[derive(Debug)]
pub enum Error {
    /// The operating system refused an I/O operation.
    Io(std::io::Error),
    /// The I²C bus driver reported an error.
    I2c(i2cdev::linux::LinuxI2CError),
    /// The bus does not support the transfers that reading EDID needs.
    UnsupportedTransfer,
    /// The data is too short, lacks the EDID header, or holds an invalid field.
    InvalidReturnData,
    /// The bytes of a block do not sum to a multiple of 256.
    InvalidChecksum,
    /// Any other failure, described in words.
    Other(String),
}

/// The result type of the EDID layer.
pub type Result<T> = core::result::Result<T, Error>;

} // verus!
