//! Errors of the DDC/CI layer.
use vstd::prelude::*;
use crate::ddcci::feature::Feature;

verus! {

/// What can go wrong while talking DDC/CI to a monitor.
#[derive(Debug)]
pub enum Error {
    /// The operating system refused an I/O operation.
    Io(std::io::Error),
    /// The I²C bus driver reported an error.
    I2c(i2cdev::linux::LinuxI2CError),
    /// The bytes of a frame do not exclusive-or to zero.
    InvalidChecksum,
    /// A frame or payload is too short to hold what it must.
    InvalidPacket,
    /// The monitor answered with a reply of the wrong kind.
    UnexpectedResponse,
    /// The monitor did not answer in time.
    Timeout,
    /// The monitor did not answer at all.
    NoResponse,
    /// A value larger than the maximum that the monitor reports for a feature.
    ValueOutOfRange { value: u16, maximum: u16, feature: Feature },
    /// Any other failure, described in words.
    Other(String),
}

/// The result type of the DDC/CI layer.
pub type Result<T> = core::result::Result<T, Error>;

} // verus!
