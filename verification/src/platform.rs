//! Types of std and of i2cdev that the library carries through unopened:
//! I/O errors, I²C errors and file system paths.
use vstd::prelude::*;

verus! {

/// `std::io::Error`, carried as an opaque value.
#[verifier::external_type_specification]
#[verifier::external_body]
pub struct OpaqueIoError(std::io::Error);

/// `i2cdev::linux::LinuxI2CError`, carried as an opaque value.
#[verifier::external_type_specification]
#[verifier::external_body]
pub struct OpaqueI2cError(i2cdev::linux::LinuxI2CError);

/// `std::path::PathBuf`, carried as an opaque value.
#[verifier::external_type_specification]
#[verifier::external_body]
pub struct OpaquePathBuf(std::path::PathBuf);

} // verus!
