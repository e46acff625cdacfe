//! EDID: reading the blocks of a monitor's identification data and parsing them.
pub mod consts;
pub mod checksum;
pub mod error;

pub use error::{Error, Result};
pub mod parse;
pub mod read;
