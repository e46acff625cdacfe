//! DDC/CI framing, checksums, VCP commands and the device conversation.
pub mod checksum;
pub mod device;
pub mod discovery;
pub mod error;
pub mod feature;
pub mod packet;
pub mod protocol;
pub mod transport;

pub use error::{Error, Result};
pub use device::DdcDevice;
pub use protocol::{Command, Response, VcpValue};
