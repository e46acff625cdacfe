//! Sizes and bus addresses of EDID.
use vstd::prelude::*;

verus! {

/// The size of one EDID block in bytes.
pub const EDID_BLOCK_SIZE: usize = 128;

/// The I²C address at which a monitor serves its EDID.
pub const EDID_ADDRESS: u16 = 0x50;

/// The I²C address of the E-DDC segment pointer.
pub const EDID_SEGMENT_ADDRESS: u16 = 0x30;

} // verus!
