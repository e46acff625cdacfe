//! Monitor control over VESA DDC/CI and EDID, with the decision logic of the
//! `displayd` daemon and the `displayctl` client.
pub mod platform;
pub mod text;
pub mod ddcci;
pub mod edid;
pub mod control;
pub mod daemon;
