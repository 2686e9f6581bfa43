//! JTAG protocol engine for a debug probe.
//!
//! Turns high-level register accesses into TMS/TDI bit sequences driven
//! through a chain of daisy-chained JTAG TAPs, and decodes the captured
//! TDO stream and handshake codes back into structured results.

pub mod bits;
pub mod config;
pub mod descriptor;
pub mod device;
pub mod dispatch;
pub mod ops;
pub mod shift;
pub mod wire;
