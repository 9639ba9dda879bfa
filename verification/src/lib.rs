//! Codec for the binary telemetry frames sent by temperature and humidity
//! sensors, with the record types that the frames carry.

pub mod bigendian;
pub mod checksum;
pub mod errors;
pub mod frame;
pub mod hexcode;
pub mod models;
pub mod timestamp;
