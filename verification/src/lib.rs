//! Telemetry uplink core: status policy, boundary-safe streaming text decoding,
//! and the per-cycle sampling schedule of a single-sensor device.

pub mod config;
pub mod cycle;
pub mod decode;
pub mod text;
pub mod uplink;

pub use config::Config;
