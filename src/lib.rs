//! Packet classification and reflection for a three-host XDP telemetry relay: the
//! per-role frame rewriters, their incremental checksums, the payload ring shared with
//! user space, the ring consumer's decisions and the configuration image.

pub mod checksum;
pub mod classifier;
pub mod config;
pub mod consumer;
pub mod daemon;
pub mod frame;
pub mod integrity;
pub mod ring;
