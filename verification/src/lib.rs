//! A resident telemetry collector for a home energy meter, split into its
//! verifiable core: the device-discovery state machine, the adaptive polling
//! scheduler, the measurement record codec, and the append-only log model.
//!
//! Network and file transports live outside this crate; they hand events,
//! response bodies and file lines across as plain values.

pub mod client;
pub mod codec;
pub mod discovery;
pub mod logfile;
pub mod scheduler;
