//! Telemetry session engine: a schema-driven binary frame decoder and the
//! per-connection session state machine that owns ordering, batching and
//! sink lifecycle for one device's stream of sensor readings.

pub mod config;
pub mod error;
pub mod parser;
pub mod sensors;
pub mod session;
