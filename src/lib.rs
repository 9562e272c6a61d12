//! A registry of named gauges fed by sensor readings from a message bus and
//! served as a text snapshot.
//!
//! Gauge values are `f64` readings held as their bit patterns (`f64::to_bits`):
//! the caller parses payloads and writes values as text.

pub mod exposition;
pub mod ingest;
pub mod registry;
pub mod sensors;
pub mod topic;
