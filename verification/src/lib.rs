//! Telemetry collection and aggregation for a set of blockchain validator
//! nodes: one store that collectors write into and consumers read from, the
//! rules by which each collector turns raw samples into stored values, and
//! the schedule by which consumers re-read the store.

pub mod config;
pub mod consumer;
pub mod container;
pub mod host;
pub mod json;
pub mod measure;
pub mod reward;
pub mod sample;
pub mod schedule;
pub mod store;
pub mod store_laws;
pub mod stream;
pub mod table;
pub mod text;
