//! Verified core of a predictive-maintenance motor monitor.
//!
//! Sensor readings are fixed-point numbers in thousandths of their unit
//! (`i64`), and all instants and durations are whole milliseconds (`u64`).
pub mod records;
pub mod rules;
pub mod window;
pub mod motor;
pub mod framing;
pub mod oracle;
pub mod actor;
pub mod reactive;
pub mod sql;
pub mod text;
pub mod topology;
