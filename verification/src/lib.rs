//! Verified core of a log-ingestion pipeline: severity inference, line
//! parsing, directory-scan filtering, service-identity resolution, the
//! fan-out/fan-in cycle, the scheduler state machine, and conversion of
//! parsed entries into storage records.

pub mod api_model;
pub mod catalog;
pub mod cycle;
pub mod level;
pub mod log_model;
pub mod parse;
pub mod resolve;
pub mod scan;
pub mod scheduler;
pub mod settings;
pub mod time;
