//! Core of an asynchronous, multi-sink structured logging engine.
//!
//! Producers enqueue structured records; a single consumer drains the
//! queue in batches, splits oversized messages, formats each record and
//! fans it out to the enabled backends.  This crate holds the verified
//! logic of that engine: the record model, the chunker, the formatter,
//! the vector pool, the signal latch model, the sink registry and the
//! consumer's decision rules.  The thin shell that owns files, locks and
//! threads lives outside and drives this core.

pub mod chunker;
pub mod config;
pub mod engine;
pub mod errors;
pub mod facade;
pub mod level;
pub mod log_data;
pub mod numfmt;
pub mod signal;
pub mod sinks;
pub mod vec_pool;

pub use config::LoggerConfig;
pub use errors::LoggerError;
pub use level::LogLevel;
pub use log_data::LogData;
