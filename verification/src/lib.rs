//! Sampling, aggregation and bookkeeping of an Apple Silicon performance
//! monitor.
//!
//! The library decides; it does no input or output and no floating point
//! arithmetic. The program around it asks the system for raw figures, hands
//! them in as plain values, and shows what comes back.

pub mod config;
pub mod files;
pub mod history;
pub mod io_stats;
pub mod memory;
pub mod powermetrics;
pub mod reader;
pub mod session;
pub mod state;
pub mod text;
pub mod thermal;
