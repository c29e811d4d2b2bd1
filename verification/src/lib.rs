//! Tharsis: the decision logic of a segmented download manager.
//!
//! The library plans byte ranges for parallel chunk downloads, reads the
//! headers that decide whether a file can be split, names files and paths,
//! throttles progress reports, and drives a whole download as a state
//! machine whose actions an I/O runtime performs.

pub mod config;
pub mod headers;
pub mod ids;
pub mod job;
pub mod models;
pub mod plan;
pub mod progress;
pub mod registry;
pub mod status;
pub mod text;
pub mod urls;
