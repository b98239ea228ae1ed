//! A batch transformation engine for binary64 samples.
//!
//! A flat sequence of samples is cut into chunks of a fixed width, every chunk
//! is sent through a per-element pipeline (quantise, squash, shrink, clamp) on
//! a pool of worker threads, and the outputs are put back together in the
//! order of the input.
//!
//! Samples travel through the engine as their IEEE-754 bit patterns (`u64`).
//! The arithmetic stages of the pipeline are supplied by the caller as
//! functions on bit patterns; the final clamp to `[-1, 1]`, the chunking, the
//! ordering of the result and the metrics are computed and proved here.

pub mod array;
pub mod chunker;
pub mod engine;
pub mod error;
pub mod laws;
pub mod metrics;
pub mod sample;
pub mod workers;

pub use array::ChunkArray;
pub use engine::OptimizationEngine;
pub use error::EngineError;
pub use metrics::{PerformanceMetrics, Throughput};
