//! Inter-core latency measurement engine: the sweep over core pairs, the
//! latency tensor that stores the samples, and the summaries drawn from it.

pub mod config;
pub mod schedule;
pub mod tensor;
pub mod summary;
