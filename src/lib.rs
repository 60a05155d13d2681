//! Benchmark sweep orchestration: generating sweep points from a graph
//! configuration, encoding each point as an executor override, choosing the
//! results format from the output path, and serialising per-run statistics.

pub mod health;
pub mod output;
pub mod row;
pub mod sweep;
