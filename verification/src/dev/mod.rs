//! Development aids: benchmark timings and the log buffer.
pub mod benchmark;
pub mod debug;

pub use benchmark::{collect_benchmark_output, Benchmark, BenchmarkResult};
pub use debug::LogBuffer;
