//! Parquet compression advisor: profiling statistics, encoding and codec rules,
//! footer diagnostics and tuning reports, with their contracts proved by Verus.

pub mod text;
pub mod error;
pub mod ratio;
pub mod profiler;
pub mod recommender;
pub mod order;
pub mod diagnostics;
pub mod tuner;
pub mod advisor;
pub mod bench;
pub mod apply;
pub mod codegen;
pub mod wasm;
pub mod laws;

pub use error::AutoparqError;
