//! Shared utilities: resource limits, probe-output selection, size gates
//! for deserialization, and parallelism planning.

pub mod parallel;
pub mod resource_limits;
pub mod safe_deserialize;
pub mod validator;

pub use parallel::{choose_strategy, ParallelStrategy, Workload};
pub use resource_limits::ResourceLimits;
pub use validator::{binary_path_verdict, select_probe_output};
