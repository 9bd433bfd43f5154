//! Running generated test suites. The processes themselves run with the
//! caller; the library owns the executor's configuration.

pub mod bats_executor;

pub use bats_executor::BatsExecutor;
