//! Data model of the analyzer and of the test tooling around it.

pub mod analysis;
pub mod config;
pub mod no_args_behavior;
pub mod report;
pub mod test_case;
pub mod test_priority;

pub use analysis::{AnalysisMetadata, CliAnalysis, CliOption, OptionType, Subcommand};
pub use config::CliTestConfig;
pub use no_args_behavior::NoArgsBehavior;
pub use report::{EnvironmentInfo, SecurityFinding, SecuritySeverity, TestResult, TestStatus};
pub use test_case::{Assertion, TestCase, TestCategory};
pub use test_priority::TestPriority;
