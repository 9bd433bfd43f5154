//! The analyzer: help-text parsing, option-type inference, recursive
//! subcommand discovery and no-argument behavior classification.
//!
//! Everything that runs a binary is a probe performed by the caller; the
//! modules here decide which probes to make and what their output means.

pub mod behavior_inferrer;
pub mod cli_parser;
pub mod option_inferrer;
pub mod subcommand_detector;

pub use behavior_inferrer::BehaviorInferrer;
pub use cli_parser::CliParser;
pub use option_inferrer::{apply_numeric_constraints, load_enum_values, OptionInferrer};
pub use subcommand_detector::SubcommandDetector;
