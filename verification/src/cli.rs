//! Command-line front-end support: report formats, category selection
//! and typo suggestions. The argument parsing itself lives with the
//! caller; the decisions behind it are here.

pub mod commands;

pub use commands::{find_closest_matches, levenshtein_distance, parse_categories, ReportFormat};
