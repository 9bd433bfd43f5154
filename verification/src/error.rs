//! Error taxonomy of the analysis library.
//!
//! User-visible messages show only the failure category and, for path
//! errors, the file name — never a full filesystem path.

use vstd::prelude::*;
use crate::text::{scan_back_over, scan_back_until, skip_back_over, skip_back_until, substring};

verus! {

/// What went wrong while analyzing a binary or loading configuration.
#[derive(Debug, Clone)]
pub enum CliTestError {
    /// No file exists at the given path, or it is not a regular file.
    BinaryNotFound(String),
    /// The file exists but no execute permission bit is set.
    BinaryNotExecutable(String),
    /// The binary could not be executed, or timed out.
    ExecutionFailed(String),
    /// All help probes returned empty output.
    InvalidHelpOutput,
    /// An option line could not be parsed.
    OptionParseError(String),
    /// A test template could not be rendered.
    TemplateError(String),
    /// Running the generated test suite failed.
    BatsExecutionFailed(String),
    /// A configuration file is invalid.
    Config(String),
    /// A value failed validation.
    Validation(String),
    /// An unknown report format was requested.
    InvalidFormat(String),
    /// A report could not be written.
    ReportError(String),
}

/// The file name of a path, with directories stripped: the last component,
/// ignoring trailing separators; `None` for a root, `.` or `..` path.
pub open spec fn spec_file_name(p: Seq<char>) -> Option<Seq<char>> {
    let e = scan_back_over(p, p.len() as int, '/');
    let b = scan_back_until(p, e, '/');
    let name = p.subrange(b, e);
    if name.len() == 0 || name == "."@ || name == ".."@ {
        None
    } else {
        Some(name)
    }
}

/// Last path component, used to hide directory layout in messages.
pub fn file_name_of_path(path: &str) -> (r: Option<String>)
    ensures
        match r {
            Some(n) => spec_file_name(path@) == Some(n@),
            None => spec_file_name(path@) is None,
        },
{
    let n = path.unicode_len();
    let e = skip_back_over(path, n, '/');
    let b = skip_back_until(path, e, '/');
    let name = substring(path, b, e);
    if name.as_str().unicode_len() == 0 {
        return None;
    }
    if crate::text::str_eq(name.as_str(), ".") || crate::text::str_eq(name.as_str(), "..") {
        return None;
    }
    Some(name)
}

/// The display form of a path in an error message: its file name, or a
/// placeholder when the path has none.
pub open spec fn spec_sanitized_path(p: Seq<char>) -> Seq<char> {
    match spec_file_name(p) {
        Some(n) => n,
        None => "<invalid-path>"@,
    }
}

/// Reduce a path to its file name for display, hiding the directory layout.
pub fn sanitize_path_for_display(path: &str) -> (r: String)
    ensures
        r@ == spec_sanitized_path(path@),
{
    match file_name_of_path(path) {
        Some(n) => n,
        None => {
            let r = "<invalid-path>".to_owned();
            r
        },
    }
}

/// The user-visible message of each error: category text, then detail.
pub open spec fn spec_message(e: CliTestError) -> Seq<char> {
    match e {
        CliTestError::BinaryNotFound(p) => "Binary not found: "@ + spec_sanitized_path(p@),
        CliTestError::BinaryNotExecutable(p) => "Binary not executable: "@ + spec_sanitized_path(
            p@,
        ),
        CliTestError::ExecutionFailed(m) => "Failed to execute binary: "@ + m@,
        CliTestError::InvalidHelpOutput => "Invalid help output"@,
        CliTestError::OptionParseError(m) => "Failed to parse option: "@ + m@,
        CliTestError::TemplateError(m) => "Template rendering failed: "@ + m@,
        CliTestError::BatsExecutionFailed(m) => "BATS execution failed: "@ + m@,
        CliTestError::Config(m) => "Configuration error: "@ + m@,
        CliTestError::Validation(m) => "Validation error: "@ + m@,
        CliTestError::InvalidFormat(m) => "Invalid format: "@ + m@,
        CliTestError::ReportError(m) => "Report generation failed: "@ + m@,
    }
}

/// Joins a fixed category prefix and a detail string.
fn prefix_msg(prefix: &str, body: &str) -> (r: String)
    ensures
        r@ == prefix@ + body@,
{
    let mut r = prefix.to_owned();
    r.append(body);
    r
}

impl CliTestError {
    /// The user-visible message; paths are reduced to their file name.
    pub fn message(&self) -> (r: String)
        ensures
            r@ == spec_message(*self),
    {
        match self {
            CliTestError::BinaryNotFound(p) => {
                let shown = sanitize_path_for_display(p.as_str());
                prefix_msg("Binary not found: ", shown.as_str())
            },
            CliTestError::BinaryNotExecutable(p) => {
                let shown = sanitize_path_for_display(p.as_str());
                prefix_msg("Binary not executable: ", shown.as_str())
            },
            CliTestError::ExecutionFailed(m) => prefix_msg("Failed to execute binary: ", m.as_str()),
            CliTestError::InvalidHelpOutput => "Invalid help output".to_owned(),
            CliTestError::OptionParseError(m) => prefix_msg("Failed to parse option: ", m.as_str()),
            CliTestError::TemplateError(m) => prefix_msg("Template rendering failed: ", m.as_str()),
            CliTestError::BatsExecutionFailed(m) => prefix_msg(
                "BATS execution failed: ",
                m.as_str(),
            ),
            CliTestError::Config(m) => prefix_msg("Configuration error: ", m.as_str()),
            CliTestError::Validation(m) => prefix_msg("Validation error: ", m.as_str()),
            CliTestError::InvalidFormat(m) => prefix_msg("Invalid format: ", m.as_str()),
            CliTestError::ReportError(m) => prefix_msg("Report generation failed: ", m.as_str()),
        }
    }
}

} // verus!
