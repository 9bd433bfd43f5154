//! Result records produced when a generated test suite has run.

use vstd::prelude::*;
use crate::types::test_priority::TestPriority;

verus! {

/// Outcome of one test.
#[derive(Debug, Clone, Copy, PartialEq, Eq, Hash, Structural)]
pub enum TestStatus {
    /// The test passed.
    Passed,
    /// The test failed.
    Failed,
    /// The test was skipped.
    Skipped,
    /// The test timed out.
    Timeout,
}

impl TestStatus {
    /// Failures are failed and timed-out tests.
    pub fn is_failure(&self) -> (r: bool)
        ensures
            r == (*self == TestStatus::Failed || *self == TestStatus::Timeout),
    {
        matches!(self, TestStatus::Failed | TestStatus::Timeout)
    }

    /// Only a passed test counts as success; a skipped one does not.
    pub fn is_success(&self) -> (r: bool)
        ensures
            r == (*self == TestStatus::Passed),
    {
        matches!(self, TestStatus::Passed)
    }
}

/// Result of one executed test.
#[derive(Debug, Clone)]
pub struct TestResult {
    /// Test name.
    pub name: String,
    /// Outcome.
    pub status: TestStatus,
    /// How long the test ran, in milliseconds.
    pub duration_ms: u64,
    /// Captured output.
    pub output: String,
    /// Error message, for a failed test.
    pub error_message: Option<String>,
    /// File the test is defined in.
    pub file_path: String,
    /// Line number in that file, when known.
    pub line_number: Option<usize>,
    /// Tags extracted from test metadata.
    pub tags: Vec<String>,
    /// Importance of the test.
    pub priority: TestPriority,
}

/// Severity of a security finding.
#[derive(Debug, Clone, Copy, PartialEq, Eq, PartialOrd, Ord, Hash, Structural)]
pub enum SecuritySeverity {
    /// Critical security issue.
    Critical,
    /// High severity issue.
    High,
    /// Medium severity issue.
    Medium,
    /// Low severity issue.
    Low,
    /// Informational finding.
    Info,
}

impl SecuritySeverity {
    /// Severity name as a lower-case string.
    pub fn as_str(&self) -> (r: &'static str)
        ensures
            *self == SecuritySeverity::Critical ==> r@ == "critical"@,
            *self == SecuritySeverity::High ==> r@ == "high"@,
            *self == SecuritySeverity::Medium ==> r@ == "medium"@,
            *self == SecuritySeverity::Low ==> r@ == "low"@,
            *self == SecuritySeverity::Info ==> r@ == "info"@,
    {
        match self {
            SecuritySeverity::Critical => "critical",
            SecuritySeverity::High => "high",
            SecuritySeverity::Medium => "medium",
            SecuritySeverity::Low => "low",
            SecuritySeverity::Info => "info",
        }
    }

    /// Badge color class used by HTML reports.
    pub fn badge_color(&self) -> (r: &'static str)
        ensures
            *self == SecuritySeverity::Critical ==> r@ == "danger"@,
            *self == SecuritySeverity::High ==> r@ == "warning"@,
            *self == SecuritySeverity::Medium ==> r@ == "warning"@,
            *self == SecuritySeverity::Low ==> r@ == "info"@,
            *self == SecuritySeverity::Info ==> r@ == "secondary"@,
    {
        match self {
            SecuritySeverity::Critical => "danger",
            SecuritySeverity::High => "warning",
            SecuritySeverity::Medium => "warning",
            SecuritySeverity::Low => "info",
            SecuritySeverity::Info => "secondary",
        }
    }
}

/// A vulnerability detected by a security test.
#[derive(Debug, Clone)]
pub struct SecurityFinding {
    /// Test that detected the vulnerability.
    pub test_name: String,
    /// Vulnerability category, such as `injection`.
    pub category: String,
    /// Severity level.
    pub severity: SecuritySeverity,
    /// What the vulnerability is.
    pub description: String,
    /// Test output showing it.
    pub evidence: String,
    /// File the test is defined in.
    pub test_file: String,
}

/// Facts about the machine a test run happened on.
#[derive(Debug, Clone)]
pub struct EnvironmentInfo {
    /// Operating system name.
    pub os: String,
    /// OS version.
    pub os_version: String,
    /// Shell used for testing.
    pub shell: String,
    /// Shell version.
    pub shell_version: String,
    /// Test harness version.
    pub bats_version: String,
    /// Hostname where tests ran.
    pub hostname: String,
    /// User who ran tests.
    pub user: String,
}

} // verus!
