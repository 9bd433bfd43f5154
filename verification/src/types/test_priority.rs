//! Importance levels of generated test cases.

use vstd::prelude::*;

verus! {

/// Priority of a test case, which steers reporting and success metrics.
#[derive(Debug, Clone, Copy, PartialEq, Eq, Hash, Structural)]
pub enum TestPriority {
    /// Must pass; a failure points at the framework or a critical bug.
    Critical,
    /// Should pass, but a failure is not blocking.
    Important,
    /// A security probe; a failure is a finding about the target tool.
    SecurityCheck,
}

impl TestPriority {
    /// Priority name as a snake_case string.
    pub fn as_str(&self) -> (r: &'static str)
        ensures
            *self == TestPriority::Critical ==> r@ == "critical"@,
            *self == TestPriority::Important ==> r@ == "important"@,
            *self == TestPriority::SecurityCheck ==> r@ == "security_check"@,
    {
        match self {
            TestPriority::Critical => "critical",
            TestPriority::Important => "important",
            TestPriority::SecurityCheck => "security_check",
        }
    }

    /// Whether this is a security probe rather than a functional test.
    pub fn is_security_check(&self) -> (r: bool)
        ensures
            r == (*self == TestPriority::SecurityCheck),
    {
        matches!(self, TestPriority::SecurityCheck)
    }

    /// Human-readable name.
    pub fn display_name(&self) -> (r: &'static str)
        ensures
            *self == TestPriority::Critical ==> r@ == "Critical"@,
            *self == TestPriority::Important ==> r@ == "Important"@,
            *self == TestPriority::SecurityCheck ==> r@ == "Security Check"@,
    {
        match self {
            TestPriority::Critical => "Critical",
            TestPriority::Important => "Important",
            TestPriority::SecurityCheck => "Security Check",
        }
    }

    /// Badge color class used by HTML reports.
    pub fn badge_color(&self) -> (r: &'static str)
        ensures
            *self == TestPriority::Critical ==> r@ == "danger"@,
            *self == TestPriority::Important ==> r@ == "warning"@,
            *self == TestPriority::SecurityCheck ==> r@ == "info"@,
    {
        match self {
            TestPriority::Critical => "danger",
            TestPriority::Important => "warning",
            TestPriority::SecurityCheck => "info",
        }
    }
}

impl Default for TestPriority {
    fn default() -> (r: Self)
        ensures
            r == TestPriority::Important,
    {
        TestPriority::Important
    }
}

} // verus!
