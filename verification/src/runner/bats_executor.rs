//! Configuration of the executor that runs generated test suites.

use vstd::prelude::*;

verus! {

/// Configuration for a run of the generated test suites: the tested
/// binary, a per-suite timeout and the categories to skip. Running the
/// suites is process work done by the caller.
#[derive(Debug, Clone, PartialEq)]
pub struct BatsExecutor {
    /// Timeout per test suite, in seconds.
    pub timeout: u64,
    /// Name of the binary under test.
    pub binary_name: String,
    /// Version of that binary, when known.
    pub binary_version: Option<String>,
    /// Categories excluded from the run, when set.
    pub skip_categories: Option<Vec<String>>,
}

impl BatsExecutor {
    /// An executor with the default five-minute suite timeout.
    pub fn new(binary_name: String, binary_version: Option<String>) -> (r: Self)
        ensures
            r.timeout == 300u64,
            r.binary_name == binary_name,
            r.binary_version == binary_version,
            r.skip_categories is None,
    {
        BatsExecutor { timeout: 300, binary_name, binary_version, skip_categories: None }
    }

    /// An executor with a custom suite timeout, in seconds.
    pub fn with_timeout(binary_name: String, binary_version: Option<String>, timeout: u64) -> (r:
        Self)
        ensures
            r.timeout == timeout,
            r.binary_name == binary_name,
            r.binary_version == binary_version,
            r.skip_categories is None,
    {
        BatsExecutor { timeout, binary_name, binary_version, skip_categories: None }
    }

    /// The same executor with categories to skip.
    pub fn with_skip_categories(self, skip: Vec<String>) -> (r: Self)
        ensures
            r.skip_categories == Some(skip),
            r.timeout == self.timeout,
            r.binary_name == self.binary_name,
            r.binary_version == self.binary_version,
    {
        let mut r = self;
        r.skip_categories = Some(skip);
        r
    }
}

} // verus!
