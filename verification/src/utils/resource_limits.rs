//! Ceilings applied to every probe of an untrusted binary.

use vstd::prelude::*;

verus! {

/// Resource ceilings for one child process: memory, open files, process
/// count and wall-clock time. A value object; never changed once built.
/// Applying the ceilings to a process is platform work done by the
/// caller that spawns the probe.
#[derive(Debug, Clone, Copy, PartialEq, Eq, Structural)]
pub struct ResourceLimits {
    /// Largest allowed address space, in bytes.
    pub max_memory_bytes: u64,
    /// Largest allowed number of open file descriptors.
    pub max_file_descriptors: u64,
    /// Largest allowed number of processes.
    pub max_processes: u64,
    /// Longest allowed run time, in milliseconds.
    pub execution_timeout_ms: u64,
}

/// The short timeout of the single no-arguments probe, in milliseconds.
pub const NO_ARGS_PROBE_TIMEOUT_MS: u64 = 1000;

impl ResourceLimits {
    /// The default ceilings: 500 MB of memory, 1024 file descriptors,
    /// 100 processes, five minutes.
    pub open spec fn spec_default() -> ResourceLimits {
        ResourceLimits {
            max_memory_bytes: (500 * 1024 * 1024) as u64,
            max_file_descriptors: 1024,
            max_processes: 100,
            execution_timeout_ms: (300 * 1000) as u64,
        }
    }

    /// Limits with the given ceilings.
    pub fn new(
        max_memory_bytes: u64,
        max_file_descriptors: u64,
        max_processes: u64,
        execution_timeout_ms: u64,
    ) -> (r: Self)
        ensures
            r.max_memory_bytes == max_memory_bytes,
            r.max_file_descriptors == max_file_descriptors,
            r.max_processes == max_processes,
            r.execution_timeout_ms == execution_timeout_ms,
    {
        ResourceLimits { max_memory_bytes, max_file_descriptors, max_processes, execution_timeout_ms }
    }

    /// The probe timeout, in milliseconds.
    pub fn timeout(&self) -> (r: u64)
        ensures
            r == self.execution_timeout_ms,
    {
        self.execution_timeout_ms
    }
}

impl Default for ResourceLimits {
    fn default() -> (r: Self)
        ensures
            r == ResourceLimits::spec_default(),
    {
        ResourceLimits {
            max_memory_bytes: 500 * 1024 * 1024,
            max_file_descriptors: 1024,
            max_processes: 100,
            execution_timeout_ms: 300 * 1000,
        }
    }
}

} // verus!
