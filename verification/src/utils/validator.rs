//! Decisions of safe execution, separated from the platform work.
//!
//! The caller that touches the filesystem and spawns processes hands
//! over plain facts — whether the path exists, what each stream held —
//! and the functions here decide what they mean.

use vstd::prelude::*;
use crate::error::CliTestError;

verus! {

/// Decides whether a binary path may be probed, from the facts the
/// caller read: a missing path or a non-file is not found; a file with
/// no execute permission bit is not executable; otherwise it passes.
pub fn binary_path_verdict(path: &str, path_exists: bool, regular_file: bool, executable: bool) -> (r:
    Result<(), CliTestError>)
    ensures
        !(path_exists && regular_file) ==> (r matches Err(e) && e matches CliTestError::BinaryNotFound(p)
            && p@ == path@),
        path_exists && regular_file && !executable ==> (r matches Err(e) && e
            matches CliTestError::BinaryNotExecutable(p) && p@ == path@),
        path_exists && regular_file && executable ==> r is Ok,
{
    if !path_exists || !regular_file {
        Err(CliTestError::BinaryNotFound(path.to_owned()))
    } else if !executable {
        Err(CliTestError::BinaryNotExecutable(path.to_owned()))
    } else {
        Ok(())
    }
}

/// What a finished probe returns: its standard output when nonempty,
/// else its standard error, since many tools print help there.
pub fn select_probe_output(stdout: String, stderr: String) -> (r: String)
    ensures
        stdout@.len() > 0 ==> r == stdout,
        stdout@.len() == 0 ==> r == stderr,
{
    if !stdout.as_str().is_empty() {
        stdout
    } else {
        stderr
    }
}

} // verus!
