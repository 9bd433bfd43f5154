//! Where the per-tool configuration file is looked for.
//!
//! Reading the file is I/O done by the caller; the library owns the
//! conventions around it.

use vstd::prelude::*;

verus! {

/// The configuration file name looked for in the working directory.
pub fn default_config_path() -> (r: String)
    ensures
        r@ == ".cli-test-config.yml"@,
{
    ".cli-test-config.yml".to_owned()
}

} // verus!
