//! Size and depth gates applied before any payload is deserialized.
//!
//! The deserializers themselves live with the caller; the limits and the
//! checks against them are here.

use vstd::prelude::*;

verus! {

/// Largest accepted payload, in bytes: 10 MB.
pub const MAX_DESERIALIZE_SIZE: usize = 10 * 1024 * 1024;

/// Deepest accepted nesting of a structured payload.
pub const MAX_RECURSION_DEPTH: usize = 16;

/// Whether a payload of `len` bytes is over the size limit.
pub fn payload_too_large(len: usize) -> (r: bool)
    ensures
        r == (len > MAX_DESERIALIZE_SIZE),
{
    len > MAX_DESERIALIZE_SIZE
}

/// Whether a payload nested `depth` levels deep is over the depth limit.
pub fn depth_exceeds_limit(depth: usize) -> (r: bool)
    ensures
        r == (depth > MAX_RECURSION_DEPTH),
{
    depth > MAX_RECURSION_DEPTH
}

} // verus!
