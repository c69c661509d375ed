//! Optional kernel-tracing feed.
//!
//! The syscall-frequency source is an opaque collaborator that either yields
//! a serialized frequency blob or nothing. This build carries the no-op
//! fallback, which always reports the feed as absent, so the rest of the
//! pipeline is unaffected by its presence or absence.

use vstd::prelude::*;

verus! {

/// Try to read the syscall frequency map.
///
/// Returns `Some(json_string)` when the kernel tracing feature is available
/// and active, `None` otherwise. This fallback always returns `None`.
pub fn try_read_syscall_freq() -> (r: Option<String>)
    ensures
        r is None,
{
    None
}

} // verus!
