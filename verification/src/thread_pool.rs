//! The checked part of worker-pool creation: a pool of zero workers is
//! refused with `PoolCreationError`. The pool itself — threads, job queue
//! and result channel — lives outside the verified library; it only runs
//! per-row render jobs, whose results are functions of their coordinates.

use vstd::prelude::*;

verus! {

/// The error a zero worker count is refused with: the sole construction
/// error a caller is expected to handle.
#[derive(Clone, Copy, Debug, PartialEq, Eq, Structural)]
pub struct PoolCreationError;

/// Accepts a worker count for a pool: any positive count, and only those.
pub fn check_pool_size(size: u8) -> (r: Result<u8, PoolCreationError>)
    ensures
        r is Ok <==> size > 0,
        r is Ok ==> r->Ok_0 == size,
{
    if size > 0 {
        Ok(size)
    } else {
        Err(PoolCreationError)
    }
}

impl PoolCreationError {
    /// The message the error displays.
    pub fn message(&self) -> (s: &'static str)
        ensures
            s@ == "Cannot create thread pool containing zero threads."@,
    {
        "Cannot create thread pool containing zero threads."
    }
}

} // verus!
