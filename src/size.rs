//! The trigger that rolls a log file once it reaches a size limit.

use vstd::prelude::*;

verus! {

/// Rolls the log once its length in bytes reaches `limit`.
#[derive(Clone, Copy, Debug, Default, PartialEq, Eq, Hash, Structural)]
pub struct SizeTrigger {
    limit: u64,
}

impl SizeTrigger {
    pub closed spec fn spec_limit(&self) -> u64 {
        self.limit
    }

    /// A trigger with the given limit in bytes; a limit of 0 rolls on every
    /// call.
    pub fn new(limit: u64) -> (r: SizeTrigger)
        ensures
            r.spec_limit() == limit,
    {
        SizeTrigger { limit }
    }

    pub fn limit(&self) -> (r: u64)
        ensures
            r == self.spec_limit(),
    {
        self.limit
    }

    /// Whether a log file of `file_len` bytes must be rolled.
    pub fn trigger(&self, file_len: u64) -> (r: bool)
        ensures
            r == (file_len >= self.spec_limit()),
    {
        file_len >= self.limit
    }
}

} // verus!
