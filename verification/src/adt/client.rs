//! What every ADT call carries.
use vstd::prelude::*;

verus! {

/// Per-call context: whether the server runs read-only, which refuses writes.
#[derive(Debug, Clone, Copy)]
pub struct AdtCallContext {
    pub read_only: bool,
}

impl Default for AdtCallContext {
    fn default() -> (r: AdtCallContext)
        ensures
            !r.read_only,
    {
        AdtCallContext { read_only: false }
    }
}

} // verus!
