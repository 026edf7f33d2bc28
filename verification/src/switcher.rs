//! Identities of running processes as the switcher tracks them.

use vstd::prelude::*;

verus! {

/// A process id together with the moment the process started, so that a reused id never names
/// a process the switcher listed earlier.
#[derive(Clone, Copy, Debug, Default, PartialEq, Eq, Hash, Structural)]
pub struct ProcessIdentity {
    pub id: u32,
    pub started_at: u64,
}

impl ProcessIdentity {
    pub fn new(id: u32, started_at: u64) -> (identity: Self)
        ensures
            identity == (ProcessIdentity { id, started_at }),
    {
        Self { id, started_at }
    }
}

} // verus!
