use vstd::prelude::*;

use crate::state::StateID;

verus! {

/// The per-height state a verified update leaves behind: the id of the
/// state snapshot and the header's timestamp in whole unix seconds.
/// Derived once per header and never mutated afterwards.
#[derive(Clone, Debug, PartialEq, Eq)]
pub struct ConsensusState {
    pub state_id: StateID,
    pub timestamp: u64,
}

impl ConsensusState {
    pub open spec fn wf(self) -> bool {
        self.state_id.wf()
    }
}

} // verus!
