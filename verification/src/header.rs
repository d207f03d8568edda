use vstd::prelude::*;

use crate::commitment::{
    spec_commitment_encoding, Commitment, Height, UpdateClientCommitment,
};
use crate::state::StateID;
use crate::time::NANOS_PER_SEC;

verus! {

/// A client update presented for verification: the update-client commitment
/// the enclave attested, the exact bytes it was signed over, the signer it
/// names, and the signature.
#[derive(Clone, Debug, PartialEq, Eq)]
pub struct Header {
    pub commitment: UpdateClientCommitment,
    pub commitment_bytes: Vec<u8>,
    pub signer: Vec<u8>,
    pub signature: Vec<u8>,
}

impl Header {
    /// A well-formed header carries a well-formed commitment, and its byte
    /// field is exactly the commitment's wire form: the bytes the signature
    /// is checked over are the bytes the commitment was parsed from.
    pub open spec fn wf(self) -> bool {
        &&& self.commitment.wf()
        &&& self.commitment_bytes@ == spec_commitment_encoding(
            Commitment::UpdateClient(self.commitment),
        )
    }

    pub fn prev_height(&self) -> (r: &Option<Height>)
        ensures
            r == &self.commitment.prev_height,
    {
        &self.commitment.prev_height
    }

    pub fn prev_state_id(&self) -> (r: &Option<StateID>)
        ensures
            r == &self.commitment.prev_state_id,
    {
        &self.commitment.prev_state_id
    }

    pub fn state_id(&self) -> (r: &StateID)
        ensures
            r == &self.commitment.new_state_id,
    {
        &self.commitment.new_state_id
    }

    pub fn height(&self) -> (r: Height)
        ensures
            r == self.commitment.new_height,
    {
        self.commitment.new_height
    }

    /// The commitment's timestamp in whole unix seconds, as the consensus
    /// state stores it; sub-second nanoseconds are truncated.
    pub fn timestamp_as_u64(&self) -> (r: u64)
        requires
            self.commitment.timestamp.wf(),
        ensures
            r == self.commitment.timestamp.nanos / NANOS_PER_SEC,
    {
        let d = crate::time::Duration { nanos: self.commitment.timestamp.nanos };
        d.as_secs()
    }

    pub fn signer(&self) -> (r: &Vec<u8>)
        ensures
            r == &self.signer,
    {
        &self.signer
    }
}

} // verus!
