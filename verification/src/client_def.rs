use vstd::prelude::*;

use crate::client_state::{spec_advanced_height, ClientState};
use crate::commitment::Height;
use crate::consensus_state::ConsensusState;
use crate::errors::Error;
use crate::header::Header;
use crate::state::StateID;
use crate::time::NANOS_PER_SEC;
use vstd::pervasive::unreached;

verus! {

/// The enclave light client: verifies attested client updates and advances
/// the stored state.
#[derive(Clone, Debug, Default, PartialEq, Eq)]
pub struct LCPClient {}

/// The host store of consensus states, read when a header names its
/// previous height. The collaborator owns decoding and persistence; this
/// library sees only the typed value, or nothing.
pub trait ClientReader {
    fn consensus_state(&self, client_id: &String, height: &Height) -> Option<ConsensusState>;
}

/// The signature-recovery capability: given a message and a signature,
/// names the address that produced it, or nothing when the signature does
/// not verify.
pub trait SignatureVerifier {
    fn recover_signer(&self, message: &Vec<u8>, signature: &Vec<u8>) -> Option<Vec<u8>>;
}

/// The host's record of which signers a client state accepts: the
/// enrollment of attested enclave keys lives with the collaborator, and the
/// update path asks it before trusting a header's signer.
pub trait SignerRegistry {
    fn contains(&self, client_state: &ClientState, signer: &Vec<u8>) -> bool;
}

/// The bytes of an optional state id; empty when absent.
pub open spec fn spec_opt_state_id_bytes(o: Option<StateID>) -> Seq<u8> {
    match o {
        Option::Some(id) => id.bytes@,
        Option::None => Seq::<u8>::empty(),
    }
}

/// The bytes of an optional byte vector; empty when absent.
pub open spec fn spec_opt_bytes(o: Option<Vec<u8>>) -> Seq<u8> {
    match o {
        Option::Some(v) => v@,
        Option::None => Seq::<u8>::empty(),
    }
}

fn bytes_eq(a: &Vec<u8>, b: &Vec<u8>) -> (r: bool)
    ensures
        r == (a@ == b@),
{
    if a.len() != b.len() {
        return false;
    }
    let mut i: usize = 0;
    while i < a.len()
        invariant
            a@.len() == b@.len(),
            i <= a@.len(),
            forall|j: int| 0 <= j < i ==> a@[j] == b@[j],
        decreases a@.len() - i,
    {
        if a[i] != b[i] {
            return false;
        }
        i = i + 1;
    }
    proof {
        assert(a@ =~= b@);
    }
    true
}

impl LCPClient {
    /// Applies an update whose collaborator calls already ran: checks the
    /// stored previous state id against the one the header names, checks
    /// that the host enrolls the named signer, checks the recovered signer
    /// against the one the header carries, and on success returns the
    /// advanced client state and the new consensus state. Verified for
    /// every possible enrollment answer and recovery outcome: the update
    /// succeeds exactly when all three checks pass.
    pub fn apply_header(
        &self,
        prev_consensus_state: &ConsensusState,
        client_state: ClientState,
        header: &Header,
        signer_enrolled: bool,
        recovered_signer: Option<Vec<u8>>,
    ) -> (r: Result<(ClientState, ConsensusState), Error>)
        requires
            header.commitment.prev_state_id is Some,
            header.commitment.timestamp.wf(),
        ensures
            r is Ok <==> (prev_consensus_state.state_id.bytes@ == spec_opt_state_id_bytes(
                header.commitment.prev_state_id,
            ) && signer_enrolled && (recovered_signer matches Some(s) && s@ == header.signer@)),
            r matches Ok((cs, ns)) ==> {
                &&& cs.latest_height == spec_advanced_height(
                    client_state.latest_height,
                    header.commitment.new_height,
                )
                &&& cs.mr_enclave@ == client_state.mr_enclave@
                &&& cs.key_expiration == client_state.key_expiration
                &&& ns.state_id.bytes@ == header.commitment.new_state_id.bytes@
                &&& ns.timestamp == header.commitment.timestamp.nanos / NANOS_PER_SEC
            },
            prev_consensus_state.state_id.bytes@ != spec_opt_state_id_bytes(
                header.commitment.prev_state_id,
            ) ==> (r matches Err(e) && (e matches Error::StateIdMismatch {
                expected_state_id,
                actual_state_id,
            } && expected_state_id.bytes@ == spec_opt_state_id_bytes(
                header.commitment.prev_state_id,
            ) && actual_state_id.bytes@ == prev_consensus_state.state_id.bytes@)),
            (prev_consensus_state.state_id.bytes@ == spec_opt_state_id_bytes(
                header.commitment.prev_state_id,
            ) && !signer_enrolled) ==> (r matches Err(e) && (e matches Error::SignerNotEnrolled {
                signer,
            } && signer@ == header.signer@)),
            (prev_consensus_state.state_id.bytes@ == spec_opt_state_id_bytes(
                header.commitment.prev_state_id,
            ) && signer_enrolled && recovered_signer is None) ==> r == Err::<
                (ClientState, ConsensusState),
                Error,
            >(Error::SignatureRecoveryFailed),
            (prev_consensus_state.state_id.bytes@ == spec_opt_state_id_bytes(
                header.commitment.prev_state_id,
            ) && signer_enrolled && (recovered_signer matches Some(s) && s@ != header.signer@))
                ==> (r matches Err(e) && (e matches Error::SignerMismatch {
                expected_signer,
                actual_signer,
            } && expected_signer@ == header.signer@ && actual_signer@ == spec_opt_bytes(
                recovered_signer,
            ))),
    {
        let prev_id: &StateID = match header.prev_state_id() {
            Some(id) => id,
            None => unreached(),
        };
        if !bytes_eq(&prev_consensus_state.state_id.bytes, &prev_id.bytes) {
            return Err(
                Error::StateIdMismatch {
                    expected_state_id: StateID { bytes: prev_id.bytes.clone() },
                    actual_state_id: StateID { bytes: prev_consensus_state.state_id.bytes.clone() },
                },
            );
        }
        if !signer_enrolled {
            return Err(Error::SignerNotEnrolled { signer: header.signer.clone() });
        }
        let recovered = match recovered_signer {
            Some(s) => s,
            None => {
                return Err(Error::SignatureRecoveryFailed);
            },
        };
        if !bytes_eq(&recovered, &header.signer) {
            return Err(
                Error::SignerMismatch {
                    expected_signer: header.signer.clone(),
                    actual_signer: recovered,
                },
            );
        }
        let new_consensus_state = ConsensusState {
            state_id: StateID { bytes: header.commitment.new_state_id.bytes.clone() },
            timestamp: header.timestamp_as_u64(),
        };
        Ok((client_state.with_header(header), new_consensus_state))
    }

    /// Validates a header end to end: a header lacking its previous height
    /// or state id is rejected, and only such a header is, the previous
    /// consensus state is read from the host store, the host is asked
    /// whether it enrolls the header's signer, the signer is recovered
    /// from the commitment bytes, and `apply_header` runs the verified
    /// checks on the collaborators' answers. Every failure is one of the
    /// update path's own errors.
    pub fn check_header_and_update_state<R: ClientReader, G: SignerRegistry, V: SignatureVerifier>(
        &self,
        ctx: &R,
        signer_registry: &G,
        verifier: &V,
        client_id: String,
        client_state: ClientState,
        header: Header,
    ) -> (r: Result<(ClientState, ConsensusState), Error>)
        requires
            header.commitment.timestamp.wf(),
        ensures
            r == Err::<(ClientState, ConsensusState), Error>(Error::MissingPrevState) <==> (
            header.commitment.prev_height is None || header.commitment.prev_state_id is None),
            r matches Ok((cs, ns)) ==> {
                &&& cs.latest_height == spec_advanced_height(
                    client_state.latest_height,
                    header.commitment.new_height,
                )
                &&& cs.mr_enclave@ == client_state.mr_enclave@
                &&& cs.key_expiration == client_state.key_expiration
                &&& ns.state_id.bytes@ == header.commitment.new_state_id.bytes@
                &&& ns.timestamp == header.commitment.timestamp.nanos / NANOS_PER_SEC
            },
            r matches Err(e) ==> ((e matches Error::MissingPrevState) || (e
                matches Error::ConsensusStateNotFound { .. }) || (e
                matches Error::StateIdMismatch { .. }) || (e matches Error::SignerNotEnrolled {
                ..
            }) || e == Error::SignatureRecoveryFailed || (e matches Error::SignerMismatch { .. })),
    {
        // header validation
        if header.prev_height().is_none() || header.prev_state_id().is_none() {
            return Err(Error::MissingPrevState);
        }
        let prev_height: Height = match header.prev_height() {
            Some(h) => *h,
            None => unreached(),
        };
        let prev_consensus_state = match ctx.consensus_state(&client_id, &prev_height) {
            Some(cs) => cs,
            None => {
                return Err(Error::ConsensusStateNotFound { client_id, height: prev_height });
            },
        };
        // check whether the named signer is enrolled for this client state
        let signer_enrolled = signer_registry.contains(&client_state, &header.signer);
        let recovered = verifier.recover_signer(&header.commitment_bytes, &header.signature);
        self.apply_header(&prev_consensus_state, client_state, &header, signer_enrolled, recovered)
    }
}

} // verus!
