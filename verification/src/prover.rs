use vstd::prelude::*;

use crate::commitment::{spec_commitment_encoding, Commitment, StateCommitment};
use crate::errors::Error;
use crate::commitment_proof::CommitmentProof;

verus! {

/// The enclave key service: an opaque signing capability held by the host.
///
/// The library never inspects key material; implementations sign a message
/// and name the signer. A signing failure must surface as an error, never
/// as a partially formed signature.
pub trait EnclaveKey {
    /// The signer identity placed into every proof this key produces.
    fn address(&self) -> Vec<u8>;

    /// Signs the message with the enclave-held key.
    fn sign(&self, message: &Vec<u8>) -> Result<Vec<u8>, Error>;
}

/// Binds the enclave key to a commitment: encodes the commitment, signs the
/// encoded bytes, and packages bytes, signer and signature. A signing
/// failure propagates; no partially formed proof is returned.
pub fn prove_commitment<K: EnclaveKey>(key: &K, commitment: &Commitment) -> (r: Result<
    CommitmentProof,
    Error,
>)
    ensures
        r matches Ok(p) ==> p.commitment_bytes@ == spec_commitment_encoding(*commitment),
{
    let commitment_bytes = commitment.ethabi_encode();
    let signature = match key.sign(&commitment_bytes) {
        Ok(s) => s,
        Err(e) => {
            return Err(e);
        },
    };
    let signer = key.address();
    Ok(CommitmentProof { commitment_bytes, signer, signature })
}

/// Proves a state commitment, as the dispatch layer does after a delegated
/// verification succeeds.
pub fn prove_state_commitment<K: EnclaveKey>(key: &K, commitment: StateCommitment) -> (r: Result<
    CommitmentProof,
    Error,
>)
    ensures
        r matches Ok(p) ==> p.commitment_bytes@ == spec_commitment_encoding(
            Commitment::State(commitment),
        ),
{
    prove_commitment(key, &Commitment::State(commitment))
}

} // verus!
