use vstd::prelude::*;

verus! {

/// A signed, encoded commitment: the wire form of the commitment, the
/// identity of the enclave key that signed it, and the signature over the
/// encoded bytes. Produced once per verification call and immutable
/// afterwards; the caller forwards it to the on-chain verifier.
#[derive(Clone, Debug, PartialEq, Eq)]
pub struct CommitmentProof {
    pub commitment_bytes: Vec<u8>,
    pub signer: Vec<u8>,
    pub signature: Vec<u8>,
}

impl CommitmentProof {
    pub fn new(commitment_bytes: Vec<u8>, signer: Vec<u8>, signature: Vec<u8>) -> (r:
        CommitmentProof)
        ensures
            r.commitment_bytes@ == commitment_bytes@,
            r.signer@ == signer@,
            r.signature@ == signature@,
    {
        CommitmentProof { commitment_bytes, signer, signature }
    }
}

} // verus!
