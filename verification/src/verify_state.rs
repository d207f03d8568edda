use vstd::prelude::*;

use crate::commitment::{spec_commitment_encoding, Commitment, Height, StateCommitment};
use crate::errors::Error;
use crate::prover::{prove_state_commitment, EnclaveKey};
use crate::state::Any;

verus! {

/// What a delegated verification hands back on success.
pub struct StateVerificationResult {
    pub state_commitment: StateCommitment,
}

/// A registered light-client implementation: the protocol-specific
/// membership and state checks the dispatch layer delegates to. Each
/// method verifies one kind of fact against the counterparty chain's
/// committed root and reports a state commitment, or its own failure,
/// which the dispatch layer passes through unchanged.
pub trait LightClient {
    fn verify_client(
        &self,
        client_id: &String,
        target_any_client_state: &Any,
        prefix: &Vec<u8>,
        counterparty_client_id: &String,
        proof: &Vec<u8>,
        proof_height: &Height,
    ) -> Result<StateVerificationResult, Error>;

    fn verify_client_consensus(
        &self,
        client_id: &String,
        target_any_client_consensus_state: &Any,
        prefix: &Vec<u8>,
        counterparty_client_id: &String,
        counterparty_consensus_height: &Height,
        proof: &Vec<u8>,
        proof_height: &Height,
    ) -> Result<StateVerificationResult, Error>;

    fn verify_connection(
        &self,
        client_id: &String,
        expected_connection: &Vec<u8>,
        prefix: &Vec<u8>,
        counterparty_connection_id: &String,
        proof: &Vec<u8>,
        proof_height: &Height,
    ) -> Result<StateVerificationResult, Error>;

    fn verify_channel(
        &self,
        client_id: &String,
        expected_channel: &Vec<u8>,
        prefix: &Vec<u8>,
        counterparty_port_id: &String,
        counterparty_channel_id: &String,
        proof: &Vec<u8>,
        proof_height: &Height,
    ) -> Result<StateVerificationResult, Error>;
}

/// The light-client registry: an explicit mapping from a client-state type
/// identifier to the implementation registered for it, owned by the caller
/// and passed by reference into each dispatch call.
pub struct LightClientRegistry<L> {
    pub entries: Vec<(String, L)>,
}

impl<L> LightClientRegistry<L> {
    pub open spec fn spec_has_type(self, client_state_type: Seq<char>) -> bool {
        exists|i: int|
            0 <= i < self.entries@.len() && self.entries@[i].0@ == client_state_type
    }

    pub fn new() -> (r: LightClientRegistry<L>)
        ensures
            r.entries@.len() == 0,
    {
        LightClientRegistry { entries: Vec::new() }
    }

    /// Registers an implementation under a client-state type identifier.
    pub fn put_light_client(&mut self, client_state_type: String, lc: L)
        ensures
            final(self).entries@ == old(self).entries@.push((client_state_type, lc)),
    {
        self.entries.push((client_state_type, lc));
    }

    /// Resolves the implementation registered first under the type
    /// identifier; `None` exactly when none is registered.
    pub fn resolve(&self, client_state_type: &String) -> (r: Option<&L>)
        ensures
            r matches Some(lc) ==> exists|i: int|
                #![auto]
                0 <= i < self.entries@.len() && self.entries@[i].0@ == client_state_type@ && *lc
                    == self.entries@[i].1,
            r is Some <==> self.spec_has_type(client_state_type@),
    {
        let mut i: usize = 0;
        while i < self.entries.len()
            invariant
                i <= self.entries@.len(),
                forall|j: int| 0 <= j < i ==> self.entries@[j].0@ != client_state_type@,
            decreases self.entries@.len() - i,
        {
            if self.entries[i].0 == *client_state_type {
                proof {
                    assert(self.entries@[i as int].0@ == client_state_type@);
                }
                return Some(&self.entries[i].1);
            }
            i = i + 1;
        }
        None
    }
}

/// The host store of client records, as the collaborator exposes it:
/// lookups keyed by client id, `None` when nothing is stored.
pub trait HostStore {
    fn client_type(&self, client_id: &String) -> Option<String>;

    fn client_state(&self, client_id: &String) -> Option<Any>;

    fn consensus_state(&self, client_id: &String, height: &Height) -> Option<Any>;
}

/// The typed result of each dispatch entry point.
#[derive(Debug)]
pub struct VerifyClientResult(pub crate::commitment_proof::CommitmentProof);

#[derive(Debug)]
pub struct VerifyClientConsensusResult(pub crate::commitment_proof::CommitmentProof);

#[derive(Debug)]
pub struct VerifyConnectionResult(pub crate::commitment_proof::CommitmentProof);

#[derive(Debug)]
pub struct VerifyChannelResult(pub crate::commitment_proof::CommitmentProof);

#[derive(Debug)]
pub enum LightClientResult {
    VerifyClient(VerifyClientResult),
    VerifyClientConsensus(VerifyClientConsensusResult),
    VerifyConnection(VerifyConnectionResult),
    VerifyChannel(VerifyChannelResult),
}

pub struct VerifyClientInput {
    pub client_id: String,
    pub target_any_client_state: Any,
    pub prefix: Vec<u8>,
    pub counterparty_client_id: String,
    pub proof: Vec<u8>,
    pub proof_height: Height,
}

pub struct VerifyClientConsensusInput {
    pub client_id: String,
    pub target_any_client_consensus_state: Any,
    pub prefix: Vec<u8>,
    pub counterparty_client_id: String,
    pub counterparty_consensus_height: Height,
    pub proof: Vec<u8>,
    pub proof_height: Height,
}

pub struct VerifyConnectionInput {
    pub client_id: String,
    pub expected_connection: Vec<u8>,
    pub prefix: Vec<u8>,
    pub counterparty_connection_id: String,
    pub proof: Vec<u8>,
    pub proof_height: Height,
}

pub struct VerifyChannelInput {
    pub client_id: String,
    pub expected_channel: Vec<u8>,
    pub prefix: Vec<u8>,
    pub counterparty_port_id: String,
    pub counterparty_channel_id: String,
    pub proof: Vec<u8>,
    pub proof_height: Height,
}

/// Resolves the implementation registered for a client id: the store names
/// the client's type, the registry maps the type to the implementation.
/// An unknown client id and an unregistered type are distinct terminal
/// errors; nothing defaults silently.
fn get_light_client_by_client_id<'a, S: HostStore, L: LightClient>(
    store: &S,
    registry: &'a LightClientRegistry<L>,
    client_id: &String,
) -> (r: Result<&'a L, Error>)
    ensures
        r matches Err(e) ==> (e matches Error::ClientNotFound { .. } || e
            matches Error::UnregisteredClientType { .. }),
{
    let client_type = match store.client_type(client_id) {
        Some(t) => t,
        None => {
            return Err(Error::ClientNotFound { client_id: client_id.clone() });
        },
    };
    match registry.resolve(&client_type) {
        Some(lc) => Ok(lc),
        None => Err(Error::UnregisteredClientType { client_type }),
    }
}

/// Dispatches a client verification: resolve, delegate, prove, wrap. On
/// success the result is the matching variant, its proof signed over the
/// encoding of the state commitment the delegate reported.
pub fn verify_client<S: HostStore, L: LightClient, K: EnclaveKey>(
    store: &S,
    registry: &LightClientRegistry<L>,
    key: &K,
    input: VerifyClientInput,
) -> (r: Result<LightClientResult, Error>)
    ensures
        r matches Ok(res) ==> res is VerifyClient,
        r matches Ok(res) ==> (res matches LightClientResult::VerifyClient(vr) && exists|sc:
            StateCommitment|
            vr.0.commitment_bytes@ == spec_commitment_encoding(Commitment::State(sc))),
{
    let ek = key;
    let lc = match get_light_client_by_client_id(store, registry, &input.client_id) {
        Ok(l) => l,
        Err(e) => {
            return Err(e);
        },
    };
    let res = match lc.verify_client(
        &input.client_id,
        &input.target_any_client_state,
        &input.prefix,
        &input.counterparty_client_id,
        &input.proof,
        &input.proof_height,
    ) {
        Ok(v) => v,
        Err(e) => {
            return Err(e);
        },
    };
    let ghost sc = res.state_commitment;
    let proof = match prove_state_commitment(ek, res.state_commitment) {
        Ok(p) => p,
        Err(e) => {
            return Err(e);
        },
    };
    proof {
        assert(proof.commitment_bytes@ == spec_commitment_encoding(Commitment::State(sc)));
    }
    Ok(LightClientResult::VerifyClient(VerifyClientResult(proof)))
}

/// Dispatches a consensus-state verification; the same resolve, delegate,
/// prove, wrap path, producing the matching result variant.
pub fn verify_client_consensus<S: HostStore, L: LightClient, K: EnclaveKey>(
    store: &S,
    registry: &LightClientRegistry<L>,
    key: &K,
    input: VerifyClientConsensusInput,
) -> (r: Result<LightClientResult, Error>)
    ensures
        r matches Ok(res) ==> res is VerifyClientConsensus,
        r matches Ok(res) ==> (res matches LightClientResult::VerifyClientConsensus(vr) && exists|
            sc: StateCommitment,
        | vr.0.commitment_bytes@ == spec_commitment_encoding(Commitment::State(sc))),
{
    let ek = key;
    let lc = match get_light_client_by_client_id(store, registry, &input.client_id) {
        Ok(l) => l,
        Err(e) => {
            return Err(e);
        },
    };
    let res = match lc.verify_client_consensus(
        &input.client_id,
        &input.target_any_client_consensus_state,
        &input.prefix,
        &input.counterparty_client_id,
        &input.counterparty_consensus_height,
        &input.proof,
        &input.proof_height,
    ) {
        Ok(v) => v,
        Err(e) => {
            return Err(e);
        },
    };
    let ghost sc = res.state_commitment;
    let proof = match prove_state_commitment(ek, res.state_commitment) {
        Ok(p) => p,
        Err(e) => {
            return Err(e);
        },
    };
    proof {
        assert(proof.commitment_bytes@ == spec_commitment_encoding(Commitment::State(sc)));
    }
    Ok(LightClientResult::VerifyClientConsensus(VerifyClientConsensusResult(proof)))
}

/// Dispatches a connection-state verification; the same resolve, delegate,
/// prove, wrap path, producing the matching result variant.
pub fn verify_connection<S: HostStore, L: LightClient, K: EnclaveKey>(
    store: &S,
    registry: &LightClientRegistry<L>,
    key: &K,
    input: VerifyConnectionInput,
) -> (r: Result<LightClientResult, Error>)
    ensures
        r matches Ok(res) ==> res is VerifyConnection,
        r matches Ok(res) ==> (res matches LightClientResult::VerifyConnection(vr) && exists|sc:
            StateCommitment|
            vr.0.commitment_bytes@ == spec_commitment_encoding(Commitment::State(sc))),
{
    let ek = key;
    let lc = match get_light_client_by_client_id(store, registry, &input.client_id) {
        Ok(l) => l,
        Err(e) => {
            return Err(e);
        },
    };
    let res = match lc.verify_connection(
        &input.client_id,
        &input.expected_connection,
        &input.prefix,
        &input.counterparty_connection_id,
        &input.proof,
        &input.proof_height,
    ) {
        Ok(v) => v,
        Err(e) => {
            return Err(e);
        },
    };
    let ghost sc = res.state_commitment;
    let proof = match prove_state_commitment(ek, res.state_commitment) {
        Ok(p) => p,
        Err(e) => {
            return Err(e);
        },
    };
    proof {
        assert(proof.commitment_bytes@ == spec_commitment_encoding(Commitment::State(sc)));
    }
    Ok(LightClientResult::VerifyConnection(VerifyConnectionResult(proof)))
}

/// Dispatches a channel-state verification; the same resolve, delegate,
/// prove, wrap path, producing the matching result variant.
pub fn verify_channel<S: HostStore, L: LightClient, K: EnclaveKey>(
    store: &S,
    registry: &LightClientRegistry<L>,
    key: &K,
    input: VerifyChannelInput,
) -> (r: Result<LightClientResult, Error>)
    ensures
        r matches Ok(res) ==> res is VerifyChannel,
        r matches Ok(res) ==> (res matches LightClientResult::VerifyChannel(vr) && exists|sc:
            StateCommitment|
            vr.0.commitment_bytes@ == spec_commitment_encoding(Commitment::State(sc))),
{
    let ek = key;
    let lc = match get_light_client_by_client_id(store, registry, &input.client_id) {
        Ok(l) => l,
        Err(e) => {
            return Err(e);
        },
    };
    let res = match lc.verify_channel(
        &input.client_id,
        &input.expected_channel,
        &input.prefix,
        &input.counterparty_port_id,
        &input.counterparty_channel_id,
        &input.proof,
        &input.proof_height,
    ) {
        Ok(v) => v,
        Err(e) => {
            return Err(e);
        },
    };
    let ghost sc = res.state_commitment;
    let proof = match prove_state_commitment(ek, res.state_commitment) {
        Ok(p) => p,
        Err(e) => {
            return Err(e);
        },
    };
    proof {
        assert(proof.commitment_bytes@ == spec_commitment_encoding(Commitment::State(sc)));
    }
    Ok(LightClientResult::VerifyChannel(VerifyChannelResult(proof)))
}

} // verus!
