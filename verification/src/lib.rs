use vstd::prelude::*;

mod abi;
mod client_def;
mod client_state;
mod commitment;
mod commitment_proof;
mod consensus_state;
mod context;
mod encoder;
mod errors;
mod header;
mod prover;
mod state;
mod time;
mod verify_state;

pub use client_def::{
    spec_opt_state_id_bytes, ClientReader, LCPClient, SignatureVerifier, SignerRegistry,
};
pub use client_state::{
    check_client_state_type_url, client_state_type_url, spec_advanced_height,
    spec_client_state_type_url, ClientState, RawClientState, RawHeight, UpgradeOptions,
};
pub use commitment::{
    lemma_commitment_round_trip, lemma_state_commitment_round_trip,
    lemma_update_client_commitment_round_trip, spec_commitment_body, spec_commitment_decoding,
    spec_commitment_encoding, spec_commitment_header, spec_state_commitment_body,
    spec_state_commitment_decode, spec_update_client_commitment_body,
    spec_update_client_commitment_decode, Commitment, CommitmentPrefix, CommitmentView, Height,
    StateCommitment, StateCommitmentView, UpdateClientCommitment, UpdateClientCommitmentView,
    COMMITMENT_TYPE_STATE, COMMITMENT_TYPE_UPDATE_CLIENT,
};
pub use consensus_state::ConsensusState;
pub use context::{
    lemma_clock_drift_boundary_fails, lemma_clock_drift_boundary_succeeds,
    lemma_context_round_trip, lemma_empty_with_body_rejected, lemma_header_discriminant,
    lemma_outer_round_trip, lemma_trust_period_boundary_fails,
    lemma_trust_period_boundary_succeeds, lemma_unknown_type_rejected, spec_context_body,
    spec_context_decoding, spec_context_encoding, spec_context_type, spec_header_bytes,
    spec_header_from_past, spec_outer_decode, spec_outer_encoding, spec_parse_context_type,
    spec_tpc_body, spec_tpc_decode, spec_tpc_validate, spec_validate, spec_within_trust_period,
    CommitmentContext, TrustingPeriodContext, COMMITMENT_CONTEXT_HEADER_SIZE,
    COMMITMENT_CONTEXT_TYPE_EMPTY, COMMITMENT_CONTEXT_TYPE_WITHIN_TRUSTING_PERIOD,
};
pub use encoder::EthABIEncoder;
pub use errors::Error;
pub use header::Header;
pub use commitment_proof::CommitmentProof;
pub use prover::{prove_commitment, prove_state_commitment, EnclaveKey};
pub use state::{
    any_proto_bytes_of, gen_state_id_from_any, gen_state_id_from_bytes, sha256_of, Any, StateID,
    STATE_ID_SIZE,
};
pub use time::{Duration, Time, MAX_DURATION_NANOS, MAX_UNIX_TIMESTAMP_NANOS, NANOS_PER_SEC};
pub use verify_state::{
    verify_channel, verify_client, verify_client_consensus, verify_connection, HostStore,
    LightClient, LightClientRegistry, LightClientResult, StateVerificationResult,
    VerifyChannelInput, VerifyChannelResult, VerifyClientConsensusInput,
    VerifyClientConsensusResult, VerifyClientInput, VerifyClientResult, VerifyConnectionInput,
    VerifyConnectionResult,
};

verus! {

} // verus!
