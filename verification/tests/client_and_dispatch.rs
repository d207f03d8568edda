use commitments::{
    verify_channel, verify_client, verify_client_consensus, verify_connection, Any, ClientReader,
    ClientState, CommitmentContext, ConsensusState, Duration, EnclaveKey, Error, Header, Height,
    LCPClient, LightClient, LightClientRegistry, LightClientResult, RawClientState, RawHeight,
    SignatureVerifier, SignerRegistry, StateCommitment, StateID, StateVerificationResult, Time,
    UpdateClientCommitment, VerifyChannelInput, VerifyClientConsensusInput, VerifyClientInput,
    VerifyConnectionInput, HostStore, STATE_ID_SIZE,
};
use commitments::check_client_state_type_url;

fn sample_state_id(fill: u8) -> StateID {
    StateID {
        bytes: vec![fill; STATE_ID_SIZE],
    }
}

fn sample_header(prev: Option<(Height, StateID)>) -> Header {
    let (prev_height, prev_state_id) = match prev {
        Some((h, id)) => (Some(h), Some(id)),
        None => (None, None),
    };
    let commitment = UpdateClientCommitment {
        prev_state_id,
        new_state_id: sample_state_id(0x42),
        new_state: None,
        prev_height,
        new_height: Height::new(0, 20),
        timestamp: Time::from_unix_timestamp_nanos(1_692_489_600_500_000_000).unwrap(),
        validation_params: CommitmentContext::Empty,
    };
    let commitment_bytes =
        commitments::Commitment::UpdateClient(commitment.clone()).ethabi_encode();
    Header {
        commitment,
        commitment_bytes,
        signer: vec![0xaa; 20],
        signature: vec![0x01; 65],
    }
}

fn sample_client_state(height: Height) -> ClientState {
    ClientState {
        latest_height: height,
        mr_enclave: vec![0xee; 32],
        key_expiration: Duration::from_secs(3600),
    }
}

struct OneStateReader {
    height: Height,
    state: ConsensusState,
}

impl ClientReader for OneStateReader {
    fn consensus_state(&self, _client_id: &String, height: &Height) -> Option<ConsensusState> {
        if *height == self.height {
            Some(self.state.clone())
        } else {
            None
        }
    }
}

struct AllowList {
    allowed: Vec<Vec<u8>>,
}

impl SignerRegistry for AllowList {
    fn contains(&self, _client_state: &ClientState, signer: &Vec<u8>) -> bool {
        self.allowed.iter().any(|s| s == signer)
    }
}

fn allow_sample_signer() -> AllowList {
    AllowList {
        allowed: vec![vec![0xaa; 20]],
    }
}

struct FixedVerifier {
    signer: Option<Vec<u8>>,
}

impl SignatureVerifier for FixedVerifier {
    fn recover_signer(&self, _message: &Vec<u8>, _signature: &Vec<u8>) -> Option<Vec<u8>> {
        self.signer.clone()
    }
}

#[test]
fn header_without_prev_state_is_rejected() {
    let client = LCPClient::default();
    let reader = OneStateReader {
        height: Height::new(0, 10),
        state: ConsensusState {
            state_id: sample_state_id(0x24),
            timestamp: 0,
        },
    };
    let verifier = FixedVerifier {
        signer: Some(vec![0xaa; 20]),
    };
    let res = client.check_header_and_update_state(
        &reader,
        &allow_sample_signer(),
        &verifier,
        "lcp-0".to_string(),
        sample_client_state(Height::new(0, 10)),
        sample_header(None),
    );
    assert_eq!(res.unwrap_err(), Error::MissingPrevState);
}

#[test]
fn missing_consensus_state_is_reported() {
    let client = LCPClient::default();
    let reader = OneStateReader {
        height: Height::new(0, 99),
        state: ConsensusState {
            state_id: sample_state_id(0x24),
            timestamp: 0,
        },
    };
    let verifier = FixedVerifier {
        signer: Some(vec![0xaa; 20]),
    };
    let res = client.check_header_and_update_state(
        &reader,
        &allow_sample_signer(),
        &verifier,
        "lcp-0".to_string(),
        sample_client_state(Height::new(0, 10)),
        sample_header(Some((Height::new(0, 10), sample_state_id(0x24)))),
    );
    assert!(matches!(
        res.unwrap_err(),
        Error::ConsensusStateNotFound { .. }
    ));
}

#[test]
fn state_id_mismatch_is_rejected() {
    let client = LCPClient::default();
    let reader = OneStateReader {
        height: Height::new(0, 10),
        state: ConsensusState {
            state_id: sample_state_id(0x77),
            timestamp: 0,
        },
    };
    let verifier = FixedVerifier {
        signer: Some(vec![0xaa; 20]),
    };
    let res = client.check_header_and_update_state(
        &reader,
        &allow_sample_signer(),
        &verifier,
        "lcp-0".to_string(),
        sample_client_state(Height::new(0, 10)),
        sample_header(Some((Height::new(0, 10), sample_state_id(0x24)))),
    );
    assert!(matches!(res.unwrap_err(), Error::StateIdMismatch { .. }));
}

#[test]
fn signer_mismatch_and_recovery_failure_are_rejected() {
    let client = LCPClient::default();
    let reader = OneStateReader {
        height: Height::new(0, 10),
        state: ConsensusState {
            state_id: sample_state_id(0x24),
            timestamp: 0,
        },
    };
    let header = sample_header(Some((Height::new(0, 10), sample_state_id(0x24))));

    let verifier = FixedVerifier { signer: None };
    let res = client.check_header_and_update_state(
        &reader,
        &allow_sample_signer(),
        &verifier,
        "lcp-0".to_string(),
        sample_client_state(Height::new(0, 10)),
        header.clone(),
    );
    assert_eq!(res.unwrap_err(), Error::SignatureRecoveryFailed);

    let verifier = FixedVerifier {
        signer: Some(vec![0xbb; 20]),
    };
    let res = client.check_header_and_update_state(
        &reader,
        &allow_sample_signer(),
        &verifier,
        "lcp-0".to_string(),
        sample_client_state(Height::new(0, 10)),
        header,
    );
    assert!(matches!(res.unwrap_err(), Error::SignerMismatch { .. }));
}

#[test]
fn successful_update_advances_the_client() {
    let client = LCPClient::default();
    let reader = OneStateReader {
        height: Height::new(0, 10),
        state: ConsensusState {
            state_id: sample_state_id(0x24),
            timestamp: 0,
        },
    };
    let verifier = FixedVerifier {
        signer: Some(vec![0xaa; 20]),
    };
    let res = client.check_header_and_update_state(
        &reader,
        &allow_sample_signer(),
        &verifier,
        "lcp-0".to_string(),
        sample_client_state(Height::new(0, 10)),
        sample_header(Some((Height::new(0, 10), sample_state_id(0x24)))),
    );
    let (new_client_state, new_consensus_state) = res.unwrap();
    assert_eq!(new_client_state.latest_height, Height::new(0, 20));
    assert_eq!(new_client_state.mr_enclave, vec![0xee; 32]);
    assert_eq!(new_consensus_state.state_id, sample_state_id(0x42));
    // The header timestamp is truncated to whole seconds.
    assert_eq!(new_consensus_state.timestamp, 1_692_489_600);
}

#[test]
fn with_header_only_advances_the_height() {
    // A header behind the latest height leaves the client state unchanged.
    let state = sample_client_state(Height::new(1, 50));
    let header = sample_header(Some((Height::new(0, 10), sample_state_id(0x24))));
    let updated = state.with_header(&header);
    assert_eq!(updated.latest_height, Height::new(1, 50));

    let state = sample_client_state(Height::new(0, 5));
    let updated = state.with_header(&header);
    assert_eq!(updated.latest_height, Height::new(0, 20));
}

#[test]
fn raw_client_state_conversions() {
    let state = sample_client_state(Height::new(2, 8));
    let raw = RawClientState::from_client_state(state.clone());
    assert_eq!(raw.key_expiration, 3600);
    assert_eq!(
        raw.latest_height,
        Some(RawHeight {
            revision_number: 2,
            revision_height: 8
        })
    );
    let back = ClientState::try_from_raw(raw).unwrap();
    assert_eq!(back, state);

    let raw = RawClientState {
        latest_height: None,
        mrenclave: vec![],
        key_expiration: 0,
        allowed_quote_statuses: vec![],
        allowed_advisory_ids: vec![],
    };
    assert_eq!(
        ClientState::try_from_raw(raw).unwrap_err(),
        Error::MissingLatestHeight
    );
}

struct TestLightClient;

impl LightClient for TestLightClient {
    fn verify_client(
        &self,
        _client_id: &String,
        _target_any_client_state: &Any,
        _prefix: &Vec<u8>,
        _counterparty_client_id: &String,
        _proof: &Vec<u8>,
        proof_height: &Height,
    ) -> Result<StateVerificationResult, Error> {
        Ok(StateVerificationResult {
            state_commitment: StateCommitment {
                prefix: b"ibc".to_vec(),
                path: b"clients/upstream/clientState".to_vec(),
                value: Some(vec![1, 2, 3]),
                height: *proof_height,
                state_id: sample_state_id(0x55),
            },
        })
    }

    fn verify_client_consensus(
        &self,
        _client_id: &String,
        _target_any_client_consensus_state: &Any,
        _prefix: &Vec<u8>,
        _counterparty_client_id: &String,
        _counterparty_consensus_height: &Height,
        _proof: &Vec<u8>,
        proof_height: &Height,
    ) -> Result<StateVerificationResult, Error> {
        self.verify_client(
            _client_id,
            _target_any_client_consensus_state,
            _prefix,
            _counterparty_client_id,
            _proof,
            proof_height,
        )
    }

    fn verify_connection(
        &self,
        _client_id: &String,
        _expected_connection: &Vec<u8>,
        _prefix: &Vec<u8>,
        _counterparty_connection_id: &String,
        _proof: &Vec<u8>,
        _proof_height: &Height,
    ) -> Result<StateVerificationResult, Error> {
        Err(Error::LightClientSpecific {
            description: "proof mismatch".to_string(),
        })
    }

    fn verify_channel(
        &self,
        _client_id: &String,
        _expected_channel: &Vec<u8>,
        _prefix: &Vec<u8>,
        _counterparty_port_id: &String,
        _counterparty_channel_id: &String,
        _proof: &Vec<u8>,
        proof_height: &Height,
    ) -> Result<StateVerificationResult, Error> {
        Ok(StateVerificationResult {
            state_commitment: StateCommitment {
                prefix: b"ibc".to_vec(),
                path: b"channelEnds/ports/transfer/channels/channel-0".to_vec(),
                value: None,
                height: *proof_height,
                state_id: sample_state_id(0x66),
            },
        })
    }
}

struct OneClientStore;

impl HostStore for OneClientStore {
    fn client_type(&self, client_id: &String) -> Option<String> {
        if client_id == "lcp-0" {
            Some("/upstream.ClientState".to_string())
        } else {
            None
        }
    }

    fn client_state(&self, _client_id: &String) -> Option<Any> {
        None
    }

    fn consensus_state(&self, _client_id: &String, _height: &Height) -> Option<Any> {
        None
    }
}

struct TestKey;

impl EnclaveKey for TestKey {
    fn address(&self) -> Vec<u8> {
        vec![0xab; 20]
    }

    fn sign(&self, _message: &Vec<u8>) -> Result<Vec<u8>, Error> {
        Ok(vec![0x99; 65])
    }
}

fn registry() -> LightClientRegistry<TestLightClient> {
    let mut registry = LightClientRegistry::new();
    registry.put_light_client("/upstream.ClientState".to_string(), TestLightClient);
    registry
}

fn client_input(client_id: &str) -> VerifyClientInput {
    VerifyClientInput {
        client_id: client_id.to_string(),
        target_any_client_state: Any::new("/upstream.ClientState".to_string(), vec![1]),
        prefix: b"ibc".to_vec(),
        counterparty_client_id: "upstream-0".to_string(),
        proof: vec![0x77; 8],
        proof_height: Height::new(0, 123),
    }
}

#[test]
fn verify_client_produces_a_signed_proof() {
    let res = verify_client(&OneClientStore, &registry(), &TestKey, client_input("lcp-0"));
    match res.unwrap() {
        LightClientResult::VerifyClient(vr) => {
            let expected = commitments::Commitment::State(StateCommitment {
                prefix: b"ibc".to_vec(),
                path: b"clients/upstream/clientState".to_vec(),
                value: Some(vec![1, 2, 3]),
                height: Height::new(0, 123),
                state_id: sample_state_id(0x55),
            })
            .ethabi_encode();
            assert_eq!(vr.0.commitment_bytes, expected);
            assert_eq!(vr.0.signer, vec![0xab; 20]);
            assert_eq!(vr.0.signature, vec![0x99; 65]);
        }
        _ => panic!("unexpected result variant"),
    }
}

#[test]
fn unknown_client_id_is_reported() {
    let res = verify_client(&OneClientStore, &registry(), &TestKey, client_input("lcp-9"));
    assert!(matches!(res.unwrap_err(), Error::ClientNotFound { .. }));
}

#[test]
fn unregistered_client_type_is_reported() {
    let registry: LightClientRegistry<TestLightClient> = LightClientRegistry::new();
    let res = verify_client(&OneClientStore, &registry, &TestKey, client_input("lcp-0"));
    assert!(matches!(
        res.unwrap_err(),
        Error::UnregisteredClientType { .. }
    ));
}

#[test]
fn delegated_failure_passes_through() {
    let input = VerifyConnectionInput {
        client_id: "lcp-0".to_string(),
        expected_connection: vec![1, 2],
        prefix: b"ibc".to_vec(),
        counterparty_connection_id: "connection-0".to_string(),
        proof: vec![0x77; 8],
        proof_height: Height::new(0, 123),
    };
    let res = verify_connection(&OneClientStore, &registry(), &TestKey, input);
    assert_eq!(
        res.unwrap_err(),
        Error::LightClientSpecific {
            description: "proof mismatch".to_string()
        }
    );
}

#[test]
fn consensus_and_channel_dispatch_produce_matching_variants() {
    let input = VerifyClientConsensusInput {
        client_id: "lcp-0".to_string(),
        target_any_client_consensus_state: Any::new(
            "/upstream.ConsensusState".to_string(),
            vec![2],
        ),
        prefix: b"ibc".to_vec(),
        counterparty_client_id: "upstream-0".to_string(),
        counterparty_consensus_height: Height::new(0, 120),
        proof: vec![0x77; 8],
        proof_height: Height::new(0, 123),
    };
    let res = verify_client_consensus(&OneClientStore, &registry(), &TestKey, input);
    assert!(matches!(
        res.unwrap(),
        LightClientResult::VerifyClientConsensus(_)
    ));

    let input = VerifyChannelInput {
        client_id: "lcp-0".to_string(),
        expected_channel: vec![3, 4],
        prefix: b"ibc".to_vec(),
        counterparty_port_id: "transfer".to_string(),
        counterparty_channel_id: "channel-0".to_string(),
        proof: vec![0x77; 8],
        proof_height: Height::new(0, 123),
    };
    let res = verify_channel(&OneClientStore, &registry(), &TestKey, input);
    assert!(matches!(res.unwrap(), LightClientResult::VerifyChannel(_)));
}

#[test]
fn unenrolled_signer_is_rejected() {
    let client = LCPClient::default();
    let reader = OneStateReader {
        height: Height::new(0, 10),
        state: ConsensusState {
            state_id: sample_state_id(0x24),
            timestamp: 0,
        },
    };
    let verifier = FixedVerifier {
        signer: Some(vec![0xaa; 20]),
    };
    let empty_registry = AllowList { allowed: vec![] };
    let res = client.check_header_and_update_state(
        &reader,
        &empty_registry,
        &verifier,
        "lcp-0".to_string(),
        sample_client_state(Height::new(0, 10)),
        sample_header(Some((Height::new(0, 10), sample_state_id(0x24)))),
    );
    assert_eq!(
        res.unwrap_err(),
        Error::SignerNotEnrolled {
            signer: vec![0xaa; 20]
        }
    );
}

#[test]
fn client_state_type_url_is_checked() {
    let own = commitments::client_state_type_url();
    assert!(check_client_state_type_url(&own).is_ok());
    let foreign = "/ibc.lightclients.other.v1.ClientState".to_string();
    assert_eq!(
        check_client_state_type_url(&foreign).unwrap_err(),
        Error::UnexpectedClientType { type_url: foreign }
    );
}
