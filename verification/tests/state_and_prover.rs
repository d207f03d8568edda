use commitments::{
    gen_state_id_from_any, gen_state_id_from_bytes, prove_commitment, prove_state_commitment, Any,
    Commitment, CommitmentContext, EnclaveKey, Error, Height, StateCommitment, StateID, Time,
    UpdateClientCommitment, STATE_ID_SIZE,
};
use sha2::Digest;

fn sample_state_id(fill: u8) -> StateID {
    StateID {
        bytes: vec![fill; STATE_ID_SIZE],
    }
}

#[test]
fn state_id_is_the_digest_of_the_pair() {
    let a = vec![1u8, 2, 3];
    let b = vec![4u8, 5];
    let id = gen_state_id_from_bytes(&a, &b).unwrap();
    let mut input = a.clone();
    input.extend_from_slice(&b);
    let expected = sha2::Sha256::digest(&input).to_vec();
    assert_eq!(id.bytes, expected);
    assert_eq!(id.bytes.len(), STATE_ID_SIZE);
}

#[test]
fn state_id_of_empty_pair_is_the_empty_digest() {
    let id = gen_state_id_from_bytes(&vec![], &vec![]).unwrap();
    let expected: Vec<u8> = vec![
        0xe3, 0xb0, 0xc4, 0x42, 0x98, 0xfc, 0x1c, 0x14, 0x9a, 0xfb, 0xf4, 0xc8, 0x99, 0x6f, 0xb9,
        0x24, 0x27, 0xae, 0x41, 0xe4, 0x64, 0x9b, 0x93, 0x4c, 0xa4, 0x95, 0x99, 0x1b, 0x78, 0x52,
        0xb8, 0x55,
    ];
    assert_eq!(id.bytes, expected);
}

#[test]
fn state_id_is_deterministic_and_input_sensitive() {
    let a = vec![7u8; 40];
    let b = vec![9u8; 10];
    let id1 = gen_state_id_from_bytes(&a, &b).unwrap();
    let id2 = gen_state_id_from_bytes(&a, &b).unwrap();
    assert_eq!(id1, id2);
    let id3 = gen_state_id_from_bytes(&b, &a).unwrap();
    assert_ne!(id1, id3);
}

#[test]
fn state_id_from_any_matches_manual_proto_encoding() {
    let client = Any::new("/a.B".to_string(), vec![1, 2, 3]);
    let consensus = Any::new("/c.D".to_string(), vec![4, 5]);
    let id = gen_state_id_from_any(&client, &consensus).unwrap();

    let client_proto = prost_types::Any {
        type_url: "/a.B".to_string(),
        value: vec![1, 2, 3],
    };
    let consensus_proto = prost_types::Any {
        type_url: "/c.D".to_string(),
        value: vec![4, 5],
    };
    let client_bytes = prost::Message::encode_to_vec(&client_proto);
    let consensus_bytes = prost::Message::encode_to_vec(&consensus_proto);
    let expected = gen_state_id_from_bytes(&client_bytes, &consensus_bytes).unwrap();
    assert_eq!(id, expected);
}

struct TestKey;

impl EnclaveKey for TestKey {
    fn address(&self) -> Vec<u8> {
        vec![0xab; 20]
    }

    fn sign(&self, message: &Vec<u8>) -> Result<Vec<u8>, Error> {
        let mut sig = vec![0x51u8];
        sig.extend_from_slice(&sha2::Sha256::digest(message));
        Ok(sig)
    }
}

struct FailingKey;

impl EnclaveKey for FailingKey {
    fn address(&self) -> Vec<u8> {
        vec![]
    }

    fn sign(&self, _message: &Vec<u8>) -> Result<Vec<u8>, Error> {
        Err(Error::SigningError)
    }
}

fn sample_state_commitment() -> StateCommitment {
    StateCommitment {
        prefix: b"ibc".to_vec(),
        path: b"clients/lcp-0/clientState".to_vec(),
        value: Some(vec![1, 2, 3, 4]),
        height: Height::new(1, 77),
        state_id: sample_state_id(0x11),
    }
}

#[test]
fn prover_signs_the_commitment_encoding() {
    let commitment = sample_state_commitment();
    let encoded = Commitment::State(commitment.clone()).ethabi_encode();
    let proof = prove_state_commitment(&TestKey, commitment).unwrap();
    assert_eq!(proof.commitment_bytes, encoded);
    assert_eq!(proof.signer, vec![0xab; 20]);
    let mut expected_sig = vec![0x51u8];
    expected_sig.extend_from_slice(&sha2::Sha256::digest(&encoded));
    assert_eq!(proof.signature, expected_sig);
}

#[test]
fn prover_propagates_signing_failure() {
    let commitment = sample_state_commitment();
    let res = prove_state_commitment(&FailingKey, commitment);
    assert_eq!(res.unwrap_err(), Error::SigningError);
}

#[test]
fn update_client_commitment_encodes_deterministically() {
    let commitment = Commitment::UpdateClient(UpdateClientCommitment {
        prev_state_id: Some(sample_state_id(0x22)),
        new_state_id: sample_state_id(0x33),
        new_state: Some(vec![9, 9, 9]),
        prev_height: Some(Height::new(1, 10)),
        new_height: Height::new(1, 11),
        timestamp: Time::from_unix_timestamp_nanos(1_692_489_600_000_000_000).unwrap(),
        validation_params: CommitmentContext::Empty,
    });
    let first = commitment.ethabi_encode();
    let second = commitment.ethabi_encode();
    assert_eq!(first, second);

    let other = Commitment::UpdateClient(UpdateClientCommitment {
        prev_state_id: None,
        new_state_id: sample_state_id(0x33),
        new_state: Some(vec![9, 9, 9]),
        prev_height: Some(Height::new(1, 10)),
        new_height: Height::new(1, 11),
        timestamp: Time::from_unix_timestamp_nanos(1_692_489_600_000_000_000).unwrap(),
        validation_params: CommitmentContext::Empty,
    });
    assert_ne!(first, other.ethabi_encode());
    let proof = prove_commitment(&TestKey, &commitment).unwrap();
    assert_eq!(proof.commitment_bytes, first);
}
