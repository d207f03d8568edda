use vstd::prelude::*;

use crate::errors::Error;
use sha2::Digest;

verus! {

/// Width in bytes of a state id.
pub const STATE_ID_SIZE: usize = 32;

/// A fixed-size, collision-resistant content hash over an encoded
/// client-state / consensus-state pair. Purely derived data: the derivation
/// functions below are the only constructors the library offers.
#[derive(Clone, Debug, PartialEq, Eq)]
pub struct StateID {
    pub bytes: Vec<u8>,
}

impl StateID {
    pub open spec fn wf(self) -> bool {
        self.bytes@.len() == STATE_ID_SIZE
    }

    pub fn to_vec(&self) -> (r: Vec<u8>)
        ensures
            r@ == self.bytes@,
    {
        self.bytes.clone()
    }
}

/// A state crossing the light-client boundary: a type url tagging an opaque
/// encoded byte blob, so the codec and the state-id derivation work
/// uniformly over every concrete light-client implementation.
#[derive(Clone, Debug, PartialEq, Eq)]
pub struct Any {
    pub type_url: String,
    pub value: Vec<u8>,
}

impl Any {
    pub fn new(type_url: String, value: Vec<u8>) -> (r: Any)
        ensures
            r.type_url@ == type_url@,
            r.value@ == value@,
    {
        Any { type_url, value }
    }
}

/// The SHA-256 digest of a byte sequence.
pub uninterp spec fn sha256_of(data: Seq<u8>) -> Seq<u8>;

/// Relies on sha2::Sha256: the 32-byte digest is a function of the input
/// bytes alone.
#[verifier::external_body]
fn sha256(data: &Vec<u8>) -> (r: Vec<u8>)
    ensures
        r@ == sha256_of(data@),
        r@.len() == STATE_ID_SIZE,
{
    sha2::Sha256::digest(data.as_slice()).to_vec()
}

/// The protobuf encoding of an `Any` message with the given type url and
/// value.
pub uninterp spec fn any_proto_bytes_of(type_url: Seq<char>, value: Seq<u8>) -> Seq<u8>;

/// Relies on prost's `Message::encode_to_vec` for `prost_types::Any`: the
/// encoded bytes are a function of the type url and value alone.
#[verifier::external_body]
fn encode_proto_any(type_url: &String, value: &Vec<u8>) -> (r: Vec<u8>)
    ensures
        r@ == any_proto_bytes_of(type_url@, value@),
{
    let any = prost_types::Any { type_url: type_url.clone(), value: value.clone() };
    prost::Message::encode_to_vec(&any)
}

fn concat_bytes(a: &Vec<u8>, b: &Vec<u8>) -> (r: Vec<u8>)
    ensures
        r@ == a@ + b@,
{
    let mut out: Vec<u8> = Vec::new();
    let mut i: usize = 0;
    while i < a.len()
        invariant
            i <= a@.len(),
            out@ == a@.subrange(0, i as int),
        decreases a@.len() - i,
    {
        out.push(a[i]);
        i = i + 1;
        proof {
            assert(out@ =~= a@.subrange(0, i as int));
        }
    }
    let mut j: usize = 0;
    while j < b.len()
        invariant
            j <= b@.len(),
            out@ == a@.subrange(0, a@.len() as int) + b@.subrange(0, j as int),
        decreases b@.len() - j,
    {
        out.push(b[j]);
        j = j + 1;
        proof {
            assert(out@ =~= a@.subrange(0, a@.len() as int) + b@.subrange(0, j as int));
        }
    }
    proof {
        assert(out@ =~= a@ + b@);
    }
    out
}

/// Derives the state id of an encoded client-state / consensus-state pair:
/// the digest of the two byte blobs laid end to end. Deterministic: equal
/// inputs always yield an equal id.
pub fn gen_state_id_from_bytes(any_client_state_bytes: &Vec<u8>, any_consensus_state_bytes: &Vec<
    u8,
>) -> (r: Result<StateID, Error>)
    ensures
        r matches Ok(id) ==> {
            &&& id.bytes@ == sha256_of(any_client_state_bytes@ + any_consensus_state_bytes@)
            &&& id.wf()
        },
        r is Ok,
{
    let input = concat_bytes(any_client_state_bytes, any_consensus_state_bytes);
    let digest = sha256(&input);
    Ok(StateID { bytes: digest })
}

/// Derives the state id of a client-state / consensus-state pair carried as
/// type-tagged blobs: each is protobuf-encoded, then the pair is hashed as
/// `gen_state_id_from_bytes` does.
pub fn gen_state_id_from_any(any_client_state: &Any, any_consensus_state: &Any) -> (r: Result<
    StateID,
    Error,
>)
    ensures
        r matches Ok(id) ==> {
            &&& id.bytes@ == sha256_of(
                any_proto_bytes_of(any_client_state.type_url@, any_client_state.value@)
                    + any_proto_bytes_of(
                    any_consensus_state.type_url@,
                    any_consensus_state.value@,
                ),
            )
            &&& id.wf()
        },
        r is Ok,
{
    let client_bytes = encode_proto_any(&any_client_state.type_url, &any_client_state.value);
    let consensus_bytes = encode_proto_any(
        &any_consensus_state.type_url,
        &any_consensus_state.value,
    );
    gen_state_id_from_bytes(&client_bytes, &consensus_bytes)
}

} // verus!
