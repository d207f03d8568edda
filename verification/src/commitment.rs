use vstd::prelude::*;

use crate::abi::{
    copy_range, pad32_len, push_u128_be, push_u16_be, push_zeros, read_u128_be, read_u16_be,
    spec_u128_from_be_bytes, spec_u128_to_be_bytes, spec_u16_from_be_bytes, spec_u16_to_be_bytes,
    zeros,
};
use crate::context::{
    lemma_context_round_trip, lemma_outer_round_trip, outer_decode, spec_context_decoding,
    spec_context_encoding, spec_outer_decode, spec_outer_encoding, CommitmentContext,
};
use crate::encoder::EthABIEncoder;
use crate::errors::Error;
use crate::state::StateID;
use crate::time::{Time, MAX_UNIX_TIMESTAMP_NANOS};

verus! {

/// A block height: a revision number paired with a height within the revision.
#[derive(Clone, Copy, Debug, PartialEq, Eq, Structural)]
pub struct Height {
    pub revision_number: u64,
    pub revision_height: u64,
}

impl Height {
    pub fn new(revision_number: u64, revision_height: u64) -> (r: Height)
        ensures
            r == (Height { revision_number, revision_height }),
    {
        Height { revision_number, revision_height }
    }

    /// Orders heights first by revision number, then by height, as the
    /// monotonic-advance rule on client state compares them.
    pub open spec fn spec_lt(self, other: Height) -> bool {
        self.revision_number < other.revision_number || (self.revision_number
            == other.revision_number && self.revision_height < other.revision_height)
    }

    pub fn lt(&self, other: &Height) -> (r: bool)
        ensures
            r == self.spec_lt(*other),
    {
        self.revision_number < other.revision_number || (self.revision_number
            == other.revision_number && self.revision_height < other.revision_height)
    }
}

/// The byte prefix a counterparty chain stores its commitments under.
pub type CommitmentPrefix = Vec<u8>;

/// Discriminant of a state commitment on the wire.
pub const COMMITMENT_TYPE_STATE: u16 = 0;

/// Discriminant of an update-client commitment on the wire.
pub const COMMITMENT_TYPE_UPDATE_CLIENT: u16 = 1;

/// The result of a membership or non-membership verification: the fact,
/// attested by the enclave, that `value` is (or, when `None`, is not)
/// committed under `path` below `prefix` at `height`, against the state
/// snapshot named by `state_id`.
#[derive(Clone, Debug, PartialEq, Eq)]
pub struct StateCommitment {
    pub prefix: CommitmentPrefix,
    pub path: Vec<u8>,
    pub value: Option<Vec<u8>>,
    pub height: Height,
    pub state_id: StateID,
}

/// The attestable facts of a client update: the state snapshot moved from
/// `prev_state_id` at `prev_height` to `new_state_id` at `new_height`, with
/// the header timestamp and the temporal-trust context the verification ran
/// under. The previous id and height are `None` only for a client's first,
/// creating commitment.
#[derive(Clone, Debug, PartialEq, Eq)]
pub struct UpdateClientCommitment {
    pub prev_state_id: Option<StateID>,
    pub new_state_id: StateID,
    pub new_state: Option<Vec<u8>>,
    pub prev_height: Option<Height>,
    pub new_height: Height,
    pub timestamp: Time,
    pub validation_params: CommitmentContext,
}

/// An attestable fact about a light-client operation, destined to be proven
/// on chain.
#[derive(Clone, Debug, PartialEq, Eq)]
pub enum Commitment {
    State(StateCommitment),
    UpdateClient(UpdateClientCommitment),
}

impl StateCommitment {
    pub open spec fn wf(self) -> bool {
        self.state_id.wf()
    }
}

impl UpdateClientCommitment {
    pub open spec fn wf(self) -> bool {
        &&& self.new_state_id.wf()
        &&& (self.prev_state_id matches Some(id) ==> id.wf())
        &&& self.timestamp.wf()
        &&& self.validation_params.wf()
    }
}

impl Commitment {
    pub open spec fn wf(self) -> bool {
        match self {
            Commitment::State(c) => c.wf(),
            Commitment::UpdateClient(c) => c.wf(),
        }
    }

    pub open spec fn spec_commitment_type(self) -> u16 {
        match self {
            Commitment::State(_) => COMMITMENT_TYPE_STATE,
            Commitment::UpdateClient(_) => COMMITMENT_TYPE_UPDATE_CLIENT,
        }
    }
}

/// A variable-length byte field: its length as a 128-bit count, most
/// significant byte first, then the bytes themselves.
pub open spec fn spec_bytes_field(b: Seq<u8>) -> Seq<u8> {
    spec_u128_to_be_bytes(b.len() as u128) + b
}

/// An optional byte field: a one-byte presence flag, then the field when
/// present.
pub open spec fn spec_opt_bytes_field(o: Option<Seq<u8>>) -> Seq<u8> {
    match o {
        Option::None => seq![0u8],
        Option::Some(b) => seq![1u8] + spec_bytes_field(b),
    }
}

/// A height as one 32-byte word: the revision number then the revision
/// height, each a 128-bit count, most significant byte first.
pub open spec fn spec_height_word(h: Height) -> Seq<u8> {
    spec_u128_to_be_bytes(h.revision_number as u128) + spec_u128_to_be_bytes(
        h.revision_height as u128,
    )
}

/// An optional fixed-width field: a one-byte presence flag, then the bytes
/// when present.
pub open spec fn spec_opt_fixed_field(o: Option<Seq<u8>>) -> Seq<u8> {
    match o {
        Option::None => seq![0u8],
        Option::Some(b) => seq![1u8] + b,
    }
}

/// An optional height word: a one-byte presence flag, then the word when
/// present.
pub open spec fn spec_opt_height_field(o: Option<Height>) -> Seq<u8> {
    match o {
        Option::None => seq![0u8],
        Option::Some(h) => seq![1u8] + spec_height_word(h),
    }
}

/// The body of a state commitment: prefix and path as length-prefixed
/// fields, the optional value, then the height word and the state id.
pub open spec fn spec_state_commitment_body(c: StateCommitment) -> Seq<u8> {
    spec_bytes_field(c.prefix@) + spec_bytes_field(c.path@) + spec_opt_bytes_field(
        match c.value {
            Option::None => Option::None,
            Option::Some(v) => Option::Some(v@),
        },
    ) + spec_height_word(c.height) + c.state_id.bytes@
}

/// The body of an update-client commitment: the optional previous state id,
/// the new state id, the optional encoded new state, the optional previous
/// height, the new height word, the timestamp, then the encoded validation
/// context as a length-prefixed field.
pub open spec fn spec_update_client_commitment_body(c: UpdateClientCommitment) -> Seq<u8> {
    spec_opt_fixed_field(
        match c.prev_state_id {
            Option::None => Option::None,
            Option::Some(id) => Option::Some(id.bytes@),
        },
    ) + c.new_state_id.bytes@ + spec_opt_bytes_field(
        match c.new_state {
            Option::None => Option::None,
            Option::Some(v) => Option::Some(v@),
        },
    ) + spec_opt_fixed_field(
        match c.prev_height {
            Option::None => Option::None,
            Option::Some(h) => Option::Some(spec_height_word(h)),
        },
    ) + spec_height_word(c.new_height) + spec_u128_to_be_bytes(c.timestamp.nanos)
        + spec_bytes_field(spec_context_encoding(c.validation_params))
}

/// The 32-byte header word of a commitment: its discriminant, most
/// significant byte first, then thirty reserved zero bytes.
pub open spec fn spec_commitment_header(c: Commitment) -> Seq<u8> {
    spec_u16_to_be_bytes(c.spec_commitment_type()) + zeros(30)
}

/// The body bytes of each commitment variant.
pub open spec fn spec_commitment_body(c: Commitment) -> Seq<u8> {
    match c {
        Commitment::State(sc) => spec_state_commitment_body(sc),
        Commitment::UpdateClient(uc) => spec_update_client_commitment_body(uc),
    }
}

/// The full wire form of a commitment: the same outer two-field tuple the
/// context codec uses, around the variant's header word and body.
pub open spec fn spec_commitment_encoding(c: Commitment) -> Seq<u8> {
    spec_outer_encoding(spec_commitment_header(c), spec_commitment_body(c))
}

/// The abstract value of a state commitment: every byte field as a
/// sequence.
pub struct StateCommitmentView {
    pub prefix: Seq<u8>,
    pub path: Seq<u8>,
    pub value: Option<Seq<u8>>,
    pub height: Height,
    pub state_id: Seq<u8>,
}

/// The abstract value of an update-client commitment.
pub struct UpdateClientCommitmentView {
    pub prev_state_id: Option<Seq<u8>>,
    pub new_state_id: Seq<u8>,
    pub new_state: Option<Seq<u8>>,
    pub prev_height: Option<Height>,
    pub new_height: Height,
    pub timestamp: Time,
    pub validation_params: CommitmentContext,
}

/// The abstract value of a commitment.
pub enum CommitmentView {
    State(StateCommitmentView),
    UpdateClient(UpdateClientCommitmentView),
}

impl View for StateCommitment {
    type V = StateCommitmentView;

    open spec fn view(&self) -> StateCommitmentView {
        StateCommitmentView {
            prefix: self.prefix@,
            path: self.path@,
            value: match self.value {
                Option::Some(v) => Option::Some(v@),
                Option::None => Option::None,
            },
            height: self.height,
            state_id: self.state_id.bytes@,
        }
    }
}

impl View for UpdateClientCommitment {
    type V = UpdateClientCommitmentView;

    open spec fn view(&self) -> UpdateClientCommitmentView {
        UpdateClientCommitmentView {
            prev_state_id: match self.prev_state_id {
                Option::Some(id) => Option::Some(id.bytes@),
                Option::None => Option::None,
            },
            new_state_id: self.new_state_id.bytes@,
            new_state: match self.new_state {
                Option::Some(v) => Option::Some(v@),
                Option::None => Option::None,
            },
            prev_height: self.prev_height,
            new_height: self.new_height,
            timestamp: self.timestamp,
            validation_params: self.validation_params,
        }
    }
}

impl View for Commitment {
    type V = CommitmentView;

    open spec fn view(&self) -> CommitmentView {
        match self {
            Commitment::State(c) => CommitmentView::State(c@),
            Commitment::UpdateClient(c) => CommitmentView::UpdateClient(c@),
        }
    }
}

fn push_bytes(out: &mut Vec<u8>, b: &Vec<u8>)
    ensures
        final(out)@ == old(out)@ + b@,
{
    let mut i: usize = 0;
    while i < b.len()
        invariant
            i <= b@.len(),
            out@ == old(out)@ + b@.subrange(0, i as int),
        decreases b@.len() - i,
    {
        out.push(b[i]);
        i = i + 1;
        proof {
            assert(out@ =~= old(out)@ + b@.subrange(0, i as int));
        }
    }
    proof {
        assert(b@.subrange(0, b@.len() as int) =~= b@);
    }
}

fn push_bytes_field(out: &mut Vec<u8>, b: &Vec<u8>)
    ensures
        final(out)@ == old(out)@ + spec_bytes_field(b@),
{
    push_u128_be(out, b.len() as u128);
    push_bytes(out, b);
    proof {
        assert(out@ =~= old(out)@ + spec_bytes_field(b@));
    }
}

fn push_height_word(out: &mut Vec<u8>, h: &Height)
    ensures
        final(out)@ == old(out)@ + spec_height_word(*h),
{
    push_u128_be(out, h.revision_number as u128);
    push_u128_be(out, h.revision_height as u128);
    proof {
        assert(out@ =~= old(out)@ + spec_height_word(*h));
    }
}

impl StateCommitment {
    /// The body bytes of this commitment.
    pub fn encode_body(&self) -> (r: Vec<u8>)
        ensures
            r@ == spec_state_commitment_body(*self),
    {
        let mut out: Vec<u8> = Vec::new();
        push_bytes_field(&mut out, &self.prefix);
        push_bytes_field(&mut out, &self.path);
        match &self.value {
            Option::None => {
                out.push(0u8);
                proof {
                    assert(out@ =~= spec_bytes_field(self.prefix@) + spec_bytes_field(self.path@)
                        + seq![0u8]);
                }
            },
            Option::Some(v) => {
                out.push(1u8);
                proof {
                    assert(out@ =~= spec_bytes_field(self.prefix@) + spec_bytes_field(self.path@)
                        + seq![1u8]);
                }
                push_bytes_field(&mut out, v);
            },
        }
        push_height_word(&mut out, &self.height);
        push_bytes(&mut out, &self.state_id.bytes);
        proof {
            assert(out@ =~= spec_state_commitment_body(*self));
        }
        out
    }
}

impl UpdateClientCommitment {
    /// The body bytes of this commitment.
    pub fn encode_body(&self) -> (r: Vec<u8>)
        ensures
            r@ == spec_update_client_commitment_body(*self),
    {
        let mut out: Vec<u8> = Vec::new();
        match &self.prev_state_id {
            Option::None => {
                out.push(0u8);
                proof {
                    assert(out@ =~= seq![0u8]);
                }
            },
            Option::Some(id) => {
                out.push(1u8);
                proof {
                    assert(out@ =~= seq![1u8]);
                }
                push_bytes(&mut out, &id.bytes);
            },
        }
        push_bytes(&mut out, &self.new_state_id.bytes);
        let ghost mid1 = out@;
        match &self.new_state {
            Option::None => {
                out.push(0u8);
                proof {
                    assert(out@ =~= mid1 + seq![0u8]);
                }
            },
            Option::Some(v) => {
                out.push(1u8);
                proof {
                    assert(out@ =~= mid1 + seq![1u8]);
                }
                push_bytes_field(&mut out, v);
            },
        }
        let ghost mid2 = out@;
        match &self.prev_height {
            Option::None => {
                out.push(0u8);
                proof {
                    assert(out@ =~= mid2 + seq![0u8]);
                }
            },
            Option::Some(h) => {
                out.push(1u8);
                proof {
                    assert(out@ =~= mid2 + seq![1u8]);
                }
                push_height_word(&mut out, h);
            },
        }
        push_height_word(&mut out, &self.new_height);
        push_u128_be(&mut out, self.timestamp.nanos);
        let params = self.validation_params.ethabi_encode();
        push_bytes_field(&mut out, &params);
        proof {
            assert(out@ =~= spec_update_client_commitment_body(*self));
        }
        out
    }
}

impl Commitment {
    /// The full wire form this library's prover signs.
    pub fn ethabi_encode(&self) -> (r: Vec<u8>)
        ensures
            r@ == spec_commitment_encoding(*self),
    {
        let header_type: u16 = match self {
            Commitment::State(_) => COMMITMENT_TYPE_STATE,
            Commitment::UpdateClient(_) => COMMITMENT_TYPE_UPDATE_CLIENT,
        };
        let body: Vec<u8> = match self {
            Commitment::State(sc) => sc.encode_body(),
            Commitment::UpdateClient(uc) => uc.encode_body(),
        };
        let mut out: Vec<u8> = Vec::new();
        crate::abi::push_abi_word(&mut out, 32);
        push_u16_be(&mut out, header_type);
        push_zeros(&mut out, 30);
        crate::abi::push_abi_word(&mut out, 64);
        crate::abi::push_abi_word(&mut out, body.len() as u128);
        push_bytes(&mut out, &body);
        let pad = if body.len() % 32 == 0 {
            0
        } else {
            32 - body.len() % 32
        };
        push_zeros(&mut out, pad);
        proof {
            assert(pad == pad32_len(body@.len()));
            assert(out@ =~= spec_commitment_encoding(*self));
        }
        out
    }
}


/// Parse of a length-prefixed byte field at `off`: the length word, then
/// that many bytes.
pub open spec fn spec_parse_bytes_field(bz: Seq<u8>, off: int) -> Result<(Seq<u8>, int), Error> {
    if bz.len() - off < 16 {
        Err(Error::InvalidAbiEncoding)
    } else {
        let n = spec_u128_from_be_bytes(bz.subrange(off, off + 16)) as int;
        if n > bz.len() - off - 16 {
            Err(Error::InvalidAbiEncoding)
        } else {
            Ok((bz.subrange(off + 16, off + 16 + n), off + 16 + n))
        }
    }
}

/// Parse of a one-byte presence flag; only zero and one are flags.
pub open spec fn spec_parse_flag(bz: Seq<u8>, off: int) -> Result<(bool, int), Error> {
    if bz.len() - off < 1 {
        Err(Error::InvalidAbiEncoding)
    } else if bz[off] == 0 {
        Ok((false, off + 1))
    } else if bz[off] == 1 {
        Ok((true, off + 1))
    } else {
        Err(Error::InvalidAbiEncoding)
    }
}

/// Parse of a fixed-width field of `n` bytes at `off`.
pub open spec fn spec_parse_fixed(bz: Seq<u8>, off: int, n: int) -> Result<(Seq<u8>, int), Error> {
    if bz.len() - off < n {
        Err(Error::InvalidAbiEncoding)
    } else {
        Ok((bz.subrange(off, off + n), off + n))
    }
}

/// Parse of a height word; each packed count must fit its 64-bit component.
pub open spec fn spec_parse_height(bz: Seq<u8>, off: int) -> Result<(Height, int), Error> {
    if bz.len() - off < 32 {
        Err(Error::InvalidAbiEncoding)
    } else {
        let rn = spec_u128_from_be_bytes(bz.subrange(off, off + 16));
        let rh = spec_u128_from_be_bytes(bz.subrange(off + 16, off + 32));
        if rn > u64::MAX || rh > u64::MAX {
            Err(Error::InvalidAbiEncoding)
        } else {
            Ok((Height { revision_number: rn as u64, revision_height: rh as u64 }, off + 32))
        }
    }
}

/// Parse of a packed timestamp; a count past the representable range is an
/// out-of-range error, distinct from a shape mismatch.
pub open spec fn spec_parse_timestamp(bz: Seq<u8>, off: int) -> Result<(Time, int), Error> {
    if bz.len() - off < 16 {
        Err(Error::InvalidAbiEncoding)
    } else {
        let n = spec_u128_from_be_bytes(bz.subrange(off, off + 16));
        if n > MAX_UNIX_TIMESTAMP_NANOS {
            Err(Error::TimestampOutOfRange { nanos: n })
        } else {
            Ok((Time { nanos: n }, off + 16))
        }
    }
}

/// Parse of an optional length-prefixed byte field.
pub open spec fn spec_parse_opt_bytes(bz: Seq<u8>, off: int) -> Result<
    (Option<Seq<u8>>, int),
    Error,
> {
    match spec_parse_flag(bz, off) {
        Err(e) => Err(e),
        Ok((present, o)) => if present {
            match spec_parse_bytes_field(bz, o) {
                Err(e) => Err(e),
                Ok((v, o2)) => Ok((Option::Some(v), o2)),
            }
        } else {
            Ok((Option::None, o))
        },
    }
}

/// Parse of an optional fixed-width field of `n` bytes.
pub open spec fn spec_parse_opt_fixed(bz: Seq<u8>, off: int, n: int) -> Result<
    (Option<Seq<u8>>, int),
    Error,
> {
    match spec_parse_flag(bz, off) {
        Err(e) => Err(e),
        Ok((present, o)) => if present {
            match spec_parse_fixed(bz, o, n) {
                Err(e) => Err(e),
                Ok((v, o2)) => Ok((Option::Some(v), o2)),
            }
        } else {
            Ok((Option::None, o))
        },
    }
}

/// Parse of an optional height word.
pub open spec fn spec_parse_opt_height(bz: Seq<u8>, off: int) -> Result<
    (Option<Height>, int),
    Error,
> {
    match spec_parse_flag(bz, off) {
        Err(e) => Err(e),
        Ok((present, o)) => if present {
            match spec_parse_height(bz, o) {
                Err(e) => Err(e),
                Ok((h, o2)) => Ok((Option::Some(h), o2)),
            }
        } else {
            Ok((Option::None, o))
        },
    }
}

/// Full parse of a state commitment body; trailing bytes are an error.
pub open spec fn spec_state_commitment_decode(bz: Seq<u8>) -> Result<StateCommitmentView, Error> {
    match spec_parse_bytes_field(bz, 0) {
        Err(e) => Err(e),
        Ok((prefix, o1)) => match spec_parse_bytes_field(bz, o1) {
            Err(e) => Err(e),
            Ok((path, o2)) => match spec_parse_opt_bytes(bz, o2) {
                Err(e) => Err(e),
                Ok((value, o3)) => match spec_parse_height(bz, o3) {
                    Err(e) => Err(e),
                    Ok((height, o4)) => match spec_parse_fixed(bz, o4, 32) {
                        Err(e) => Err(e),
                        Ok((state_id, o5)) => if o5 != bz.len() {
                            Err(Error::InvalidAbiEncoding)
                        } else {
                            Ok(StateCommitmentView { prefix, path, value, height, state_id })
                        },
                    },
                },
            },
        },
    }
}

/// Full parse of an update-client commitment body; the validation context
/// is decoded from its length-prefixed field, and trailing bytes are an
/// error.
pub open spec fn spec_update_client_commitment_decode(bz: Seq<u8>) -> Result<
    UpdateClientCommitmentView,
    Error,
> {
    match spec_parse_opt_fixed(bz, 0, 32) {
        Err(e) => Err(e),
        Ok((prev_state_id, o1)) => match spec_parse_fixed(bz, o1, 32) {
            Err(e) => Err(e),
            Ok((new_state_id, o2)) => match spec_parse_opt_bytes(bz, o2) {
                Err(e) => Err(e),
                Ok((new_state, o3)) => match spec_parse_opt_height(bz, o3) {
                    Err(e) => Err(e),
                    Ok((prev_height, o4)) => match spec_parse_height(bz, o4) {
                        Err(e) => Err(e),
                        Ok((new_height, o5)) => match spec_parse_timestamp(bz, o5) {
                            Err(e) => Err(e),
                            Ok((timestamp, o6)) => match spec_parse_bytes_field(bz, o6) {
                                Err(e) => Err(e),
                                Ok((params, o7)) => match spec_context_decoding(params) {
                                    Err(e) => Err(e),
                                    Ok(validation_params) => if o7 != bz.len() {
                                        Err(Error::InvalidAbiEncoding)
                                    } else {
                                        Ok(
                                            UpdateClientCommitmentView {
                                                prev_state_id,
                                                new_state_id,
                                                new_state,
                                                prev_height,
                                                new_height,
                                                timestamp,
                                                validation_params,
                                            },
                                        )
                                    },
                                },
                            },
                        },
                    },
                },
            },
        },
    }
}

/// Full parse of a commitment: the outer tuple, then the discriminant, then
/// the variant's body. Unknown discriminants fail closed.
pub open spec fn spec_commitment_decoding(bz: Seq<u8>) -> Result<CommitmentView, Error> {
    match spec_outer_decode(bz) {
        Err(e) => Err(e),
        Ok((header, body)) => {
            let t = spec_u16_from_be_bytes(header.subrange(0, 2));
            if t == COMMITMENT_TYPE_STATE {
                match spec_state_commitment_decode(body) {
                    Err(e) => Err(e),
                    Ok(v) => Ok(CommitmentView::State(v)),
                }
            } else if t == COMMITMENT_TYPE_UPDATE_CLIENT {
                match spec_update_client_commitment_decode(body) {
                    Err(e) => Err(e),
                    Ok(v) => Ok(CommitmentView::UpdateClient(v)),
                }
            } else {
                Err(Error::UnknownCommitmentType { commitment_type: t })
            }
        },
    }
}

fn parse_bytes_field(bz: &[u8], off: usize) -> (r: Result<(Vec<u8>, usize), Error>)
    requires
        off <= bz@.len(),
    ensures
        r matches Ok(p) ==> (spec_parse_bytes_field(bz@, off as int) matches Ok(q) && q.0 == p.0@
            && q.1 == p.1 as int && off <= p.1 <= bz@.len()),
        r matches Err(e) ==> spec_parse_bytes_field(bz@, off as int) == Err::<
            (Seq<u8>, int),
            Error,
        >(e),
{
    if bz.len() - off < 16 {
        return Err(Error::InvalidAbiEncoding);
    }
    let n128 = read_u128_be(bz, off);
    if n128 > (bz.len() - off - 16) as u128 {
        return Err(Error::InvalidAbiEncoding);
    }
    let n = n128 as usize;
    let v = copy_range(bz, off + 16, off + 16 + n);
    Ok((v, off + 16 + n))
}

fn parse_flag(bz: &[u8], off: usize) -> (r: Result<(bool, usize), Error>)
    requires
        off <= bz@.len(),
    ensures
        r matches Ok(p) ==> (spec_parse_flag(bz@, off as int) matches Ok(q) && q.0 == p.0 && q.1
            == p.1 as int && off <= p.1 <= bz@.len()),
        r matches Err(e) ==> spec_parse_flag(bz@, off as int) == Err::<(bool, int), Error>(e),
{
    if bz.len() - off < 1 {
        return Err(Error::InvalidAbiEncoding);
    }
    if bz[off] == 0 {
        Ok((false, off + 1))
    } else if bz[off] == 1 {
        Ok((true, off + 1))
    } else {
        Err(Error::InvalidAbiEncoding)
    }
}

fn parse_fixed(bz: &[u8], off: usize, n: usize) -> (r: Result<(Vec<u8>, usize), Error>)
    requires
        off <= bz@.len(),
    ensures
        r matches Ok(p) ==> (spec_parse_fixed(bz@, off as int, n as int) matches Ok(q) && q.0
            == p.0@ && q.1 == p.1 as int && off <= p.1 <= bz@.len()),
        r matches Err(e) ==> spec_parse_fixed(bz@, off as int, n as int) == Err::<
            (Seq<u8>, int),
            Error,
        >(e),
{
    if bz.len() - off < n {
        return Err(Error::InvalidAbiEncoding);
    }
    let v = copy_range(bz, off, off + n);
    Ok((v, off + n))
}

fn parse_height(bz: &[u8], off: usize) -> (r: Result<(Height, usize), Error>)
    requires
        off <= bz@.len(),
    ensures
        r matches Ok(p) ==> (spec_parse_height(bz@, off as int) matches Ok(q) && q.0 == p.0 && q.1
            == p.1 as int && off <= p.1 <= bz@.len()),
        r matches Err(e) ==> spec_parse_height(bz@, off as int) == Err::<(Height, int), Error>(e),
{
    if bz.len() - off < 32 {
        return Err(Error::InvalidAbiEncoding);
    }
    let rn = read_u128_be(bz, off);
    let rh = read_u128_be(bz, off + 16);
    if rn > u64::MAX as u128 || rh > u64::MAX as u128 {
        return Err(Error::InvalidAbiEncoding);
    }
    Ok((Height { revision_number: rn as u64, revision_height: rh as u64 }, off + 32))
}

fn parse_timestamp(bz: &[u8], off: usize) -> (r: Result<(Time, usize), Error>)
    requires
        off <= bz@.len(),
    ensures
        r matches Ok(p) ==> (spec_parse_timestamp(bz@, off as int) matches Ok(q) && q.0 == p.0
            && q.1 == p.1 as int && off <= p.1 <= bz@.len()),
        r matches Err(e) ==> spec_parse_timestamp(bz@, off as int) == Err::<(Time, int), Error>(e),
{
    if bz.len() - off < 16 {
        return Err(Error::InvalidAbiEncoding);
    }
    let n = read_u128_be(bz, off);
    if n > MAX_UNIX_TIMESTAMP_NANOS {
        return Err(Error::TimestampOutOfRange { nanos: n });
    }
    Ok((Time { nanos: n }, off + 16))
}

fn parse_opt_bytes(bz: &[u8], off: usize) -> (r: Result<(Option<Vec<u8>>, usize), Error>)
    requires
        off <= bz@.len(),
    ensures
        r matches Ok(p) ==> (spec_parse_opt_bytes(bz@, off as int) matches Ok(q) && q.1
            == p.1 as int && off <= p.1 <= bz@.len() && (match p.0 {
            Option::Some(v) => q.0 == Option::Some(v@),
            Option::None => q.0 == Option::None::<Seq<u8>>,
        })),
        r matches Err(e) ==> spec_parse_opt_bytes(bz@, off as int) == Err::<
            (Option<Seq<u8>>, int),
            Error,
        >(e),
{
    let (present, o) = match parse_flag(bz, off) {
        Ok(p) => p,
        Err(e) => {
            return Err(e);
        },
    };
    if present {
        match parse_bytes_field(bz, o) {
            Ok((v, o2)) => Ok((Some(v), o2)),
            Err(e) => Err(e),
        }
    } else {
        Ok((None, o))
    }
}

fn parse_opt_fixed(bz: &[u8], off: usize, n: usize) -> (r: Result<(Option<Vec<u8>>, usize), Error>)
    requires
        off <= bz@.len(),
    ensures
        r matches Ok(p) ==> (spec_parse_opt_fixed(bz@, off as int, n as int) matches Ok(q) && q.1
            == p.1 as int && off <= p.1 <= bz@.len() && (match p.0 {
            Option::Some(v) => q.0 == Option::Some(v@),
            Option::None => q.0 == Option::None::<Seq<u8>>,
        })),
        r matches Err(e) ==> spec_parse_opt_fixed(bz@, off as int, n as int) == Err::<
            (Option<Seq<u8>>, int),
            Error,
        >(e),
{
    let (present, o) = match parse_flag(bz, off) {
        Ok(p) => p,
        Err(e) => {
            return Err(e);
        },
    };
    if present {
        match parse_fixed(bz, o, n) {
            Ok((v, o2)) => Ok((Some(v), o2)),
            Err(e) => Err(e),
        }
    } else {
        Ok((None, o))
    }
}

fn parse_opt_height(bz: &[u8], off: usize) -> (r: Result<(Option<Height>, usize), Error>)
    requires
        off <= bz@.len(),
    ensures
        r matches Ok(p) ==> (spec_parse_opt_height(bz@, off as int) matches Ok(q) && q.1
            == p.1 as int && off <= p.1 <= bz@.len() && q.0 == p.0),
        r matches Err(e) ==> spec_parse_opt_height(bz@, off as int) == Err::<
            (Option<Height>, int),
            Error,
        >(e),
{
    let (present, o) = match parse_flag(bz, off) {
        Ok(p) => p,
        Err(e) => {
            return Err(e);
        },
    };
    if present {
        match parse_height(bz, o) {
            Ok((h, o2)) => Ok((Some(h), o2)),
            Err(e) => Err(e),
        }
    } else {
        Ok((None, o))
    }
}

impl StateCommitment {
    /// Parses a state commitment body, the exact inverse of `encode_body`
    /// on well-formed commitments.
    pub fn decode_body(bz: &[u8]) -> (r: Result<StateCommitment, Error>)
        ensures
            r matches Ok(c) ==> spec_state_commitment_decode(bz@) == Ok::<
                StateCommitmentView,
                Error,
            >(c@),
            r matches Err(e) ==> spec_state_commitment_decode(bz@) == Err::<
                StateCommitmentView,
                Error,
            >(e),
    {
        let (prefix, o1) = match parse_bytes_field(bz, 0) {
            Ok(p) => p,
            Err(e) => {
                return Err(e);
            },
        };
        let (path, o2) = match parse_bytes_field(bz, o1) {
            Ok(p) => p,
            Err(e) => {
                return Err(e);
            },
        };
        let (value, o3) = match parse_opt_bytes(bz, o2) {
            Ok(p) => p,
            Err(e) => {
                return Err(e);
            },
        };
        let (height, o4) = match parse_height(bz, o3) {
            Ok(p) => p,
            Err(e) => {
                return Err(e);
            },
        };
        let (state_id, o5) = match parse_fixed(bz, o4, 32) {
            Ok(p) => p,
            Err(e) => {
                return Err(e);
            },
        };
        if o5 != bz.len() {
            return Err(Error::InvalidAbiEncoding);
        }
        Ok(StateCommitment { prefix, path, value, height, state_id: StateID { bytes: state_id } })
    }
}

impl UpdateClientCommitment {
    /// Parses an update-client commitment body, the exact inverse of
    /// `encode_body` on well-formed commitments.
    pub fn decode_body(bz: &[u8]) -> (r: Result<UpdateClientCommitment, Error>)
        ensures
            r matches Ok(c) ==> spec_update_client_commitment_decode(bz@) == Ok::<
                UpdateClientCommitmentView,
                Error,
            >(c@),
            r matches Err(e) ==> spec_update_client_commitment_decode(bz@) == Err::<
                UpdateClientCommitmentView,
                Error,
            >(e),
    {
        let (prev_state_id_bytes, o1) = match parse_opt_fixed(bz, 0, 32) {
            Ok(p) => p,
            Err(e) => {
                return Err(e);
            },
        };
        let (new_state_id_bytes, o2) = match parse_fixed(bz, o1, 32) {
            Ok(p) => p,
            Err(e) => {
                return Err(e);
            },
        };
        let (new_state, o3) = match parse_opt_bytes(bz, o2) {
            Ok(p) => p,
            Err(e) => {
                return Err(e);
            },
        };
        let (prev_height, o4) = match parse_opt_height(bz, o3) {
            Ok(p) => p,
            Err(e) => {
                return Err(e);
            },
        };
        let (new_height, o5) = match parse_height(bz, o4) {
            Ok(p) => p,
            Err(e) => {
                return Err(e);
            },
        };
        let (timestamp, o6) = match parse_timestamp(bz, o5) {
            Ok(p) => p,
            Err(e) => {
                return Err(e);
            },
        };
        let (params, o7) = match parse_bytes_field(bz, o6) {
            Ok(p) => p,
            Err(e) => {
                return Err(e);
            },
        };
        let validation_params = match CommitmentContext::ethabi_decode(params.as_slice()) {
            Ok(v) => v,
            Err(e) => {
                return Err(e);
            },
        };
        if o7 != bz.len() {
            return Err(Error::InvalidAbiEncoding);
        }
        let prev_state_id = match prev_state_id_bytes {
            Some(b) => Some(StateID { bytes: b }),
            None => None,
        };
        Ok(
            UpdateClientCommitment {
                prev_state_id,
                new_state_id: StateID { bytes: new_state_id_bytes },
                new_state,
                prev_height,
                new_height,
                timestamp,
                validation_params,
            },
        )
    }
}

impl Commitment {
    /// Parses a commitment from its wire form, the exact inverse of
    /// `ethabi_encode` on well-formed commitments.
    pub fn ethabi_decode(bz: &[u8]) -> (r: Result<Commitment, Error>)
        ensures
            r matches Ok(c) ==> spec_commitment_decoding(bz@) == Ok::<CommitmentView, Error>(c@),
            r matches Err(e) ==> spec_commitment_decoding(bz@) == Err::<CommitmentView, Error>(e),
    {
        let (header, body) = match outer_decode(bz) {
            Ok(p) => p,
            Err(e) => {
                return Err(e);
            },
        };
        let commitment_type = read_u16_be(header.as_slice(), 0);
        if commitment_type == COMMITMENT_TYPE_STATE {
            match StateCommitment::decode_body(body.as_slice()) {
                Ok(c) => Ok(Commitment::State(c)),
                Err(e) => Err(e),
            }
        } else if commitment_type == COMMITMENT_TYPE_UPDATE_CLIENT {
            match UpdateClientCommitment::decode_body(body.as_slice()) {
                Ok(c) => Ok(Commitment::UpdateClient(c)),
                Err(e) => Err(e),
            }
        } else {
            Err(Error::UnknownCommitmentType { commitment_type })
        }
    }
}


/// Any byte of the concatenation `pre + piece + post` inside the middle
/// piece is that piece's byte.
proof fn lemma_piece_at(bz: Seq<u8>, pre: Seq<u8>, piece: Seq<u8>, post: Seq<u8>)
    requires
        bz == pre + piece + post,
    ensures
        bz.subrange(pre.len() as int, (pre.len() + piece.len()) as int) == piece,
{
    let off = pre.len() as int;
    let sub = bz.subrange(off, off + piece.len());
    assert forall|k: int| 0 <= k < piece.len() implies #[trigger] sub[k] == piece[k] by {
        assert(sub[k] == bz[off + k]);
        assert(bz[off + k] == (pre + piece + post)[off + k]);
    }
    assert(sub =~= piece);
}

proof fn lemma_parse_bytes_field_at(bz: Seq<u8>, off: int, b: Seq<u8>)
    requires
        0 <= off,
        off + 16 + b.len() <= bz.len(),
        bz.len() <= usize::MAX,
        bz.subrange(off, off + 16 + b.len()) == spec_bytes_field(b),
    ensures
        spec_parse_bytes_field(bz, off) == Ok::<(Seq<u8>, int), Error>((b, off + 16 + b.len())),
{
    crate::abi::lemma_u128_be_round_trip(b.len() as u128);
    let n = b.len() as int;
    let big = bz.subrange(off, off + 16 + n);
    let lenw = spec_u128_to_be_bytes(b.len() as u128);
    let small = bz.subrange(off, off + 16);
    assert forall|j: int| 0 <= j < 16 implies #[trigger] small[j] == lenw[j] by {
        assert(small[j] == bz[off + j]);
        assert(big[j] == bz[off + j]);
        assert(big[j] == spec_bytes_field(b)[j]);
        assert(spec_bytes_field(b)[j] == (lenw + b)[j]);
    }
    assert(small =~= lenw);
    let tail = bz.subrange(off + 16, off + 16 + n);
    assert forall|j: int| 0 <= j < n implies #[trigger] tail[j] == b[j] by {
        assert(tail[j] == bz[off + 16 + j]);
        assert(big[16 + j] == bz[off + 16 + j]);
        assert(big[16 + j] == spec_bytes_field(b)[16 + j]);
        assert(spec_bytes_field(b)[16 + j] == (lenw + b)[16 + j]);
    }
    assert(tail =~= b);
}

proof fn lemma_parse_fixed_at(bz: Seq<u8>, off: int, b: Seq<u8>)
    requires
        0 <= off,
        off + b.len() <= bz.len(),
        bz.subrange(off, off + b.len()) == b,
    ensures
        spec_parse_fixed(bz, off, b.len() as int) == Ok::<(Seq<u8>, int), Error>(
            (b, off + b.len()),
        ),
{
}

proof fn lemma_parse_height_at(bz: Seq<u8>, off: int, h: Height)
    requires
        0 <= off,
        off + 32 <= bz.len(),
        bz.subrange(off, off + 32) == spec_height_word(h),
    ensures
        spec_parse_height(bz, off) == Ok::<(Height, int), Error>((h, off + 32)),
{
    crate::abi::lemma_u128_be_round_trip(h.revision_number as u128);
    crate::abi::lemma_u128_be_round_trip(h.revision_height as u128);
    let big = bz.subrange(off, off + 32);
    let rnw = spec_u128_to_be_bytes(h.revision_number as u128);
    let rhw = spec_u128_to_be_bytes(h.revision_height as u128);
    let first = bz.subrange(off, off + 16);
    assert forall|j: int| 0 <= j < 16 implies #[trigger] first[j] == rnw[j] by {
        assert(first[j] == bz[off + j]);
        assert(big[j] == bz[off + j]);
        assert(big[j] == spec_height_word(h)[j]);
        assert(spec_height_word(h)[j] == (rnw + rhw)[j]);
    }
    assert(first =~= rnw);
    let second = bz.subrange(off + 16, off + 32);
    assert forall|j: int| 0 <= j < 16 implies #[trigger] second[j] == rhw[j] by {
        assert(second[j] == bz[off + 16 + j]);
        assert(big[16 + j] == bz[off + 16 + j]);
        assert(big[16 + j] == spec_height_word(h)[16 + j]);
        assert(spec_height_word(h)[16 + j] == (rnw + rhw)[16 + j]);
    }
    assert(second =~= rhw);
}

proof fn lemma_parse_timestamp_at(bz: Seq<u8>, off: int, t: Time)
    requires
        0 <= off,
        off + 16 <= bz.len(),
        t.wf(),
        bz.subrange(off, off + 16) == spec_u128_to_be_bytes(t.nanos),
    ensures
        spec_parse_timestamp(bz, off) == Ok::<(Time, int), Error>((t, off + 16)),
{
    crate::abi::lemma_u128_be_round_trip(t.nanos);
}

/// Round-trip law for state commitment bodies: parsing the body of any
/// well-formed state commitment gives back exactly its abstract value.
#[verifier::spinoff_prover]
#[verifier::rlimit(100)]
pub proof fn lemma_state_commitment_round_trip(c: StateCommitment)
    requires
        c.wf(),
        spec_state_commitment_body(c).len() <= usize::MAX,
    ensures
        spec_state_commitment_decode(spec_state_commitment_body(c)) == Ok::<
            StateCommitmentView,
            Error,
        >(c@),
{
    let bz = spec_state_commitment_body(c);
    let f1 = spec_bytes_field(c.prefix@);
    let f2 = spec_bytes_field(c.path@);
    let vo = match c.value {
        Option::None => Option::None,
        Option::Some(v) => Option::Some(v@),
    };
    let f3 = spec_opt_bytes_field(vo);
    let f4 = spec_height_word(c.height);
    let f5 = c.state_id.bytes@;
    let o1 = f1.len() as int;
    let o2 = o1 + f2.len();
    let o4 = o2 + f3.len();
    let o5 = o4 + 32;
    assert(bz.len() == f1.len() + f2.len() + f3.len() + 32 + 32);
    assert(bz =~= Seq::<u8>::empty() + f1 + (f2 + f3 + f4 + f5));
    lemma_piece_at(bz, Seq::<u8>::empty(), f1, f2 + f3 + f4 + f5);
    lemma_parse_bytes_field_at(bz, 0, c.prefix@);
    assert(bz =~= f1 + f2 + (f3 + f4 + f5));
    lemma_piece_at(bz, f1, f2, f3 + f4 + f5);
    lemma_parse_bytes_field_at(bz, o1, c.path@);
    assert(bz =~= (f1 + f2) + f3 + (f4 + f5));
    lemma_piece_at(bz, f1 + f2, f3, f4 + f5);
    let sub3 = bz.subrange(o2, o2 + f3.len());
    match c.value {
        Option::None => {
            assert(bz[o2] == sub3[0]);
            assert(bz[o2] == 0);
            assert(spec_parse_opt_bytes(bz, o2) == Ok::<(Option<Seq<u8>>, int), Error>(
                (Option::None, o2 + 1),
            ));
        },
        Option::Some(v) => {
            assert(bz[o2] == sub3[0]);
            assert(sub3[0] == (seq![1u8] + spec_bytes_field(v@))[0]);
            assert(bz[o2] == 1);
            assert(bz =~= ((f1 + f2) + seq![1u8]) + spec_bytes_field(v@) + (f4 + f5));
            lemma_piece_at(bz, (f1 + f2) + seq![1u8], spec_bytes_field(v@), f4 + f5);
            lemma_parse_bytes_field_at(bz, o2 + 1, v@);
            assert(spec_parse_opt_bytes(bz, o2) == Ok::<(Option<Seq<u8>>, int), Error>(
                (Option::Some(v@), o4),
            ));
        },
    }
    assert(bz =~= (f1 + f2 + f3) + f4 + f5);
    lemma_piece_at(bz, f1 + f2 + f3, f4, f5);
    lemma_parse_height_at(bz, o4, c.height);
    assert(bz =~= (f1 + f2 + f3 + f4) + f5 + Seq::<u8>::empty());
    lemma_piece_at(bz, f1 + f2 + f3 + f4, f5, Seq::<u8>::empty());
    lemma_parse_fixed_at(bz, o5, f5);
    assert(o5 + 32 == bz.len());
}

/// The subranges of a seven-piece concatenation are exactly its pieces.
#[verifier::spinoff_prover]
#[verifier::rlimit(100)]
proof fn lemma_pieces7(
    bz: Seq<u8>,
    f1: Seq<u8>,
    f2: Seq<u8>,
    f3: Seq<u8>,
    f4: Seq<u8>,
    f5: Seq<u8>,
    f6: Seq<u8>,
    f7: Seq<u8>,
)
    requires
        bz == f1 + f2 + f3 + f4 + f5 + f6 + f7,
    ensures
        bz.subrange(0, f1.len() as int) == f1,
        bz.subrange(f1.len() as int, (f1.len() + f2.len()) as int) == f2,
        bz.subrange((f1.len() + f2.len()) as int, (f1.len() + f2.len() + f3.len()) as int) == f3,
        bz.subrange(
            (f1.len() + f2.len() + f3.len()) as int,
            (f1.len() + f2.len() + f3.len() + f4.len()) as int,
        ) == f4,
        bz.subrange(
            (f1.len() + f2.len() + f3.len() + f4.len()) as int,
            (f1.len() + f2.len() + f3.len() + f4.len() + f5.len()) as int,
        ) == f5,
        bz.subrange(
            (f1.len() + f2.len() + f3.len() + f4.len() + f5.len()) as int,
            (f1.len() + f2.len() + f3.len() + f4.len() + f5.len() + f6.len()) as int,
        ) == f6,
        bz.subrange(
            (f1.len() + f2.len() + f3.len() + f4.len() + f5.len() + f6.len()) as int,
            bz.len() as int,
        ) == f7,
{
    let whole = f1 + f2 + f3 + f4 + f5 + f6 + f7;
    let o1 = f1.len() as int;
    let o2 = o1 + f2.len();
    let o3 = o2 + f3.len();
    let o4 = o3 + f4.len();
    let o5 = o4 + f5.len();
    let o6 = o5 + f6.len();
    let s1 = bz.subrange(0, o1);
    assert forall|k: int| 0 <= k < f1.len() implies #[trigger] s1[k] == f1[k] by {
        assert(s1[k] == bz[k]);
        assert(bz[k] == whole[k]);
    }
    assert(s1 =~= f1);
    let s2 = bz.subrange(o1, o2);
    assert forall|k: int| 0 <= k < f2.len() implies #[trigger] s2[k] == f2[k] by {
        assert(s2[k] == bz[o1 + k]);
        assert(bz[o1 + k] == whole[o1 + k]);
    }
    assert(s2 =~= f2);
    let s3 = bz.subrange(o2, o3);
    assert forall|k: int| 0 <= k < f3.len() implies #[trigger] s3[k] == f3[k] by {
        assert(s3[k] == bz[o2 + k]);
        assert(bz[o2 + k] == whole[o2 + k]);
    }
    assert(s3 =~= f3);
    let s4 = bz.subrange(o3, o4);
    assert forall|k: int| 0 <= k < f4.len() implies #[trigger] s4[k] == f4[k] by {
        assert(s4[k] == bz[o3 + k]);
        assert(bz[o3 + k] == whole[o3 + k]);
    }
    assert(s4 =~= f4);
    let s5 = bz.subrange(o4, o5);
    assert forall|k: int| 0 <= k < f5.len() implies #[trigger] s5[k] == f5[k] by {
        assert(s5[k] == bz[o4 + k]);
        assert(bz[o4 + k] == whole[o4 + k]);
    }
    assert(s5 =~= f5);
    let s6 = bz.subrange(o5, o6);
    assert forall|k: int| 0 <= k < f6.len() implies #[trigger] s6[k] == f6[k] by {
        assert(s6[k] == bz[o5 + k]);
        assert(bz[o5 + k] == whole[o5 + k]);
    }
    assert(s6 =~= f6);
    let s7 = bz.subrange(o6, bz.len() as int);
    assert forall|k: int| 0 <= k < f7.len() implies #[trigger] s7[k] == f7[k] by {
        assert(s7[k] == bz[o6 + k]);
        assert(bz[o6 + k] == whole[o6 + k]);
    }
    assert(s7 =~= f7);
}

/// Inside a field of the form tag byte plus payload, the tag and payload
/// bytes stand at their offsets.
proof fn lemma_tagged_payload(bz: Seq<u8>, off: int, payload: Seq<u8>, tag: u8)
    requires
        0 <= off,
        off + 1 + payload.len() <= bz.len(),
        bz.subrange(off, off + 1 + payload.len()) == seq![tag] + payload,
    ensures
        bz[off] == tag,
        bz.subrange(off + 1, off + 1 + payload.len()) == payload,
{
    let whole = bz.subrange(off, off + 1 + payload.len());
    assert(bz[off] == whole[0]);
    let sub = bz.subrange(off + 1, off + 1 + payload.len());
    assert forall|k: int| 0 <= k < payload.len() implies #[trigger] sub[k] == payload[k] by {
        assert(sub[k] == bz[off + 1 + k]);
        assert(whole[1 + k] == bz[off + 1 + k]);
        assert(whole[1 + k] == (seq![tag] + payload)[1 + k]);
    }
    assert(sub =~= payload);
}

proof fn lemma_parse_opt_fixed_at(bz: Seq<u8>, off: int, o: Option<Seq<u8>>, n: int)
    requires
        0 <= off,
        0 <= n,
        o matches Some(b) ==> b.len() == n,
        off + spec_opt_fixed_field(o).len() <= bz.len(),
        bz.subrange(off, off + spec_opt_fixed_field(o).len()) == spec_opt_fixed_field(o),
    ensures
        spec_parse_opt_fixed(bz, off, n) == Ok::<(Option<Seq<u8>>, int), Error>(
            (o, off + spec_opt_fixed_field(o).len()),
        ),
{
    match o {
        Option::None => {
            assert(bz[off] == bz.subrange(off, off + 1)[0]);
            assert(bz[off] == 0);
        },
        Option::Some(b) => {
            lemma_tagged_payload(bz, off, b, 1u8);
            lemma_parse_fixed_at(bz, off + 1, b);
        },
    }
}

proof fn lemma_parse_opt_bytes_at(bz: Seq<u8>, off: int, o: Option<Seq<u8>>)
    requires
        0 <= off,
        bz.len() <= usize::MAX,
        off + spec_opt_bytes_field(o).len() <= bz.len(),
        bz.subrange(off, off + spec_opt_bytes_field(o).len()) == spec_opt_bytes_field(o),
    ensures
        spec_parse_opt_bytes(bz, off) == Ok::<(Option<Seq<u8>>, int), Error>(
            (o, off + spec_opt_bytes_field(o).len()),
        ),
{
    match o {
        Option::None => {
            assert(bz[off] == bz.subrange(off, off + 1)[0]);
            assert(bz[off] == 0);
        },
        Option::Some(b) => {
            lemma_tagged_payload(bz, off, spec_bytes_field(b), 1u8);
            lemma_parse_bytes_field_at(bz, off + 1, b);
        },
    }
}

proof fn lemma_parse_opt_height_at(bz: Seq<u8>, off: int, o: Option<Height>)
    requires
        0 <= off,
        off + spec_opt_height_field(o).len() <= bz.len(),
        bz.subrange(off, off + spec_opt_height_field(o).len()) == spec_opt_height_field(o),
    ensures
        spec_parse_opt_height(bz, off) == Ok::<(Option<Height>, int), Error>(
            (o, off + spec_opt_height_field(o).len()),
        ),
{
    match o {
        Option::None => {
            assert(bz[off] == bz.subrange(off, off + 1)[0]);
            assert(bz[off] == 0);
        },
        Option::Some(h) => {
            lemma_tagged_payload(bz, off, spec_height_word(h), 1u8);
            lemma_parse_height_at(bz, off + 1, h);
        },
    }
}

proof fn lemma_ucc_decode_eval(
    bz: Seq<u8>,
    c: UpdateClientCommitment,
    o1: int,
    o2: int,
    o3: int,
    o4: int,
    o5: int,
    o6: int,
    params: Seq<u8>,
)
    requires
        spec_parse_opt_fixed(bz, 0, 32) == Ok::<(Option<Seq<u8>>, int), Error>(
            (
                match c.prev_state_id {
                    Option::None => Option::None,
                    Option::Some(id) => Option::Some(id.bytes@),
                },
                o1,
            ),
        ),
        spec_parse_fixed(bz, o1, 32) == Ok::<(Seq<u8>, int), Error>((c.new_state_id.bytes@, o2)),
        spec_parse_opt_bytes(bz, o2) == Ok::<(Option<Seq<u8>>, int), Error>(
            (
                match c.new_state {
                    Option::None => Option::None,
                    Option::Some(v) => Option::Some(v@),
                },
                o3,
            ),
        ),
        spec_parse_opt_height(bz, o3) == Ok::<(Option<Height>, int), Error>((c.prev_height, o4)),
        spec_parse_height(bz, o4) == Ok::<(Height, int), Error>((c.new_height, o5)),
        spec_parse_timestamp(bz, o5) == Ok::<(Time, int), Error>((c.timestamp, o6)),
        spec_parse_bytes_field(bz, o6) == Ok::<(Seq<u8>, int), Error>((params, bz.len() as int)),
        spec_context_decoding(params) == Ok::<CommitmentContext, Error>(c.validation_params),
    ensures
        spec_update_client_commitment_decode(bz) == Ok::<UpdateClientCommitmentView, Error>(c@),
{
}

/// Round-trip law for update-client commitment bodies: parsing the body of
/// any well-formed update-client commitment gives back exactly its abstract
/// value, the validation context included.
#[verifier::spinoff_prover]
#[verifier::rlimit(100)]
pub proof fn lemma_update_client_commitment_round_trip(c: UpdateClientCommitment)
    requires
        c.wf(),
        spec_update_client_commitment_body(c).len() <= usize::MAX,
    ensures
        spec_update_client_commitment_decode(spec_update_client_commitment_body(c)) == Ok::<
            UpdateClientCommitmentView,
            Error,
        >(c@),
{
    let bz = spec_update_client_commitment_body(c);
    let prev_id_view = match c.prev_state_id {
        Option::None => Option::None,
        Option::Some(id) => Option::Some(id.bytes@),
    };
    let f1 = spec_opt_fixed_field(prev_id_view);
    let f2 = c.new_state_id.bytes@;
    let new_state_view = match c.new_state {
        Option::None => Option::None,
        Option::Some(v) => Option::Some(v@),
    };
    let f3 = spec_opt_bytes_field(new_state_view);
    let prev_height_view = match c.prev_height {
        Option::None => Option::None,
        Option::Some(h) => Option::Some(spec_height_word(h)),
    };
    let f4 = spec_opt_fixed_field(prev_height_view);
    let f5 = spec_height_word(c.new_height);
    let f6 = spec_u128_to_be_bytes(c.timestamp.nanos);
    let params = spec_context_encoding(c.validation_params);
    let f7 = spec_bytes_field(params);
    let o1 = f1.len() as int;
    let o2 = o1 + 32;
    let o3 = o2 + f3.len();
    let o4 = o3 + f4.len();
    let o5 = o4 + 32;
    let o6 = o5 + 16;
    let o7 = o6 + f7.len();
    assert(bz.len() == f1.len() + 32 + f3.len() + f4.len() + 32 + 16 + f7.len());
    lemma_pieces7(bz, f1, f2, f3, f4, f5, f6, f7);
    assert(f4 =~= spec_opt_height_field(c.prev_height));
    lemma_parse_opt_fixed_at(bz, 0, prev_id_view, 32);
    lemma_parse_fixed_at(bz, o1, f2);
    lemma_parse_opt_bytes_at(bz, o2, new_state_view);
    lemma_parse_opt_height_at(bz, o3, c.prev_height);
    lemma_parse_height_at(bz, o4, c.new_height);
    lemma_parse_timestamp_at(bz, o5, c.timestamp);
    lemma_parse_bytes_field_at(bz, o6, params);
    lemma_context_round_trip(c.validation_params);
    assert(o7 == bz.len());
    lemma_ucc_decode_eval(bz, c, o1, o2, o3, o4, o5, o6, params);
}

/// Round-trip law for commitments: decoding the wire form of any
/// well-formed commitment, either variant, gives back exactly its abstract
/// value.
#[verifier::spinoff_prover]
#[verifier::rlimit(100)]
pub proof fn lemma_commitment_round_trip(c: Commitment)
    requires
        c.wf(),
        spec_commitment_body(c).len() <= usize::MAX,
    ensures
        spec_commitment_decoding(spec_commitment_encoding(c)) == Ok::<CommitmentView, Error>(c@),
{
    let h = spec_commitment_header(c);
    let b = spec_commitment_body(c);
    assert(h.len() == 32);
    lemma_outer_round_trip(h, b);
    crate::abi::lemma_u16_be_round_trip(c.spec_commitment_type());
    assert(h.subrange(0, 2) =~= spec_u16_to_be_bytes(c.spec_commitment_type()));
    match c {
        Commitment::State(sc) => {
            lemma_state_commitment_round_trip(sc);
        },
        Commitment::UpdateClient(uc) => {
            lemma_update_client_commitment_round_trip(uc);
        },
    }
}

} // verus!
