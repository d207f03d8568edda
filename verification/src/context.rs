use vstd::prelude::*;

use crate::abi::{
    abi_word, copy_range, is_all_zero, pad32_len, push_abi_word, push_u128_be, push_u16_be, push_zeros,
    read_u128_be, read_u16_be, spec_u128_from_be_bytes, spec_u128_to_be_bytes,
    spec_u16_from_be_bytes, spec_u16_to_be_bytes, spec_zeros_at, zeros,
};
use crate::encoder::EthABIEncoder;
use crate::errors::Error;
use crate::time::{Duration, Time, MAX_DURATION_NANOS, MAX_UNIX_TIMESTAMP_NANOS};

verus! {

/// Discriminant of the empty commitment context on the wire.
pub const COMMITMENT_CONTEXT_TYPE_EMPTY: u16 = 0;

/// Discriminant of the trusting-period commitment context on the wire.
pub const COMMITMENT_CONTEXT_TYPE_WITHIN_TRUSTING_PERIOD: u16 = 1;

/// Byte length of the fixed commitment context header word.
pub const COMMITMENT_CONTEXT_HEADER_SIZE: usize = 32;

/// The temporal-trust policy a commitment is validated under.
///
/// `Empty` places no temporal constraint; `TrustingPeriod` bounds both the
/// age of the trusted state and how far in the future the untrusted header
/// may claim to be.
#[derive(Clone, Copy, Debug, PartialEq, Eq, Structural)]
pub enum CommitmentContext {
    Empty,
    TrustingPeriod(TrustingPeriodContext),
}

/// The temporal trust window for a trusting-period commitment context.
#[derive(Clone, Copy, Debug, PartialEq, Eq, Structural)]
pub struct TrustingPeriodContext {
    /// How long a trusted state may be relied on; must be kept shorter than
    /// the counterparty chain's unbonding period by the caller.
    pub trusting_period: Duration,
    /// The most the local clock may lag behind a legitimately produced
    /// future header.
    pub clock_drift: Duration,
    /// Timestamp of the untrusted header under verification.
    pub untrusted_header_timestamp: Time,
    /// Timestamp of the previously verified, trusted state.
    pub trusted_state_timestamp: Time,
}

impl TrustingPeriodContext {
    pub open spec fn wf(self) -> bool {
        self.trusting_period.wf() && self.clock_drift.wf() && self.untrusted_header_timestamp.wf()
            && self.trusted_state_timestamp.wf()
    }

    pub fn new(
        trusting_period: Duration,
        clock_drift: Duration,
        untrusted_header_timestamp: Time,
        trusted_state_timestamp: Time,
    ) -> (r: TrustingPeriodContext)
        ensures
            r == (TrustingPeriodContext {
                trusting_period,
                clock_drift,
                untrusted_header_timestamp,
                trusted_state_timestamp,
            }),
    {
        TrustingPeriodContext {
            trusting_period,
            clock_drift,
            untrusted_header_timestamp,
            trusted_state_timestamp,
        }
    }

    /// Runs both temporal checks against `current_timestamp`.
    pub fn validate(&self, current_timestamp: Time) -> (r: Result<(), Error>)
        requires
            self.wf(),
            current_timestamp.wf(),
        ensures
            r == spec_tpc_validate(*self, current_timestamp),
    {
        // ensure that the trusted state's timestamp has not passed the
        // trusting period
        match Self::ensure_within_trust_period(
            current_timestamp,
            self.trusted_state_timestamp,
            self.trusting_period,
        ) {
            Ok(()) => {},
            Err(e) => {
                return Err(e);
            },
        }
        // ensure the header is not from a future time
        match Self::ensure_header_from_past(
            current_timestamp,
            self.untrusted_header_timestamp,
            self.clock_drift,
        ) {
            Ok(()) => {},
            Err(e) => {
                return Err(e);
            },
        }
        Ok(())
    }

    fn ensure_within_trust_period(
        now: Time,
        trusted_state_time: Time,
        trusting_period: Duration,
    ) -> (r: Result<(), Error>)
        requires
            now.wf(),
            trusted_state_time.wf(),
            trusting_period.wf(),
        ensures
            r == spec_within_trust_period(now, trusted_state_time, trusting_period),
    {
        let trusting_period_end = match trusted_state_time.checked_add(trusting_period) {
            Ok(t) => t,
            Err(e) => {
                return Err(e);
            },
        };
        if trusting_period_end.nanos > now.nanos {
            Ok(())
        } else {
            Err(
                Error::OutOfTrustingPeriod {
                    current_timestamp: now,
                    trusting_period_end,
                },
            )
        }
    }

    fn ensure_header_from_past(
        now: Time,
        untrusted_header_time: Time,
        clock_drift: Duration,
    ) -> (r: Result<(), Error>)
        requires
            now.wf(),
            untrusted_header_time.wf(),
            clock_drift.wf(),
        ensures
            r == spec_header_from_past(now, untrusted_header_time, clock_drift),
    {
        let current = match now.checked_add(clock_drift) {
            Ok(t) => t,
            Err(e) => {
                return Err(e);
            },
        };
        if current.nanos > untrusted_header_time.nanos {
            Ok(())
        } else {
            Err(
                Error::HeaderFromFuture {
                    current_timestamp: now,
                    untrusted_header_timestamp: untrusted_header_time,
                },
            )
        }
    }
}

/// Succeeds exactly when `trusted_state_time + trusting_period` is
/// representable and strictly greater than `now`; equality is a failure.
pub open spec fn spec_within_trust_period(
    now: Time,
    trusted_state_time: Time,
    trusting_period: Duration,
) -> Result<(), Error> {
    let end = trusted_state_time.nanos + trusting_period.nanos;
    if end > MAX_UNIX_TIMESTAMP_NANOS {
        Err(Error::TimeOverflow { timestamp: trusted_state_time, duration: trusting_period })
    } else if end > now.nanos {
        Ok(())
    } else {
        Err(
            Error::OutOfTrustingPeriod {
                current_timestamp: now,
                trusting_period_end: Time { nanos: end as u128 },
            },
        )
    }
}

/// Succeeds exactly when `now + clock_drift` is representable and strictly
/// greater than the untrusted header's timestamp; equality is a failure.
pub open spec fn spec_header_from_past(
    now: Time,
    untrusted_header_time: Time,
    clock_drift: Duration,
) -> Result<(), Error> {
    let current = now.nanos + clock_drift.nanos;
    if current > MAX_UNIX_TIMESTAMP_NANOS {
        Err(Error::TimeOverflow { timestamp: now, duration: clock_drift })
    } else if current > untrusted_header_time.nanos {
        Ok(())
    } else {
        Err(
            Error::HeaderFromFuture {
                current_timestamp: now,
                untrusted_header_timestamp: untrusted_header_time,
            },
        )
    }
}

/// The trust-period check runs first; the clock-drift check runs only once
/// it has passed.
pub open spec fn spec_tpc_validate(c: TrustingPeriodContext, now: Time) -> Result<(), Error> {
    match spec_within_trust_period(now, c.trusted_state_timestamp, c.trusting_period) {
        Ok(()) => spec_header_from_past(now, c.untrusted_header_timestamp, c.clock_drift),
        Err(e) => Err(e),
    }
}

/// `Empty` accepts every current timestamp; `TrustingPeriod` runs both
/// temporal checks.
pub open spec fn spec_validate(c: CommitmentContext, now: Time) -> Result<(), Error> {
    match c {
        CommitmentContext::Empty => Ok(()),
        CommitmentContext::TrustingPeriod(ctx) => spec_tpc_validate(ctx, now),
    }
}

impl CommitmentContext {
    pub open spec fn wf(self) -> bool {
        match self {
            CommitmentContext::Empty => true,
            CommitmentContext::TrustingPeriod(ctx) => ctx.wf(),
        }
    }

    /// Validates the context against a caller-supplied current time.
    pub fn validate(&self, current_timestamp: Time) -> (r: Result<(), Error>)
        requires
            self.wf(),
            current_timestamp.wf(),
        ensures
            r == spec_validate(*self, current_timestamp),
    {
        match self {
            CommitmentContext::Empty => Ok(()),
            CommitmentContext::TrustingPeriod(ctx) => ctx.validate(current_timestamp),
        }
    }

    /// The fixed header word: bytes 0-1 hold the variant's discriminant,
    /// most significant byte first; bytes 2-31 are reserved and zero.
    pub fn header(&self) -> (r: Vec<u8>)
        ensures
            r@ == spec_header_bytes(*self),
    {
        let mut header: Vec<u8> = Vec::new();
        match self {
            CommitmentContext::Empty => {
                push_u16_be(&mut header, COMMITMENT_CONTEXT_TYPE_EMPTY);
            },
            CommitmentContext::TrustingPeriod(_) => {
                push_u16_be(&mut header, COMMITMENT_CONTEXT_TYPE_WITHIN_TRUSTING_PERIOD);
            },
        }
        push_zeros(&mut header, 30);
        proof {
            assert(header@ =~= spec_header_bytes(*self));
        }
        header
    }

    /// Reads the discriminant out of a header word, rejecting any buffer
    /// that is not exactly one word long. Reserved bytes are not inspected:
    /// a decoder must leave them as forward-compatibility slack.
    pub fn parse_context_type_from_header(header_bytes: &[u8]) -> (r: Result<u16, Error>)
        ensures
            r == spec_parse_context_type(header_bytes@),
    {
        if header_bytes.len() != COMMITMENT_CONTEXT_HEADER_SIZE {
            return Err(
                Error::InvalidCommitmentContextHeader {
                    expected: COMMITMENT_CONTEXT_HEADER_SIZE,
                    actual: header_bytes.len(),
                },
            );
        }
        Ok(read_u16_be(header_bytes, 0))
    }
}

/// The discriminant the wire format assigns to each context variant.
pub open spec fn spec_context_type(c: CommitmentContext) -> u16 {
    match c {
        CommitmentContext::Empty => COMMITMENT_CONTEXT_TYPE_EMPTY,
        CommitmentContext::TrustingPeriod(_) => COMMITMENT_CONTEXT_TYPE_WITHIN_TRUSTING_PERIOD,
    }
}

/// The 32-byte header word of a context: its discriminant, most significant
/// byte first, then thirty reserved zero bytes.
pub open spec fn spec_header_bytes(c: CommitmentContext) -> Seq<u8> {
    spec_u16_to_be_bytes(spec_context_type(c)) + zeros(30)
}

/// Discriminant extraction from a header word; exactly 32 bytes are
/// accepted.
pub open spec fn spec_parse_context_type(header: Seq<u8>) -> Result<u16, Error> {
    if header.len() != COMMITMENT_CONTEXT_HEADER_SIZE {
        Err(
            Error::InvalidCommitmentContextHeader {
                expected: COMMITMENT_CONTEXT_HEADER_SIZE,
                actual: header.len() as usize,
            },
        )
    } else {
        Ok(spec_u16_from_be_bytes(header.subrange(0, 2)))
    }
}

/// The body of a trusting-period context: two 32-byte words. The first
/// packs the untrusted header timestamp then the trusted state timestamp;
/// the second packs the trusting period then the clock drift; each value a
/// 128-bit nanosecond count, most significant byte first.
pub open spec fn spec_tpc_body(c: TrustingPeriodContext) -> Seq<u8> {
    spec_u128_to_be_bytes(c.untrusted_header_timestamp.nanos) + spec_u128_to_be_bytes(
        c.trusted_state_timestamp.nanos,
    ) + spec_u128_to_be_bytes(c.trusting_period.nanos) + spec_u128_to_be_bytes(c.clock_drift.nanos)
}

/// The body bytes of each variant: empty for `Empty`, the two packed words
/// for `TrustingPeriod`.
pub open spec fn spec_context_body(c: CommitmentContext) -> Seq<u8> {
    match c {
        CommitmentContext::Empty => Seq::<u8>::empty(),
        CommitmentContext::TrustingPeriod(ctx) => spec_tpc_body(ctx),
    }
}

/// The outer two-field tuple layout: an offset word, the fixed 32-byte
/// header, an offset word for the variable field, its length word, the body
/// bytes, and zero padding up to a whole word.
pub open spec fn spec_outer_encoding(header: Seq<u8>, body: Seq<u8>) -> Seq<u8> {
    abi_word(32) + header + abi_word(64) + abi_word(body.len() as u128) + body + zeros(
        pad32_len(body.len()),
    )
}

/// The full wire form of a commitment context.
pub open spec fn spec_context_encoding(c: CommitmentContext) -> Seq<u8> {
    spec_outer_encoding(spec_header_bytes(c), spec_context_body(c))
}

/// True when the 32-byte word of `bz` at `off` holds exactly the value `x`.
pub open spec fn spec_word_is(bz: Seq<u8>, off: int, x: u128) -> bool {
    spec_zeros_at(bz, off, off + 16) && spec_u128_from_be_bytes(bz.subrange(off + 16, off + 32))
        == x
}

/// Structural parse of the outer two-field tuple: on success the header
/// word's bytes and the exact body bytes. Every shape mismatch is an
/// unrecoverable error; nothing is guessed or truncated.
pub open spec fn spec_outer_decode(bz: Seq<u8>) -> Result<(Seq<u8>, Seq<u8>), Error> {
    if bz.len() < 128 {
        Err(Error::InvalidAbiEncoding)
    } else if !spec_word_is(bz, 0, 32) {
        Err(Error::InvalidAbiEncoding)
    } else if !spec_word_is(bz, 64, 64) {
        Err(Error::InvalidAbiEncoding)
    } else if !spec_zeros_at(bz, 96, 112) {
        Err(Error::InvalidAbiEncoding)
    } else {
        let n = spec_u128_from_be_bytes(bz.subrange(112, 128)) as int;
        if 128 + n + pad32_len(n as nat) != bz.len() {
            Err(Error::InvalidAbiEncoding)
        } else if !spec_zeros_at(bz, 128 + n, bz.len() as int) {
            Err(Error::InvalidAbiEncoding)
        } else {
            Ok((bz.subrange(32, 64), bz.subrange(128, 128 + n)))
        }
    }
}

/// Structural parse of the outer two-field tuple, as `spec_outer_decode`
/// states it: on success the header word's bytes and the exact body bytes.
pub(crate) fn outer_decode(bz: &[u8]) -> (r: Result<(Vec<u8>, Vec<u8>), Error>)
    ensures
        r matches Ok(p) ==> (spec_outer_decode(bz@) matches Ok(q) && q.0 == p.0@ && q.1 == p.1@
            && p.0@.len() == 32),
        r matches Err(e) ==> spec_outer_decode(bz@) == Err::<(Seq<u8>, Seq<u8>), Error>(e),
{
    let len = bz.len();
    if len < 128 {
        return Err(Error::InvalidAbiEncoding);
    }
    if !(is_all_zero(bz, 0, 16) && read_u128_be(bz, 16) == 32) {
        return Err(Error::InvalidAbiEncoding);
    }
    if !(is_all_zero(bz, 64, 80) && read_u128_be(bz, 80) == 64) {
        return Err(Error::InvalidAbiEncoding);
    }
    if !is_all_zero(bz, 96, 112) {
        return Err(Error::InvalidAbiEncoding);
    }
    let n128 = read_u128_be(bz, 112);
    if n128 > (len - 128) as u128 {
        return Err(Error::InvalidAbiEncoding);
    }
    let n = n128 as usize;
    let rem = len - 128 - n;
    let pad = if n % 32 == 0 {
        0
    } else {
        32 - n % 32
    };
    if rem != pad {
        return Err(Error::InvalidAbiEncoding);
    }
    if !is_all_zero(bz, 128 + n, len) {
        return Err(Error::InvalidAbiEncoding);
    }
    let header = copy_range(bz, 32, 64);
    let body = copy_range(bz, 128, 128 + n);
    Ok((header, body))
}

/// Parse of a trusting-period body: exactly two 32-byte words, each packed
/// value then checked against its representable range.
pub open spec fn spec_tpc_decode(bz: Seq<u8>) -> Result<TrustingPeriodContext, Error> {
    if bz.len() != 64 {
        Err(Error::InvalidAbiEncoding)
    } else {
        let untrusted = spec_u128_from_be_bytes(bz.subrange(0, 16));
        let trusted = spec_u128_from_be_bytes(bz.subrange(16, 32));
        let period = spec_u128_from_be_bytes(bz.subrange(32, 48));
        let drift = spec_u128_from_be_bytes(bz.subrange(48, 64));
        if period > MAX_DURATION_NANOS {
            Err(Error::DurationOutOfRange { nanos: period })
        } else if drift > MAX_DURATION_NANOS {
            Err(Error::DurationOutOfRange { nanos: drift })
        } else if untrusted > MAX_UNIX_TIMESTAMP_NANOS {
            Err(Error::TimestampOutOfRange { nanos: untrusted })
        } else if trusted > MAX_UNIX_TIMESTAMP_NANOS {
            Err(Error::TimestampOutOfRange { nanos: trusted })
        } else {
            Ok(
                TrustingPeriodContext {
                    trusting_period: Duration { nanos: period },
                    clock_drift: Duration { nanos: drift },
                    untrusted_header_timestamp: Time { nanos: untrusted },
                    trusted_state_timestamp: Time { nanos: trusted },
                },
            )
        }
    }
}

/// Full decode of a commitment context: outer shape, then discriminant,
/// then the variant's body. Unknown discriminants fail closed; an empty
/// context must arrive with an empty body.
pub open spec fn spec_context_decoding(bz: Seq<u8>) -> Result<CommitmentContext, Error> {
    match spec_outer_decode(bz) {
        Err(e) => Err(e),
        Ok((header, body)) => match spec_parse_context_type(header) {
            Err(e) => Err(e),
            Ok(t) => if t == COMMITMENT_CONTEXT_TYPE_EMPTY {
                if body.len() == 0 {
                    Ok(CommitmentContext::Empty)
                } else {
                    Err(Error::NonEmptyContextBody { body_len: body.len() as usize })
                }
            } else if t == COMMITMENT_CONTEXT_TYPE_WITHIN_TRUSTING_PERIOD {
                match spec_tpc_decode(body) {
                    Ok(c) => Ok(CommitmentContext::TrustingPeriod(c)),
                    Err(e) => Err(e),
                }
            } else {
                Err(Error::UnknownCommitmentContextType { context_type: t })
            },
        },
    }
}

impl EthABIEncoder for TrustingPeriodContext {
    open spec fn spec_encoding(self) -> Seq<u8> {
        spec_tpc_body(self)
    }

    open spec fn spec_decoding(bz: Seq<u8>) -> Result<TrustingPeriodContext, Error> {
        spec_tpc_decode(bz)
    }

    fn ethabi_encode(self) -> (r: Vec<u8>) {
        let mut out: Vec<u8> = Vec::new();
        push_u128_be(&mut out, self.untrusted_header_timestamp.nanos);
        push_u128_be(&mut out, self.trusted_state_timestamp.nanos);
        push_u128_be(&mut out, self.trusting_period.nanos);
        push_u128_be(&mut out, self.clock_drift.nanos);
        proof {
            assert(out@ =~= spec_tpc_body(self));
        }
        out
    }

    fn ethabi_decode(bz: &[u8]) -> (r: Result<TrustingPeriodContext, Error>) {
        if bz.len() != 64 {
            return Err(Error::InvalidAbiEncoding);
        }
        let untrusted = read_u128_be(bz, 0);
        let trusted = read_u128_be(bz, 16);
        let period = read_u128_be(bz, 32);
        let drift = read_u128_be(bz, 48);
        if period > MAX_DURATION_NANOS {
            return Err(Error::DurationOutOfRange { nanos: period });
        }
        if drift > MAX_DURATION_NANOS {
            return Err(Error::DurationOutOfRange { nanos: drift });
        }
        if untrusted > MAX_UNIX_TIMESTAMP_NANOS {
            return Err(Error::TimestampOutOfRange { nanos: untrusted });
        }
        if trusted > MAX_UNIX_TIMESTAMP_NANOS {
            return Err(Error::TimestampOutOfRange { nanos: trusted });
        }
        Ok(
            TrustingPeriodContext {
                trusting_period: Duration { nanos: period },
                clock_drift: Duration { nanos: drift },
                untrusted_header_timestamp: Time { nanos: untrusted },
                trusted_state_timestamp: Time { nanos: trusted },
            },
        )
    }
}

impl EthABIEncoder for CommitmentContext {
    open spec fn spec_encoding(self) -> Seq<u8> {
        spec_context_encoding(self)
    }

    open spec fn spec_decoding(bz: Seq<u8>) -> Result<CommitmentContext, Error> {
        spec_context_decoding(bz)
    }

    fn ethabi_encode(self) -> (r: Vec<u8>) {
        let header = self.header();
        let body: Vec<u8> = match self {
            CommitmentContext::Empty => Vec::new(),
            CommitmentContext::TrustingPeriod(ctx) => ctx.ethabi_encode(),
        };
        let mut out: Vec<u8> = Vec::new();
        push_abi_word(&mut out, 32);
        let mut i: usize = 0;
        while i < header.len()
            invariant
                i <= header@.len(),
                out@ == abi_word(32) + header@.subrange(0, i as int),
            decreases header@.len() - i,
        {
            out.push(header[i]);
            i = i + 1;
            proof {
                assert(out@ =~= abi_word(32) + header@.subrange(0, i as int));
            }
        }
        proof {
            assert(header@.subrange(0, header@.len() as int) =~= header@);
        }
        push_abi_word(&mut out, 64);
        push_abi_word(&mut out, body.len() as u128);
        let mut j: usize = 0;
        let ghost prefix = out@;
        while j < body.len()
            invariant
                j <= body@.len(),
                out@ == prefix + body@.subrange(0, j as int),
            decreases body@.len() - j,
        {
            out.push(body[j]);
            j = j + 1;
            proof {
                assert(out@ =~= prefix + body@.subrange(0, j as int));
            }
        }
        proof {
            assert(body@.subrange(0, body@.len() as int) =~= body@);
        }
        let pad = if body.len() % 32 == 0 {
            0
        } else {
            32 - body.len() % 32
        };
        push_zeros(&mut out, pad);
        proof {
            assert(pad == pad32_len(body@.len()));
            assert(out@ =~= spec_context_encoding(self));
        }
        out
    }

    fn ethabi_decode(bz: &[u8]) -> (r: Result<CommitmentContext, Error>) {
        let (header, body) = match outer_decode(bz) {
            Ok(p) => p,
            Err(e) => {
                return Err(e);
            },
        };
        let context_type = match Self::parse_context_type_from_header(header.as_slice()) {
            Ok(t) => t,
            Err(e) => {
                return Err(e);
            },
        };
        if context_type == COMMITMENT_CONTEXT_TYPE_EMPTY {
            if body.len() == 0 {
                Ok(CommitmentContext::Empty)
            } else {
                Err(Error::NonEmptyContextBody { body_len: body.len() })
            }
        } else if context_type == COMMITMENT_CONTEXT_TYPE_WITHIN_TRUSTING_PERIOD {
            match TrustingPeriodContext::ethabi_decode(body.as_slice()) {
                Ok(ctx) => Ok(CommitmentContext::TrustingPeriod(ctx)),
                Err(e) => Err(e),
            }
        } else {
            Err(Error::UnknownCommitmentContextType { context_type })
        }
    }
}

/// Parsing the header word of any context yields exactly that variant's
/// discriminant, whatever the inner field values are.
pub proof fn lemma_header_discriminant(c: CommitmentContext)
    ensures
        spec_parse_context_type(spec_header_bytes(c)) == Ok::<u16, Error>(spec_context_type(c)),
{
    crate::abi::lemma_u16_be_round_trip(spec_context_type(c));
    assert(spec_header_bytes(c).subrange(0, 2) =~= spec_u16_to_be_bytes(spec_context_type(c)));
}

/// Decoding the outer two-field tuple of a canonical encoding gives back
/// exactly the header word and the body bytes.
#[verifier::spinoff_prover]
#[verifier::rlimit(100)]
pub proof fn lemma_outer_round_trip(header: Seq<u8>, body: Seq<u8>)
    requires
        header.len() == 32,
        body.len() <= usize::MAX,
    ensures
        spec_outer_decode(spec_outer_encoding(header, body)) == Ok::<(Seq<u8>, Seq<u8>), Error>(
            (header, body),
        ),
{
    let n = body.len() as u128;
    let enc = spec_outer_encoding(header, body);
    crate::abi::lemma_u128_be_round_trip(32);
    crate::abi::lemma_u128_be_round_trip(64);
    crate::abi::lemma_u128_be_round_trip(n);
    assert(enc.len() == 128 + body.len() + pad32_len(body.len()));
    assert(spec_zeros_at(enc, 0, 16));
    assert(enc.subrange(16, 32) =~= spec_u128_to_be_bytes(32));
    assert(spec_word_is(enc, 0, 32));
    assert(spec_zeros_at(enc, 64, 80));
    assert(enc.subrange(80, 96) =~= spec_u128_to_be_bytes(64));
    assert(spec_word_is(enc, 64, 64));
    assert(spec_zeros_at(enc, 96, 112));
    assert(enc.subrange(112, 128) =~= spec_u128_to_be_bytes(n));
    assert(spec_u128_from_be_bytes(enc.subrange(112, 128)) == n);
    assert(spec_zeros_at(enc, 128 + body.len() as int, enc.len() as int));
    assert(enc.subrange(32, 64) =~= header);
    assert(enc.subrange(128, 128 + body.len() as int) =~= body);
}

/// Round-trip law: decoding the encoding of any well-formed commitment
/// context, either variant, gives back exactly that context.
#[verifier::spinoff_prover]
#[verifier::rlimit(100)]
pub proof fn lemma_context_round_trip(c: CommitmentContext)
    requires
        c.wf(),
    ensures
        spec_context_decoding(spec_context_encoding(c)) == Ok::<CommitmentContext, Error>(c),
{
    let h = spec_header_bytes(c);
    let b = spec_context_body(c);
    assert(h.len() == 32);
    lemma_outer_round_trip(h, b);
    lemma_header_discriminant(c);
    match c {
        CommitmentContext::Empty => {
            assert(b.len() == 0);
        },
        CommitmentContext::TrustingPeriod(t) => {
            assert(b.len() == 64);
            crate::abi::lemma_u128_be_round_trip(t.untrusted_header_timestamp.nanos);
            crate::abi::lemma_u128_be_round_trip(t.trusted_state_timestamp.nanos);
            crate::abi::lemma_u128_be_round_trip(t.trusting_period.nanos);
            crate::abi::lemma_u128_be_round_trip(t.clock_drift.nanos);
            assert(b.subrange(0, 16) =~= spec_u128_to_be_bytes(t.untrusted_header_timestamp.nanos));
            assert(b.subrange(16, 32) =~= spec_u128_to_be_bytes(t.trusted_state_timestamp.nanos));
            assert(b.subrange(32, 48) =~= spec_u128_to_be_bytes(t.trusting_period.nanos));
            assert(b.subrange(48, 64) =~= spec_u128_to_be_bytes(t.clock_drift.nanos));
            assert(spec_tpc_decode(b) == Ok::<TrustingPeriodContext, Error>(t));
        },
    }
}

/// Unknown discriminants fail closed: a canonical outer encoding whose
/// header names a discriminant above the defined range decodes to an
/// unknown-type error, whatever its body holds, and never to `Empty`.
#[verifier::spinoff_prover]
#[verifier::rlimit(100)]
pub proof fn lemma_unknown_type_rejected(header: Seq<u8>, body: Seq<u8>)
    requires
        header.len() == 32,
        body.len() <= usize::MAX,
        spec_u16_from_be_bytes(header.subrange(0, 2))
            > COMMITMENT_CONTEXT_TYPE_WITHIN_TRUSTING_PERIOD,
    ensures
        spec_context_decoding(spec_outer_encoding(header, body)) == Err::<CommitmentContext, Error>(
            Error::UnknownCommitmentContextType {
                context_type: spec_u16_from_be_bytes(header.subrange(0, 2)),
            },
        ),
{
    lemma_outer_round_trip(header, body);
}

/// Empty-body invariant: a canonical outer encoding whose header names the
/// empty variant but whose body is non-empty is a decode error, never a
/// silently accepted `Empty`.
#[verifier::spinoff_prover]
#[verifier::rlimit(100)]
pub proof fn lemma_empty_with_body_rejected(header: Seq<u8>, body: Seq<u8>)
    requires
        header.len() == 32,
        0 < body.len() <= usize::MAX,
        spec_u16_from_be_bytes(header.subrange(0, 2)) == COMMITMENT_CONTEXT_TYPE_EMPTY,
    ensures
        spec_context_decoding(spec_outer_encoding(header, body)) == Err::<CommitmentContext, Error>(
            Error::NonEmptyContextBody { body_len: body.len() as usize },
        ),
{
    lemma_outer_round_trip(header, body);
}

/// Strict-inequality boundary of the trust-period check: when the current
/// time equals the trusted state's timestamp plus the trusting period
/// exactly, validation fails with `OutOfTrustingPeriod`.
pub proof fn lemma_trust_period_boundary_fails(c: TrustingPeriodContext, now: Time)
    requires
        c.wf(),
        now.wf(),
        c.trusted_state_timestamp.nanos + c.trusting_period.nanos == now.nanos,
    ensures
        spec_tpc_validate(c, now) == Err::<(), Error>(
            Error::OutOfTrustingPeriod { current_timestamp: now, trusting_period_end: now },
        ),
{
}

/// One nanosecond inside the trust-period boundary, validation succeeds,
/// absent a failure of the independent clock-drift check.
pub proof fn lemma_trust_period_boundary_succeeds(c: TrustingPeriodContext, now: Time)
    requires
        c.wf(),
        now.wf(),
        c.trusted_state_timestamp.nanos + c.trusting_period.nanos == now.nanos + 1,
        c.trusted_state_timestamp.nanos + c.trusting_period.nanos <= MAX_UNIX_TIMESTAMP_NANOS,
        now.nanos + c.clock_drift.nanos <= MAX_UNIX_TIMESTAMP_NANOS,
        now.nanos + c.clock_drift.nanos > c.untrusted_header_timestamp.nanos,
    ensures
        spec_tpc_validate(c, now) == Ok::<(), Error>(()),
{
}

/// Strict-inequality boundary of the clock-drift check: when the untrusted
/// header's timestamp equals the current time plus the clock drift exactly,
/// validation fails with `HeaderFromFuture`.
pub proof fn lemma_clock_drift_boundary_fails(c: TrustingPeriodContext, now: Time)
    requires
        c.wf(),
        now.wf(),
        now.nanos + c.clock_drift.nanos == c.untrusted_header_timestamp.nanos,
        c.trusted_state_timestamp.nanos + c.trusting_period.nanos <= MAX_UNIX_TIMESTAMP_NANOS,
        c.trusted_state_timestamp.nanos + c.trusting_period.nanos > now.nanos,
    ensures
        spec_tpc_validate(c, now) == Err::<(), Error>(
            Error::HeaderFromFuture {
                current_timestamp: now,
                untrusted_header_timestamp: c.untrusted_header_timestamp,
            },
        ),
{
}

/// One nanosecond inside the clock-drift boundary, validation succeeds,
/// absent a failure of the independent trust-period check.
pub proof fn lemma_clock_drift_boundary_succeeds(c: TrustingPeriodContext, now: Time)
    requires
        c.wf(),
        now.wf(),
        now.nanos + c.clock_drift.nanos == c.untrusted_header_timestamp.nanos + 1,
        now.nanos + c.clock_drift.nanos <= MAX_UNIX_TIMESTAMP_NANOS,
        c.trusted_state_timestamp.nanos + c.trusting_period.nanos <= MAX_UNIX_TIMESTAMP_NANOS,
        c.trusted_state_timestamp.nanos + c.trusting_period.nanos > now.nanos,
    ensures
        spec_tpc_validate(c, now) == Ok::<(), Error>(()),
{
}

impl From<TrustingPeriodContext> for CommitmentContext {
    fn from(ctx: TrustingPeriodContext) -> (r: CommitmentContext) {
        CommitmentContext::TrustingPeriod(ctx)
    }
}

impl vstd::std_specs::convert::FromSpecImpl<TrustingPeriodContext> for CommitmentContext {
    open spec fn obeys_from_spec() -> bool {
        true
    }

    open spec fn from_spec(ctx: TrustingPeriodContext) -> CommitmentContext {
        CommitmentContext::TrustingPeriod(ctx)
    }
}

impl Default for CommitmentContext {
    /// The default context places no temporal constraint.
    fn default() -> (r: CommitmentContext)
        ensures
            r == CommitmentContext::Empty,
    {
        CommitmentContext::Empty
    }
}

} // verus!
