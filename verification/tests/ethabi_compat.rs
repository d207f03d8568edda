use commitments::{
    CommitmentContext, Duration, EthABIEncoder, Time, TrustingPeriodContext,
};
use ethabi::{ParamType, Token};

const NANOS_PER_SEC: u128 = 1_000_000_000;
const BASE_NANOS: u128 = 1_692_489_600 * NANOS_PER_SEC;

fn sample_tpc() -> TrustingPeriodContext {
    TrustingPeriodContext::new(
        Duration::from_nanos(86_400 * NANOS_PER_SEC + 7).unwrap(),
        Duration::from_nanos(3_600 * NANOS_PER_SEC + 3).unwrap(),
        Time::from_unix_timestamp_nanos(BASE_NANOS + 123).unwrap(),
        Time::from_unix_timestamp_nanos(BASE_NANOS + 456).unwrap(),
    )
}

fn reference_tpc_words(ctx: &TrustingPeriodContext) -> (Vec<u8>, Vec<u8>) {
    let mut timestamps = [0u8; 32];
    timestamps[0..=15]
        .copy_from_slice(&ctx.untrusted_header_timestamp.nanos.to_be_bytes());
    timestamps[16..=31].copy_from_slice(&ctx.trusted_state_timestamp.nanos.to_be_bytes());
    let mut params = [0u8; 32];
    params[0..=15].copy_from_slice(&ctx.trusting_period.nanos.to_be_bytes());
    params[16..=31].copy_from_slice(&ctx.clock_drift.nanos.to_be_bytes());
    (timestamps.to_vec(), params.to_vec())
}

#[test]
fn trusting_period_body_matches_reference_tuple_encoder() {
    let ctx = sample_tpc();
    let (timestamps, params) = reference_tpc_words(&ctx);
    let reference = ethabi::encode(&[Token::Tuple(vec![
        Token::FixedBytes(timestamps),
        Token::FixedBytes(params),
    ])]);
    assert_eq!(ctx.ethabi_encode(), reference);
}

#[test]
fn context_encoding_matches_reference_tuple_encoder() {
    let contexts = vec![
        CommitmentContext::Empty,
        CommitmentContext::TrustingPeriod(sample_tpc()),
    ];
    for ctx in contexts {
        let header = ctx.header();
        let body = match ctx {
            CommitmentContext::Empty => vec![],
            CommitmentContext::TrustingPeriod(t) => t.ethabi_encode(),
        };
        let reference = ethabi::encode(&[Token::Tuple(vec![
            Token::FixedBytes(header),
            Token::Bytes(body),
        ])]);
        assert_eq!(ctx.ethabi_encode(), reference);
    }
}

#[test]
fn context_encoding_parses_with_reference_decoder() {
    let ctx = CommitmentContext::TrustingPeriod(sample_tpc());
    let bz = ctx.ethabi_encode();
    let tokens = ethabi::decode(
        &[ParamType::Tuple(vec![
            ParamType::FixedBytes(32),
            ParamType::Bytes,
        ])],
        &bz,
    )
    .unwrap();
    let tuple = tokens.into_iter().next().unwrap().into_tuple().unwrap();
    assert_eq!(tuple.len(), 2);
    let mut values = tuple.into_iter();
    let header = values.next().unwrap().into_fixed_bytes().unwrap();
    let body = values.next().unwrap().into_bytes().unwrap();
    assert_eq!(header, ctx.header());
    assert_eq!(body.len(), 64);
    let inner = TrustingPeriodContext::ethabi_decode(&body).unwrap();
    assert_eq!(CommitmentContext::TrustingPeriod(inner), ctx);
}
