use commitments::{
    CommitmentContext, Duration, Error, EthABIEncoder, Time, TrustingPeriodContext,
    COMMITMENT_CONTEXT_TYPE_EMPTY, COMMITMENT_CONTEXT_TYPE_WITHIN_TRUSTING_PERIOD,
    MAX_UNIX_TIMESTAMP_NANOS,
};

const NANOS_PER_SEC: u128 = 1_000_000_000;

// 2023-08-20T00:00:00Z as nanoseconds since the unix epoch.
const BASE_NANOS: u128 = 1_692_489_600 * NANOS_PER_SEC;

fn time_from_nanos(nanos: u128) -> Time {
    Time::from_unix_timestamp_nanos(nanos).unwrap()
}

fn duration_from_nanos(nanos: u128) -> Duration {
    Duration::from_nanos(nanos).unwrap()
}

#[test]
fn test_empty_context_serialization() {
    let ctx = CommitmentContext::Empty;
    let bz = ctx.clone().ethabi_encode();
    let ctx2 = CommitmentContext::ethabi_decode(&bz).unwrap();
    assert_eq!(ctx, ctx2);
}

#[test]
fn test_trusting_period_context_serialization() {
    let now = time_from_nanos(BASE_NANOS);
    let ctx = CommitmentContext::TrustingPeriod(TrustingPeriodContext::new(
        Duration::from_secs(60 * 60 * 24),
        Duration::from_secs(60 * 60),
        now,
        now,
    ));
    let bz = ctx.clone().ethabi_encode();
    let ctx2 = CommitmentContext::ethabi_decode(&bz).unwrap();
    assert_eq!(ctx, ctx2);
}

#[test]
fn test_context_header() {
    let ctx = CommitmentContext::Empty;
    let header = ctx.header();
    assert_eq!(
        COMMITMENT_CONTEXT_TYPE_EMPTY,
        CommitmentContext::parse_context_type_from_header(&header).unwrap()
    );

    let now = time_from_nanos(BASE_NANOS);
    let ctx = CommitmentContext::TrustingPeriod(TrustingPeriodContext::new(
        Duration::from_secs(60 * 60 * 24),
        Duration::from_secs(60 * 60),
        now,
        now,
    ));
    let header = ctx.header();
    assert_eq!(
        COMMITMENT_CONTEXT_TYPE_WITHIN_TRUSTING_PERIOD,
        CommitmentContext::parse_context_type_from_header(&header).unwrap()
    );
}

fn build_trusting_period_context(
    trusting_period_nanos: u128,
    clock_drift_nanos: u128,
    untrusted_header_timestamp: u128,
    trusted_state_timestamp: u128,
) -> TrustingPeriodContext {
    TrustingPeriodContext::new(
        duration_from_nanos(trusting_period_nanos),
        duration_from_nanos(clock_drift_nanos),
        time_from_nanos(untrusted_header_timestamp),
        time_from_nanos(trusted_state_timestamp),
    )
}

fn validate_and_assert_no_error(ctx: TrustingPeriodContext, current_timestamp: u128) {
    let res = ctx.validate(time_from_nanos(current_timestamp));
    assert!(res.is_ok(), "{:?}", res);
}

fn validate_and_assert_trusting_period_error(ctx: TrustingPeriodContext, current_timestamp: u128) {
    let res = ctx.validate(time_from_nanos(current_timestamp));
    assert!(res.is_err());
    assert!(matches!(
        res.unwrap_err(),
        Error::OutOfTrustingPeriod { .. }
    ));
}

fn validate_and_assert_clock_drift_error(ctx: TrustingPeriodContext, current_timestamp: u128) {
    let res = ctx.validate(time_from_nanos(current_timestamp));
    assert!(res.is_err());
    assert!(matches!(res.unwrap_err(), Error::HeaderFromFuture { .. }));
}

#[test]
fn test_trusting_period_context() {
    {
        let current_timestamp = BASE_NANOS;
        let untrusted_header_timestamp = BASE_NANOS;
        let trusted_state_timestamp = BASE_NANOS;
        let ctx = build_trusting_period_context(
            1,
            1,
            untrusted_header_timestamp,
            trusted_state_timestamp,
        );
        validate_and_assert_no_error(ctx, current_timestamp);
    }

    // trusting_period
    {
        let current_timestamp = BASE_NANOS;
        let untrusted_header_timestamp = current_timestamp - 1;
        let trusted_state_timestamp = untrusted_header_timestamp - 1;

        let ctx = build_trusting_period_context(
            1,
            0,
            untrusted_header_timestamp,
            trusted_state_timestamp,
        );
        validate_and_assert_trusting_period_error(ctx, current_timestamp);

        let ctx = build_trusting_period_context(
            2,
            0,
            untrusted_header_timestamp,
            trusted_state_timestamp,
        );
        validate_and_assert_trusting_period_error(ctx, current_timestamp);

        let ctx = build_trusting_period_context(
            3,
            0,
            untrusted_header_timestamp,
            trusted_state_timestamp,
        );
        validate_and_assert_no_error(ctx, current_timestamp);
    }

    // clock drift
    {
        let current_timestamp = BASE_NANOS;
        let untrusted_header_timestamp = current_timestamp + 1;
        let trusted_state_timestamp = current_timestamp;
        let ctx = build_trusting_period_context(
            1,
            0,
            untrusted_header_timestamp,
            trusted_state_timestamp,
        );
        validate_and_assert_clock_drift_error(ctx, current_timestamp);
        let ctx = build_trusting_period_context(
            1,
            1,
            untrusted_header_timestamp,
            trusted_state_timestamp,
        );
        validate_and_assert_clock_drift_error(ctx, current_timestamp);
        let ctx = build_trusting_period_context(
            1,
            2,
            untrusted_header_timestamp,
            trusted_state_timestamp,
        );
        validate_and_assert_no_error(ctx, current_timestamp);
    }
}

#[test]
fn trust_period_boundary_is_strict() {
    // current == trusted + period fails; one nanosecond earlier succeeds.
    let trusted = BASE_NANOS;
    let period: u128 = 1000;
    let ctx = build_trusting_period_context(period, 0, trusted, trusted);
    validate_and_assert_trusting_period_error(ctx, trusted + period);
    let ctx = build_trusting_period_context(period, 0, trusted, trusted);
    validate_and_assert_no_error(ctx, trusted + period - 1);
}

#[test]
fn clock_drift_boundary_is_strict() {
    // untrusted == current + drift fails; one nanosecond earlier succeeds.
    let current = BASE_NANOS;
    let drift: u128 = 1000;
    let ctx = build_trusting_period_context(u128::from(u64::MAX), drift, current + drift, current);
    validate_and_assert_clock_drift_error(ctx, current);
    let ctx =
        build_trusting_period_context(u128::from(u64::MAX), drift, current + drift - 1, current);
    validate_and_assert_no_error(ctx, current);
}

#[test]
fn validate_reports_overflow_distinctly() {
    // trusted + period leaves the representable range: an overflow error,
    // not a policy violation.
    let trusted = MAX_UNIX_TIMESTAMP_NANOS;
    let ctx = build_trusting_period_context(1, 0, BASE_NANOS, trusted);
    let res = ctx.validate(time_from_nanos(BASE_NANOS));
    assert!(matches!(res.unwrap_err(), Error::TimeOverflow { .. }));
}

#[test]
fn empty_context_always_validates() {
    let ctx = CommitmentContext::Empty;
    assert!(ctx.validate(time_from_nanos(0)).is_ok());
    assert!(ctx
        .validate(time_from_nanos(MAX_UNIX_TIMESTAMP_NANOS))
        .is_ok());
}

#[test]
fn unknown_discriminant_is_rejected() {
    let mut bz = CommitmentContext::Empty.ethabi_encode();
    // The discriminant lives in the first two bytes of the header word,
    // which starts at byte 32.
    bz[33] = 2;
    let res = CommitmentContext::ethabi_decode(&bz);
    assert_eq!(
        res.unwrap_err(),
        Error::UnknownCommitmentContextType { context_type: 2 }
    );
    let mut bz = CommitmentContext::Empty.ethabi_encode();
    bz[32] = 0xff;
    bz[33] = 0xff;
    let res = CommitmentContext::ethabi_decode(&bz);
    assert_eq!(
        res.unwrap_err(),
        Error::UnknownCommitmentContextType {
            context_type: 0xffff
        }
    );
}

#[test]
fn empty_context_with_body_is_rejected() {
    let now = time_from_nanos(BASE_NANOS);
    let ctx = CommitmentContext::TrustingPeriod(TrustingPeriodContext::new(
        Duration::from_secs(1),
        Duration::from_secs(1),
        now,
        now,
    ));
    let mut bz = ctx.ethabi_encode();
    // Rewrite the discriminant to the empty variant while the 64-byte body
    // stays in place.
    bz[33] = 0;
    let res = CommitmentContext::ethabi_decode(&bz);
    assert_eq!(res.unwrap_err(), Error::NonEmptyContextBody { body_len: 64 });
}

#[test]
fn header_length_mismatch_is_rejected() {
    let header = CommitmentContext::Empty.header();
    let res = CommitmentContext::parse_context_type_from_header(&header[..31]);
    assert_eq!(
        res.unwrap_err(),
        Error::InvalidCommitmentContextHeader {
            expected: 32,
            actual: 31
        }
    );
}

#[test]
fn truncated_buffer_is_rejected() {
    let bz = CommitmentContext::Empty.ethabi_encode();
    let res = CommitmentContext::ethabi_decode(&bz[..64]);
    assert_eq!(res.unwrap_err(), Error::InvalidAbiEncoding);
    let res = CommitmentContext::ethabi_decode(&[]);
    assert_eq!(res.unwrap_err(), Error::InvalidAbiEncoding);
}

#[test]
fn out_of_range_wire_values_are_rejected() {
    let now = time_from_nanos(BASE_NANOS);
    let ctx = CommitmentContext::TrustingPeriod(TrustingPeriodContext::new(
        Duration::from_secs(1),
        Duration::from_secs(1),
        now,
        now,
    ));
    // The body starts at byte 128: untrusted timestamp, trusted timestamp,
    // trusting period, clock drift, 16 bytes each.
    let mut bz = ctx.ethabi_encode();
    for b in bz.iter_mut().take(144).skip(128) {
        *b = 0xff;
    }
    let res = CommitmentContext::ethabi_decode(&bz);
    assert!(matches!(res.unwrap_err(), Error::TimestampOutOfRange { .. }));

    let mut bz = ctx.ethabi_encode();
    for b in bz.iter_mut().take(176).skip(160) {
        *b = 0xff;
    }
    let res = CommitmentContext::ethabi_decode(&bz);
    assert!(matches!(res.unwrap_err(), Error::DurationOutOfRange { .. }));
}

#[test]
fn reserved_header_bytes_are_ignored_on_decode() {
    // Nonzero reserved bytes are forward-compatibility slack, not an error.
    let mut bz = CommitmentContext::Empty.ethabi_encode();
    bz[40] = 0xaa;
    bz[63] = 0x01;
    let ctx = CommitmentContext::ethabi_decode(&bz).unwrap();
    assert_eq!(ctx, CommitmentContext::Empty);
}

#[test]
fn time_and_duration_ranges_are_enforced() {
    assert!(Time::from_unix_timestamp_nanos(MAX_UNIX_TIMESTAMP_NANOS).is_ok());
    assert!(matches!(
        Time::from_unix_timestamp_nanos(MAX_UNIX_TIMESTAMP_NANOS + 1).unwrap_err(),
        Error::TimestampOutOfRange { .. }
    ));
    assert!(Duration::from_nanos(commitments::MAX_DURATION_NANOS).is_ok());
    assert!(matches!(
        Duration::from_nanos(commitments::MAX_DURATION_NANOS + 1).unwrap_err(),
        Error::DurationOutOfRange { .. }
    ));
    let t = time_from_nanos(MAX_UNIX_TIMESTAMP_NANOS);
    assert!(matches!(
        t.checked_add(duration_from_nanos(1)).unwrap_err(),
        Error::TimeOverflow { .. }
    ));
    let t = time_from_nanos(0);
    assert_eq!(
        t.checked_add(duration_from_nanos(5)).unwrap(),
        time_from_nanos(5)
    );
}

#[test]
fn empty_context_encoding_has_the_documented_layout() {
    let bz = CommitmentContext::Empty.ethabi_encode();
    // One offset word of value 32, the header word, one offset word of
    // value 64, and a zero length word: four 32-byte words in all.
    let mut expected = vec![0u8; 128];
    expected[31] = 32;
    expected[95] = 64;
    assert_eq!(bz, expected);

    let now = time_from_nanos(BASE_NANOS);
    let ctx = CommitmentContext::TrustingPeriod(TrustingPeriodContext::new(
        duration_from_nanos(7),
        duration_from_nanos(9),
        time_from_nanos(BASE_NANOS + 1),
        now,
    ));
    let bz = ctx.ethabi_encode();
    assert_eq!(bz.len(), 192);
    // Discriminant, length word, then the two packed body words.
    assert_eq!(bz[33], 1);
    assert_eq!(bz[127], 64);
    assert_eq!(bz[128..144], (BASE_NANOS + 1).to_be_bytes());
    assert_eq!(bz[144..160], BASE_NANOS.to_be_bytes());
    assert_eq!(bz[160..176], 7u128.to_be_bytes());
    assert_eq!(bz[176..192], 9u128.to_be_bytes());
}
