use vstd::prelude::*;

use crate::commitment::Height;
use crate::state::StateID;
use crate::time::{Duration, Time};

verus! {

/// Every failure the library reports, as typed data.
///
/// Temporal-trust violations (`OutOfTrustingPeriod`, `HeaderFromFuture`) are
/// recoverable only with fresher inputs; decode and format violations are
/// fatal for the decode call; arithmetic range failures are surfaced apart
/// from policy violations; resolution and signing failures are terminal for
/// the dispatch call that hit them.
#[derive(Clone, Debug, PartialEq, Eq)]
pub enum Error {
    /// The trusted state is older than the trusting period allows.
    OutOfTrustingPeriod { current_timestamp: Time, trusting_period_end: Time },
    /// The untrusted header claims a timestamp further in the future than
    /// the clock-drift bound allows.
    HeaderFromFuture { current_timestamp: Time, untrusted_header_timestamp: Time },
    /// A timestamp plus a duration left the representable range.
    TimeOverflow { timestamp: Time, duration: Duration },
    /// A nanosecond count does not fit a timestamp.
    TimestampOutOfRange { nanos: u128 },
    /// A nanosecond count does not fit a duration.
    DurationOutOfRange { nanos: u128 },
    /// A commitment context header has the wrong byte length.
    InvalidCommitmentContextHeader { expected: usize, actual: usize },
    /// A commitment context header names a discriminant no variant owns.
    UnknownCommitmentContextType { context_type: u16 },
    /// An empty commitment context arrived with a non-empty body.
    NonEmptyContextBody { body_len: usize },
    /// The byte buffer does not have the fixed tuple shape the decoder expects.
    InvalidAbiEncoding,
    /// A commitment header names a discriminant no variant owns.
    UnknownCommitmentType { commitment_type: u16 },
    /// No client is registered under the client id.
    ClientNotFound { client_id: String },
    /// No light client implementation is registered for the client type.
    UnregisteredClientType { client_type: String },
    /// The enclave key service could not produce a signature.
    SigningError,
    /// A failure a light client implementation reports; passed through unchanged.
    LightClientSpecific { description: String },
    /// A state carried a type url the client does not accept.
    UnexpectedClientType { type_url: String },
    /// A header lacks the previous height or previous state id it must carry
    /// for every update after the first.
    MissingPrevState,
    /// No consensus state is stored for the client at the height.
    ConsensusStateNotFound { client_id: String, height: Height },
    /// The stored state id differs from the one the header names as previous.
    StateIdMismatch { expected_state_id: StateID, actual_state_id: StateID },
    /// The signer the header names is not enrolled for the client state.
    SignerNotEnrolled { signer: Vec<u8> },
    /// The signer of the header commitment could not be recovered.
    SignatureRecoveryFailed,
    /// The recovered signer differs from the one the header names.
    SignerMismatch { expected_signer: Vec<u8>, actual_signer: Vec<u8> },
    /// A raw client state lacks its latest height.
    MissingLatestHeight,
}

} // verus!
