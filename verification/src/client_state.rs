use vstd::prelude::*;

use crate::commitment::Height;
use crate::errors::Error;
use crate::header::Header;
use crate::time::{Duration, NANOS_PER_SEC};

verus! {

/// The client-side record of an enclave light client: the highest verified
/// height, the enclave identity the client accepts, and how long an
/// attested key stays valid.
#[derive(Clone, Debug, PartialEq, Eq)]
pub struct ClientState {
    pub latest_height: Height,
    pub mr_enclave: Vec<u8>,
    pub key_expiration: Duration,
}

/// The height the client records after seeing `header`: the larger of the
/// current latest height and the header's height.
pub open spec fn spec_advanced_height(current: Height, header_height: Height) -> Height {
    if current.spec_lt(header_height) {
        header_height
    } else {
        current
    }
}

impl ClientState {
    /// Advances the latest height monotonically: the height only ever
    /// grows, taking the larger of the current and the header's height;
    /// every other field is left as it was.
    pub fn with_header(self, header: &Header) -> (r: ClientState)
        ensures
            r.latest_height == spec_advanced_height(self.latest_height, header.commitment.new_height),
            !r.latest_height.spec_lt(self.latest_height),
            r.mr_enclave@ == self.mr_enclave@,
            r.key_expiration == self.key_expiration,
    {
        let header_height = header.height();
        if self.latest_height.lt(&header_height) {
            ClientState {
                latest_height: header_height,
                mr_enclave: self.mr_enclave,
                key_expiration: self.key_expiration,
            }
        } else {
            self
        }
    }
}

/// The proto-level form of a client state, as it crosses the encoding
/// boundary: the height split into its two components and made optional,
/// the key expiration in whole seconds, and the attestation allow-lists.
#[derive(Clone, Debug, PartialEq, Eq)]
pub struct RawClientState {
    pub latest_height: Option<RawHeight>,
    pub mrenclave: Vec<u8>,
    pub key_expiration: u64,
    pub allowed_quote_statuses: Vec<String>,
    pub allowed_advisory_ids: Vec<String>,
}

/// The proto-level form of a height.
#[derive(Clone, Copy, Debug, PartialEq, Eq, Structural)]
pub struct RawHeight {
    pub revision_number: u64,
    pub revision_height: u64,
}

impl RawClientState {
    /// Lowers a client state to its proto-level form; the key expiration is
    /// truncated to whole seconds and the allow-lists are left empty.
    pub fn from_client_state(value: ClientState) -> (r: RawClientState)
        requires
            value.key_expiration.wf(),
        ensures
            r.latest_height == Some(
                RawHeight {
                    revision_number: value.latest_height.revision_number,
                    revision_height: value.latest_height.revision_height,
                },
            ),
            r.mrenclave@ == value.mr_enclave@,
            r.key_expiration == value.key_expiration.nanos / NANOS_PER_SEC,
            r.allowed_quote_statuses@.len() == 0,
            r.allowed_advisory_ids@.len() == 0,
    {
        RawClientState {
            latest_height: Some(
                RawHeight {
                    revision_number: value.latest_height.revision_number,
                    revision_height: value.latest_height.revision_height,
                },
            ),
            mrenclave: value.mr_enclave,
            key_expiration: value.key_expiration.as_secs(),
            allowed_quote_statuses: Vec::new(),
            allowed_advisory_ids: Vec::new(),
        }
    }
}

impl ClientState {
    /// Raises a proto-level client state; one that lacks its latest height
    /// is rejected rather than defaulted.
    pub fn try_from_raw(raw: RawClientState) -> (r: Result<ClientState, Error>)
        ensures
            raw.latest_height matches Some(h) ==> (r matches Ok(cs) && {
                &&& cs.latest_height == (Height {
                    revision_number: h.revision_number,
                    revision_height: h.revision_height,
                })
                &&& cs.mr_enclave@ == raw.mrenclave@
                &&& cs.key_expiration.nanos == raw.key_expiration * NANOS_PER_SEC
            }),
            raw.latest_height is None ==> r == Err::<ClientState, Error>(
                Error::MissingLatestHeight,
            ),
    {
        match raw.latest_height {
            Some(h) => Ok(
                ClientState {
                    latest_height: Height::new(h.revision_number, h.revision_height),
                    mr_enclave: raw.mrenclave,
                    key_expiration: Duration::from_secs(raw.key_expiration),
                },
            ),
            None => Err(Error::MissingLatestHeight),
        }
    }
}

/// The type url tagging an encoded client state of this client.
pub open spec fn spec_client_state_type_url() -> Seq<char> {
    "/ibc.lightclients.lcp.v1.ClientState"@
}

/// The type url as an owned string, for tagging outgoing states.
pub fn client_state_type_url() -> (r: String)
    ensures
        r@ == spec_client_state_type_url(),
{
    "/ibc.lightclients.lcp.v1.ClientState".to_owned()
}

/// Checks the type url tag on an encoded client state: exactly this
/// client's own url is accepted; any other is rejected, never defaulted.
pub fn check_client_state_type_url(type_url: &String) -> (r: Result<(), Error>)
    ensures
        r is Ok <==> type_url@ == spec_client_state_type_url(),
        r matches Err(e) ==> (e matches Error::UnexpectedClientType { type_url: t } && t@
            == type_url@),
{
    let expected = client_state_type_url();
    if *type_url == expected {
        Ok(())
    } else {
        Err(Error::UnexpectedClientType { type_url: type_url.clone() })
    }
}

/// Parameters of a client upgrade; the upgrade path carries none yet.
#[derive(Clone, Copy, Debug, PartialEq, Eq, Structural)]
pub struct UpgradeOptions {}

} // verus!
