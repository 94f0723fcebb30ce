//! The decisions of the proof server: which requests an endpoint accepts,
//! where the work is done, and what is answered. The transport and the
//! proving backend stay outside; they hand in events and carry out actions.

use crate::assets::{SparseMerkleProofAssets, TransactionProofAssets, ValidatorVerifierAssets};
use vstd::prelude::*;

verus! {

pub const STATUS_OK: u16 = 200;

pub const STATUS_BAD_REQUEST: u16 = 400;

pub const STATUS_CONFLICT: u16 = 409;

pub const STATUS_INTERNAL_SERVER_ERROR: u16 = 500;

/// How the server is deployed.
#[derive(Clone, Copy, Debug, PartialEq, Eq, Structural)]
pub enum Mode {
    /// One process proves everything.
    Single,
    /// Epoch-change proving is handed to a secondary process.
    Split,
}

/// The attestation format asked for.
#[derive(Clone, Copy, Debug, PartialEq, Eq, Structural)]
pub enum ProvingMode {
    STARK,
    SNARK,
}

/// The operations the server offers.
#[derive(Clone, Copy, Debug, PartialEq, Eq, Structural)]
pub enum Endpoint {
    Health,
    Ready,
    InclusionProof,
    EpochProof,
    InclusionVerify,
    EpochVerify,
}

/// The inputs of an inclusion proof.
#[derive(Debug)]
pub struct InclusionData {
    pub sparse_merkle_proof_assets: SparseMerkleProofAssets,
    pub transaction_proof_assets: TransactionProofAssets,
    pub validator_verifier_assets: ValidatorVerifierAssets,
}

/// The inputs of an epoch-change proof.
#[derive(Debug)]
pub struct EpochChangeData {
    pub trusted_state: Vec<u8>,
    pub epoch_change_proof: Vec<u8>,
}

/// A decoded request body.
#[derive(Debug)]
pub enum Request {
    ProveInclusion(ProvingMode, InclusionData),
    ProveEpochChange(ProvingMode, EpochChangeData),
    VerifyInclusion(Vec<u8>),
    VerifyEpochChange(Vec<u8>),
}

/// An answer to the caller.
#[derive(Debug)]
pub struct Response {
    pub status: u16,
    pub body: Vec<u8>,
}

/// What the server does next with a request.
#[derive(Debug)]
pub enum Action {
    /// Answer at once.
    Reply(Response),
    /// Prove inclusion with the local backend.
    ProveInclusion(ProvingMode, InclusionData),
    /// Prove the epoch change with the local backend.
    ProveEpochChange(ProvingMode, EpochChangeData),
    /// Send these bytes to the secondary and relay what it answers.
    Forward(Vec<u8>),
    /// Check an inclusion attestation.
    VerifyInclusion(Vec<u8>),
    /// Check an epoch-change attestation.
    VerifyEpochChange(Vec<u8>),
}

/// Why a configuration is refused.
#[derive(Clone, Copy, Debug, PartialEq, Eq, Structural)]
pub enum ConfigError {
    /// Split mode was asked for without the address of the secondary.
    MissingSecondaryAddress,
}

/// A checked configuration: in split mode the secondary's address is known.
#[derive(Debug)]
pub struct ServerConfig {
    mode: Mode,
    snd_addr: Option<String>,
}

/// Whether `action` is the answer with `status` and an empty body.
pub open spec fn replies_empty(action: Action, status: u16) -> bool {
    action matches Action::Reply(r) && r.status == status && r.body@.len() == 0
}

/// Whether a request to `endpoint` counts as load. Only the readiness check
/// does not.
pub open spec fn is_load(endpoint: Endpoint) -> bool {
    endpoint != Endpoint::Ready
}

/// The status of the readiness check when `active` requests are in flight.
pub open spec fn readiness(active: nat) -> u16 {
    if active > 0 {
        STATUS_CONFLICT
    } else {
        STATUS_OK
    }
}

/// Whether `action` is what the server owes a request to `endpoint` with the
/// raw bytes `body`, decoded as `request` (`None` when they do not decode),
/// while `active` other requests are in flight.
pub open spec fn is_routed(
    mode: Mode,
    endpoint: Endpoint,
    active: nat,
    body: Seq<u8>,
    request: Option<Request>,
    action: Action,
) -> bool {
    match endpoint {
        Endpoint::Health => replies_empty(action, STATUS_OK),
        Endpoint::Ready => replies_empty(action, readiness(active)),
        Endpoint::InclusionProof => match request {
            Some(Request::ProveInclusion(m, data)) => action == Action::ProveInclusion(m, data),
            _ => replies_empty(action, STATUS_BAD_REQUEST),
        },
        Endpoint::EpochProof => match request {
            Some(Request::ProveEpochChange(m, data)) => match mode {
                Mode::Single => action == Action::ProveEpochChange(m, data),
                Mode::Split => action matches Action::Forward(sent) && sent@ == body,
            },
            _ => replies_empty(action, STATUS_BAD_REQUEST),
        },
        Endpoint::InclusionVerify => match request {
            Some(Request::VerifyInclusion(attestation)) => action == Action::VerifyInclusion(
                attestation,
            ),
            _ => replies_empty(action, STATUS_BAD_REQUEST),
        },
        Endpoint::EpochVerify => match request {
            Some(Request::VerifyEpochChange(attestation)) => action == Action::VerifyEpochChange(
                attestation,
            ),
            _ => replies_empty(action, STATUS_BAD_REQUEST),
        },
    }
}

/// Calls `bcs::to_bytes` on a boolean. The encoding gives a boolean a single
/// byte, 1 for true and 0 for false, and writes it to a fresh vector, which
/// cannot fail: the errors of `to_bytes` come from nesting, sequence lengths,
/// unsupported types and failing writers, and a boolean meets none of them.
#[verifier::external_body]
pub(crate) fn bcs_encode_bool(value: bool) -> (out: Option<Vec<u8>>)
    ensures
        out is Some,
        out matches Some(bytes) ==> bytes@ == seq![if value { 1u8 } else { 0u8 }],
{
    bcs::to_bytes(&value).ok()
}

/// Whether a request to `endpoint` counts toward the number of active
/// requests.
pub fn counts_as_active(endpoint: Endpoint) -> (counted: bool)
    ensures
        counted == is_load(endpoint),
{
    match endpoint {
        Endpoint::Ready => false,
        _ => true,
    }
}

/// The status of the readiness check: busy while any request is in flight.
pub fn ready_status(active_requests: usize) -> (status: u16)
    ensures
        status == readiness(active_requests as nat),
{
    if active_requests > 0 {
        STATUS_CONFLICT
    } else {
        STATUS_OK
    }
}

/// The answer to a proof request once the attestation bytes are there, from
/// the local backend or from the secondary: the bytes as they are. `None`
/// stands for a failure to prove, to encode or to reach the secondary.
pub fn proof_reply(attestation: Option<Vec<u8>>) -> (response: Response)
    ensures
        match attestation {
            Some(bytes) => response.status == STATUS_OK && response.body@ == bytes@,
            None => response.status == STATUS_INTERNAL_SERVER_ERROR && response.body@.len() == 0,
        },
{
    match attestation {
        Some(bytes) => Response { status: STATUS_OK, body: bytes },
        None => Response { status: STATUS_INTERNAL_SERVER_ERROR, body: Vec::new() },
    }
}

/// The answer to a verification request whose attestation was found valid
/// or not. A false statement is no error: it is answered like a true one,
/// with its verdict as one encoded boolean.
pub fn verification_reply(valid: bool) -> (response: Response)
    ensures
        response.status == STATUS_OK,
        response.body@ == seq![if valid { 1u8 } else { 0u8 }],
{
    proof_reply(bcs_encode_bool(valid))
}

impl ServerConfig {
    #[verifier::type_invariant]
    spec fn split_has_secondary(&self) -> bool {
        self.mode == Mode::Split ==> self.snd_addr is Some
    }

    pub closed spec fn spec_mode(&self) -> Mode {
        self.mode
    }

    pub closed spec fn spec_snd_addr(&self) -> Option<String> {
        self.snd_addr
    }

    /// Accepts a configuration unless it asks for split mode without the
    /// address of the secondary.
    pub fn new(mode: Mode, snd_addr: Option<String>) -> (result: Result<ServerConfig, ConfigError>)
        ensures
            result is Err <==> mode == Mode::Split && snd_addr is None,
            result matches Ok(config) ==> config.spec_mode() == mode && config.spec_snd_addr()
                == snd_addr,
            result matches Err(e) ==> e == ConfigError::MissingSecondaryAddress,
    {
        if mode == Mode::Split && snd_addr.is_none() {
            Err(ConfigError::MissingSecondaryAddress)
        } else {
            Ok(ServerConfig { mode, snd_addr })
        }
    }

    pub fn mode(&self) -> (mode: Mode)
        ensures
            mode == self.spec_mode(),
    {
        self.mode
    }

    /// The address of the secondary, always known in split mode.
    pub fn snd_addr(&self) -> (address: Option<&String>)
        ensures
            address is Some <==> self.spec_snd_addr() is Some,
            address matches Some(a) ==> Some(*a) == self.spec_snd_addr(),
            self.spec_mode() == Mode::Split ==> address is Some,
    {
        proof {
            use_type_invariant(self);
        }
        self.snd_addr.as_ref()
    }

    /// Decides what to do with a request to `endpoint`. `body` holds the raw
    /// bytes and `request` what they decode to, if they decode. An endpoint
    /// only takes its own kind of request: anything else is the caller's
    /// error. In split mode an epoch-change proof request is not proved here:
    /// its bytes go to the secondary unchanged.
    pub fn route(
        &self,
        endpoint: Endpoint,
        active_requests: usize,
        body: Vec<u8>,
        request: Option<Request>,
    ) -> (action: Action)
        ensures
            is_routed(self.spec_mode(), endpoint, active_requests as nat, body@, request, action),
    {
        match endpoint {
            Endpoint::Health => Action::Reply(Response { status: STATUS_OK, body: Vec::new() }),
            Endpoint::Ready => Action::Reply(
                Response { status: ready_status(active_requests), body: Vec::new() },
            ),
            Endpoint::InclusionProof => match request {
                Some(Request::ProveInclusion(m, data)) => Action::ProveInclusion(m, data),
                _ => Action::Reply(Response { status: STATUS_BAD_REQUEST, body: Vec::new() }),
            },
            Endpoint::EpochProof => match request {
                Some(Request::ProveEpochChange(m, data)) => match self.mode {
                    Mode::Single => Action::ProveEpochChange(m, data),
                    Mode::Split => Action::Forward(body),
                },
                _ => Action::Reply(Response { status: STATUS_BAD_REQUEST, body: Vec::new() }),
            },
            Endpoint::InclusionVerify => match request {
                Some(Request::VerifyInclusion(attestation)) => Action::VerifyInclusion(attestation),
                _ => Action::Reply(Response { status: STATUS_BAD_REQUEST, body: Vec::new() }),
            },
            Endpoint::EpochVerify => match request {
                Some(Request::VerifyEpochChange(attestation)) => Action::VerifyEpochChange(
                    attestation,
                ),
                _ => Action::Reply(Response { status: STATUS_BAD_REQUEST, body: Vec::new() }),
            },
        }
    }
}

} // verus!
