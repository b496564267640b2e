//! Versioned command, result, error, capability, and snapshot contracts.
//!
//! Every daemon process receives a new `ServiceInstanceId`; the identity
//! grants no authority and is not restored after restart.
use vstd::prelude::*;
use crate::domain::ids::{IdError, RequestId, ServiceInstanceId};

pub mod receive;

verus! {

/// The only API version supported by the no-op contract.
pub const API_VERSION: u32 = 1;

/// Maximum number of version entries accepted in a negotiation request.
pub const MAX_NEGOTIATION_VERSIONS: usize = 16;

/// Maximum bytes of a no-op marker.
pub const MAX_NOOP_MARKER_BYTES: usize = 128;

/// A bounded command submitted by a client.
#[derive(Debug, Clone, PartialEq, Eq)]
pub struct CommandEnvelope {
    /// Version requested for this command and response.
    pub api_version: u32,
    /// Stable client identity for correlation and future retry semantics.
    pub request_id: RequestId,
    /// Typed service command.
    pub command: Command,
}

/// Read-only commands supported by the no-op service.
#[derive(Debug, Clone, PartialEq, Eq)]
pub enum Command {
    /// Negotiate a mutually supported API version and inspect capabilities.
    GetCapabilities {
        /// Versions the client can consume, ordered by client preference.
        supported_versions: Vec<u32>,
    },
    /// Obtain the deterministic no-op station snapshot.
    GetSnapshot,
    /// Persist a bounded marker solely to exercise durable retry semantics.
    ///
    /// This command has no station, hardware, logging, or external side effect.
    NoopMutation {
        /// Opaque marker retained only in the original result.
        marker: String,
    },
}

/// Whether a command is evaluated afresh or journaled for idempotent replay.
#[derive(Debug, Clone, Copy, PartialEq, Eq, Structural)]
pub enum CommandClass {
    /// Observational commands are not retained in the request journal.
    ReadOnly,
    /// Mutating commands require durable same-ID replay/conflict handling.
    Mutating,
}

/// Failure producing a bounded canonical command identity.
#[derive(Debug, Clone, Copy, PartialEq, Eq, Structural)]
pub enum CanonicalizationError {
    /// A no-op marker exceeded the bounded wire contract.
    MarkerTooLong,
    /// A receive command carried an invalid selection.
    InvalidReceiveCommand,
}

/// The retry classification of a command.
pub open spec fn command_class(c: Command) -> CommandClass {
    match c {
        Command::GetCapabilities { .. } | Command::GetSnapshot => CommandClass::ReadOnly,
        Command::NoopMutation { .. } => CommandClass::Mutating,
    }
}

impl Command {
    /// Returns the retry classification for this command.
    pub fn class(&self) -> (res: CommandClass)
        ensures
            res == command_class(*self),
    {
        match self {
            Command::GetCapabilities { .. } | Command::GetSnapshot => CommandClass::ReadOnly,
            Command::NoopMutation { .. } => CommandClass::Mutating,
        }
    }

    /// Checks the bounds a command must meet before it gets a canonical byte
    /// identity: a no-op marker is at most 128 bytes.
    pub fn canonical_bounds(&self) -> (res: Result<(), CanonicalizationError>)
        ensures
            match *self {
                Command::NoopMutation { marker } => if crate::text::utf8(marker@).len() > MAX_NOOP_MARKER_BYTES {
                    res == Err::<(), CanonicalizationError>(CanonicalizationError::MarkerTooLong)
                } else {
                    res is Ok
                },
                _ => res is Ok,
            },
    {
        match self {
            Command::NoopMutation { marker } => {
                if marker.as_str().as_bytes().len() > MAX_NOOP_MARKER_BYTES {
                    return Err(CanonicalizationError::MarkerTooLong);
                }
                Ok(())
            },
            _ => Ok(()),
        }
    }
}

/// A response correlated to the original request.
#[derive(Debug, Clone, PartialEq, Eq)]
pub struct ResponseEnvelope {
    /// Version used to encode the response.
    pub api_version: u32,
    /// Original request identity.
    pub request_id: RequestId,
    /// Success result or structured stable error.
    pub outcome: ResponseOutcome,
}

/// Success or failure payload for a service response.
#[derive(Debug, Clone, PartialEq, Eq)]
pub enum ResponseOutcome {
    /// A typed successful result.
    Success(ResultBody),
    /// A stable symbolic service failure.
    Error(ApiError),
}

/// Successful no-op service results.
#[derive(Debug, Clone, PartialEq, Eq)]
pub enum ResultBody {
    /// Negotiated service capabilities.
    Capabilities(Capabilities),
    /// Current bounded station snapshot.
    Snapshot(StationSnapshot),
    /// Durable acceptance of the side-effect-free mutation.
    NoopMutationAccepted {
        /// Original marker, proving exact result replay.
        marker: String,
    },
}

/// Negotiated capabilities of the no-op service.
#[derive(Debug, Clone, PartialEq, Eq)]
pub struct Capabilities {
    /// Version selected for subsequent commands.
    pub negotiated_version: u32,
    /// Complete bounded set of versions the service supports.
    pub supported_versions: Vec<u32>,
    /// Current daemon process generation.
    pub service_instance_id: ServiceInstanceId,
    /// Explicitly unavailable live capabilities.
    pub station_control: Availability,
    /// Explicitly unavailable transmit authority.
    pub transmit_authority: Availability,
}

/// Whether a capability exists in the current implementation.
#[derive(Debug, Clone, Copy, PartialEq, Eq, Structural)]
pub enum Availability {
    /// The capability is not implemented or configured.
    Unavailable,
}

/// Deterministic bounded snapshot returned by the no-op service.
#[derive(Debug, Clone, PartialEq, Eq)]
pub struct StationSnapshot {
    /// Current daemon process generation.
    pub service_instance_id: ServiceInstanceId,
    /// Station configuration state.
    pub configuration: ConfigurationState,
    /// Operating-session state.
    pub operation: OperationState,
    /// Transmit authority state; always unavailable here.
    pub transmit_authority: Availability,
}

/// Station configuration state represented by the no-op snapshot.
#[derive(Debug, Clone, Copy, PartialEq, Eq, Structural)]
pub enum ConfigurationState {
    /// No station context has been configured.
    NotConfigured,
}

/// Operating state represented by the no-op snapshot.
#[derive(Debug, Clone, Copy, PartialEq, Eq, Structural)]
pub enum OperationState {
    /// No operating session is running.
    NotRunning,
}

/// Stable symbolic service error.
#[derive(Debug, Clone, PartialEq, Eq)]
pub struct ApiError {
    /// Code on which automation may branch.
    pub code: ErrorCode,
    /// Human-oriented message that is not a stable automation contract.
    pub message: String,
    /// Whether retrying the same request without changes may succeed.
    pub retryable: bool,
    /// Typed structured detail appropriate to the code.
    pub details: ErrorDetails,
}

/// Stable symbolic API error codes.
#[derive(Debug, Clone, Copy, PartialEq, Eq, Structural)]
pub enum ErrorCode {
    /// Client and service have no compatible API version.
    IncompatibleApiVersion,
    /// A negotiation request exceeded its documented bound.
    NegotiationTooLarge,
    /// A request identity was reused for a different canonical mutation.
    RequestIdConflict,
    /// A mutating command bypassed the required durable processor.
    RequestJournalRequired,
}

/// The stable symbolic wire code of an error code.
pub open spec fn error_code_text(code: ErrorCode) -> Seq<char> {
    match code {
        ErrorCode::IncompatibleApiVersion => "incompatible_api_version"@,
        ErrorCode::NegotiationTooLarge => "negotiation_too_large"@,
        ErrorCode::RequestIdConflict => "request_id_conflict"@,
        ErrorCode::RequestJournalRequired => "request_journal_required"@,
    }
}

impl ErrorCode {
    /// Returns the stable symbolic wire code.
    pub fn as_str(self) -> (res: &'static str)
        ensures
            res@ == error_code_text(self),
    {
        match self {
            ErrorCode::IncompatibleApiVersion => "incompatible_api_version",
            ErrorCode::NegotiationTooLarge => "negotiation_too_large",
            ErrorCode::RequestIdConflict => "request_id_conflict",
            ErrorCode::RequestJournalRequired => "request_journal_required",
        }
    }
}

/// Structured details associated with a service error.
#[derive(Debug, Clone, PartialEq, Eq)]
pub enum ErrorDetails {
    /// Version mismatch details.
    VersionMismatch {
        /// Version placed in the command envelope.
        requested_version: u32,
        /// Bounded service-supported versions.
        supported_versions: Vec<u32>,
    },
    /// Negotiation request bound details.
    NegotiationLimit {
        /// Maximum supported entries.
        maximum_versions: usize,
        /// Entries supplied by the client.
        received_versions: usize,
    },
    /// Request reuse did not match the originally accepted command.
    RequestConflict,
    /// The in-process read-only seam received a mutating command.
    JournalRequired,
}

/// Failure constructing the in-process no-op service seam.
#[derive(Debug)]
pub enum ServiceError {
    /// The supplied service-instance identity was invalid.
    InvalidInstance(IdError),
}

/// Whether an error outcome carries a code, a non-retryable flag, and details.
pub open spec fn is_error(o: ResponseOutcome, code: ErrorCode, details: ErrorDetails) -> bool {
    o matches ResponseOutcome::Error(e) && e.code == code && !e.retryable && e.details == details
}

/// Whether details report a version mismatch for `requested` against version 1 only.
pub open spec fn version_mismatch(d: ErrorDetails, requested: u32) -> bool {
    d matches ErrorDetails::VersionMismatch { requested_version, supported_versions }
        && requested_version == requested && supported_versions@ == seq![API_VERSION]
}

/// What the no-op service answers to one command envelope.
pub open spec fn noop_response(instance: ServiceInstanceId, envelope: CommandEnvelope, r: ResponseEnvelope) -> bool {
    &&& r.api_version == API_VERSION
    &&& r.request_id == envelope.request_id
    &&& if envelope.api_version != API_VERSION {
        r.outcome matches ResponseOutcome::Error(e) && e.code == ErrorCode::IncompatibleApiVersion && !e.retryable
            && version_mismatch(e.details, envelope.api_version)
    } else {
        match envelope.command {
            Command::GetCapabilities { supported_versions } => if supported_versions@.len() > MAX_NEGOTIATION_VERSIONS {
                is_error(r.outcome, ErrorCode::NegotiationTooLarge, ErrorDetails::NegotiationLimit {
                    maximum_versions: MAX_NEGOTIATION_VERSIONS,
                    received_versions: supported_versions@.len() as usize,
                })
            } else if supported_versions@.contains(API_VERSION) {
                r.outcome matches ResponseOutcome::Success(ResultBody::Capabilities(c))
                    && c.negotiated_version == API_VERSION && c.supported_versions@ == seq![API_VERSION]
                    && c.service_instance_id == instance && c.station_control == Availability::Unavailable
                    && c.transmit_authority == Availability::Unavailable
            } else {
                r.outcome matches ResponseOutcome::Error(e) && e.code == ErrorCode::IncompatibleApiVersion && !e.retryable
                    && version_mismatch(e.details, envelope.api_version)
            },
            Command::GetSnapshot => r.outcome == ResponseOutcome::Success(ResultBody::Snapshot(StationSnapshot {
                service_instance_id: instance,
                configuration: ConfigurationState::NotConfigured,
                operation: OperationState::NotRunning,
                transmit_authority: Availability::Unavailable,
            })),
            Command::NoopMutation { .. } => is_error(r.outcome, ErrorCode::RequestJournalRequired, ErrorDetails::JournalRequired),
        }
    }
}

/// Minimal in-process service seam used to validate the contract.
///
/// This type performs no I/O, persistence, station operation, or hardware
/// access. Constructing a new value with a new identity models daemon restart.
#[derive(Debug, Clone)]
pub struct NoopService {
    instance_id: ServiceInstanceId,
}

impl NoopService {
    /// The process generation this service answers for.
    pub closed spec fn spec_instance(&self) -> ServiceInstanceId {
        self.instance_id
    }

    /// Creates one process generation from an externally generated identity.
    pub fn new(instance_id: ServiceInstanceId) -> (res: Self)
        ensures
            res.spec_instance() == instance_id,
    {
        NoopService { instance_id }
    }

    /// Executes one bounded, read-only no-op command.
    pub fn execute(&self, envelope: CommandEnvelope) -> (res: ResponseEnvelope)
        ensures
            noop_response(self.spec_instance(), envelope, res),
    {
        let ghost original = envelope;
        let request_id = envelope.request_id;
        if envelope.api_version != API_VERSION {
            return error_response(
                request_id,
                ErrorCode::IncompatibleApiVersion,
                "client and service API versions are incompatible",
                ErrorDetails::VersionMismatch { requested_version: envelope.api_version, supported_versions: only_supported_version() },
            );
        }
        let outcome = match envelope.command {
            Command::GetCapabilities { supported_versions } => {
                if supported_versions.len() > MAX_NEGOTIATION_VERSIONS {
                    ResponseOutcome::Error(ApiError {
                        code: ErrorCode::NegotiationTooLarge,
                        message: "version negotiation request exceeds the supported bound".to_string(),
                        retryable: false,
                        details: ErrorDetails::NegotiationLimit {
                            maximum_versions: MAX_NEGOTIATION_VERSIONS,
                            received_versions: supported_versions.len(),
                        },
                    })
                } else if contains_version(&supported_versions, API_VERSION) {
                    ResponseOutcome::Success(ResultBody::Capabilities(Capabilities {
                        negotiated_version: API_VERSION,
                        supported_versions: only_supported_version(),
                        service_instance_id: self.instance_id.clone(),
                        station_control: Availability::Unavailable,
                        transmit_authority: Availability::Unavailable,
                    }))
                } else {
                    ResponseOutcome::Error(ApiError {
                        code: ErrorCode::IncompatibleApiVersion,
                        message: "client and service API versions are incompatible".to_string(),
                        retryable: false,
                        details: ErrorDetails::VersionMismatch {
                            requested_version: envelope.api_version,
                            supported_versions: only_supported_version(),
                        },
                    })
                }
            },
            Command::GetSnapshot => ResponseOutcome::Success(ResultBody::Snapshot(StationSnapshot {
                service_instance_id: self.instance_id.clone(),
                configuration: ConfigurationState::NotConfigured,
                operation: OperationState::NotRunning,
                transmit_authority: Availability::Unavailable,
            })),
            Command::NoopMutation { .. } => ResponseOutcome::Error(ApiError {
                code: ErrorCode::RequestJournalRequired,
                message: "mutating commands require the durable request journal".to_string(),
                retryable: false,
                details: ErrorDetails::JournalRequired,
            }),
        };
        ResponseEnvelope { api_version: API_VERSION, request_id, outcome }
    }
}

fn only_supported_version() -> (res: Vec<u32>)
    ensures
        res@ == seq![API_VERSION],
{
    let mut v: Vec<u32> = Vec::new();
    v.push(API_VERSION);
    assert(v@ =~= seq![API_VERSION]);
    v
}

fn contains_version(versions: &Vec<u32>, version: u32) -> (res: bool)
    ensures
        res == versions@.contains(version),
{
    let mut i: usize = 0;
    while i < versions.len()
        invariant
            i <= versions@.len(),
            forall|j: int| 0 <= j < i ==> versions@[j] != version,
        decreases versions@.len() - i,
    {
        if versions[i] == version {
            assert(versions@[i as int] == version);
            return true;
        }
        i = i + 1;
    }
    false
}

fn error_response(request_id: RequestId, code: ErrorCode, message: &str, details: ErrorDetails) -> (res: ResponseEnvelope)
    ensures
        res.api_version == API_VERSION,
        res.request_id == request_id,
        res.outcome matches ResponseOutcome::Error(e) && e.code == code && e.message@ == message@ && !e.retryable
            && e.details == details,
{
    ResponseEnvelope {
        api_version: API_VERSION,
        request_id,
        outcome: ResponseOutcome::Error(ApiError { code, message: message.to_string(), retryable: false, details }),
    }
}

} // verus!
