//! Consumer-owned contracts for read-only rig observation.
use vstd::prelude::*;
use crate::domain::ids::{ProfileRevisionId, ServiceInstanceId};
use crate::domain::radio::{DialFrequency, Power};
use crate::domain::rig_profile::{RadioModulation, RadioPassband, RigProfile, RigVfo, SplitReadback};
use crate::operations::time::ClockSample;

verus! {

/// Number of distinct read capabilities in the contract.
pub const MAX_RIG_CAPABILITIES: usize = 7;
/// Maximum findings retained in one bounded profile validation.
pub const MAX_RIG_VALIDATION_FINDINGS: usize = 32;
/// Largest admitted freshness bound.
pub const MAX_RIG_FRESHNESS_MILLIS: u64 = 300_000;
/// Largest admitted UTC/monotonic age divergence.
pub const MAX_RIG_TIMING_DIVERGENCE_MILLIS: u64 = 60_000;

/// Failure constructing a bounded read-only rig contract value.
#[derive(Debug, Clone, Copy, PartialEq, Eq, Structural)]
pub enum RigContractError {
    /// A connection generation or observation sequence was zero.
    ZeroGeneration,
    /// Capability evidence was duplicated or exceeded the bounded set.
    InvalidCapabilitySet,
    /// Profile validation findings exceeded their fixed bound.
    TooManyValidationFindings,
    /// A UTC timestamp preceded the Unix epoch.
    NegativeUtcTimestamp,
    /// A freshness policy was zero or exceeded its fixed bound.
    InvalidFreshnessPolicy,
}

/// One read operation whose support can be evaluated independently.
#[derive(Debug, Clone, Copy, PartialEq, Eq, Hash, PartialOrd, Ord, Structural)]
pub enum RigCapability {
    /// Read the dial frequency.
    DialFrequency,
    /// Read the radio modulation.
    Modulation,
    /// Read the radio passband.
    Passband,
    /// Read the selected VFO.
    Vfo,
    /// Read split state and optional transmit VFO.
    Split,
    /// Read configured power.
    Power,
    /// Read PTT state as evidence only.
    Ptt,
}

/// Strength or failure state of evidence for one read capability.
#[derive(Debug, Clone, Copy, PartialEq, Eq, Hash, Structural)]
pub enum RigCapabilityStatus {
    /// The backend advertised support, but no getter has succeeded.
    BackendClaimed,
    /// A bounded runtime getter probe succeeded.
    RuntimeProbed,
    /// A human physical-validation record confirmed the getter.
    PhysicallyVerified,
    /// The backend explicitly does not support the getter.
    Unsupported,
    /// The getter could not be evaluated during this connection.
    Unavailable,
    /// Evidence is absent, expired, or otherwise not verified.
    StaleOrUnverified,
}

/// Evidence for exactly one read capability.
#[derive(Debug, Clone, Copy, PartialEq, Eq, Structural)]
pub struct RigCapabilityEvidence {
    /// Read operation being described.
    pub capability: RigCapability,
    /// Current strength or failure state.
    pub status: RigCapabilityStatus,
}

/// Positive generation of one persistent read-only rig connection.
#[derive(Debug, Clone, Copy, PartialEq, Eq, Hash, PartialOrd, Ord, Structural)]
pub struct RigConnectionGeneration(u64);

impl View for RigConnectionGeneration {
    type V = u64;

    closed spec fn view(&self) -> u64 {
        self.0
    }
}

impl RigConnectionGeneration {
    #[verifier::type_invariant]
    spec fn inv(self) -> bool {
        self.0 != 0
    }

    /// Constructs a nonzero generation.
    pub fn new(value: u64) -> (res: Result<Self, RigContractError>)
        ensures
            match res {
                Ok(g) => value != 0 && g@ == value,
                Err(e) => value == 0 && e == RigContractError::ZeroGeneration,
            },
    {
        if value == 0 {
            return Err(RigContractError::ZeroGeneration);
        }
        Ok(RigConnectionGeneration(value))
    }

    /// Returns the integer generation.
    pub fn get(self) -> (res: u64)
        ensures
            res == self@,
            res != 0,
    {
        proof {
            use_type_invariant(&self);
        }
        self.0
    }
}

/// Positive sequence of one observation within a connection generation.
#[derive(Debug, Clone, Copy, PartialEq, Eq, Hash, PartialOrd, Ord, Structural)]
pub struct RigObservationSequence(u64);

impl View for RigObservationSequence {
    type V = u64;

    closed spec fn view(&self) -> u64 {
        self.0
    }
}

impl RigObservationSequence {
    #[verifier::type_invariant]
    spec fn inv(self) -> bool {
        self.0 != 0
    }

    /// Constructs a nonzero sequence.
    pub fn new(value: u64) -> (res: Result<Self, RigContractError>)
        ensures
            match res {
                Ok(s) => value != 0 && s@ == value,
                Err(e) => value == 0 && e == RigContractError::ZeroGeneration,
            },
    {
        if value == 0 {
            return Err(RigContractError::ZeroGeneration);
        }
        Ok(RigObservationSequence(value))
    }

    /// Returns the integer sequence.
    pub fn get(self) -> (res: u64)
        ensures
            res == self@,
            res != 0,
    {
        proof {
            use_type_invariant(&self);
        }
        self.0
    }
}

/// Whether no two entries of a sequence share a capability.
pub open spec fn unique_capabilities(caps: Seq<RigCapability>) -> bool {
    forall|i: int, j: int| 0 <= i < j < caps.len() ==> caps[i] != caps[j]
}

/// The capabilities named by a sequence of evidence, in order.
pub open spec fn evidence_capabilities(evidence: Seq<RigCapabilityEvidence>) -> Seq<RigCapability> {
    evidence.map_values(|e: RigCapabilityEvidence| e.capability)
}

/// Whether a capability list is within the bound and free of repeats.
pub open spec fn capability_set_ok(caps: Seq<RigCapability>) -> bool {
    caps.len() <= MAX_RIG_CAPABILITIES && unique_capabilities(caps)
}

/// Checks that a list of capabilities is bounded and has no repeats.
fn check_capability_set(caps: &Vec<RigCapability>) -> (res: bool)
    ensures
        res == capability_set_ok(caps@),
{
    if caps.len() > MAX_RIG_CAPABILITIES {
        return false;
    }
    let mut i: usize = 0;
    while i < caps.len()
        invariant
            i <= caps@.len(),
            forall|a: int, b: int| 0 <= a < b < caps@.len() && a < i ==> caps@[a] != caps@[b],
        decreases caps@.len() - i,
    {
        let mut j: usize = i + 1;
        while j < caps.len()
            invariant
                i < caps@.len(),
                i + 1 <= j <= caps@.len(),
                forall|a: int, b: int| 0 <= a < b < caps@.len() && a < i ==> caps@[a] != caps@[b],
                forall|b: int| i < b < j ==> caps@[i as int] != caps@[b],
            decreases caps@.len() - j,
        {
            if caps[i] == caps[j] {
                return false;
            }
            j = j + 1;
        }
        i = i + 1;
    }
    true
}

/// The status a report gives a capability: that of its first entry for it.
pub open spec fn status_in(evidence: Seq<RigCapabilityEvidence>, capability: RigCapability) -> Option<RigCapabilityStatus>
    decreases evidence.len(),
{
    if evidence.len() == 0 {
        None
    } else if evidence[0].capability == capability {
        Some(evidence[0].status)
    } else {
        status_in(evidence.drop_first(), capability)
    }
}

/// Bounded capability report tied to one connection generation.
#[derive(Debug, PartialEq, Eq)]
pub struct RigCapabilityReport {
    generation: RigConnectionGeneration,
    evidence: Vec<RigCapabilityEvidence>,
}

impl View for RigCapabilityReport {
    type V = (RigConnectionGeneration, Seq<RigCapabilityEvidence>);

    closed spec fn view(&self) -> (RigConnectionGeneration, Seq<RigCapabilityEvidence>) {
        (self.generation, self.evidence@)
    }
}

impl Clone for RigCapabilityReport {
    fn clone(&self) -> (res: Self)
        ensures
            res@ == self@,
    {
        proof {
            use_type_invariant(self);
        }
        RigCapabilityReport { generation: self.generation, evidence: self.evidence.clone() }
    }
}

impl RigCapabilityReport {
    #[verifier::type_invariant]
    spec fn inv(self) -> bool {
        capability_set_ok(evidence_capabilities(self.evidence@))
    }

    /// Constructs a report after enforcing fixed size and unique capabilities.
    pub fn new(generation: RigConnectionGeneration, evidence: Vec<RigCapabilityEvidence>) -> (res: Result<Self, RigContractError>)
        ensures
            match res {
                Ok(r) => capability_set_ok(evidence_capabilities(evidence@)) && r@ == (generation, evidence@),
                Err(e) => !capability_set_ok(evidence_capabilities(evidence@)) && e == RigContractError::InvalidCapabilitySet,
            },
    {
        let mut caps: Vec<RigCapability> = Vec::new();
        let mut i: usize = 0;
        while i < evidence.len()
            invariant
                i <= evidence@.len(),
                caps@ == evidence_capabilities(evidence@.subrange(0, i as int)),
            decreases evidence@.len() - i,
        {
            caps.push(evidence[i].capability);
            i = i + 1;
            proof {
                assert(evidence_capabilities(evidence@.subrange(0, i as int))
                    =~= evidence_capabilities(evidence@.subrange(0, i - 1)).push(evidence@[i - 1].capability));
            }
        }
        proof {
            assert(evidence@.subrange(0, evidence@.len() as int) == evidence@);
        }
        if !check_capability_set(&caps) {
            return Err(RigContractError::InvalidCapabilitySet);
        }
        Ok(RigCapabilityReport { generation, evidence })
    }

    /// Returns the connection generation that produced this report.
    pub fn generation(&self) -> (res: RigConnectionGeneration)
        ensures
            res == self@.0,
    {
        self.generation
    }

    /// Returns bounded evidence in adapter-defined probe order.
    pub fn evidence(&self) -> (res: &[RigCapabilityEvidence])
        ensures
            res@ == self@.1,
            capability_set_ok(evidence_capabilities(res@)),
    {
        proof {
            use_type_invariant(self);
        }
        self.evidence.as_slice()
    }

    /// Returns evidence for one capability, if the probe reported it.
    pub fn status(&self, capability: RigCapability) -> (res: Option<RigCapabilityStatus>)
        ensures
            res == status_in(self@.1, capability),
    {
        let mut i: usize = 0;
        proof {
            assert(self.evidence@.subrange(0, self.evidence@.len() as int) == self.evidence@);
        }
        while i < self.evidence.len()
            invariant
                i <= self.evidence@.len(),
                status_in(self.evidence@, capability) == status_in(self.evidence@.subrange(i as int, self.evidence@.len() as int), capability),
            decreases self.evidence@.len() - i,
        {
            proof {
                let rest = self.evidence@.subrange(i as int, self.evidence@.len() as int);
                assert(rest.drop_first() =~= self.evidence@.subrange(i + 1, self.evidence@.len() as int));
            }
            if self.evidence[i].capability == capability {
                return Some(self.evidence[i].status);
            }
            i = i + 1;
        }
        None
    }
}

/// Readback state that never substitutes a primitive default for missing data.
#[derive(Debug, Clone, PartialEq, Eq)]
pub enum RigReadback<T> {
    /// A getter returned an exact owned value.
    Observed(T),
    /// The getter is explicitly unsupported.
    Unsupported,
    /// The getter was temporarily unavailable.
    Unavailable,
    /// The value is absent, stale, or otherwise unverified.
    StaleOrUnverified,
}

/// Exact owned fields from one read-only observation.
#[derive(Debug, Clone, PartialEq, Eq)]
pub struct RigObservationFields {
    /// Dial-frequency readback in integer hertz.
    pub dial_frequency: RigReadback<DialFrequency>,
    /// Radio modulation, never a synchronized protocol mode.
    pub modulation: RigReadback<RadioModulation>,
    /// Passband readback in integer hertz.
    pub passband: RigReadback<RadioPassband>,
    /// Exact selected VFO.
    pub vfo: RigReadback<RigVfo>,
    /// Exact split and optional transmit-VFO readback.
    pub split: RigReadback<SplitReadback>,
    /// Optional power getter; absence cannot become zero.
    pub power: RigReadback<Power>,
    /// Optional PTT getter as evidence only; absence cannot become false.
    pub ptt_asserted: RigReadback<bool>,
}

/// Paired UTC and process-local monotonic timestamp for a rig observation.
#[derive(Debug, Clone, Copy, PartialEq, Eq, Structural)]
pub struct RigObservationTimestamp {
    utc_unix_millis: i64,
    monotonic_millis: u64,
}

impl View for RigObservationTimestamp {
    type V = (i64, u64);

    closed spec fn view(&self) -> (i64, u64) {
        (self.utc_unix_millis, self.monotonic_millis)
    }
}

impl RigObservationTimestamp {
    #[verifier::type_invariant]
    spec fn inv(self) -> bool {
        self.utc_unix_millis >= 0
    }

    /// Constructs a checked paired timestamp.
    pub fn new(utc_unix_millis: i64, monotonic_millis: u64) -> (res: Result<Self, RigContractError>)
        ensures
            match res {
                Ok(t) => utc_unix_millis >= 0 && t@ == (utc_unix_millis, monotonic_millis),
                Err(e) => utc_unix_millis < 0 && e == RigContractError::NegativeUtcTimestamp,
            },
    {
        if utc_unix_millis < 0 {
            return Err(RigContractError::NegativeUtcTimestamp);
        }
        Ok(RigObservationTimestamp { utc_unix_millis, monotonic_millis })
    }

    /// Captures the owned integer values from an injected clock sample.
    pub fn from_clock_sample(sample: ClockSample) -> (res: Self)
        ensures
            res@ == (sample.utc@, sample.monotonic@),
    {
        RigObservationTimestamp { utc_unix_millis: sample.utc.unix_millis(), monotonic_millis: sample.monotonic.millis() }
    }

    /// Returns milliseconds since the Unix epoch.
    pub fn utc_unix_millis(self) -> (res: i64)
        ensures
            res == self@.0,
            res >= 0,
    {
        proof {
            use_type_invariant(&self);
        }
        self.utc_unix_millis
    }

    /// Returns milliseconds from the daemon process monotonic origin.
    pub fn monotonic_millis(self) -> (res: u64)
        ensures
            res == self@.1,
    {
        self.monotonic_millis
    }
}

/// Source and ordering identity retained with every observation.
#[derive(Debug, Clone, PartialEq, Eq)]
pub struct RigObservationProvenance {
    /// Daemon process identity whose monotonic origin applies.
    pub service_instance_id: ServiceInstanceId,
    /// Persistent connection generation.
    pub connection_generation: RigConnectionGeneration,
    /// Sequence within that connection.
    pub sequence: RigObservationSequence,
}

/// One complete owned read-only observation before freshness admission.
#[derive(Debug, Clone, PartialEq, Eq)]
pub struct RigObservation {
    /// Immutable profile revision used for the read.
    pub profile_revision_id: ProfileRevisionId,
    /// Source process, connection, and sequence.
    pub provenance: RigObservationProvenance,
    /// Paired observation time.
    pub observed_at: RigObservationTimestamp,
    /// Exact values and explicit missing states.
    pub fields: RigObservationFields,
}

/// Checked paired age of a fresh rig observation.
#[derive(Debug, Clone, Copy, PartialEq, Eq, Structural)]
pub struct RigObservationAge {
    utc_millis: u64,
    monotonic_millis: u64,
}

impl View for RigObservationAge {
    type V = (u64, u64);

    closed spec fn view(&self) -> (u64, u64) {
        (self.utc_millis, self.monotonic_millis)
    }
}

impl RigObservationAge {
    /// Returns UTC-derived age.
    pub fn utc_millis(self) -> (res: u64)
        ensures
            res == self@.0,
    {
        self.utc_millis
    }

    /// Returns process-monotonic age used for freshness admission.
    pub fn monotonic_millis(self) -> (res: u64)
        ensures
            res == self@.1,
    {
        self.monotonic_millis
    }
}

/// Fixed limits for freshness and UTC/monotonic consistency.
#[derive(Debug, Clone, Copy, PartialEq, Eq, Structural)]
pub struct RigFreshnessPolicy {
    max_age_millis: u64,
    max_timing_divergence_millis: u64,
}

impl View for RigFreshnessPolicy {
    type V = (u64, u64);

    closed spec fn view(&self) -> (u64, u64) {
        (self.max_age_millis, self.max_timing_divergence_millis)
    }
}

/// Whether freshness limits are within their fixed bounds.
pub open spec fn freshness_ok(max_age: u64, max_divergence: u64) -> bool {
    0 < max_age <= MAX_RIG_FRESHNESS_MILLIS && max_divergence <= MAX_RIG_TIMING_DIVERGENCE_MILLIS
}

impl RigFreshnessPolicy {
    #[verifier::type_invariant]
    spec fn inv(self) -> bool {
        freshness_ok(self.max_age_millis, self.max_timing_divergence_millis)
    }

    /// Constructs a checked freshness policy.
    pub fn new(max_age_millis: u64, max_timing_divergence_millis: u64) -> (res: Result<Self, RigContractError>)
        ensures
            match res {
                Ok(p) => freshness_ok(max_age_millis, max_timing_divergence_millis) && p@ == (max_age_millis, max_timing_divergence_millis),
                Err(e) => !freshness_ok(max_age_millis, max_timing_divergence_millis) && e == RigContractError::InvalidFreshnessPolicy,
            },
    {
        if max_age_millis == 0 || max_age_millis > MAX_RIG_FRESHNESS_MILLIS
            || max_timing_divergence_millis > MAX_RIG_TIMING_DIVERGENCE_MILLIS {
            return Err(RigContractError::InvalidFreshnessPolicy);
        }
        Ok(RigFreshnessPolicy { max_age_millis, max_timing_divergence_millis })
    }

    /// Returns the maximum admitted monotonic age.
    pub fn max_age_millis(self) -> (res: u64)
        ensures
            res == self@.0,
    {
        self.max_age_millis
    }

    /// Returns the maximum UTC/monotonic age divergence.
    pub fn max_timing_divergence_millis(self) -> (res: u64)
        ensures
            res == self@.1,
    {
        self.max_timing_divergence_millis
    }
}

/// The outcome of admitting an observation taken at `at` when the clock reads `now`.
pub open spec fn freshness_outcome(at: (i64, u64), now: ClockSample, policy: (u64, u64)) -> Result<(u64, u64), RigFault> {
    let utc_delta = now.utc@ - at.0;
    let mono_delta = now.monotonic@ - at.1;
    if utc_delta < i64::MIN || utc_delta > i64::MAX || mono_delta < 0 || utc_delta < 0 {
        Err(RigFault::TimelineRegressed)
    } else if (if utc_delta >= mono_delta { utc_delta - mono_delta } else { mono_delta - utc_delta }) > policy.1 {
        Err(RigFault::ContradictoryTiming { utc_age_millis: utc_delta as u64, monotonic_age_millis: mono_delta as u64 })
    } else if mono_delta > policy.0 {
        Err(RigFault::Stale { age_millis: mono_delta as u64, maximum_millis: policy.0 })
    } else {
        Ok((utc_delta as u64, mono_delta as u64))
    }
}

impl RigObservation {
    /// Checks paired age, timing consistency, and monotonic freshness.
    pub fn fresh_at(&self, now: ClockSample, policy: RigFreshnessPolicy) -> (res: Result<RigObservationAge, RigFault>)
        ensures
            match freshness_outcome(self.observed_at@, now, policy@) {
                Ok(age) => res matches Ok(a) && a@ == age,
                Err(f) => res == Err::<RigObservationAge, RigFault>(f),
            },
    {
        let now_utc = now.utc.unix_millis();
        let now_monotonic = now.monotonic.millis();
        let utc_delta = match now_utc.checked_sub(self.observed_at.utc_unix_millis()) {
            Some(d) => d,
            None => {
                return Err(RigFault::TimelineRegressed);
            },
        };
        let monotonic_delta = match now_monotonic.checked_sub(self.observed_at.monotonic_millis()) {
            Some(d) => d,
            None => {
                return Err(RigFault::TimelineRegressed);
            },
        };
        if utc_delta < 0 {
            return Err(RigFault::TimelineRegressed);
        }
        let utc_millis: u64 = utc_delta as u64;
        let divergence: u64 = if utc_millis >= monotonic_delta {
            utc_millis - monotonic_delta
        } else {
            monotonic_delta - utc_millis
        };
        if divergence > policy.max_timing_divergence_millis() {
            return Err(RigFault::ContradictoryTiming { utc_age_millis: utc_millis, monotonic_age_millis: monotonic_delta });
        }
        if monotonic_delta > policy.max_age_millis() {
            return Err(RigFault::Stale { age_millis: monotonic_delta, maximum_millis: policy.max_age_millis() });
        }
        Ok(RigObservationAge { utc_millis, monotonic_millis: monotonic_delta })
    }
}

/// Effect of one validation finding.
#[derive(Debug, Clone, Copy, PartialEq, Eq, Structural)]
pub enum RigValidationDisposition {
    /// Runtime or physical evidence satisfies this read requirement.
    Satisfied,
    /// Claimed-only or stale evidence requires a visible follow-up.
    Unverified,
    /// The required getter is unsupported or unavailable.
    Failed,
}

/// Profile-validation outcome for one required read operation.
#[derive(Debug, Clone, Copy, PartialEq, Eq, Structural)]
pub struct RigValidationFinding {
    /// Required read operation.
    pub capability: RigCapability,
    /// Available evidence or explicit failure state.
    pub status: RigCapabilityStatus,
    /// Whether this evidence is sufficient for read-only verification.
    pub disposition: RigValidationDisposition,
}

/// Bounded validation result tied to one immutable profile revision.
#[derive(Debug, PartialEq, Eq)]
pub struct RigProfileValidation {
    profile_revision_id: ProfileRevisionId,
    findings: Vec<RigValidationFinding>,
}

impl View for RigProfileValidation {
    type V = (Seq<char>, Seq<RigValidationFinding>);

    closed spec fn view(&self) -> (Seq<char>, Seq<RigValidationFinding>) {
        (self.profile_revision_id@, self.findings@)
    }
}

/// Whether every finding of a validation is satisfied.
pub open spec fn all_satisfied(findings: Seq<RigValidationFinding>) -> bool {
    forall|i: int| 0 <= i < findings.len() ==> (#[trigger] findings[i]).disposition == RigValidationDisposition::Satisfied
}

impl Clone for RigProfileValidation {
    fn clone(&self) -> (res: Self)
        ensures
            res@ == self@,
    {
        proof {
            use_type_invariant(self);
        }
        RigProfileValidation { profile_revision_id: self.profile_revision_id.clone(), findings: self.findings.clone() }
    }
}

impl RigProfileValidation {
    #[verifier::type_invariant]
    spec fn inv(self) -> bool {
        self.findings@.len() <= MAX_RIG_VALIDATION_FINDINGS
    }

    /// Constructs a bounded validation result.
    pub fn new(profile_revision_id: ProfileRevisionId, findings: Vec<RigValidationFinding>) -> (res: Result<Self, RigContractError>)
        ensures
            match res {
                Ok(v) => findings@.len() <= MAX_RIG_VALIDATION_FINDINGS && v@ == (profile_revision_id@, findings@),
                Err(e) => findings@.len() > MAX_RIG_VALIDATION_FINDINGS && e == RigContractError::TooManyValidationFindings,
            },
    {
        if findings.len() > MAX_RIG_VALIDATION_FINDINGS {
            return Err(RigContractError::TooManyValidationFindings);
        }
        Ok(RigProfileValidation { profile_revision_id, findings })
    }

    /// Returns the immutable profile revision evaluated.
    pub fn profile_revision_id(&self) -> (res: &ProfileRevisionId)
        ensures
            res@ == self@.0,
    {
        &self.profile_revision_id
    }

    /// Returns bounded findings in requirement order.
    pub fn findings(&self) -> (res: &[RigValidationFinding])
        ensures
            res@ == self@.1,
            res@.len() <= MAX_RIG_VALIDATION_FINDINGS,
    {
        proof {
            use_type_invariant(self);
        }
        self.findings.as_slice()
    }

    /// Returns whether every required capability has sufficient evidence.
    pub fn is_satisfied(&self) -> (res: bool)
        ensures
            res == all_satisfied(self@.1),
    {
        let mut i: usize = 0;
        while i < self.findings.len()
            invariant
                i <= self.findings@.len(),
                all_satisfied(self.findings@.subrange(0, i as int)),
            decreases self.findings@.len() - i,
        {
            if self.findings[i].disposition != RigValidationDisposition::Satisfied {
                assert(self.findings@[i as int].disposition != RigValidationDisposition::Satisfied);
                return false;
            }
            i = i + 1;
            proof {
                assert forall|k: int| 0 <= k < i implies (#[trigger] self.findings@.subrange(0, i as int)[k]).disposition
                    == RigValidationDisposition::Satisfied by {
                    if k < i - 1 {
                        assert(self.findings@.subrange(0, i - 1)[k] == self.findings@.subrange(0, i as int)[k]);
                    }
                }
            }
        }
        proof {
            assert(self.findings@.subrange(0, self.findings@.len() as int) == self.findings@);
        }
        true
    }
}

/// How strongly one evidence status satisfies a read requirement.
pub open spec fn disposition_of(status: RigCapabilityStatus) -> RigValidationDisposition {
    match status {
        RigCapabilityStatus::RuntimeProbed | RigCapabilityStatus::PhysicallyVerified => RigValidationDisposition::Satisfied,
        RigCapabilityStatus::BackendClaimed | RigCapabilityStatus::StaleOrUnverified => RigValidationDisposition::Unverified,
        RigCapabilityStatus::Unsupported | RigCapabilityStatus::Unavailable => RigValidationDisposition::Failed,
    }
}

/// The finding for one required capability under a report's evidence.
pub open spec fn finding_for(evidence: Seq<RigCapabilityEvidence>, capability: RigCapability) -> RigValidationFinding {
    let status = match status_in(evidence, capability) {
        Some(s) => s,
        None => RigCapabilityStatus::StaleOrUnverified,
    };
    RigValidationFinding { capability, status, disposition: disposition_of(status) }
}

/// Whether evidence was probed at runtime or physically verified.
pub open spec fn probed_or_verified(status: Option<RigCapabilityStatus>) -> bool {
    status == Some(RigCapabilityStatus::RuntimeProbed) || status == Some(RigCapabilityStatus::PhysicallyVerified)
}

/// Law: a validation of required reads is satisfied exactly when every
/// required read has evidence that was probed at runtime or physically
/// verified; a read that only the backend claims, or one with stale or no
/// evidence, leaves it unverified, and an unsupported or unavailable one fails.
pub proof fn law_only_probed_evidence_satisfies(evidence: Seq<RigCapabilityEvidence>, required: Seq<RigCapability>)
    ensures
        all_satisfied(required.map_values(|c: RigCapability| finding_for(evidence, c))) <==> forall|i: int|
            0 <= i < required.len() ==> probed_or_verified(#[trigger] status_in(evidence, required[i])),
        forall|c: RigCapability| #![trigger finding_for(evidence, c)] {
            let f = finding_for(evidence, c);
            &&& status_in(evidence, c) == Some(RigCapabilityStatus::BackendClaimed)
                ==> f.disposition == RigValidationDisposition::Unverified
            &&& status_in(evidence, c) is None ==> f.disposition == RigValidationDisposition::Unverified
            &&& (status_in(evidence, c) == Some(RigCapabilityStatus::Unsupported)
                || status_in(evidence, c) == Some(RigCapabilityStatus::Unavailable))
                ==> f.disposition == RigValidationDisposition::Failed
            &&& f.capability == c
        },
{
    let findings = required.map_values(|c: RigCapability| finding_for(evidence, c));
    if all_satisfied(findings) {
        assert forall|i: int| 0 <= i < required.len() implies probed_or_verified(#[trigger] status_in(evidence, required[i])) by {
            assert(findings[i].disposition == RigValidationDisposition::Satisfied);
        }
    }
    if forall|i: int| 0 <= i < required.len() ==> probed_or_verified(#[trigger] status_in(evidence, required[i])) {
        assert forall|i: int| 0 <= i < findings.len() implies (#[trigger] findings[i]).disposition
            == RigValidationDisposition::Satisfied by {
            assert(status_in(evidence, required[i]) is Some);
        }
    }
}

/// Validates required reads without treating backend claims as probe evidence.
pub fn validate_profile_capabilities(
    profile: &RigProfile,
    required: &[RigCapability],
    report: &RigCapabilityReport,
) -> (res: Result<RigProfileValidation, RigContractError>)
    ensures
        match res {
            Ok(v) => capability_set_ok(required@) && v@.0 == profile.spec_revision_id()
                && v@.1 == required@.map_values(|c: RigCapability| finding_for(report@.1, c)),
            Err(e) => !capability_set_ok(required@) && e == RigContractError::InvalidCapabilitySet,
        },
{
    let mut caps: Vec<RigCapability> = Vec::new();
    let mut i: usize = 0;
    while i < required.len()
        invariant
            i <= required@.len(),
            caps@ == required@.subrange(0, i as int),
        decreases required@.len() - i,
    {
        caps.push(required[i]);
        i = i + 1;
    }
    proof {
        assert(required@.subrange(0, required@.len() as int) == required@);
    }
    if !check_capability_set(&caps) {
        return Err(RigContractError::InvalidCapabilitySet);
    }
    let mut findings: Vec<RigValidationFinding> = Vec::new();
    let mut k: usize = 0;
    while k < required.len()
        invariant
            k <= required@.len(),
            required@.len() <= MAX_RIG_CAPABILITIES,
            findings@ == required@.subrange(0, k as int).map_values(|c: RigCapability| finding_for(report@.1, c)),
        decreases required@.len() - k,
    {
        let capability = required[k];
        let status = match report.status(capability) {
            Some(s) => s,
            None => RigCapabilityStatus::StaleOrUnverified,
        };
        let disposition = match status {
            RigCapabilityStatus::RuntimeProbed | RigCapabilityStatus::PhysicallyVerified => RigValidationDisposition::Satisfied,
            RigCapabilityStatus::BackendClaimed | RigCapabilityStatus::StaleOrUnverified => RigValidationDisposition::Unverified,
            RigCapabilityStatus::Unsupported | RigCapabilityStatus::Unavailable => RigValidationDisposition::Failed,
        };
        findings.push(RigValidationFinding { capability, status, disposition });
        k = k + 1;
        proof {
            assert(required@.subrange(0, k as int).map_values(|c: RigCapability| finding_for(report@.1, c))
                =~= required@.subrange(0, k - 1).map_values(|c: RigCapability| finding_for(report@.1, c)).push(
                    finding_for(report@.1, required@[k - 1])));
        }
    }
    proof {
        assert(required@.subrange(0, required@.len() as int) == required@);
    }
    RigProfileValidation::new(profile.revision_id().clone(), findings)
}

/// Read-only operation associated with a typed failure.
#[derive(Debug, Clone, Copy, PartialEq, Eq, Structural)]
pub enum RigOperation {
    /// Establish or re-establish a connection.
    Connect,
    /// Probe read capabilities.
    Probe,
    /// Read one observation.
    Read,
}

/// Readback field associated with contradictory or unexpected evidence.
#[derive(Debug, Clone, Copy, PartialEq, Eq, Structural)]
pub enum RigObservedField {
    /// Immutable rig profile revision.
    ProfileRevision,
    /// Dial frequency.
    DialFrequency,
    /// Radio modulation.
    Modulation,
    /// Passband.
    Passband,
    /// VFO.
    Vfo,
    /// Split state.
    Split,
    /// Power.
    Power,
    /// PTT evidence.
    Ptt,
    /// Paired UTC/monotonic time.
    Timing,
}

/// Stable coarse kind used by lifecycle snapshots.
#[derive(Debug, Clone, Copy, PartialEq, Eq, Structural)]
pub enum RigFaultKind {
    /// No connection has completed.
    NotConnected,
    /// Capability probing has not completed.
    NotProbed,
    /// The connection disappeared.
    Disconnected,
    /// An operation timed out.
    Timeout,
    /// Readback is too old.
    Stale,
    /// UTC or monotonic time moved backwards.
    TimelineRegressed,
    /// UTC and monotonic age evidence contradicted.
    Contradictory,
    /// A required getter is unsupported.
    Unsupported,
    /// A response was malformed or the deterministic sequence was violated.
    Malformed,
    /// State changed outside the expected read-only profile.
    UnexpectedChange,
    /// Evidence belongs to a different connection generation.
    GenerationChanged,
}

/// Typed read-only rig failure.
#[derive(Debug, Clone, PartialEq, Eq, Structural)]
pub enum RigFault {
    /// A probe or read was attempted before connection.
    NotConnected,
    /// A read was attempted before a successful capability probe.
    NotProbed,
    /// The rig connection is unavailable.
    Disconnected,
    /// A bounded operation exceeded its deadline.
    Timeout {
        /// Operation that timed out.
        operation: RigOperation,
    },
    /// Readback exceeded the caller's freshness requirement.
    Stale {
        /// Observed monotonic age.
        age_millis: u64,
        /// Maximum admitted age.
        maximum_millis: u64,
    },
    /// UTC or monotonic time moved backwards.
    TimelineRegressed,
    /// UTC-derived and monotonic age evidence diverged.
    ContradictoryTiming {
        /// UTC-derived age.
        utc_age_millis: u64,
        /// Monotonic-derived age.
        monotonic_age_millis: u64,
    },
    /// Readback fields contradict one another or the expected profile.
    ContradictoryReadback {
        /// Contradictory field.
        field: RigObservedField,
    },
    /// The adapter reports that a required read is unsupported.
    Unsupported {
        /// Unsupported getter.
        capability: RigCapability,
    },
    /// A bounded response was malformed.
    MalformedResponse,
    /// A read-only observation changed outside the expected profile.
    UnexpectedChange {
        /// Changed field.
        field: RigObservedField,
    },
    /// Evidence belongs to a different connection generation.
    GenerationChanged {
        /// Generation expected by the consumer.
        expected: RigConnectionGeneration,
        /// Generation attached to the evidence.
        observed: RigConnectionGeneration,
    },
}

/// The stable lifecycle kind of a fault.
pub open spec fn fault_kind(f: RigFault) -> RigFaultKind {
    match f {
        RigFault::NotConnected => RigFaultKind::NotConnected,
        RigFault::NotProbed => RigFaultKind::NotProbed,
        RigFault::Disconnected => RigFaultKind::Disconnected,
        RigFault::Timeout { .. } => RigFaultKind::Timeout,
        RigFault::Stale { .. } => RigFaultKind::Stale,
        RigFault::TimelineRegressed => RigFaultKind::TimelineRegressed,
        RigFault::ContradictoryTiming { .. } | RigFault::ContradictoryReadback { .. } => RigFaultKind::Contradictory,
        RigFault::Unsupported { .. } => RigFaultKind::Unsupported,
        RigFault::MalformedResponse => RigFaultKind::Malformed,
        RigFault::UnexpectedChange { .. } => RigFaultKind::UnexpectedChange,
        RigFault::GenerationChanged { .. } => RigFaultKind::GenerationChanged,
    }
}

impl RigFault {
    /// Returns the stable lifecycle fault kind.
    pub fn kind(&self) -> (res: RigFaultKind)
        ensures
            res == fault_kind(*self),
    {
        match self {
            RigFault::NotConnected => RigFaultKind::NotConnected,
            RigFault::NotProbed => RigFaultKind::NotProbed,
            RigFault::Disconnected => RigFaultKind::Disconnected,
            RigFault::Timeout { .. } => RigFaultKind::Timeout,
            RigFault::Stale { .. } => RigFaultKind::Stale,
            RigFault::TimelineRegressed => RigFaultKind::TimelineRegressed,
            RigFault::ContradictoryTiming { .. } | RigFault::ContradictoryReadback { .. } => RigFaultKind::Contradictory,
            RigFault::Unsupported { .. } => RigFaultKind::Unsupported,
            RigFault::MalformedResponse => RigFaultKind::Malformed,
            RigFault::UnexpectedChange { .. } => RigFaultKind::UnexpectedChange,
            RigFault::GenerationChanged { .. } => RigFaultKind::GenerationChanged,
        }
    }
}

/// Observable lifecycle of the read-only rig port.
#[derive(Debug, Clone, Copy, PartialEq, Eq, Structural)]
pub enum RigLifecycleState {
    /// No connection exists.
    Disconnected,
    /// Connection establishment is in progress.
    Connecting,
    /// Connected but not yet probed.
    Connected {
        /// Current generation.
        generation: RigConnectionGeneration,
    },
    /// Capability probing is in progress.
    Probing {
        /// Current generation.
        generation: RigConnectionGeneration,
    },
    /// The connection has current probe evidence and can be read.
    Ready {
        /// Current generation.
        generation: RigConnectionGeneration,
    },
    /// The port failed visibly and retains no verified fresh state.
    Faulted {
        /// Last known generation, when one existed.
        generation: Option<RigConnectionGeneration>,
        /// Stable typed failure kind.
        fault: RigFaultKind,
    },
}

/// Consumer-owned production-facing rig boundary.
///
/// This trait deliberately exposes only connection, capability probing,
/// observation, and lifecycle inspection. It has no setter, raw command, PTT,
/// unkey, output-audio, scheduling, or transmit-authority operation.
pub trait ReadOnlyRigPort {
    /// Returns the current visible lifecycle state.
    fn lifecycle(&self) -> RigLifecycleState;
    /// Establishes or re-establishes one profile-bound connection.
    fn connect(&mut self, profile: &RigProfile) -> Result<RigConnectionGeneration, RigFault>;
    /// Probes actual read operations for the current connection.
    fn probe(&mut self) -> Result<RigCapabilityReport, RigFault>;
    /// Reads one owned observation from a successfully probed connection.
    fn read(&mut self) -> Result<RigObservation, RigFault>;
}

} // verus!
