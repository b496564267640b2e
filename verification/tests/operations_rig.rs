use slotpilot::domain::ids::ProfileRevisionId;
use slotpilot::domain::radio::DialFrequency;
use slotpilot::domain::rig_profile::{
    DownstreamRigEndpoint, HamlibModelId, HamlibVersionExpectation, IpLiteral, RadioModulation, RadioPassband,
    RigProfile, RigVfo, RigctldMode, RigctldServiceEndpoint, SplitReadback,
};
use slotpilot::operations::rig::{
    validate_profile_capabilities, RigCapability, RigCapabilityEvidence, RigCapabilityReport, RigCapabilityStatus,
    RigConnectionGeneration, RigContractError, RigFault, RigFreshnessPolicy, RigObservation, RigObservationFields,
    RigObservationProvenance, RigObservationSequence, RigObservationTimestamp, RigProfileValidation, RigReadback,
    RigValidationDisposition, RigValidationFinding, MAX_RIG_VALIDATION_FINDINGS,
};
use slotpilot::operations::time::{ClockSample, MonotonicInstant, UtcInstant};

fn profile() -> RigProfile {
    RigProfile::new(
        "prv_01jrigprofile".parse().unwrap(),
        DownstreamRigEndpoint::new("k4.operator.lan".to_string(), 12_345, None).unwrap(),
        RigctldServiceEndpoint::new("127.0.0.1".to_string(), 4_532, Some(IpLiteral::V4([127, 0, 0, 1]))).unwrap(),
        RigctldMode::Managed,
        HamlibModelId::new(2_047).unwrap(),
        HamlibVersionExpectation::new("4.7.1".to_string()).unwrap(),
        RadioModulation::DataUpperSideband,
        RadioPassband::from_hz(3_000).unwrap(),
    )
    .unwrap()
}

fn stale_observation() -> RigObservation {
    RigObservation {
        profile_revision_id: "prv_01jrigprofile".parse().unwrap(),
        provenance: RigObservationProvenance {
            service_instance_id: "svc_01jrigprocess".parse().unwrap(),
            connection_generation: RigConnectionGeneration::new(1).unwrap(),
            sequence: RigObservationSequence::new(1).unwrap(),
        },
        observed_at: RigObservationTimestamp::new(1_000, 10).unwrap(),
        fields: RigObservationFields {
            dial_frequency: RigReadback::StaleOrUnverified,
            modulation: RigReadback::StaleOrUnverified,
            passband: RigReadback::StaleOrUnverified,
            vfo: RigReadback::StaleOrUnverified,
            split: RigReadback::StaleOrUnverified,
            power: RigReadback::StaleOrUnverified,
            ptt_asserted: RigReadback::StaleOrUnverified,
        },
    }
}

#[test]
fn capability_validation_preserves_every_evidence_level() {
    let statuses = [
        RigCapabilityStatus::BackendClaimed,
        RigCapabilityStatus::RuntimeProbed,
        RigCapabilityStatus::PhysicallyVerified,
        RigCapabilityStatus::Unsupported,
        RigCapabilityStatus::Unavailable,
        RigCapabilityStatus::StaleOrUnverified,
    ];
    let capabilities = [
        RigCapability::DialFrequency,
        RigCapability::Modulation,
        RigCapability::Passband,
        RigCapability::Vfo,
        RigCapability::Split,
        RigCapability::Power,
    ];
    let report = RigCapabilityReport::new(
        RigConnectionGeneration::new(1).unwrap(),
        capabilities
            .iter()
            .zip(statuses)
            .map(|(capability, status)| RigCapabilityEvidence { capability: *capability, status })
            .collect(),
    )
    .unwrap();
    let validation = validate_profile_capabilities(&profile(), &capabilities, &report).unwrap();
    assert_eq!(validation.findings().iter().map(|finding| finding.status).collect::<Vec<_>>(), statuses);
    assert!(!validation.is_satisfied());
}

#[test]
fn observation_fixture_preserves_absent_optional_values_and_provenance() {
    let observation = RigObservation {
        profile_revision_id: "prv_01jrigprofile".parse().unwrap(),
        provenance: RigObservationProvenance {
            service_instance_id: "svc_01jrigprocess".parse().unwrap(),
            connection_generation: RigConnectionGeneration::new(2).unwrap(),
            sequence: RigObservationSequence::new(3).unwrap(),
        },
        observed_at: RigObservationTimestamp::new(1_721_798_400_000, 9_000).unwrap(),
        fields: RigObservationFields {
            dial_frequency: RigReadback::Observed(DialFrequency::from_hz(14_074_000).unwrap()),
            modulation: RigReadback::Observed(RadioModulation::DataUpperSideband),
            passband: RigReadback::Observed(RadioPassband::from_hz(3_000).unwrap()),
            vfo: RigReadback::Observed(RigVfo::A),
            split: RigReadback::Observed(SplitReadback::new(false, None)),
            power: RigReadback::Unavailable,
            ptt_asserted: RigReadback::Unsupported,
        },
    };
    assert_eq!(observation.fields.power, RigReadback::Unavailable);
    assert_eq!(observation.fields.ptt_asserted, RigReadback::Unsupported);
    assert_eq!(observation.provenance.connection_generation.get(), 2);
    assert_eq!(observation.provenance.sequence.get(), 3);
    assert_eq!(observation.observed_at.utc_unix_millis(), 1_721_798_400_000);
    assert_eq!(observation.observed_at.monotonic_millis(), 9_000);
}

#[test]
fn freshness_checks_both_timelines_without_sleeping() {
    let observation = stale_observation();
    let policy = RigFreshnessPolicy::new(100, 5).unwrap();
    let age = observation
        .fresh_at(
            ClockSample { utc: UtcInstant::from_unix_millis(1_050).unwrap(), monotonic: MonotonicInstant::from_millis(60) },
            policy,
        )
        .unwrap();
    assert_eq!(age.utc_millis(), 50);
    assert_eq!(age.monotonic_millis(), 50);
    assert!(matches!(
        observation.fresh_at(
            ClockSample { utc: UtcInstant::from_unix_millis(1_200).unwrap(), monotonic: MonotonicInstant::from_millis(210) },
            policy,
        ),
        Err(RigFault::Stale { .. })
    ));
    assert!(matches!(
        observation.fresh_at(
            ClockSample { utc: UtcInstant::from_unix_millis(1_050).unwrap(), monotonic: MonotonicInstant::from_millis(80) },
            policy,
        ),
        Err(RigFault::ContradictoryTiming { .. })
    ));
}

#[test]
fn serialized_contracts_cannot_bypass_checked_bounds() {
    let duplicate = vec![
        RigCapabilityEvidence { capability: RigCapability::Power, status: RigCapabilityStatus::RuntimeProbed },
        RigCapabilityEvidence { capability: RigCapability::Power, status: RigCapabilityStatus::PhysicallyVerified },
    ];
    assert!(RigCapabilityReport::new(RigConnectionGeneration::new(1).unwrap(), duplicate).is_err());
    assert!(RigObservationTimestamp::new(-1, 0).is_err());
    let findings = (0..=MAX_RIG_VALIDATION_FINDINGS)
        .map(|_| RigValidationFinding {
            capability: RigCapability::Power,
            status: RigCapabilityStatus::Unsupported,
            disposition: RigValidationDisposition::Failed,
        })
        .collect::<Vec<_>>();
    let revision: ProfileRevisionId = "prv_01jrigprofile".parse().unwrap();
    assert!(RigProfileValidation::new(revision, findings).is_err());
}

#[test]
fn generations_and_sequences_reject_zero() {
    assert!(RigConnectionGeneration::new(0).is_err());
    assert!(RigObservationSequence::new(0).is_err());
    assert!(RigFreshnessPolicy::new(0, 0).is_err());
    let _unused: Option<RigContractError> = None;
}

#[test]
fn probed_and_verified_evidence_satisfies_a_profile() {
    let capabilities = [RigCapability::DialFrequency, RigCapability::Modulation];
    let report = RigCapabilityReport::new(
        RigConnectionGeneration::new(4).unwrap(),
        vec![
            RigCapabilityEvidence { capability: RigCapability::DialFrequency, status: RigCapabilityStatus::RuntimeProbed },
            RigCapabilityEvidence { capability: RigCapability::Modulation, status: RigCapabilityStatus::PhysicallyVerified },
        ],
    )
    .unwrap();
    assert_eq!(report.status(RigCapability::Power), None);
    let validation = validate_profile_capabilities(&profile(), &capabilities, &report).unwrap();
    assert!(validation.is_satisfied());
    assert_eq!(validation.findings().len(), 2);
}
