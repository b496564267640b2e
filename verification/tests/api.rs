use slotpilot::api::receive::{
    InputConfiguration, InputConfigurationRange, InputDevice, InputDeviceIdentity, InputDevicePage, InputPlatform,
    InputSampleFormat, ReceiveSelection, WaterfallBin, WaterfallFrame, WireBoundError, MAX_INPUT_DEVICES,
    MAX_WATERFALL_BINS,
};
use slotpilot::api::{
    ApiError, Availability, CanonicalizationError, Command, CommandClass, CommandEnvelope, ConfigurationState,
    ErrorCode, NoopService, OperationState, ResponseOutcome, ResultBody, StationSnapshot, API_VERSION,
    MAX_NEGOTIATION_VERSIONS,
};

fn service(id: &str) -> NoopService {
    NoopService::new(id.parse().unwrap())
}

fn request(command: Command) -> CommandEnvelope {
    CommandEnvelope { api_version: API_VERSION, request_id: "req_01jabcde9".parse().unwrap(), command }
}

#[test]
fn negotiates_capabilities_and_returns_noop_snapshot() {
    let service = service("svc_01jabcde9");
    let capabilities = service.execute(request(Command::GetCapabilities { supported_versions: vec![API_VERSION] }));
    assert!(matches!(capabilities.outcome, ResponseOutcome::Success(ResultBody::Capabilities(_))));

    let snapshot = service.execute(request(Command::GetSnapshot));
    assert!(matches!(
        snapshot.outcome,
        ResponseOutcome::Success(ResultBody::Snapshot(StationSnapshot {
            configuration: ConfigurationState::NotConfigured,
            operation: OperationState::NotRunning,
            transmit_authority: Availability::Unavailable,
            ..
        }))
    ));
}

#[test]
fn incompatible_and_oversized_negotiation_are_structured() {
    let service = service("svc_01jabcde9");
    let incompatible = service.execute(CommandEnvelope {
        api_version: 99,
        request_id: "req_01jabcde9".parse().unwrap(),
        command: Command::GetSnapshot,
    });
    assert!(matches!(
        incompatible.outcome,
        ResponseOutcome::Error(ApiError { code: ErrorCode::IncompatibleApiVersion, .. })
    ));

    let oversized = service.execute(request(Command::GetCapabilities {
        supported_versions: vec![API_VERSION; MAX_NEGOTIATION_VERSIONS + 1],
    }));
    assert!(matches!(oversized.outcome, ResponseOutcome::Error(ApiError { code: ErrorCode::NegotiationTooLarge, .. })));
}

#[test]
fn restart_generation_changes_without_restoring_state() {
    let first = service("svc_01jabcde9").execute(request(Command::GetSnapshot));
    let restarted = service("svc_01jabcdf0").execute(request(Command::GetSnapshot));
    assert_ne!(first, restarted);
    for response in [first, restarted] {
        assert!(matches!(
            response.outcome,
            ResponseOutcome::Success(ResultBody::Snapshot(StationSnapshot {
                operation: OperationState::NotRunning,
                transmit_authority: Availability::Unavailable,
                ..
            }))
        ));
    }
}

#[test]
fn command_classification_and_canonicalization_are_explicit() {
    assert_eq!(Command::GetSnapshot.class(), CommandClass::ReadOnly);
    let alpha = Command::NoopMutation { marker: "alpha".into() };
    assert_eq!(alpha.class(), CommandClass::Mutating);
    assert_eq!(alpha.canonical_bounds(), Ok(()));
    assert!(matches!(
        Command::NoopMutation { marker: "x".repeat(129) }.canonical_bounds(),
        Err(CanonicalizationError::MarkerTooLong)
    ));
    assert_eq!(Command::NoopMutation { marker: "x".repeat(128) }.canonical_bounds(), Ok(()));
}

#[test]
fn error_codes_have_stable_wire_names() {
    assert_eq!(ErrorCode::IncompatibleApiVersion.as_str(), "incompatible_api_version");
    assert_eq!(ErrorCode::NegotiationTooLarge.as_str(), "negotiation_too_large");
}

#[test]
fn public_collection_bounds_reject_oversized_values() {
    let frame = WaterfallFrame {
        stream_generation: 1,
        utc_unix_millis: 1,
        frame_sequence: 1,
        coalesced: false,
        bins: vec![WaterfallBin { frequency_millihz: 1, magnitude_millidbfs: -1 }; MAX_WATERFALL_BINS + 1],
    };
    assert_eq!(frame.validate(), Err(WireBoundError::Exceeded));
    let page = InputDevicePage {
        devices: (0..=MAX_INPUT_DEVICES)
            .map(|index| InputDevice {
                identity: InputDeviceIdentity { platform: InputPlatform::LinuxAlsa, opaque_id: format!("device-{index}") },
                display_name: "Input".into(),
                manufacturer: None,
                configuration_ranges: vec![InputConfigurationRange {
                    min_sample_rate_hz: 48_000,
                    max_sample_rate_hz: 48_000,
                    channels: 1,
                    sample_format: InputSampleFormat::Signed16,
                }],
            })
            .collect(),
    };
    assert_eq!(page.validate(), Err(WireBoundError::Exceeded));
}

#[test]
fn exact_selection_excludes_display_identity_and_checks_shape() {
    let selection = ReceiveSelection {
        device_identity: InputDeviceIdentity { platform: InputPlatform::MacOsCoreAudio, opaque_id: "stable-id".into() },
        configuration: InputConfiguration {
            sample_rate_hz: 48_000,
            channels: 2,
            sample_format: InputSampleFormat::Signed16,
            selected_channel: 1,
        },
    };
    assert!(selection.validate().is_ok());
    let mut invalid = selection;
    invalid.configuration.selected_channel = 2;
    assert!(invalid.validate().is_err());
}

#[test]
fn bounded_frames_and_pages_validate() {
    let frame = WaterfallFrame {
        stream_generation: 1,
        utc_unix_millis: 1,
        frame_sequence: 1,
        coalesced: true,
        bins: vec![WaterfallBin { frequency_millihz: 1, magnitude_millidbfs: -1 }; MAX_WATERFALL_BINS],
    };
    assert_eq!(frame.validate(), Ok(()));
    assert_eq!(InputDevicePage { devices: Vec::new() }.validate(), Ok(()));
}
