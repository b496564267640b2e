use slotpilot::audio::capture::BackendErrorKind;
use slotpilot::audio::discovery::{
    descriptor_from_parts, map_discovery_error, finish_descriptors, normalize_configuration_ranges, owned_identity, platform_for_host,
};
use slotpilot::audio::{
    InputConfigurationRange, InputDeviceDescriptor, InputDeviceDisplay, InputDeviceIdentity, InputDiscoveryError,
    InputPlatform, InputSampleFormat,
};

#[test]
fn duplicate_display_names_do_not_collapse_stable_identities() {
    let display = InputDeviceDisplay::new("USB Audio".to_string(), Some("Example".into())).unwrap();
    let range = InputConfigurationRange::new(48_000, 48_000, 2, InputSampleFormat::Signed16).unwrap();
    let first = InputDeviceDescriptor::new(
        InputDeviceIdentity::new(InputPlatform::MacOsCoreAudio, "coreaudio:uid-1".to_string()).unwrap(),
        display.clone(),
        vec![range],
    )
    .unwrap();
    let second = InputDeviceDescriptor::new(
        InputDeviceIdentity::new(InputPlatform::MacOsCoreAudio, "coreaudio:uid-2".to_string()).unwrap(),
        display,
        vec![range],
    )
    .unwrap();
    assert_eq!(first.display().name(), second.display().name());
    assert_ne!(first.identity(), second.identity());
}

#[test]
fn empty_discovery_and_missing_identity_fail_explicitly() {
    assert_eq!(finish_descriptors(Vec::new()), Err(InputDiscoveryError::NoInputDevices));
    assert_eq!(owned_identity(InputPlatform::MacOsCoreAudio, ""), Err(InputDiscoveryError::IdentityUnavailable));
}

fn descriptor(id: &str) -> InputDeviceDescriptor {
    let range = InputConfigurationRange::new(48_000, 48_000, 1, InputSampleFormat::Signed16).unwrap();
    InputDeviceDescriptor::new(
        InputDeviceIdentity::new(InputPlatform::LinuxAlsa, id.to_string()).unwrap(),
        InputDeviceDisplay::new("Input".to_string(), None).unwrap(),
        vec![range],
    )
    .unwrap()
}

#[test]
fn descriptors_are_ordered_by_platform_then_opaque_identity() {
    let sorted = finish_descriptors(vec![descriptor("hw:2"), descriptor("hw:0"), descriptor("hw:1")]).unwrap();
    let ids: Vec<&str> = sorted.iter().map(|d| d.identity().opaque_id()).collect();
    assert_eq!(ids, vec!["hw:0", "hw:1", "hw:2"]);
}

#[test]
fn configuration_ranges_are_sorted_and_deduplicated() {
    let a = InputConfigurationRange::new(44_100, 48_000, 2, InputSampleFormat::Float32).unwrap();
    let b = InputConfigurationRange::new(8_000, 48_000, 1, InputSampleFormat::Signed16).unwrap();
    let normalized = normalize_configuration_ranges(vec![a, b, a]);
    assert_eq!(normalized.len(), 2);
    assert!(normalized.contains(&a));
    assert!(normalized.contains(&b));
}

#[test]
fn host_names_map_to_platforms_and_descriptors_require_ranges() {
    assert!(platform_for_host("NoSuchHost").is_err());
    assert_eq!(platform_for_host("alsa"), Ok(InputPlatform::LinuxAlsa));
    assert!(descriptor_from_parts(InputPlatform::LinuxAlsa, "hw:0", "Input", None, Vec::new()).is_err());
    let range = InputConfigurationRange::new(48_000, 48_000, 1, InputSampleFormat::Signed16).unwrap();
    let d = descriptor_from_parts(InputPlatform::LinuxAlsa, "hw:0", "Input", Some("Maker"), vec![range]).unwrap();
    assert_eq!(d.identity().opaque_id(), "hw:0");
    assert_eq!(d.display().manufacturer(), Some("Maker"));
}

#[test]
fn discovery_errors_remain_typed_and_stable() {
    let cases = [
        (BackendErrorKind::HostUnavailable, InputDiscoveryError::HostUnavailable),
        (BackendErrorKind::PermissionDenied, InputDiscoveryError::PermissionDenied),
        (BackendErrorKind::DeviceNotAvailable, InputDiscoveryError::DeviceDisappeared),
        (BackendErrorKind::UnsupportedConfig, InputDiscoveryError::UnsupportedConfiguration),
        (BackendErrorKind::Other, InputDiscoveryError::BackendFailure),
    ];
    for (kind, expected) in cases {
        assert_eq!(map_discovery_error(kind), expected);
    }
}
