use slotpilot::domain::callsign::{BaseCallsign, CallsignError, FullCallsign, OperatorCallsign, OwnerCallsign, StationCallsign};
use slotpilot::domain::ids::{IdError, ProfileRevisionId, RequestId};
use slotpilot::domain::radio::{AudioFrequency, Band, DialFrequency, OperatingMode, Power, RadioValueError, UtcSlot};
use slotpilot::domain::rig_profile::{
    DownstreamRigEndpoint, HamlibModelId, HamlibVersionExpectation, IpLiteral, RadioModulation, RadioPassband,
    RigProfile, RigProfileError, RigctldMode, RigctldServiceEndpoint,
};

const LOOPBACK_V4: IpLiteral = IpLiteral::V4([127, 0, 0, 1]);

fn k4_profile() -> RigProfile {
    RigProfile::new(
        "prv_01jrigprofile".parse::<ProfileRevisionId>().unwrap(),
        DownstreamRigEndpoint::new("k4.operator.lan".to_string(), 12_345, None).unwrap(),
        RigctldServiceEndpoint::new("127.0.0.1".to_string(), 4_532, Some(LOOPBACK_V4)).unwrap(),
        RigctldMode::Managed,
        HamlibModelId::new(2_047).unwrap(),
        HamlibVersionExpectation::new("4.7.1".to_string()).unwrap(),
        RadioModulation::DataUpperSideband,
        RadioPassband::from_hz(3_000).unwrap(),
    )
    .unwrap()
}

#[test]
fn full_call_preserves_original_and_separates_base() {
    let call: FullCallsign = "ea8/K1abc/p".parse().unwrap();
    assert_eq!(call.original(), "ea8/K1abc/p");
    assert_eq!(call.base().as_str(), "K1ABC");
}

#[test]
fn role_types_remain_distinct_in_structures_and_json() {
    let station: StationCallsign = "W1AW/1".parse().unwrap();
    let operator: OperatorCallsign = "K1ABC".parse().unwrap();
    let owner: OwnerCallsign = "N1XYZ".parse().unwrap();
    assert_eq!(station.callsign().original(), "W1AW/1");
    assert_eq!(operator.callsign().original(), "K1ABC");
    assert_eq!(owner.callsign().original(), "N1XYZ");
}

#[test]
fn invalid_callsigns_are_typed_failures() {
    assert_eq!("W1AW//P".parse::<FullCallsign>(), Err(CallsignError::EmptyComponent));
    assert_eq!("NO-DASH".parse::<FullCallsign>(), Err(CallsignError::InvalidCharacter));
    assert_eq!("WAW".parse::<FullCallsign>(), Err(CallsignError::MissingBaseCall));
    assert_eq!("k1abc".parse::<BaseCallsign>(), Err(CallsignError::NonCanonicalBase));
}

#[test]
fn ids_have_stable_display_and_json_forms() {
    let request: RequestId = "req_01jabcde9".parse().unwrap();
    assert_eq!(request.as_str(), "req_01jabcde9");
    assert_eq!(request.clone().into_string(), "req_01jabcde9".to_string());
}

#[test]
fn ids_reject_wrong_prefix_length_and_alphabet() {
    assert!(matches!("evt_01jabcde9".parse::<RequestId>(), Err(IdError::WrongPrefix { .. })));
    assert_eq!("req_short".parse::<RequestId>(), Err(IdError::InvalidLength));
    assert_eq!("req_01JABCDE9".parse::<RequestId>(), Err(IdError::InvalidCharacter));
}

#[test]
fn stable_display_and_wire_fixtures() {
    let dial = DialFrequency::from_hz(14_074_000).unwrap();
    let audio = AudioFrequency::from_hz(1_500).unwrap();
    let power = Power::from_milliwatts(5_000).unwrap();
    let slot = UtcSlot::new(OperatingMode::Ft8, 1_721_798_400_000).unwrap();
    assert_eq!(Band::B20m.as_str(), "20m");
    assert_eq!(dial.hz(), 14_074_000);
    assert_eq!(audio.hz(), 1_500);
    assert_eq!(power.milliwatts(), 5_000);
    assert_eq!(slot.mode().as_str(), "FT8");
    assert_eq!(slot.start_unix_millis(), 1_721_798_400_000);
}

#[test]
fn invalid_radio_values_are_rejected() {
    assert_eq!("13m".parse::<Band>(), Err(RadioValueError::InvalidBand));
    assert!(DialFrequency::from_hz(99_999).is_err());
    assert!(AudioFrequency::from_hz(0).is_err());
    assert_eq!(Power::from_milliwatts(0), Err(RadioValueError::PowerOutOfRange));
    assert_eq!(UtcSlot::new(OperatingMode::Ft8, 1), Err(RadioValueError::MisalignedSlot));
    assert_eq!(UtcSlot::new(OperatingMode::Wspr, -120_000), Err(RadioValueError::NegativeSlot));
}

#[test]
fn profile_fixture_preserves_exact_distinct_endpoints_and_units() {
    let profile = k4_profile();
    assert_eq!(profile.revision_id().as_str(), "prv_01jrigprofile");
    assert_eq!(profile.downstream_endpoint().to_text(), "k4.operator.lan:12345");
    assert_eq!(profile.service_endpoint().to_text(), "127.0.0.1:4532");
    assert_eq!(profile.rigctld_mode(), RigctldMode::Managed);
    assert_eq!(profile.hamlib_model().get(), 2_047);
    assert_eq!(profile.hamlib_version().as_str(), "4.7.1");
    assert_eq!(profile.required_modulation(), RadioModulation::DataUpperSideband);
    assert_eq!(profile.required_passband().hz(), 3_000);
    assert_eq!(profile.downstream_endpoint().port(), 12_345);
    assert_eq!(profile.service_endpoint().port(), 4_532);
}

#[test]
fn endpoints_require_explicit_roles_hosts_and_ports() {
    assert_eq!(
        DownstreamRigEndpoint::parse("k4.operator.lan", None).unwrap_err(),
        RigProfileError::IncompleteEndpoint
    );
    assert_eq!(
        DownstreamRigEndpoint::parse("k4.operator.lan:0", None).unwrap_err(),
        RigProfileError::InvalidEndpointPort
    );
    assert_eq!(
        RigctldServiceEndpoint::parse("unbracketed::1:4532", None).unwrap_err(),
        RigProfileError::InvalidEndpointHost
    );
    let v6_loopback = IpLiteral::V6([0, 0, 0, 0, 0, 0, 0, 1]);
    assert_eq!(
        RigctldServiceEndpoint::parse("[::1]:4532", Some(v6_loopback)).unwrap().to_text(),
        "[::1]:4532"
    );
}

#[test]
fn managed_profile_requires_loopback_and_distinct_endpoint() {
    let base = k4_profile();
    assert_eq!(
        RigProfile::new(
            base.revision_id().clone(),
            DownstreamRigEndpoint::new("k4.operator.lan".to_string(), 12_345, None).unwrap(),
            RigctldServiceEndpoint::new("rigctld.operator.lan".to_string(), 4_532, None).unwrap(),
            RigctldMode::Managed,
            base.hamlib_model(),
            base.hamlib_version().clone(),
            base.required_modulation(),
            base.required_passband(),
        )
        .unwrap_err(),
        RigProfileError::ManagedServiceNotLoopback
    );
    assert_eq!(
        RigProfile::new(
            base.revision_id().clone(),
            DownstreamRigEndpoint::new("127.0.0.1".to_string(), 4_532, Some(LOOPBACK_V4)).unwrap(),
            RigctldServiceEndpoint::new("127.0.0.1".to_string(), 4_532, Some(LOOPBACK_V4)).unwrap(),
            RigctldMode::External,
            base.hamlib_model(),
            base.hamlib_version().clone(),
            base.required_modulation(),
            base.required_passband(),
        )
        .unwrap_err(),
        RigProfileError::EndpointRolesConflict
    );
}

#[test]
fn radio_modulation_is_not_a_protocol_operating_mode() {
    fn accepts_radio_mode(_: RadioModulation) {}
    accepts_radio_mode(RadioModulation::DataUpperSideband);
    assert_eq!(OperatingMode::Ft8.as_str(), "FT8");
}

#[test]
fn base_callsign_with_a_slash_is_non_canonical() {
    assert_eq!("K1/A".parse::<BaseCallsign>(), Err(CallsignError::NonCanonicalBase));
    assert_eq!("W1AW/P".parse::<BaseCallsign>(), Err(CallsignError::NonCanonicalBase));
    assert_eq!("/".parse::<BaseCallsign>(), Err(CallsignError::NonCanonicalBase));
    assert_eq!("".parse::<BaseCallsign>(), Err(CallsignError::InvalidLength));
    assert_eq!("K1-A".parse::<BaseCallsign>(), Err(CallsignError::InvalidCharacter));
    assert_eq!("K1ABC".parse::<BaseCallsign>().unwrap().as_str(), "K1ABC");
}
