use slotpilot::domain::callsign::FullCallsign;
use slotpilot::domain::radio::AudioFrequency;
use slotpilot::protocol::offline_adapter::{
    is_decodable_window, merge_decodes, OfflineFt8Codec, OfflineFt8Synthesizer, FT8_FRAME_SAMPLES, FT8_SLOT_SAMPLES,
};
use slotpilot::protocol::{
    ClassifiedFt8Message, Ft8CodecError, Ft8Decode, Ft8DecodeMetadata, FreeTextFt8Message, Ft8DecodeBitsRequest, Ft8EncodeRequest, Ft8MessageClass, Ft8MessageCodec,
    Ft8WaveformError, Ft8WaveformPlacement, Ft8WaveformRequest, PackedFt8Bits, PcmAmplitudePermille, PcmFormat,
    PcmBuffer, PcmSampleFormat, ResolvedFt8Message,
};

fn call(text: &str) -> FullCallsign {
    text.parse().unwrap()
}

fn message(text: &str, sender: &str, recipient: Option<&str>, class: Ft8MessageClass) -> ResolvedFt8Message {
    ResolvedFt8Message::new(text, call(sender), recipient.map(call), class).unwrap()
}

fn round_trip(codec: &OfflineFt8Codec, m: &ResolvedFt8Message) -> ClassifiedFt8Message {
    let bits = codec.encode(&Ft8EncodeRequest { message: m.clone() }).unwrap();
    codec.decode_bits(&Ft8DecodeBitsRequest { bits }).unwrap()
}

#[test]
fn supported_owned_messages_round_trip_through_bits() {
    let codec = OfflineFt8Codec::new();
    let cases = [
        message("CQ K1ABC FN42", "K1ABC", None, Ft8MessageClass::GeneralCall),
        message("K1ABC W1AW FN31", "K1ABC", Some("W1AW"), Ft8MessageClass::DirectedGrid),
        message("K1ABC W1AW -12", "K1ABC", Some("W1AW"), Ft8MessageClass::SignalReport),
        message("K1ABC W1AW R-07", "K1ABC", Some("W1AW"), Ft8MessageClass::RogerSignalReport),
        message("K1ABC W1AW RRR", "K1ABC", Some("W1AW"), Ft8MessageClass::Roger),
        message("K1ABC W1AW 73", "K1ABC", Some("W1AW"), Ft8MessageClass::Ending73),
        message("K1ABC W1AW RR73", "K1ABC", Some("W1AW"), Ft8MessageClass::EndingRr73),
    ];
    for m in cases {
        assert_eq!(round_trip(&codec, &m), ClassifiedFt8Message::Resolved(m.clone()), "{}", m.canonical_text());
    }
}

#[test]
fn rr73_is_classified_from_bits_not_text() {
    let codec = OfflineFt8Codec::new();
    let ending = message("K1ABC W1AW RR73", "K1ABC", Some("W1AW"), Ft8MessageClass::EndingRr73);
    let decoded = round_trip(&codec, &ending);
    match decoded {
        ClassifiedFt8Message::Resolved(m) => assert_eq!(m.class(), Ft8MessageClass::EndingRr73),
        other => panic!("unexpected classification: {other:?}"),
    }
}

#[test]
fn mismatched_identity_or_shape_is_not_representable() {
    let codec = OfflineFt8Codec::new();
    let wrong_sender = message("CQ K1ABC FN42", "K2XYZ", None, Ft8MessageClass::GeneralCall);
    assert!(matches!(
        codec.encode(&Ft8EncodeRequest { message: wrong_sender }),
        Err(Ft8CodecError::NotRepresentable { .. })
    ));
    let wrong_payload = message("K1ABC W1AW -12", "K1ABC", Some("W1AW"), Ft8MessageClass::DirectedGrid);
    assert!(matches!(
        codec.encode(&Ft8EncodeRequest { message: wrong_payload }),
        Err(Ft8CodecError::NotRepresentable { .. })
    ));
}

fn bits_with_type(i3: u8, n3: u8) -> PackedFt8Bits {
    let mut bits = [false; 77];
    for k in 0..3 {
        bits[71 + k] = (n3 >> (2 - k)) & 1 == 1;
        bits[74 + k] = (i3 >> (2 - k)) & 1 == 1;
    }
    PackedFt8Bits::new(bits)
}

#[test]
fn free_text_and_unsupported_structures_never_become_resolved() {
    let codec = OfflineFt8Codec::new();
    let blank = codec.decode_bits(&Ft8DecodeBitsRequest { bits: bits_with_type(0, 0) });
    assert!(!matches!(blank, Ok(ClassifiedFt8Message::Resolved(_))));
    let unsupported = codec.decode_bits(&Ft8DecodeBitsRequest { bits: bits_with_type(5, 0) });
    match unsupported {
        Ok(ClassifiedFt8Message::Unsupported(m)) => assert!(m.detail().starts_with("FT8 type 5/0")),
        Ok(other) => panic!("unexpected classification: {other:?}"),
        Err(e) => assert!(matches!(e, Ft8CodecError::Adapter { .. })),
    }
}

#[test]
fn known_calls_extend_the_resolution_context() {
    let known = [call("W1AW/1")];
    let codec = OfflineFt8Codec::with_known_calls(&known);
    let m = message("K1ABC W1AW -12", "K1ABC", Some("W1AW"), Ft8MessageClass::SignalReport);
    assert_eq!(round_trip(&codec, &m), ClassifiedFt8Message::Resolved(m.clone()));
}

fn request(m: ResolvedFt8Message, placement: Ft8WaveformPlacement) -> Ft8WaveformRequest {
    Ft8WaveformRequest {
        message: m,
        format: PcmFormat::new(12_000, 1, PcmSampleFormat::Signed16LittleEndian).unwrap(),
        audio_frequency: AudioFrequency::from_hz(1_500).unwrap(),
        amplitude: PcmAmplitudePermille::new(500).unwrap(),
        placement,
    }
}

#[test]
fn synthesis_plan_checks_format_frequency_and_amplitude() {
    let synth = OfflineFt8Synthesizer::new();
    let m = message("CQ K1ABC FN42", "K1ABC", None, Ft8MessageClass::GeneralCall);
    let plan = synth.plan(&request(m.clone(), Ft8WaveformPlacement::FrameOnly)).unwrap();
    assert_eq!(plan.tones.len(), 79);
    assert_eq!(plan.amplitude, 16_383);
    assert_eq!(plan.base_frequency_hz, 1_500);

    let mut stereo = request(m.clone(), Ft8WaveformPlacement::FrameOnly);
    stereo.format = PcmFormat::new(12_000, 2, PcmSampleFormat::Signed16LittleEndian).unwrap();
    assert!(matches!(synth.plan(&stereo), Err(Ft8WaveformError::InvalidConfiguration { .. })));

    let mut high = request(m, Ft8WaveformPlacement::FrameOnly);
    high.audio_frequency = AudioFrequency::from_hz(5_957).unwrap();
    assert!(matches!(synth.plan(&high), Err(Ft8WaveformError::InvalidConfiguration { .. })));
}

#[test]
fn full_slot_placement_is_explicit_silence_around_the_same_frame() {
    let synth = OfflineFt8Synthesizer::new();
    let m = message("CQ K1ABC FN42", "K1ABC", None, Ft8MessageClass::GeneralCall);
    let frame: Vec<i16> = (0..FT8_FRAME_SAMPLES).map(|i| (i % 200) as i16 - 100).collect();
    let slot = synth
        .place(&request(m.clone(), Ft8WaveformPlacement::FullSlot { start_frame: 12_000 }), 100, frame.clone())
        .unwrap();
    assert_eq!(slot.samples().len(), FT8_SLOT_SAMPLES as usize);
    assert!(slot.samples()[..12_000].iter().all(|s| *s == 0));
    assert_eq!(&slot.samples()[12_000..12_000 + FT8_FRAME_SAMPLES as usize], frame.as_slice());
    assert!(slot.samples()[12_000 + FT8_FRAME_SAMPLES as usize..].iter().all(|s| *s == 0));

    let only = synth.place(&request(m.clone(), Ft8WaveformPlacement::FrameOnly), 100, frame.clone()).unwrap();
    assert_eq!(only.samples(), frame.as_slice());

    assert!(matches!(
        synth.place(&request(m.clone(), Ft8WaveformPlacement::FullSlot { start_frame: 30_000 }), 100, frame.clone()),
        Err(Ft8WaveformError::InvalidConfiguration { .. })
    ));
    assert!(matches!(
        synth.place(&request(m.clone(), Ft8WaveformPlacement::FrameOnly), 99, frame),
        Err(Ft8WaveformError::InvalidConfiguration { .. })
    ));
}

fn decode(start: i32, frequency: u32, snr: i16, text: &str) -> Ft8Decode {
    Ft8Decode {
        metadata: Ft8DecodeMetadata { start_offset_millis: start, audio_frequency_hz: frequency, signal_to_noise_db: snr },
        message: ClassifiedFt8Message::FreeText(FreeTextFt8Message::new(text).unwrap()),
    }
}

#[test]
fn merged_decodes_keep_the_strongest_copy_of_each_signal_in_order() {
    let merged = merge_decodes(vec![
        decode(200, 1_000, -20, "HELLO"),
        decode(100, 1_500, -10, "WORLD"),
        decode(200, 1_000, -5, "HELLO"),
        decode(100, 1_500, -12, "WORLD"),
        decode(100, 500, -7, "HELLO"),
    ]);
    assert_eq!(merged.len(), 3);
    assert_eq!(merged[0].metadata.audio_frequency_hz, 500);
    assert_eq!(merged[1].metadata.audio_frequency_hz, 1_500);
    assert_eq!(merged[1].metadata.signal_to_noise_db, -10);
    assert_eq!(merged[2].metadata.start_offset_millis, 200);
    assert_eq!(merged[2].metadata.signal_to_noise_db, -5);
    assert!(merge_decodes(Vec::new()).is_empty());
}

#[test]
fn decoder_accepts_only_one_mono_12_khz_slot() {
    let mono = PcmFormat::new(12_000, 1, PcmSampleFormat::Signed16LittleEndian).unwrap();
    let slot = PcmBuffer::new(mono, vec![0; FT8_SLOT_SAMPLES as usize]).unwrap();
    assert!(is_decodable_window(&slot));
    let short = PcmBuffer::new(mono, vec![0; FT8_SLOT_SAMPLES as usize - 1]).unwrap();
    assert!(!is_decodable_window(&short));
    let stereo = PcmFormat::new(12_000, 2, PcmSampleFormat::Signed16LittleEndian).unwrap();
    assert!(!is_decodable_window(&PcmBuffer::new(stereo, vec![0; 4]).unwrap()));
    let fast = PcmFormat::new(48_000, 1, PcmSampleFormat::Signed16LittleEndian).unwrap();
    assert!(!is_decodable_window(&PcmBuffer::new(fast, vec![0; FT8_SLOT_SAMPLES as usize]).unwrap()));
}
