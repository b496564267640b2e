use slotpilot::domain::callsign::FullCallsign;
use slotpilot::protocol::wave_file::{decode_pcm_wave, encode_pcm_wave, PcmWaveError};
use slotpilot::protocol::{
    AmbiguousFt8Message, ClassifiedFt8Message, Ft8Decode, Ft8DecodeMetadata, Ft8MessageClass, Ft8MessageError,
    FreeTextFt8Message, PcmBuffer, PcmError, PcmFormat, PcmSampleFormat, ResolvedFt8Message, UnresolvedHashFt8Message,
    UnsupportedFt8Message,
};

fn call(text: &str) -> FullCallsign {
    text.parse().unwrap()
}

fn directed_message() -> ResolvedFt8Message {
    ResolvedFt8Message::new("K1ABC W1AW -12", call("K1ABC"), Some(call("W1AW")), Ft8MessageClass::SignalReport).unwrap()
}

#[test]
fn full_callsign_identity_is_preserved() {
    let message = ResolvedFt8Message::new("CQ W1AW/1 FN31", call("W1AW/1"), None, Ft8MessageClass::GeneralCall).unwrap();
    assert_eq!(message.sender().original(), "W1AW/1");
    assert_eq!(message.sender().base().as_str(), "W1AW");
}

#[test]
fn resolved_addressing_shape_is_checked() {
    assert_eq!(
        ResolvedFt8Message::new("K1ABC W1AW -12", call("K1ABC"), None, Ft8MessageClass::SignalReport),
        Err(Ft8MessageError::InvalidAddressing)
    );
    assert_eq!(
        ResolvedFt8Message::new("CQ K1ABC FN42", call("K1ABC"), Some(call("W1AW")), Ft8MessageClass::GeneralCall),
        Err(Ft8MessageError::InvalidAddressing)
    );
}

#[test]
fn non_resolved_outcomes_require_a_failing_checked_conversion() {
    let outcomes = [
        ClassifiedFt8Message::UnresolvedHash(UnresolvedHashFt8Message::new("<...> W1AW -12", "sender hash unresolved").unwrap()),
        ClassifiedFt8Message::Unsupported(UnsupportedFt8Message::new("K1ABC W1AW 123456", "unsupported structured subtype").unwrap()),
        ClassifiedFt8Message::Ambiguous(AmbiguousFt8Message::new("K1ABC W1AW", "two interpretations remain").unwrap()),
        ClassifiedFt8Message::FreeText(FreeTextFt8Message::new("HELLO WORLD").unwrap()),
    ];
    for outcome in outcomes {
        let kind = outcome.kind();
        assert_eq!(outcome.try_into_resolved(), Err(Ft8MessageError::NotResolved { actual: kind }));
    }
}

#[test]
fn decode_results_have_an_owned_deterministic_order() {
    let mut results = vec![
        Ft8Decode {
            metadata: Ft8DecodeMetadata { start_offset_millis: 200, audio_frequency_hz: 1_000, signal_to_noise_db: -20 },
            message: ClassifiedFt8Message::Resolved(directed_message()),
        },
        Ft8Decode {
            metadata: Ft8DecodeMetadata { start_offset_millis: 100, audio_frequency_hz: 1_500, signal_to_noise_db: -10 },
            message: ClassifiedFt8Message::FreeText(FreeTextFt8Message::new("HELLO WORLD").unwrap()),
        },
        Ft8Decode {
            metadata: Ft8DecodeMetadata { start_offset_millis: 100, audio_frequency_hz: 500, signal_to_noise_db: -5 },
            message: ClassifiedFt8Message::Resolved(directed_message()),
        },
    ];
    Ft8Decode::sort_deterministically(&mut results);
    assert_eq!(results[0].metadata.audio_frequency_hz, 500);
    assert_eq!(results[1].metadata.audio_frequency_hz, 1_500);
    assert_eq!(results[2].metadata.start_offset_millis, 200);
}

#[test]
fn pcm_metadata_has_explicit_units_and_complete_frames() {
    let format = PcmFormat::new(12_000, 2, PcmSampleFormat::Signed16LittleEndian).unwrap();
    let buffer = PcmBuffer::new(format, vec![1, -1, 2, -2]).unwrap();
    assert_eq!(buffer.format().sample_rate_hz(), 12_000);
    assert_eq!(buffer.format().channels(), 2);
    assert_eq!(buffer.duration().frames(), 2);
    assert_eq!(buffer.duration().microseconds(), 166);
    assert_eq!(PcmBuffer::new(format, vec![1, 2, 3]), Err(PcmError::IncompleteFrame));
}

fn canonical_format() -> PcmFormat {
    PcmFormat::new(12_000, 1, PcmSampleFormat::Signed16LittleEndian).unwrap()
}

#[test]
fn silence_wave_round_trip_is_lossless() {
    let silence = PcmBuffer::new(canonical_format(), vec![0; 180_000]).unwrap();
    let wave = encode_pcm_wave(&silence).unwrap();
    let parsed = decode_pcm_wave(&wave).unwrap();
    assert_eq!(parsed, silence);
}

#[test]
fn wave_export_preserves_canonical_header_and_pcm_bytes_in_memory() {
    let buffer = PcmBuffer::new(canonical_format(), vec![0, 1, -1, 32_767, -32_768, 1_234]).unwrap();
    let wave = encode_pcm_wave(&buffer).unwrap();
    assert_eq!(&wave[0..4], b"RIFF");
    assert_eq!(u32::from_le_bytes([wave[4], wave[5], wave[6], wave[7]]) as usize, 36 + buffer.samples().len() * 2);
    assert_eq!(&wave[8..12], b"WAVE");
    assert_eq!(&wave[12..16], b"fmt ");
    assert_eq!(u16::from_le_bytes([wave[20], wave[21]]), 1);
    assert_eq!(u16::from_le_bytes([wave[22], wave[23]]), 1);
    assert_eq!(u32::from_le_bytes([wave[24], wave[25], wave[26], wave[27]]), 12_000);
    assert_eq!(u16::from_le_bytes([wave[34], wave[35]]), 16);
    assert_eq!(&wave[36..40], b"data");
    assert_eq!(u32::from_le_bytes([wave[40], wave[41], wave[42], wave[43]]) as usize, buffer.samples().len() * 2);
    assert_eq!(wave.len(), 44 + buffer.samples().len() * 2);
    for (encoded, sample) in wave[44..].chunks_exact(2).zip(buffer.samples()) {
        assert_eq!(encoded, sample.to_le_bytes());
    }
    assert_eq!(decode_pcm_wave(&wave).unwrap(), buffer);
}

#[test]
fn malformed_and_truncated_waves_are_typed_failures() {
    let buffer = PcmBuffer::new(canonical_format(), vec![5, 6]).unwrap();
    let wave = encode_pcm_wave(&buffer).unwrap();
    assert_eq!(decode_pcm_wave(&wave[..10]), Err(PcmWaveError::Truncated));
    let mut not_riff = wave.clone();
    not_riff[0] = b'X';
    assert_eq!(decode_pcm_wave(&not_riff), Err(PcmWaveError::InvalidStructure));
    let mut eight_bit = wave.clone();
    eight_bit[34] = 8;
    assert_eq!(decode_pcm_wave(&eight_bit), Err(PcmWaveError::UnsupportedFormat));
}

#[test]
fn wave_missing_its_last_byte_is_truncated() {
    let buffer = PcmBuffer::new(canonical_format(), vec![5, 6, 7]).unwrap();
    let wave = encode_pcm_wave(&buffer).unwrap();
    assert_eq!(decode_pcm_wave(&wave[..wave.len() - 1]), Err(PcmWaveError::Truncated));
    assert_eq!(decode_pcm_wave(&wave[..43]), Err(PcmWaveError::Truncated));
}

#[test]
fn wave_with_a_compressed_encoding_is_unsupported() {
    let buffer = PcmBuffer::new(canonical_format(), vec![5, 6]).unwrap();
    let mut wave = encode_pcm_wave(&buffer).unwrap();
    wave[20] = 3;
    assert_eq!(decode_pcm_wave(&wave), Err(PcmWaveError::UnsupportedFormat));
}

#[test]
fn one_slot_wave_round_trip_keeps_format_duration_and_samples() {
    let samples: Vec<i16> = (0..180_000).map(|i| ((i * 7919) % 65_536 - 32_768) as i16).collect();
    let buffer = PcmBuffer::new(canonical_format(), samples).unwrap();
    let parsed = decode_pcm_wave(&encode_pcm_wave(&buffer).unwrap()).unwrap();
    assert_eq!(parsed.format(), buffer.format());
    assert_eq!(parsed.duration(), buffer.duration());
    assert_eq!(parsed.samples(), buffer.samples());
}

#[test]
fn message_text_bounds_are_checked() {
    assert!(FreeTextFt8Message::new("").is_err());
    assert_eq!(ClassifiedFt8Message::FreeText(FreeTextFt8Message::new("HI").unwrap()).canonical_text(), "HI");
}
