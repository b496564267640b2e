use slotpilot::audio::{
    CaptureBatch, CaptureDiagnostics, CaptureDiscontinuity, CaptureDiscontinuityKind, CapturePosition,
    CaptureSequence, CaptureSequenceError, CaptureTimeEvidence, Ft8ReceiveWindow, InputConfiguration,
    InputConfigurationRange, InputDeviceDescriptor, InputDeviceDisplay, InputDeviceIdentity, InputPlatform,
    InputSampleFormat, ProcessGeneration, ReceiveAudioError, StreamGeneration, FT8_RECEIVE_WINDOW_SAMPLES,
    MAX_CAPTURE_BATCH_FRAMES,
};

fn config(channels: u16) -> InputConfiguration {
    InputConfiguration::new(48_000, channels, InputSampleFormat::Float32, 0).unwrap()
}

fn batch(
    process: u64,
    stream: u64,
    position: u64,
    monotonic: u64,
    frames: usize,
    discontinuity: Option<CaptureDiscontinuity>,
) -> CaptureBatch {
    CaptureBatch::new(
        ProcessGeneration::new(process).unwrap(),
        StreamGeneration::new(stream).unwrap(),
        config(1),
        CaptureTimeEvidence::new(CapturePosition::from_frames(position), 30_000, monotonic).unwrap(),
        discontinuity,
        CaptureDiagnostics::new(0, 1).unwrap(),
        vec![0; frames],
    )
    .unwrap()
}

#[test]
fn display_metadata_cannot_be_used_as_stable_identity() {
    let identity = InputDeviceIdentity::new(InputPlatform::MacOsCoreAudio, "uid:123".to_string()).unwrap();
    let display = InputDeviceDisplay::new("USB Audio".to_string(), None).unwrap();
    let range = InputConfigurationRange::new(48_000, 48_000, 2, InputSampleFormat::Float32).unwrap();
    let descriptor = InputDeviceDescriptor::new(identity.clone(), display, vec![range]).unwrap();
    assert_eq!(descriptor.identity(), &identity);
    assert_eq!(descriptor.display().name(), "USB Audio");
    assert_ne!(descriptor.identity().opaque_id(), descriptor.display().name());
}

#[test]
fn invalid_rates_channels_formats_timestamps_and_sizes_are_typed() {
    assert_eq!(InputConfiguration::new(1, 1, InputSampleFormat::Signed16, 0), Err(ReceiveAudioError::InvalidSampleRate));
    assert_eq!(InputConfiguration::new(48_000, 0, InputSampleFormat::Signed16, 0), Err(ReceiveAudioError::InvalidChannelCount));
    assert_eq!(InputConfiguration::new(48_000, 1, InputSampleFormat::Signed16, 1), Err(ReceiveAudioError::InvalidSelectedChannel));
    assert_eq!(
        CaptureTimeEvidence::new(CapturePosition::from_frames(0), -1, 0),
        Err(ReceiveAudioError::InvalidUtcTimestamp)
    );
    let oversized = vec![0; MAX_CAPTURE_BATCH_FRAMES as usize + 1];
    assert_eq!(
        CaptureBatch::new(
            ProcessGeneration::new(1).unwrap(),
            StreamGeneration::new(1).unwrap(),
            config(1),
            CaptureTimeEvidence::new(CapturePosition::from_frames(0), 0, 0).unwrap(),
            None,
            CaptureDiagnostics::new(0, 0).unwrap(),
            oversized,
        ),
        Err(ReceiveAudioError::BatchTooLarge)
    );
}

#[test]
fn capture_sequence_rejects_regressions_and_unmarked_gaps() {
    let first = batch(1, 1, 0, 10, 4, None);
    let mut sequence = CaptureSequence::start(&first).unwrap();
    assert_eq!(sequence.observe(&batch(1, 1, 3, 11, 4, None)), Err(CaptureSequenceError::PositionRegressed));
    assert_eq!(sequence.observe(&batch(1, 1, 5, 12, 4, None)), Err(CaptureSequenceError::UnmarkedGap));
    assert_eq!(sequence.observe(&batch(1, 1, 4, 9, 4, None)), Err(CaptureSequenceError::MonotonicRegressed));
}

#[test]
fn explicit_discontinuity_allows_a_visible_gap() {
    let first = batch(1, 1, 0, 10, 4, None);
    let mut sequence = CaptureSequence::start(&first).unwrap();
    let discontinuity = CaptureDiscontinuity {
        at: CapturePosition::from_frames(8),
        kind: CaptureDiscontinuityKind::Overflow,
        dropped_frames: 4,
    };
    sequence.observe(&batch(1, 1, 8, 11, 4, Some(discontinuity))).unwrap();
}

#[test]
fn canonical_ft8_window_requires_exact_alignment_and_size() {
    let process = ProcessGeneration::new(1).unwrap();
    let stream = StreamGeneration::new(2).unwrap();
    let mapping = CaptureTimeEvidence::new(CapturePosition::from_frames(0), 30_000, 100).unwrap();
    let window = Ft8ReceiveWindow::new(process, stream, 30_000, mapping, vec![0; FT8_RECEIVE_WINDOW_SAMPLES]).unwrap();
    assert_eq!(window.sample_rate_hz(), 12_000);
    assert_eq!(window.samples().len(), 180_000);
    assert_eq!(
        Ft8ReceiveWindow::new(process, stream, 30_001, mapping, vec![0; 180_000]),
        Err(ReceiveAudioError::MisalignedFt8Window)
    );
    assert_eq!(
        Ft8ReceiveWindow::new(process, stream, 30_000, mapping, vec![0; 179_999]),
        Err(ReceiveAudioError::InvalidFt8WindowSize)
    );
}

#[test]
fn batch_end_position_and_generation_bounds() {
    let b = batch(1, 1, 10, 5, 4, None);
    assert_eq!(b.frame_count(), 4);
    assert_eq!(b.end_position().unwrap().frames(), 14);
    assert!(ProcessGeneration::new(0).is_err());
    assert!(StreamGeneration::new(0).is_err());
    assert!(CapturePosition::from_frames(u64::MAX).checked_advance(1).is_err());
}

