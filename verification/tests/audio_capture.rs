use std::sync::Arc;

use slotpilot::audio::capture::{
    backend_fault_kind, callback_timing, map_discovery_error, map_open_error, normalize_signed24, normalize_unsigned24,
    BackendErrorKind, CallbackClock, CallbackOutcome, CallbackState, CallbackTiming, ClockReading, InputCaptureError,
    NormalizeSample, PlatformSample, SharedCapture, CALLBACK_DELAY_FAULT_MILLIS,
    MAX_CAPTURE_QUEUE_BATCHES,
};
use slotpilot::audio::{
    CaptureDiscontinuity, CaptureDiscontinuityKind, CapturePosition, InputConfiguration, InputDiscoveryError,
    InputFaultKind, InputSampleFormat, ProcessGeneration, StreamGeneration,
};

struct FixedClock;

impl CallbackClock for FixedClock {
    fn reading(&self) -> ClockReading {
        ClockReading { utc_unix_millis: 30_000, monotonic_millis: 1_000 }
    }
}

fn normalize_float(value: f64) -> Option<(i16, bool)> {
    if !value.is_finite() {
        return None;
    }
    let clipped = !(-1.0..=1.0).contains(&value) || value == -1.0 || value == 1.0;
    let value = value.clamp(-1.0, 1.0);
    let scaled = if value >= 0.0 { value * f64::from(i16::MAX) } else { value * -f64::from(i16::MIN) };
    Some((scaled.round() as i16, clipped))
}

/// Float callback samples, scaled as the platform layer scales them.
fn float_frames(samples: &[f32]) -> Vec<PlatformSample> {
    samples
        .iter()
        .map(|value| match normalize_float(f64::from(*value)) {
            Some((value, clipped)) => PlatformSample::Sample { value, clipped },
            None => PlatformSample::Unrepresentable,
        })
        .collect()
}

fn configuration(channels: u16, selected_channel: u16, format: InputSampleFormat) -> InputConfiguration {
    InputConfiguration::new(48_000, channels, format, selected_channel).unwrap()
}

fn harness(
    capacity: usize,
    stream_generation: u64,
    configuration: InputConfiguration,
) -> (Arc<SharedCapture>, CallbackState<FixedClock>) {
    let shared = SharedCapture::new(
        configuration,
        ProcessGeneration::new(1).unwrap(),
        StreamGeneration::new(stream_generation).unwrap(),
        capacity,
    )
    .unwrap();
    let callback = CallbackState::new(Arc::clone(&shared), Arc::new(FixedClock));
    (shared, callback)
}

const fn timing() -> CallbackTiming {
    CallbackTiming { utc_unix_millis: 30_000, monotonic_millis: 1_000, callback_delay_millis: 4 }
}

fn ints(samples: &[i16]) -> &[i16] {
    samples
}

#[test]
fn queue_capacity_is_bounded_before_any_stream_can_open() {
    let config = configuration(1, 0, InputSampleFormat::Signed16);
    let generation = ProcessGeneration::new(1).unwrap();
    let stream = StreamGeneration::new(1).unwrap();
    assert_eq!(SharedCapture::new(config, generation, stream, 1).err(), Some(InputCaptureError::InvalidQueueCapacity));
    assert_eq!(
        SharedCapture::new(config, generation, stream, MAX_CAPTURE_QUEUE_BATCHES + 1).err(),
        Some(InputCaptureError::InvalidQueueCapacity)
    );
}

#[test]
fn selected_channel_is_scaled_into_mono_without_callback_allocation() {
    let (shared, mut callback) = harness(2, 1, configuration(2, 1, InputSampleFormat::Float32));
    callback.process(&float_frames(&[0.75_f32, -1.0, -0.75, 0.5]), timing());
    let batch = shared.next_batch().unwrap().unwrap();
    assert_eq!(batch.samples(), &[i16::MIN, 16_384]);
    assert_eq!(batch.frame_count(), 2);
    assert_eq!(batch.discontinuity.unwrap().kind, CaptureDiscontinuityKind::StreamRestart);
    assert_eq!(batch.diagnostics.clipped_samples, 1);
    assert_eq!(shared.next_fault().unwrap().kind, InputFaultKind::Clipping { sample_count: 1 });
}

#[test]
fn sustained_pressure_drops_new_frames_and_marks_the_next_batch() {
    let (shared, mut callback) = harness(2, 1, configuration(1, 0, InputSampleFormat::Signed16));
    callback.process(ints(&[1, 2]), timing());
    callback.process(ints(&[3, 4]), timing());
    callback.process(ints(&[5, 6, 7]), timing());
    assert_eq!(shared.health().unwrap().overflow_count, 1);
    assert_eq!(shared.next_fault().unwrap().kind, InputFaultKind::Overflow { dropped_frames: 3 });

    let first = shared.next_batch().unwrap().unwrap();
    assert_eq!(first.samples(), &[1, 2]);
    callback.process(ints(&[8, 9]), timing());
    let second = shared.next_batch().unwrap().unwrap();
    assert_eq!(second.samples(), &[3, 4]);
    let resumed = shared.next_batch().unwrap().unwrap();
    assert_eq!(resumed.samples(), &[8, 9]);
    assert_eq!(
        resumed.discontinuity,
        Some(CaptureDiscontinuity {
            at: CapturePosition::from_frames(7),
            kind: CaptureDiscontinuityKind::Overflow,
            dropped_frames: 3,
        })
    );
}

#[test]
fn every_supported_format_has_checked_endpoint_scaling() {
    assert_eq!(i8::MIN.normalize(), Some((i16::MIN, true)));
    assert_eq!(i8::MAX.normalize(), Some((i16::MAX, true)));
    assert_eq!(i16::MIN.normalize(), Some((i16::MIN, true)));
    assert_eq!(i16::MAX.normalize(), Some((i16::MAX, true)));
    assert_eq!(i32::MIN.normalize(), Some((i16::MIN, true)));
    assert_eq!(i32::MAX.normalize(), Some((i16::MAX, true)));
    assert_eq!(i64::MIN.normalize(), Some((i16::MIN, true)));
    assert_eq!(i64::MAX.normalize(), Some((i16::MAX, true)));
    assert_eq!(0_u8.normalize(), Some((i16::MIN, true)));
    assert_eq!(u8::MAX.normalize(), Some((i16::MAX, true)));
    assert_eq!(0_u16.normalize(), Some((i16::MIN, true)));
    assert_eq!(u16::MAX.normalize(), Some((i16::MAX, true)));
    assert_eq!(0_u32.normalize(), Some((i16::MIN, true)));
    assert_eq!(u32::MAX.normalize(), Some((i16::MAX, true)));
    assert_eq!(0_u64.normalize(), Some((i16::MIN, true)));
    assert_eq!(u64::MAX.normalize(), Some((i16::MAX, true)));
    assert_eq!(normalize_signed24(-8_388_608), Some((i16::MIN, true)));
    assert_eq!(normalize_unsigned24(16_777_215), Some((i16::MAX, true)));
}

#[test]
fn midscale_values_round_toward_zero() {
    assert_eq!(0_i16.normalize(), Some((0, false)));
    assert_eq!(64_i8.normalize(), Some((16_512, false)));
    assert_eq!((-64_i8).normalize(), Some((-16_384, false)));
    assert_eq!(128_u8.normalize(), Some((0, false)));
    assert_eq!(normalize_signed24(9_000_000), None);
    assert_eq!(normalize_unsigned24(20_000_000), None);
}

#[test]
fn backend_error_stops_processing_and_is_typed() {
    let (shared, mut callback) = harness(2, 1, configuration(1, 0, InputSampleFormat::Float32));
    assert_eq!(callback.process(&float_frames(&[f32::NAN]), timing()), CallbackOutcome::Faulted);
    assert!(shared.is_stopped());
    assert_eq!(shared.next_fault().unwrap().kind, InputFaultKind::BackendFailure);
    assert_eq!(callback.process(&float_frames(&[0.5]), timing()), CallbackOutcome::Ignored);
    assert!(shared.next_batch().unwrap().is_none());
}

#[test]
fn device_loss_stops_capture_without_discarding_the_exact_identity_contract() {
    let (shared, _) = harness(2, 1, configuration(1, 0, InputSampleFormat::Signed16));
    shared.emit_fault(999, InputFaultKind::Overflow { dropped_frames: 1 });
    shared.stop_for_backend_error(BackendErrorKind::DeviceNotAvailable, &FixedClock);
    assert!(shared.is_stopped());
    let fault = shared.next_fault().unwrap();
    assert_eq!(fault.kind, InputFaultKind::DeviceLost);
    assert_eq!(fault.monotonic_millis, 1_000);
    assert_eq!(shared.next_fault().unwrap().kind, InputFaultKind::Overflow { dropped_frames: 1 });
}

#[test]
fn explicit_shutdown_discards_ready_batches() {
    let (shared, mut callback) = harness(2, 1, configuration(1, 0, InputSampleFormat::Signed16));
    callback.process(ints(&[1, 2]), timing());
    assert_eq!(shared.request_stop(), Ok(()));
    assert_eq!(shared.request_stop(), Err(InputCaptureError::Stopped));
    shared.discard_ready();
    assert!(shared.next_batch().unwrap().is_none());
}

#[test]
fn callback_delay_is_bounded_observable_health() {
    let (shared, mut callback) = harness(2, 1, configuration(1, 0, InputSampleFormat::Signed16));
    callback.process(ints(&[0]), CallbackTiming { callback_delay_millis: CALLBACK_DELAY_FAULT_MILLIS + 1, ..timing() });
    assert_eq!(shared.next_fault().unwrap().kind, InputFaultKind::CallbackDelay { millis: CALLBACK_DELAY_FAULT_MILLIS + 1 });
    assert_eq!(shared.health().unwrap().max_callback_delay_millis, CALLBACK_DELAY_FAULT_MILLIS + 1);
}

#[test]
fn reopen_uses_fresh_generation_and_cannot_retain_stale_samples() {
    let (old_shared, mut old_callback) = harness(2, 1, configuration(1, 0, InputSampleFormat::Signed16));
    old_callback.process(ints(&[1]), timing());
    old_shared.request_stop().unwrap();
    old_shared.discard_ready();

    let (new_shared, mut new_callback) = harness(2, 2, configuration(1, 0, InputSampleFormat::Signed16));
    new_callback.process(ints(&[2]), timing());
    assert!(old_shared.next_batch().unwrap().is_none());
    let batch = new_shared.next_batch().unwrap().unwrap();
    assert_eq!(batch.stream_generation, StreamGeneration::new(2).unwrap());
    assert_eq!(batch.samples(), &[2]);
}

#[test]
fn every_frame_advances_the_position_once() {
    let (shared, mut callback) = harness(2, 1, configuration(2, 0, InputSampleFormat::Signed16));
    assert_eq!(
        callback.process(ints(&[1, 10, 2, 20]), timing()),
        CallbackOutcome::Completed { frames: 2, queued_frames: 2, dropped_frames: 0 }
    );
    assert_eq!(
        callback.process(ints(&[3, 30]), timing()),
        CallbackOutcome::Completed { frames: 1, queued_frames: 1, dropped_frames: 0 }
    );
    assert_eq!(
        callback.process(ints(&[4, 40, 5, 50]), timing()),
        CallbackOutcome::Completed { frames: 2, queued_frames: 0, dropped_frames: 2 }
    );
    assert_eq!(callback.position().frames(), 5);
    assert_eq!(shared.next_batch().unwrap().unwrap().samples(), &[1, 2]);
    assert_eq!(callback.process(ints(&[1, 2, 3]), timing()), CallbackOutcome::Faulted);
}

#[test]
fn callback_timing_subtracts_the_bounded_delay() {
    let reading = ClockReading { utc_unix_millis: 30_000, monotonic_millis: 1_000 };
    assert_eq!(
        callback_timing(reading, 5),
        CallbackTiming { utc_unix_millis: 29_995, monotonic_millis: 995, callback_delay_millis: 5 }
    );
    assert_eq!(
        callback_timing(reading, 1_000_000),
        CallbackTiming { utc_unix_millis: -30_000, monotonic_millis: 0, callback_delay_millis: 60_000 }
    );
}

#[test]
fn backend_errors_map_to_typed_failures() {
    assert_eq!(map_open_error(BackendErrorKind::PermissionDenied), InputCaptureError::PermissionDenied);
    assert_eq!(map_open_error(BackendErrorKind::StreamInvalidated), InputCaptureError::DeviceLost);
    assert_eq!(map_open_error(BackendErrorKind::InvalidInput), InputCaptureError::UnsupportedConfiguration);
    assert_eq!(map_open_error(BackendErrorKind::HostUnavailable), InputCaptureError::BackendFailure);
    assert_eq!(map_discovery_error(InputDiscoveryError::IdentityUnavailable), InputCaptureError::UnsupportedConfiguration);
    assert_eq!(map_discovery_error(InputDiscoveryError::NoInputDevices), InputCaptureError::BackendFailure);
    assert_eq!(backend_fault_kind(BackendErrorKind::DeviceChanged), InputFaultKind::DeviceLost);
    assert_eq!(backend_fault_kind(BackendErrorKind::Other), InputFaultKind::BackendFailure);
}
