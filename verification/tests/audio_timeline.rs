use slotpilot::audio::timeline::{
    interpolate, Ft8ReceiveTimeline, IncompleteFt8Slot, IncompleteSlotReason, ReceiveTimelineError, ReceiveTimelineEvent,
};
use slotpilot::audio::{
    CaptureBatch, CaptureDiagnostics, CaptureDiscontinuity, CaptureDiscontinuityKind, CapturePosition,
    CaptureTimeEvidence, InputConfiguration, InputSampleFormat, ProcessGeneration, ReceiveAudioError, StreamGeneration,
    FT8_RECEIVE_WINDOW_SAMPLES,
};

fn configuration(rate: u32) -> InputConfiguration {
    InputConfiguration::new(rate, 1, InputSampleFormat::Signed16, 0).unwrap()
}

fn batch(
    rate: u32,
    position: u64,
    frames: usize,
    utc_start: i64,
    monotonic_start: u64,
    discontinuity: Option<CaptureDiscontinuity>,
) -> CaptureBatch {
    let elapsed = position.saturating_mul(1_000) / u64::from(rate);
    CaptureBatch::new(
        ProcessGeneration::new(1).unwrap(),
        StreamGeneration::new(1).unwrap(),
        configuration(rate),
        CaptureTimeEvidence::new(
            CapturePosition::from_frames(position),
            utc_start + i64::try_from(elapsed).unwrap(),
            monotonic_start + elapsed,
        )
        .unwrap(),
        discontinuity,
        CaptureDiagnostics::new(0, 1).unwrap(),
        (0..frames).map(|index| i16::try_from(index % 2_000).unwrap() - 1_000).collect(),
    )
    .unwrap()
}

fn timeline(rate: u32) -> Ft8ReceiveTimeline {
    Ft8ReceiveTimeline::new(ProcessGeneration::new(1).unwrap(), StreamGeneration::new(1).unwrap(), configuration(rate))
}

fn run_duration(rate: u32, utc_start: i64, duration_millis: u64) -> Vec<ReceiveTimelineEvent> {
    let mut timeline = timeline(rate);
    let total = usize::try_from(u64::from(rate).saturating_mul(duration_millis).saturating_div(1_000)).unwrap() + 1;
    let mut position = 0usize;
    let mut events = Vec::new();
    while position < total {
        let frames = (total - position).min(4_096);
        let discontinuity = (position == 0).then_some(CaptureDiscontinuity {
            at: CapturePosition::from_frames(0),
            kind: CaptureDiscontinuityKind::StreamRestart,
            dropped_frames: 0,
        });
        let batch = batch(rate, position as u64, frames, utc_start, 1_000, discontinuity);
        events.extend(timeline.push(&batch, batch.first_frame.monotonic_millis).unwrap());
        position += frames;
    }
    events
}

fn run_slot(rate: u32, utc_start: i64) -> Vec<ReceiveTimelineEvent> {
    run_duration(rate, utc_start, 15_000)
}

#[test]
fn exact_boundary_common_rates_produce_one_canonical_window() {
    for rate in [8_000, 12_000, 44_100, 48_000, 96_000] {
        let events = run_slot(rate, 30_000);
        let windows = events
            .iter()
            .filter_map(|event| match event {
                ReceiveTimelineEvent::Window(window) => Some(window),
                ReceiveTimelineEvent::Incomplete(_) => None,
            })
            .collect::<Vec<_>>();
        assert_eq!(windows.len(), 1, "rate {rate}");
        assert_eq!(windows[0].slot_start_utc_millis, 30_000);
        assert_eq!(windows[0].samples().len(), FT8_RECEIVE_WINDOW_SAMPLES);
        assert_eq!(windows[0].sample_rate_hz(), 12_000);
    }
}

#[test]
fn post_boundary_capture_is_withheld_not_padded() {
    let events = run_slot(12_000, 30_100);
    assert!(events.iter().all(|event| !matches!(event, ReceiveTimelineEvent::Window(_))));
}

#[test]
fn pre_boundary_capture_discards_only_the_partial_lead_in() {
    let events = run_duration(12_000, 29_900, 15_100);
    assert!(matches!(
        events.first(),
        Some(ReceiveTimelineEvent::Incomplete(IncompleteFt8Slot {
            slot,
            reason: IncompleteSlotReason::CaptureStartedLate,
            ..
        })) if slot.start_utc_unix_millis() == 15_000
    ));
    let window = events.iter().find_map(|event| match event {
        ReceiveTimelineEvent::Window(window) => Some(window),
        ReceiveTimelineEvent::Incomplete(_) => None,
    });
    assert_eq!(window.unwrap().slot_start_utc_millis, 30_000);
}

#[test]
fn gap_overlap_out_of_order_and_discontinuity_are_typed() {
    let mut timeline = timeline(48_000);
    let first = batch(48_000, 0, 100, 30_000, 1_000, None);
    timeline.push(&first, 1_000).unwrap();
    let overlap = batch(48_000, 99, 10, 30_000, 1_000, None);
    assert_eq!(timeline.push(&overlap, overlap.first_frame.monotonic_millis), Err(ReceiveTimelineError::Overlap { frames: 1 }));
    let gap = batch(48_000, 101, 10, 30_000, 1_000, None);
    assert_eq!(timeline.push(&gap, gap.first_frame.monotonic_millis), Err(ReceiveTimelineError::Gap { frames: 1 }));
    let mut out_of_order_timeline = self::timeline(48_000);
    let later = batch(48_000, 100, 10, 30_000, 1_000, None);
    out_of_order_timeline.push(&later, later.first_frame.monotonic_millis).unwrap();
    let out_of_order = batch(48_000, 0, 10, 30_000, 1_000, None);
    assert_eq!(
        out_of_order_timeline.push(&out_of_order, out_of_order.first_frame.monotonic_millis),
        Err(ReceiveTimelineError::OutOfOrder)
    );
    let marked = batch(
        48_000,
        111,
        10,
        30_000,
        1_000,
        Some(CaptureDiscontinuity {
            at: CapturePosition::from_frames(111),
            kind: CaptureDiscontinuityKind::Overflow,
            dropped_frames: 1,
        }),
    );
    assert_eq!(
        timeline.push(&marked, marked.first_frame.monotonic_millis),
        Err(ReceiveTimelineError::Discontinuity(CaptureDiscontinuityKind::Overflow))
    );
}

#[test]
fn jitter_drift_clock_jump_and_late_data_are_deterministic() {
    let mut timeline = timeline(48_000);
    let first = batch(48_000, 0, 100, 30_000, 1_000, None);
    timeline.push(&first, 1_000).unwrap();

    let mut jitter = batch(48_000, 100, 100, 30_000, 1_000, None);
    jitter.first_frame.monotonic_millis += 10;
    jitter.first_frame.utc_unix_millis += 10;
    timeline.push(&jitter, jitter.first_frame.monotonic_millis).unwrap();
    assert_eq!(timeline.health().max_jitter_millis, 10);

    let mut remapped = batch(48_000, 200, 100, 30_000, 1_000, None);
    remapped.first_frame.monotonic_millis += 12;
    remapped.first_frame.utc_unix_millis += 62;
    assert!(matches!(
        timeline.push(&remapped, remapped.first_frame.monotonic_millis),
        Err(ReceiveTimelineError::ClockRemapped { .. })
    ));

    let mut late_timeline = self::timeline(48_000);
    assert_eq!(late_timeline.push(&first, 3_001), Err(ReceiveTimelineError::LateData { millis: 2_001 }));
    assert_eq!(late_timeline.health().late_batch_count, 1);

    let mut drift_timeline = self::timeline(48_000);
    drift_timeline.push(&first, 1_000).unwrap();
    let mut position = 100_u64;
    while position < 48_100 {
        let frames = usize::try_from((48_100 - position).min(8_192)).unwrap();
        let ordinary = batch(48_000, position, frames, 30_000, 1_000, None);
        drift_timeline.push(&ordinary, ordinary.first_frame.monotonic_millis).unwrap();
        position += u64::try_from(frames).unwrap();
    }
    let mut drifted = batch(48_000, 48_100, 100, 30_000, 1_000, None);
    drifted.first_frame.monotonic_millis += 10;
    drifted.first_frame.utc_unix_millis += 10;
    assert!(matches!(
        drift_timeline.push(&drifted, drifted.first_frame.monotonic_millis),
        Err(ReceiveTimelineError::ExcessiveDrift { .. })
    ));
}

#[test]
fn generation_configuration_and_restart_boundaries_do_not_share_state() {
    let mut timeline = timeline(48_000);
    let mut wrong_stream = batch(48_000, 0, 10, 30_000, 1_000, None);
    wrong_stream.stream_generation = StreamGeneration::new(2).unwrap();
    assert_eq!(timeline.push(&wrong_stream, 1_000), Err(ReceiveTimelineError::StreamGenerationChanged));
    let wrong_config = batch(44_100, 0, 10, 30_000, 1_000, None);
    assert_eq!(timeline.push(&wrong_config, 1_000), Err(ReceiveTimelineError::ConfigurationChanged));
}

#[test]
fn interpolation_is_checked_and_reproducible() {
    assert_eq!(interpolate(-1_000, 1_000, 1, 2).unwrap(), 0);
    assert_eq!(interpolate(i16::MIN, i16::MAX, 1, 2).unwrap(), 0);
    assert_eq!(interpolate(0, 1, 2, 1), Err(ReceiveTimelineError::ArithmeticOverflow));
    assert_eq!(
        CaptureBatch::new(
            ProcessGeneration::new(1).unwrap(),
            StreamGeneration::new(1).unwrap(),
            configuration(48_000),
            CaptureTimeEvidence::new(CapturePosition::from_frames(0), 30_000, 1_000).unwrap(),
            None,
            CaptureDiagnostics::new(0, 0).unwrap(),
            Vec::new(),
        ),
        Err(ReceiveAudioError::InvalidBatchShape)
    );
}

#[test]
fn interpolation_rounds_half_away_from_zero() {
    assert_eq!(interpolate(0, 3, 1, 2).unwrap(), 2);
    assert_eq!(interpolate(0, -3, 1, 2).unwrap(), -2);
    assert_eq!(interpolate(10, 20, 0, 3).unwrap(), 10);
    assert_eq!(interpolate(10, 20, 3, 3).unwrap(), 20);
    assert_eq!(interpolate(0, 1, 0, 0), Err(ReceiveTimelineError::ArithmeticOverflow));
}

#[test]
fn a_gap_advances_past_the_rejected_batch() {
    let mut timeline = timeline(12_000);
    let first = batch(12_000, 0, 100, 30_000, 1_000, None);
    timeline.push(&first, 1_000).unwrap();
    let gap = batch(12_000, 105, 10, 30_000, 1_000, None);
    assert_eq!(timeline.push(&gap, gap.first_frame.monotonic_millis), Err(ReceiveTimelineError::Gap { frames: 5 }));
    let stale = batch(12_000, 100, 10, 30_000, 1_000, None);
    assert_eq!(timeline.push(&stale, stale.first_frame.monotonic_millis), Err(ReceiveTimelineError::OutOfOrder));
    let next = batch(12_000, 115, 10, 30_000, 1_000, None);
    assert!(timeline.push(&next, next.first_frame.monotonic_millis).is_ok());
}
