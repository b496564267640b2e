use std::cell::Cell;
use std::collections::VecDeque;

use slotpilot::audio::timeline::ReceiveTimelineEvent;
use slotpilot::audio::{CapturePosition, CaptureTimeEvidence, Ft8ReceiveWindow, ProcessGeneration, StreamGeneration, FT8_RECEIVE_WINDOW_SAMPLES};
use slotpilot::operations::receive_clock::{
    ClockGatedTimelineEvent, ClockProcessGeneration, GenerationClockSample, ReceiveClockConfig, ReceiveClockDriver,
    ReceiveClockError, ReceiveClockFault, ReceiveClockMonitor, ReceiveClockPoll, ReceiveClockSnapshot,
    ReceiveClockSource, ReceiveClockState, ReceiveClockTransition, SystemClock,
};
use slotpilot::operations::time::{ClockSample, MonotonicInstant, UtcInstant};

fn generation(value: u64) -> ClockProcessGeneration {
    ClockProcessGeneration::new(value).unwrap()
}

fn sample(generation_value: u64, utc: i64, monotonic: u64) -> GenerationClockSample {
    GenerationClockSample {
        generation: generation(generation_value),
        sample: ClockSample {
            utc: UtcInstant::from_unix_millis(utc).unwrap(),
            monotonic: MonotonicInstant::from_millis(monotonic),
        },
    }
}

fn monitor() -> ReceiveClockMonitor {
    ReceiveClockMonitor::new(sample(1, 30_000, 1_000), ReceiveClockConfig::default()).unwrap()
}

fn window(slot: i64, monotonic: u64) -> Ft8ReceiveWindow {
    Ft8ReceiveWindow::new(
        ProcessGeneration::new(1).unwrap(),
        StreamGeneration::new(1).unwrap(),
        slot,
        CaptureTimeEvidence::new(CapturePosition::from_frames(0), slot, monotonic).unwrap(),
        vec![0; FT8_RECEIVE_WINDOW_SAMPLES],
    )
    .unwrap()
}

#[test]
fn configuration_and_generation_are_bounded() {
    assert_eq!(ClockProcessGeneration::new(0), Err(ReceiveClockError::InvalidGeneration));
    assert_eq!(ReceiveClockConfig::new(1, 2_500, 5_000, 100, 250, 3), Err(ReceiveClockError::InvalidConfiguration));
    assert_eq!(ReceiveClockConfig::new(1_000, 500, 5_000, 100, 250, 3), Err(ReceiveClockError::InvalidConfiguration));
}

#[test]
fn exact_boundary_maps_to_monotonic_and_gates_window() {
    let mut monitor = monitor();
    let event = monitor.gate(ReceiveTimelineEvent::Window(window(30_000, 1_000)), MonotonicInstant::from_millis(1_100));
    match event {
        ClockGatedTimelineEvent::WindowReady { alignment, .. } => {
            assert_eq!(alignment.slot.start_utc_unix_millis(), 30_000);
            assert_eq!(alignment.slot_start_monotonic.millis(), 1_000);
            assert_eq!(alignment.mapping_age_millis, 100);
        }
        other => panic!("unexpected gate result: {other:?}"),
    }
    assert_eq!(monitor.next_sample_due().unwrap().millis(), 2_000);
}

#[test]
fn forward_and_backward_utc_jumps_latch_unhealthy() {
    for utc in [33_000, 29_000] {
        let mut monitor = monitor();
        let transition = monitor.observe(sample(1, utc, 2_000), MonotonicInstant::from_millis(2_000));
        assert!(matches!(
            transition,
            ReceiveClockTransition::BecameUnhealthy(ReceiveClockSnapshot {
                state: ReceiveClockState::Unhealthy { fault: ReceiveClockFault::UtcJump { .. }, .. },
                ..
            })
        ));
    }
}

#[test]
fn regression_delay_suspend_and_restart_are_distinct() {
    let mut regressed = monitor();
    assert!(matches!(
        regressed.observe(sample(1, 30_100, 900), MonotonicInstant::from_millis(900)),
        ReceiveClockTransition::BecameUnhealthy(ReceiveClockSnapshot {
            state: ReceiveClockState::Unhealthy { fault: ReceiveClockFault::TimelineRegressed, .. },
            ..
        })
    ));

    let mut delayed = monitor();
    assert!(matches!(
        delayed.observe(sample(1, 31_000, 2_000), MonotonicInstant::from_millis(2_251)),
        ReceiveClockTransition::BecameUnhealthy(ReceiveClockSnapshot {
            state: ReceiveClockState::Unhealthy { fault: ReceiveClockFault::SamplingDelayed { delay_millis: 251 }, .. },
            ..
        })
    ));

    let mut suspended = monitor();
    assert!(matches!(
        suspended.observe(sample(1, 36_001, 7_001), MonotonicInstant::from_millis(7_001)),
        ReceiveClockTransition::BecameUnhealthy(ReceiveClockSnapshot {
            state: ReceiveClockState::Unhealthy { fault: ReceiveClockFault::SampleGap { gap_millis: 6_001 }, .. },
            ..
        })
    ));

    let mut restarted = monitor();
    assert!(matches!(
        restarted.observe(sample(2, 31_000, 2_000), MonotonicInstant::from_millis(2_000)),
        ReceiveClockTransition::BecameUnhealthy(ReceiveClockSnapshot {
            state: ReceiveClockState::Unhealthy { fault: ReceiveClockFault::ProcessGenerationChanged, .. },
            ..
        })
    ));
}

#[test]
fn stale_or_misaligned_time_never_yields_a_ready_window() {
    let mut stale = monitor();
    let rejected = stale.gate(ReceiveTimelineEvent::Window(window(30_000, 1_000)), MonotonicInstant::from_millis(3_501));
    assert!(matches!(
        rejected,
        ClockGatedTimelineEvent::WindowRejected { fault: ReceiveClockFault::StaleMapping { age_millis: 2_501 }, .. }
    ));

    let mut misaligned = monitor();
    let rejected = misaligned.gate(ReceiveTimelineEvent::Window(window(30_000, 1_101)), MonotonicInstant::from_millis(1_100));
    assert!(matches!(
        rejected,
        ClockGatedTimelineEvent::WindowRejected {
            fault: ReceiveClockFault::WindowMisaligned { divergence_millis: 101 },
            ..
        }
    ));
}

#[test]
fn recovery_requires_three_visible_consistent_samples() {
    let mut monitor = monitor();
    monitor.observe(sample(1, 33_000, 2_000), MonotonicInstant::from_millis(2_000));
    for (index, (utc, monotonic)) in [(40_000, 10_000), (41_000, 11_000)].into_iter().enumerate() {
        let transition = monitor.observe(sample(1, utc, monotonic), MonotonicInstant::from_millis(monotonic));
        assert!(matches!(transition, ReceiveClockTransition::Recovering(_)));
        let rejected =
            monitor.gate(ReceiveTimelineEvent::Window(window(45_000, 15_000)), MonotonicInstant::from_millis(monotonic));
        assert!(matches!(rejected, ClockGatedTimelineEvent::WindowRejected { .. }), "recovery sample {index}");
    }
    let transition = monitor.observe(sample(1, 42_000, 12_000), MonotonicInstant::from_millis(12_000));
    assert!(matches!(transition, ReceiveClockTransition::Recovered(_)));
}

#[test]
fn system_clock_sample_keeps_explicit_generation_and_units() {
    let clock = SystemClock::new(generation(7));
    let first = clock.sample().unwrap();
    let second = clock.sample().unwrap();
    assert_eq!(first.generation, generation(7));
    assert_eq!(second.generation, generation(7));
    assert!(second.sample.utc.unix_millis() >= first.sample.utc.unix_millis());
    assert!(second.sample.monotonic.millis() >= first.sample.monotonic.millis());
}

struct ReplayClock {
    samples: Cell<Option<VecDeque<GenerationClockSample>>>,
}

impl ReplayClock {
    fn new(samples: Vec<GenerationClockSample>) -> Self {
        Self { samples: Cell::new(Some(samples.into())) }
    }
}

impl ReceiveClockSource for ReplayClock {
    fn sample(&self) -> Result<GenerationClockSample, ReceiveClockError> {
        let mut samples = self.samples.take().unwrap_or_default();
        let sample = samples.pop_front().ok_or(ReceiveClockError::ArithmeticOverflow)?;
        self.samples.set(Some(samples));
        Ok(sample)
    }
}

#[test]
fn nonblocking_driver_samples_only_when_monotonic_cadence_is_due() {
    let source = ReplayClock::new(vec![sample(1, 30_500, 1_500), sample(1, 31_000, 2_000)]);
    let mut driver = ReceiveClockDriver::new(source, monitor());
    assert_eq!(driver.poll().unwrap(), ReceiveClockPoll::NotDue { next_sample_due: MonotonicInstant::from_millis(2_000) });
    assert!(matches!(driver.poll().unwrap(), ReceiveClockPoll::Observed(ReceiveClockTransition::Healthy(_))));
}

#[test]
fn unhealthy_clock_passes_incomplete_slots_through_and_rejects_windows() {
    let mut monitor = monitor();
    monitor.observe(sample(1, 33_000, 2_000), MonotonicInstant::from_millis(2_000));
    let rejected = monitor.gate(ReceiveTimelineEvent::Window(window(30_000, 1_000)), MonotonicInstant::from_millis(2_000));
    assert!(matches!(rejected, ClockGatedTimelineEvent::WindowRejected { fault: ReceiveClockFault::UtcJump { .. }, .. }));
}

#[test]
fn driver_hands_a_source_error_back_unchanged() {
    let mut driver = ReceiveClockDriver::new(ReplayClock::new(Vec::new()), monitor());
    assert_eq!(driver.poll(), Err(ReceiveClockError::ArithmeticOverflow));
    assert_eq!(driver.poll_sampled(Err(ReceiveClockError::SystemClockBeforeEpoch)), Err(ReceiveClockError::SystemClockBeforeEpoch));
    assert_eq!(
        driver.poll_sampled(Ok(sample(1, 30_500, 1_500))).unwrap(),
        ReceiveClockPoll::NotDue { next_sample_due: MonotonicInstant::from_millis(2_000) }
    );
}
