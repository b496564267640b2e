use slotpilot::domain::radio::OperatingMode;
use slotpilot::operations::time::{
    ClockFault, ClockHealth, ClockMonitor, ClockSample, MonotonicInstant, SlotTimeError, UtcInstant, VirtualClock,
};

fn sample(utc: i64, monotonic: u64) -> ClockSample {
    ClockSample { utc: UtcInstant::from_unix_millis(utc).unwrap(), monotonic: MonotonicInstant::from_millis(monotonic) }
}

#[test]
fn exact_ft8_and_wspr_boundaries_map_to_monotonic_deadlines() {
    let exact = sample(120_000, 5_000);
    let (ft8, ft8_deadline) = exact.next_slot(OperatingMode::Ft8).unwrap();
    assert_eq!(ft8.start_unix_millis(), 135_000);
    assert_eq!(ft8_deadline.instant().millis(), 20_000);
    let (wspr, wspr_deadline) = exact.next_slot(OperatingMode::Wspr).unwrap();
    assert_eq!(wspr.start_unix_millis(), 240_000);
    assert_eq!(wspr_deadline.instant().millis(), 125_000);
}

#[test]
fn late_calls_use_next_boundary_and_past_slots_are_missed() {
    let late = sample(15_001, 500);
    let (slot, deadline) = late.next_slot(OperatingMode::Ft8).unwrap();
    assert_eq!(slot.start_unix_millis(), 30_000);
    assert_eq!(deadline.instant().millis(), 15_499);
    assert_eq!(late.deadline_for(UtcInstant::from_unix_millis(15_000).unwrap()), Err(SlotTimeError::MissedDeadline));
}

#[test]
fn utc_midnight_is_an_exact_boundary() {
    let before_midnight = sample(86_399_999, 10);
    let (slot, deadline) = before_midnight.next_slot(OperatingMode::Ft8).unwrap();
    assert_eq!(slot.start_unix_millis(), 86_400_000);
    assert_eq!(deadline.instant().millis(), 11);
}

#[test]
fn wall_clock_jump_latches_typed_unhealthy_state() {
    let mut clock = VirtualClock::new(sample(100_000, 1_000));
    let mut monitor = ClockMonitor::new(clock.sample(), 100);
    clock.advance(1_000).unwrap();
    assert_eq!(monitor.observe(clock.sample()), ClockHealth::Healthy);
    clock.jump_utc(2_000).unwrap();
    assert_eq!(
        monitor.observe(clock.sample()),
        ClockHealth::Unhealthy(ClockFault::WallClockJump { divergence_millis: 2_000 })
    );
    clock.advance(1_000).unwrap();
    assert!(matches!(monitor.observe(clock.sample()), ClockHealth::Unhealthy(_)));
}

#[test]
fn virtual_time_expires_authority_deadline_without_sleeping() {
    let mut clock = VirtualClock::new(sample(1_000, 50));
    let expiry = clock.sample().deadline_for(UtcInstant::from_unix_millis(2_000).unwrap()).unwrap();
    assert!(!expiry.is_expired_at(clock.sample().monotonic));
    clock.advance(1_000).unwrap();
    assert!(expiry.is_expired_at(clock.sample().monotonic));
}

#[test]
fn current_slot_contains_the_sampled_instant() {
    let s = sample(44_999, 0);
    assert_eq!(s.current_slot(OperatingMode::Ft8).unwrap().start_unix_millis(), 30_000);
}

#[test]
fn negative_utc_and_regressed_timelines_are_typed() {
    assert!(UtcInstant::from_unix_millis(-1).is_err());
    let mut monitor = ClockMonitor::new(sample(10_000, 10_000), 100);
    assert_eq!(monitor.observe(sample(9_000, 9_000)), ClockHealth::Unhealthy(ClockFault::TimelineRegressed));
    assert_eq!(monitor.health(), ClockHealth::Unhealthy(ClockFault::TimelineRegressed));
}
