//! Production clock sampling and receive-only FT8 alignment gating.
use vstd::prelude::*;
use crate::audio::Ft8ReceiveWindow;
use crate::audio::timeline::{Ft8ReceiveSlot, IncompleteFt8Slot, ReceiveTimelineEvent};
use crate::operations::time::{abs, clamp_i64, ClockSample, MonotonicInstant, UtcInstant};

verus! {

/// Default production receive-clock sampling cadence.
pub const DEFAULT_CLOCK_SAMPLE_CADENCE_MILLIS: u64 = 1_000;
/// Default age after which a mapping is stale.
pub const DEFAULT_CLOCK_FRESHNESS_MILLIS: u64 = 2_500;
/// Default suspend/resume-like monotonic gap limit.
pub const DEFAULT_CLOCK_SAMPLE_GAP_MILLIS: u64 = 5_000;
/// Default UTC/monotonic divergence tolerance.
pub const DEFAULT_CLOCK_JUMP_TOLERANCE_MILLIS: u64 = 100;
/// Default delay permitted between sampling and observation.
pub const DEFAULT_CLOCK_SAMPLING_DELAY_MILLIS: u64 = 250;
/// Default consecutive good samples required to recover.
pub const DEFAULT_CLOCK_RECOVERY_SAMPLES: u8 = 3;

/// Checked production/monitor construction failure.
#[derive(Debug, Clone, Copy, PartialEq, Eq, Structural)]
pub enum ReceiveClockError {
    /// A process generation must be non-zero.
    InvalidGeneration,
    /// Monitoring bounds are inconsistent or outside supported limits.
    InvalidConfiguration,
    /// The production UTC clock predates the Unix epoch.
    SystemClockBeforeEpoch,
    /// Checked integer clock arithmetic overflowed.
    ArithmeticOverflow,
}

/// Non-zero process generation owning one monotonic clock origin.
#[derive(Debug, Clone, Copy, PartialEq, Eq, Hash, PartialOrd, Ord, Structural)]
pub struct ClockProcessGeneration(u64);

impl View for ClockProcessGeneration {
    type V = u64;

    closed spec fn view(&self) -> u64 {
        self.0
    }
}

impl ClockProcessGeneration {
    #[verifier::type_invariant]
    spec fn inv(self) -> bool {
        self.0 != 0
    }

    /// Constructs a checked process generation.
    pub fn new(value: u64) -> (res: Result<Self, ReceiveClockError>)
        ensures
            match res {
                Ok(g) => value != 0 && g@ == value,
                Err(e) => value == 0 && e == ReceiveClockError::InvalidGeneration,
            },
    {
        if value == 0 {
            return Err(ReceiveClockError::InvalidGeneration);
        }
        Ok(ClockProcessGeneration(value))
    }

    /// Returns the opaque generation value.
    pub fn get(self) -> (res: u64)
        ensures
            res == self@,
            res != 0,
    {
        proof {
            use_type_invariant(&self);
        }
        self.0
    }
}

/// One paired UTC/monotonic observation scoped to a process generation.
#[derive(Debug, Clone, Copy, PartialEq, Eq, Structural)]
pub struct GenerationClockSample {
    /// Process-local clock generation.
    pub generation: ClockProcessGeneration,
    /// Simultaneously sampled integer-millisecond mapping.
    pub sample: ClockSample,
}

/// The system's monotonic clock reading.
#[verifier::external_type_specification]
#[verifier::external_body]
pub struct ExInstant(std::time::Instant);

/// The system's wall-clock reading.
#[verifier::external_type_specification]
#[verifier::external_body]
pub struct ExSystemTime(std::time::SystemTime);

/// A wall-clock reading that lies before the requested reference time.
#[verifier::external_type_specification]
#[verifier::external_body]
pub struct ExSystemTimeError(std::time::SystemTimeError);

/// `std::time::Instant::now`: the current monotonic reading. Nothing is
/// claimed of the value, which depends on the machine and the moment.
#[verifier::external_body]
pub(crate) fn monotonic_now() -> std::time::Instant {
    std::time::Instant::now()
}

/// `std::time::Instant::elapsed`: time passed since `origin`. Nothing is
/// claimed of the value, which depends on the moment of the call.
#[verifier::external_body]
pub(crate) fn elapsed_since(origin: &std::time::Instant) -> std::time::Duration {
    origin.elapsed()
}

/// `std::time::SystemTime::now`: the current wall-clock reading. Nothing is
/// claimed of the value, which depends on the machine's clock.
#[verifier::external_body]
pub(crate) fn wall_clock_now() -> std::time::SystemTime {
    std::time::SystemTime::now()
}

/// `std::time::SystemTime::duration_since` against `UNIX_EPOCH`: the time
/// since the epoch, or an error when the reading lies before it. Nothing is
/// claimed of the value, which this library cannot state over its own terms.
#[verifier::external_body]
pub(crate) fn since_unix_epoch(time: &std::time::SystemTime) -> Result<std::time::Duration, std::time::SystemTimeError> {
    time.duration_since(std::time::UNIX_EPOCH)
}

/// The whole milliseconds that `Duration::as_millis` gives for a duration.
pub uninterp spec fn duration_whole_millis(duration: std::time::Duration) -> u128;

/// `std::time::Duration::as_millis`: the whole milliseconds of a duration.
/// The result is named `duration_whole_millis` of the duration, which it
/// depends on alone; nothing more is claimed of it.
#[verifier::external_body]
pub(crate) fn duration_as_millis(duration: &std::time::Duration) -> (res: u128)
    ensures
        res == duration_whole_millis(*duration),
{
    duration.as_millis()
}

/// Whole milliseconds of a duration, when they fit in `u64`.
fn duration_millis(duration: std::time::Duration) -> (res: Result<u64, ReceiveClockError>)
    ensures
        match res {
            Ok(m) => m == duration_whole_millis(duration),
            Err(e) => duration_whole_millis(duration) > u64::MAX && e == ReceiveClockError::ArithmeticOverflow,
        },
{
    let millis = duration_as_millis(&duration);
    if millis > u64::MAX as u128 {
        return Err(ReceiveClockError::ArithmeticOverflow);
    }
    Ok(millis as u64)
}

/// The outcome of pairing a UTC reading with the monotonic readings taken
/// before and after it: the monotonic midpoint and the UTC milliseconds.
pub open spec fn paired_outcome(before: u64, utc_millis: u128, after: u64) -> Result<(u64, i64), ReceiveClockError> {
    let half = if after >= before { (after - before) / 2 } else { 0 };
    if before + half > u64::MAX {
        Err(ReceiveClockError::ArithmeticOverflow)
    } else if utc_millis > i64::MAX {
        Err(ReceiveClockError::ArithmeticOverflow)
    } else {
        Ok(((before + half) as u64, utc_millis as i64))
    }
}

/// Pairs one UTC reading with the monotonic readings taken on each side of it.
pub fn paired_sample(generation: ClockProcessGeneration, before: u64, utc_millis: u128, after: u64) -> (res: Result<GenerationClockSample, ReceiveClockError>)
    ensures
        match paired_outcome(before, utc_millis, after) {
            Ok((mono, utc)) => res matches Ok(s) && s.generation == generation && s.sample.monotonic@ == mono && s.sample.utc@ == utc,
            Err(e) => res == Err::<GenerationClockSample, ReceiveClockError>(e),
        },
{
    let half: u64 = if after >= before { (after - before) / 2 } else { 0 };
    let midpoint = match before.checked_add(half) {
        Some(m) => m,
        None => {
            return Err(ReceiveClockError::ArithmeticOverflow);
        },
    };
    if utc_millis > i64::MAX as u128 {
        return Err(ReceiveClockError::ArithmeticOverflow);
    }
    let utc = match UtcInstant::from_unix_millis(utc_millis as i64) {
        Ok(u) => u,
        Err(_) => {
            return Err(ReceiveClockError::SystemClockBeforeEpoch);
        },
    };
    Ok(GenerationClockSample { generation, sample: ClockSample { utc, monotonic: MonotonicInstant::from_millis(midpoint) } })
}

/// Production paired system-clock adapter.
///
/// A monotonic reading is taken on each side of the UTC read and their
/// midpoint is retained. No sleep or scheduling authority exists here.
#[derive(Debug)]
pub struct SystemClock {
    generation: ClockProcessGeneration,
    monotonic_origin: std::time::Instant,
}

impl Clone for SystemClock {
    fn clone(&self) -> (res: Self)
        ensures
            res.spec_generation() == self.spec_generation(),
    {
        SystemClock { generation: self.generation, monotonic_origin: self.monotonic_origin }
    }
}

impl SystemClock {
    /// The generation this clock stamps on its samples.
    pub closed spec fn spec_generation(&self) -> ClockProcessGeneration {
        self.generation
    }

    /// Starts a new process-local monotonic origin.
    pub fn new(generation: ClockProcessGeneration) -> (res: Self)
        ensures
            res.spec_generation() == generation,
    {
        SystemClock { generation, monotonic_origin: monotonic_now() }
    }

    /// Returns one checked paired production sample.
    pub fn sample(&self) -> (res: Result<GenerationClockSample, ReceiveClockError>)
        ensures
            match res {
                Ok(s) => s.generation == self.spec_generation(),
                Err(e) => e == ReceiveClockError::ArithmeticOverflow || e == ReceiveClockError::SystemClockBeforeEpoch,
            },
    {
        let before = match duration_millis(elapsed_since(&self.monotonic_origin)) {
            Ok(m) => m,
            Err(e) => {
                return Err(e);
            },
        };
        let now = wall_clock_now();
        let utc = match since_unix_epoch(&now) {
            Ok(d) => d,
            Err(_) => {
                return Err(ReceiveClockError::SystemClockBeforeEpoch);
            },
        };
        let after = match duration_millis(elapsed_since(&self.monotonic_origin)) {
            Ok(m) => m,
            Err(e) => {
                return Err(e);
            },
        };
        paired_sample(self.generation, before, duration_as_millis(&utc), after)
    }
}

/// Fallible source for generation-scoped paired clock samples.
pub trait ReceiveClockSource {
    /// Samples UTC and monotonic time together.
    fn sample(&self) -> Result<GenerationClockSample, ReceiveClockError>;
}

impl ReceiveClockSource for SystemClock {
    fn sample(&self) -> Result<GenerationClockSample, ReceiveClockError> {
        SystemClock::sample(self)
    }
}


/// Checked receive-clock monitoring policy.
#[derive(Debug, Clone, Copy, PartialEq, Eq, Structural)]
pub struct ReceiveClockConfig {
    /// Desired monotonic sampling cadence.
    pub sample_cadence_millis: u64,
    /// Maximum age of the most recently accepted mapping.
    pub freshness_millis: u64,
    /// Maximum monotonic gap between samples.
    pub max_sample_gap_millis: u64,
    /// Maximum UTC-minus-monotonic divergence between samples.
    pub jump_tolerance_millis: u64,
    /// Maximum delay between a sample and monitor observation.
    pub max_sampling_delay_millis: u64,
    /// Consecutive consistent samples required for recovery.
    pub recovery_samples: u8,
}

/// Whether a monitoring policy is within the supported bounds.
pub open spec fn config_ok(c: ReceiveClockConfig) -> bool {
    &&& 10 <= c.sample_cadence_millis <= 10_000
    &&& c.sample_cadence_millis <= c.freshness_millis <= 60_000
    &&& c.sample_cadence_millis <= c.max_sample_gap_millis <= 300_000
    &&& c.jump_tolerance_millis <= 5_000
    &&& c.max_sampling_delay_millis <= c.sample_cadence_millis
    &&& 2 <= c.recovery_samples <= 10
}

impl ReceiveClockConfig {
    /// Constructs a bounded receive-only clock policy.
    pub fn new(
        sample_cadence_millis: u64,
        freshness_millis: u64,
        max_sample_gap_millis: u64,
        jump_tolerance_millis: u64,
        max_sampling_delay_millis: u64,
        recovery_samples: u8,
    ) -> (res: Result<Self, ReceiveClockError>)
        ensures
            ({
                let c = ReceiveClockConfig {
                    sample_cadence_millis,
                    freshness_millis,
                    max_sample_gap_millis,
                    jump_tolerance_millis,
                    max_sampling_delay_millis,
                    recovery_samples,
                };
                match res {
                    Ok(r) => config_ok(c) && r == c,
                    Err(e) => !config_ok(c) && e == ReceiveClockError::InvalidConfiguration,
                }
            }),
    {
        if sample_cadence_millis < 10 || sample_cadence_millis > 10_000 || freshness_millis < sample_cadence_millis
            || freshness_millis > 60_000 || max_sample_gap_millis < sample_cadence_millis
            || max_sample_gap_millis > 300_000 || jump_tolerance_millis > 5_000
            || max_sampling_delay_millis > sample_cadence_millis || recovery_samples < 2 || recovery_samples > 10 {
            return Err(ReceiveClockError::InvalidConfiguration);
        }
        Ok(ReceiveClockConfig {
            sample_cadence_millis,
            freshness_millis,
            max_sample_gap_millis,
            jump_tolerance_millis,
            max_sampling_delay_millis,
            recovery_samples,
        })
    }
}

impl Default for ReceiveClockConfig {
    fn default() -> (res: Self)
        ensures
            res == (ReceiveClockConfig {
                sample_cadence_millis: DEFAULT_CLOCK_SAMPLE_CADENCE_MILLIS,
                freshness_millis: DEFAULT_CLOCK_FRESHNESS_MILLIS,
                max_sample_gap_millis: DEFAULT_CLOCK_SAMPLE_GAP_MILLIS,
                jump_tolerance_millis: DEFAULT_CLOCK_JUMP_TOLERANCE_MILLIS,
                max_sampling_delay_millis: DEFAULT_CLOCK_SAMPLING_DELAY_MILLIS,
                recovery_samples: DEFAULT_CLOCK_RECOVERY_SAMPLES,
            }),
            config_ok(res),
    {
        ReceiveClockConfig {
            sample_cadence_millis: DEFAULT_CLOCK_SAMPLE_CADENCE_MILLIS,
            freshness_millis: DEFAULT_CLOCK_FRESHNESS_MILLIS,
            max_sample_gap_millis: DEFAULT_CLOCK_SAMPLE_GAP_MILLIS,
            jump_tolerance_millis: DEFAULT_CLOCK_JUMP_TOLERANCE_MILLIS,
            max_sampling_delay_millis: DEFAULT_CLOCK_SAMPLING_DELAY_MILLIS,
            recovery_samples: DEFAULT_CLOCK_RECOVERY_SAMPLES,
        }
    }
}

/// Typed reason a receive clock mapping cannot align live audio.
#[derive(Debug, Clone, Copy, PartialEq, Eq, Structural)]
pub enum ReceiveClockFault {
    /// A sample came from another process generation.
    ProcessGenerationChanged,
    /// UTC or monotonic evidence moved backwards.
    TimelineRegressed,
    /// UTC progress diverged from monotonic progress.
    UtcJump {
        /// Signed UTC-minus-monotonic divergence.
        divergence_millis: i64,
    },
    /// No accepted sample arrived within the freshness bound.
    StaleMapping {
        /// Age of the last accepted sample.
        age_millis: u64,
    },
    /// Sampling work was observed too long after its timestamp.
    SamplingDelayed {
        /// Observed delay.
        delay_millis: u64,
    },
    /// A suspend/resume-like gap exceeded the bounded cadence.
    SampleGap {
        /// Monotonic gap between samples.
        gap_millis: u64,
    },
    /// A complete window's capture mapping disagreed with clock mapping.
    WindowMisaligned {
        /// Signed window-minus-clock monotonic difference.
        divergence_millis: i64,
    },
    /// Checked arithmetic could not represent the mapping.
    ArithmeticOverflow,
}

/// Latched receive-clock state.
#[derive(Debug, Clone, Copy, PartialEq, Eq, Structural)]
pub enum ReceiveClockState {
    /// The latest mapping may align receive windows.
    Healthy,
    /// Mapping is latched unhealthy until recovery completes.
    Unhealthy {
        /// Original/current typed failure.
        fault: ReceiveClockFault,
        /// Consecutive consistent recovery observations.
        recovery_progress: u8,
        /// Required recovery observations.
        recovery_required: u8,
    },
}

/// Internal diagnostic snapshot for later API mapping.
#[derive(Debug, Clone, Copy, PartialEq, Eq, Structural)]
pub struct ReceiveClockSnapshot {
    /// Process-local generation.
    pub generation: ClockProcessGeneration,
    /// Current latched state.
    pub state: ReceiveClockState,
    /// Most recently accepted healthy mapping.
    pub last_accepted: ClockSample,
    /// Monotonic time when the snapshot was produced.
    pub observed_at: MonotonicInstant,
    /// Age of the last accepted mapping.
    pub mapping_age_millis: u64,
    /// Next desired monotonic sample instant.
    pub next_sample_due: MonotonicInstant,
}

/// Typed monitor transition emitted on every observation.
#[derive(Debug, Clone, Copy, PartialEq, Eq, Structural)]
pub enum ReceiveClockTransition {
    /// Mapping remained healthy.
    Healthy(ReceiveClockSnapshot),
    /// A healthy mapping became latched unhealthy.
    BecameUnhealthy(ReceiveClockSnapshot),
    /// A consistent recovery sequence is incomplete.
    Recovering(ReceiveClockSnapshot),
    /// The documented recovery sequence completed.
    Recovered(ReceiveClockSnapshot),
    /// State remained latched unhealthy without progress.
    Unhealthy(ReceiveClockSnapshot),
}

/// One nonblocking production sampling-driver result.
#[derive(Debug, Clone, Copy, PartialEq, Eq, Structural)]
pub enum ReceiveClockPoll {
    /// The monotonic cadence has not elapsed.
    NotDue {
        /// Next desired monotonic sample instant.
        next_sample_due: MonotonicInstant,
    },
    /// A due sample was delivered to the monitor.
    Observed(ReceiveClockTransition),
}

/// Clock evidence attached to one accepted canonical window.
#[derive(Debug, Clone, Copy, PartialEq, Eq, Structural)]
pub struct ReceiveWindowAlignment {
    /// Exact FT8 slot.
    pub slot: Ft8ReceiveSlot,
    /// Slot start expressed on the current monotonic timeline.
    pub slot_start_monotonic: MonotonicInstant,
    /// Age of the accepted clock mapping.
    pub mapping_age_millis: u64,
}

/// Receive timeline outcome after clock-health gating.
#[derive(Debug, Clone, PartialEq, Eq)]
pub enum ClockGatedTimelineEvent {
    /// Complete window whose slot mapping is currently healthy.
    WindowReady {
        /// Canonical receive window.
        window: Ft8ReceiveWindow,
        /// Independent clock-alignment evidence.
        alignment: ReceiveWindowAlignment,
    },
    /// Complete window withheld because time was uncertain.
    WindowRejected {
        /// Exact slot withheld.
        slot: Ft8ReceiveSlot,
        /// Latched alignment failure.
        fault: ReceiveClockFault,
    },
    /// Existing incomplete timeline evidence passes through unchanged.
    Incomplete(IncompleteFt8Slot),
}

/// Abstract state of a receive-clock monitor.
#[derive(Debug, Clone, Copy, PartialEq, Eq, Structural)]
pub struct ReceiveClockMonitorView {
    /// Process generation the monitor belongs to.
    pub generation: ClockProcessGeneration,
    /// Monitoring policy.
    pub config: ReceiveClockConfig,
    /// Latched state.
    pub state: ReceiveClockState,
    /// Most recently accepted healthy mapping.
    pub last_accepted: ClockSample,
    /// Last sample of an ongoing recovery sequence.
    pub recovery_last: Option<ClockSample>,
}

/// `x - y`, saturating at zero.
pub open spec fn sat_sub(x: u64, y: u64) -> u64 {
    if x >= y { (x - y) as u64 } else { 0 }
}

/// The instant at which the next sample is desired, when representable.
pub open spec fn next_due(m: ReceiveClockMonitorView) -> Option<u64> {
    let due = m.last_accepted.monotonic@ + m.config.sample_cadence_millis;
    if due <= u64::MAX { Some(due as u64) } else { None }
}

/// Whether a snapshot reports `m` as observed at `at`.
pub open spec fn snapshot_of(s: ReceiveClockSnapshot, m: ReceiveClockMonitorView, at: MonotonicInstant) -> bool {
    &&& s.generation == m.generation
    &&& s.state == m.state
    &&& s.last_accepted == m.last_accepted
    &&& s.observed_at == at
    &&& s.mapping_age_millis == sat_sub(at@, m.last_accepted.monotonic@)
    &&& s.next_sample_due@ == match next_due(m) { Some(d) => d, None => u64::MAX }
}

/// The monitor after a staleness check at `at`.
pub open spec fn stale_checked(m: ReceiveClockMonitorView, at: MonotonicInstant) -> ReceiveClockMonitorView {
    let age = sat_sub(at@, m.last_accepted.monotonic@);
    if age > m.config.freshness_millis && m.state is Healthy {
        ReceiveClockMonitorView {
            state: ReceiveClockState::Unhealthy {
                fault: ReceiveClockFault::StaleMapping { age_millis: age },
                recovery_progress: 0,
                recovery_required: m.config.recovery_samples,
            },
            recovery_last: None,
            ..m
        }
    } else {
        m
    }
}

/// The monitor after latching `fault`, keeping `recovery_last` as the start of recovery.
pub open spec fn latched(m: ReceiveClockMonitorView, fault: ReceiveClockFault, recovery_last: Option<ClockSample>) -> ReceiveClockMonitorView {
    ReceiveClockMonitorView {
        state: ReceiveClockState::Unhealthy {
            fault,
            recovery_progress: if recovery_last is Some { 1 } else { 0 },
            recovery_required: m.config.recovery_samples,
        },
        recovery_last,
        ..m
    }
}

/// The transition reported by a latch from `m`: a first failure or a continued one.
pub open spec fn latch_transition(m: ReceiveClockMonitorView, after: ReceiveClockMonitorView, at: MonotonicInstant, t: ReceiveClockTransition) -> bool {
    if m.state is Healthy {
        t matches ReceiveClockTransition::BecameUnhealthy(s) && snapshot_of(s, after, at)
    } else {
        t matches ReceiveClockTransition::Unhealthy(s) && snapshot_of(s, after, at)
    }
}

/// The fault, if any, between two consecutive samples under a policy.
pub open spec fn compare_outcome(c: ReceiveClockConfig, previous: ClockSample, current: ClockSample) -> Option<ReceiveClockFault> {
    let utc_delta = current.utc@ - previous.utc@;
    let mono_delta = current.monotonic@ - previous.monotonic@;
    if utc_delta < i64::MIN || utc_delta > i64::MAX {
        Some(ReceiveClockFault::ArithmeticOverflow)
    } else if mono_delta < 0 {
        Some(ReceiveClockFault::TimelineRegressed)
    } else if utc_delta < 0 {
        Some(ReceiveClockFault::UtcJump { divergence_millis: clamp_i64(utc_delta - mono_delta) })
    } else if mono_delta > c.max_sample_gap_millis {
        Some(ReceiveClockFault::SampleGap { gap_millis: mono_delta as u64 })
    } else if abs(clamp_i64(utc_delta - mono_delta) as int) > c.jump_tolerance_millis {
        Some(ReceiveClockFault::UtcJump { divergence_millis: clamp_i64(utc_delta - mono_delta) })
    } else {
        None
    }
}

/// Law: two consecutive samples are accepted together only when UTC and
/// monotonic time advanced by amounts within the jump tolerance of each other,
/// in either direction, with monotonic time not regressing, UTC not stepping
/// back and the gap within bounds; a divergence beyond the tolerance (UTC
/// ahead or behind), with nothing else wrong, is reported as a UTC jump of
/// exactly that signed size.
pub proof fn law_divergence_beyond_tolerance_is_a_jump(c: ReceiveClockConfig, previous: ClockSample, current: ClockSample)
    requires
        config_ok(c),
    ensures
        ({
            let utc_delta = current.utc@ - previous.utc@;
            let mono_delta = current.monotonic@ - previous.monotonic@;
            let divergence = utc_delta - mono_delta;
            &&& compare_outcome(c, previous, current) is None ==> {
                &&& 0 <= mono_delta <= c.max_sample_gap_millis
                &&& 0 <= utc_delta
                &&& -(c.jump_tolerance_millis as int) <= divergence <= c.jump_tolerance_millis
            }
            &&& 0 <= mono_delta <= c.max_sample_gap_millis && 0 <= utc_delta <= i64::MAX && i64::MIN <= divergence
                && (divergence > c.jump_tolerance_millis || divergence < -(c.jump_tolerance_millis as int))
                ==> compare_outcome(c, previous, current) == Some(ReceiveClockFault::UtcJump { divergence_millis: divergence as i64 })
        }),
{
}

/// Law: a healthy monitor never accepts a sample of its own generation whose
/// UTC and monotonic progress since the accepted mapping diverge beyond the
/// jump tolerance in either direction: the observation reports the monitor
/// unhealthy and keeps the old mapping.
pub proof fn law_healthy_monitor_refuses_diverging_sample(
    m: ReceiveClockMonitorView,
    obs: GenerationClockSample,
    at: MonotonicInstant,
    after: ReceiveClockMonitorView,
    t: ReceiveClockTransition,
)
    requires
        config_ok(m.config),
        m.state is Healthy,
        observe_relation(m, obs, at, after, t),
        ({
            let divergence = (obs.sample.utc@ - m.last_accepted.utc@) - (obs.sample.monotonic@ - m.last_accepted.monotonic@);
            divergence > m.config.jump_tolerance_millis || divergence < -(m.config.jump_tolerance_millis as int)
        }),
    ensures
        t is BecameUnhealthy,
        after.state is Unhealthy,
        after.last_accepted == m.last_accepted,
{
    law_divergence_beyond_tolerance_is_a_jump(m.config, m.last_accepted, obs.sample);
}

/// The relation one observation establishes between the monitor before,
/// the monitor after, and the reported transition.
pub open spec fn observe_relation(
    m: ReceiveClockMonitorView,
    obs: GenerationClockSample,
    at: MonotonicInstant,
    after: ReceiveClockMonitorView,
    t: ReceiveClockTransition,
) -> bool {
    if obs.generation != m.generation {
        after == latched(m, ReceiveClockFault::ProcessGenerationChanged, None) && latch_transition(m, after, at, t)
    } else if at@ < obs.sample.monotonic@ {
        after == latched(m, ReceiveClockFault::TimelineRegressed, None) && latch_transition(m, after, at, t)
    } else if at@ - obs.sample.monotonic@ > m.config.max_sampling_delay_millis {
        let fault = ReceiveClockFault::SamplingDelayed { delay_millis: (at@ - obs.sample.monotonic@) as u64 };
        after == latched(m, fault, None) && latch_transition(m, after, at, t)
    } else {
        match m.state {
            ReceiveClockState::Healthy => match compare_outcome(m.config, m.last_accepted, obs.sample) {
                Some(fault) => after == latched(m, fault, None) && latch_transition(m, after, at, t),
                None => {
                    let accepted = stale_checked(ReceiveClockMonitorView { last_accepted: obs.sample, ..m }, at);
                    after == accepted && (t matches ReceiveClockTransition::Healthy(s) && snapshot_of(s, accepted, at))
                },
            },
            ReceiveClockState::Unhealthy { fault, recovery_progress, recovery_required } => {
                if fault == ReceiveClockFault::ProcessGenerationChanged {
                    after == m && (t matches ReceiveClockTransition::Unhealthy(s) && snapshot_of(s, m, at))
                } else if m.recovery_last is Some && compare_outcome(m.config, m.recovery_last->0, obs.sample) is Some {
                    let relatched = latched(m, compare_outcome(m.config, m.recovery_last->0, obs.sample)->0, Some(obs.sample));
                    after == relatched && latch_transition(m, after, at, t)
                } else {
                    let progress: u8 = if recovery_progress == u8::MAX { u8::MAX } else { (recovery_progress + 1) as u8 };
                    if progress >= recovery_required {
                        let recovered = stale_checked(ReceiveClockMonitorView {
                            last_accepted: obs.sample,
                            recovery_last: None,
                            state: ReceiveClockState::Healthy,
                            ..m
                        }, at);
                        after == recovered && (t matches ReceiveClockTransition::Recovered(s) && snapshot_of(s, recovered, at))
                    } else {
                        let recovering = ReceiveClockMonitorView {
                            recovery_last: Some(obs.sample),
                            state: ReceiveClockState::Unhealthy { fault, recovery_progress: progress, recovery_required },
                            ..m
                        };
                        after == recovering && (t matches ReceiveClockTransition::Recovering(s) && snapshot_of(s, recovering, at))
                    }
                }
            },
        }
    }
}

/// The alignment of a window's slot against the accepted mapping.
pub open spec fn alignment_outcome(m: ReceiveClockMonitorView, window_monotonic: u64, slot: i64) -> Result<u64, ReceiveClockFault> {
    let predicted = m.last_accepted.monotonic@ + (slot - m.last_accepted.utc@);
    if predicted < 0 || predicted > u64::MAX {
        Err(ReceiveClockFault::ArithmeticOverflow)
    } else {
        let divergence = window_monotonic - predicted;
        if divergence < i64::MIN || divergence > i64::MAX {
            Err(ReceiveClockFault::ArithmeticOverflow)
        } else if abs(divergence) > m.config.jump_tolerance_millis {
            Err(ReceiveClockFault::WindowMisaligned { divergence_millis: divergence as i64 })
        } else {
            Ok(predicted as u64)
        }
    }
}

/// The relation one gating step establishes between the monitor before, the
/// event, the monitor after, and the gated result.
pub open spec fn gate_relation(
    m: ReceiveClockMonitorView,
    event: ReceiveTimelineEvent,
    at: MonotonicInstant,
    after: ReceiveClockMonitorView,
    res: ClockGatedTimelineEvent,
) -> bool {
    match event {
        ReceiveTimelineEvent::Incomplete(i) => res == ClockGatedTimelineEvent::Incomplete(i) && after == m,
        ReceiveTimelineEvent::Window(w) => {
            let checked = stale_checked(m, at);
            let slot = w.spec_slot_start();
            match checked.state {
                ReceiveClockState::Unhealthy { fault, .. } => {
                    &&& after == checked
                    &&& res matches ClockGatedTimelineEvent::WindowRejected { slot: s, fault: f } && s@ == slot && f == fault
                },
                ReceiveClockState::Healthy => match alignment_outcome(checked, w.spec_mapping().monotonic_millis, slot) {
                    Ok(predicted) => {
                        &&& after == checked
                        &&& res matches ClockGatedTimelineEvent::WindowReady { window, alignment }
                        &&& window == w
                        &&& alignment.slot@ == slot
                        &&& alignment.slot_start_monotonic@ == predicted
                        &&& alignment.mapping_age_millis == sat_sub(at@, checked.last_accepted.monotonic@)
                    },
                    Err(fault) => {
                        &&& after == ReceiveClockMonitorView {
                            state: ReceiveClockState::Unhealthy {
                                fault,
                                recovery_progress: 0,
                                recovery_required: checked.config.recovery_samples,
                            },
                            recovery_last: None,
                            ..checked
                        }
                        &&& res matches ClockGatedTimelineEvent::WindowRejected { slot: s, fault: f } && s@ == slot && f == fault
                    },
                },
            }
        },
    }
}

/// Receive-only continuous clock-health monitor and window gate.
pub struct ReceiveClockMonitor {
    generation: ClockProcessGeneration,
    config: ReceiveClockConfig,
    state: ReceiveClockState,
    last_accepted: ClockSample,
    recovery_last: Option<ClockSample>,
}

impl View for ReceiveClockMonitor {
    type V = ReceiveClockMonitorView;

    closed spec fn view(&self) -> ReceiveClockMonitorView {
        ReceiveClockMonitorView {
            generation: self.generation,
            config: self.config,
            state: self.state,
            last_accepted: self.last_accepted,
            recovery_last: self.recovery_last,
        }
    }
}

impl ReceiveClockMonitor {
    #[verifier::type_invariant]
    spec fn inv(self) -> bool {
        config_ok(self.config)
    }

    /// Every monitor carries a valid policy.
    pub fn lemma_config_ok(&self)
        ensures
            config_ok(self@.config),
    {
        proof {
            use_type_invariant(self);
        }
    }

    /// Starts healthy from one same-generation initial mapping.
    pub fn new(initial: GenerationClockSample, config: ReceiveClockConfig) -> (res: Result<Self, ReceiveClockError>)
        ensures
            match res {
                Ok(m) => config_ok(config) && m@ == (ReceiveClockMonitorView {
                    generation: initial.generation,
                    config,
                    state: ReceiveClockState::Healthy,
                    last_accepted: initial.sample,
                    recovery_last: None,
                }),
                Err(e) => !config_ok(config) && e == ReceiveClockError::InvalidConfiguration,
            },
    {
        match ReceiveClockConfig::new(
            config.sample_cadence_millis,
            config.freshness_millis,
            config.max_sample_gap_millis,
            config.jump_tolerance_millis,
            config.max_sampling_delay_millis,
            config.recovery_samples,
        ) {
            Ok(_) => {},
            Err(e) => {
                return Err(e);
            },
        }
        Ok(ReceiveClockMonitor {
            generation: initial.generation,
            config,
            state: ReceiveClockState::Healthy,
            last_accepted: initial.sample,
            recovery_last: None,
        })
    }

    /// Returns the monotonic instant at which the next sample is desired.
    pub fn next_sample_due(&self) -> (res: Result<MonotonicInstant, ReceiveClockError>)
        ensures
            match next_due(self@) {
                Some(d) => res matches Ok(i) && i@ == d,
                None => res == Err::<MonotonicInstant, ReceiveClockError>(ReceiveClockError::ArithmeticOverflow),
            },
    {
        match self.last_accepted.monotonic.millis().checked_add(self.config.sample_cadence_millis) {
            Some(d) => Ok(MonotonicInstant::from_millis(d)),
            None => Err(ReceiveClockError::ArithmeticOverflow),
        }
    }

    /// Observes one sample without sleeping and updates latch/recovery state.
    pub fn observe(&mut self, observation: GenerationClockSample, observed_at: MonotonicInstant) -> (res: ReceiveClockTransition)
        ensures
            observe_relation(old(self)@, observation, observed_at, final(self)@, res),
    {
        proof {
            use_type_invariant(&*self);
        }
        if observation.generation != self.generation {
            return self.latch(ReceiveClockFault::ProcessGenerationChanged, observed_at, None);
        }
        let delay = match observed_at.millis().checked_sub(observation.sample.monotonic.millis()) {
            Some(d) => d,
            None => {
                return self.latch(ReceiveClockFault::TimelineRegressed, observed_at, None);
            },
        };
        if delay > self.config.max_sampling_delay_millis {
            return self.latch(ReceiveClockFault::SamplingDelayed { delay_millis: delay }, observed_at, None);
        }
        match self.state {
            ReceiveClockState::Healthy => {
                match self.compare(self.last_accepted, observation.sample) {
                    Some(fault) => {
                        return self.latch(fault, observed_at, None);
                    },
                    None => {},
                }
                self.last_accepted = observation.sample;
                ReceiveClockTransition::Healthy(self.snapshot(observed_at))
            },
            ReceiveClockState::Unhealthy { fault, recovery_progress, recovery_required } => {
                if fault == ReceiveClockFault::ProcessGenerationChanged {
                    return ReceiveClockTransition::Unhealthy(self.snapshot(observed_at));
                }
                match self.recovery_last {
                    Some(previous) => {
                        match self.compare(previous, observation.sample) {
                            Some(new_fault) => {
                                return self.latch(new_fault, observed_at, Some(observation.sample));
                            },
                            None => {},
                        }
                    },
                    None => {},
                }
                let progress = recovery_progress.saturating_add(1);
                self.recovery_last = Some(observation.sample);
                if progress >= recovery_required {
                    self.last_accepted = observation.sample;
                    self.recovery_last = None;
                    self.state = ReceiveClockState::Healthy;
                    ReceiveClockTransition::Recovered(self.snapshot(observed_at))
                } else {
                    self.state = ReceiveClockState::Unhealthy { fault, recovery_progress: progress, recovery_required };
                    ReceiveClockTransition::Recovering(self.snapshot(observed_at))
                }
            },
        }
    }

    /// Returns a snapshot, latching staleness when necessary.
    pub fn snapshot(&mut self, observed_at: MonotonicInstant) -> (res: ReceiveClockSnapshot)
        ensures
            final(self)@ == stale_checked(old(self)@, observed_at),
            snapshot_of(res, final(self)@, observed_at),
    {
        proof {
            use_type_invariant(&*self);
        }
        let age = observed_at.millis().saturating_sub(self.last_accepted.monotonic.millis());
        let healthy = match self.state {
            ReceiveClockState::Healthy => true,
            _ => false,
        };
        if age > self.config.freshness_millis && healthy {
            self.state = ReceiveClockState::Unhealthy {
                fault: ReceiveClockFault::StaleMapping { age_millis: age },
                recovery_progress: 0,
                recovery_required: self.config.recovery_samples,
            };
            self.recovery_last = None;
        }
        self.snapshot_unchecked(observed_at)
    }

    /// Gates one timeline event; unhealthy time can never return `WindowReady`.
    pub fn gate(&mut self, event: ReceiveTimelineEvent, observed_at: MonotonicInstant) -> (res: ClockGatedTimelineEvent)
        ensures
            gate_relation(old(self)@, event, observed_at, final(self)@, res),
    {
        match event {
            ReceiveTimelineEvent::Incomplete(incomplete) => ClockGatedTimelineEvent::Incomplete(incomplete),
            ReceiveTimelineEvent::Window(window) => {
                let slot = window.slot();
                let snapshot = self.snapshot(observed_at);
                match snapshot.state {
                    ReceiveClockState::Unhealthy { fault, .. } => {
                        return ClockGatedTimelineEvent::WindowRejected { slot, fault };
                    },
                    ReceiveClockState::Healthy => {},
                }
            proof {
                use_type_invariant(&*self);
            }
                match self.align_window(&window, slot, snapshot.mapping_age_millis) {
                    Ok(alignment) => ClockGatedTimelineEvent::WindowReady { window, alignment },
                    Err(fault) => {
                        self.state = ReceiveClockState::Unhealthy {
                            fault,
                            recovery_progress: 0,
                            recovery_required: self.config.recovery_samples,
                        };
                        self.recovery_last = None;
                        ClockGatedTimelineEvent::WindowRejected { slot, fault }
                    },
                }
            },
        }
    }

    fn align_window(&self, window: &Ft8ReceiveWindow, slot: Ft8ReceiveSlot, mapping_age_millis: u64) -> (res: Result<ReceiveWindowAlignment, ReceiveClockFault>)
        ensures
            match alignment_outcome(self@, window.spec_mapping().monotonic_millis, slot@) {
                Ok(predicted) => res matches Ok(a) && a.slot == slot && a.slot_start_monotonic@ == predicted
                    && a.mapping_age_millis == mapping_age_millis,
                Err(f) => res == Err::<ReceiveWindowAlignment, ReceiveClockFault>(f),
            },
    {
        let slot_start = slot.start_utc_unix_millis();
        let utc_delta: i128 = slot_start as i128 - self.last_accepted.utc.unix_millis() as i128;
        let predicted: i128 = self.last_accepted.monotonic.millis() as i128 + utc_delta;
        if predicted < 0 || predicted > u64::MAX as i128 {
            return Err(ReceiveClockFault::ArithmeticOverflow);
        }
        let divergence: i128 = window.mapping().monotonic_millis as i128 - predicted;
        if divergence < i64::MIN as i128 || divergence > i64::MAX as i128 {
            return Err(ReceiveClockFault::ArithmeticOverflow);
        }
        let divergence: i64 = divergence as i64;
        let magnitude: u64 = if divergence >= 0 { divergence as u64 } else { ((-(divergence + 1)) as u64) + 1 };
        if magnitude > self.config.jump_tolerance_millis {
            return Err(ReceiveClockFault::WindowMisaligned { divergence_millis: divergence });
        }
        Ok(ReceiveWindowAlignment {
            slot,
            slot_start_monotonic: MonotonicInstant::from_millis(predicted as u64),
            mapping_age_millis,
        })
    }

    fn compare(&self, previous: ClockSample, current: ClockSample) -> (res: Option<ReceiveClockFault>)
        ensures
            res == compare_outcome(self@.config, previous, current),
    {
        let utc_delta = match current.utc.unix_millis().checked_sub(previous.utc.unix_millis()) {
            Some(d) => d,
            None => {
                return Some(ReceiveClockFault::ArithmeticOverflow);
            },
        };
        let monotonic_delta = match current.monotonic.millis().checked_sub(previous.monotonic.millis()) {
            Some(d) => d,
            None => {
                return Some(ReceiveClockFault::TimelineRegressed);
            },
        };
        let wide: i128 = utc_delta as i128 - monotonic_delta as i128;
        let divergence: i64 = if wide > i64::MAX as i128 {
            i64::MAX
        } else if wide < i64::MIN as i128 {
            i64::MIN
        } else {
            wide as i64
        };
        if utc_delta < 0 {
            return Some(ReceiveClockFault::UtcJump { divergence_millis: divergence });
        }
        if monotonic_delta > self.config.max_sample_gap_millis {
            return Some(ReceiveClockFault::SampleGap { gap_millis: monotonic_delta });
        }
        let magnitude: u64 = if divergence >= 0 { divergence as u64 } else { ((-(divergence + 1)) as u64) + 1 };
        if magnitude > self.config.jump_tolerance_millis {
            Some(ReceiveClockFault::UtcJump { divergence_millis: divergence })
        } else {
            None
        }
    }

    fn latch(&mut self, fault: ReceiveClockFault, observed_at: MonotonicInstant, recovery_last: Option<ClockSample>) -> (res: ReceiveClockTransition)
        ensures
            final(self)@ == latched(old(self)@, fault, recovery_last),
            latch_transition(old(self)@, final(self)@, observed_at, res),
    {
        proof {
            use_type_invariant(&*self);
        }
        let was_healthy = match self.state {
            ReceiveClockState::Healthy => true,
            _ => false,
        };
        self.state = ReceiveClockState::Unhealthy {
            fault,
            recovery_progress: if recovery_last.is_some() { 1 } else { 0 },
            recovery_required: self.config.recovery_samples,
        };
        self.recovery_last = recovery_last;
        if was_healthy {
            ReceiveClockTransition::BecameUnhealthy(self.snapshot_unchecked(observed_at))
        } else {
            ReceiveClockTransition::Unhealthy(self.snapshot_unchecked(observed_at))
        }
    }

    fn snapshot_unchecked(&self, observed_at: MonotonicInstant) -> (res: ReceiveClockSnapshot)
        ensures
            snapshot_of(res, self@, observed_at),
    {
        let next_sample_due = match self.next_sample_due() {
            Ok(d) => d,
            Err(_) => MonotonicInstant::from_millis(u64::MAX),
        };
        ReceiveClockSnapshot {
            generation: self.generation,
            state: self.state,
            last_accepted: self.last_accepted,
            observed_at,
            mapping_age_millis: observed_at.millis().saturating_sub(self.last_accepted.monotonic.millis()),
            next_sample_due,
        }
    }
}


/// The outcome of offering one observation to a monitor at the observation's
/// own monotonic instant, once the sampling cadence is due.
pub open spec fn poll_relation(
    m: ReceiveClockMonitorView,
    obs: GenerationClockSample,
    after: ReceiveClockMonitorView,
    res: Result<ReceiveClockPoll, ReceiveClockError>,
) -> bool {
    match next_due(m) {
        None => res == Err::<ReceiveClockPoll, ReceiveClockError>(ReceiveClockError::ArithmeticOverflow) && after == m,
        Some(due) => if obs.sample.monotonic@ < due {
            after == m && (res matches Ok(ReceiveClockPoll::NotDue { next_sample_due }) && next_sample_due@ == due)
        } else {
            res matches Ok(ReceiveClockPoll::Observed(t)) && observe_relation(m, obs, obs.sample.monotonic, after, t)
        },
    }
}

impl ReceiveClockMonitor {
    /// Delivers one sampled observation when the monotonic cadence is due.
    pub fn poll_observation(&mut self, observation: GenerationClockSample) -> (res: Result<ReceiveClockPoll, ReceiveClockError>)
        ensures
            poll_relation(old(self)@, observation, final(self)@, res),
    {
        let due = match self.next_sample_due() {
            Ok(d) => d,
            Err(e) => {
                return Err(e);
            },
        };
        if observation.sample.monotonic.millis() < due.millis() {
            return Ok(ReceiveClockPoll::NotDue { next_sample_due: due });
        }
        Ok(ReceiveClockPoll::Observed(self.observe(observation, observation.sample.monotonic)))
    }
}

/// Nonblocking cadence driver for a production or fake clock source.
///
/// The daemon may call `poll` from its own event loop. The driver never sleeps
/// or spawns a thread and samples only when the monotonic cadence is due.
pub struct ReceiveClockDriver<C> {
    source: C,
    monitor: ReceiveClockMonitor,
}

impl<C: ReceiveClockSource> ReceiveClockDriver<C> {
    /// The state of the owned monitor.
    pub closed spec fn spec_monitor(&self) -> ReceiveClockMonitorView {
        self.monitor@
    }

    /// Composes one source with its same-generation monitor.
    pub fn new(source: C, monitor: ReceiveClockMonitor) -> (res: Self)
        ensures
            res.spec_monitor() == monitor@,
    {
        ReceiveClockDriver { source, monitor }
    }

    /// Polls once without blocking or sleeping.
    pub fn poll(&mut self) -> (res: Result<ReceiveClockPoll, ReceiveClockError>)
        ensures
            res is Err ==> final(self).spec_monitor() == old(self).spec_monitor(),
            res is Ok ==> exists|obs: GenerationClockSample| poll_relation(old(self).spec_monitor(), obs, final(self).spec_monitor(), res),
    {
        let sampled = self.source.sample();
        self.poll_sampled(sampled)
    }

    /// Completes one poll with what the source returned: a source error is
    /// handed back unchanged and leaves the monitor as it was; a sample is
    /// offered to the monitor's cadence.
    pub fn poll_sampled(&mut self, sampled: Result<GenerationClockSample, ReceiveClockError>) -> (res: Result<
        ReceiveClockPoll,
        ReceiveClockError,
    >)
        ensures
            match sampled {
                Err(e) => res == Err::<ReceiveClockPoll, ReceiveClockError>(e) && final(self).spec_monitor()
                    == old(self).spec_monitor(),
                Ok(obs) => poll_relation(old(self).spec_monitor(), obs, final(self).spec_monitor(), res),
            },
    {
        let observation = match sampled {
            Ok(o) => o,
            Err(e) => {
                return Err(e);
            },
        };
        self.monitor.poll_observation(observation)
    }

    /// Returns mutable access to the owned receive gate and snapshots.
    pub fn monitor_mut(&mut self) -> (res: &mut ReceiveClockMonitor)
        ensures
            res@ == old(self).spec_monitor(),
            final(self).spec_monitor() == final(res)@,
    {
        &mut self.monitor
    }
}

/// Unhealthy time never yields a ready window: whenever gating returns
/// `WindowReady`, the monitor was healthy with a mapping no older than the
/// freshness bound, the window agreed with the mapping within the jump
/// tolerance, and the monitor stays healthy.
pub proof fn law_unhealthy_time_never_releases_windows(
    before: ReceiveClockMonitorView,
    event: ReceiveTimelineEvent,
    at: MonotonicInstant,
    after: ReceiveClockMonitorView,
    res: ClockGatedTimelineEvent,
)
    requires
        gate_relation(before, event, at, after, res),
        res is WindowReady,
    ensures
        before.state is Healthy,
        sat_sub(at@, before.last_accepted.monotonic@) <= before.config.freshness_millis,
        after.state is Healthy,
        event matches ReceiveTimelineEvent::Window(w)
            && alignment_outcome(before, w.spec_mapping().monotonic_millis, w.spec_slot_start()) is Ok,
{
}

/// A latched monitor recovers only after the configured number of consecutive
/// consistent observations: a `Recovered` transition out of an unhealthy state
/// completes a recovery count that reached the required count.
pub proof fn law_recovery_requires_consecutive_samples(
    m: ReceiveClockMonitorView,
    obs: GenerationClockSample,
    at: MonotonicInstant,
    after: ReceiveClockMonitorView,
    t: ReceiveClockTransition,
)
    requires
        config_ok(m.config),
        observe_relation(m, obs, at, after, t),
        t is Recovered,
    ensures
        m.state matches ReceiveClockState::Unhealthy { recovery_progress, recovery_required, .. }
            && recovery_progress + 1 >= recovery_required,
        after.state is Healthy,
        after.last_accepted == obs.sample,
{
}

} // verus!
