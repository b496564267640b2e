//! UTC/monotonic mapping and deterministic virtual time.
use vstd::prelude::*;
use crate::domain::radio::{OperatingMode, UtcSlot, mode_slot_millis, aligned_slot};

verus! {

/// Failure mapping protocol time to monotonic deadlines.
#[derive(Debug, Clone, Copy, PartialEq, Eq, Structural)]
pub enum SlotTimeError {
    /// UTC time predates the supported epoch.
    BeforeUnixEpoch,
    /// A requested UTC deadline is already in the past.
    MissedDeadline,
    /// Integer time arithmetic exceeded the bounded representation.
    ArithmeticOverflow,
    /// A protocol slot was not aligned to its mode.
    MisalignedSlot,
}

/// UTC milliseconds since the Unix epoch.
#[derive(Debug, Clone, Copy, PartialEq, Eq, PartialOrd, Ord, Structural)]
pub struct UtcInstant {
    millis: i64,
}

impl View for UtcInstant {
    type V = i64;

    closed spec fn view(&self) -> i64 {
        self.millis
    }
}

impl UtcInstant {
    #[verifier::type_invariant]
    spec fn inv(self) -> bool {
        self.millis >= 0
    }

    /// Constructs a non-negative UTC instant.
    pub fn from_unix_millis(value: i64) -> (res: Result<Self, SlotTimeError>)
        ensures
            match res {
                Ok(u) => value >= 0 && u@ == value,
                Err(e) => value < 0 && e == SlotTimeError::BeforeUnixEpoch,
            },
    {
        if value < 0 {
            return Err(SlotTimeError::BeforeUnixEpoch);
        }
        Ok(UtcInstant { millis: value })
    }

    /// Returns milliseconds since the Unix epoch.
    pub fn unix_millis(self) -> (res: i64)
        ensures
            res == self@,
            res >= 0,
    {
        proof {
            use_type_invariant(&self);
        }
        self.millis
    }
}

/// Monotonic milliseconds from a process-local origin.
#[derive(Debug, Clone, Copy, PartialEq, Eq, PartialOrd, Ord, Structural)]
pub struct MonotonicInstant {
    millis: u64,
}

impl View for MonotonicInstant {
    type V = u64;

    closed spec fn view(&self) -> u64 {
        self.millis
    }
}

impl MonotonicInstant {
    /// Constructs a process-local monotonic instant.
    pub fn from_millis(value: u64) -> (res: Self)
        ensures
            res@ == value,
    {
        MonotonicInstant { millis: value }
    }

    /// Returns milliseconds from the process-local origin.
    pub fn millis(self) -> (res: u64)
        ensures
            res == self@,
    {
        self.millis
    }
}

/// A future scheduling value expressed only on the monotonic timeline.
#[derive(Debug, Clone, Copy, PartialEq, Eq, PartialOrd, Ord, Structural)]
pub struct MonotonicDeadline {
    instant: MonotonicInstant,
}

impl View for MonotonicDeadline {
    type V = u64;

    closed spec fn view(&self) -> u64 {
        self.instant@
    }
}

impl MonotonicDeadline {
    /// Returns the monotonic instant at which the deadline occurs.
    pub fn instant(self) -> (res: MonotonicInstant)
        ensures
            res@ == self@,
    {
        self.instant
    }

    /// Returns whether this deadline has expired at the supplied sample.
    pub fn is_expired_at(self, now: MonotonicInstant) -> (res: bool)
        ensures
            res == (now@ >= self@),
    {
        now.millis >= self.instant.millis
    }
}

/// A simultaneous observation of UTC and monotonic time.
#[derive(Debug, Clone, Copy, PartialEq, Eq, Structural)]
pub struct ClockSample {
    /// Observed UTC time.
    pub utc: UtcInstant,
    /// Observed process-local monotonic time.
    pub monotonic: MonotonicInstant,
}

/// The monotonic instant at which UTC `target` occurs under the mapping `(utc, mono)`.
pub open spec fn deadline_result(utc: int, mono: int, target: int) -> Result<int, SlotTimeError> {
    if target - utc < 0 {
        Err(SlotTimeError::MissedDeadline)
    } else if mono + (target - utc) > u64::MAX {
        Err(SlotTimeError::ArithmeticOverflow)
    } else {
        Ok(mono + (target - utc))
    }
}

/// Start of the first slot strictly after `utc`.
pub open spec fn next_slot_start(utc: int, duration: int) -> int {
    (utc / duration + 1) * duration
}

/// Start of the slot containing `utc`.
pub open spec fn current_slot_start(utc: int, duration: int) -> int {
    utc - utc % duration
}

impl ClockSample {
    /// Maps a future UTC instant to a monotonic deadline.
    pub fn deadline_for(self, target: UtcInstant) -> (res: Result<MonotonicDeadline, SlotTimeError>)
        ensures
            match res {
                Ok(d) => deadline_result(self.utc@ as int, self.monotonic@ as int, target@ as int) == Ok::<int, SlotTimeError>(d@ as int),
                Err(e) => deadline_result(self.utc@ as int, self.monotonic@ as int, target@ as int) == Err::<int, SlotTimeError>(e),
            },
    {
        let now = self.utc.unix_millis();
        let t = target.unix_millis();
        if t < now {
            return Err(SlotTimeError::MissedDeadline);
        }
        let delta = (t - now) as u64;
        let mono = self.monotonic.millis();
        if mono > u64::MAX - delta {
            return Err(SlotTimeError::ArithmeticOverflow);
        }
        Ok(MonotonicDeadline { instant: MonotonicInstant { millis: mono + delta } })
    }

    /// Returns the first protocol slot strictly after this sample, with its
    /// monotonic deadline.
    pub fn next_slot(self, mode: OperatingMode) -> (res: Result<(UtcSlot, MonotonicDeadline), SlotTimeError>)
        ensures
            ({
                let start = next_slot_start(self.utc@ as int, mode_slot_millis(mode) as int);
                match res {
                    Ok((slot, d)) => start <= i64::MAX && slot@ == (mode, start as i64)
                        && deadline_result(self.utc@ as int, self.monotonic@ as int, start) == Ok::<int, SlotTimeError>(d@ as int),
                    Err(e) => if start > i64::MAX {
                        e == SlotTimeError::ArithmeticOverflow
                    } else {
                        deadline_result(self.utc@ as int, self.monotonic@ as int, start) == Err::<int, SlotTimeError>(e)
                    },
                }
            }),
    {
        let duration = mode.slot_millis();
        let now = self.utc.unix_millis();
        let index = now / duration;
        if index > i64::MAX / duration - 1 {
            proof {
                assert((index + 1) * duration > i64::MAX) by (nonlinear_arith)
                    requires index > i64::MAX / duration - 1, duration > 0;
            }
            return Err(SlotTimeError::ArithmeticOverflow);
        }
        proof {
            assert((index + 1) * duration <= i64::MAX) by (nonlinear_arith)
                requires index <= i64::MAX / duration - 1, duration > 0;
            assert((index + 1) * duration >= 0) by (nonlinear_arith)
                requires index >= 0, duration > 0;
        }
        let start = (index + 1) * duration;
        proof {
            assert(start % duration == 0) by (nonlinear_arith)
                requires start == (index + 1) * duration, duration > 0;
        }
        let utc = match UtcInstant::from_unix_millis(start) {
            Ok(u) => u,
            Err(e) => {
                return Err(e);
            },
        };
        let slot = match UtcSlot::new(mode, start) {
            Ok(s) => s,
            Err(_) => {
                return Err(SlotTimeError::MisalignedSlot);
            },
        };
        match self.deadline_for(utc) {
            Ok(d) => Ok((slot, d)),
            Err(e) => Err(e),
        }
    }

    /// Returns the aligned protocol slot containing this sample.
    pub fn current_slot(self, mode: OperatingMode) -> (res: Result<UtcSlot, SlotTimeError>)
        ensures
            res matches Ok(slot) && slot@ == (mode, current_slot_start(self.utc@ as int, mode_slot_millis(mode) as int) as i64),
    {
        let now = self.utc.unix_millis();
        let duration = mode.slot_millis();
        let start = now - now % duration;
        proof {
            assert(start % duration == 0) by (nonlinear_arith)
                requires start == now - now % duration, duration > 0, now >= 0;
        }
        match UtcSlot::new(mode, start) {
            Ok(slot) => Ok(slot),
            Err(_) => Err(SlotTimeError::MisalignedSlot),
        }
    }
}

/// Source of paired UTC and monotonic observations.
pub trait Clock {
    /// Samples both timelines as one mapping point.
    fn sample(&self) -> ClockSample;
}

/// A clock advanced explicitly by tests and deterministic simulations.
#[derive(Debug)]
pub struct VirtualClock {
    state: ClockSample,
}

impl View for VirtualClock {
    type V = ClockSample;

    closed spec fn view(&self) -> ClockSample {
        self.state
    }
}

impl VirtualClock {
    /// Creates a virtual clock at one sampled mapping.
    pub fn new(sample: ClockSample) -> (res: Self)
        ensures
            res@ == sample,
    {
        VirtualClock { state: sample }
    }

    /// Advances UTC and monotonic time together without sleeping.
    pub fn advance(&mut self, millis: u64) -> (res: Result<(), SlotTimeError>)
        ensures
            ({
                let fits = old(self)@.utc@ + millis <= i64::MAX && old(self)@.monotonic@ + millis <= u64::MAX;
                match res {
                    Ok(()) => fits && final(self)@.utc@ == old(self)@.utc@ + millis
                        && final(self)@.monotonic@ == old(self)@.monotonic@ + millis,
                    Err(e) => !fits && e == SlotTimeError::ArithmeticOverflow && final(self)@ == old(self)@,
                }
            }),
    {
        let utc = self.state.utc.unix_millis();
        let mono = self.state.monotonic.millis();
        if millis > i64::MAX as u64 || utc > i64::MAX - (millis as i64) {
            return Err(SlotTimeError::ArithmeticOverflow);
        }
        if mono > u64::MAX - millis {
            return Err(SlotTimeError::ArithmeticOverflow);
        }
        self.state = ClockSample {
            utc: UtcInstant { millis: utc + millis as i64 },
            monotonic: MonotonicInstant { millis: mono + millis },
        };
        Ok(())
    }

    /// Moves only wall-clock UTC to inject a jump while monotonic time continues.
    pub fn jump_utc(&mut self, delta_millis: i64) -> (res: Result<(), SlotTimeError>)
        ensures
            ({
                let updated = old(self)@.utc@ + delta_millis;
                match res {
                    Ok(()) => 0 <= updated <= i64::MAX && final(self)@.utc@ == updated
                        && final(self)@.monotonic == old(self)@.monotonic,
                    Err(e) => final(self)@ == old(self)@ && if updated > i64::MAX {
                        e == SlotTimeError::ArithmeticOverflow
                    } else {
                        updated < 0 && e == SlotTimeError::BeforeUnixEpoch
                    },
                }
            }),
    {
        let utc = self.state.utc.unix_millis();
        if delta_millis > 0 && utc > i64::MAX - delta_millis {
            return Err(SlotTimeError::ArithmeticOverflow);
        }
        let updated = utc + delta_millis;
        if updated < 0 {
            return Err(SlotTimeError::BeforeUnixEpoch);
        }
        self.state = ClockSample { utc: UtcInstant { millis: updated }, monotonic: self.state.monotonic };
        Ok(())
    }

    /// Returns the current mapping.
    pub fn sample(&self) -> (res: ClockSample)
        ensures
            res == self@,
    {
        self.state
    }
}

impl Clock for VirtualClock {
    fn sample(&self) -> ClockSample {
        self.state
    }
}

/// Observable reason a clock mapping became unhealthy.
#[derive(Debug, Clone, Copy, PartialEq, Eq, Structural)]
pub enum ClockFault {
    /// UTC progress diverged from monotonic progress beyond tolerance.
    WallClockJump {
        /// Signed UTC-minus-monotonic divergence in milliseconds.
        divergence_millis: i64,
    },
    /// A sampled timeline moved backwards.
    TimelineRegressed,
}

/// Typed clock-health state.
#[derive(Debug, Clone, Copy, PartialEq, Eq, Structural)]
pub enum ClockHealth {
    /// UTC and monotonic progress remain within tolerance.
    Healthy,
    /// The sampled mapping is unsafe for synchronized scheduling.
    Unhealthy(ClockFault),
}

/// Clamps an integer into the `i64` range.
pub open spec fn clamp_i64(x: int) -> i64 {
    if x > i64::MAX { i64::MAX } else if x < i64::MIN { i64::MIN } else { x as i64 }
}

pub open spec fn abs(x: int) -> int {
    if x < 0 { -x } else { x }
}

/// The health after comparing `sample` with the last accepted mapping `last`.
pub open spec fn monitor_step(last: ClockSample, sample: ClockSample, tolerance: u64) -> ClockHealth {
    let utc_delta = sample.utc@ - last.utc@;
    let mono_delta = sample.monotonic@ - last.monotonic@;
    if mono_delta < 0 || utc_delta < 0 {
        ClockHealth::Unhealthy(ClockFault::TimelineRegressed)
    } else {
        let mono = if mono_delta > i64::MAX { i64::MAX as int } else { mono_delta };
        let divergence = clamp_i64(utc_delta - mono);
        if abs(divergence as int) > tolerance {
            ClockHealth::Unhealthy(ClockFault::WallClockJump { divergence_millis: divergence })
        } else {
            ClockHealth::Healthy
        }
    }
}

/// Stateful comparison of sampled UTC/monotonic mappings.
#[derive(Debug, Clone, Copy)]
pub struct ClockMonitor {
    last: ClockSample,
    tolerance_millis: u64,
    health: ClockHealth,
}

impl ClockMonitor {
    pub closed spec fn spec_last(self) -> ClockSample {
        self.last
    }

    pub closed spec fn spec_tolerance(self) -> u64 {
        self.tolerance_millis
    }

    pub closed spec fn spec_health(self) -> ClockHealth {
        self.health
    }

    /// Starts a healthy monitor from an initial mapping and jump tolerance.
    pub fn new(initial: ClockSample, tolerance_millis: u64) -> (res: Self)
        ensures
            res.spec_last() == initial,
            res.spec_tolerance() == tolerance_millis,
            res.spec_health() == ClockHealth::Healthy,
    {
        ClockMonitor { last: initial, tolerance_millis, health: ClockHealth::Healthy }
    }

    /// Observes a new sample and latches unhealthy state after inconsistency.
    pub fn observe(&mut self, sample: ClockSample) -> (res: ClockHealth)
        ensures
            observe_relation(*old(self), sample, *final(self), res),
    {
        match self.health {
            ClockHealth::Unhealthy(_) => {
                return self.health;
            },
            ClockHealth::Healthy => {},
        }
        let utc_now = sample.utc.unix_millis();
        let utc_last = self.last.utc.unix_millis();
        let utc_delta = utc_now - utc_last;
        let mono_now = sample.monotonic.millis();
        let mono_last = self.last.monotonic.millis();
        if mono_now < mono_last {
            self.health = ClockHealth::Unhealthy(ClockFault::TimelineRegressed);
            return self.health;
        }
        if utc_delta < 0 {
            self.health = ClockHealth::Unhealthy(ClockFault::TimelineRegressed);
            return self.health;
        }
        let mono_delta = mono_now - mono_last;
        let mono: i64 = if mono_delta > i64::MAX as u64 { i64::MAX } else { mono_delta as i64 };
        let wide: i128 = utc_delta as i128 - mono as i128;
        let divergence: i64 = if wide > i64::MAX as i128 {
            i64::MAX
        } else if wide < i64::MIN as i128 {
            i64::MIN
        } else {
            wide as i64
        };
        let magnitude: u64 = if divergence < 0 {
            if divergence == i64::MIN { 0x8000_0000_0000_0000u64 } else { (-divergence) as u64 }
        } else {
            divergence as u64
        };
        if magnitude > self.tolerance_millis {
            self.health = ClockHealth::Unhealthy(ClockFault::WallClockJump { divergence_millis: divergence });
        } else {
            self.last = sample;
        }
        self.health
    }

    /// Returns the current latched health state.
    pub fn health(self) -> (res: ClockHealth)
        ensures
            res == self.spec_health(),
    {
        self.health
    }
}

/// Once a monitor is unhealthy, no observation changes its state.
pub proof fn law_clock_monitor_latches(before: ClockMonitor, after: ClockMonitor, sample: ClockSample, res: ClockHealth)
    requires
        before.spec_health() != ClockHealth::Healthy,
        observe_relation(before, sample, after, res),
    ensures
        after == before,
        res == before.spec_health(),
{
}

/// The relation `observe` establishes between a monitor before and after one sample.
pub open spec fn observe_relation(before: ClockMonitor, sample: ClockSample, after: ClockMonitor, res: ClockHealth) -> bool {
    &&& after.spec_tolerance() == before.spec_tolerance()
    &&& res == after.spec_health()
    &&& before.spec_health() != ClockHealth::Healthy ==> after == before
    &&& before.spec_health() == ClockHealth::Healthy ==> {
        &&& res == monitor_step(before.spec_last(), sample, before.spec_tolerance())
        &&& after.spec_last() == if res == ClockHealth::Healthy { sample } else { before.spec_last() }
    }
}

} // verus!
