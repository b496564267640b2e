//! Lifecycle decisions of the live FT8 receive coordinator.
//!
//! A coordinator that owns the input, the receive timeline, the clock monitor,
//! the decoder and the store applies each transition of its serialized state
//! through `ReceiveLifecycle` and performs the input work around it. The
//! lifecycle is `Stopped` after construction or restart, reserves a fresh
//! stream generation for every start attempt, and once inhibited stays
//! inhibited until an explicit stop. No fault path starts input, switches
//! devices or advances a generation.
use vstd::prelude::*;
use crate::audio::capture::InputCaptureError;
use crate::audio::timeline::ReceiveTimelineError;
use crate::audio::{InputFaultKind, InputHealth, ProcessGeneration, StreamGeneration};
use crate::domain::ids::IdError;
use crate::operations::receive_clock::{ReceiveClockError, ReceiveClockFault};
use crate::protocol::PcmError;

verus! {

/// Worker-side batch backlog owned by one coordinator.
pub const WORKER_BATCH_CAPACITY: usize = 4;

/// Stable reason receive entered an inhibited/faulted state.
#[derive(Debug, Clone, Copy, PartialEq, Eq, Structural)]
pub enum ReceiveInhibition {
    /// Exact input could not start or failed after start.
    Input(InputFaultKind),
    /// Capture continuity or canonical timeline validation failed.
    Timeline(ReceiveTimelineError),
    /// UTC/monotonic evidence cannot safely align receive.
    Clock(ReceiveClockFault),
    /// The bounded worker backlog could not admit more work.
    WorkerBackpressure,
    /// The owned FT8 decoder rejected or failed a complete window.
    DecoderFailure,
    /// Atomic durable receive persistence failed.
    StorageFailure,
}

/// Explicit reason an active coordinator was stopped.
#[derive(Debug, Clone, Copy, PartialEq, Eq, Structural)]
pub enum ReceiveStopReason {
    /// A daemon-internal caller explicitly requested shutdown.
    Requested,
    /// Daemon cancellation requested shutdown.
    Cancelled,
}

/// Serialized lifecycle state for one daemon process.
#[derive(Debug, Clone, Copy, PartialEq, Eq, Structural)]
pub enum ReceiveLifecycleState {
    /// No input exists. This is also the only restart state.
    Stopped {
        /// Daemon process generation.
        process_generation: ProcessGeneration,
        /// Last issued stream generation, or zero before the first start.
        last_stream_generation: u64,
    },
    /// Exact selected input is being opened.
    Starting {
        /// Fresh stream generation reserved for this attempt.
        stream_generation: StreamGeneration,
    },
    /// Input and worker coordinator are active.
    Receiving {
        /// Current stream generation.
        stream_generation: StreamGeneration,
    },
    /// Input was stopped and no work will continue implicitly.
    Inhibited {
        /// Generation whose evidence became unsafe.
        stream_generation: StreamGeneration,
        /// Exact owned reason.
        reason: ReceiveInhibition,
    },
    /// Input shutdown is in progress.
    Stopping {
        /// Generation being stopped.
        stream_generation: StreamGeneration,
        /// Explicit shutdown source.
        reason: ReceiveStopReason,
    },
}

/// The stream generation a state is about, if it is not `Stopped`.
pub open spec fn state_generation(s: ReceiveLifecycleState) -> Option<u64> {
    match s {
        ReceiveLifecycleState::Stopped { .. } => None,
        ReceiveLifecycleState::Starting { stream_generation } => Some(stream_generation@),
        ReceiveLifecycleState::Receiving { stream_generation } => Some(stream_generation@),
        ReceiveLifecycleState::Inhibited { stream_generation, .. } => Some(stream_generation@),
        ReceiveLifecycleState::Stopping { stream_generation, .. } => Some(stream_generation@),
    }
}

/// One serialized lifecycle transition.
#[derive(Debug, Clone, Copy, PartialEq, Eq, Structural)]
pub struct ReceiveLifecycleEvent {
    /// State before the serialized transition.
    pub previous: ReceiveLifecycleState,
    /// State after the serialized transition.
    pub current: ReceiveLifecycleState,
}

/// Failure validating or running the receive coordinator.
#[derive(Debug, Clone, PartialEq, Eq)]
pub enum ReceiveCoordinatorError {
    /// A lifecycle operation is invalid from the current state.
    InvalidLifecycle(ReceiveLifecycleState),
    /// The stream generation counter overflowed.
    StreamGenerationOverflow,
    /// Audio generation construction failed.
    InvalidStreamGeneration,
    /// Receive clock construction failed.
    Clock(ReceiveClockError),
    /// Canonical PCM construction failed.
    Pcm(PcmError),
    /// Deterministic receive identity construction failed.
    Identity(IdError),
}

/// The input fault that a capture control error stands for.
pub open spec fn capture_fault(error: InputCaptureError) -> InputFaultKind {
    match error {
        InputCaptureError::PermissionDenied => InputFaultKind::PermissionDenied,
        InputCaptureError::DeviceLost => InputFaultKind::DeviceLost,
        _ => InputFaultKind::BackendFailure,
    }
}

/// Classifies a capture control error as the input fault that inhibits receive.
pub fn capture_error_kind(error: InputCaptureError) -> (res: InputFaultKind)
    ensures
        res == capture_fault(error),
{
    match error {
        InputCaptureError::PermissionDenied => InputFaultKind::PermissionDenied,
        InputCaptureError::DeviceLost => InputFaultKind::DeviceLost,
        InputCaptureError::UnsupportedConfiguration
        | InputCaptureError::InvalidQueueCapacity
        | InputCaptureError::Stopped
        | InputCaptureError::BackendFailure => InputFaultKind::BackendFailure,
    }
}

/// The lifecycle as values: serialized state and last reserved stream generation.
pub type LifecycleView = (ReceiveLifecycleState, u64);

/// Whether a start attempt from `before` reserves the next generation and
/// enters `Starting` with it, giving `after`.
pub open spec fn start_reserves(before: LifecycleView, after: LifecycleView) -> bool {
    &&& before.0 is Stopped
    &&& before.1 < u64::MAX
    &&& after.1 == before.1 + 1
    &&& after.0 matches ReceiveLifecycleState::Starting { stream_generation } && stream_generation@ == after.1
}

/// The state an inhibition leaves: `Stopped` stays as it is, every other
/// state becomes `Inhibited` for its own generation.
pub open spec fn inhibited_state(s: ReceiveLifecycleState, reason: ReceiveInhibition) -> ReceiveLifecycleState {
    match s {
        ReceiveLifecycleState::Stopped { .. } => s,
        ReceiveLifecycleState::Starting { stream_generation } => ReceiveLifecycleState::Inhibited { stream_generation, reason },
        ReceiveLifecycleState::Receiving { stream_generation } => ReceiveLifecycleState::Inhibited {
            stream_generation,
            reason,
        },
        ReceiveLifecycleState::Inhibited { stream_generation, .. } => ReceiveLifecycleState::Inhibited {
            stream_generation,
            reason,
        },
        ReceiveLifecycleState::Stopping { stream_generation, .. } => ReceiveLifecycleState::Inhibited {
            stream_generation,
            reason,
        },
    }
}

/// An operation the coordinator applies to its lifecycle.
pub enum LifecycleOp {
    /// A start attempt and how opening input ended (`None`: receiving).
    Start(Option<ReceiveInhibition>),
    /// A fault observed while active.
    Inhibit(ReceiveInhibition),
    /// An explicit stop.
    Stop(ReceiveStopReason),
}

/// Whether applying `op` to `before` may give `after`.
pub open spec fn lifecycle_step(process: ProcessGeneration, before: LifecycleView, op: LifecycleOp, after: LifecycleView) -> bool {
    match op {
        LifecycleOp::Start(failure) => if before.0 is Stopped && before.1 < u64::MAX {
            &&& after.1 == before.1 + 1
            &&& match failure {
                None => after.0 matches ReceiveLifecycleState::Receiving { stream_generation } && stream_generation@
                    == after.1,
                Some(reason) => after.0 matches ReceiveLifecycleState::Inhibited { stream_generation, reason: r }
                    && stream_generation@ == after.1 && r == reason,
            }
        } else {
            after == before
        },
        LifecycleOp::Inhibit(reason) => after == (inhibited_state(before.0, reason), before.1),
        LifecycleOp::Stop(_) => if before.0 is Receiving || before.0 is Inhibited {
            after == (ReceiveLifecycleState::Stopped { process_generation: process, last_stream_generation: before.1 }, before.1)
        } else {
            after == before
        },
    }
}

/// Inhibited receive stays inhibited for its generation until an explicit
/// stop: neither a start attempt nor a further fault resumes it.
pub proof fn law_inhibited_until_stopped(process: ProcessGeneration, before: LifecycleView, op: LifecycleOp, after: LifecycleView)
    requires
        before.0 is Inhibited,
        !(op is Stop),
        lifecycle_step(process, before, op, after),
    ensures
        after.0 is Inhibited,
        state_generation(after.0) == state_generation(before.0),
        after.1 == before.1,
{
}

/// Stream generations are never reused: every operation keeps or advances the
/// last reserved generation, and an accepted start takes a fresh one above it.
pub proof fn law_generations_advance(process: ProcessGeneration, before: LifecycleView, op: LifecycleOp, after: LifecycleView)
    requires
        lifecycle_step(process, before, op, after),
    ensures
        after.1 >= before.1,
        op is Start && before.0 is Stopped && before.1 < u64::MAX ==> after.1 == before.1 + 1 && state_generation(after.0)
            == Some(after.1),
{
}

/// Serialized lifecycle of one daemon process generation.
pub struct ReceiveLifecycle {
    process_generation: ProcessGeneration,
    state: ReceiveLifecycleState,
    last_stream_generation: u64,
}

impl View for ReceiveLifecycle {
    type V = LifecycleView;

    closed spec fn view(&self) -> LifecycleView {
        (self.state, self.last_stream_generation)
    }
}

impl ReceiveLifecycle {
    #[verifier::type_invariant]
    spec fn inv(self) -> bool {
        match self.state {
            ReceiveLifecycleState::Stopped { process_generation, last_stream_generation } => process_generation
                == self.process_generation && last_stream_generation == self.last_stream_generation,
            _ => state_generation(self.state) == Some(self.last_stream_generation),
        }
    }

    /// The process generation the lifecycle belongs to.
    pub closed spec fn spec_process(&self) -> ProcessGeneration {
        self.process_generation
    }

    /// An inactive lifecycle, as after construction or process restart.
    pub fn new(process_generation: ProcessGeneration) -> (res: Self)
        ensures
            res.spec_process() == process_generation,
            res@ == (ReceiveLifecycleState::Stopped { process_generation, last_stream_generation: 0 }, 0u64),
    {
        ReceiveLifecycle {
            process_generation,
            state: ReceiveLifecycleState::Stopped { process_generation, last_stream_generation: 0 },
            last_stream_generation: 0,
        }
    }

    /// Returns current serialized lifecycle state.
    pub fn state(&self) -> (res: ReceiveLifecycleState)
        ensures
            res == self@.0,
    {
        self.state
    }

    /// Returns the last reserved stream generation, or zero before the first start.
    pub fn last_stream_generation(&self) -> (res: u64)
        ensures
            res == self@.1,
    {
        self.last_stream_generation
    }

    fn transition(&mut self, current: ReceiveLifecycleState) -> (res: ReceiveLifecycleEvent)
        requires
            match current {
                ReceiveLifecycleState::Stopped { process_generation, last_stream_generation } => process_generation
                    == old(self).process_generation && last_stream_generation == old(self).last_stream_generation,
                _ => state_generation(current) == Some(old(self).last_stream_generation),
            },
        ensures
            res == (ReceiveLifecycleEvent { previous: old(self)@.0, current }),
            final(self)@ == (current, old(self)@.1),
            final(self).process_generation == old(self).process_generation,
    {
        let previous = self.state;
        self.state = current;
        ReceiveLifecycleEvent { previous, current }
    }

    /// Begins a start attempt: from `Stopped`, reserves the next stream
    /// generation, even if the attempt later fails, and enters `Starting`.
    pub fn begin_start(&mut self) -> (res: Result<(StreamGeneration, ReceiveLifecycleEvent), ReceiveCoordinatorError>)
        ensures
            final(self).spec_process() == old(self).spec_process(),
            match res {
                Ok((g, event)) => start_reserves(old(self)@, final(self)@) && g@ == final(self)@.1
                    && event == (ReceiveLifecycleEvent { previous: old(self)@.0, current: final(self)@.0 }),
                Err(e) => final(self)@ == old(self)@ && if old(self)@.0 is Stopped {
                    old(self)@.1 == u64::MAX && e == ReceiveCoordinatorError::StreamGenerationOverflow
                } else {
                    e == ReceiveCoordinatorError::InvalidLifecycle(old(self)@.0)
                },
            },
    {
        if !matches!(self.state, ReceiveLifecycleState::Stopped { .. }) {
            return Err(ReceiveCoordinatorError::InvalidLifecycle(self.state));
        }
        if self.last_stream_generation == u64::MAX {
            return Err(ReceiveCoordinatorError::StreamGenerationOverflow);
        }
        let next: u64 = self.last_stream_generation + 1;
        let stream_generation = match StreamGeneration::new(next) {
            Ok(g) => g,
            Err(_) => {
                return Err(ReceiveCoordinatorError::InvalidStreamGeneration);
            },
        };
        let previous = self.state;
        let current = ReceiveLifecycleState::Starting { stream_generation };
        *self = ReceiveLifecycle { process_generation: self.process_generation, state: current, last_stream_generation: next };
        Ok((stream_generation, ReceiveLifecycleEvent { previous, current }))
    }

    /// Ends a start attempt: `Receiving` when input opened, else `Inhibited`
    /// with the reason, for the reserved generation.
    pub fn finish_start(&mut self, failure: Option<ReceiveInhibition>) -> (res: Result<
        ReceiveLifecycleEvent,
        ReceiveCoordinatorError,
    >)
        ensures
            final(self).spec_process() == old(self).spec_process(),
            match old(self)@.0 {
                ReceiveLifecycleState::Starting { stream_generation } => final(self)@.1 == old(self)@.1 && res
                    == Ok::<ReceiveLifecycleEvent, ReceiveCoordinatorError>(
                    ReceiveLifecycleEvent { previous: old(self)@.0, current: final(self)@.0 },
                ) && match failure {
                    None => final(self)@.0 == ReceiveLifecycleState::Receiving { stream_generation },
                    Some(reason) => final(self)@.0 == ReceiveLifecycleState::Inhibited { stream_generation, reason },
                },
                _ => final(self)@ == old(self)@ && res == Err::<ReceiveLifecycleEvent, ReceiveCoordinatorError>(
                    ReceiveCoordinatorError::InvalidLifecycle(old(self)@.0),
                ),
            },
    {
        proof {
            use_type_invariant(&*self);
        }
        let stream_generation = match self.state {
            ReceiveLifecycleState::Starting { stream_generation } => stream_generation,
            _ => {
                return Err(ReceiveCoordinatorError::InvalidLifecycle(self.state));
            },
        };
        let current = match failure {
            None => ReceiveLifecycleState::Receiving { stream_generation },
            Some(reason) => ReceiveLifecycleState::Inhibited { stream_generation, reason },
        };
        Ok(self.transition(current))
    }

    /// Returns the active stream generation, or fails unless receiving.
    pub fn require_receiving(&self) -> (res: Result<StreamGeneration, ReceiveCoordinatorError>)
        ensures
            match self@.0 {
                ReceiveLifecycleState::Receiving { stream_generation } => res == Ok::<
                    StreamGeneration,
                    ReceiveCoordinatorError,
                >(stream_generation),
                _ => res == Err::<StreamGeneration, ReceiveCoordinatorError>(
                    ReceiveCoordinatorError::InvalidLifecycle(self@.0),
                ),
            },
    {
        match self.state {
            ReceiveLifecycleState::Receiving { stream_generation } => Ok(stream_generation),
            _ => Err(ReceiveCoordinatorError::InvalidLifecycle(self.state)),
        }
    }

    /// Records a fault: every state but `Stopped` becomes `Inhibited` for its
    /// own generation; the coordinator then stops input and drops its work.
    pub fn inhibit(&mut self, reason: ReceiveInhibition) -> (res: ReceiveLifecycleEvent)
        ensures
            final(self).spec_process() == old(self).spec_process(),
            final(self)@ == (inhibited_state(old(self)@.0, reason), old(self)@.1),
            res == (ReceiveLifecycleEvent { previous: old(self)@.0, current: final(self)@.0 }),
    {
        proof {
            use_type_invariant(&*self);
        }
        let stream_generation = match self.state {
            ReceiveLifecycleState::Receiving { stream_generation }
            | ReceiveLifecycleState::Starting { stream_generation }
            | ReceiveLifecycleState::Inhibited { stream_generation, .. }
            | ReceiveLifecycleState::Stopping { stream_generation, .. } => stream_generation,
            ReceiveLifecycleState::Stopped { .. } => {
                let current = self.state;
                return self.transition(current);
            },
        };
        self.transition(ReceiveLifecycleState::Inhibited { stream_generation, reason })
    }

    /// Explicitly stops or cancels receive: from `Receiving` or `Inhibited`,
    /// passes through `Stopping` to `Stopped`, which alone permits a new start.
    pub fn stop(&mut self, reason: ReceiveStopReason) -> (res: Result<Vec<ReceiveLifecycleEvent>, ReceiveCoordinatorError>)
        ensures
            final(self).spec_process() == old(self).spec_process(),
            old(self)@.0 is Receiving || old(self)@.0 is Inhibited ==> {
                let stopping = ReceiveLifecycleState::Stopping {
                    stream_generation: match old(self)@.0 {
                        ReceiveLifecycleState::Receiving { stream_generation } => stream_generation,
                        ReceiveLifecycleState::Inhibited { stream_generation, .. } => stream_generation,
                        _ => arbitrary(),
                    },
                    reason,
                };
                let stopped = ReceiveLifecycleState::Stopped {
                    process_generation: old(self).spec_process(),
                    last_stream_generation: old(self)@.1,
                };
                &&& res matches Ok(events) && events@ == seq![
                    ReceiveLifecycleEvent { previous: old(self)@.0, current: stopping },
                    ReceiveLifecycleEvent { previous: stopping, current: stopped },
                ]
                &&& final(self)@ == (stopped, old(self)@.1)
            },
            !(old(self)@.0 is Receiving || old(self)@.0 is Inhibited) ==> final(self)@ == old(self)@ && res == Err::<
                Vec<ReceiveLifecycleEvent>,
                ReceiveCoordinatorError,
            >(ReceiveCoordinatorError::InvalidLifecycle(old(self)@.0)),
    {
        proof {
            use_type_invariant(&*self);
        }
        let stream_generation = match self.state {
            ReceiveLifecycleState::Receiving { stream_generation }
            | ReceiveLifecycleState::Inhibited { stream_generation, .. } => stream_generation,
            _ => {
                return Err(ReceiveCoordinatorError::InvalidLifecycle(self.state));
            },
        };
        let first = self.transition(ReceiveLifecycleState::Stopping { stream_generation, reason });
        let stopped = ReceiveLifecycleState::Stopped {
            process_generation: self.process_generation,
            last_stream_generation: self.last_stream_generation,
        };
        let second = self.transition(stopped);
        let mut events: Vec<ReceiveLifecycleEvent> = Vec::new();
        events.push(first);
        events.push(second);
        Ok(events)
    }
}

/// One observation the receive worker reports between its pieces of outside
/// work: reading input faults and health, the clock, taking a batch, the
/// timeline, the clock gate, decoding and persisting a window.
#[derive(Debug, Clone, Copy, PartialEq, Eq, Structural)]
pub enum WorkerObservation {
    /// The input queued a fault.
    InputFault(InputFaultKind),
    /// The input's health could not be read.
    HealthUnavailable(InputCaptureError),
    /// The input's health counters.
    Health(InputHealth),
    /// The clock mapping is unhealthy.
    ClockUnhealthy(ReceiveClockFault),
    /// Taking the next batch failed.
    BatchUnavailable(InputCaptureError),
    /// The timeline refused a batch.
    TimelineRejected(ReceiveTimelineError),
    /// The timeline withheld an incomplete slot.
    SlotIncomplete {
        /// UTC start of the slot.
        slot_start_utc_millis: i64,
        /// Canonical samples it had accumulated.
        accumulated_samples: u32,
    },
    /// The clock gate refused a complete window.
    WindowRejected(ReceiveClockFault),
    /// The decoder failed on a complete window.
    DecoderFailed,
    /// Building or persisting the receive record failed.
    StorageFailed,
}

/// What the worker does after an observation.
#[derive(Debug, Clone, Copy, PartialEq, Eq, Structural)]
pub enum WorkerAction {
    /// Go on with the next piece of work.
    Continue,
    /// Report the withheld slot and go on.
    ReportIncomplete {
        /// UTC start of the slot.
        slot_start_utc_millis: i64,
        /// Canonical samples it had accumulated.
        accumulated_samples: u32,
    },
    /// Receive was inhibited: stop input and drop the remaining work.
    Inhibited(ReceiveLifecycleEvent),
}

/// The inhibition an observation owes: any input fault or failed input read,
/// any queue overflow, unhealthy clock evidence, a refused batch or window, a
/// decoder failure or a storage failure; a withheld slot and healthy counters
/// owe none.
pub open spec fn observation_inhibition(o: WorkerObservation) -> Option<ReceiveInhibition> {
    match o {
        WorkerObservation::InputFault(kind) => Some(ReceiveInhibition::Input(kind)),
        WorkerObservation::HealthUnavailable(e) => Some(ReceiveInhibition::Input(capture_fault(e))),
        WorkerObservation::Health(h) => if h.overflow_count > 0 {
            Some(ReceiveInhibition::Input(InputFaultKind::Overflow { dropped_frames: 0 }))
        } else {
            None
        },
        WorkerObservation::ClockUnhealthy(fault) => Some(ReceiveInhibition::Clock(fault)),
        WorkerObservation::BatchUnavailable(e) => Some(ReceiveInhibition::Input(capture_fault(e))),
        WorkerObservation::TimelineRejected(e) => Some(ReceiveInhibition::Timeline(e)),
        WorkerObservation::SlotIncomplete { .. } => None,
        WorkerObservation::WindowRejected(fault) => Some(ReceiveInhibition::Clock(fault)),
        WorkerObservation::DecoderFailed => Some(ReceiveInhibition::DecoderFailure),
        WorkerObservation::StorageFailed => Some(ReceiveInhibition::StorageFailure),
    }
}

/// Law: the worker may go on only after a withheld slot or input counters
/// that report no overflow; every other observation carries fault evidence and
/// inhibits receive with a reason that carries that evidence: unhealthy clock
/// evidence, whether reported directly or by a refused window, inhibits with
/// the clock fault itself, a queued input fault with that fault, and a refused
/// batch with the timeline's error.
pub proof fn law_fault_evidence_inhibits(observation: WorkerObservation)
    ensures
        observation_inhibition(observation) is None <==> (observation is SlotIncomplete
            || (observation matches WorkerObservation::Health(h) && h.overflow_count == 0)),
        observation matches WorkerObservation::ClockUnhealthy(f) ==> observation_inhibition(observation)
            == Some(ReceiveInhibition::Clock(f)),
        observation matches WorkerObservation::WindowRejected(f) ==> observation_inhibition(observation)
            == Some(ReceiveInhibition::Clock(f)),
        observation matches WorkerObservation::InputFault(k) ==> observation_inhibition(observation)
            == Some(ReceiveInhibition::Input(k)),
        observation matches WorkerObservation::TimelineRejected(e) ==> observation_inhibition(observation)
            == Some(ReceiveInhibition::Timeline(e)),
{
}

/// Law: observing unhealthy clock evidence while receiving inhibits receive
/// for the same stream generation with that clock fault as the reason, and
/// the worker is told to stop rather than go on.
pub proof fn law_unhealthy_clock_inhibits_receiving(
    stream_generation: StreamGeneration,
    last: u64,
    fault: ReceiveClockFault,
    observation: WorkerObservation,
)
    requires
        observation == WorkerObservation::ClockUnhealthy(fault) || observation == WorkerObservation::WindowRejected(fault),
    ensures
        ({
            let before = ReceiveLifecycleState::Receiving { stream_generation };
            match observation_inhibition(observation) {
                Some(reason) => inhibited_state(before, reason) == ReceiveLifecycleState::Inhibited {
                    stream_generation,
                    reason: ReceiveInhibition::Clock(fault),
                },
                None => false,
            }
        }),
{
}

impl ReceiveLifecycle {
    /// Decides the worker's response to one observation while receiving: an
    /// observation that owes an inhibition inhibits receive, a withheld slot is
    /// reported, anything else lets the worker go on.
    pub fn observe_worker(&mut self, observation: WorkerObservation) -> (res: Result<WorkerAction, ReceiveCoordinatorError>)
        ensures
            final(self).spec_process() == old(self).spec_process(),
            !(old(self)@.0 is Receiving) ==> res == Err::<WorkerAction, ReceiveCoordinatorError>(
                ReceiveCoordinatorError::InvalidLifecycle(old(self)@.0),
            ) && final(self)@ == old(self)@,
            old(self)@.0 is Receiving ==> match observation_inhibition(observation) {
                Some(reason) => {
                    &&& final(self)@ == (inhibited_state(old(self)@.0, reason), old(self)@.1)
                    &&& res == Ok::<WorkerAction, ReceiveCoordinatorError>(WorkerAction::Inhibited(
                        ReceiveLifecycleEvent { previous: old(self)@.0, current: final(self)@.0 },
                    ))
                },
                None => {
                    &&& final(self)@ == old(self)@
                    &&& res == Ok::<WorkerAction, ReceiveCoordinatorError>(match observation {
                        WorkerObservation::SlotIncomplete { slot_start_utc_millis, accumulated_samples } =>
                            WorkerAction::ReportIncomplete { slot_start_utc_millis, accumulated_samples },
                        _ => WorkerAction::Continue,
                    })
                },
            },
    {
        match self.require_receiving() {
            Ok(_) => {},
            Err(e) => {
                return Err(e);
            },
        }
        let reason = match observation {
            WorkerObservation::InputFault(kind) => ReceiveInhibition::Input(kind),
            WorkerObservation::HealthUnavailable(e) => ReceiveInhibition::Input(capture_error_kind(e)),
            WorkerObservation::Health(h) => {
                if h.overflow_count == 0 {
                    return Ok(WorkerAction::Continue);
                }
                ReceiveInhibition::Input(InputFaultKind::Overflow { dropped_frames: 0 })
            },
            WorkerObservation::ClockUnhealthy(fault) => ReceiveInhibition::Clock(fault),
            WorkerObservation::BatchUnavailable(e) => ReceiveInhibition::Input(capture_error_kind(e)),
            WorkerObservation::TimelineRejected(e) => ReceiveInhibition::Timeline(e),
            WorkerObservation::SlotIncomplete { slot_start_utc_millis, accumulated_samples } => {
                return Ok(WorkerAction::ReportIncomplete { slot_start_utc_millis, accumulated_samples });
            },
            WorkerObservation::WindowRejected(fault) => ReceiveInhibition::Clock(fault),
            WorkerObservation::DecoderFailed => ReceiveInhibition::DecoderFailure,
            WorkerObservation::StorageFailed => ReceiveInhibition::StorageFailure,
        };
        Ok(WorkerAction::Inhibited(self.inhibit(reason)))
    }
}

} // verus!
