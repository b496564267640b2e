use slotpilot::audio::capture::InputCaptureError;
use slotpilot::audio::{InputFaultKind, InputHealth, ProcessGeneration};
use slotpilot::daemon::receive::{
    capture_error_kind, ReceiveCoordinatorError, ReceiveInhibition, ReceiveLifecycle, ReceiveLifecycleState,
    ReceiveStopReason, WorkerAction, WorkerObservation, WORKER_BATCH_CAPACITY,
};
use slotpilot::operations::receive_clock::ReceiveClockFault;

fn process() -> ProcessGeneration {
    ProcessGeneration::new(7).unwrap()
}

#[test]
fn construction_is_inactive_and_each_start_reserves_a_generation() {
    let mut lifecycle = ReceiveLifecycle::new(process());
    assert_eq!(
        lifecycle.state(),
        ReceiveLifecycleState::Stopped { process_generation: process(), last_stream_generation: 0 }
    );
    assert!(matches!(lifecycle.require_receiving(), Err(ReceiveCoordinatorError::InvalidLifecycle(_))));

    let (first, event) = lifecycle.begin_start().unwrap();
    assert_eq!(first.get(), 1);
    assert_eq!(event.current, ReceiveLifecycleState::Starting { stream_generation: first });
    let failed = lifecycle
        .finish_start(Some(ReceiveInhibition::Input(InputFaultKind::PermissionDenied)))
        .unwrap();
    assert!(matches!(failed.current, ReceiveLifecycleState::Inhibited { stream_generation, .. } if stream_generation == first));
    assert!(matches!(lifecycle.begin_start(), Err(ReceiveCoordinatorError::InvalidLifecycle(_))));

    let events = lifecycle.stop(ReceiveStopReason::Requested).unwrap();
    assert_eq!(events.len(), 2);
    assert!(matches!(events[0].current, ReceiveLifecycleState::Stopping { reason: ReceiveStopReason::Requested, .. }));
    assert_eq!(
        events[1].current,
        ReceiveLifecycleState::Stopped { process_generation: process(), last_stream_generation: 1 }
    );

    let (second, _) = lifecycle.begin_start().unwrap();
    assert_eq!(second.get(), 2);
    let receiving = lifecycle.finish_start(None).unwrap();
    assert_eq!(receiving.current, ReceiveLifecycleState::Receiving { stream_generation: second });
    assert_eq!(lifecycle.require_receiving().unwrap(), second);
    assert_eq!(lifecycle.last_stream_generation(), 2);
}

#[test]
fn faults_inhibit_without_restart_until_explicit_stop() {
    let mut lifecycle = ReceiveLifecycle::new(process());
    let (generation, _) = lifecycle.begin_start().unwrap();
    lifecycle.finish_start(None).unwrap();
    let event = lifecycle.inhibit(ReceiveInhibition::Clock(ReceiveClockFault::TimelineRegressed));
    assert_eq!(event.previous, ReceiveLifecycleState::Receiving { stream_generation: generation });
    assert_eq!(
        event.current,
        ReceiveLifecycleState::Inhibited {
            stream_generation: generation,
            reason: ReceiveInhibition::Clock(ReceiveClockFault::TimelineRegressed)
        }
    );
    let again = lifecycle.inhibit(ReceiveInhibition::StorageFailure);
    assert_eq!(
        again.current,
        ReceiveLifecycleState::Inhibited { stream_generation: generation, reason: ReceiveInhibition::StorageFailure }
    );
    assert!(lifecycle.begin_start().is_err());
    assert!(matches!(lifecycle.finish_start(None), Err(ReceiveCoordinatorError::InvalidLifecycle(_))));
    assert!(lifecycle.stop(ReceiveStopReason::Cancelled).is_ok());
    assert!(matches!(lifecycle.stop(ReceiveStopReason::Cancelled), Err(ReceiveCoordinatorError::InvalidLifecycle(_))));
    let stopped = lifecycle.state();
    let unchanged = lifecycle.inhibit(ReceiveInhibition::DecoderFailure);
    assert_eq!(unchanged.previous, stopped);
    assert_eq!(unchanged.current, stopped);
}

#[test]
fn capture_errors_map_to_input_faults() {
    assert_eq!(capture_error_kind(InputCaptureError::PermissionDenied), InputFaultKind::PermissionDenied);
    assert_eq!(capture_error_kind(InputCaptureError::DeviceLost), InputFaultKind::DeviceLost);
    for error in [
        InputCaptureError::UnsupportedConfiguration,
        InputCaptureError::InvalidQueueCapacity,
        InputCaptureError::Stopped,
        InputCaptureError::BackendFailure,
    ] {
        assert_eq!(capture_error_kind(error), InputFaultKind::BackendFailure);
    }
    assert_eq!(WORKER_BATCH_CAPACITY, 4);
}

fn receiving() -> ReceiveLifecycle {
    let mut lifecycle = ReceiveLifecycle::new(process());
    lifecycle.begin_start().unwrap();
    lifecycle.finish_start(None).unwrap();
    lifecycle
}

fn health(overflow_count: u64) -> InputHealth {
    InputHealth::new(5, 0, overflow_count, 0, 5).unwrap()
}

#[test]
fn worker_goes_on_with_healthy_counters_and_reports_withheld_slots() {
    let mut lifecycle = receiving();
    assert_eq!(lifecycle.observe_worker(WorkerObservation::Health(health(0))), Ok(WorkerAction::Continue));
    assert_eq!(
        lifecycle.observe_worker(WorkerObservation::SlotIncomplete { slot_start_utc_millis: 30_000, accumulated_samples: 900 }),
        Ok(WorkerAction::ReportIncomplete { slot_start_utc_millis: 30_000, accumulated_samples: 900 })
    );
    assert!(matches!(lifecycle.state(), ReceiveLifecycleState::Receiving { .. }));
}

#[test]
fn worker_overflow_decoder_and_storage_failures_inhibit_receive() {
    let mut lifecycle = receiving();
    let inhibited = lifecycle.observe_worker(WorkerObservation::Health(health(1))).unwrap();
    assert!(matches!(
        inhibited,
        WorkerAction::Inhibited(event) if matches!(
            event.current,
            ReceiveLifecycleState::Inhibited { reason: ReceiveInhibition::Input(InputFaultKind::Overflow { dropped_frames: 0 }), .. }
        )
    ));
    assert!(matches!(
        lifecycle.observe_worker(WorkerObservation::DecoderFailed),
        Err(ReceiveCoordinatorError::InvalidLifecycle(_))
    ));

    let mut decoding = receiving();
    let action = decoding.observe_worker(WorkerObservation::DecoderFailed).unwrap();
    assert!(matches!(
        action,
        WorkerAction::Inhibited(event) if matches!(event.current, ReceiveLifecycleState::Inhibited { reason: ReceiveInhibition::DecoderFailure, .. })
    ));

    let mut storing = receiving();
    let action = storing.observe_worker(WorkerObservation::StorageFailed).unwrap();
    assert!(matches!(
        action,
        WorkerAction::Inhibited(event) if matches!(event.current, ReceiveLifecycleState::Inhibited { reason: ReceiveInhibition::StorageFailure, .. })
    ));

    let mut batching = receiving();
    let action = batching.observe_worker(WorkerObservation::BatchUnavailable(InputCaptureError::DeviceLost)).unwrap();
    assert!(matches!(
        action,
        WorkerAction::Inhibited(event) if matches!(
            event.current,
            ReceiveLifecycleState::Inhibited { reason: ReceiveInhibition::Input(InputFaultKind::DeviceLost), .. }
        )
    ));
}
