use slotpilot::api::{ApiError, CanonicalizationError, Command, CommandEnvelope, ErrorCode, ResponseOutcome, ResultBody, API_VERSION};
use slotpilot::daemon::{
    AcceptOutcome, AcceptedCommand, CommandProcessor, JournalError, ProcessorError, RequestJournal,
};
use slotpilot::domain::ids::{CommandId, RequestId, ServiceInstanceId};

fn instance() -> ServiceInstanceId {
    "svc_01jabcde9".parse().unwrap()
}

fn request(id: &str, command: Command) -> CommandEnvelope {
    CommandEnvelope { api_version: API_VERSION, request_id: id.parse().unwrap(), command }
}

fn mutation(id: &str, marker: &str) -> CommandEnvelope {
    request(id, Command::NoopMutation { marker: marker.into() })
}

#[test]
fn same_id_same_command_replays_exact_original_result() {
    let mut processor = CommandProcessor::in_memory(instance()).unwrap();
    let first = processor.execute(mutation("req_01jabcde9", "alpha"), 10).unwrap();
    let replay = processor.execute(mutation("req_01jabcde9", "alpha"), 99).unwrap();
    assert_eq!(replay, first);
}

#[test]
fn same_id_different_command_returns_stable_conflict() {
    let mut processor = CommandProcessor::in_memory(instance()).unwrap();
    processor.execute(mutation("req_01jabcde9", "alpha"), 10).unwrap();
    let conflict = processor.execute(mutation("req_01jabcde9", "beta"), 11).unwrap();
    assert!(matches!(
        conflict.outcome,
        ResponseOutcome::Error(ApiError { code: ErrorCode::RequestIdConflict, retryable: false, .. })
    ));
}

#[test]
fn read_only_requests_are_not_journaled_and_may_reuse_id() {
    let mut processor = CommandProcessor::in_memory(instance()).unwrap();
    let id: RequestId = "req_01jabcde9".parse().unwrap();
    processor.execute(request(id.as_str(), Command::GetSnapshot), 1).unwrap();
    processor
        .execute(request(id.as_str(), Command::GetCapabilities { supported_versions: vec![API_VERSION] }), 2)
        .unwrap();
    assert!(!processor.is_journaled(&id).unwrap());
}

#[test]
fn transaction_failure_does_not_leave_partial_acceptance() {
    let mut processor = CommandProcessor::in_memory(instance()).unwrap();
    let id: RequestId = "req_01jabcde9".parse().unwrap();
    assert!(matches!(processor.execute(mutation(id.as_str(), "alpha"), -1), Err(ProcessorError::Storage(_))));
    assert!(!processor.is_journaled(&id).unwrap());
}

#[test]
fn accepted_mutation_is_journaled_and_replays_its_marker() {
    let mut processor = CommandProcessor::in_memory(instance()).unwrap();
    let id: RequestId = "req_01jabcde9".parse().unwrap();
    let first = processor.execute(mutation(id.as_str(), "alpha"), 0).unwrap();
    assert_eq!(first.api_version, API_VERSION);
    assert_eq!(first.request_id, id);
    assert!(matches!(first.outcome, ResponseOutcome::Success(ResultBody::NoopMutationAccepted { ref marker }) if marker == "alpha"));
    assert!(processor.is_journaled(&id).unwrap());
    let conflict = processor.execute(mutation(id.as_str(), "beta"), 5).unwrap();
    assert_eq!(conflict.request_id, id);
    let replay = processor.execute(mutation(id.as_str(), "alpha"), 7).unwrap();
    assert_eq!(replay, first);
    let other = processor.execute(mutation("req_01jabcdf0", "beta"), 8).unwrap();
    assert!(matches!(other.outcome, ResponseOutcome::Success(ResultBody::NoopMutationAccepted { ref marker }) if marker == "beta"));
}

#[test]
fn oversized_marker_and_other_versions_are_not_journaled() {
    let mut processor = CommandProcessor::in_memory(instance()).unwrap();
    let id: RequestId = "req_01jabcde9".parse().unwrap();
    let long = "m".repeat(129);
    assert!(matches!(
        processor.execute(mutation(id.as_str(), &long), 1),
        Err(ProcessorError::Canonicalization(CanonicalizationError::MarkerTooLong))
    ));
    let other_version = CommandEnvelope {
        api_version: 2,
        request_id: id.clone(),
        command: Command::NoopMutation { marker: "alpha".into() },
    };
    let answer = processor.execute(other_version, 1).unwrap();
    assert!(matches!(answer.outcome, ResponseOutcome::Error(ApiError { code: ErrorCode::IncompatibleApiVersion, .. })));
    assert!(!processor.is_journaled(&id).unwrap());
    let marker_128 = "m".repeat(128);
    assert!(processor.execute(mutation(id.as_str(), &marker_128), 1).is_ok());
    assert!(processor.is_journaled(&id).unwrap());
}

#[test]
fn journal_keeps_the_first_entry_per_request() {
    let mut journal = RequestJournal::new();
    let id: RequestId = "req_01jabcde9".parse().unwrap();
    let entry = |marker: &str, time: i64| AcceptedCommand {
        request_id: id.clone(),
        command_id: CommandId::for_request(&id),
        marker: marker.into(),
        accepted_utc_millis: time,
    };
    assert!(matches!(journal.accept_or_existing(entry("alpha", -5)), Err(JournalError::InvalidAcceptedTime)));
    assert!(journal.accepted_command(&id).is_none());
    assert!(matches!(journal.accept_or_existing(entry("alpha", 10)), Ok(AcceptOutcome::Inserted)));
    match journal.accept_or_existing(entry("beta", 20)) {
        Ok(AcceptOutcome::Existing(existing)) => {
            assert_eq!(existing.marker, "alpha");
            assert_eq!(existing.accepted_utc_millis, 10);
            assert_eq!(existing.command_id.as_str(), "cmd_01jabcde9");
        }
        other => panic!("unexpected {other:?}"),
    }
    let stored = journal.accepted_command(&id).unwrap();
    assert_eq!(stored.marker, "alpha");
}
