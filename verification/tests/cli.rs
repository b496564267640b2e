use slotpilot::api::{
    ApiError, Command, CommandEnvelope, ErrorCode, ErrorDetails, NoopService, ResponseEnvelope, ResponseOutcome,
    ResultBody, API_VERSION,
};
use slotpilot::cli::render_table;
use slotpilot::decimal::decimal_string;
use slotpilot::domain::ids::RequestId;

fn execute(command: Command) -> ResponseEnvelope {
    NoopService::new("svc_01jabcde9".parse().unwrap()).execute(CommandEnvelope {
        api_version: API_VERSION,
        request_id: "req_01jabcde9".parse().unwrap(),
        command,
    })
}

#[test]
fn snapshot_table_reports_the_unconfigured_station() {
    let response = execute(Command::GetSnapshot);
    assert!(matches!(response.outcome, ResponseOutcome::Success(ResultBody::Snapshot(_))));
    let table = render_table(&response);
    assert!(table.contains("not_configured"));
    assert_eq!(
        table,
        "FIELD                VALUE\nservice_instance     svc_01jabcde9\nconfiguration        not_configured\n\
         operation            not_running\ntransmit_authority   unavailable"
    );
}

#[test]
fn capabilities_table_reports_the_negotiated_version() {
    let response = execute(Command::GetCapabilities { supported_versions: vec![API_VERSION] });
    assert_eq!(
        render_table(&response),
        "FIELD                VALUE\napi_version          1\nservice_instance     svc_01jabcde9\n\
         station_control      unavailable\ntransmit_authority   unavailable"
    );
}

#[test]
fn error_table_reports_code_and_retryability() {
    let response = execute(Command::NoopMutation { marker: "alpha".into() });
    assert_eq!(
        render_table(&response),
        "FIELD                VALUE\ncode                 request_journal_required\nretryable            false"
    );
    let retryable = ResponseEnvelope {
        api_version: API_VERSION,
        request_id: RequestId::parse("req_01jabcde9").unwrap(),
        outcome: ResponseOutcome::Error(ApiError {
            code: ErrorCode::RequestIdConflict,
            message: "conflict".into(),
            retryable: true,
            details: ErrorDetails::RequestConflict,
        }),
    };
    assert_eq!(
        render_table(&retryable),
        "FIELD                VALUE\ncode                 request_id_conflict\nretryable            true"
    );
}

#[test]
fn accepted_mutation_table_reports_the_marker() {
    let response = ResponseEnvelope {
        api_version: API_VERSION,
        request_id: RequestId::parse("req_01jabcde9").unwrap(),
        outcome: ResponseOutcome::Success(ResultBody::NoopMutationAccepted { marker: "alpha".into() }),
    };
    assert_eq!(
        render_table(&response),
        "FIELD                VALUE\nresult               noop_mutation_accepted\nmarker               alpha"
    );
}

#[test]
fn decimal_text_is_canonical() {
    assert_eq!(decimal_string(0), "0");
    assert_eq!(decimal_string(7), "7");
    assert_eq!(decimal_string(10), "10");
    assert_eq!(decimal_string(4_294_967_295), "4294967295");
    assert_eq!(decimal_string(u64::MAX), u64::MAX.to_string());
}
