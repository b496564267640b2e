//! Rendering boundary for the command-line client: a stable human-oriented
//! table of one API response.
use vstd::prelude::*;
use crate::api::{error_code_text, ResponseEnvelope, ResponseOutcome, ResultBody};
use crate::decimal::{decimal_string, decimal_text};

verus! {

/// How `bool` values are written in a table.
pub open spec fn bool_text(b: bool) -> Seq<char> {
    if b { "true"@ } else { "false"@ }
}

/// The table rendered for one response, line by line.
pub open spec fn table_text(response: ResponseEnvelope) -> Seq<char> {
    match response.outcome {
        ResponseOutcome::Success(ResultBody::Capabilities(c)) => "FIELD                VALUE\napi_version          "@
            + decimal_text(c.negotiated_version as nat) + "\nservice_instance     "@ + c.service_instance_id@
            + "\nstation_control      unavailable\ntransmit_authority   unavailable"@,
        ResponseOutcome::Success(ResultBody::Snapshot(s)) => "FIELD                VALUE\nservice_instance     "@
            + s.service_instance_id@
            + "\nconfiguration        not_configured\noperation            not_running\ntransmit_authority   unavailable"@,
        ResponseOutcome::Success(ResultBody::NoopMutationAccepted { marker }) =>
            "FIELD                VALUE\nresult               noop_mutation_accepted\nmarker               "@ + marker@,
        ResponseOutcome::Error(e) => "FIELD                VALUE\ncode                 "@ + error_code_text(e.code)
            + "\nretryable            "@ + bool_text(e.retryable),
    }
}

/// Renders one bounded API response as a stable human-oriented table.
pub fn render_table(response: &ResponseEnvelope) -> (res: String)
    ensures
        res@ == table_text(*response),
{
    match &response.outcome {
        ResponseOutcome::Success(ResultBody::Capabilities(capabilities)) => {
            let mut table = "FIELD                VALUE\napi_version          ".to_owned();
            let version = decimal_string(capabilities.negotiated_version as u64);
            table.append(version.as_str());
            table.append("\nservice_instance     ");
            table.append(capabilities.service_instance_id.as_str());
            table.append("\nstation_control      unavailable\ntransmit_authority   unavailable");
            table
        },
        ResponseOutcome::Success(ResultBody::Snapshot(snapshot)) => {
            let mut table = "FIELD                VALUE\nservice_instance     ".to_owned();
            table.append(snapshot.service_instance_id.as_str());
            table.append(
                "\nconfiguration        not_configured\noperation            not_running\ntransmit_authority   unavailable",
            );
            table
        },
        ResponseOutcome::Success(ResultBody::NoopMutationAccepted { marker }) => {
            let mut table = "FIELD                VALUE\nresult               noop_mutation_accepted\nmarker               "
                .to_owned();
            table.append(marker.as_str());
            table
        },
        ResponseOutcome::Error(error) => {
            let mut table = "FIELD                VALUE\ncode                 ".to_owned();
            table.append(error.code.as_str());
            table.append("\nretryable            ");
            table.append(if error.retryable { "true" } else { "false" });
            table
        },
    }
}

} // verus!
