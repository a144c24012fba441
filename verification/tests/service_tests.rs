use cleancore::models::SystemServiceModel;
use cleancore::response::{DataValue, ResponseModel, ResponseStatus};
use cleancore::services::{
    apply_enable, apply_start, apply_stop, filter_running, open_file_response, op_needed,
    service_batch_report, service_batch_response, service_reason_of, services_response,
    single_service_response, BootState, OpenOutcome, RunState, ServiceOp, ServiceOutcome,
    ServiceState,
};

fn service(name: &str, running: bool) -> SystemServiceModel {
    SystemServiceModel {
        name: name.to_string(),
        description: format!("{} daemon", name),
        status: if running { "active".to_string() } else { "inactive".to_string() },
        isRunning: running,
    }
}

#[test]
fn starting_a_running_service_is_a_noop_success() {
    let s = ServiceState { run: RunState::Running, boot: BootState::Enabled };
    assert_eq!(apply_start(s), s);
    assert!(!op_needed(ServiceOp::Start, s));
    let r = single_service_response("svcA", ServiceOp::Start, &ServiceOutcome::Done);
    let env = r.expect("no-op start must succeed");
    assert_eq!(env.status, ResponseStatus::Success);
}

#[test]
fn transitions_reach_their_target_state() {
    let s = ServiceState { run: RunState::Stopped, boot: BootState::Disabled };
    assert_eq!(apply_start(s), ServiceState { run: RunState::Running, boot: BootState::Disabled });
    assert_eq!(
        apply_stop(ServiceState { run: RunState::Running, boot: BootState::Enabled }),
        ServiceState { run: RunState::Stopped, boot: BootState::Enabled },
    );
    assert_eq!(apply_enable(s), ServiceState { run: RunState::Stopped, boot: BootState::Enabled });
    assert!(op_needed(ServiceOp::Start, s));
    assert!(op_needed(ServiceOp::Enable, s));
    assert!(!op_needed(ServiceOp::Stop, s));
}

#[test]
fn single_service_success_names_service_and_new_state() {
    let r = single_service_response("cron", ServiceOp::Stop, &ServiceOutcome::Done);
    let env = r.unwrap();
    let expected = DataValue::Object(vec![
        ("name".to_string(), DataValue::Str("cron".to_string())),
        ("newState".to_string(), DataValue::Str("stopped".to_string())),
    ]);
    assert_eq!(env.data, expected);
}

#[test]
fn single_service_denial_is_direct_error() {
    let r = single_service_response("sshd", ServiceOp::Stop, &ServiceOutcome::Denied);
    let env = r.expect_err("denied request must be an error envelope");
    assert_eq!(env.status, ResponseStatus::Error);
    assert_eq!(env.message, "PermissionDenied");
}

#[test]
fn unknown_service_reports_not_found() {
    assert_eq!(service_reason_of(&ServiceOutcome::Unknown), "NotFound");
    let r = single_service_response("ghost", ServiceOp::Start, &ServiceOutcome::Unknown);
    let env = r.expect_err("unknown service must be an error envelope");
    assert_eq!(env.message, "NotFound");
}

#[test]
fn batch_stop_isolates_privileged_failure() {
    let outcomes = vec![
        ("svcA".to_string(), ServiceOutcome::Done),
        ("svcB".to_string(), ServiceOutcome::Denied),
    ];
    let report = service_batch_report(&outcomes);
    assert_eq!(report.succeeded, vec!["svcA".to_string()]);
    assert_eq!(report.failed.len(), 1);
    assert_eq!(report.failed[0].name, "svcB");
    assert_eq!(report.failed[0].reason, "PermissionDenied");
    let r = service_batch_response(report);
    assert_eq!(r.status, ResponseStatus::Warning);
    let expected = DataValue::Object(vec![
        (
            "succeeded".to_string(),
            DataValue::Array(vec![DataValue::Str("svcA".to_string())]),
        ),
        (
            "failed".to_string(),
            DataValue::Array(vec![DataValue::Object(vec![
                ("name".to_string(), DataValue::Str("svcB".to_string())),
                ("reason".to_string(), DataValue::Str("PermissionDenied".to_string())),
            ])]),
        ),
    ]);
    assert_eq!(r.data, expected);
}

#[test]
fn batch_with_no_failures_is_success() {
    let outcomes = vec![
        ("svcA".to_string(), ServiceOutcome::Done),
        ("svcB".to_string(), ServiceOutcome::Done),
    ];
    let report = service_batch_report(&outcomes);
    assert_eq!(report.succeeded.len(), 2);
    assert!(report.failed.is_empty());
    let r = service_batch_response(report);
    assert_eq!(r.status, ResponseStatus::Success);
    assert_eq!(r.message, "all service requests applied");
}

#[test]
fn batch_failure_reason_carries_manager_message() {
    let outcomes = vec![(
        "svcC".to_string(),
        ServiceOutcome::Failed("unit masked".to_string()),
    )];
    let report = service_batch_report(&outcomes);
    assert_eq!(report.failed[0].reason, "unit masked");
}

#[test]
fn filter_keeps_only_running_services_in_order() {
    let all = vec![service("a", true), service("b", false), service("c", true)];
    let running = filter_running(&all);
    assert_eq!(running.len(), 2);
    assert_eq!(running[0].name, "a");
    assert_eq!(running[1].name, "c");
    assert!(running.iter().all(|s| s.isRunning));
}

#[test]
fn service_listing_encodes_every_field() {
    let r = services_response(vec![service("cron", true)]);
    assert_eq!(r.status, ResponseStatus::Success);
    let expected = DataValue::Array(vec![DataValue::Object(vec![
        ("name".to_string(), DataValue::Str("cron".to_string())),
        ("description".to_string(), DataValue::Str("cron daemon".to_string())),
        ("status".to_string(), DataValue::Str("active".to_string())),
        ("isRunning".to_string(), DataValue::Bool(true)),
    ])]);
    assert_eq!(r.data, expected);
}

#[test]
fn open_file_outcomes_map_to_envelopes() {
    let ok = open_file_response("/tmp/doc.pdf", &OpenOutcome::Opened);
    let env = ok.unwrap();
    assert_eq!(env.status, ResponseStatus::Success);
    assert_eq!(env.data, DataValue::Str(String::new()));

    let missing = open_file_response("/gone.pdf", &OpenOutcome::Missing);
    let env = missing.expect_err("missing path must be an error envelope");
    assert_eq!(env.message, "file not found: /gone.pdf");

    let failed = open_file_response(
        "/tmp/doc.pdf",
        &OpenOutcome::LaunchFailed("no handler registered".to_string()),
    );
    let env = failed.expect_err("failed launch must be an error envelope");
    assert_eq!(env.status, ResponseStatus::Error);
    assert_eq!(env.message, "could not open file: no handler registered");
}

#[test]
fn error_envelope_constructors_fill_all_fields() {
    let e = ResponseModel::error("boom".to_string());
    assert_eq!(e.status, ResponseStatus::Error);
    assert_eq!(e.message, "boom");
    assert_eq!(e.data, DataValue::Str(String::new()));
    let e2 = ResponseModel::error_str("boom");
    assert_eq!(e2, e);
}
