use tenon::daemon::error::DaemonErrorKind;
use tenon::daemon::protocol::{
    check_worker_response, next_worker_id, stop_outcome, unknown_worker, worker_command_args,
    worker_socket_path, worker_stats_from_response, worker_status_after_exit, WireWorkerState,
    WorkerRecord, WorkerRegistry, WorkerReply, WorkerResponseEnvelope, WorkerResponseKind,
    WorkerResponsePayload,
};
use tenon::daemon::worker::{StatCounter, WorkerHandle, WorkerStats, WorkerStatus};
use tenon::message::{DeploymentPlan, ResourceId};
use tenon::plan::ExecutionMode;

fn plan(name: &str, version: &str) -> DeploymentPlan {
    DeploymentPlan {
        id: Some(ResourceId { name: name.to_string(), version: version.to_string() }),
        execution: ExecutionMode::IntraProc,
        sources: Vec::new(),
        process: None,
        egress: None,
    }
}

fn reply(state: Option<WireWorkerState>, error: &str) -> WorkerReply {
    WorkerReply { state, error: error.to_string() }
}

#[test]
fn uds_worker_manager_rejects_plan_without_id_before_spawning() {
    let mut next = 0;
    let mut p = plan("x", "r1");
    p.id = None;
    let err = next_worker_id(&p, &mut next).unwrap_err();
    assert_eq!(err.kind, DaemonErrorKind::InvalidState);
    assert_eq!(err.message, "deployment plan id is missing");
    assert_eq!(next, 0);
}

#[test]
fn worker_ids_are_numbered_per_manager() {
    let mut next = 0;
    assert_eq!(next_worker_id(&plan("sensor", "r1"), &mut next).unwrap(), "sensor-r1-1");
    assert_eq!(next_worker_id(&plan("sensor", "r2"), &mut next).unwrap(), "sensor-r2-2");
    let err = next_worker_id(&plan("sensor", " "), &mut next).unwrap_err();
    assert_eq!(err.message, "pipeline version is missing");
    assert_eq!(next, 2);
}

#[test]
fn uds_worker_manager_rejects_reload_for_unknown_worker() {
    let err = unknown_worker("worker-9");
    assert_eq!(err.kind, DaemonErrorKind::NotFound);
    assert_eq!(err.message, "worker not found: worker-9");
}

#[test]
fn worker_sockets_and_arguments() {
    assert_eq!(worker_socket_path("/run/tenon", "w-1"), "/run/tenon/w-1.sock");
    assert_eq!(
        worker_command_args(&vec!["--quiet".to_string()], "w-1", "/run/tenon/w-1.sock"),
        vec!["--quiet", "--worker", "--worker-id", "w-1", "--worker-uds", "/run/tenon/w-1.sock"]
    );
}

#[test]
fn worker_replies_are_checked() {
    let ok = WorkerResponseEnvelope {
        payload: Some(WorkerResponsePayload::StartWorker(reply(Some(WireWorkerState::Running), ""))),
    };
    assert!(check_worker_response(ok.clone(), WorkerResponseKind::Start, WireWorkerState::Running).is_ok());
    assert_eq!(
        check_worker_response(ok, WorkerResponseKind::Stop, WireWorkerState::Stopped).unwrap_err().message,
        "unexpected worker response payload"
    );
    assert_eq!(
        check_worker_response(WorkerResponseEnvelope { payload: None }, WorkerResponseKind::Start, WireWorkerState::Running)
            .unwrap_err()
            .message,
        "worker response payload is missing"
    );
    let failed = WorkerResponseEnvelope {
        payload: Some(WorkerResponsePayload::ReloadWorker(reply(Some(WireWorkerState::Running), "boom"))),
    };
    assert_eq!(check_worker_response(failed, WorkerResponseKind::Reload, WireWorkerState::Running).unwrap_err().message, "boom");
    let unknown = WorkerResponseEnvelope { payload: Some(WorkerResponsePayload::StopWorker(reply(None, ""))) };
    assert_eq!(
        check_worker_response(unknown, WorkerResponseKind::Stop, WireWorkerState::Stopped).unwrap_err().message,
        "worker returned an unknown state"
    );
    let wrong = WorkerResponseEnvelope {
        payload: Some(WorkerResponsePayload::StopWorker(reply(Some(WireWorkerState::Running), ""))),
    };
    let err = check_worker_response(wrong, WorkerResponseKind::Stop, WireWorkerState::Stopped).unwrap_err();
    assert_eq!(err.kind, DaemonErrorKind::Worker);
    assert_eq!(err.message, "worker returned unexpected state: expected=Stopped actual=Running");
}

#[test]
fn worker_stats_replies() {
    let stats = WorkerStats { counters: vec![StatCounter { name: "messages".to_string(), value: 3 }] };
    let env = WorkerResponseEnvelope {
        payload: Some(WorkerResponsePayload::WorkerStats { stats: Some(stats.clone()), error: String::new() }),
    };
    assert_eq!(worker_stats_from_response(env).unwrap(), stats);
    let missing = WorkerResponseEnvelope {
        payload: Some(WorkerResponsePayload::WorkerStats { stats: None, error: String::new() }),
    };
    assert_eq!(worker_stats_from_response(missing).unwrap_err().message, "worker stats are missing");
    let other = WorkerResponseEnvelope { payload: Some(WorkerResponsePayload::StopWorker(reply(None, ""))) };
    assert_eq!(worker_stats_from_response(other).unwrap_err().message, "worker stats response payload is missing");
}

#[test]
fn worker_status_follows_the_process() {
    assert_eq!(worker_status_after_exit(Some(true), WorkerStatus::Running), WorkerStatus::Stopped);
    assert_eq!(worker_status_after_exit(Some(false), WorkerStatus::Running), WorkerStatus::Error);
    assert_eq!(worker_status_after_exit(None, WorkerStatus::Starting), WorkerStatus::Starting);
    let reply_err = Err(unknown_worker("a"));
    assert_eq!(stop_outcome(reply_err.clone(), Err(unknown_worker("b"))), reply_err);
    assert_eq!(stop_outcome(Ok(()), Err(unknown_worker("b"))).unwrap_err().message, "worker not found: b");
}

#[test]
fn registry_tracks_started_and_stopped_workers() {
    let mut registry = WorkerRegistry::new();
    let id = registry.next_worker_id(&plan("sensor", "r1")).unwrap();
    assert_eq!(id, "sensor-r1-1");
    registry.started(id.clone(), "/run/sensor-r1-1.sock".to_string());
    let handle = WorkerHandle { id: id.clone() };
    assert_eq!(
        registry.find(&handle).unwrap(),
        &WorkerRecord { socket_path: "/run/sensor-r1-1.sock".to_string(), status: WorkerStatus::Running }
    );
    assert_eq!(registry.observe_exit(&handle, None).unwrap(), WorkerStatus::Running);
    assert_eq!(registry.observe_exit(&handle, Some(false)).unwrap(), WorkerStatus::Error);
    assert_eq!(registry.find(&handle).unwrap().status, WorkerStatus::Error);
    assert_eq!(registry.remove(&handle).unwrap().socket_path, "/run/sensor-r1-1.sock");
    assert_eq!(registry.remove(&handle).unwrap_err().message, "worker not found: sensor-r1-1");
    assert_eq!(registry.observe_exit(&handle, Some(true)).unwrap_err().kind, DaemonErrorKind::NotFound);
}
