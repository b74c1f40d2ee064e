use tenon::daemon::error::{DaemonError, DaemonErrorKind};
use tenon::daemon::keys::{client_ids_key, pipeline_key, pipeline_metadata_key};
use tenon::daemon::lifecycle::TenonDaemon;
use tenon::daemon::service::{DaemonService, PipelineRequest, PutPipelineRequest, StartMode};
use tenon::daemon::store::{DaemonStore, InMemoryDaemonStore};
use tenon::daemon::worker::{
    NoopWorkerManager, WorkerDeployment, WorkerHandle, WorkerManager, WorkerStats, WorkerStatus,
};
use tenon::message::{
    AuthKind, AuthPlan, DeploymentPlan, EgressPlan, MqttBrokerPlan, MqttSourcePlan,
    MqttSubscriptionPlan, ProcessPlan, ResourceId,
};
use tenon::plan::{ExecutionMode, MessageAccessPlan, ModuleRuntime, PayloadDecodePlan};

fn id(name: &str, version: &str) -> ResourceId {
    ResourceId { name: name.to_string(), version: version.to_string() }
}

fn empty_access() -> MessageAccessPlan {
    MessageAccessPlan {
        source: None,
        topic: None,
        payload: None,
        raw_payload: None,
        metadata: None,
        properties: None,
    }
}

fn plan_with(name: &str, version: &str, auth: Option<AuthPlan>, source: &str, client_count: u32) -> DeploymentPlan {
    DeploymentPlan {
        id: Some(id(name, version)),
        execution: ExecutionMode::IntraProc,
        sources: vec![MqttSourcePlan {
            broker: Some(MqttBrokerPlan { host: "127.0.0.1".to_string(), port: 1883 }),
            auth,
            subscriptions: vec![MqttSubscriptionPlan {
                topic: "sensor/+/data".to_string(),
                decode: PayloadDecodePlan::Json,
            }],
            client_count,
        }],
        process: Some(ProcessPlan {
            runtime: ModuleRuntime::Lua,
            source: source.to_string(),
            access_plan: Some(empty_access()),
        }),
        egress: Some(EgressPlan {}),
    }
}

fn store_plan() -> DeploymentPlan {
    let mut plan = plan_with(
        "sensor-pipeline",
        "v1",
        Some(AuthPlan { kind: Some(AuthKind::NoAuth) }),
        "function on_message(ctx, msg) end",
        3,
    );
    plan.sources[0].subscriptions[0].topic = "sensors/+/data".to_string();
    plan
}

// ---- store ----

#[test]
fn builds_readable_byte_keys() {
    let key = id("sensor", "v1");
    assert_eq!(pipeline_key(&key).into_bytes(), b"pipeline:sensor:v1".to_vec());
    assert_eq!(pipeline_metadata_key("sensor").into_bytes(), b"pipeline_metadata:sensor".to_vec());
    assert_eq!(client_ids_key(&key).into_bytes(), b"mqtt_source_client_ids:sensor:v1".to_vec());
}

#[test]
fn saves_and_loads_pipeline_snapshot() {
    let mut store = InMemoryDaemonStore::new();
    let plan = store_plan();
    let plan_id = plan.id.clone().expect("plan id");
    store.save_pipeline(plan.clone()).expect("save plan");
    assert_eq!(store.load_pipeline(&plan_id).expect("load plan"), Some(plan.clone()));
    assert_eq!(
        store.load_latest_pipeline_id("sensor-pipeline").expect("load latest pipeline"),
        Some(plan_id)
    );
}

#[test]
fn rejects_duplicate_pipeline_revision() {
    let mut store = InMemoryDaemonStore::new();
    let plan = store_plan();
    store.save_pipeline(plan.clone()).expect("save plan");
    let error = store.save_pipeline(plan).expect_err("duplicate plan should be rejected");
    assert_eq!(error.kind, DaemonErrorKind::InvalidState);
    assert!(error.message.contains("already exists"));
}

#[test]
fn lists_and_deletes_pipeline_revisions() {
    let mut store = InMemoryDaemonStore::new();
    let mut first = store_plan();
    first.id.as_mut().expect("first id").version = "r1".to_string();
    let mut second = first.clone();
    second.id.as_mut().expect("first id").version = "r2".to_string();
    let first_id = first.id.clone().expect("first id");
    let second_id = second.id.clone().expect("second id");

    store.save_pipeline(first).expect("save first");
    store.save_pipeline(second).expect("save second");

    assert_eq!(store.list_pipeline_ids().expect("list"), vec![first_id.clone(), second_id.clone()]);
    assert!(store.delete_pipeline(&first_id).expect("delete first"));
    assert_eq!(store.load_latest_pipeline_id("sensor-pipeline").expect("latest"), Some(second_id));
}

#[test]
fn saves_and_loads_mqtt_client_ids() {
    let mut store = InMemoryDaemonStore::new();
    let source_key = id("sensor-source", "v1");
    assert!(store.load_mqtt_client_ids(&source_key).expect("load missing ids").is_empty());
    store
        .save_mqtt_client_ids(&source_key, vec!["client-0".to_string(), "client-1".to_string()])
        .expect("save ids");
    assert_eq!(
        store.load_mqtt_client_ids(&source_key).expect("load ids"),
        vec!["client-0".to_string(), "client-1".to_string()]
    );
}

#[test]
fn deleting_a_missing_revision_reports_false() {
    let mut store = InMemoryDaemonStore::new();
    assert!(!store.delete_pipeline(&id("nothing", "r1")).expect("delete"));
    assert_eq!(store.load_latest_pipeline_id("nothing").expect("latest"), None);
    assert_eq!(store.load_pipeline(&id("nothing", "r1")).expect("load"), None);
}

// ---- daemon ----

#[derive(Default)]
struct RecordingWorkerManager {
    starts: Vec<WorkerDeployment>,
    reloads: Vec<DeploymentPlan>,
    stops: Vec<String>,
    next_id: u64,
}

impl WorkerManager for RecordingWorkerManager {
    fn start(&mut self, deployment: WorkerDeployment) -> Result<WorkerHandle, DaemonError> {
        self.starts.push(deployment);
        self.next_id += 1;
        Ok(WorkerHandle { id: format!("worker-{}", self.next_id) })
    }

    fn reload(&mut self, _worker: &WorkerHandle, plan: DeploymentPlan) -> Result<(), DaemonError> {
        self.reloads.push(plan);
        Ok(())
    }

    fn stop(&mut self, worker: WorkerHandle) -> Result<(), DaemonError> {
        self.stops.push(worker.id);
        Ok(())
    }

    fn status(&mut self, _worker: &WorkerHandle) -> Result<WorkerStatus, DaemonError> {
        Ok(WorkerStatus::Running)
    }

    fn stats(&mut self, _worker: &WorkerHandle) -> Result<WorkerStats, DaemonError> {
        Ok(WorkerStats::empty())
    }
}

fn recording_daemon() -> TenonDaemon<RecordingWorkerManager, InMemoryDaemonStore> {
    TenonDaemon::with_components(RecordingWorkerManager::default(), InMemoryDaemonStore::new())
}

fn daemon_plan(process_source: &str, client_count: u32) -> DeploymentPlan {
    plan_with("sensor-pipeline", "", None, process_source, client_count)
}

#[test]
fn apply_generates_client_ids_for_worker_start() {
    let mut daemon = recording_daemon();
    daemon.put_pipeline(daemon_plan("a", 2)).expect("put");
    daemon.apply_pipeline("sensor-pipeline", None).expect("apply");
    let manager = daemon.worker_manager();
    assert_eq!(manager.starts.len(), 1);
    assert_eq!(
        manager.starts[0].source_client_ids[0].client_ids,
        vec!["sensor-pipeline-0-0".to_string(), "sensor-pipeline-0-1".to_string()]
    );
}

#[test]
fn process_only_revision_reuses_worker_for_reload() {
    let mut daemon = recording_daemon();
    daemon.put_pipeline(daemon_plan("a", 2)).expect("put r1");
    daemon.apply_pipeline("sensor-pipeline", None).expect("apply r1");
    daemon.put_pipeline(daemon_plan("b", 2)).expect("put r2");
    daemon.apply_pipeline("sensor-pipeline", None).expect("apply r2");
    assert_eq!(daemon.deployments().len(), 1);
    let manager = daemon.worker_manager();
    assert_eq!(manager.starts.len(), 1);
    assert_eq!(manager.reloads.len(), 1);
    assert_eq!(manager.reloads[0].process.as_ref().expect("process").source, "b");
}

#[test]
fn client_ids_are_kept_across_applies() {
    let mut daemon = recording_daemon();
    daemon.put_pipeline(daemon_plan("a", 1)).expect("put r1");
    daemon.apply_pipeline("sensor-pipeline", None).expect("apply r1");
    daemon.stop_pipeline("sensor-pipeline", None).expect("stop");
    daemon.apply_pipeline("sensor-pipeline", None).expect("apply again");
    let manager = daemon.worker_manager();
    assert_eq!(manager.starts.len(), 2);
    assert_eq!(
        manager.starts[0].source_client_ids[0].client_ids,
        manager.starts[1].source_client_ids[0].client_ids
    );
}

#[test]
fn stop_hands_each_worker_to_the_manager_in_order() {
    let mut daemon = recording_daemon();
    daemon.put_pipeline(plan_with("first-pipeline", "", None, "a", 1)).expect("put first");
    daemon.put_pipeline(plan_with("second-pipeline", "", None, "b", 1)).expect("put second");
    daemon.apply_pipeline("first-pipeline", None).expect("apply first");
    daemon.apply_pipeline("second-pipeline", None).expect("apply second");
    daemon.stop().expect("stop");
    assert!(daemon.deployments().is_empty());
    assert_eq!(daemon.worker_manager().stops, vec!["worker-1".to_string(), "worker-2".to_string()]);
}

#[test]
fn stopping_a_pipeline_stops_its_worker() {
    let mut daemon = recording_daemon();
    daemon.put_pipeline(daemon_plan("a", 1)).expect("put");
    daemon.apply_pipeline("sensor-pipeline", None).expect("apply");
    assert_eq!(daemon.stop_pipeline("sensor-pipeline", None).expect("stop"), WorkerStatus::Stopped);
    assert_eq!(daemon.worker_manager().stops, vec!["worker-1".to_string()]);
}

#[test]
fn stopping_an_idle_daemon_asks_no_worker() {
    let mut daemon = recording_daemon();
    daemon.stop().expect("stop");
    assert!(daemon.deployments().is_empty());
    assert!(daemon.worker_manager().starts.is_empty());
    assert!(daemon.worker_manager().stops.is_empty());
}

#[test]
fn worker_stats_of_an_idle_daemon_are_empty() {
    let mut daemon = recording_daemon();
    let stats = daemon.all_worker_stats().expect("stats");
    assert!(stats.is_empty());
}

#[test]
fn worker_stats_follow_the_deployments() {
    let mut daemon = recording_daemon();
    daemon.put_pipeline(daemon_plan("a", 1)).expect("put");
    daemon.apply_pipeline("sensor-pipeline", None).expect("apply");
    let stats = daemon.all_worker_stats().expect("stats");
    assert_eq!(stats.len(), 1);
    assert_eq!(stats[0].0.name, "sensor-pipeline");
}

#[test]
fn worker_start_numbers_each_source() {
    let mut daemon = recording_daemon();
    daemon.put_pipeline(daemon_plan("a", 3)).expect("put");
    daemon.apply_pipeline("sensor-pipeline", None).expect("apply");
    let manager = daemon.worker_manager();
    let ids = &manager.starts[0].source_client_ids;
    assert_eq!(ids.len(), 1);
    assert_eq!(ids[0].source_index, 0);
    assert_eq!(ids[0].client_ids.len(), 3);
    assert_eq!(ids[0].client_ids[2], "sensor-pipeline-0-2");
}

// ---- service ----

fn service_plan(process_source: &str) -> DeploymentPlan {
    plan_with("sensor-pipeline", "v1", None, process_source, 1)
}

fn service() -> DaemonService<NoopWorkerManager, InMemoryDaemonStore> {
    DaemonService::with_daemon(TenonDaemon::with_components(NoopWorkerManager::new(), InMemoryDaemonStore::new()))
}

fn put(service: &mut DaemonService<NoopWorkerManager, InMemoryDaemonStore>, source: &str) -> Option<ResourceId> {
    service.handle_put_pipeline(PutPipelineRequest { pipeline: Some(service_plan(source)) }).id
}

fn request(name: &str, ver: Option<&str>) -> PipelineRequest {
    PipelineRequest { pipeline_name: name.to_string(), pipeline_ver: ver.map(|v| v.to_string()) }
}

#[test]
fn puts_pipeline_and_returns_generated_revision() {
    let mut service = service();
    let response = service
        .handle_put_pipeline(PutPipelineRequest { pipeline: Some(service_plan("function on_message(ctx, msg) end")) });
    assert!(response.accepted);
    assert_eq!(response.mode, StartMode::Unspecified);
    assert_eq!(response.id, Some(id("sensor-pipeline", "r1")));
}

#[test]
fn rejects_put_without_pipeline() {
    let mut service = service();
    let response = service.handle_put_pipeline(PutPipelineRequest { pipeline: None });
    assert!(!response.accepted);
    assert_eq!(response.message, "pipeline is missing");
}

#[test]
fn manages_pipeline_resource_lifecycle() {
    let mut service = service();
    let id = put(&mut service, "function on_message(ctx, msg) end").expect("pipeline id");

    let get = service.handle_get_pipeline(request(&id.name, None));
    assert!(get.found);
    assert_eq!(get.pipeline.and_then(|plan| plan.id), Some(id.clone()));

    let list = service.handle_list_pipelines();
    assert_eq!(list.pipelines, vec![id.clone()]);

    let delete = service.handle_delete_pipeline(request(&id.name, None));
    assert!(delete.deleted);
    assert_eq!(delete.id, Some(id));
}

#[test]
fn rejects_put_pipeline_without_process_access_plan() {
    let mut service = service();
    let mut plan = service_plan("function on_message(ctx, msg) end");
    plan.process.as_mut().expect("process").access_plan = None;
    let response = service.handle_put_pipeline(PutPipelineRequest { pipeline: Some(plan) });
    assert!(!response.accepted);
    assert!(response.message.contains("process access_plan is missing"));

    let apply = service.handle_start_pipeline(request("sensor-pipeline", None));
    assert!(!apply.accepted);
    assert!(apply.message.contains("pipeline resource not found"));
}

#[test]
fn repeated_put_advances_pipeline_revision() {
    let mut service = service();
    let first = put(&mut service, "function on_message(ctx, msg) end");
    let second = put(&mut service, "function on_message(ctx, msg) end");
    assert_eq!(first, Some(id("sensor-pipeline", "r1")));
    assert_eq!(second, Some(id("sensor-pipeline", "r2")));
}

#[test]
fn applies_latest_pipeline_when_revision_is_missing() {
    let mut service = service();
    put(&mut service, "function on_message(ctx, msg) end");
    let apply = service.handle_start_pipeline(request("sensor-pipeline", None));
    assert!(apply.accepted);
    assert_eq!(apply.active_pipeline_id, Some(id("sensor-pipeline", "r1")));
    assert_eq!(apply.mode, StartMode::Started);
}

#[test]
fn applies_named_revision() {
    let mut service = service();
    put(&mut service, "function on_message(ctx, msg) end");
    put(&mut service, "function on_message(ctx, msg) return nil end");
    let apply = service.handle_start_pipeline(request("sensor-pipeline", Some("r1")));
    assert!(apply.accepted);
    assert_eq!(apply.active_pipeline_id, Some(id("sensor-pipeline", "r1")));
}

#[test]
fn process_only_change_hot_reloads() {
    let mut service = service();
    put(&mut service, "function on_message(ctx, msg) end");
    service.handle_start_pipeline(request("sensor-pipeline", None));
    let original_worker_id =
        service.daemon().deployments().first().expect("active deployment").worker.id.clone();

    put(&mut service, "function on_message(ctx, msg) return nil end");
    let apply = service.handle_start_pipeline(request("sensor-pipeline", None));
    let current_worker_id =
        service.daemon().deployments().first().expect("active deployment").worker.id.clone();

    assert!(apply.accepted);
    assert_eq!(apply.mode, StartMode::HotReload);
    assert_eq!(current_worker_id, original_worker_id);
}

#[test]
fn stop_and_status_of_a_running_pipeline() {
    let mut service = service();
    put(&mut service, "function on_message(ctx, msg) end");
    service.handle_start_pipeline(request("sensor-pipeline", None));
    let status = service.handle_get_pipeline_status(request("sensor-pipeline", None));
    assert_eq!(status.id, Some(id("sensor-pipeline", "r1")));
    let stop = service.handle_stop_pipeline(request("sensor-pipeline", None));
    assert!(stop.stopped);
    assert!(service.daemon().deployments().is_empty());
}

#[test]
fn unknown_pipeline_is_not_found() {
    let mut service = service();
    let get = service.handle_get_pipeline(request("ghost", None));
    assert!(!get.found);
    let delete = service.handle_delete_pipeline(request("ghost", Some("r9")));
    assert!(!delete.deleted);
}
