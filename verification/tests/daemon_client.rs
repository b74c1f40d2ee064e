use tenon::daemon::client::{
    delete_pipeline_reply, get_pipeline_reply, list_pipelines_reply, pipeline_status_reply,
    put_pipeline_reply, start_pipeline_reply, stop_pipeline_reply, DaemonRequest, DaemonResponse,
};
use tenon::daemon::lifecycle::TenonDaemon;
use tenon::daemon::service::{
    DaemonService, PipelineRequest, PutPipelineRequest, StartMode, WorkerState,
};
use tenon::daemon::store::InMemoryDaemonStore;
use tenon::daemon::worker::NoopWorkerManager;
use tenon::message::{DeploymentPlan, EgressPlan, ProcessPlan, ResourceId};
use tenon::plan::{ExecutionMode, MessageAccessPlan, ModuleRuntime};

fn plan() -> DeploymentPlan {
    DeploymentPlan {
        id: Some(ResourceId { name: "sensor-pipeline".to_string(), version: "v1".to_string() }),
        execution: ExecutionMode::IntraProc,
        sources: Vec::new(),
        process: Some(ProcessPlan {
            runtime: ModuleRuntime::Lua,
            source: "function on_message(ctx, msg) end".to_string(),
            access_plan: Some(MessageAccessPlan {
                source: None,
                topic: None,
                payload: None,
                raw_payload: None,
                metadata: None,
                properties: None,
            }),
        }),
        egress: Some(EgressPlan {}),
    }
}

fn service() -> DaemonService<NoopWorkerManager, InMemoryDaemonStore> {
    DaemonService::with_daemon(TenonDaemon::with_components(NoopWorkerManager::new(), InMemoryDaemonStore::new()))
}

fn latest(name: &str) -> PipelineRequest {
    PipelineRequest { pipeline_name: name.to_string(), pipeline_ver: None }
}

#[test]
fn in_proc_client_puts_pipeline_through_server() {
    let mut service = service();
    let response = put_pipeline_reply(Ok(service.handle_command(DaemonRequest::PutPipeline(PutPipelineRequest {
        pipeline: Some(plan()),
    }))));
    assert!(response.accepted);
    assert_eq!(response.id, Some(ResourceId { name: "sensor-pipeline".to_string(), version: "r1".to_string() }));
}

#[test]
fn in_proc_client_applies_latest_pipeline() {
    let mut service = service();
    service.handle_command(DaemonRequest::PutPipeline(PutPipelineRequest { pipeline: Some(plan()) }));
    let response = start_pipeline_reply(Ok(service.handle_command(DaemonRequest::StartPipeline(latest("sensor-pipeline")))));
    assert!(response.accepted);
    assert_eq!(response.mode, StartMode::Started);
    assert_eq!(
        response.active_pipeline_id,
        Some(ResourceId { name: "sensor-pipeline".to_string(), version: "r1".to_string() })
    );
}

#[test]
fn every_request_kind_is_served() {
    let mut service = service();
    service.handle_command(DaemonRequest::PutPipeline(PutPipelineRequest { pipeline: Some(plan()) }));
    let get = get_pipeline_reply(Ok(service.handle_command(DaemonRequest::GetPipeline(latest("sensor-pipeline")))));
    assert!(get.found);
    let list = list_pipelines_reply(Ok(service.handle_command(DaemonRequest::ListPipelines)));
    assert_eq!(list.pipelines.len(), 1);
    service.handle_command(DaemonRequest::StartPipeline(latest("sensor-pipeline")));
    let status = pipeline_status_reply(Ok(service.handle_command(DaemonRequest::GetPipelineStatus(latest("sensor-pipeline")))));
    assert_eq!(status.state, WorkerState::Running);
    let stop = stop_pipeline_reply(Ok(service.handle_command(DaemonRequest::StopPipeline(latest("sensor-pipeline")))));
    assert!(stop.stopped);
    let delete = delete_pipeline_reply(Ok(service.handle_command(DaemonRequest::DeletePipeline(latest("sensor-pipeline")))));
    assert!(delete.deleted);
}

#[test]
fn transport_failures_become_rejections() {
    let put = put_pipeline_reply(Err("Stopped".to_string()));
    assert!(!put.accepted);
    assert_eq!(put.mode, StartMode::RejectedWorkerError);
    assert_eq!(put.message, "daemon transport failed: Stopped");
    let stop = stop_pipeline_reply(Ok(DaemonResponse::ListPipelines(list_pipelines_reply(Err("x".to_string())))));
    assert!(!stop.stopped);
    assert_eq!(stop.state, WorkerState::Error);
    assert_eq!(stop.message, "unexpected daemon response");
}
