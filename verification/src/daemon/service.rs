//! Requests to the daemon and its answers: pipeline resources are stored,
//! read, listed and deleted; deployments are started, stopped and queried.
use vstd::prelude::*;
use crate::daemon::error::{DaemonError, DaemonErrorKind};
use crate::daemon::keys::{id_problem, plan_key};
use crate::daemon::lifecycle::{
    apply_calls, deployment_index, opt_view, put_result, resolve_key, revisions_have_room,
    DaemonApplyMode, DaemonApplyResult, ManagerCall, TenonDaemon,
};
use crate::daemon::store::{lists_plan_ids, plans_consistent, DaemonStore};
use crate::daemon::worker::{WorkerManager, WorkerStatus};
use crate::message::{DeploymentPlan, ResourceId};

verus! {

/// How a start request was answered.
#[derive(Debug, Clone, Copy, PartialEq, Eq, Structural)]
pub enum StartMode {
    Unspecified,
    Started,
    HotReload,
    RejectedWorkerError,
}

/// The state of a worker as reported to clients.
#[derive(Debug, Clone, Copy, PartialEq, Eq, Structural)]
pub enum WorkerState {
    Init,
    Starting,
    Running,
    Stopping,
    Stopped,
    Error,
}

#[derive(Debug, PartialEq, Eq)]
pub struct PutPipelineRequest {
    pub pipeline: Option<DeploymentPlan>,
}

#[derive(Debug, PartialEq, Eq)]
pub struct PutPipelineResponse {
    pub accepted: bool,
    pub id: Option<ResourceId>,
    pub mode: StartMode,
    pub message: String,
}

/// A request that names a pipeline and, optionally, a revision of it.
#[derive(Debug, PartialEq, Eq)]
pub struct PipelineRequest {
    pub pipeline_name: String,
    pub pipeline_ver: Option<String>,
}

#[derive(Debug, PartialEq, Eq)]
pub struct GetPipelineResponse {
    pub found: bool,
    pub pipeline: Option<DeploymentPlan>,
    pub message: String,
}

#[derive(Debug, PartialEq, Eq)]
pub struct ListPipelinesResponse {
    pub pipelines: Vec<ResourceId>,
    pub message: String,
}

#[derive(Debug, PartialEq, Eq)]
pub struct DeletePipelineResponse {
    pub deleted: bool,
    pub id: Option<ResourceId>,
    pub message: String,
}

#[derive(Debug, PartialEq, Eq)]
pub struct StartPipelineResponse {
    pub accepted: bool,
    pub active_pipeline_id: Option<ResourceId>,
    pub mode: StartMode,
    pub message: String,
}

#[derive(Debug, PartialEq, Eq)]
pub struct StopPipelineResponse {
    pub stopped: bool,
    pub state: WorkerState,
    pub message: String,
}

#[derive(Debug, PartialEq, Eq)]
pub struct GetPipelineStatusResponse {
    pub id: Option<ResourceId>,
    pub state: WorkerState,
    pub message: String,
}

/// The reported state names the worker's condition: each status is
/// reported as the state of the same name, so distinct statuses are
/// reported as distinct states, and only a failed worker is reported as
/// failed.
pub proof fn law_state_names_the_status(a: WorkerStatus, b: WorkerStatus)
    ensures
        state_of(a) == state_of(b) ==> a == b,
        state_of(a) == WorkerState::Error <==> a == WorkerStatus::Error,
        state_of(a) == WorkerState::Stopped <==> a == WorkerStatus::Stopped,
        state_of(a) == WorkerState::Running <==> a == WorkerStatus::Running,
        state_of(a) == WorkerState::Stopping <==> a == WorkerStatus::Stopping,
        state_of(a) == WorkerState::Starting <==> a == WorkerStatus::Starting,
        state_of(a) == WorkerState::Init <==> a == WorkerStatus::Init,
{
}

/// The reported state of a worker status.
pub open spec fn state_of(status: WorkerStatus) -> WorkerState {
    match status {
        WorkerStatus::Init => WorkerState::Init,
        WorkerStatus::Starting => WorkerState::Starting,
        WorkerStatus::Running => WorkerState::Running,
        WorkerStatus::Stopping => WorkerState::Stopping,
        WorkerStatus::Stopped => WorkerState::Stopped,
        WorkerStatus::Error => WorkerState::Error,
    }
}

pub fn worker_state(status: WorkerStatus) -> (r: WorkerState)
    ensures
        r == state_of(status),
        r == WorkerState::Error <==> status == WorkerStatus::Error,
        r == WorkerState::Stopped <==> status == WorkerStatus::Stopped,
{
    match status {
        WorkerStatus::Init => WorkerState::Init,
        WorkerStatus::Starting => WorkerState::Starting,
        WorkerStatus::Running => WorkerState::Running,
        WorkerStatus::Stopping => WorkerState::Stopping,
        WorkerStatus::Stopped => WorkerState::Stopped,
        WorkerStatus::Error => WorkerState::Error,
    }
}

/// A refused put.
pub fn put_rejected(mode: StartMode, message: String) -> (r: PutPipelineResponse)
    ensures
        !r.accepted,
        r.id is None,
        r.mode == mode,
        r.message@ == message@,
{
    PutPipelineResponse { accepted: false, id: None, mode, message }
}

/// The mode reported for a failed request: every failure is reported as a
/// rejection.
pub fn start_error_mode(error: &DaemonError) -> (r: StartMode)
    ensures
        r == StartMode::RejectedWorkerError,
{
    match error.kind {
        DaemonErrorKind::Worker => StartMode::RejectedWorkerError,
        DaemonErrorKind::Store | DaemonErrorKind::InvalidState | DaemonErrorKind::NotFound => StartMode::RejectedWorkerError,
    }
}

/// The mode reported for how a deployment came to run.
pub fn start_mode_from_daemon(mode: DaemonApplyMode) -> (r: StartMode)
    ensures
        r == (match mode {
            DaemonApplyMode::Started => StartMode::Started,
            DaemonApplyMode::HotReload => StartMode::HotReload,
        }),
{
    match mode {
        DaemonApplyMode::Started => StartMode::Started,
        DaemonApplyMode::HotReload => StartMode::HotReload,
    }
}

fn ver_str(v: &Option<String>) -> (r: Option<&str>)
    ensures
        opt_view(r) == match v {
            Some(s) => Some(s@),
            None => None::<Seq<char>>,
        },
{
    match v {
        Some(s) => Some(s.as_str()),
        None => None,
    }
}

pub open spec fn request_ver(r: PipelineRequest) -> Option<Seq<char>> {
    match r.pipeline_ver {
        Some(s) => Some(s@),
        None => None,
    }
}

/// How a put request was answered: the new revision, or why none was stored.
pub open spec fn put_answered<L: WorkerManager, S: DaemonStore>(before: TenonDaemon<L, S>, after: TenonDaemon<L, S>, request: PutPipelineRequest, r: PutPipelineResponse) -> bool {
    &&& (after.active() == before.active())
    &&& (match request.pipeline {
        None => !r.accepted && r.id is None && r.mode == StartMode::RejectedWorkerError
            && r.message@ == "pipeline is missing"@,
        Some(p) => match put_result(before.plans(), before.latest(), p@) {
            Ok(nid) => r.accepted && (r.id matches Some(i) && i@ == nid) && r.mode == StartMode::Unspecified
                && r.message@.len() == 0,
            Err(m) => !r.accepted && r.id is None && r.mode == StartMode::RejectedWorkerError && r.message@ == m,
        },
    })
}

/// How a request for a stored revision was answered.
pub open spec fn get_answered<L: WorkerManager, S: DaemonStore>(before: TenonDaemon<L, S>, request: PipelineRequest, r: GetPipelineResponse) -> bool {
    &&& (match resolve_key(before.latest(), request.pipeline_name@, request_ver(request)) {
        Err((kind, m)) => !r.found && r.pipeline is None && r.message@ == m,
        Ok(id) => match id_problem(Some(id)) {
            Some(m) => !r.found && r.pipeline is None && r.message@ == m,
            None => if before.plans().contains_key(plan_key(id)) {
                r.found && (r.pipeline matches Some(p) && p@ == before.plans()[plan_key(id)])
            } else {
                !r.found && r.pipeline is None && r.message@.len() == 0
            },
        },
    })
}

/// How a request for all stored revisions was answered.
pub open spec fn list_answered<L: WorkerManager, S: DaemonStore>(before: TenonDaemon<L, S>, r: ListPipelinesResponse) -> bool {
    &&& (lists_plan_ids(r.pipelines@, before.plans()))
    &&& (r.message@.len() == 0)
}

/// How a delete request was answered.
pub open spec fn delete_answered<L: WorkerManager, S: DaemonStore>(before: TenonDaemon<L, S>, after: TenonDaemon<L, S>, request: PipelineRequest, r: DeletePipelineResponse) -> bool {
    &&& (after.active() == before.active())
    &&& (match resolve_key(before.latest(), request.pipeline_name@, request_ver(request)) {
        Err((kind, m)) => !r.deleted && r.id is None && r.message@ == m,
        Ok(id) => match id_problem(Some(id)) {
            Some(m) => !r.deleted && r.id is None && r.message@ == m,
            None => if before.plans().contains_key(plan_key(id)) {
                r.deleted && (r.id matches Some(k) && k@ == id)
                    && after.plans() == before.plans().remove(plan_key(id))
            } else {
                !r.deleted && r.id is None && r.message@ == "pipeline resource not found"@
            },
        },
    })
}

/// How a start request was answered.
pub open spec fn start_answered<L: WorkerManager, S: DaemonStore>(before: TenonDaemon<L, S>, after: TenonDaemon<L, S>, request: PipelineRequest, r: StartPipelineResponse) -> bool {
    &&& (after.plans() == before.plans())
    &&& (r.accepted <==> r.active_pipeline_id is Some)
    &&& (!r.accepted ==> r.mode == StartMode::RejectedWorkerError)
    &&& (r.accepted ==> r.mode == StartMode::Started || r.mode == StartMode::HotReload)
    &&& (match resolve_key(before.latest(), request.pipeline_name@, request_ver(request)) {
        Err((kind, m)) => !r.accepted && r.message@ == m && after.manager_calls() == before.manager_calls(),
        Ok(id) => match id_problem(Some(id)) {
            Some(m) => !r.accepted && r.message@ == m && after.manager_calls() == before.manager_calls(),
            None => if before.plans().contains_key(plan_key(id)) {
                (r.accepted ==> (r.active_pipeline_id matches Some(k)
                    && Some(k@) == before.plans()[plan_key(id)].id
                    && after.active().last().id == k@))
                && exists|dr: Result<DaemonApplyResult, DaemonError>| #[trigger] apply_calls(before.active(), before.client_ids(),
                    before.plans()[plan_key(id)], before.manager_calls(), after.manager_calls(), after.active(), dr)
                    && start_response_of(dr, r)
            } else {
                !r.accepted && r.message@ == "pipeline resource not found"@ && after.manager_calls() == before.manager_calls()
            },
        },
    })
}

/// `r` answers a start request whose applying gave `dr`: the new deployment's
/// id and how it came to run, or the error's message.
pub open spec fn start_response_of(dr: Result<DaemonApplyResult, DaemonError>, r: StartPipelineResponse) -> bool {
    match dr {
        Ok(x) => r.accepted && r.active_pipeline_id == Some(x.id) && r.mode == (match x.mode {
            DaemonApplyMode::Started => StartMode::Started,
            DaemonApplyMode::HotReload => StartMode::HotReload,
        }),
        Err(e) => !r.accepted && r.message@ == e.message@,
    }
}

/// How a stop request was answered.
pub open spec fn stop_answered<L: WorkerManager, S: DaemonStore>(before: TenonDaemon<L, S>, after: TenonDaemon<L, S>, request: PipelineRequest, r: StopPipelineResponse) -> bool {
    &&& (after.plans() == before.plans())
    &&& (r.stopped ==> r.state == WorkerState::Stopped)
    &&& (!r.stopped ==> r.state == WorkerState::Error)
    &&& (match resolve_key(before.latest(), request.pipeline_name@, request_ver(request)) {
        Err((kind, m)) => !r.stopped && r.message@ == m && after.manager_calls() == before.manager_calls(),
        Ok(id) => match deployment_index(before.active(), id) {
            None => !r.stopped && r.message@ == "deployment worker not found"@ && after.manager_calls() == before.manager_calls(),
            Some(i) => after.active() == before.active().remove(i)
                && exists|res: Result<(), DaemonError>| #[trigger] before.manager_calls().push(
                    ManagerCall::Stop { worker: before.active()[i].worker, result: res }) == after.manager_calls()
                    && match res {
                        Ok(_) => r.stopped,
                        Err(e) => !r.stopped && r.message@ == e.message@,
                    },
        },
    })
}

/// How a status request was answered.
pub open spec fn status_answered<L: WorkerManager, S: DaemonStore>(before: TenonDaemon<L, S>, after: TenonDaemon<L, S>, request: PipelineRequest, r: GetPipelineStatusResponse) -> bool {
    &&& (after.plans() == before.plans())
    &&& (after.active() == before.active())
    &&& (match resolve_key(before.latest(), request.pipeline_name@, request_ver(request)) {
        Err((kind, m)) => r.id is None && r.state == WorkerState::Error && r.message@ == m,
        Ok(id) => match id_problem(Some(id)) {
            Some(m) => r.id is None && r.state == WorkerState::Error && r.message@ == m,
            None => if !before.plans().contains_key(plan_key(id)) {
                r.id is None && r.state == WorkerState::Error && r.message@ == "pipeline resource not found"@
            } else {
                r.id matches Some(k) && k@ == id && match deployment_index(before.active(), id) {
                    None => r.state == WorkerState::Error && r.message@ == "deployment worker not found"@
                        && after.manager_calls() == before.manager_calls(),
                    Some(i) => exists|res: Result<WorkerStatus, DaemonError>| #[trigger] before.manager_calls().push(
                        ManagerCall::Status { worker: before.active()[i].worker, result: res }) == after.manager_calls()
                        && match res {
                            Ok(st) => r.state == state_of(st),
                            Err(e) => r.state == WorkerState::Error && r.message@ == e.message@,
                        },
                }
            },
        },
    })
}

/// The daemon behind its request handlers.
pub struct DaemonService<L: WorkerManager, S: DaemonStore> {
    daemon: TenonDaemon<L, S>,
}

impl<L: WorkerManager, S: DaemonStore> DaemonService<L, S> {
    pub closed spec fn inner(&self) -> TenonDaemon<L, S> {
        self.daemon
    }

    pub fn with_daemon(daemon: TenonDaemon<L, S>) -> (r: Self)
        ensures
            r.inner() == daemon,
    {
        DaemonService { daemon }
    }

    pub fn daemon(&self) -> (r: &TenonDaemon<L, S>)
        ensures
            *r == self.inner(),
    {
        &self.daemon
    }

    /// Stores the pipeline of the request as its next revision.
    pub fn handle_put_pipeline(&mut self, request: PutPipelineRequest) -> (r: PutPipelineResponse)
        requires
            old(self).inner().wf(),
            revisions_have_room(old(self).inner().latest()),
        ensures
            final(self).inner().wf(),
            put_answered(old(self).inner(), final(self).inner(), request, r),
    {
        let pipeline = match request.pipeline {
            Some(p) => p,
            None => {
                return put_rejected(StartMode::RejectedWorkerError, "pipeline is missing".to_string());
            },
        };
        match self.daemon.put_pipeline(pipeline) {
            Ok(result) => PutPipelineResponse {
                accepted: true,
                id: Some(result.id),
                mode: StartMode::Unspecified,
                message: String::new(),
            },
            Err(error) => {
                let mode = start_error_mode(&error);
                put_rejected(mode, error.message)
            },
        }
    }

    /// The stored revision that the request names.
    pub fn handle_get_pipeline(&self, request: PipelineRequest) -> (r: GetPipelineResponse)
        requires
            self.inner().wf(),
        ensures
            get_answered(self.inner(), request, r),
    {
        match self.daemon.get_pipeline(request.pipeline_name.as_str(), ver_str(&request.pipeline_ver)) {
            Ok(Some(result)) => GetPipelineResponse { found: true, pipeline: Some(result.plan), message: String::new() },
            Ok(None) => GetPipelineResponse { found: false, pipeline: None, message: String::new() },
            Err(error) => GetPipelineResponse { found: false, pipeline: None, message: error.message },
        }
    }

    /// The ids of all stored revisions.
    pub fn handle_list_pipelines(&self) -> (r: ListPipelinesResponse)
        requires
            self.inner().wf(),
        ensures
            list_answered(self.inner(), r),
    {
        match self.daemon.list_pipelines() {
            Ok(pipelines) => ListPipelinesResponse { pipelines, message: String::new() },
            Err(error) => ListPipelinesResponse { pipelines: Vec::new(), message: error.message },
        }
    }

    /// Deletes the stored revision that the request names.
    pub fn handle_delete_pipeline(&mut self, request: PipelineRequest) -> (r: DeletePipelineResponse)
        requires
            old(self).inner().wf(),
        ensures
            final(self).inner().wf(),
            delete_answered(old(self).inner(), final(self).inner(), request, r),
    {
        match self.daemon.delete_pipeline(request.pipeline_name.as_str(), ver_str(&request.pipeline_ver)) {
            Ok(Some(id)) => DeletePipelineResponse { deleted: true, id: Some(id), message: String::new() },
            Ok(None) => DeletePipelineResponse {
                deleted: false,
                id: None,
                message: "pipeline resource not found".to_string(),
            },
            Err(error) => DeletePipelineResponse { deleted: false, id: None, message: error.message },
        }
    }

    /// Runs the stored revision that the request names.
    pub fn handle_start_pipeline(&mut self, request: PipelineRequest) -> (r: StartPipelineResponse)
        requires
            old(self).inner().wf(),
        ensures
            final(self).inner().wf(),
            start_answered(old(self).inner(), final(self).inner(), request, r),
    {
        proof {
            self.daemon.lemma_wf_consistent();
        }
        let dr = self.daemon.apply_pipeline(request.pipeline_name.as_str(), ver_str(&request.pipeline_ver));
        let ghost drv = dr;
        let r = match dr {
            Ok(result) => StartPipelineResponse {
                accepted: true,
                active_pipeline_id: Some(result.id),
                mode: start_mode_from_daemon(result.mode),
                message: String::new(),
            },
            Err(error) => StartPipelineResponse {
                accepted: false,
                active_pipeline_id: None,
                mode: start_error_mode(&error),
                message: error.message,
            },
        };
        assert(start_response_of(drv, r));
        r
    }

    /// Stops the deployment of the revision that the request names.
    pub fn handle_stop_pipeline(&mut self, request: PipelineRequest) -> (r: StopPipelineResponse)
        requires
            old(self).inner().wf(),
        ensures
            final(self).inner().wf(),
            stop_answered(old(self).inner(), final(self).inner(), request, r),
    {
        match self.daemon.stop_pipeline(request.pipeline_name.as_str(), ver_str(&request.pipeline_ver)) {
            Ok(state) => StopPipelineResponse { stopped: true, state: worker_state(state), message: String::new() },
            Err(error) => StopPipelineResponse { stopped: false, state: WorkerState::Error, message: error.message },
        }
    }

    /// The status of the worker running the revision that the request names.
    pub fn handle_get_pipeline_status(&mut self, request: PipelineRequest) -> (r: GetPipelineStatusResponse)
        requires
            old(self).inner().wf(),
        ensures
            final(self).inner().wf(),
            status_answered(old(self).inner(), final(self).inner(), request, r),
    {
        let pipeline = match self.daemon.get_pipeline(request.pipeline_name.as_str(), ver_str(&request.pipeline_ver)) {
            Ok(Some(p)) => p,
            Ok(None) => {
                return GetPipelineStatusResponse {
                    id: None,
                    state: WorkerState::Error,
                    message: "pipeline resource not found".to_string(),
                };
            },
            Err(error) => {
                return GetPipelineStatusResponse { id: None, state: WorkerState::Error, message: error.message };
            },
        };
        match self.daemon.worker_status(&pipeline.id) {
            Ok(state) => GetPipelineStatusResponse { id: Some(pipeline.id), state: worker_state(state), message: String::new() },
            Err(error) => GetPipelineStatusResponse { id: Some(pipeline.id), state: WorkerState::Error, message: error.message },
        }
    }
}

} // verus!
