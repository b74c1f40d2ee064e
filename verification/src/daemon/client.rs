//! The daemon's requests and answers as one type each, how a served
//! request is answered, and the answer a client gives when the transport
//! fails.
use vstd::prelude::*;
use crate::daemon::lifecycle::revisions_have_room;
use crate::daemon::service::{
    delete_answered, get_answered, list_answered, put_answered, start_answered, status_answered,
    stop_answered, DaemonService, DeletePipelineResponse, GetPipelineResponse,
    GetPipelineStatusResponse, ListPipelinesResponse, PipelineRequest, PutPipelineRequest,
    PutPipelineResponse, StartMode, StartPipelineResponse, StopPipelineResponse, WorkerState,
};
use crate::daemon::store::DaemonStore;
use crate::daemon::worker::WorkerManager;
use crate::text::concat;

verus! {

/// A request to the daemon.
#[derive(Debug, PartialEq, Eq)]
pub enum DaemonRequest {
    PutPipeline(PutPipelineRequest),
    StartPipeline(PipelineRequest),
    GetPipeline(PipelineRequest),
    ListPipelines,
    DeletePipeline(PipelineRequest),
    StopPipeline(PipelineRequest),
    GetPipelineStatus(PipelineRequest),
}

/// The daemon's answer to a request.
#[derive(Debug, PartialEq, Eq)]
pub enum DaemonResponse {
    PutPipeline(PutPipelineResponse),
    StartPipeline(StartPipelineResponse),
    GetPipeline(GetPipelineResponse),
    ListPipelines(ListPipelinesResponse),
    DeletePipeline(DeletePipelineResponse),
    StopPipeline(StopPipelineResponse),
    GetPipelineStatus(GetPipelineStatusResponse),
}

/// How the service answered `request` with `r`, going from `before` to
/// `after`.
pub open spec fn answered<L: WorkerManager, S: DaemonStore>(
    before: DaemonService<L, S>,
    after: DaemonService<L, S>,
    request: DaemonRequest,
    r: DaemonResponse,
) -> bool {
    match (request, r) {
        (DaemonRequest::PutPipeline(q), DaemonResponse::PutPipeline(a)) => put_answered(before.inner(), after.inner(), q, a),
        (DaemonRequest::StartPipeline(q), DaemonResponse::StartPipeline(a)) => start_answered(before.inner(), after.inner(), q, a),
        (DaemonRequest::GetPipeline(q), DaemonResponse::GetPipeline(a)) => after == before && get_answered(before.inner(), q, a),
        (DaemonRequest::ListPipelines, DaemonResponse::ListPipelines(a)) => after == before && list_answered(before.inner(), a),
        (DaemonRequest::DeletePipeline(q), DaemonResponse::DeletePipeline(a)) => delete_answered(before.inner(), after.inner(), q, a),
        (DaemonRequest::StopPipeline(q), DaemonResponse::StopPipeline(a)) => stop_answered(before.inner(), after.inner(), q, a),
        (DaemonRequest::GetPipelineStatus(q), DaemonResponse::GetPipelineStatus(a)) => status_answered(before.inner(), after.inner(), q, a),
        _ => false,
    }
}

impl<L: WorkerManager, S: DaemonStore> DaemonService<L, S> {
    /// Serves one request with the handler of its kind.
    pub fn handle_command(&mut self, request: DaemonRequest) -> (r: DaemonResponse)
        requires
            old(self).inner().wf(),
            request is PutPipeline ==> revisions_have_room(old(self).inner().latest()),
        ensures
            final(self).inner().wf(),
            answered(*old(self), *final(self), request, r),
    {
        match request {
            DaemonRequest::PutPipeline(q) => DaemonResponse::PutPipeline(self.handle_put_pipeline(q)),
            DaemonRequest::StartPipeline(q) => DaemonResponse::StartPipeline(self.handle_start_pipeline(q)),
            DaemonRequest::GetPipeline(q) => DaemonResponse::GetPipeline(self.handle_get_pipeline(q)),
            DaemonRequest::ListPipelines => DaemonResponse::ListPipelines(self.handle_list_pipelines()),
            DaemonRequest::DeletePipeline(q) => DaemonResponse::DeletePipeline(self.handle_delete_pipeline(q)),
            DaemonRequest::StopPipeline(q) => DaemonResponse::StopPipeline(self.handle_stop_pipeline(q)),
            DaemonRequest::GetPipelineStatus(q) => DaemonResponse::GetPipelineStatus(self.handle_get_pipeline_status(q)),
        }
    }
}


/// What a client of the daemon can ask of it. Clients are the program's:
/// one in the same process over a channel, or one across a socket.
pub trait DaemonClient {
    fn put_pipeline(&self, request: PutPipelineRequest) -> PutPipelineResponse;

    fn start_pipeline(&self, request: PipelineRequest) -> StartPipelineResponse;

    fn get_pipeline(&self, request: PipelineRequest) -> GetPipelineResponse;

    fn list_pipelines(&self) -> ListPipelinesResponse;

    fn delete_pipeline(&self, request: PipelineRequest) -> DeletePipelineResponse;

    fn stop_pipeline(&self, request: PipelineRequest) -> StopPipelineResponse;

    fn get_pipeline_status(&self, request: PipelineRequest) -> GetPipelineStatusResponse;
}

/// Serves the requests of clients until they are gone.
pub trait DaemonServer {
    fn serve(self);
}

/// A put that did not reach the daemon.
pub fn put_pipeline_failed(message: String) -> (r: PutPipelineResponse)
    ensures
        !r.accepted && r.id is None && r.mode == StartMode::RejectedWorkerError && r.message@ == message@,
{
    PutPipelineResponse { accepted: false, id: None, mode: StartMode::RejectedWorkerError, message }
}

/// A start that did not reach the daemon.
pub fn start_pipeline_failed(message: String) -> (r: StartPipelineResponse)
    ensures
        !r.accepted && r.active_pipeline_id is None && r.mode == StartMode::RejectedWorkerError
            && r.message@ == message@,
{
    StartPipelineResponse { accepted: false, active_pipeline_id: None, mode: StartMode::RejectedWorkerError, message }
}

/// A read that did not reach the daemon.
pub fn get_pipeline_failed(message: String) -> (r: GetPipelineResponse)
    ensures
        !r.found && r.pipeline is None && r.message@ == message@,
{
    GetPipelineResponse { found: false, pipeline: None, message }
}

/// A listing that did not reach the daemon.
pub fn list_pipelines_failed(message: String) -> (r: ListPipelinesResponse)
    ensures
        r.pipelines@.len() == 0 && r.message@ == message@,
{
    ListPipelinesResponse { pipelines: Vec::new(), message }
}

/// A delete that did not reach the daemon.
pub fn delete_pipeline_failed(message: String) -> (r: DeletePipelineResponse)
    ensures
        !r.deleted && r.id is None && r.message@ == message@,
{
    DeletePipelineResponse { deleted: false, id: None, message }
}

/// A stop that did not reach the daemon.
pub fn stop_pipeline_failed(message: String) -> (r: StopPipelineResponse)
    ensures
        !r.stopped && r.state == WorkerState::Error && r.message@ == message@,
{
    StopPipelineResponse { stopped: false, state: WorkerState::Error, message }
}

/// A status request that did not reach the daemon.
pub fn pipeline_status_failed(message: String) -> (r: GetPipelineStatusResponse)
    ensures
        r.id is None && r.state == WorkerState::Error && r.message@ == message@,
{
    GetPipelineStatusResponse { id: None, state: WorkerState::Error, message }
}

/// What a client reports when the transport failed with `error`, its
/// `Debug` text.
pub open spec fn transport_failure(error: Seq<char>) -> Seq<char> {
    "daemon transport failed: "@ + error
}

/// The client's failure message for a transport error.
pub fn transport_failed(error: &str) -> (r: String)
    ensures
        r@ == transport_failure(error@),
{
    concat("daemon transport failed: ", error)
}

/// The answer a client hands back for a put: the daemon's, or a failure
/// where the transport failed (`Err` holds the error's `Debug` text) or the
/// answer is of another kind.
pub fn put_pipeline_reply(reply: Result<DaemonResponse, String>) -> (r: PutPipelineResponse)
    ensures
        match reply {
            Ok(DaemonResponse::PutPipeline(a)) => r == a,
            Ok(_) => !r.accepted && r.id is None && r.mode == StartMode::RejectedWorkerError
                && r.message@ == "unexpected daemon response"@,
            Err(e) => !r.accepted && r.id is None && r.mode == StartMode::RejectedWorkerError
                && r.message@ == transport_failure(e@),
        },
{
    match reply {
        Ok(DaemonResponse::PutPipeline(a)) => a,
        Ok(_) => put_pipeline_failed("unexpected daemon response".to_string()),
        Err(e) => put_pipeline_failed(transport_failed(e.as_str())),
    }
}

/// The answer a client hands back for a start.
pub fn start_pipeline_reply(reply: Result<DaemonResponse, String>) -> (r: StartPipelineResponse)
    ensures
        match reply {
            Ok(DaemonResponse::StartPipeline(a)) => r == a,
            Ok(_) => !r.accepted && r.active_pipeline_id is None && r.mode == StartMode::RejectedWorkerError
                && r.message@ == "unexpected daemon response"@,
            Err(e) => !r.accepted && r.active_pipeline_id is None && r.mode == StartMode::RejectedWorkerError
                && r.message@ == transport_failure(e@),
        },
{
    match reply {
        Ok(DaemonResponse::StartPipeline(a)) => a,
        Ok(_) => start_pipeline_failed("unexpected daemon response".to_string()),
        Err(e) => start_pipeline_failed(transport_failed(e.as_str())),
    }
}

/// The answer a client hands back for a read.
pub fn get_pipeline_reply(reply: Result<DaemonResponse, String>) -> (r: GetPipelineResponse)
    ensures
        match reply {
            Ok(DaemonResponse::GetPipeline(a)) => r == a,
            Ok(_) => !r.found && r.pipeline is None && r.message@ == "unexpected daemon response"@,
            Err(e) => !r.found && r.pipeline is None && r.message@ == transport_failure(e@),
        },
{
    match reply {
        Ok(DaemonResponse::GetPipeline(a)) => a,
        Ok(_) => get_pipeline_failed("unexpected daemon response".to_string()),
        Err(e) => get_pipeline_failed(transport_failed(e.as_str())),
    }
}

/// The answer a client hands back for a listing.
pub fn list_pipelines_reply(reply: Result<DaemonResponse, String>) -> (r: ListPipelinesResponse)
    ensures
        match reply {
            Ok(DaemonResponse::ListPipelines(a)) => r == a,
            Ok(_) => r.pipelines@.len() == 0 && r.message@ == "unexpected daemon response"@,
            Err(e) => r.pipelines@.len() == 0 && r.message@ == transport_failure(e@),
        },
{
    match reply {
        Ok(DaemonResponse::ListPipelines(a)) => a,
        Ok(_) => list_pipelines_failed("unexpected daemon response".to_string()),
        Err(e) => list_pipelines_failed(transport_failed(e.as_str())),
    }
}

/// The answer a client hands back for a delete.
pub fn delete_pipeline_reply(reply: Result<DaemonResponse, String>) -> (r: DeletePipelineResponse)
    ensures
        match reply {
            Ok(DaemonResponse::DeletePipeline(a)) => r == a,
            Ok(_) => !r.deleted && r.id is None && r.message@ == "unexpected daemon response"@,
            Err(e) => !r.deleted && r.id is None && r.message@ == transport_failure(e@),
        },
{
    match reply {
        Ok(DaemonResponse::DeletePipeline(a)) => a,
        Ok(_) => delete_pipeline_failed("unexpected daemon response".to_string()),
        Err(e) => delete_pipeline_failed(transport_failed(e.as_str())),
    }
}

/// The answer a client hands back for a stop.
pub fn stop_pipeline_reply(reply: Result<DaemonResponse, String>) -> (r: StopPipelineResponse)
    ensures
        match reply {
            Ok(DaemonResponse::StopPipeline(a)) => r == a,
            Ok(_) => !r.stopped && r.state == WorkerState::Error && r.message@ == "unexpected daemon response"@,
            Err(e) => !r.stopped && r.state == WorkerState::Error && r.message@ == transport_failure(e@),
        },
{
    match reply {
        Ok(DaemonResponse::StopPipeline(a)) => a,
        Ok(_) => stop_pipeline_failed("unexpected daemon response".to_string()),
        Err(e) => stop_pipeline_failed(transport_failed(e.as_str())),
    }
}

/// The answer a client hands back for a status request.
pub fn pipeline_status_reply(reply: Result<DaemonResponse, String>) -> (r: GetPipelineStatusResponse)
    ensures
        match reply {
            Ok(DaemonResponse::GetPipelineStatus(a)) => r == a,
            Ok(_) => r.id is None && r.state == WorkerState::Error && r.message@ == "unexpected daemon response"@,
            Err(e) => r.id is None && r.state == WorkerState::Error && r.message@ == transport_failure(e@),
        },
{
    match reply {
        Ok(DaemonResponse::GetPipelineStatus(a)) => a,
        Ok(_) => pipeline_status_failed("unexpected daemon response".to_string()),
        Err(e) => pipeline_status_failed(transport_failed(e.as_str())),
    }
}

} // verus!
