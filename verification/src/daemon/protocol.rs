//! What the daemon decides when it runs workers as processes reached over
//! Unix sockets: worker ids, socket paths and command lines, and whether a
//! worker's reply is the one asked for.
//!
//! Spawning the process, the socket and the framed messages are the
//! program's; it hands the decoded replies to these functions.
use vstd::prelude::*;
use crate::daemon::error::{fails_with, DaemonError, DaemonErrorKind};
use crate::daemon::keys::{id_problem, validate_resource_id};
use crate::daemon::worker::{WorkerHandle, WorkerStats, WorkerStatus};
use crate::table::Table;
use crate::message::DeploymentPlan;
use crate::number::{dec, u64_to_string};
use crate::paths::{join, join_path};
use crate::text::concat;

verus! {

/// A worker's state as its replies report it.
#[derive(Debug, Clone, Copy, PartialEq, Eq, Structural)]
pub enum WireWorkerState {
    Unspecified,
    Init,
    Starting,
    Running,
    Stopping,
    Stopped,
    Error,
}

impl WireWorkerState {
    pub open spec fn spec_name(self) -> Seq<char> {
        match self {
            WireWorkerState::Unspecified => "Unspecified"@,
            WireWorkerState::Init => "Init"@,
            WireWorkerState::Starting => "Starting"@,
            WireWorkerState::Running => "Running"@,
            WireWorkerState::Stopping => "Stopping"@,
            WireWorkerState::Stopped => "Stopped"@,
            WireWorkerState::Error => "Error"@,
        }
    }

    /// The state's name, as `Debug` writes it.
    pub fn name(&self) -> (r: &'static str)
        ensures
            r@ == self.spec_name(),
    {
        match self {
            WireWorkerState::Unspecified => "Unspecified",
            WireWorkerState::Init => "Init",
            WireWorkerState::Starting => "Starting",
            WireWorkerState::Running => "Running",
            WireWorkerState::Stopping => "Stopping",
            WireWorkerState::Stopped => "Stopped",
            WireWorkerState::Error => "Error",
        }
    }
}

/// Which request a reply answers.
#[derive(Debug, Clone, Copy, PartialEq, Eq, Structural)]
pub enum WorkerResponseKind {
    Start,
    Reload,
    Stop,
}

/// A worker's answer to a start, reload or stop request: its state (none
/// where the number it sent names no state) and an error, empty where
/// there is none.
#[derive(Debug, Clone, PartialEq, Eq)]
pub struct WorkerReply {
    pub state: Option<WireWorkerState>,
    pub error: String,
}

#[derive(Debug, Clone, PartialEq, Eq)]
pub enum WorkerResponsePayload {
    StartWorker(WorkerReply),
    ReloadWorker(WorkerReply),
    StopWorker(WorkerReply),
    WorkerStats { stats: Option<WorkerStats>, error: String },
}

/// A decoded reply from a worker.
#[derive(Debug, Clone, PartialEq, Eq)]
pub struct WorkerResponseEnvelope {
    pub payload: Option<WorkerResponsePayload>,
}

/// The reply that answers a request of kind `kind`, if the payload is one.
pub open spec fn reply_for(kind: WorkerResponseKind, p: WorkerResponsePayload) -> Option<WorkerReply> {
    match (kind, p) {
        (WorkerResponseKind::Start, WorkerResponsePayload::StartWorker(r)) => Some(r),
        (WorkerResponseKind::Reload, WorkerResponsePayload::ReloadWorker(r)) => Some(r),
        (WorkerResponseKind::Stop, WorkerResponsePayload::StopWorker(r)) => Some(r),
        _ => None,
    }
}

/// The message of a reply whose state is not the one expected.
pub open spec fn unexpected_state(expected: WireWorkerState, actual: WireWorkerState) -> Seq<char> {
    "worker returned unexpected state: expected="@ + expected.spec_name() + " actual="@ + actual.spec_name()
}

/// Why a reply is refused, if it is.
pub open spec fn reply_problem(
    envelope: WorkerResponseEnvelope,
    expected: WorkerResponseKind,
    expected_state: WireWorkerState,
) -> Option<Seq<char>> {
    match envelope.payload {
        None => Some("worker response payload is missing"@),
        Some(p) => match reply_for(expected, p) {
            None => Some("unexpected worker response payload"@),
            Some(r) => if r.error@.len() > 0 {
                Some(r.error@)
            } else {
                match r.state {
                    None => Some("worker returned an unknown state"@),
                    Some(s) => if s != expected_state {
                        Some(unexpected_state(expected_state, s))
                    } else {
                        None
                    },
                }
            },
        },
    }
}

/// Accepts a reply only where it answers a request of kind `expected`,
/// carries no error and reports `expected_state`.
pub fn check_worker_response(
    envelope: WorkerResponseEnvelope,
    expected: WorkerResponseKind,
    expected_state: WireWorkerState,
) -> (r: Result<(), DaemonError>)
    ensures
        match reply_problem(envelope, expected, expected_state) {
            Some(m) => fails_with(r, DaemonErrorKind::Worker, m),
            None => r is Ok,
        },
{
    let ghost env = envelope;
    let payload = match envelope.payload {
        Some(p) => p,
        None => {
            return Err(DaemonError::worker("worker response payload is missing".to_string()));
        },
    };
    let reply = match (expected, payload) {
        (WorkerResponseKind::Start, WorkerResponsePayload::StartWorker(r)) => r,
        (WorkerResponseKind::Reload, WorkerResponsePayload::ReloadWorker(r)) => r,
        (WorkerResponseKind::Stop, WorkerResponsePayload::StopWorker(r)) => r,
        _ => {
            return Err(DaemonError::worker("unexpected worker response payload".to_string()));
        },
    };
    if !reply.error.as_str().is_empty() {
        return Err(DaemonError::worker(reply.error));
    }
    let actual = match reply.state {
        Some(s) => s,
        None => {
            return Err(DaemonError::worker("worker returned an unknown state".to_string()));
        },
    };
    if actual != expected_state {
        let a = concat("worker returned unexpected state: expected=", expected_state.name());
        let b = concat(a.as_str(), " actual=");
        let m = concat(b.as_str(), actual.name());
        assert(m@ =~= unexpected_state(expected_state, actual));
        return Err(DaemonError::worker(m));
    }
    Ok(())
}

/// What a stats reply yields: the stats, or why there are none.
pub open spec fn stats_outcome(envelope: WorkerResponseEnvelope) -> Result<Option<WorkerStats>, Seq<char>> {
    match envelope.payload {
        Some(WorkerResponsePayload::WorkerStats { stats, error }) => if error@.len() > 0 {
            Err(error@)
        } else {
            match stats {
                Some(s) => Ok(Some(s)),
                None => Err("worker stats are missing"@),
            }
        },
        _ => Err("worker stats response payload is missing"@),
    }
}

/// The stats that a worker's reply carries.
pub fn worker_stats_from_response(envelope: WorkerResponseEnvelope) -> (r: Result<WorkerStats, DaemonError>)
    ensures
        match stats_outcome(envelope) {
            Ok(Some(s)) => r == Ok::<WorkerStats, DaemonError>(s),
            Ok(None) => false,
            Err(m) => fails_with(r, DaemonErrorKind::Worker, m),
        },
{
    match envelope.payload {
        Some(WorkerResponsePayload::WorkerStats { stats, error }) => {
            if !error.as_str().is_empty() {
                return Err(DaemonError::worker(error));
            }
            match stats {
                Some(s) => Ok(s),
                None => Err(DaemonError::worker("worker stats are missing".to_string())),
            }
        },
        _ => Err(DaemonError::worker("worker stats response payload is missing".to_string())),
    }
}

/// `<name>-<version>-<seq>`.
pub open spec fn worker_id_text(name: Seq<char>, version: Seq<char>, seq: nat) -> Seq<char> {
    name + "-"@ + version + "-"@ + dec(seq)
}

/// The id of the next worker for `plan`, numbering workers from one; the
/// count moves only when the plan's id is usable.
pub fn next_worker_id(plan: &DeploymentPlan, next_id: &mut u64) -> (r: Result<String, DaemonError>)
    requires
        *old(next_id) < u64::MAX,
    ensures
        match plan.id {
            None => fails_with(r, DaemonErrorKind::InvalidState, "deployment plan id is missing"@)
                && *final(next_id) == *old(next_id),
            Some(id) => match id_problem(Some(id@)) {
                Some(m) => fails_with(r, DaemonErrorKind::InvalidState, m) && *final(next_id) == *old(next_id),
                None => *final(next_id) == *old(next_id) + 1 && (r matches Ok(s)
                    && s@ == worker_id_text(id.name@, id.version@, *final(next_id) as nat)),
            },
        },
{
    let id = match &plan.id {
        Some(id) => id,
        None => {
            return Err(DaemonError::invalid_state("deployment plan id is missing".to_string()));
        },
    };
    match validate_resource_id(id) {
        Ok(()) => {},
        Err(e) => {
            return Err(e);
        },
    }
    *next_id = *next_id + 1;
    let a = concat(id.name.as_str(), "-");
    let b = concat(a.as_str(), id.version.as_str());
    let c = concat(b.as_str(), "-");
    let n = u64_to_string(*next_id);
    let s = concat(c.as_str(), n.as_str());
    assert(s@ =~= worker_id_text(id.name@, id.version@, *next_id as nat));
    Ok(s)
}

/// The socket of worker `worker_id`: `<worker_id>.sock` in `socket_dir`.
pub fn worker_socket_path(socket_dir: &str, worker_id: &str) -> (r: String)
    ensures
        r@ == join(socket_dir@, worker_id@ + ".sock"@),
{
    let file = concat(worker_id, ".sock");
    join_path(socket_dir, file.as_str())
}

/// The worker's command-line arguments: the configured ones, then the
/// worker flag, its id and its socket.
pub open spec fn worker_args_of(worker_args: Seq<Seq<char>>, worker_id: Seq<char>, socket_path: Seq<char>) -> Seq<Seq<char>> {
    worker_args + seq!["--worker"@, "--worker-id"@, worker_id, "--worker-uds"@, socket_path]
}

pub open spec fn arg_texts(v: Seq<String>) -> Seq<Seq<char>> {
    v.map_values(|s: String| s@)
}

/// The arguments that a worker process is started with.
pub fn worker_command_args(worker_args: &Vec<String>, worker_id: &str, socket_path: &str) -> (r: Vec<String>)
    ensures
        arg_texts(r@) == worker_args_of(arg_texts(worker_args@), worker_id@, socket_path@),
{
    let mut out: Vec<String> = Vec::new();
    let mut i: usize = 0;
    while i < worker_args.len()
        invariant
            i <= worker_args@.len(),
            arg_texts(out@) == arg_texts(worker_args@).take(i as int),
        decreases worker_args@.len() - i,
    {
        let a = worker_args[i].clone();
        let ghost before = out@;
        out.push(a);
        assert(out@ == before.push(a));
        assert(arg_texts(out@) =~= arg_texts(before).push(worker_args@[i as int]@));
        assert(arg_texts(worker_args@).take(i + 1) =~= arg_texts(worker_args@).take(i as int).push(worker_args@[i as int]@));
        i = i + 1;
    }
    out.push("--worker".to_string());
    out.push("--worker-id".to_string());
    out.push(worker_id.to_string());
    out.push("--worker-uds".to_string());
    out.push(socket_path.to_string());
    assert(arg_texts(worker_args@).take(i as int) =~= arg_texts(worker_args@));
    assert(arg_texts(out@) =~= worker_args_of(arg_texts(worker_args@), worker_id@, socket_path@));
    out
}

/// A worker's status once its process has been looked at: stopped where it
/// exited cleanly, in error where it exited otherwise, as it was where it
/// still runs.
pub open spec fn status_after(exited: Option<bool>, current: WorkerStatus) -> WorkerStatus {
    match exited {
        Some(true) => WorkerStatus::Stopped,
        Some(false) => WorkerStatus::Error,
        None => current,
    }
}

/// The status of a worker given whether its process has exited and, if so,
/// whether it succeeded.
pub fn worker_status_after_exit(exited: Option<bool>, current: WorkerStatus) -> (r: WorkerStatus)
    ensures
        r == status_after(exited, current),
{
    match exited {
        Some(true) => WorkerStatus::Stopped,
        Some(false) => WorkerStatus::Error,
        None => current,
    }
}

/// The error for a worker that the manager does not know.
pub fn unknown_worker(worker_id: &str) -> (r: DaemonError)
    ensures
        r.kind == DaemonErrorKind::NotFound,
        r.message@ == "worker not found: "@ + worker_id@,
{
    DaemonError::not_found(concat("worker not found: ", worker_id))
}

/// The outcome of stopping a worker: the reply's failure if any, else the
/// process's.
pub fn stop_outcome(reply: Result<(), DaemonError>, process: Result<(), DaemonError>) -> (r: Result<(), DaemonError>)
    ensures
        r == (match reply {
            Err(e) => Err::<(), DaemonError>(e),
            Ok(()) => process,
        }),
{
    match reply {
        Err(e) => Err(e),
        Ok(()) => process,
    }
}


/// A worker process that the manager runs: its socket and its status.
#[derive(Debug, Clone, PartialEq, Eq)]
pub struct WorkerRecord {
    pub socket_path: String,
    pub status: WorkerStatus,
}

impl View for WorkerRecord {
    type V = (Seq<char>, WorkerStatus);

    open spec fn view(&self) -> (Seq<char>, WorkerStatus) {
        (self.socket_path@, self.status)
    }
}

/// The workers that a manager runs, by worker id, and how many it has
/// numbered.
#[derive(Debug)]
pub struct WorkerRegistry {
    next_id: u64,
    workers: Table<WorkerRecord>,
}

impl WorkerRegistry {
    pub closed spec fn numbered(&self) -> u64 {
        self.next_id
    }

    pub closed spec fn running(&self) -> Map<Seq<char>, (Seq<char>, WorkerStatus)> {
        self.workers@
    }

    /// A registry with no worker.
    pub fn new() -> (r: Self)
        ensures
            r.numbered() == 0,
            r.running() == Map::<Seq<char>, (Seq<char>, WorkerStatus)>::empty(),
    {
        WorkerRegistry { next_id: 0, workers: Table::new() }
    }

    /// The id for the next worker of `plan`.
    pub fn next_worker_id(&mut self, plan: &DeploymentPlan) -> (r: Result<String, DaemonError>)
        requires
            old(self).numbered() < u64::MAX,
        ensures
            final(self).running() == old(self).running(),
            match plan.id {
                None => fails_with(r, DaemonErrorKind::InvalidState, "deployment plan id is missing"@)
                    && final(self).numbered() == old(self).numbered(),
                Some(id) => match id_problem(Some(id@)) {
                    Some(m) => fails_with(r, DaemonErrorKind::InvalidState, m)
                        && final(self).numbered() == old(self).numbered(),
                    None => final(self).numbered() == old(self).numbered() + 1 && (r matches Ok(s)
                        && s@ == worker_id_text(id.name@, id.version@, final(self).numbered() as nat)),
                },
            },
    {
        next_worker_id(plan, &mut self.next_id)
    }

    /// Records a worker that started and reported itself running.
    pub fn started(&mut self, worker_id: String, socket_path: String)
        ensures
            final(self).numbered() == old(self).numbered(),
            final(self).running() == old(self).running().insert(worker_id@, (socket_path@, WorkerStatus::Running)),
    {
        self.workers.insert(worker_id, WorkerRecord { socket_path, status: WorkerStatus::Running });
    }

    /// The record of `worker`, or the error for a worker the manager does
    /// not run.
    pub fn find(&self, worker: &WorkerHandle) -> (r: Result<&WorkerRecord, DaemonError>)
        ensures
            match r {
                Ok(w) => self.running().contains_key(worker.id@) && self.running()[worker.id@] == w@,
                Err(e) => !self.running().contains_key(worker.id@) && e.kind == DaemonErrorKind::NotFound
                    && e.message@ == "worker not found: "@ + worker.id@,
            },
    {
        match self.workers.get(worker.id.as_str()) {
            Some(w) => Ok(w),
            None => Err(unknown_worker(worker.id.as_str())),
        }
    }

    /// Takes `worker` out of the registry to stop it.
    pub fn remove(&mut self, worker: &WorkerHandle) -> (r: Result<WorkerRecord, DaemonError>)
        ensures
            final(self).numbered() == old(self).numbered(),
            final(self).running() == old(self).running().remove(worker.id@),
            match r {
                Ok(w) => old(self).running().contains_key(worker.id@) && old(self).running()[worker.id@] == w@,
                Err(e) => !old(self).running().contains_key(worker.id@) && e.kind == DaemonErrorKind::NotFound
                    && e.message@ == "worker not found: "@ + worker.id@,
            },
    {
        match self.workers.take(worker.id.as_str()) {
            Some(w) => Ok(w),
            None => Err(unknown_worker(worker.id.as_str())),
        }
    }

    /// The status of `worker` once its process has been looked at: kept
    /// where the process still runs, stopped or in error where it exited.
    pub fn observe_exit(&mut self, worker: &WorkerHandle, exited: Option<bool>) -> (r: Result<WorkerStatus, DaemonError>)
        ensures
            final(self).numbered() == old(self).numbered(),
            match r {
                Ok(s) => old(self).running().contains_key(worker.id@)
                    && s == status_after(exited, old(self).running()[worker.id@].1)
                    && final(self).running() == old(self).running().insert(
                        worker.id@,
                        (old(self).running()[worker.id@].0, s),
                    ),
                Err(e) => !old(self).running().contains_key(worker.id@) && e.kind == DaemonErrorKind::NotFound
                    && e.message@ == "worker not found: "@ + worker.id@
                    && final(self).running() == old(self).running(),
            },
    {
        let record = match self.workers.take(worker.id.as_str()) {
            Some(w) => w,
            None => {
                return Err(unknown_worker(worker.id.as_str()));
            },
        };
        let status = worker_status_after_exit(exited, record.status);
        let ghost path = record.socket_path@;
        self.workers.insert(worker.id.clone(), WorkerRecord { socket_path: record.socket_path, status });
        assert(old(self).running().remove(worker.id@).insert(worker.id@, (path, status))
            =~= old(self).running().insert(worker.id@, (path, status)));
        Ok(status)
    }
}

} // verus!
