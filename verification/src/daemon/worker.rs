//! Workers that run deployed pipelines, and what the daemon asks of the
//! component that manages them.
use vstd::prelude::*;
use crate::daemon::error::DaemonError;
use crate::message::{DeploymentPlan, MqttSourceClientIds};
use crate::number::{dec, u64_to_string};
use crate::text::concat;

verus! {

/// A running worker, by id.
#[derive(Debug, Clone, PartialEq, Eq)]
pub struct WorkerHandle {
    pub id: String,
}

impl WorkerHandle {
    /// A copy of this handle.
    pub fn copy(&self) -> (r: WorkerHandle)
        ensures
            r.id@ == self.id@,
    {
        WorkerHandle { id: self.id.clone() }
    }
}

/// Where a worker is in its life.
#[derive(Debug, Clone, Copy, PartialEq, Eq, Structural)]
pub enum WorkerStatus {
    Init,
    Starting,
    Running,
    Stopping,
    Stopped,
    Error,
}

/// What a worker is started with: the plan and the MQTT client ids of each
/// of its sources.
#[derive(Debug, Clone, PartialEq, Eq)]
pub struct WorkerDeployment {
    pub plan: DeploymentPlan,
    pub source_client_ids: Vec<MqttSourceClientIds>,
}

/// One counter that a worker reports.
#[derive(Debug, Clone, PartialEq, Eq)]
pub struct StatCounter {
    pub name: String,
    pub value: u64,
}

/// The counters that a worker reports.
#[derive(Debug, Clone, PartialEq, Eq)]
pub struct WorkerStats {
    pub counters: Vec<StatCounter>,
}

impl WorkerStats {
    /// Stats with no counters.
    pub fn empty() -> (r: WorkerStats)
        ensures
            r.counters@.len() == 0,
    {
        WorkerStats { counters: Vec::new() }
    }
}

/// Starts, reloads, stops and queries workers. Nothing is promised of what
/// an implementation does; the daemon states what holds whatever it does.
pub trait WorkerManager {
    fn start(&mut self, deployment: WorkerDeployment) -> Result<WorkerHandle, DaemonError>;

    fn reload(&mut self, worker: &WorkerHandle, plan: DeploymentPlan) -> Result<(), DaemonError>;

    fn stop(&mut self, worker: WorkerHandle) -> Result<(), DaemonError>;

    fn status(&mut self, worker: &WorkerHandle) -> Result<WorkerStatus, DaemonError>;

    fn stats(&mut self, worker: &WorkerHandle) -> Result<WorkerStats, DaemonError>;
}

/// A manager that runs nothing: workers are numbered and always running.
#[derive(Debug)]
pub struct NoopWorkerManager {
    pub next_id: u64,
}

/// `worker-<n>`.
pub open spec fn worker_name(n: u64) -> Seq<char> {
    "worker-"@ + dec(n as nat)
}

impl NoopWorkerManager {
    pub fn new() -> (r: Self)
        ensures
            r.next_id == 0,
    {
        NoopWorkerManager { next_id: 0 }
    }

    /// The handle for the next worker, numbered from one.
    pub fn next_handle(&mut self) -> (r: WorkerHandle)
        ensures
            final(self).next_id == old(self).next_id.wrapping_add(1),
            r.id@ == worker_name(old(self).next_id.wrapping_add(1)),
    {
        let id = self.next_id.wrapping_add(1);
        self.next_id = id;
        let n = u64_to_string(id);
        WorkerHandle { id: concat("worker-", n.as_str()) }
    }
}

impl WorkerManager for NoopWorkerManager {
    fn start(&mut self, deployment: WorkerDeployment) -> (r: Result<WorkerHandle, DaemonError>) {
        Ok(self.next_handle())
    }

    fn reload(&mut self, worker: &WorkerHandle, plan: DeploymentPlan) -> (r: Result<(), DaemonError>) {
        Ok(())
    }

    fn stop(&mut self, worker: WorkerHandle) -> (r: Result<(), DaemonError>) {
        Ok(())
    }

    fn status(&mut self, worker: &WorkerHandle) -> (r: Result<WorkerStatus, DaemonError>) {
        Ok(WorkerStatus::Running)
    }

    fn stats(&mut self, worker: &WorkerHandle) -> (r: Result<WorkerStats, DaemonError>) {
        Ok(WorkerStats::empty())
    }
}

/// How worker processes are spawned and reached: the worker binary, the
/// directory of their sockets, extra arguments and the timeouts in seconds.
#[derive(Debug, Clone, PartialEq, Eq)]
pub struct UdsWorkerManagerConfig {
    pub worker_binary: String,
    pub socket_dir: String,
    pub worker_args: Vec<String>,
    pub connect_timeout_secs: u64,
    pub stop_timeout_secs: u64,
}

impl UdsWorkerManagerConfig {
    /// The configuration with no extra arguments and ten-second timeouts.
    pub fn new(worker_binary: String, socket_dir: String) -> (r: Self)
        ensures
            r.worker_binary@ == worker_binary@,
            r.socket_dir@ == socket_dir@,
            r.worker_args@.len() == 0,
            r.connect_timeout_secs == 10,
            r.stop_timeout_secs == 10,
    {
        UdsWorkerManagerConfig {
            worker_binary,
            socket_dir,
            worker_args: Vec::new(),
            connect_timeout_secs: 10,
            stop_timeout_secs: 10,
        }
    }
}

} // verus!
