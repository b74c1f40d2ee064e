//! The daemon: stores pipeline revisions and runs at most one deployment per
//! pipeline, hot-reloading a worker when only the process changes.
use vstd::prelude::*;
use crate::daemon::error::{fails_with, DaemonError, DaemonErrorKind};
use crate::daemon::keys::{
    client_id_of, id_label, id_problem, ids_key, meta_key, mqtt_client_id,
    mqtt_source_client_ids_key, next_revision, parse_revision, plan_key, rejects_id,
    revision_after, revision_number, source_ids_id,
};
use crate::daemon::store::{lists_plan_ids, plans_consistent, DaemonStore};
use crate::daemon::worker::{WorkerDeployment, WorkerHandle, WorkerManager, WorkerStats, WorkerStatus};
use crate::message::{
    copy_strings, eq_sources, strings_view, DeploymentPlan, IdView, MqttSourceClientIds,
    PlanView, ProcessPlan, ResourceId, SourceView,
};
use crate::text::{concat, is_blank, str_eq, str_is_blank};

verus! {

/// A pipeline revision that runs on a worker.
#[derive(Debug, PartialEq, Eq)]
pub struct ActiveDeployment {
    pub id: ResourceId,
    pub plan: DeploymentPlan,
    pub worker: WorkerHandle,
}

/// How a deployment came to run.
#[derive(Debug, Clone, Copy, PartialEq, Eq, Structural)]
pub enum DaemonApplyMode {
    Started,
    HotReload,
}

#[derive(Debug, PartialEq, Eq)]
pub struct DaemonApplyResult {
    pub id: ResourceId,
    pub mode: DaemonApplyMode,
}

#[derive(Debug, PartialEq, Eq)]
pub struct DaemonPutPipelineResult {
    pub id: ResourceId,
}

/// A stored revision with its id.
#[derive(Debug, PartialEq, Eq)]
pub struct StoredPipeline {
    pub id: ResourceId,
    pub plan: DeploymentPlan,
}

/// Model of a deployment: its id, its plan and its worker's id.
pub struct DeploymentView {
    pub id: IdView,
    pub plan: PlanView,
    pub worker: Seq<char>,
}

pub open spec fn deployment_view(d: ActiveDeployment) -> DeploymentView {
    DeploymentView { id: d.id@, plan: d.plan@, worker: d.worker.id@ }
}

pub open spec fn deployments_view(d: Seq<ActiveDeployment>) -> Seq<DeploymentView> {
    d.map_values(|x: ActiveDeployment| deployment_view(x))
}

/// Index of the first deployment of pipeline `name`.
pub open spec fn active_for(d: Seq<DeploymentView>, name: Seq<char>) -> Option<int>
    decreases d.len(),
{
    if d.len() == 0 {
        None
    } else {
        match active_for(d.drop_last(), name) {
            Some(i) => Some(i),
            None => if d.last().id.name == name {
                Some(d.len() - 1)
            } else {
                None
            },
        }
    }
}

/// No two deployments belong to one pipeline.
pub open spec fn names_unique(d: Seq<DeploymentView>) -> bool {
    forall|i: int, j: int| 0 <= i < j < d.len() ==> d[i].id.name != d[j].id.name
}

/// The deployments without the one of pipeline `name`.
pub open spec fn without_pipeline(d: Seq<DeploymentView>, name: Seq<char>) -> Seq<DeploymentView> {
    match active_for(d, name) {
        Some(i) => d.remove(i),
        None => d,
    }
}

/// Why the daemon refuses to store a plan, if it does: its process or the
/// access plan of its process is missing, or its id is.
pub open spec fn put_problem(p: PlanView) -> Option<Seq<char>> {
    match p.process {
        None => Some("process plan is missing"@),
        Some(pr) => if pr.access_plan is None {
            Some("process access_plan is missing"@)
        } else {
            match p.id {
                None => Some("pipeline id is missing"@),
                Some(i) => if is_blank(i.name) {
                    Some("pipeline name is missing"@)
                } else {
                    None
                },
            }
        },
    }
}

/// The revision that the next stored plan of pipeline `name` gets: `r1`
/// first, then the one after the latest.
pub open spec fn next_revision_for(latest: Map<Seq<char>, IdView>, name: Seq<char>) -> Result<Seq<char>, Seq<char>> {
    if !latest.contains_key(meta_key(name)) {
        Ok("r1"@)
    } else {
        match revision_number(latest[meta_key(name)].version) {
            None => Err("invalid latest pipeline revision: "@ + latest[meta_key(name)].version),
            Some(n) => Ok(revision_after(n)),
        }
    }
}

/// What storing plan `p` comes to, `plans` and `latest` the store before:
/// the id it is stored under, or why it is refused.
pub open spec fn put_result(plans: Map<Seq<char>, PlanView>, latest: Map<Seq<char>, IdView>, p: PlanView) -> Result<IdView, Seq<char>> {
    match put_problem(p) {
        Some(m) => Err(m),
        None => match next_revision_for(latest, p.id->Some_0.name) {
            Err(m) => Err(m),
            Ok(v) => {
                let nid = IdView { name: p.id->Some_0.name, version: v };
                if plans.contains_key(plan_key(nid)) {
                    Err("pipeline resource already exists: "@ + id_label(nid))
                } else {
                    Ok(nid)
                }
            },
        },
    }
}

/// No latest revision is the largest number a revision can have.
pub open spec fn revisions_have_room(latest: Map<Seq<char>, IdView>) -> bool {
    forall|k: Seq<char>| #[trigger] latest.contains_key(k) ==> revision_number(latest[k].version) != Some(u64::MAX as int)
}

/// The same plan under another id.
pub open spec fn with_id(p: PlanView, id: IdView) -> PlanView {
    PlanView { id: Some(id), ..p }
}

/// The revision that a request names: the given version, else the latest.
pub open spec fn resolve_key(latest: Map<Seq<char>, IdView>, name: Seq<char>, ver: Option<Seq<char>>) -> Result<IdView, (DaemonErrorKind, Seq<char>)> {
    if is_blank(name) {
        Err((DaemonErrorKind::InvalidState, "pipeline name is missing"@))
    } else {
        match ver {
            Some(v) if v.len() > 0 => Ok(IdView { name, version: v }),
            _ => if latest.contains_key(meta_key(name)) {
                Ok(latest[meta_key(name)])
            } else {
                Err((DaemonErrorKind::NotFound, "pipeline resource not found"@))
            },
        }
    }
}

pub open spec fn opt_view(v: Option<&str>) -> Option<Seq<char>> {
    match v {
        Some(s) => Some(s@),
        None => None,
    }
}

/// Whether moving from plan `c` to plan `t` only changes the process: same
/// pipeline, execution, sources and egress.
pub open spec fn can_reload(c: PlanView, t: PlanView) -> bool {
    &&& c.id matches Some(ci)
    &&& t.id matches Some(ti)
    &&& ci.name == ti.name
    &&& c.execution == t.execution
    &&& c.sources == t.sources
    &&& c.egress == t.egress
    &&& c.process != t.process
}

/// A hot reload only ever replaces the process: two plans one of which may
/// be hot-reloaded into the other belong to the same pipeline and have the
/// same execution, the same sources and the same egress, and differ in
/// their process.
pub proof fn law_reload_keeps_all_but_the_process(c: PlanView, t: PlanView)
    ensures
        can_reload(c, t) ==> {
            &&& c.id is Some && t.id is Some && c.id->Some_0.name == t.id->Some_0.name
            &&& c.execution == t.execution
            &&& c.sources == t.sources
            &&& c.egress == t.egress
            &&& c.process != t.process
        },
        c.sources != t.sources ==> !can_reload(c, t),
{
}

/// A pipeline is hot-reloaded only onto a worker that already runs the
/// same sources: where applying `plan` answers `HotReload`, the deployment
/// it replaced had the plan's sources, execution and egress, and its worker
/// keeps running the new plan.
pub proof fn law_hot_reload_keeps_sources(
    d0: Seq<DeploymentView>,
    d1: Seq<DeploymentView>,
    ids0: Map<Seq<char>, Seq<Seq<char>>>,
    ids1: Map<Seq<char>, Seq<Seq<char>>>,
    plan: PlanView,
    r: Result<DaemonApplyResult, DaemonError>,
)
    requires
        applied(d0, d1, ids0, ids1, plan, r),
        r matches Ok(x) && x.mode == DaemonApplyMode::HotReload,
    ensures
        active_for(d0, plan.id->Some_0.name) matches Some(i) && d0[i].plan.sources == plan.sources
            && d0[i].plan.execution == plan.execution && d0[i].plan.egress == plan.egress
            && d1.last().worker == d0[i].worker && d1.last().plan == plan,
{
    let i = active_for(d0, plan.id->Some_0.name)->Some_0;
    law_reload_keeps_all_but_the_process(d0[i].plan, plan);
}

/// How many clients a source runs: its count, at least one.
pub open spec fn required_clients(count: u32) -> int {
    if count > 1 {
        count as int
    } else {
        1
    }
}

/// The client ids stored under `k`, none if there are none.
pub open spec fn stored_ids(m: Map<Seq<char>, Seq<Seq<char>>>, k: Seq<char>) -> Seq<Seq<char>> {
    if m.contains_key(k) {
        m[k]
    } else {
        Seq::empty()
    }
}

/// The client ids of source `i` of pipeline `name` given those stored: the
/// first `required` of them, new ones numbered on where there are fewer.
pub open spec fn prepared_ids(cur: Seq<Seq<char>>, name: Seq<char>, i: int, required: int) -> Seq<Seq<char>> {
    if cur.len() < required {
        cur + Seq::new((required - cur.len()) as nat, |t: int| client_id_of(name, i, cur.len() + t))
    } else {
        cur.take(required)
    }
}

/// The stored client ids after preparing the first `n` sources of pipeline
/// `name`: a source whose stored ids are too few or too many is rewritten.
pub open spec fn ids_after(m: Map<Seq<char>, Seq<Seq<char>>>, name: Seq<char>, sources: Seq<SourceView>, n: int) -> Map<Seq<char>, Seq<Seq<char>>>
    decreases n,
{
    if n <= 0 {
        m
    } else {
        let m1 = ids_after(m, name, sources, n - 1);
        let k = ids_key(source_ids_id(name, n - 1));
        let cur = stored_ids(m1, k);
        let req = required_clients(sources[n - 1].client_count);
        if cur.len() == req {
            m1
        } else {
            m1.insert(k, prepared_ids(cur, name, n - 1, req))
        }
    }
}

/// The client ids that source `i` of pipeline `name` starts with, once the
/// sources before it are prepared.
pub open spec fn source_ids_after(m: Map<Seq<char>, Seq<Seq<char>>>, name: Seq<char>, sources: Seq<SourceView>, i: int) -> Seq<Seq<char>> {
    prepared_ids(
        stored_ids(ids_after(m, name, sources, i), ids_key(source_ids_id(name, i))),
        name,
        i,
        required_clients(sources[i].client_count),
    )
}

/// One request that the daemon made of its worker manager, with what came
/// back: a worker is named by its id.
pub ghost enum ManagerCall {
    Start { deployment: WorkerDeployment, result: Result<WorkerHandle, DaemonError> },
    Reload { worker: Seq<char>, plan: PlanView, result: Result<(), DaemonError> },
    Stop { worker: Seq<char>, result: Result<(), DaemonError> },
    Status { worker: Seq<char>, result: Result<WorkerStatus, DaemonError> },
    Stats { worker: Seq<char>, result: Result<WorkerStats, DaemonError> },
}

/// The workers of `d`, in order.
pub open spec fn workers_of(d: Seq<DeploymentView>) -> Seq<Seq<char>> {
    d.map_values(|x: DeploymentView| x.worker)
}

/// `log` is the stops that stopping workers `ws` in order makes: each is
/// asked in turn until one fails; `r` is that failure, or success when none
/// failed.
pub open spec fn stop_log(ws: Seq<Seq<char>>, log: Seq<ManagerCall>, r: Result<(), DaemonError>) -> bool {
    match r {
        Ok(_) => log.len() == ws.len() && forall|i: int| 0 <= i < log.len() ==> #[trigger] stopped_ok(log[i], ws[i]),
        Err(e) => 0 < log.len() <= ws.len()
            && (forall|i: int| 0 <= i < log.len() - 1 ==> #[trigger] stopped_ok(log[i], ws[i]))
            && log.last() == (ManagerCall::Stop { worker: ws[log.len() - 1], result: Err(e) }),
    }
}

/// `c` is a stop of worker `w` that succeeded.
pub open spec fn stopped_ok(c: ManagerCall, w: Seq<char>) -> bool {
    c matches ManagerCall::Stop { worker, result } && worker == w && result is Ok
}

/// `log` is the stats requests that asking for the stats of each deployment
/// of `d` in order makes, until one fails; `r` is that failure, or each
/// deployment's id with the stats its worker reported.
pub open spec fn stats_log(d: Seq<DeploymentView>, log: Seq<ManagerCall>, r: Result<Vec<(ResourceId, WorkerStats)>, DaemonError>) -> bool {
    match r {
        Ok(v) => log.len() == d.len() && stats_for(v@, d)
            && forall|i: int| 0 <= i < log.len() ==> #[trigger] log[i] == (ManagerCall::Stats { worker: d[i].worker, result: Ok(v@[i].1) }),
        Err(e) => 0 < log.len() <= d.len()
            && (forall|i: int| 0 <= i < log.len() - 1 ==> (#[trigger] log[i] matches ManagerCall::Stats { worker, result: Ok(_) }
                && worker == d[i].worker))
            && log.last() == (ManagerCall::Stats { worker: d[log.len() - 1].worker, result: Err(e) }),
    }
}

/// `w` is what a worker for `plan` starts with, the stored client ids being
/// `ids`: the plan, and for each source its index and its prepared ids.
pub open spec fn prepared_deployment(w: WorkerDeployment, ids: Map<Seq<char>, Seq<Seq<char>>>, plan: PlanView) -> bool {
    &&& w.plan@ == plan
    &&& w.source_client_ids@.len() == plan.sources.len()
    &&& forall|i: int| 0 <= i < plan.sources.len() ==> {
        &&& (#[trigger] w.source_client_ids@[i]).source_index == i
        &&& strings_view(w.source_client_ids@[i].client_ids@) == source_ids_after(ids, plan.id->Some_0.name, plan.sources, i)
    }
}

/// Starting a worker for `plan`, the calls so far being `cm`: a plan with
/// too many sources fails before the manager is asked; otherwise the
/// manager is asked to start the prepared deployment, and what it returns
/// decides: its handle runs the new deployment, its error is the answer.
pub open spec fn start_calls(ids: Map<Seq<char>, Seq<Seq<char>>>, plan: PlanView, cm: Seq<ManagerCall>, c1: Seq<ManagerCall>, d1: Seq<DeploymentView>, r: Result<DaemonApplyResult, DaemonError>) -> bool {
    if plan.sources.len() > 4294967296 {
        c1 == cm && r is Err
    } else {
        exists|w: WorkerDeployment, res: Result<WorkerHandle, DaemonError>| prepared_deployment(w, ids, plan)
            && c1 == #[trigger] cm.push(ManagerCall::Start { deployment: w, result: res })
            && match res {
                Ok(h) => r is Ok && d1.len() > 0 && d1.last().worker == h.id@,
                Err(e) => r == Err::<DaemonApplyResult, DaemonError>(e),
            }
    }
}

/// Restarting with `plan` after the running worker `w` of its pipeline: the
/// manager is asked to stop `w`; its error is the answer, else the new
/// worker is started.
pub open spec fn stop_then_start_calls(w: Seq<char>, ids: Map<Seq<char>, Seq<Seq<char>>>, plan: PlanView, c0: Seq<ManagerCall>, c1: Seq<ManagerCall>, d1: Seq<DeploymentView>, r: Result<DaemonApplyResult, DaemonError>) -> bool {
    exists|res: Result<(), DaemonError>| match res {
        Err(e) => #[trigger] c0.push(ManagerCall::Stop { worker: w, result: res }) == c1 && r == Err::<DaemonApplyResult, DaemonError>(e),
        Ok(_) => start_calls(ids, plan, c0.push(ManagerCall::Stop { worker: w, result: res }), c1, d1, r),
    }
}

/// What applying `plan` asks of the worker manager, the running deployments
/// being `d0`: a hot reload hands the running worker and the new plan to
/// `reload`, whose error is the answer; otherwise the running worker, if
/// any, is stopped and a new one started.
pub open spec fn apply_calls(d0: Seq<DeploymentView>, ids: Map<Seq<char>, Seq<Seq<char>>>, plan: PlanView, c0: Seq<ManagerCall>, c1: Seq<ManagerCall>, d1: Seq<DeploymentView>, r: Result<DaemonApplyResult, DaemonError>) -> bool {
    match active_for(d0, plan.id->Some_0.name) {
        Some(i) => if can_reload(d0[i].plan, plan) {
            exists|res: Result<(), DaemonError>| #[trigger] c0.push(ManagerCall::Reload { worker: d0[i].worker, plan, result: res }) == c1
                && match res {
                    Ok(_) => r is Ok,
                    Err(e) => r == Err::<DaemonApplyResult, DaemonError>(e),
                }
        } else {
            stop_then_start_calls(d0[i].worker, ids, plan, c0, c1, d1, r)
        },
        None => start_calls(ids, plan, c0, c1, d1, r),
    }
}

/// The daemon, with its worker manager, its store and its deployments, and
/// the requests it has made of the manager.
pub struct TenonDaemon<M: WorkerManager, P: DaemonStore> {
    worker_manager: M,
    store: P,
    deployments: Vec<ActiveDeployment>,
    calls: Ghost<Seq<ManagerCall>>,
}

impl<M: WorkerManager, P: DaemonStore> TenonDaemon<M, P> {
    /// Stored revisions, by `plan_key`.
    pub closed spec fn plans(&self) -> Map<Seq<char>, PlanView> {
        self.store.plans()
    }

    /// Latest revisions, by `meta_key`.
    pub closed spec fn latest(&self) -> Map<Seq<char>, IdView> {
        self.store.latest()
    }

    /// Stored client ids, by `ids_key`.
    pub closed spec fn client_ids(&self) -> Map<Seq<char>, Seq<Seq<char>>> {
        self.store.client_ids()
    }

    /// The worker manager.
    pub closed spec fn manager(&self) -> M {
        self.worker_manager
    }

    /// The requests made of the worker manager so far, in order, with what
    /// came back.
    pub closed spec fn manager_calls(&self) -> Seq<ManagerCall> {
        self.calls@
    }

    /// The running deployments.
    pub closed spec fn active(&self) -> Seq<DeploymentView> {
        deployments_view(self.deployments@)
    }

    /// The store is consistent and each pipeline runs at most once.
    pub closed spec fn wf(&self) -> bool {
        plans_consistent(self.store.plans()) && names_unique(deployments_view(self.deployments@))
    }

    /// Each pipeline runs at most once: no two deployments of a daemon carry
    /// the same pipeline name, whatever requests it has served.
    pub proof fn law_one_deployment_per_pipeline(&self)
        requires
            self.wf(),
        ensures
            names_unique(self.active()),
    {
    }

    /// A well-formed daemon's store is consistent.
    pub proof fn lemma_wf_consistent(&self)
        requires
            self.wf(),
        ensures
            plans_consistent(self.plans()),
    {
    }

    /// A daemon with no deployments over `store`.
    pub fn with_components(worker_manager: M, store: P) -> (r: Self)
        requires
            plans_consistent(store.plans()),
        ensures
            r.wf(),
            r.plans() == store.plans(),
            r.latest() == store.latest(),
            r.client_ids() == store.client_ids(),
            r.active().len() == 0,
            r.manager_calls().len() == 0,
    {
        let r = TenonDaemon { worker_manager, store, deployments: Vec::new(), calls: Ghost(Seq::empty()) };
        assert(deployments_view(r.deployments@) =~= Seq::<DeploymentView>::empty());
        r
    }

    /// The running deployments.
    pub fn deployments(&self) -> (r: &Vec<ActiveDeployment>)
        ensures
            deployments_view(r@) == self.active(),
    {
        &self.deployments
    }

    /// The worker manager.
    pub fn worker_manager(&self) -> (r: &M)
        ensures
            *r == self.manager(),
    {
        &self.worker_manager
    }

    /// Asks the manager to start `deployment`, and records it.
    fn call_start(&mut self, deployment: WorkerDeployment) -> (r: Result<WorkerHandle, DaemonError>)
        ensures
            final(self).store == old(self).store,
            final(self).deployments == old(self).deployments,
            final(self).calls@ == old(self).calls@.push(ManagerCall::Start { deployment, result: r }),
    {
        let ghost d = deployment;
        let r = self.worker_manager.start(deployment);
        proof {
            self.calls@ = self.calls@.push(ManagerCall::Start { deployment: d, result: r });
        }
        r
    }

    /// Asks the manager to reload `worker` with `plan`, and records it.
    fn call_reload(&mut self, worker: &WorkerHandle, plan: DeploymentPlan) -> (r: Result<(), DaemonError>)
        ensures
            final(self).store == old(self).store,
            final(self).deployments == old(self).deployments,
            final(self).calls@ == old(self).calls@.push(ManagerCall::Reload { worker: worker.id@, plan: plan@, result: r }),
    {
        let ghost p = plan@;
        let r = self.worker_manager.reload(worker, plan);
        proof {
            self.calls@ = self.calls@.push(ManagerCall::Reload { worker: worker.id@, plan: p, result: r });
        }
        r
    }

    /// Asks the manager to stop `worker`, and records it.
    fn call_stop(&mut self, worker: WorkerHandle) -> (r: Result<(), DaemonError>)
        ensures
            final(self).store == old(self).store,
            final(self).deployments == old(self).deployments,
            final(self).calls@ == old(self).calls@.push(ManagerCall::Stop { worker: worker.id@, result: r }),
    {
        let ghost w = worker.id@;
        let r = self.worker_manager.stop(worker);
        proof {
            self.calls@ = self.calls@.push(ManagerCall::Stop { worker: w, result: r });
        }
        r
    }

    /// Asks the manager for the status of `worker`, and records it.
    fn call_status(&mut self, worker: &WorkerHandle) -> (r: Result<WorkerStatus, DaemonError>)
        ensures
            final(self).store == old(self).store,
            final(self).deployments == old(self).deployments,
            final(self).calls@ == old(self).calls@.push(ManagerCall::Status { worker: worker.id@, result: r }),
    {
        let r = self.worker_manager.status(worker);
        proof {
            self.calls@ = self.calls@.push(ManagerCall::Status { worker: worker.id@, result: r });
        }
        r
    }

    /// Asks the manager for the stats of `worker`, and records it.
    fn call_stats(&mut self, worker: &WorkerHandle) -> (r: Result<WorkerStats, DaemonError>)
        ensures
            final(self).store == old(self).store,
            final(self).deployments == old(self).deployments,
            final(self).calls@ == old(self).calls@.push(ManagerCall::Stats { worker: worker.id@, result: r }),
    {
        let r = self.worker_manager.stats(worker);
        proof {
            self.calls@ = self.calls@.push(ManagerCall::Stats { worker: worker.id@, result: r });
        }
        r
    }

    fn next_pipeline_revision(&self, pipeline_name: &str) -> (r: Result<String, DaemonError>)
        requires
            self.wf(),
            revisions_have_room(self.store.latest()),
        ensures
            if is_blank(pipeline_name@) {
                fails_with(r, DaemonErrorKind::InvalidState, "pipeline name is missing"@)
            } else {
                match next_revision_for(self.store.latest(), pipeline_name@) {
                    Ok(v) => r matches Ok(s) && s@ == v,
                    Err(m) => fails_with(r, DaemonErrorKind::InvalidState, m),
                }
            },
    {
        if str_is_blank(pipeline_name) {
            return Err(DaemonError::invalid_state("pipeline name is missing".to_string()));
        }
        let latest = match self.store.load_latest_pipeline_id(pipeline_name) {
            Err(e) => {
                return Err(e);
            },
            Ok(None) => {
                proof {
                    reveal_strlit("r1");
                }
                return Ok("r1".to_string());
            },
            Ok(Some(l)) => l,
        };
        assert(self.store.latest().contains_key(meta_key(pipeline_name@)));
        match parse_revision(latest.version.as_str()) {
            Some(n) => Ok(next_revision(n)),
            None => Err(DaemonError::invalid_state(concat("invalid latest pipeline revision: ", latest.version.as_str()))),
        }
    }

    /// Stores `pipeline` as the next revision of its pipeline.
    pub fn put_pipeline(&mut self, pipeline: DeploymentPlan) -> (r: Result<DaemonPutPipelineResult, DaemonError>)
        requires
            old(self).wf(),
            revisions_have_room(old(self).latest()),
        ensures
            final(self).wf(),
            final(self).active() == old(self).active(),
            final(self).client_ids() == old(self).client_ids(),
            match put_result(old(self).plans(), old(self).latest(), pipeline@) {
                Err(m) => fails_with(r, DaemonErrorKind::InvalidState, m)
                    && final(self).plans() == old(self).plans() && final(self).latest() == old(self).latest(),
                Ok(nid) => r matches Ok(res) && res.id@ == nid
                    && final(self).plans() == old(self).plans().insert(plan_key(nid), with_id(pipeline@, nid))
                    && final(self).latest() == old(self).latest().insert(meta_key(nid.name), nid),
            },
    {
        validate_put_pipeline(&pipeline)?;
        let mut plan = pipeline;
        let (name, next) = match &plan.id {
            None => {
                return Err(DaemonError::invalid_state("pipeline id is missing".to_string()));
            },
            Some(id) => {
                let next = self.next_pipeline_revision(id.name.as_str())?;
                (id.name.clone(), next)
            },
        };
        let id = ResourceId { name, version: next };
        let result_id = id.copy();
        plan.id = Some(id);
        proof {
            reveal_strlit("r1");
            reveal_strlit("r");
            assert(plan@ == with_id(pipeline@, result_id@));
            assert(id_problem(Some(result_id@)) is None) by {
                assert(result_id@.version.len() > 0 && result_id@.version[0] == 'r');
                assert(!crate::text::is_ws(result_id@.version[0]));
            }
        }
        self.store.save_pipeline(plan)?;
        Ok(DaemonPutPipelineResult { id: result_id })
    }

    fn get_pipeline_key(&self, pipeline_name: &str, pipeline_ver: Option<&str>) -> (r: Result<ResourceId, DaemonError>)
        requires
            self.wf(),
        ensures
            match resolve_key(self.store.latest(), pipeline_name@, opt_view(pipeline_ver)) {
                Ok(id) => r matches Ok(k) && k@ == id,
                Err((kind, m)) => fails_with(r, kind, m),
            },
    {
        if str_is_blank(pipeline_name) {
            return Err(DaemonError::invalid_state("pipeline name is missing".to_string()));
        }
        match pipeline_ver {
            Some(v) => {
                if !v.is_empty() {
                    return Ok(ResourceId { name: pipeline_name.to_string(), version: v.to_string() });
                }
            },
            None => {},
        }
        match self.store.load_latest_pipeline_id(pipeline_name)? {
            Some(id) => Ok(id),
            None => Err(DaemonError::not_found("pipeline resource not found".to_string())),
        }
    }

    /// Index of the deployment of the pipeline that `id` belongs to.
    fn active_index_for_pipeline(&self, id: &ResourceId) -> (r: Option<usize>)
        ensures
            match r {
                Some(i) => active_for(self.active(), id@.name) == Some(i as int),
                None => active_for(self.active(), id@.name) is None,
            },
    {
        let ghost d = self.active();
        let mut i: usize = 0;
        while i < self.deployments.len()
            invariant
                d == deployments_view(self.deployments@),
                i <= self.deployments@.len(),
                active_for(d.take(i as int), id@.name) is None,
            decreases self.deployments@.len() - i,
        {
            proof {
                assert(d.take(i + 1).drop_last() =~= d.take(i as int));
            }
            if str_eq(self.deployments[i].id.name.as_str(), id.name.as_str()) {
                proof {
                    lemma_active_for_prefix(d, id@.name, i + 1);
                }
                return Some(i);
            }
            i = i + 1;
        }
        assert(d.take(i as int) =~= d);
        None
    }

    /// Makes `plan` the running deployment of its pipeline.
    fn apply(&mut self, plan: DeploymentPlan) -> (r: Result<DaemonApplyResult, DaemonError>)
        requires
            old(self).wf(),
            plan@.id is Some,
            id_problem(plan@.id) is None,
        ensures
            final(self).wf(),
            final(self).plans() == old(self).plans(),
            final(self).latest() == old(self).latest(),
            applied(old(self).active(), final(self).active(), old(self).client_ids(), final(self).client_ids(), plan@, r),
            apply_calls(old(self).active(), old(self).client_ids(), plan@, old(self).manager_calls(), final(self).manager_calls(), final(self).active(), r),
    {
        let ghost c0 = self.calls@;
        let id = match &plan.id {
            Some(i) => i.copy(),
            None => {
                return Err(DaemonError::invalid_state("deployment plan id is missing".to_string()));
            },
        };
        let ghost d0 = self.active();
        let ghost ids0 = self.client_ids();
        proof {
            lemma_active_for_found(d0, id@.name);
        }
        let ghost mut rest_v = d0;
        match self.active_index_for_pipeline(&id) {
            Some(idx) => {
                let mut deployment = self.deployments.remove(idx);
                let ghost removed = deployment_view(deployment);
                proof {
                    assert(deployments_view(self.deployments@) =~= d0.remove(idx as int));
                    assert(removed == d0[idx as int]);
                    lemma_names_unique_remove(d0, idx as int);
                }
                if can_reload_process_only(&deployment.plan, &plan) {
                    let res = self.call_reload(&deployment.worker, plan.copy());
                    assert(self.calls@ == c0.push(ManagerCall::Reload { worker: d0[idx as int].worker, plan: plan@, result: res }));
                    match res {
                        Ok(()) => {},
                        Err(e) => {
                            return Err(e);
                        },
                    }
                    let key = id.copy();
                    let ghost gplan = plan@;
                    deployment.id = id;
                    deployment.plan = plan;
                    let ghost before = self.deployments@;
                    self.deployments.push(deployment);
                    proof {
                        let x = deployment_view(self.deployments@.last());
                        assert(deployments_view(self.deployments@) =~= deployments_view(before).push(x));
                        assert(x == DeploymentView { id: key@, plan: gplan, worker: removed.worker });
                        lemma_names_unique_push(d0, idx as int, x);
                        assert(deployments_view(self.deployments@).drop_last() =~= d0.remove(idx as int));
                    }
                    return Ok(DaemonApplyResult { id: key, mode: DaemonApplyMode::HotReload });
                }
                proof {
                    rest_v = d0.remove(idx as int);
                    assert(!can_reload(d0[idx as int].plan, plan@));
                }
                let res = self.call_stop(deployment.worker);
                assert(self.calls@ == c0.push(ManagerCall::Stop { worker: d0[idx as int].worker, result: res }));
                match res {
                    Ok(()) => {},
                    Err(e) => {
                        return Err(e);
                    },
                }
            },
            None => {},
        }
        let ghost cm = self.calls@;
        let ghost mid = self.deployments@;
        let ghost gplan = plan@;
        assert(deployments_view(mid) == rest_v);
        assert(rest_v == without_pipeline(d0, id@.name));
        assert(self.client_ids() == ids0);
        let worker_deployment = self.worker_deployment(&plan)?;
        let ghost wd = worker_deployment;
        assert(prepared_deployment(wd, ids0, plan@));
        let res = self.call_start(worker_deployment);
        assert(self.calls@ == cm.push(ManagerCall::Start { deployment: wd, result: res }));
        let worker = match res {
            Ok(h) => h,
            Err(e) => {
                return Err(e);
            },
        };
        let key = id.copy();
        self.deployments.push(ActiveDeployment { id, plan, worker });
        proof {
            assert(deployments_view(self.deployments@).drop_last() =~= deployments_view(mid));
            assert(deployments_view(self.deployments@).last().plan == gplan);
            assert(deployments_view(self.deployments@) =~= deployments_view(mid).push(deployment_view(self.deployments@.last())));
            match active_for(d0, key@.name) {
                Some(i) => lemma_names_unique_push(d0, i, deployment_view(self.deployments@.last())),
                None => lemma_names_unique_push_new(d0, deployment_view(self.deployments@.last())),
            }
        }
        Ok(DaemonApplyResult { id: key, mode: DaemonApplyMode::Started })
    }

    /// What a worker for `plan` starts with: the client ids of each source,
    /// prepared and stored.
    fn worker_deployment(&mut self, plan: &DeploymentPlan) -> (r: Result<WorkerDeployment, DaemonError>)
        requires
            old(self).wf(),
            plan@.id is Some,
            id_problem(plan@.id) is None,
        ensures
            final(self).wf(),
            final(self).plans() == old(self).plans(),
            final(self).latest() == old(self).latest(),
            final(self).active() == old(self).active(),
            final(self).manager_calls() == old(self).manager_calls(),
            r is Ok <==> plan@.sources.len() <= 4294967296,
            r is Ok ==> final(self).client_ids() == ids_after(old(self).client_ids(), plan@.id->Some_0.name, plan@.sources, plan@.sources.len() as int),
            r is Err ==> final(self).client_ids() == ids_after(old(self).client_ids(), plan@.id->Some_0.name, plan@.sources, 4294967297),
            r matches Ok(w) ==> {
                &&& w.plan@ == plan@
                &&& w.source_client_ids@.len() == plan@.sources.len()
                &&& forall|i: int| 0 <= i < plan@.sources.len() ==> {
                    &&& (#[trigger] w.source_client_ids@[i]).source_index == i
                    &&& strings_view(w.source_client_ids@[i].client_ids@) == source_ids_after(old(self).client_ids(), plan@.id->Some_0.name, plan@.sources, i)
                }
            },
    {
        let pipeline_id = match &plan.id {
            Some(i) => i,
            None => {
                return Err(DaemonError::invalid_state("deployment plan id is missing".to_string()));
            },
        };
        let ghost name = pipeline_id@.name;
        let ghost ids0 = self.client_ids();
        let mut source_client_ids: Vec<MqttSourceClientIds> = Vec::new();
        let mut source_index: usize = 0;
        while source_index < plan.sources.len()
            invariant
                self.wf(),
                self.plans() == old(self).plans(),
                self.latest() == old(self).latest(),
                self.active() == old(self).active(),
                self.calls@ == old(self).calls@,
                ids0 == old(self).client_ids(),
                plan@.id == Some(pipeline_id@),
                id_problem(Some(pipeline_id@)) is None,
                name == pipeline_id@.name,
                source_index <= plan.sources@.len(),
                source_index <= 4294967296,
                self.client_ids() == ids_after(ids0, name, plan@.sources, source_index as int),
                source_client_ids@.len() == source_index,
                forall|i: int| 0 <= i < source_index ==> {
                    &&& (#[trigger] source_client_ids@[i]).source_index == i
                    &&& strings_view(source_client_ids@[i].client_ids@) == source_ids_after(ids0, name, plan@.sources, i)
                },
            decreases plan.sources@.len() - source_index,
        {
            let source = &plan.sources[source_index];
            let source_id = mqtt_source_client_ids_key(pipeline_id, source_index)?;
            let mut client_ids = self.store.load_mqtt_client_ids(&source_id)?;
            let ghost cur = strings_view(client_ids@);
            let required: usize = if source.client_count > 1 { source.client_count as usize } else { 1 };
            assert(plan@.sources[source_index as int].client_count == source.client_count);
            assert(required == required_clients(plan@.sources[source_index as int].client_count));
            if client_ids.len() < required {
                let start = client_ids.len();
                let mut index = start;
                while index < required
                    invariant
                        start <= index <= required,
                        start == cur.len(),
                        strings_view(client_ids@) == cur + Seq::new((index - start) as nat, |t: int| client_id_of(name, source_index as int, start + t)),
                        name == pipeline_id@.name,
                    decreases required - index,
                {
                    let ghost before = client_ids@;
                    let fresh = mqtt_client_id(pipeline_id, source_index, index);
                    let ghost fv = fresh@;
                    client_ids.push(fresh);
                    proof {
                        assert(strings_view(client_ids@) =~= strings_view(before).push(fv));
                        assert(strings_view(client_ids@) =~= cur + Seq::new((index + 1 - start) as nat, |t: int| client_id_of(name, source_index as int, start + t)));
                    }
                    index = index + 1;
                }
                self.store.save_mqtt_client_ids(&source_id, copy_strings(&client_ids));
            } else if client_ids.len() > required {
                client_ids.truncate(required);
                proof {
                    assert(strings_view(client_ids@) =~= cur.take(required as int));
                }
                self.store.save_mqtt_client_ids(&source_id, copy_strings(&client_ids));
            }
            assert(strings_view(client_ids@) == source_ids_after(ids0, name, plan@.sources, source_index as int)) by {
                if cur.len() == required {
                    assert(cur.take(required as int) =~= cur);
                }
            }
            assert(self.client_ids() == ids_after(ids0, name, plan@.sources, source_index + 1));
            if source_index > 4294967295 {
                return Err(DaemonError::invalid_state("MQTT source index is too large".to_string()));
            }
            let ghost before = source_client_ids@;
            source_client_ids.push(MqttSourceClientIds { source_index: source_index as u32, client_ids });
            assert(forall|i: int| 0 <= i < source_index ==> source_client_ids@[i] == before[i]);
            source_index = source_index + 1;
        }
        Ok(WorkerDeployment { plan: plan.copy(), source_client_ids })
    }

    /// Runs the stored revision that the request names: the given version of
    /// pipeline `pipeline_name`, else its latest.
    pub fn apply_pipeline(&mut self, pipeline_name: &str, pipeline_ver: Option<&str>) -> (r: Result<DaemonApplyResult, DaemonError>)
        requires
            old(self).wf(),
        ensures
            final(self).wf(),
            final(self).plans() == old(self).plans(),
            final(self).latest() == old(self).latest(),
            match resolve_key(old(self).latest(), pipeline_name@, opt_view(pipeline_ver)) {
                Err((kind, m)) => fails_with(r, kind, m) && final(self).active() == old(self).active()
                    && final(self).client_ids() == old(self).client_ids()
                    && final(self).manager_calls() == old(self).manager_calls(),
                Ok(id) => match id_problem(Some(id)) {
                    Some(m) => fails_with(r, DaemonErrorKind::InvalidState, m) && final(self).active() == old(self).active()
                        && final(self).client_ids() == old(self).client_ids()
                        && final(self).manager_calls() == old(self).manager_calls(),
                    None => if !old(self).plans().contains_key(plan_key(id)) {
                        fails_with(r, DaemonErrorKind::NotFound, "pipeline resource not found"@)
                            && final(self).active() == old(self).active()
                            && final(self).client_ids() == old(self).client_ids()
                            && final(self).manager_calls() == old(self).manager_calls()
                    } else {
                        applied(old(self).active(), final(self).active(), old(self).client_ids(), final(self).client_ids(),
                            old(self).plans()[plan_key(id)], r)
                        && apply_calls(old(self).active(), old(self).client_ids(), old(self).plans()[plan_key(id)],
                            old(self).manager_calls(), final(self).manager_calls(), final(self).active(), r)
                    },
                },
            },
    {
        let id = self.get_pipeline_key(pipeline_name, pipeline_ver)?;
        let plan = match self.store.load_pipeline(&id)? {
            Some(p) => p,
            None => {
                return Err(DaemonError::not_found("pipeline resource not found".to_string()));
            },
        };
        proof {
            assert(self.store.plans().contains_key(plan_key(id@)));
        }
        self.apply(plan)
    }

    /// The stored revision that the request names, if it is stored.
    pub fn get_pipeline(&self, pipeline_name: &str, pipeline_ver: Option<&str>) -> (r: Result<Option<StoredPipeline>, DaemonError>)
        requires
            self.wf(),
        ensures
            match resolve_key(self.latest(), pipeline_name@, opt_view(pipeline_ver)) {
                Err((kind, m)) => fails_with(r, kind, m),
                Ok(id) => rejects_id(r, id_problem(Some(id))) && (r matches Ok(o) ==> match o {
                    Some(s) => s.id@ == id && self.plans().contains_key(plan_key(id)) && self.plans()[plan_key(id)] == s.plan@,
                    None => !self.plans().contains_key(plan_key(id)),
                }),
            },
    {
        let id = self.get_pipeline_key(pipeline_name, pipeline_ver)?;
        match self.store.load_pipeline(&id)? {
            Some(plan) => Ok(Some(StoredPipeline { id, plan })),
            None => Ok(None),
        }
    }

    /// The ids of all stored revisions, in revision order.
    pub fn list_pipelines(&self) -> (r: Result<Vec<ResourceId>, DaemonError>)
        requires
            self.wf(),
        ensures
            r matches Ok(v) && lists_plan_ids(v@, self.plans()),
    {
        self.store.list_pipeline_ids()
    }

    /// Deletes the stored revision that the request names; its id if there
    /// was one.
    pub fn delete_pipeline(&mut self, pipeline_name: &str, pipeline_ver: Option<&str>) -> (r: Result<Option<ResourceId>, DaemonError>)
        requires
            old(self).wf(),
        ensures
            final(self).wf(),
            final(self).active() == old(self).active(),
            match resolve_key(old(self).latest(), pipeline_name@, opt_view(pipeline_ver)) {
                Err((kind, m)) => fails_with(r, kind, m) && final(self).plans() == old(self).plans(),
                Ok(id) => rejects_id(r, id_problem(Some(id))) && (r matches Ok(o) ==> match o {
                    Some(k) => k@ == id && old(self).plans().contains_key(plan_key(id))
                        && final(self).plans() == old(self).plans().remove(plan_key(id)),
                    None => !old(self).plans().contains_key(plan_key(id)) && final(self).plans() == old(self).plans(),
                }),
            },
    {
        let id = self.get_pipeline_key(pipeline_name, pipeline_ver)?;
        if self.store.delete_pipeline(&id)? {
            Ok(Some(id))
        } else {
            Ok(None)
        }
    }

    /// Stops the deployment of the revision that the request names.
    pub fn stop_pipeline(&mut self, pipeline_name: &str, pipeline_ver: Option<&str>) -> (r: Result<WorkerStatus, DaemonError>)
        requires
            old(self).wf(),
        ensures
            final(self).wf(),
            final(self).plans() == old(self).plans(),
            final(self).latest() == old(self).latest(),
            final(self).client_ids() == old(self).client_ids(),
            r matches Ok(s) ==> s == WorkerStatus::Stopped,
            match resolve_key(old(self).latest(), pipeline_name@, opt_view(pipeline_ver)) {
                Err((kind, m)) => fails_with(r, kind, m) && final(self).active() == old(self).active()
                    && final(self).manager_calls() == old(self).manager_calls(),
                Ok(id) => match deployment_index(old(self).active(), id) {
                    None => fails_with(r, DaemonErrorKind::NotFound, "deployment worker not found"@)
                        && final(self).active() == old(self).active()
                        && final(self).manager_calls() == old(self).manager_calls(),
                    Some(i) => final(self).active() == old(self).active().remove(i)
                        && exists|res: Result<(), DaemonError>| #[trigger] old(self).manager_calls().push(
                            ManagerCall::Stop { worker: old(self).active()[i].worker, result: res }) == final(self).manager_calls()
                            && match res {
                                Ok(_) => r == Ok::<WorkerStatus, DaemonError>(WorkerStatus::Stopped),
                                Err(e) => r == Err::<WorkerStatus, DaemonError>(e),
                            },
                },
            },
    {
        let id = self.get_pipeline_key(pipeline_name, pipeline_ver)?;
        proof {
            lemma_deployment_index_found(self.active(), id@);
        }
        let idx = match self.deployment_position(&id) {
            Some(i) => i,
            None => {
                return Err(DaemonError::not_found("deployment worker not found".to_string()));
            },
        };
        let ghost d0 = self.active();
        let deployment = self.deployments.remove(idx);
        proof {
            assert(deployments_view(self.deployments@) =~= d0.remove(idx as int));
            lemma_names_unique_remove(d0, idx as int);
        }
        assert(d0[idx as int].worker == deployment.worker.id@);
        let ghost c0 = self.calls@;
        let res = self.call_stop(deployment.worker);
        assert(c0.push(ManagerCall::Stop { worker: d0[idx as int].worker, result: res }) == self.calls@);
        assert(old(self).manager_calls().push(ManagerCall::Stop { worker: old(self).active()[idx as int].worker, result: res })
            == self.manager_calls());
        match res {
            Ok(()) => Ok(WorkerStatus::Stopped),
            Err(e) => Err(e),
        }
    }

    /// Position of the deployment of revision `id`.
    fn deployment_position(&self, id: &ResourceId) -> (r: Option<usize>)
        ensures
            match r {
                Some(i) => deployment_index(self.active(), id@) == Some(i as int),
                None => deployment_index(self.active(), id@) is None,
            },
    {
        let ghost d = self.active();
        let mut i: usize = 0;
        while i < self.deployments.len()
            invariant
                d == deployments_view(self.deployments@),
                i <= self.deployments@.len(),
                deployment_index(d.take(i as int), id@) is None,
            decreases self.deployments@.len() - i,
        {
            proof {
                assert(d.take(i + 1).drop_last() =~= d.take(i as int));
            }
            let dep = &self.deployments[i];
            if str_eq(dep.id.name.as_str(), id.name.as_str()) && str_eq(dep.id.version.as_str(), id.version.as_str()) {
                proof {
                    lemma_deployment_index_prefix(d, id@, i + 1);
                }
                return Some(i);
            }
            i = i + 1;
        }
        assert(d.take(i as int) =~= d);
        None
    }

    /// Stops every deployment, in order; the first failure is returned.
    /// No deployment remains either way. With nothing running, the worker
    /// manager is not asked and the daemon stops at once.
    pub fn stop(&mut self) -> (r: Result<(), DaemonError>)
        requires
            old(self).wf(),
        ensures
            final(self).wf(),
            final(self).active().len() == 0,
            final(self).plans() == old(self).plans(),
            final(self).latest() == old(self).latest(),
            final(self).client_ids() == old(self).client_ids(),
            old(self).active().len() == 0 ==> r is Ok && final(self).manager() == old(self).manager(),
            exists|log: Seq<ManagerCall>| final(self).manager_calls() == old(self).manager_calls() + log
                && #[trigger] stop_log(workers_of(old(self).active()), log, r),
    {
        let ghost c0 = self.calls@;
        let ghost ws = workers_of(self.active());
        let mut deployments: Vec<ActiveDeployment> = Vec::new();
        std::mem::swap(&mut deployments, &mut self.deployments);
        proof {
            assert(deployments_view(self.deployments@) =~= Seq::<DeploymentView>::empty());
        }
        let ghost all = deployments@;
        let ghost n0 = deployments@.len();
        assert(n0 == old(self).active().len());
        let ghost mut k: int = 0;
        let ghost mut log: Seq<ManagerCall> = Seq::empty();
        assert(self.calls@ =~= c0 + log);
        assert(deployments@ =~= all.skip(0));
        assert(ws == workers_of(deployments_view(all)));
        while deployments.len() > 0
            invariant
                ws == workers_of(old(self).active()),
                c0 == old(self).manager_calls(),
                n0 == old(self).active().len(),
                n0 == all.len(),
                n0 == 0 ==> deployments@.len() == 0 && self.manager() == old(self).manager(),
                self.wf(),
                self.deployments@.len() == 0,
                self.plans() == old(self).plans(),
                self.latest() == old(self).latest(),
                self.client_ids() == old(self).client_ids(),
                ws == workers_of(deployments_view(all)),
                0 <= k <= all.len(),
                deployments@ == all.skip(k),
                self.calls@ == c0 + log,
                log.len() == k,
                forall|t: int| 0 <= t < k ==> #[trigger] stopped_ok(log[t], ws[t]),
            decreases deployments@.len(),
        {
            let deployment = deployments.remove(0);
            assert(deployment == all[k]);
            assert(ws[k] == deployment.worker.id@);
            let res = self.call_stop(deployment.worker);
            let ghost log2 = log.push(ManagerCall::Stop { worker: ws[k], result: res });
            assert(self.calls@ =~= c0 + log2);
            match res {
                Ok(()) => {},
                Err(e) => {
                    proof {
                        assert(stop_log(ws, log2, Err(e)));
                    }
                    return Err(e);
                },
            }
            proof {
                assert forall|t: int| 0 <= t < k + 1 implies #[trigger] stopped_ok(log2[t], ws[t]) by {
                    if t < k {
                        assert(log2[t] == log[t]);
                    }
                }
                log = log2;
                k = k + 1;
                assert(deployments@ =~= all.skip(k));
            }
        }
        proof {
            assert(k == all.len());
            assert(stop_log(ws, log, Ok::<(), DaemonError>(())));
        }
        Ok(())
    }

    /// The status of the worker of deployment `id`.
    pub fn worker_status(&mut self, id: &ResourceId) -> (r: Result<WorkerStatus, DaemonError>)
        requires
            old(self).wf(),
        ensures
            final(self).wf(),
            final(self).active() == old(self).active(),
            final(self).plans() == old(self).plans(),
            final(self).latest() == old(self).latest(),
            final(self).client_ids() == old(self).client_ids(),
            match deployment_index(old(self).active(), id@) {
                None => fails_with(r, DaemonErrorKind::NotFound, "deployment worker not found"@)
                    && final(self).manager() == old(self).manager()
                    && final(self).manager_calls() == old(self).manager_calls(),
                Some(i) => final(self).manager_calls() == old(self).manager_calls().push(
                    ManagerCall::Status { worker: old(self).active()[i].worker, result: r }),
            },
    {
        proof {
            lemma_deployment_index_found(self.active(), id@);
        }
        match self.deployment_position(id) {
            Some(i) => {
                let worker = self.deployments[i].worker.copy();
                assert(self.active()[i as int] == deployment_view(self.deployments@[i as int]));
                self.call_status(&worker)
            },
            None => Err(DaemonError::not_found("deployment worker not found".to_string())),
        }
    }

    /// The stats of the worker of deployment `id`.
    pub fn worker_stats(&mut self, id: &ResourceId) -> (r: Result<WorkerStats, DaemonError>)
        requires
            old(self).wf(),
        ensures
            final(self).wf(),
            final(self).active() == old(self).active(),
            final(self).plans() == old(self).plans(),
            final(self).latest() == old(self).latest(),
            final(self).client_ids() == old(self).client_ids(),
            match deployment_index(old(self).active(), id@) {
                None => fails_with(r, DaemonErrorKind::NotFound, "deployment worker not found"@)
                    && final(self).manager() == old(self).manager()
                    && final(self).manager_calls() == old(self).manager_calls(),
                Some(i) => final(self).manager_calls() == old(self).manager_calls().push(
                    ManagerCall::Stats { worker: old(self).active()[i].worker, result: r }),
            },
    {
        proof {
            lemma_deployment_index_found(self.active(), id@);
        }
        match self.deployment_position(id) {
            Some(i) => {
                let worker = self.deployments[i].worker.copy();
                assert(self.active()[i as int] == deployment_view(self.deployments@[i as int]));
                self.call_stats(&worker)
            },
            None => Err(DaemonError::not_found("deployment worker not found".to_string())),
        }
    }

    /// The stats of every deployment's worker, in deployment order; the
    /// first failure is returned. The worker manager answers for each
    /// worker; with no deployment it is not asked, and the answer is empty.
    pub fn all_worker_stats(&mut self) -> (r: Result<Vec<(ResourceId, WorkerStats)>, DaemonError>)
        requires
            old(self).wf(),
        ensures
            final(self).wf(),
            final(self).active() == old(self).active(),
            final(self).plans() == old(self).plans(),
            final(self).latest() == old(self).latest(),
            final(self).client_ids() == old(self).client_ids(),
            r matches Ok(v) ==> stats_for(v@, old(self).active()),
            old(self).active().len() == 0 ==> (r matches Ok(v) && v@.len() == 0) && final(self).manager() == old(self).manager(),
            exists|log: Seq<ManagerCall>| final(self).manager_calls() == old(self).manager_calls() + log
                && #[trigger] stats_log(old(self).active(), log, r),
    {
        let mut workers: Vec<(ResourceId, WorkerHandle)> = Vec::new();
        let mut i: usize = 0;
        while i < self.deployments.len()
            invariant
                i <= self.deployments@.len(),
                workers@.len() == i,
                forall|j: int| 0 <= j < i ==> #[trigger] workers@[j].0@ == self.deployments@[j].id@
                    && workers@[j].1.id@ == self.deployments@[j].worker.id@,
            decreases self.deployments@.len() - i,
        {
            let id = self.deployments[i].id.copy();
            let worker = self.deployments[i].worker.copy();
            let ghost before = workers@;
            workers.push((id, worker));
            assert(workers@[i as int].0@ == self.deployments@[i as int].id@);
            assert forall|j: int| 0 <= j < i + 1 implies #[trigger] workers@[j].0@ == self.deployments@[j].id@
                && workers@[j].1.id@ == self.deployments@[j].worker.id@ by {
                if j < i {
                    assert(workers@[j] == before[j]);
                }
            }
            i = i + 1;
        }
        let ghost d = self.active();
        assert forall|t: int| 0 <= t < workers@.len() implies #[trigger] workers@[t].0@ == d[t].id
            && workers@[t].1.id@ == d[t].worker by {
            assert(d[t] == deployment_view(self.deployments@[t]));
        }
        assert forall|t: int| 0 <= t < workers@.len() implies #[trigger] workers@[t].1.id@ == d[t].worker by {
            assert(workers@[t].0@ == d[t].id);
        }
        let ghost c0 = self.calls@;
        let ghost mut log: Seq<ManagerCall> = Seq::empty();
        assert(self.calls@ =~= c0 + log);
        let mut out: Vec<(ResourceId, WorkerStats)> = Vec::new();
        let mut j: usize = 0;
        while j < workers.len()
            invariant
                c0 == old(self).manager_calls(),
                self.calls@ == c0 + log,
                log.len() == j,
                forall|t: int| 0 <= t < j ==> #[trigger] log[t] == (ManagerCall::Stats { worker: d[t].worker, result: Ok(out@[t].1) }),
                forall|t: int| 0 <= t < workers@.len() ==> #[trigger] workers@[t].1.id@ == d[t].worker,
                self.wf(),
                d == old(self).active(),
                self.active() == old(self).active(),
                self.plans() == old(self).plans(),
                self.latest() == old(self).latest(),
                self.client_ids() == old(self).client_ids(),
                workers@.len() == d.len(),
                d.len() == 0 ==> self.manager() == old(self).manager(),
                forall|t: int| 0 <= t < workers@.len() ==> #[trigger] workers@[t].0@ == d[t].id,
                j <= workers@.len(),
                out@.len() == j,
                forall|t: int| 0 <= t < j ==> #[trigger] out@[t].0@ == d[t].id,
            decreases workers@.len() - j,
        {
            assert(workers@[j as int].1.id@ == d[j as int].worker);
            let res = self.call_stats(&workers[j].1);
            let ghost log2 = log.push(ManagerCall::Stats { worker: d[j as int].worker, result: res });
            assert(self.calls@ =~= c0 + log2);
            let stats = match res {
                Ok(st) => st,
                Err(e) => {
                    let r: Result<Vec<(ResourceId, WorkerStats)>, DaemonError> = Err(e);
                    proof {
                        assert forall|t: int| 0 <= t < log2.len() - 1 implies (#[trigger] log2[t] matches ManagerCall::Stats { worker, result: Ok(_) }
                            && worker == d[t].worker) by {
                            assert(log2[t] == log[t]);
                        }
                        assert(stats_log(d, log2, r));
                    }
                    return r;
                },
            };
            let id = workers[j].0.copy();
            let ghost before = out@;
            out.push((id, stats));
            assert(out@[j as int].0@ == d[j as int].id);
            assert forall|t: int| 0 <= t < j + 1 implies #[trigger] out@[t].0@ == d[t].id by {
                if t < j {
                    assert(out@[t] == before[t]);
                }
            }
            proof {
                assert forall|t: int| 0 <= t < j + 1 implies #[trigger] log2[t] == (ManagerCall::Stats { worker: d[t].worker, result: Ok(out@[t].1) }) by {
                    if t < j {
                        assert(log2[t] == log[t]);
                        assert(out@[t] == before[t]);
                    }
                }
                log = log2;
            }
            j = j + 1;
        }
        assert(j == workers@.len());
        assert(out@.len() == old(self).active().len());
        assert(forall|t: int| 0 <= t < out@.len() ==> #[trigger] out@[t].0@ == old(self).active()[t].id);
        assert(stats_for(out@, old(self).active()));
        let r: Result<Vec<(ResourceId, WorkerStats)>, DaemonError> = Ok(out);
        assert(stats_log(d, log, r));
        r
    }
}

/// Whether `v` has one entry per deployment of `d`, in order, each with the
/// deployment's id.
pub open spec fn stats_for(v: Seq<(ResourceId, WorkerStats)>, d: Seq<DeploymentView>) -> bool {
    &&& v.len() == d.len()
    &&& forall|i: int| 0 <= i < v.len() ==> #[trigger] v[i].0@ == d[i].id
}

/// Index of the deployment of revision `id`.
pub open spec fn deployment_index(d: Seq<DeploymentView>, id: IdView) -> Option<int>
    decreases d.len(),
{
    if d.len() == 0 {
        None
    } else {
        match deployment_index(d.drop_last(), id) {
            Some(i) => Some(i),
            None => if d.last().id == id {
                Some(d.len() - 1)
            } else {
                None
            },
        }
    }
}

/// What applying `plan` did, `d0` the deployments before and `d1` after, and
/// `ids0`, `ids1` the stored client ids: the deployment of the plan's
/// pipeline is replaced, by a reload of its worker when only the process
/// changed, else by a worker started with prepared client ids. A failure
/// leaves the other deployments.
pub open spec fn applied(
    d0: Seq<DeploymentView>,
    d1: Seq<DeploymentView>,
    ids0: Map<Seq<char>, Seq<Seq<char>>>,
    ids1: Map<Seq<char>, Seq<Seq<char>>>,
    plan: PlanView,
    r: Result<DaemonApplyResult, DaemonError>,
) -> bool {
    let id = plan.id->Some_0;
    let prev = active_for(d0, id.name);
    let rest = without_pipeline(d0, id.name);
    match r {
        Ok(res) => res.id@ == id && d1.len() == rest.len() + 1 && d1.drop_last() == rest
            && d1.last().id == id && d1.last().plan == plan
            && match res.mode {
                DaemonApplyMode::HotReload => prev matches Some(i) && can_reload(d0[i].plan, plan)
                    && d1.last().worker == d0[i].worker && ids1 == ids0,
                DaemonApplyMode::Started => !(prev matches Some(i) && can_reload(d0[i].plan, plan))
                    && ids1 == ids_after(ids0, id.name, plan.sources, plan.sources.len() as int),
            },
        Err(_) => d1 == rest,
    }
}

/// Whether moving from `current` to `target` only changes the process.
pub fn can_reload_process_only(current: &DeploymentPlan, target: &DeploymentPlan) -> (r: bool)
    ensures
        r == can_reload(current@, target@),
        r ==> current@.sources == target@.sources && current@.execution == target@.execution
            && current@.egress == target@.egress && current@.process != target@.process,
{
    proof {
        law_reload_keeps_all_but_the_process(current@, target@);
    }
    let current_id = match &current.id {
        Some(i) => i,
        None => {
            return false;
        },
    };
    let target_id = match &target.id {
        Some(i) => i,
        None => {
            return false;
        },
    };
    let same_process = match (&current.process, &target.process) {
        (Some(a), Some(b)) => a.same_as(b),
        (None, None) => true,
        _ => false,
    };
    str_eq(current_id.name.as_str(), target_id.name.as_str()) && current.execution == target.execution
        && eq_sources(&current.sources, &target.sources) && current.egress == target.egress && !same_process
}

/// Fails unless the plan has a process with an access plan.
pub fn validate_put_pipeline(plan: &DeploymentPlan) -> (r: Result<(), DaemonError>)
    ensures
        match plan@.process {
            None => fails_with(r, DaemonErrorKind::InvalidState, "process plan is missing"@),
            Some(p) => if p.access_plan is None {
                fails_with(r, DaemonErrorKind::InvalidState, "process access_plan is missing"@)
            } else {
                r is Ok
            },
        },
{
    let process = match &plan.process {
        Some(p) => p,
        None => {
            return Err(DaemonError::invalid_state("process plan is missing".to_string()));
        },
    };
    if process.access_plan.is_none() {
        return Err(DaemonError::invalid_state("process access_plan is missing".to_string()));
    }
    Ok(())
}

proof fn lemma_active_for_prefix(d: Seq<DeploymentView>, name: Seq<char>, n: int)
    requires
        0 < n <= d.len(),
        active_for(d.take(n - 1), name) is None,
        d[n - 1].id.name == name,
    ensures
        active_for(d, name) == Some(n - 1),
    decreases d.len() - n,
{
    assert(d.take(n).drop_last() =~= d.take(n - 1));
    assert(active_for(d.take(n), name) == Some(n - 1));
    lemma_active_for_extend(d, name, n);
}

proof fn lemma_active_for_extend(d: Seq<DeploymentView>, name: Seq<char>, n: int)
    requires
        0 <= n <= d.len(),
        active_for(d.take(n), name) is Some,
    ensures
        active_for(d, name) == active_for(d.take(n), name),
    decreases d.len() - n,
{
    if n < d.len() {
        assert(d.take(n + 1).drop_last() =~= d.take(n));
        lemma_active_for_extend(d, name, n + 1);
    } else {
        assert(d.take(n) =~= d);
    }
}

proof fn lemma_deployment_index_prefix(d: Seq<DeploymentView>, id: IdView, n: int)
    requires
        0 < n <= d.len(),
        deployment_index(d.take(n - 1), id) is None,
        d[n - 1].id == id,
    ensures
        deployment_index(d, id) == Some(n - 1),
    decreases d.len() - n,
{
    assert(d.take(n).drop_last() =~= d.take(n - 1));
    assert(deployment_index(d.take(n), id) == Some(n - 1));
    lemma_deployment_index_extend(d, id, n);
}

proof fn lemma_deployment_index_extend(d: Seq<DeploymentView>, id: IdView, n: int)
    requires
        0 <= n <= d.len(),
        deployment_index(d.take(n), id) is Some,
    ensures
        deployment_index(d, id) == deployment_index(d.take(n), id),
    decreases d.len() - n,
{
    if n < d.len() {
        assert(d.take(n + 1).drop_last() =~= d.take(n));
        lemma_deployment_index_extend(d, id, n + 1);
    } else {
        assert(d.take(n) =~= d);
    }
}

/// The index that `active_for` finds holds a deployment of that pipeline.
proof fn lemma_active_for_found(d: Seq<DeploymentView>, name: Seq<char>)
    ensures
        active_for(d, name) matches Some(i) ==> 0 <= i < d.len() && d[i].id.name == name,
        active_for(d, name) is None ==> forall|j: int| 0 <= j < d.len() ==> #[trigger] d[j].id.name != name,
    decreases d.len(),
{
    if d.len() > 0 {
        lemma_active_for_found(d.drop_last(), name);
        assert forall|j: int| 0 <= j < d.len() - 1 implies d.drop_last()[j] == #[trigger] d[j] by {}
    }
}

/// The index that `deployment_index` finds holds that revision.
proof fn lemma_deployment_index_found(d: Seq<DeploymentView>, id: IdView)
    ensures
        deployment_index(d, id) matches Some(i) ==> 0 <= i < d.len() && d[i].id == id,
    decreases d.len(),
{
    if d.len() > 0 {
        lemma_deployment_index_found(d.drop_last(), id);
    }
}

proof fn lemma_names_unique_remove(d: Seq<DeploymentView>, i: int)
    requires
        0 <= i < d.len(),
        names_unique(d),
    ensures
        names_unique(d.remove(i)),
{
    let e = d.remove(i);
    assert forall|a: int, b: int| 0 <= a < b < e.len() implies e[a].id.name != e[b].id.name by {
        let a0 = if a < i { a } else { a + 1 };
        let b0 = if b < i { b } else { b + 1 };
        assert(e[a] == d[a0] && e[b] == d[b0]);
    }
}

/// Replacing the deployment of a pipeline keeps pipelines unique.
proof fn lemma_names_unique_push(d: Seq<DeploymentView>, i: int, x: DeploymentView)
    requires
        names_unique(d),
        0 <= i < d.len(),
        d[i].id.name == x.id.name,
    ensures
        names_unique(d.remove(i).push(x)),
{
    lemma_names_unique_remove(d, i);
    let e = d.remove(i);
    let f = e.push(x);
    assert forall|a: int, b: int| 0 <= a < b < f.len() implies f[a].id.name != f[b].id.name by {
        if b == f.len() - 1 {
            let a0 = if a < i { a } else { a + 1 };
            assert(f[a] == d[a0]);
            assert(a0 != i);
        } else {
            assert(f[a] == e[a] && f[b] == e[b]);
        }
    }
}

/// Adding the deployment of a pipeline that runs nowhere keeps pipelines
/// unique.
proof fn lemma_names_unique_push_new(d: Seq<DeploymentView>, x: DeploymentView)
    requires
        names_unique(d),
        active_for(d, x.id.name) is None,
    ensures
        names_unique(d.push(x)),
{
    lemma_active_for_found(d, x.id.name);
    let f = d.push(x);
    assert forall|a: int, b: int| 0 <= a < b < f.len() implies f[a].id.name != f[b].id.name by {
        if b == f.len() - 1 {
            assert(f[a] == d[a]);
        } else {
            assert(f[a] == d[a] && f[b] == d[b]);
        }
    }
}

} // verus!
