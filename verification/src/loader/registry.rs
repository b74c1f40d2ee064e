//! The resources of a manifest by kind, and the deployment plan that its one
//! pipeline resolves to.
use vstd::prelude::*;
use crate::loader::error::{load_fails_with, LoaderError, LoaderErrorKind};
use crate::loader::lua::{analyze_process_access_plan, source_access_result};
use crate::loader::manifest::{
    display_text, invalid_spec_message, kind_text, mismatch_reason, ref_text, reference_error,
    resource_error, script_error, AuthSpec, ManifestResourceKind, MqttSourceSpec, PipelineSpec,
    ResourceDocument, ResourceRef, ResourceSpec,
};
use crate::message::{
    auth_view, AuthKind, AuthPlan, AuthView, DeploymentPlan, EgressPlan, MqttBrokerPlan,
    MqttSourcePlan, MqttSubscriptionPlan, ProcessPlan, ResourceId, SourceView,
};
use crate::number::{dec, usize_to_string};
use crate::plan::{ExecutionMode, ModuleRuntime, PayloadDecodePlan};
use crate::text::{concat, str_eq};

verus! {

/// A resource's kind, name and version.
#[derive(Debug, Clone)]
pub struct ResourceKey {
    pub kind: ManifestResourceKind,
    pub name: String,
    pub version: String,
}

impl ResourceKey {
    pub fn new(kind: ManifestResourceKind, name: &str, version: &str) -> (r: Self)
        ensures
            r.kind == kind,
            r.name@ == name@,
            r.version@ == version@,
    {
        ResourceKey { kind, name: name.to_string(), version: version.to_string() }
    }

    /// The key that `reference` names among resources of `kind`.
    pub fn from_ref(kind: ManifestResourceKind, reference: &ResourceRef) -> (r: Self)
        ensures
            r.kind == kind,
            r.name@ == reference.name@,
            r.version@ == reference.version@,
    {
        Self::new(kind, reference.name.as_str(), reference.version.as_str())
    }

    /// Whether `d` is the resource this key names.
    pub fn names(&self, d: &ResourceDocument) -> (r: bool)
        ensures
            r == (d.kind == self.kind && d.metadata.name@ == self.name@ && d.metadata.version@ == self.version@),
    {
        d.kind == self.kind && str_eq(d.metadata.name.as_str(), self.name.as_str())
            && str_eq(d.metadata.version.as_str(), self.version.as_str())
    }
}

/// Whether two resources have one kind, name and version.
pub open spec fn same_key(a: ResourceDocument, b: ResourceDocument) -> bool {
    a.kind == b.kind && a.metadata.name@ == b.metadata.name@ && a.metadata.version@ == b.metadata.version@
}

/// Index of the first of the first `n` resources that repeats an earlier one.
pub open spec fn first_duplicate(docs: Seq<ResourceDocument>, n: int) -> Option<int>
    decreases n,
{
    if n <= 0 {
        None
    } else {
        match first_duplicate(docs, n - 1) {
            Some(j) => Some(j),
            None => if exists|i: int| 0 <= i < n - 1 && same_key(#[trigger] docs[i], docs[n - 1]) {
                Some(n - 1)
            } else {
                None
            },
        }
    }
}

/// The resources of kind `k` among the first `n`, in order.
pub open spec fn of_kind(docs: Seq<ResourceDocument>, k: ManifestResourceKind, n: int) -> Seq<ResourceDocument>
    decreases n,
{
    if n <= 0 {
        seq![]
    } else if docs[n - 1].kind == k {
        of_kind(docs, k, n - 1).push(docs[n - 1])
    } else {
        of_kind(docs, k, n - 1)
    }
}

/// The resources of a manifest by kind.
pub struct ResourceRegistry {
    pub sources: Vec<ResourceDocument>,
    pub modules: Vec<ResourceDocument>,
    pub processes: Vec<ResourceDocument>,
    pub egresses: Vec<ResourceDocument>,
    pub pipelines: Vec<ResourceDocument>,
}

/// Whether the registry holds the resources of `docs`, each in the list of
/// its kind in order.
pub open spec fn holds(r: ResourceRegistry, docs: Seq<ResourceDocument>) -> bool {
    let n = docs.len() as int;
    &&& r.sources@ == of_kind(docs, ManifestResourceKind::MqttSource, n)
    &&& r.modules@ == of_kind(docs, ManifestResourceKind::Module, n)
    &&& r.processes@ == of_kind(docs, ManifestResourceKind::Process, n)
    &&& r.egresses@ == of_kind(docs, ManifestResourceKind::Egress, n)
    &&& r.pipelines@ == of_kind(docs, ManifestResourceKind::Pipeline, n)
}

proof fn lemma_duplicate_stays(docs: Seq<ResourceDocument>, k: int, n: int)
    requires
        0 <= k <= n,
        first_duplicate(docs, k) is Some,
    ensures
        first_duplicate(docs, n) == first_duplicate(docs, k),
    decreases n - k,
{
    if k < n {
        lemma_duplicate_stays(docs, k, n - 1);
    }
}

impl ResourceRegistry {
    /// Files each resource under its kind; a resource whose kind, name and
    /// version repeat an earlier one is refused.
    pub fn new(resources: Vec<ResourceDocument>) -> (r: Result<Self, LoaderError>)
        ensures
            match r {
                Ok(reg) => first_duplicate(resources@, resources@.len() as int) is None && holds(reg, resources@),
                Err(e) => first_duplicate(resources@, resources@.len() as int) matches Some(j)
                    && e.kind == LoaderErrorKind::ResourceValidation
                    && e.message@ == "duplicate resource "@ + display_text(resources@[j]),
            },
    {
        let ghost all = resources@;
        let mut seen: Vec<ResourceKey> = Vec::new();
        let mut reg = ResourceRegistry {
            sources: Vec::new(),
            modules: Vec::new(),
            processes: Vec::new(),
            egresses: Vec::new(),
            pipelines: Vec::new(),
        };
        let mut rest = resources;
        let ghost mut i: int = 0;
        while rest.len() > 0
            invariant
                all == resources@,
                0 <= i <= all.len(),
                rest@ == all.skip(i),
                seen@.len() == i,
                forall|t: int| 0 <= t < i ==> #[trigger] seen@[t].kind == all[t].kind && seen@[t].name@ == all[t].metadata.name@
                    && seen@[t].version@ == all[t].metadata.version@,
                first_duplicate(all, i) is None,
                reg.sources@ == of_kind(all, ManifestResourceKind::MqttSource, i),
                reg.modules@ == of_kind(all, ManifestResourceKind::Module, i),
                reg.processes@ == of_kind(all, ManifestResourceKind::Process, i),
                reg.egresses@ == of_kind(all, ManifestResourceKind::Egress, i),
                reg.pipelines@ == of_kind(all, ManifestResourceKind::Pipeline, i),
            decreases rest@.len(),
        {
            let resource = rest.remove(0);
            assert(resource == all[i]);
            let key = ResourceKey::new(resource.kind, resource.metadata.name.as_str(), resource.metadata.version.as_str());
            let mut t: usize = 0;
            while t < seen.len()
                invariant
                    t <= seen@.len(),
                    seen@.len() == i,
                    forall|u: int| 0 <= u < i ==> #[trigger] seen@[u].kind == all[u].kind && seen@[u].name@ == all[u].metadata.name@
                        && seen@[u].version@ == all[u].metadata.version@,
                    key.kind == all[i].kind && key.name@ == all[i].metadata.name@ && key.version@ == all[i].metadata.version@,
                    first_duplicate(all, i) is None,
                    all == resources@,
                    0 <= i < all.len(),
                    resource == all[i],
                    forall|u: int| 0 <= u < t ==> !same_key(#[trigger] all[u], all[i]),
                decreases seen@.len() - t,
            {
                if seen[t].kind == key.kind && str_eq(seen[t].name.as_str(), key.name.as_str())
                    && str_eq(seen[t].version.as_str(), key.version.as_str()) {
                    proof {
                        assert(same_key(all[t as int], all[i]));
                        assert(first_duplicate(all, i + 1) == Some(i));
                        lemma_duplicate_stays(all, i + 1, all.len() as int);
                    }
                    let name = resource.display_name();
                    return Err(resource_error(concat("duplicate resource ", name.as_str())));
                }
                t = t + 1;
            }
            assert(first_duplicate(all, i + 1) is None);
            seen.push(key);
            match resource.kind {
                ManifestResourceKind::MqttSource => reg.sources.push(resource),
                ManifestResourceKind::Module => reg.modules.push(resource),
                ManifestResourceKind::Process => reg.processes.push(resource),
                ManifestResourceKind::Egress => reg.egresses.push(resource),
                ManifestResourceKind::Pipeline => reg.pipelines.push(resource),
            }
            proof {
                i = i + 1;
            }
        }
        assert(all.skip(i) =~= Seq::<ResourceDocument>::empty());
        Ok(reg)
    }
}

/// The first resource of `list` named `name` and `version`.
pub open spec fn find_named(list: Seq<ResourceDocument>, name: Seq<char>, version: Seq<char>) -> Option<int>
    decreases list.len(),
{
    if list.len() == 0 {
        None
    } else {
        match find_named(list.drop_last(), name, version) {
            Some(i) => Some(i),
            None => if list.last().metadata.name@ == name && list.last().metadata.version@ == version {
                Some(list.len() - 1)
            } else {
                None
            },
        }
    }
}

proof fn lemma_find_named_bounds(list: Seq<ResourceDocument>, name: Seq<char>, version: Seq<char>)
    ensures
        find_named(list, name, version) matches Some(i) ==> 0 <= i < list.len()
            && list[i].metadata.name@ == name && list[i].metadata.version@ == version,
    decreases list.len(),
{
    if list.len() > 0 {
        lemma_find_named_bounds(list.drop_last(), name, version);
    }
}

proof fn lemma_find_named_extend(list: Seq<ResourceDocument>, name: Seq<char>, version: Seq<char>, n: int)
    requires
        0 <= n <= list.len(),
        find_named(list.take(n), name, version) is Some || n == list.len(),
    ensures
        find_named(list, name, version) == find_named(list.take(n), name, version),
    decreases list.len() - n,
{
    if n < list.len() {
        assert(list.take(n + 1).drop_last() =~= list.take(n));
        lemma_find_named_extend(list, name, version, n + 1);
    } else {
        assert(list.take(n) =~= list);
    }
}

/// Position of the first resource of `list` named `name` and `version`.
fn find_resource(list: &Vec<ResourceDocument>, name: &str, version: &str) -> (r: Option<usize>)
    ensures
        match r {
            Some(i) => find_named(list@, name@, version@) == Some(i as int),
            None => find_named(list@, name@, version@) is None,
        },
{
    let mut i: usize = 0;
    while i < list.len()
        invariant
            i <= list@.len(),
            find_named(list@.take(i as int), name@, version@) is None,
        decreases list@.len() - i,
    {
        assert(list@.take(i + 1).drop_last() =~= list@.take(i as int));
        if str_eq(list[i].metadata.name.as_str(), name) && str_eq(list[i].metadata.version.as_str(), version) {
            proof {
                assert(find_named(list@.take(i + 1), name@, version@) == Some(i as int));
                lemma_find_named_extend(list@, name@, version@, i + 1);
            }
            return Some(i);
        }
        i = i + 1;
    }
    assert(list@.take(i as int) =~= list@);
    None
}

/// `field must reference expected, got reference`.
pub open spec fn wrong_kind_message(field: Seq<char>, expected: ManifestResourceKind, r: ResourceRef) -> Seq<char> {
    field + " must reference "@ + kind_text(expected) + ", got "@ + ref_text(r)
}

/// Fails unless `reference` is of kind `expected`.
pub fn require_ref_kind(reference: &ResourceRef, expected: ManifestResourceKind, field: &str) -> (r: Result<(), LoaderError>)
    ensures
        reference.kind == Some(expected) ==> r is Ok,
        reference.kind != Some(expected) ==> load_fails_with(r, LoaderErrorKind::ReferenceResolution,
            wrong_kind_message(field@, expected, *reference)),
{
    match reference.kind {
        Some(k) => {
            if k == expected {
                return Ok(());
            }
        },
        None => {},
    }
    let a = concat(field, " must reference ");
    let b = concat(a.as_str(), expected.name());
    let c = concat(b.as_str(), ", got ");
    Err(reference_error(concat(c.as_str(), reference.display().as_str())))
}

/// Model of the credentials plan of an MQTT source's auth spec.
pub open spec fn auth_spec_view(auth: Option<AuthSpec>) -> AuthView {
    match auth {
        None => AuthView::NoAuth,
        Some(AuthSpec::Static { username, password }) => AuthView::UsernamePassword(username@, password@),
        Some(AuthSpec::Script { script }) => AuthView::Script(ModuleRuntime::Lua, script.source@),
    }
}

/// Model of the plan of an MQTT source spec.
pub open spec fn source_view(s: MqttSourceSpec) -> SourceView {
    SourceView {
        broker: Some((s.broker.host@, s.broker.port as u32)),
        auth: Some(Some(auth_spec_view(s.auth))),
        subscriptions: s.subscriptions@.map_values(|x: crate::loader::manifest::MqttSubscriptionSpec| (x.topic@, PayloadDecodePlan::Json)),
        client_count: s.client_count,
    }
}

/// Whether `plan` is the plan of the source that `reference` names.
pub open spec fn source_resolved(list: Seq<ResourceDocument>, reference: ResourceRef, plan: MqttSourcePlan) -> bool {
    &&& lookup_problem(list, reference, ManifestResourceKind::MqttSource, "Pipeline.sourceRefs"@) is None
    &&& looked_up(list, reference).spec matches ResourceSpec::MqttSource(s)
    &&& plan@ == source_view(s)
}

/// The problem with reference `reference` in `field` to a resource of kind
/// `kind` among `list`.
pub open spec fn lookup_problem(list: Seq<ResourceDocument>, reference: ResourceRef, kind: ManifestResourceKind, field: Seq<char>) -> Option<(LoaderErrorKind, Seq<char>)> {
    if reference.kind != Some(kind) {
        Some((LoaderErrorKind::ReferenceResolution, wrong_kind_message(field, kind, reference)))
    } else if find_named(list, reference.name@, reference.version@) is None {
        Some((LoaderErrorKind::ReferenceResolution, "missing "@ + kind_text(kind) + " "@ + ref_text(reference)))
    } else {
        None
    }
}

/// The resource that a reference names, its lookup checked first.
pub open spec fn looked_up(list: Seq<ResourceDocument>, reference: ResourceRef) -> ResourceDocument {
    list[find_named(list, reference.name@, reference.version@)->Some_0]
}

/// The message for a resource whose spec is not of the kind referenced.
pub open spec fn wrong_spec_message(d: ResourceDocument) -> Seq<char> {
    "invalid spec for "@ + display_text(d)
}

/// The process plan for script `source`, given the analysis result `x` of
/// the script: its plan with the access plan found, or the analysis error
/// after the field's name.
pub open spec fn process_script_outcome(source: Seq<char>, x: Result<crate::plan::MessageAccessPlan, String>, r: Result<ProcessPlan, LoaderError>) -> bool {
    match x {
        Ok(a) => r matches Ok(p) && p.runtime == ModuleRuntime::Lua && p.source@ == source && p.access_plan == Some(a),
        Err(m) => load_fails_with(r, LoaderErrorKind::ScriptValidation, "Process.spec.source: "@ + m@),
    }
}

/// What resolving process reference `reference` among `list` gives: the
/// reference's problem; a resource that is no process; else the plan that
/// the analysis of its script gives.
pub open spec fn process_resolved(list: Seq<ResourceDocument>, reference: ResourceRef, r: Result<ProcessPlan, LoaderError>) -> bool {
    match lookup_problem(list, reference, ManifestResourceKind::Process, "Pipeline.processRef"@) {
        Some((k, m)) => load_fails_with(r, k, m),
        None => match looked_up(list, reference).spec {
            ResourceSpec::Process(s) => exists|x: Result<crate::plan::MessageAccessPlan, String>|
                #[trigger] source_access_result(s.source@, x) && process_script_outcome(s.source@, x, r),
            _ => load_fails_with(r, LoaderErrorKind::ResourceValidation, wrong_spec_message(looked_up(list, reference))),
        },
    }
}

/// The problem of source reference `reference` among `list`, if any.
pub open spec fn source_ref_problem(list: Seq<ResourceDocument>, reference: ResourceRef) -> Option<(LoaderErrorKind, Seq<char>)> {
    match lookup_problem(list, reference, ManifestResourceKind::MqttSource, "Pipeline.sourceRefs"@) {
        Some(p) => Some(p),
        None => match looked_up(list, reference).spec {
            ResourceSpec::MqttSource(_) => None,
            _ => Some((LoaderErrorKind::ResourceValidation, wrong_spec_message(looked_up(list, reference)))),
        },
    }
}

/// The problem of egress reference `reference` among `list`, if any.
pub open spec fn egress_ref_problem(list: Seq<ResourceDocument>, reference: ResourceRef) -> Option<(LoaderErrorKind, Seq<char>)> {
    match lookup_problem(list, reference, ManifestResourceKind::Egress, "Pipeline.egressRef"@) {
        Some(p) => Some(p),
        None => match looked_up(list, reference).spec {
            ResourceSpec::Egress(_) => None,
            _ => Some((LoaderErrorKind::ResourceValidation, wrong_spec_message(looked_up(list, reference)))),
        },
    }
}

/// Source reference `reference` does not resolve, and `r` is its error.
pub open spec fn source_fails_with<T>(list: Seq<ResourceDocument>, reference: ResourceRef, r: Result<T, LoaderError>) -> bool {
    match source_ref_problem(list, reference) {
        Some((k, m)) => load_fails_with(r, k, m),
        None => false,
    }
}

/// The source references before `n` resolve.
pub open spec fn sources_resolve(list: Seq<ResourceDocument>, refs: Seq<ResourceRef>, n: int) -> bool {
    forall|j: int| 0 <= j < n ==> #[trigger] source_ref_problem(list, refs[j]) is None
}

/// `plan` is the plan of pipeline resource `d` (spec `p`) with process plan
/// `process`: its id, its sources in order, the process and the egress.
pub open spec fn plan_built(reg: ResourceRegistry, d: ResourceDocument, p: PipelineSpec, process: ProcessPlan, plan: DeploymentPlan) -> bool {
    &&& plan.id matches Some(id) && id.name@ == d.metadata.name@ && id.version@ == d.metadata.version@
    &&& plan.execution == ExecutionMode::IntraProc
    &&& plan.sources@.len() == p.source_refs@.len()
    &&& forall|i: int| 0 <= i < plan.sources@.len() ==> source_resolved(reg.sources@, #[trigger] p.source_refs@[i], plan.sources@[i])
    &&& plan.process == Some(process)
    &&& plan.egress == Some(EgressPlan {})
}

/// What resolving the one pipeline of `reg` gives: the first of its source
/// references that does not resolve stops it, then its process, then its
/// egress; where all resolve, its plan.
pub open spec fn plan_resolution(reg: ResourceRegistry, r: Result<DeploymentPlan, LoaderError>) -> bool {
    if reg.pipelines@.len() != 1 {
        load_fails_with(r, LoaderErrorKind::ResourceValidation,
            "loader expects exactly one Pipeline resource, got "@ + dec(reg.pipelines@.len()))
    } else {
        match reg.pipelines@[0].spec {
            ResourceSpec::Pipeline(p) => {
                ||| exists|i: int| 0 <= i < p.source_refs@.len() && sources_resolve(reg.sources@, p.source_refs@, i)
                    && #[trigger] source_fails_with(reg.sources@, p.source_refs@[i], r)
                ||| sources_resolve(reg.sources@, p.source_refs@, p.source_refs@.len() as int)
                    && exists|pr: Result<ProcessPlan, LoaderError>| #[trigger] process_resolved(reg.processes@, p.process_ref, pr) && match pr {
                        Err(e) => load_fails_with(r, e.kind, e.message@),
                        Ok(process) => match egress_ref_problem(reg.egresses@, p.egress_ref) {
                            Some((k, m)) => load_fails_with(r, k, m),
                            None => r matches Ok(plan) && plan_built(reg, reg.pipelines@[0], p, process, plan),
                        },
                    }
            },
            _ => load_fails_with(r, LoaderErrorKind::ResourceValidation, wrong_spec_message(reg.pipelines@[0])),
        }
    }
}

/// What resolving validated resources gives: a repeated resource is refused;
/// else the resolution of the registry that holds them.
pub open spec fn deployment_resolution(resources: Seq<ResourceDocument>, r: Result<DeploymentPlan, LoaderError>) -> bool {
    match first_duplicate(resources, resources.len() as int) {
        Some(j) => load_fails_with(r, LoaderErrorKind::ResourceValidation, "duplicate resource "@ + display_text(resources[j])),
        None => exists|reg: ResourceRegistry| #[trigger] holds(reg, resources) && plan_resolution(reg, r),
    }
}

fn auth_plan(auth: &Option<AuthSpec>) -> (r: AuthPlan)
    ensures
        auth_view(r) == Some(auth_spec_view(*auth)),
{
    match auth {
        None => AuthPlan { kind: Some(AuthKind::NoAuth) },
        Some(AuthSpec::Static { username, password }) => AuthPlan {
            kind: Some(AuthKind::UsernamePassword { username: username.clone(), password: password.clone() }),
        },
        Some(AuthSpec::Script { script }) => AuthPlan {
            kind: Some(AuthKind::Script { runtime: ModuleRuntime::Lua, source: script.source.clone() }),
        },
    }
}

impl ResourceRegistry {
    /// The plan of the MQTT source that `reference` names.
    pub fn resolve_source(&self, reference: &ResourceRef) -> (r: Result<MqttSourcePlan, LoaderError>)
        ensures
            match lookup_problem(self.sources@, *reference, ManifestResourceKind::MqttSource, "Pipeline.sourceRefs"@) {
                Some((k, m)) => load_fails_with(r, k, m),
                None => match looked_up(self.sources@, *reference).spec {
                    ResourceSpec::MqttSource(s) => r matches Ok(p) && p@ == source_view(s),
                    _ => load_fails_with(r, LoaderErrorKind::ResourceValidation, wrong_spec_message(looked_up(self.sources@, *reference))),
                },
            },
    {
        proof {
            reveal_strlit("Pipeline.sourceRefs");
            reveal_strlit("missing MqttSource ");
            reveal_strlit("MqttSource");
            reveal_strlit("missing ");
            reveal_strlit(" ");
            lemma_find_named_bounds(self.sources@, reference.name@, reference.version@);
        }
        require_ref_kind(reference, ManifestResourceKind::MqttSource, "Pipeline.sourceRefs")?;
        let idx = match find_resource(&self.sources, reference.name.as_str(), reference.version.as_str()) {
            Some(i) => i,
            None => {
                let m = concat("missing MqttSource ", reference.display().as_str());
                assert(m@ =~= "missing "@ + kind_text(ManifestResourceKind::MqttSource) + " "@ + ref_text(*reference));
                return Err(reference_error(m));
            },
        };
        let resource = &self.sources[idx];
        let spec = match &resource.spec {
            ResourceSpec::MqttSource(s) => s,
            ResourceSpec::Invalid(e) => {
                return Err(resource_error(concat("invalid spec for ", resource.display_name().as_str())));
            },
            _ => {
                return Err(resource_error(concat("invalid spec for ", resource.display_name().as_str())));
            },
        };
        let mut subscriptions: Vec<MqttSubscriptionPlan> = Vec::new();
        let mut i: usize = 0;
        while i < spec.subscriptions.len()
            invariant
                i <= spec.subscriptions@.len(),
                subscriptions@.len() == i,
                forall|j: int| 0 <= j < i ==> #[trigger] subscriptions@[j].topic@ == spec.subscriptions@[j].topic@
                    && subscriptions@[j].decode == PayloadDecodePlan::Json,
            decreases spec.subscriptions@.len() - i,
        {
            subscriptions.push(MqttSubscriptionPlan { topic: spec.subscriptions[i].topic.clone(), decode: PayloadDecodePlan::Json });
            i = i + 1;
        }
        let plan = MqttSourcePlan {
            broker: Some(MqttBrokerPlan { host: spec.broker.host.clone(), port: spec.broker.port as u32 }),
            auth: Some(auth_plan(&spec.auth)),
            subscriptions,
            client_count: spec.client_count,
        };
        proof {
            assert(plan@.subscriptions =~= source_view(*spec).subscriptions);
        }
        Ok(plan)
    }

    /// The plan of the process that `reference` names, with what its script
    /// reads of messages.
    pub fn resolve_process(&self, reference: &ResourceRef) -> (r: Result<ProcessPlan, LoaderError>)
        ensures
            process_resolved(self.processes@, *reference, r),
    {
        proof {
            reveal_strlit("Pipeline.processRef");
            reveal_strlit("missing Process ");
            reveal_strlit("Process");
            reveal_strlit("missing ");
            reveal_strlit(" ");
            lemma_find_named_bounds(self.processes@, reference.name@, reference.version@);
        }
        require_ref_kind(reference, ManifestResourceKind::Process, "Pipeline.processRef")?;
        let idx = match find_resource(&self.processes, reference.name.as_str(), reference.version.as_str()) {
            Some(i) => i,
            None => {
                let m = concat("missing Process ", reference.display().as_str());
                assert(m@ =~= "missing "@ + kind_text(ManifestResourceKind::Process) + " "@ + ref_text(*reference));
                return Err(reference_error(m));
            },
        };
        let resource = &self.processes[idx];
        let spec = match &resource.spec {
            ResourceSpec::Process(s) => s,
            _ => {
                return Err(resource_error(concat("invalid spec for ", resource.display_name().as_str())));
            },
        };
        let x = analyze_process_access_plan(spec.source.as_str());
        let ghost xv = x;
        let access_plan = match x {
            Ok(a) => a,
            Err(e) => {
                let r: Result<ProcessPlan, LoaderError> = Err(script_error(concat("Process.spec.source: ", e.as_str())));
                assert(process_script_outcome(spec.source@, xv, r));
                return r;
            },
        };
        let r: Result<ProcessPlan, LoaderError> = Ok(ProcessPlan { runtime: ModuleRuntime::Lua, source: spec.source.clone(), access_plan: Some(access_plan) });
        assert(process_script_outcome(spec.source@, xv, r));
        r
    }

    /// The plan of the egress that `reference` names.
    pub fn resolve_egress(&self, reference: &ResourceRef) -> (r: Result<EgressPlan, LoaderError>)
        ensures
            match lookup_problem(self.egresses@, *reference, ManifestResourceKind::Egress, "Pipeline.egressRef"@) {
                Some((k, m)) => load_fails_with(r, k, m),
                None => match looked_up(self.egresses@, *reference).spec {
                    ResourceSpec::Egress(_) => r is Ok,
                    _ => load_fails_with(r, LoaderErrorKind::ResourceValidation, wrong_spec_message(looked_up(self.egresses@, *reference))),
                },
            },
    {
        proof {
            reveal_strlit("Pipeline.egressRef");
            reveal_strlit("missing Egress ");
            reveal_strlit("Egress");
            reveal_strlit("missing ");
            reveal_strlit(" ");
            lemma_find_named_bounds(self.egresses@, reference.name@, reference.version@);
        }
        require_ref_kind(reference, ManifestResourceKind::Egress, "Pipeline.egressRef")?;
        let idx = match find_resource(&self.egresses, reference.name.as_str(), reference.version.as_str()) {
            Some(i) => i,
            None => {
                let m = concat("missing Egress ", reference.display().as_str());
                assert(m@ =~= "missing "@ + kind_text(ManifestResourceKind::Egress) + " "@ + ref_text(*reference));
                return Err(reference_error(m));
            },
        };
        let resource = &self.egresses[idx];
        match &resource.spec {
            ResourceSpec::Egress(_) => Ok(EgressPlan {}),
            _ => Err(resource_error(concat("invalid spec for ", resource.display_name().as_str()))),
        }
    }

    /// The plan of the one pipeline: its sources, process and egress
    /// resolved in that order.
    pub fn resolve_deployment_plan(&self) -> (r: Result<DeploymentPlan, LoaderError>)
        ensures
            plan_resolution(*self, r),
    {
        if self.pipelines.len() != 1 {
            let n = usize_to_string(self.pipelines.len());
            return Err(resource_error(concat("loader expects exactly one Pipeline resource, got ", n.as_str())));
        }
        let pipeline = &self.pipelines[0];
        let spec = match &pipeline.spec {
            ResourceSpec::Pipeline(p) => p,
            _ => {
                return Err(resource_error(concat("invalid spec for ", pipeline.display_name().as_str())));
            },
        };
        let mut sources: Vec<MqttSourcePlan> = Vec::new();
        let mut i: usize = 0;
        while i < spec.source_refs.len()
            invariant
                self.pipelines@.len() == 1,
                self.pipelines@[0].spec == ResourceSpec::Pipeline(*spec),
                i <= spec.source_refs@.len(),
                sources@.len() == i,
                sources_resolve(self.sources@, spec.source_refs@, i as int),
                forall|j: int| 0 <= j < i ==> source_resolved(self.sources@, #[trigger] spec.source_refs@[j], sources@[j]),
            decreases spec.source_refs@.len() - i,
        {
            let source = match self.resolve_source(&spec.source_refs[i]) {
                Ok(s) => s,
                Err(e) => {
                    let r: Result<DeploymentPlan, LoaderError> = Err(e);
                    assert(source_fails_with(self.sources@, spec.source_refs@[i as int], r));
                    return r;
                },
            };
            sources.push(source);
            i = i + 1;
        }
        let pr = self.resolve_process(&spec.process_ref);
        let ghost prv = pr;
        let process = match pr {
            Ok(p) => p,
            Err(e) => {
                assert(process_resolved(self.processes@, spec.process_ref, prv));
                return Err(e);
            },
        };
        let egress = self.resolve_egress(&spec.egress_ref)?;
        let r: Result<DeploymentPlan, LoaderError> = Ok(DeploymentPlan {
            id: Some(pipeline.id()),
            execution: ExecutionMode::IntraProc,
            sources,
            process: Some(process),
            egress: Some(egress),
        });
        assert(process_resolved(self.processes@, spec.process_ref, prv));
        r
    }
}

/// The deployment plan of validated resources: a repeated resource is
/// refused; else the plan that their registry resolves.
pub fn resolve_deployment_plan(resources: Vec<ResourceDocument>) -> (r: Result<DeploymentPlan, LoaderError>)
    ensures
        deployment_resolution(resources@, r),
{
    let registry = ResourceRegistry::new(resources)?;
    let r = registry.resolve_deployment_plan();
    assert(holds(registry, resources@));
    r
}

} // verus!
