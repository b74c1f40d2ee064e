//! Storage of pipeline revisions, the latest revision of each pipeline and
//! the MQTT client ids of their sources.
use vstd::prelude::*;
use crate::daemon::error::{fails_with, DaemonError, DaemonErrorKind};
use crate::daemon::keys::{
    client_ids_key, id_label, id_problem, ids_key, meta_key, pipeline_id_label, pipeline_key,
    pipeline_key_prefix, pipeline_metadata_key, plan_key, plan_key_prefix, rejects_id,
    required_pipeline_id, source_ids_id,
};
use crate::daemon::order::{id_order, id_order_of, lemma_id_order_antisymmetric};
use crate::message::{copy_strings, strings_view, DeploymentPlan, IdView, MqttClientIds, PlanView, ResourceId};
use crate::number::usize_to_string;
use crate::table::{unique_keys, Table};
use crate::text::{concat, is_blank, starts_with, str_is_blank, str_starts_with};

verus! {

/// Every stored plan sits under the key of its own id, and that id names a
/// revision.
pub open spec fn plans_consistent(plans: Map<Seq<char>, PlanView>) -> bool {
    forall|k: Seq<char>| #[trigger] plans.contains_key(k) ==> (plans[k].id matches Some(i)
        && id_problem(Some(i)) is None && plan_key(i) == k)
}

/// Ids of the stored plans under the key prefix of pipeline `name`.
pub open spec fn latest_candidates(plans: Map<Seq<char>, PlanView>, name: Seq<char>) -> Set<IdView> {
    Set::new(|i: IdView| exists|k: Seq<char>| #[trigger] plans.contains_key(k)
        && starts_with(k, plan_key_prefix(name)) && plans[k].id == Some(i))
}

/// The revision order is transitive on `s`.
pub open spec fn order_transitive(s: Set<IdView>) -> bool {
    forall|a: IdView, b: IdView, c: IdView|
        #![trigger s.contains(a), s.contains(b), s.contains(c), id_order(a, b), id_order(b, c)]
        s.contains(a) && s.contains(b) && s.contains(c) && id_order(a, b) <= 0 && id_order(b, c) <= 0
            ==> id_order(a, c) <= 0
}

/// Whether `c` is a latest revision among `s`: one of them, and not below any
/// of them where the order is transitive on them.
pub open spec fn is_latest_of(c: IdView, s: Set<IdView>) -> bool {
    &&& s.contains(c)
    &&& order_transitive(s) ==> forall|d: IdView| #[trigger] s.contains(d) ==> id_order(d, c) <= 0
}

/// Keys of the client ids of the first `n` sources of pipeline `name`.
pub open spec fn source_id_keys(name: Seq<char>, n: int) -> Set<Seq<char>> {
    Set::new(|k: Seq<char>| exists|i: int| 0 <= i < n && k == #[trigger] ids_key(source_ids_id(name, i)))
}

/// Whether `latest` is what deleting a revision of pipeline `name` leaves,
/// `old` before and `plans` the plans after: the latest of what remains
/// under the pipeline's prefix, or nothing.
pub open spec fn latest_after_delete(
    latest: Map<Seq<char>, IdView>,
    old: Map<Seq<char>, IdView>,
    plans: Map<Seq<char>, PlanView>,
    name: Seq<char>,
) -> bool {
    let s = latest_candidates(plans, name);
    if s.is_empty() {
        latest == old.remove(meta_key(name))
    } else {
        exists|c: IdView| #[trigger] is_latest_of(c, s) && latest == old.insert(meta_key(name), c)
    }
}

/// Whether `v` lists each stored plan's id once, in revision order from
/// one to the next.
pub open spec fn lists_plan_ids(v: Seq<ResourceId>, plans: Map<Seq<char>, PlanView>) -> bool {
    &&& v.len() == plans.dom().len()
    &&& forall|i: int| 0 <= i < v.len() ==> plans.contains_key(plan_key(#[trigger] v[i]@))
        && plans[plan_key(v[i]@)].id == Some(v[i]@)
    &&& forall|k: Seq<char>| #[trigger] plans.contains_key(k) ==> exists|i: int| 0 <= i < v.len() && plan_key(#[trigger] v[i]@) == k
    &&& forall|i: int| 0 <= i < v.len() - 1 ==> id_order(#[trigger] v[i]@, v[i + 1]@) <= 0
}

/// Whether `k` is among the first `j` keys.
pub open spec fn seen_key(keys: Seq<String>, j: int, k: Seq<char>) -> bool {
    exists|t: int| 0 <= t < j && #[trigger] keys[t]@ == k
}

/// Whether `k` is the key of one of the ids in `out`.
pub open spec fn listed_key(out: Seq<ResourceId>, k: Seq<char>) -> bool {
    exists|i: int| 0 <= i < out.len() && plan_key(#[trigger] out[i]@) == k
}

/// Inserting the id of the next key keeps the listed keys those seen so far.
proof fn lemma_listed_insert(before: Seq<ResourceId>, out: Seq<ResourceId>, p: int, x: ResourceId, keys: Seq<String>, j: int)
    requires
        0 <= p <= before.len(),
        0 <= j < keys.len(),
        out == before.insert(p, x),
        plan_key(x@) == keys[j]@,
        forall|k: Seq<char>| #[trigger] seen_key(keys, j, k) <==> listed_key(before, k),
    ensures
        forall|k: Seq<char>| #[trigger] seen_key(keys, j + 1, k) <==> listed_key(out, k),
{
    assert forall|k: Seq<char>| #[trigger] seen_key(keys, j + 1, k) <==> listed_key(out, k) by {
        if seen_key(keys, j + 1, k) {
            let t = choose|t: int| 0 <= t < j + 1 && #[trigger] keys[t]@ == k;
            if t == j {
                assert(out[p] == x);
                assert(plan_key(out[p]@) == k);
            } else {
                assert(seen_key(keys, j, k));
                assert(listed_key(before, k));
                let i = choose|i: int| 0 <= i < before.len() && plan_key(#[trigger] before[i]@) == k;
                if i < p {
                    assert(out[i] == before[i]);
                    assert(plan_key(out[i]@) == k);
                } else {
                    assert(out[i + 1] == before[i]);
                    assert(plan_key(out[i + 1]@) == k);
                }
            }
        }
        if listed_key(out, k) {
            let i = choose|i: int| 0 <= i < out.len() && plan_key(#[trigger] out[i]@) == k;
            if i == p {
                assert(keys[j]@ == k);
            } else {
                if i < p {
                    assert(out[i] == before[i]);
                    assert(plan_key(before[i]@) == k);
                } else {
                    assert(out[i] == before[i - 1]);
                    assert(plan_key(before[i - 1]@) == k);
                }
                assert(listed_key(before, k));
                assert(seen_key(keys, j, k));
                let t = choose|t: int| 0 <= t < j && #[trigger] keys[t]@ == k;
                assert(keys[t]@ == k);
            }
        }
    }
}

/// A store of pipeline revisions. `plans` is keyed by `plan_key`, `latest`
/// by `meta_key`, `client_ids` by `ids_key`.
pub trait DaemonStore {
    spec fn plans(&self) -> Map<Seq<char>, PlanView>;

    spec fn latest(&self) -> Map<Seq<char>, IdView>;

    spec fn client_ids(&self) -> Map<Seq<char>, Seq<Seq<char>>>;

    /// Stores a new revision and makes it the latest of its pipeline; a
    /// revision that is already stored is rejected.
    fn save_pipeline(&mut self, plan: DeploymentPlan) -> (r: Result<(), DaemonError>)
        requires
            plans_consistent(old(self).plans()),
        ensures
            plans_consistent(final(self).plans()),
            match id_problem(plan@.id) {
                Some(m) => fails_with(r, DaemonErrorKind::InvalidState, m)
                    && final(self).plans() == old(self).plans() && final(self).latest() == old(self).latest()
                    && final(self).client_ids() == old(self).client_ids(),
                None => if old(self).plans().contains_key(plan_key(plan@.id->Some_0)) {
                    fails_with(r, DaemonErrorKind::InvalidState, "pipeline resource already exists: "@ + id_label(plan@.id->Some_0))
                        && final(self).plans() == old(self).plans() && final(self).latest() == old(self).latest()
                        && final(self).client_ids() == old(self).client_ids()
                } else {
                    r is Ok
                        && final(self).plans() == old(self).plans().insert(plan_key(plan@.id->Some_0), plan@)
                        && final(self).latest() == old(self).latest().insert(meta_key(plan@.id->Some_0.name), plan@.id->Some_0)
                        && final(self).client_ids() == old(self).client_ids()
                },
            },
    ;

    /// The stored revision `id`.
    fn load_pipeline(&self, id: &ResourceId) -> (r: Result<Option<DeploymentPlan>, DaemonError>)
        requires
            plans_consistent(self.plans()),
        ensures
            rejects_id(r, id_problem(Some(id@))),
            r matches Ok(o) ==> match o {
                Some(p) => self.plans().contains_key(plan_key(id@)) && self.plans()[plan_key(id@)] == p@,
                None => !self.plans().contains_key(plan_key(id@)),
            },
    ;

    /// The latest revision of pipeline `name`.
    fn load_latest_pipeline_id(&self, name: &str) -> (r: Result<Option<ResourceId>, DaemonError>)
        requires
            plans_consistent(self.plans()),
        ensures
            rejects_id(r, if is_blank(name@) { Some("pipeline name is missing"@) } else { None }),
            r matches Ok(o) ==> match o {
                Some(i) => self.latest().contains_key(meta_key(name@)) && self.latest()[meta_key(name@)] == i@,
                None => !self.latest().contains_key(meta_key(name@)),
            },
    ;

    /// The ids of all stored revisions, in revision order.
    fn list_pipeline_ids(&self) -> (r: Result<Vec<ResourceId>, DaemonError>)
        requires
            plans_consistent(self.plans()),
        ensures
            r matches Ok(v) && lists_plan_ids(v@, self.plans()),
    ;

    /// Deletes revision `id` with the client ids of its sources; the latest
    /// revision of its pipeline becomes the latest of what remains. Whether
    /// there was such a revision.
    fn delete_pipeline(&mut self, id: &ResourceId) -> (r: Result<bool, DaemonError>)
        requires
            plans_consistent(old(self).plans()),
        ensures
            plans_consistent(final(self).plans()),
            rejects_id(r, id_problem(Some(id@))),
            r is Err ==> final(self).plans() == old(self).plans() && final(self).latest() == old(self).latest()
                && final(self).client_ids() == old(self).client_ids(),
            r == Ok::<bool, DaemonError>(false) ==> !old(self).plans().contains_key(plan_key(id@))
                && final(self).plans() == old(self).plans() && final(self).latest() == old(self).latest()
                && final(self).client_ids() == old(self).client_ids(),
            r == Ok::<bool, DaemonError>(true) ==> old(self).plans().contains_key(plan_key(id@))
                && final(self).plans() == old(self).plans().remove(plan_key(id@))
                && final(self).client_ids() == old(self).client_ids().remove_keys(
                    source_id_keys(id@.name, old(self).plans()[plan_key(id@)].sources.len() as int))
                && latest_after_delete(final(self).latest(), old(self).latest(), final(self).plans(), id@.name),
            id_problem(Some(id@)) is None ==> r is Ok,
    ;

    /// Stores the client ids under `key`.
    fn save_mqtt_client_ids(&mut self, key: &ResourceId, client_ids: Vec<String>) -> (r: Result<(), DaemonError>)
        requires
            plans_consistent(old(self).plans()),
        ensures
            plans_consistent(final(self).plans()),
            r is Ok,
            final(self).plans() == old(self).plans(),
            final(self).latest() == old(self).latest(),
            final(self).client_ids() == old(self).client_ids().insert(ids_key(key@), strings_view(client_ids@)),
    ;

    /// The client ids stored under `key`, none if there are none.
    fn load_mqtt_client_ids(&self, key: &ResourceId) -> (r: Result<Vec<String>, DaemonError>)
        requires
            plans_consistent(self.plans()),
        ensures
            r matches Ok(v) && strings_view(v@) == (if self.client_ids().contains_key(ids_key(key@)) {
                self.client_ids()[ids_key(key@)]
            } else {
                Seq::empty()
            }),
    ;
}

/// A store that keeps everything in memory.
pub struct InMemoryDaemonStore {
    plans: Table<DeploymentPlan>,
    latest: Table<ResourceId>,
    client_ids: Table<MqttClientIds>,
}

impl InMemoryDaemonStore {
    /// An empty store.
    pub fn new() -> (r: Self)
        ensures
            r.plans() == Map::<Seq<char>, PlanView>::empty(),
            r.latest() == Map::<Seq<char>, IdView>::empty(),
            r.client_ids() == Map::<Seq<char>, Seq<Seq<char>>>::empty(),
    {
        InMemoryDaemonStore { plans: Table::new(), latest: Table::new(), client_ids: Table::new() }
    }
}

/// Inserts `x` into `out`, whose neighbours are in revision order, before the
/// first element that is not below it.
fn insert_in_order(out: &mut Vec<ResourceId>, x: ResourceId)
    requires
        forall|i: int| 0 <= i < old(out)@.len() - 1 ==> id_order(#[trigger] old(out)@[i]@, old(out)@[i + 1]@) <= 0,
    ensures
        forall|i: int| 0 <= i < final(out)@.len() - 1 ==> id_order(#[trigger] final(out)@[i]@, final(out)@[i + 1]@) <= 0,
        exists|p: int| 0 <= p <= old(out)@.len() && final(out)@ == old(out)@.insert(p, x),
{
    let mut p: usize = 0;
    let mut found = false;
    while p < out.len() && !found
        invariant
            p <= out@.len(),
            found ==> p < out@.len() && id_order(x@, out@[p as int]@) <= 0,
            forall|q: int| 0 <= q < p ==> id_order(x@, #[trigger] out@[q]@) > 0,
        decreases out@.len() - p - (if found { 1int } else { 0int }),
    {
        if id_order_of(&x, &out[p]) <= 0 {
            found = true;
        } else {
            p = p + 1;
        }
    }
    let ghost before = out@;
    let ghost gx = x;
    proof {
        if p > 0 {
            lemma_id_order_antisymmetric(x@, before[p - 1]@);
        }
    }
    out.insert(p, x);
    proof {
        let n = out@;
        assert(n == before.insert(p as int, gx));
        assert forall|i: int| 0 <= i < n.len() - 1 implies id_order(#[trigger] n[i]@, n[i + 1]@) <= 0 by {
            if i + 1 < p {
                assert(n[i] == before[i] && n[i + 1] == before[i + 1]);
            } else if i + 1 == p {
                assert(n[i] == before[i] && n[i + 1] == gx);
            } else if i == p {
                assert(n[i] == gx && n[i + 1] == before[i]);
            } else {
                assert(n[i] == before[i - 1] && n[i + 1] == before[i]);
            }
        }
    }
}

impl DaemonStore for InMemoryDaemonStore {
    closed spec fn plans(&self) -> Map<Seq<char>, PlanView> {
        self.plans@
    }

    closed spec fn latest(&self) -> Map<Seq<char>, IdView> {
        self.latest@
    }

    closed spec fn client_ids(&self) -> Map<Seq<char>, Seq<Seq<char>>> {
        self.client_ids@
    }

    fn save_pipeline(&mut self, plan: DeploymentPlan) -> (r: Result<(), DaemonError>) {
        let (key, meta, id) = match required_pipeline_id(plan.id.as_ref()) {
            Err(e) => {
                return Err(e);
            },
            Ok(id) => {
                if self.plans.contains(pipeline_key(id).as_str()) {
                    let label = pipeline_id_label(id);
                    return Err(DaemonError::invalid_state(concat("pipeline resource already exists: ", label.as_str())));
                }
                (pipeline_key(id), pipeline_metadata_key(id.name.as_str()), id.copy())
            },
        };
        self.plans.insert(key, plan);
        self.latest.insert(meta, id);
        Ok(())
    }

    fn load_pipeline(&self, id: &ResourceId) -> (r: Result<Option<DeploymentPlan>, DaemonError>) {
        required_pipeline_id(Some(id))?;
        let key = pipeline_key(id);
        match self.plans.get(key.as_str()) {
            Some(p) => Ok(Some(p.copy())),
            None => Ok(None),
        }
    }

    fn load_latest_pipeline_id(&self, name: &str) -> (r: Result<Option<ResourceId>, DaemonError>) {
        if str_is_blank(name) {
            return Err(DaemonError::invalid_state("pipeline name is missing".to_string()));
        }
        let key = pipeline_metadata_key(name);
        match self.latest.get(key.as_str()) {
            Some(i) => Ok(Some(i.copy())),
            None => Ok(None),
        }
    }

    #[verifier::rlimit(40)]
    fn list_pipeline_ids(&self) -> (r: Result<Vec<ResourceId>, DaemonError>) {
        let keys = self.plans.keys();
        let ghost plans = self.plans@;
        let mut out: Vec<ResourceId> = Vec::new();
        let mut j: usize = 0;
        while j < keys.len()
            invariant
                plans == self.plans@,
                plans_consistent(plans),
                keys@.len() == plans.dom().len(),
                unique_keys(keys@),
                forall|k: Seq<char>| #[trigger] plans.contains_key(k) <==> exists|i: int| 0 <= i < keys@.len() && keys@[i]@ == k,
                j <= keys@.len(),
                out@.len() == j,
                forall|i: int| 0 <= i < out@.len() ==> plans.contains_key(plan_key(#[trigger] out@[i]@))
                    && plans[plan_key(out@[i]@)].id == Some(out@[i]@),
                forall|k: Seq<char>| #[trigger] seen_key(keys@, j as int, k) <==> listed_key(out@, k),
                forall|i: int| 0 <= i < out@.len() - 1 ==> id_order(#[trigger] out@[i]@, out@[i + 1]@) <= 0,
            decreases keys@.len() - j,
        {
            let plan = match self.plans.get(keys[j].as_str()) {
                Some(p) => p,
                None => {
                    assert(plans.contains_key(keys@[j as int]@));
                    return Err(DaemonError::store("stored plan is missing".to_string()));
                },
            };
            let id = match required_pipeline_id(plan.id.as_ref()) {
                Ok(i) => i.copy(),
                Err(e) => {
                    return Err(e);
                },
            };
            let ghost before = out@;
            let ghost kj = keys@[j as int]@;
            let ghost gid = id;
            assert(plan_key(id@) == kj);
            insert_in_order(&mut out, id);
            proof {
                let p = choose|p: int| 0 <= p <= before.len() && out@ == before.insert(p, gid);
                assert forall|i: int| 0 <= i < out@.len() implies plans.contains_key(plan_key(#[trigger] out@[i]@))
                    && plans[plan_key(out@[i]@)].id == Some(out@[i]@) by {
                    if i < p {
                        assert(out@[i] == before[i]);
                    } else if i > p {
                        assert(out@[i] == before[i - 1]);
                    }
                }
                lemma_listed_insert(before, out@, p, gid, keys@, j as int);
            }
            j = j + 1;
        }
        proof {
            assert forall|k: Seq<char>| #[trigger] plans.contains_key(k) implies exists|i: int| 0 <= i < out@.len() && plan_key(#[trigger] out@[i]@) == k by {
                let t = choose|t: int| 0 <= t < keys@.len() && keys@[t]@ == k;
                assert(seen_key(keys@, j as int, k));
                assert(listed_key(out@, k));
            }
        }
        Ok(out)
    }

    #[verifier::rlimit(40)]
    fn delete_pipeline(&mut self, id: &ResourceId) -> (r: Result<bool, DaemonError>) {
        required_pipeline_id(Some(id))?;
        let key = pipeline_key(id);
        let count = match self.plans.get(key.as_str()) {
            None => {
                return Ok(false);
            },
            Some(p) => p.sources.len(),
        };
        let ghost old_plans = self.plans@;
        let ghost old_latest = self.latest@;
        let ghost old_ids = self.client_ids@;
        self.plans.remove(key.as_str());
        proof {
            assert(plans_consistent(self.plans@)) by {
                assert forall|k: Seq<char>| #[trigger] self.plans@.contains_key(k) implies (self.plans@[k].id matches Some(i)
                    && id_problem(Some(i)) is None && plan_key(i) == k) by {
                    assert(old_plans.contains_key(k));
                }
            }
        }
        let meta = pipeline_metadata_key(id.name.as_str());
        self.latest.remove(meta.as_str());
        let ghost mid_plans = self.plans@;
        let ghost mid_latest = self.latest@;
        let mut source_index: usize = 0;
        while source_index < count
            invariant
                self.plans@ == mid_plans,
                self.latest@ == mid_latest,
                mid_plans == old_plans.remove(plan_key(id@)),
                mid_latest == old_latest.remove(meta_key(id@.name)),
                plans_consistent(mid_plans),
                meta@ == meta_key(id@.name),
                source_index <= count,
                self.client_ids@ == old_ids.remove_keys(source_id_keys(id@.name, source_index as int)),
            decreases count - source_index,
        {
            let idx = usize_to_string(source_index);
            let head = concat(id.name.as_str(), ":source:");
            let source_id = ResourceId { name: concat(head.as_str(), idx.as_str()), version: "client-ids".to_string() };
            proof {
                reveal_strlit("client-ids");
            }
            assert(source_id@ == source_ids_id(id@.name, source_index as int));
            let ghost before = self.client_ids@;
            self.client_ids.remove(client_ids_key(&source_id).as_str());
            proof {
                assert(self.client_ids@ =~= old_ids.remove_keys(source_id_keys(id@.name, source_index + 1))) by {
                    assert forall|k: Seq<char>| #[trigger] source_id_keys(id@.name, source_index + 1).contains(k)
                        <==> (source_id_keys(id@.name, source_index as int).contains(k)
                            || k == ids_key(source_ids_id(id@.name, source_index as int))) by {
                        if source_id_keys(id@.name, source_index + 1).contains(k) {
                            let i = choose|i: int| 0 <= i < source_index + 1 && k == #[trigger] ids_key(source_ids_id(id@.name, i));
                            if i < source_index {
                                assert(source_id_keys(id@.name, source_index as int).contains(k));
                            }
                        }
                    }
                }
            }
            source_index = source_index + 1;
        }
        let prefix = pipeline_key_prefix(id.name.as_str());
        let keys = self.plans.keys();
        let ghost plans = self.plans@;
        let ghost cands = latest_candidates(plans, id@.name);
        let mut best: Option<ResourceId> = None;
        let mut j: usize = 0;
        while j < keys.len()
            invariant
                plans == self.plans@,
                plans_consistent(plans),
                prefix@ == plan_key_prefix(id@.name),
                cands == latest_candidates(plans, id@.name),
                keys@.len() == plans.dom().len(),
                forall|k: Seq<char>| #[trigger] plans.contains_key(k) <==> exists|i: int| 0 <= i < keys@.len() && keys@[i]@ == k,
                j <= keys@.len(),
                match best {
                    None => forall|t: int| 0 <= t < j ==> !starts_with(#[trigger] keys@[t]@, prefix@),
                    Some(b) => cands.contains(b@)
                        && (order_transitive(cands) ==> forall|t: int| 0 <= t < j && starts_with(#[trigger] keys@[t]@, prefix@)
                            ==> id_order(plans[keys@[t]@].id->Some_0, b@) <= 0),
                },
            decreases keys@.len() - j,
        {
            assert(plans.contains_key(keys@[j as int]@));
            if str_starts_with(keys[j].as_str(), prefix.as_str()) {
                match self.plans.get(keys[j].as_str()) {
                    Some(p) => {
                        match &p.id {
                            Some(pid) => {
                                let ghost x = pid@;
                                assert(cands.contains(x));
                                let take = match &best {
                                    None => true,
                                    Some(b) => id_order_of(b, pid) <= 0,
                                };
                                proof {
                                    if best is Some {
                                        let b = best->Some_0;
                                        lemma_id_order_antisymmetric(b@, x);
                                        if order_transitive(cands) {
                                            assert forall|t: int| 0 <= t < j + 1 && starts_with(#[trigger] keys@[t]@, prefix@)
                                                implies id_order(plans[keys@[t]@].id->Some_0, if take { x } else { b@ }) <= 0 by {
                                                if t < j {
                                                    let d = plans[keys@[t]@].id->Some_0;
                                                    assert(plans.contains_key(keys@[t]@));
                                                    assert(cands.contains(d));
                                                    if take {
                                                        assert(id_order(d, b@) <= 0 && id_order(b@, x) <= 0);
                                                    }
                                                } else {
                                                    lemma_id_order_antisymmetric(x, x);
                                                }
                                            }
                                        }
                                    } else {
                                        lemma_id_order_antisymmetric(x, x);
                                    }
                                }
                                if take {
                                    best = Some(pid.copy());
                                }
                            },
                            None => {
                                assert(false);
                            },
                        }
                    },
                    None => {
                        assert(false);
                    },
                }
            }
            j = j + 1;
        }
        let ghost removed = self.latest@;
        match best {
            Some(b) => {
                proof {
                    assert(is_latest_of(b@, cands)) by {
                        if order_transitive(cands) {
                            assert forall|d: IdView| #[trigger] cands.contains(d) implies id_order(d, b@) <= 0 by {
                                let k = choose|k: Seq<char>| #[trigger] plans.contains_key(k)
                                    && starts_with(k, plan_key_prefix(id@.name)) && plans[k].id == Some(d);
                                let t = choose|t: int| 0 <= t < keys@.len() && keys@[t]@ == k;
                                assert(starts_with(keys@[t]@, prefix@));
                            }
                        }
                    }
                }
                let ghost gb = b@;
                self.latest.insert(meta, b);
                proof {
                    assert(self.latest@ =~= old_latest.insert(meta_key(id@.name), gb));
                    assert(!cands.is_empty()) by {
                        assert(cands.contains(b@));
                    }
                }
            },
            None => {
                proof {
                    assert(cands =~= Set::<IdView>::empty()) by {
                        assert forall|d: IdView| !cands.contains(d) by {
                            if cands.contains(d) {
                                let k = choose|k: Seq<char>| #[trigger] plans.contains_key(k)
                                    && starts_with(k, plan_key_prefix(id@.name)) && plans[k].id == Some(d);
                                let t = choose|t: int| 0 <= t < keys@.len() && keys@[t]@ == k;
                                assert(!starts_with(keys@[t]@, prefix@));
                            }
                        }
                    }
                }
            },
        }
        Ok(true)
    }

    fn save_mqtt_client_ids(&mut self, key: &ResourceId, client_ids: Vec<String>) -> (r: Result<(), DaemonError>) {
        let k = client_ids_key(key);
        self.client_ids.insert(k, MqttClientIds { client_ids });
        Ok(())
    }

    fn load_mqtt_client_ids(&self, key: &ResourceId) -> (r: Result<Vec<String>, DaemonError>) {
        let k = client_ids_key(key);
        match self.client_ids.get(k.as_str()) {
            Some(ids) => Ok(copy_strings(&ids.client_ids)),
            None => Ok(Vec::new()),
        }
    }
}

} // verus!
