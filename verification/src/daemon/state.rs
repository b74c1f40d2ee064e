//! State that processing scripts keep between messages: JSON values by key,
//! in named scopes, changed by batches of mutations.
use vstd::prelude::*;
use crate::daemon::error::{fails_with, DaemonError, DaemonErrorKind};
use crate::message::{DeploymentPlan, PlanView};
use crate::table::Table;

verus! {

/// A key and its JSON value.
#[derive(Debug, Clone, PartialEq, Eq)]
pub struct StateEntry {
    pub key: String,
    pub value_json: Vec<u8>,
}

/// Entries read from a scope.
#[derive(Debug, PartialEq, Eq)]
pub struct StateSnapshot {
    pub entries: Vec<StateEntry>,
}

/// A change to a scope.
#[derive(Debug, PartialEq, Eq)]
pub enum StateOp {
    SetValue { key: String, value_json: Vec<u8> },
    Delete { key: String },
}

/// A mutation, whose operation may be missing.
#[derive(Debug, PartialEq, Eq)]
pub struct StateMutation {
    pub op: Option<StateOp>,
}

/// The values of one scope after mutations `ms`, `m` before, or the message of
/// the first invalid one and the values up to it.
pub open spec fn apply_mutations(m: Map<Seq<char>, Seq<u8>>, ms: Seq<StateMutation>) -> (Map<Seq<char>, Seq<u8>>, Option<Seq<char>>)
    decreases ms.len(),
{
    if ms.len() == 0 {
        (m, None)
    } else {
        match ms[0].op {
            None => (m, Some("state mutation op is missing"@)),
            Some(StateOp::SetValue { key, value_json }) => if key@.len() == 0 {
                (m, Some("state key is empty"@))
            } else {
                apply_mutations(m.insert(key@, value_json@), ms.drop_first())
            },
            Some(StateOp::Delete { key }) => if key@.len() == 0 {
                (m, Some("state key is empty"@))
            } else {
                apply_mutations(m.remove(key@), ms.drop_first())
            },
        }
    }
}

/// The values of `scope`, none if it has none.
pub open spec fn scope_values(scopes: Map<Seq<char>, Map<Seq<char>, Seq<u8>>>, scope: Seq<char>) -> Map<Seq<char>, Seq<u8>> {
    if scopes.contains_key(scope) {
        scopes[scope]
    } else {
        Map::empty()
    }
}

/// Whether `entries` are the values of `values` under `keys` in their order,
/// skipping keys without one; every value once, in some order, when no key is
/// asked for.
pub open spec fn snapshot_of(entries: Seq<StateEntry>, values: Map<Seq<char>, Seq<u8>>, keys: Seq<String>) -> bool {
    if keys.len() == 0 {
        &&& entries.len() == values.dom().len()
        &&& forall|i: int| 0 <= i < entries.len() ==> values.contains_key(#[trigger] entries[i].key@)
            && values[entries[i].key@] == entries[i].value_json@
        &&& forall|i: int, j: int| 0 <= i < j < entries.len() ==> entries[i].key@ != entries[j].key@
    } else {
        entries_view(entries) == present_entries(values, keys)
    }
}

/// Keys and values of entries.
pub open spec fn entries_view(entries: Seq<StateEntry>) -> Seq<(Seq<char>, Seq<u8>)> {
    entries.map_values(|e: StateEntry| (e.key@, e.value_json@))
}

/// The keys among `keys` that have a value, with the value, in order.
pub open spec fn present_entries(values: Map<Seq<char>, Seq<u8>>, keys: Seq<String>) -> Seq<(Seq<char>, Seq<u8>)>
    decreases keys.len(),
{
    if keys.len() == 0 {
        seq![]
    } else {
        let rest = present_entries(values, keys.drop_last());
        let k = keys.last()@;
        if values.contains_key(k) {
            rest.push((k, values[k]))
        } else {
            rest
        }
    }
}

proof fn lemma_no_present_entries(values: Map<Seq<char>, Seq<u8>>, keys: Seq<String>)
    requires
        values == Map::<Seq<char>, Seq<u8>>::empty(),
    ensures
        present_entries(values, keys) == Seq::<(Seq<char>, Seq<u8>)>::empty(),
    decreases keys.len(),
{
    if keys.len() > 0 {
        lemma_no_present_entries(values, keys.drop_last());
    }
}

/// Keeps the plan of a worker and the state of its scripts.
pub trait StateStore {
    spec fn plan(&self) -> Option<PlanView>;

    spec fn scopes(&self) -> Map<Seq<char>, Map<Seq<char>, Seq<u8>>>;

    fn save_plan(&mut self, plan: DeploymentPlan) -> (r: Result<(), DaemonError>)
        ensures
            r is Ok,
            final(self).plan() == Some(plan@),
            final(self).scopes() == old(self).scopes(),
    ;

    fn load_plan(&self) -> (r: Result<Option<DeploymentPlan>, DaemonError>)
        ensures
            r matches Ok(o) && match o {
                Some(p) => self.plan() == Some(p@),
                None => self.plan() is None,
            },
    ;

    fn commit(&mut self, scope: &str, mutations: Vec<StateMutation>) -> (r: Result<(), DaemonError>)
        ensures
            final(self).plan() == old(self).plan(),
            final(self).scopes() == old(self).scopes().insert(scope@,
                apply_mutations(scope_values(old(self).scopes(), scope@), mutations@).0),
            match apply_mutations(scope_values(old(self).scopes(), scope@), mutations@).1 {
                Some(m) => fails_with(r, DaemonErrorKind::InvalidState, m),
                None => r is Ok,
            },
    ;
}

/// State kept in memory.
pub struct MemoryStateStore {
    plan: Option<DeploymentPlan>,
    scopes: Table<Table<Vec<u8>>>,
}

impl MemoryStateStore {
    pub fn new() -> (r: Self)
        ensures
            r.plan() is None,
            r.scopes() == Map::<Seq<char>, Map<Seq<char>, Seq<u8>>>::empty(),
    {
        MemoryStateStore { plan: None, scopes: Table::new() }
    }

    /// The entries of `scope` under `keys`, or all of them when no key is
    /// asked for.
    pub fn load(&self, scope: &str, keys: &Vec<String>) -> (r: Result<StateSnapshot, DaemonError>)
        ensures
            r matches Ok(s) && snapshot_of(s.entries@, scope_values(self.scopes(), scope@), keys@),
    {
        let values = match self.scopes.get(scope) {
            Some(v) => v,
            None => {
                proof {
                    lemma_no_present_entries(Map::empty(), keys@);
                    assert(entries_view(Seq::<StateEntry>::empty()) =~= seq![]);
                    assert(Map::<Seq<char>, Seq<u8>>::empty().dom() =~= Set::empty());
                }
                return Ok(StateSnapshot { entries: Vec::new() });
            },
        };
        let mut entries: Vec<StateEntry> = Vec::new();
        if keys.len() == 0 {
            let ks = values.keys();
            let mut i: usize = 0;
            while i < ks.len()
                invariant
                    self.scopes@.contains_key(scope@),
                    values@ == self.scopes@[scope@],
                    ks@.len() == values@.dom().len(),
                    crate::table::unique_keys(ks@),
                    forall|k: Seq<char>| #[trigger] values@.contains_key(k) <==> exists|t: int| 0 <= t < ks@.len() && ks@[t]@ == k,
                    i <= ks@.len(),
                    entries@.len() == i,
                    forall|t: int| 0 <= t < i ==> #[trigger] entries@[t].key@ == ks@[t]@
                        && values@[entries@[t].key@] == entries@[t].value_json@,
                decreases ks@.len() - i,
            {
                assert(values@.contains_key(ks@[i as int]@));
                match values.get(ks[i].as_str()) {
                    Some(v) => {
                        entries.push(StateEntry { key: ks[i].clone(), value_json: v.clone() });
                    },
                    None => {
                        assert(false);
                    },
                }
                i = i + 1;
            }
            proof {
                assert forall|t: int| 0 <= t < entries@.len() implies values@.contains_key(#[trigger] entries@[t].key@) by {
                    assert(entries@[t].key@ == ks@[t]@);
                }
                assert forall|a: int, b: int| 0 <= a < b < entries@.len() implies entries@[a].key@ != entries@[b].key@ by {
                    assert(entries@[a].key@ == ks@[a]@);
                    assert(entries@[b].key@ == ks@[b]@);
                }
            }
        } else {
            let mut i: usize = 0;
            while i < keys.len()
                invariant
                    self.scopes@.contains_key(scope@),
                    values@ == self.scopes@[scope@],
                    i <= keys@.len(),
                    entries_view(entries@) == present_entries(values@, keys@.take(i as int)),
                decreases keys@.len() - i,
            {
                assert(keys@.take(i + 1).drop_last() =~= keys@.take(i as int));
                let ghost before = entries@;
                match values.get(keys[i].as_str()) {
                    Some(v) => {
                        entries.push(StateEntry { key: keys[i].clone(), value_json: v.clone() });
                        assert(entries_view(entries@) =~= entries_view(before).push((keys@[i as int]@, values@[keys@[i as int]@])));
                    },
                    None => {},
                }
                i = i + 1;
            }
            assert(keys@.take(i as int) =~= keys@);
        }
        Ok(StateSnapshot { entries })
    }
}

impl StateStore for MemoryStateStore {
    closed spec fn plan(&self) -> Option<PlanView> {
        match self.plan {
            Some(p) => Some(p@),
            None => None,
        }
    }

    closed spec fn scopes(&self) -> Map<Seq<char>, Map<Seq<char>, Seq<u8>>> {
        self.scopes@
    }

    fn save_plan(&mut self, plan: DeploymentPlan) -> (r: Result<(), DaemonError>) {
        self.plan = Some(plan);
        Ok(())
    }

    fn load_plan(&self) -> (r: Result<Option<DeploymentPlan>, DaemonError>) {
        match &self.plan {
            Some(p) => Ok(Some(p.copy())),
            None => Ok(None),
        }
    }

    fn commit(&mut self, scope: &str, mutations: Vec<StateMutation>) -> (r: Result<(), DaemonError>) {
        let ghost start = scope_values(self.scopes@, scope@);
        let ghost old_scopes = self.scopes@;
        let mut values = match self.scopes.take(scope) {
            Some(v) => v,
            None => Table::new(),
        };
        let ghost without = self.scopes@;
        let ghost all = mutations@;
        assert(values@ == start);
        assert(all.skip(0) =~= all);
        let mut rest = mutations;
        let ghost mut i: int = 0;
        while rest.len() > 0
            invariant
                all == mutations@,
                without == old_scopes.remove(scope@),
                self.scopes@ == without,
                self.plan == old(self).plan,
                old_scopes == old(self).scopes@,
                start == scope_values(old_scopes, scope@),
                0 <= i <= all.len(),
                rest@ == all.skip(i),
                apply_mutations(start, all) == apply_mutations(values@, all.skip(i)),
            decreases rest@.len(),
        {
            let m = rest.remove(0);
            assert(all.skip(i)[0] == m);
            assert(all.skip(i).drop_first() =~= all.skip(i + 1));
            match m.op {
                Some(StateOp::SetValue { key, value_json }) => {
                    if key.as_str().is_empty() {
                        self.scopes.insert(scope.to_string(), values);
                        proof {
                            assert(self.scopes@ =~= old_scopes.insert(scope@, apply_mutations(start, all).0));
                        }
                        return Err(DaemonError::invalid_state("state key is empty".to_string()));
                    }
                    values.insert(key, value_json);
                },
                Some(StateOp::Delete { key }) => {
                    if key.as_str().is_empty() {
                        self.scopes.insert(scope.to_string(), values);
                        proof {
                            assert(self.scopes@ =~= old_scopes.insert(scope@, apply_mutations(start, all).0));
                        }
                        return Err(DaemonError::invalid_state("state key is empty".to_string()));
                    }
                    values.remove(key.as_str());
                },
                None => {
                    self.scopes.insert(scope.to_string(), values);
                    proof {
                        assert(self.scopes@ =~= old_scopes.insert(scope@, apply_mutations(start, all).0));
                    }
                    return Err(DaemonError::invalid_state("state mutation op is missing".to_string()));
                },
            }
            proof {
                i = i + 1;
            }
        }
        assert(all.skip(i) =~= Seq::<StateMutation>::empty());
        self.scopes.insert(scope.to_string(), values);
        proof {
            assert(self.scopes@ =~= old_scopes.insert(scope@, apply_mutations(start, all).0));
        }
        Ok(())
    }
}

} // verus!
