//! Properties of the daemon that span its operations.
use vstd::prelude::*;
use crate::daemon::keys::{client_id_of, id_label, id_problem, meta_key, plan_key, revision_after, revision_number};
use crate::daemon::lifecycle::{
    next_revision_for, prepared_ids, put_result, resolve_key, stored_ids, with_id,
};
use crate::message::{IdView, PlanView};
use crate::number::{dec, lemma_parse_dec};
use crate::text::is_blank;

verus! {

/// The revision after `r<n>` is `r<n + 1>`: a pipeline whose latest revision
/// is `r<n>` stores its next plan as `r<n + 1>`.
pub proof fn law_revision_advances(latest: Map<Seq<char>, IdView>, name: Seq<char>, n: nat)
    requires
        n <= u64::MAX,
        latest.contains_key(meta_key(name)),
        latest[meta_key(name)].version == "r"@ + dec(n),
    ensures
        revision_number("r"@ + dec(n)) == Some(n as int),
        next_revision_for(latest, name) == Ok::<Seq<char>, Seq<char>>(revision_after(n as int)),
{
    reveal_strlit("r");
    lemma_parse_dec(n);
    assert(("r"@ + dec(n)).drop_first() =~= dec(n));
}

/// The first plan of a pipeline is stored as revision `r1`.
pub proof fn law_first_revision(latest: Map<Seq<char>, IdView>, name: Seq<char>)
    requires
        !latest.contains_key(meta_key(name)),
    ensures
        next_revision_for(latest, name) == Ok::<Seq<char>, Seq<char>>("r1"@),
{
}

/// A stored plan becomes the latest revision of its pipeline: asking for the
/// pipeline without a version then names the revision just stored, under
/// which the plan itself is kept with that id.
pub proof fn law_put_is_latest(plans: Map<Seq<char>, PlanView>, latest: Map<Seq<char>, IdView>, p: PlanView)
    requires
        put_result(plans, latest, p) is Ok,
    ensures
        ({
            let nid = put_result(plans, latest, p)->Ok_0;
            let latest2 = latest.insert(meta_key(nid.name), nid);
            let plans2 = plans.insert(plan_key(nid), with_id(p, nid));
            &&& resolve_key(latest2, nid.name, None) == Ok::<IdView, (crate::daemon::error::DaemonErrorKind, Seq<char>)>(nid)
            &&& plans2.contains_key(plan_key(nid))
            &&& plans2[plan_key(nid)] == with_id(p, nid)
        }),
{
}

/// A revision that is stored is not stored again: a plan whose next revision
/// is already stored is refused.
pub proof fn law_duplicate_revision_refused(plans: Map<Seq<char>, PlanView>, latest: Map<Seq<char>, IdView>, p: PlanView, v: Seq<char>)
    requires
        put_problem_free(p),
        next_revision_for(latest, p.id->Some_0.name) == Ok::<Seq<char>, Seq<char>>(v),
        plans.contains_key(plan_key(IdView { name: p.id->Some_0.name, version: v })),
    ensures
        put_result(plans, latest, p) == Err::<IdView, Seq<char>>(
            "pipeline resource already exists: "@ + id_label(IdView { name: p.id->Some_0.name, version: v })),
{
}

/// The plan has a process with an access plan and an id with a name.
pub open spec fn put_problem_free(p: PlanView) -> bool {
    crate::daemon::lifecycle::put_problem(p) is None
}

/// The client ids first prepared for a source are numbered from zero:
/// `name-i-0`, `name-i-1`, and so on.
pub proof fn law_fresh_client_ids(name: Seq<char>, i: int, required: int)
    requires
        required >= 1,
    ensures
        prepared_ids(Seq::empty(), name, i, required) == Seq::new(required as nat, |t: int| client_id_of(name, i, t)),
{
    assert(prepared_ids(Seq::empty(), name, i, required) =~= Seq::new(required as nat, |t: int| client_id_of(name, i, t)));
}

/// Client ids are kept as they are when there are enough: preparing them again
/// changes nothing.
pub proof fn law_prepared_ids_stable(cur: Seq<Seq<char>>, name: Seq<char>, i: int, required: int)
    requires
        required >= 1,
    ensures
        prepared_ids(cur, name, i, required).len() == required,
        prepared_ids(prepared_ids(cur, name, i, required), name, i, required) == prepared_ids(cur, name, i, required),
{
    let p = prepared_ids(cur, name, i, required);
    assert(p.take(required) =~= p);
}

/// Stored client ids are read back as stored.
pub proof fn law_client_ids_read_back(m: Map<Seq<char>, Seq<Seq<char>>>, k: Seq<char>, v: Seq<Seq<char>>)
    ensures
        stored_ids(m.insert(k, v), k) == v,
{
}

} // verus!
