//! Identifiers of stored pipelines: storage keys, revisions and the ids of
//! MQTT clients.
use vstd::prelude::*;
use crate::daemon::error::{fails_with, DaemonError, DaemonErrorKind};
use crate::message::{IdView, ResourceId};
use crate::number::{dec, parse_int, parse_u64_str, u64_to_string, usize_to_string, IntParseError};
use crate::text::{concat, is_blank, str_chars, str_is_blank, string_from_chars};

verus! {

/// `name:version`.
pub open spec fn id_label(id: IdView) -> Seq<char> {
    id.name + ":"@ + id.version
}

/// `prefix:suffix`.
pub open spec fn key_of(prefix: Seq<char>, suffix: Seq<char>) -> Seq<char> {
    prefix + ":"@ + suffix
}

/// Key of a stored plan.
pub open spec fn plan_key(id: IdView) -> Seq<char> {
    key_of("pipeline"@, id_label(id))
}

/// Prefix of the keys of the stored plans of pipeline `name`.
pub open spec fn plan_key_prefix(name: Seq<char>) -> Seq<char> {
    key_of("pipeline"@, name + ":"@)
}

/// Key of the latest revision of pipeline `name`.
pub open spec fn meta_key(name: Seq<char>) -> Seq<char> {
    key_of("pipeline_metadata"@, name)
}

/// Key of the client ids of a source.
pub open spec fn ids_key(id: IdView) -> Seq<char> {
    key_of("mqtt_source_client_ids"@, id_label(id))
}

/// `name:version` of `id`.
pub fn pipeline_id_label(id: &ResourceId) -> (r: String)
    ensures
        r@ == id_label(id@),
{
    let a = concat(id.name.as_str(), ":");
    concat(a.as_str(), id.version.as_str())
}

/// The storage key made of `prefix`, a colon and `suffix`.
pub fn store_key(prefix: &str, suffix: &str) -> (r: String)
    ensures
        r@ == key_of(prefix@, suffix@),
{
    let a = concat(prefix, ":");
    concat(a.as_str(), suffix)
}

pub fn pipeline_key(id: &ResourceId) -> (r: String)
    ensures
        r@ == plan_key(id@),
{
    proof {
        reveal_strlit("pipeline");
    }
    let label = pipeline_id_label(id);
    store_key("pipeline", label.as_str())
}

pub fn pipeline_key_prefix(name: &str) -> (r: String)
    ensures
        r@ == plan_key_prefix(name@),
{
    proof {
        reveal_strlit("pipeline");
    }
    let suffix = concat(name, ":");
    store_key("pipeline", suffix.as_str())
}

pub fn pipeline_metadata_key(name: &str) -> (r: String)
    ensures
        r@ == meta_key(name@),
{
    proof {
        reveal_strlit("pipeline_metadata");
    }
    store_key("pipeline_metadata", name)
}

pub fn client_ids_key(id: &ResourceId) -> (r: String)
    ensures
        r@ == ids_key(id@),
{
    proof {
        reveal_strlit("mqtt_source_client_ids");
    }
    let label = pipeline_id_label(id);
    store_key("mqtt_source_client_ids", label.as_str())
}

/// What is wrong with a pipeline id, if anything: it is missing, or its name
/// or version is blank.
pub open spec fn id_problem(id: Option<IdView>) -> Option<Seq<char>> {
    match id {
        None => Some("pipeline id is missing"@),
        Some(i) => if is_blank(i.name) {
            Some("pipeline name is missing"@)
        } else if is_blank(i.version) {
            Some("pipeline version is missing"@)
        } else {
            None
        },
    }
}

/// Whether a result is the rejection of an id for `problem`.
pub open spec fn rejects_id<T>(r: Result<T, DaemonError>, problem: Option<Seq<char>>) -> bool {
    match problem {
        Some(m) => fails_with(r, DaemonErrorKind::InvalidState, m),
        None => r is Ok,
    }
}

/// The id, if it names a pipeline revision.
pub fn required_pipeline_id(id: Option<&ResourceId>) -> (r: Result<&ResourceId, DaemonError>)
    ensures
        rejects_id(r, id_problem(match id { Some(i) => Some(i@), None => None })),
        r matches Ok(i) ==> id == Some(i),
{
    let id = match id {
        Some(i) => i,
        None => {
            return Err(DaemonError::invalid_state("pipeline id is missing".to_string()));
        },
    };
    validate_resource_id(id)?;
    Ok(id)
}

/// Fails unless both the name and the version of `id` are set.
pub fn validate_resource_id(id: &ResourceId) -> (r: Result<(), DaemonError>)
    ensures
        rejects_id(r, id_problem(Some(id@))),
{
    if str_is_blank(id.name.as_str()) {
        return Err(DaemonError::invalid_state("pipeline name is missing".to_string()));
    }
    if str_is_blank(id.version.as_str()) {
        return Err(DaemonError::invalid_state("pipeline version is missing".to_string()));
    }
    Ok(())
}

/// The number of revision `r<n>`.
pub open spec fn revision_number(v: Seq<char>) -> Option<int> {
    if v.len() > 0 && v[0] == 'r' {
        match parse_int(v.drop_first(), false, 0, u64::MAX as int) {
            Ok(n) => Some(n),
            Err(_) => None,
        }
    } else {
        None
    }
}

/// The number of revision `r<n>`, if `v` is one.
pub fn parse_revision(v: &str) -> (r: Option<u64>)
    ensures
        match r {
            Some(n) => revision_number(v@) == Some(n as int),
            None => revision_number(v@) is None,
        },
{
    let c = str_chars(v);
    if c.len() == 0 || c[0] != 'r' {
        return None;
    }
    let rest = string_from_chars(&c.as_slice()[1..c.len()]);
    assert(rest@ =~= v@.drop_first());
    match parse_u64_str(rest.as_str()) {
        Ok(n) => Some(n),
        Err(_) => None,
    }
}

/// The revision after number `n`.
pub open spec fn revision_after(n: int) -> Seq<char> {
    "r"@ + dec((n + 1) as nat)
}

/// `r<n + 1>`; `n` must leave room for one more.
pub fn next_revision(n: u64) -> (r: String)
    requires
        n < u64::MAX,
    ensures
        r@ == revision_after(n as int),
{
    let d = u64_to_string(n + 1);
    concat("r", d.as_str())
}

/// Name of the client-id record of source `i` of pipeline `name`.
pub open spec fn source_ids_name(name: Seq<char>, i: int) -> Seq<char> {
    name + ":source:"@ + dec(i as nat)
}

/// Key of the client-id record of source `i` of a pipeline.
pub open spec fn source_ids_id(name: Seq<char>, i: int) -> IdView {
    IdView { name: source_ids_name(name, i), version: "client-ids"@ }
}

/// Id of the client-id record of source `source_index` of a pipeline
/// revision.
pub fn mqtt_source_client_ids_key(pipeline_id: &ResourceId, source_index: usize) -> (r: Result<ResourceId, DaemonError>)
    ensures
        rejects_id(r, id_problem(Some(pipeline_id@))),
        r matches Ok(k) ==> k@ == source_ids_id(pipeline_id.name@, source_index as int),
{
    validate_resource_id(pipeline_id)?;
    let idx = usize_to_string(source_index);
    let head = concat(pipeline_id.name.as_str(), ":source:");
    let name = concat(head.as_str(), idx.as_str());
    Ok(ResourceId { name, version: "client-ids".to_string() })
}

/// Client id `client_index` of source `source_index` of a pipeline.
pub open spec fn client_id_of(name: Seq<char>, source_index: int, client_index: int) -> Seq<char> {
    name + "-"@ + dec(source_index as nat) + "-"@ + dec(client_index as nat)
}

/// `name-source-client`.
pub fn mqtt_client_id(pipeline_id: &ResourceId, source_index: usize, client_index: usize) -> (r: String)
    ensures
        r@ == client_id_of(pipeline_id.name@, source_index as int, client_index as int),
{
    let s = usize_to_string(source_index);
    let c = usize_to_string(client_index);
    let a = concat(pipeline_id.name.as_str(), "-");
    let b = concat(a.as_str(), s.as_str());
    let d = concat(b.as_str(), "-");
    concat(d.as_str(), c.as_str())
}

} // verus!
