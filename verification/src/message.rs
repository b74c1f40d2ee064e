//! Deployment plans as the daemon stores them and hands them to workers,
//! with their models, deep copies and comparisons.
use vstd::prelude::*;
use crate::loader::access::{json_segment_view, SegModel};
use crate::plan::{
    AccessMode, ByteRange, ExecutionMode, JsonAccess, JsonPath, JsonPathSegment,
    JsonPathSegmentKind, MessageAccessPlan, MetadataAccess, ModuleRuntime, PayloadDecodePlan,
    PropertiesAccess, RawPayloadAccess, SourceAccess, TopicAccess,
};
use crate::text::str_eq;

verus! {

/// A pipeline revision: its name and version.
#[derive(Debug, Clone, PartialEq, Eq)]
pub struct ResourceId {
    pub name: String,
    pub version: String,
}

#[derive(Debug, Clone, PartialEq, Eq)]
pub struct MqttBrokerPlan {
    pub host: String,
    pub port: u32,
}

#[derive(Debug, Clone, PartialEq, Eq)]
pub enum AuthKind {
    NoAuth,
    UsernamePassword { username: String, password: String },
    Script { runtime: ModuleRuntime, source: String },
}

#[derive(Debug, Clone, PartialEq, Eq)]
pub struct AuthPlan {
    pub kind: Option<AuthKind>,
}

#[derive(Debug, Clone, PartialEq, Eq)]
pub struct MqttSubscriptionPlan {
    pub topic: String,
    pub decode: PayloadDecodePlan,
}

#[derive(Debug, Clone, PartialEq, Eq)]
pub struct MqttSourcePlan {
    pub broker: Option<MqttBrokerPlan>,
    pub auth: Option<AuthPlan>,
    pub subscriptions: Vec<MqttSubscriptionPlan>,
    pub client_count: u32,
}

#[derive(Debug, Clone, PartialEq, Eq)]
pub struct ProcessPlan {
    pub runtime: ModuleRuntime,
    pub source: String,
    pub access_plan: Option<MessageAccessPlan>,
}

#[derive(Debug, Clone, Copy, PartialEq, Eq, Structural)]
pub struct EgressPlan {}

/// A deployment plan as stored: every part is optional until checked.
#[derive(Debug, Clone, PartialEq, Eq)]
pub struct DeploymentPlan {
    pub id: Option<ResourceId>,
    pub execution: ExecutionMode,
    pub sources: Vec<MqttSourcePlan>,
    pub process: Option<ProcessPlan>,
    pub egress: Option<EgressPlan>,
}

/// The client ids of one source of a deployment.
#[derive(Debug, Clone, PartialEq, Eq)]
pub struct MqttSourceClientIds {
    pub source_index: u32,
    pub client_ids: Vec<String>,
}

/// The client ids stored for one source.
#[derive(Debug, Clone, PartialEq, Eq)]
pub struct MqttClientIds {
    pub client_ids: Vec<String>,
}

// ----- models -----

pub struct IdView {
    pub name: Seq<char>,
    pub version: Seq<char>,
}

impl View for ResourceId {
    type V = IdView;

    open spec fn view(&self) -> IdView {
        IdView { name: self.name@, version: self.version@ }
    }
}

pub enum AuthView {
    NoAuth,
    UsernamePassword(Seq<char>, Seq<char>),
    Script(ModuleRuntime, Seq<char>),
}

pub open spec fn auth_view(a: AuthPlan) -> Option<AuthView> {
    match a.kind {
        Some(AuthKind::NoAuth) => Some(AuthView::NoAuth),
        Some(AuthKind::UsernamePassword { username, password }) => Some(AuthView::UsernamePassword(username@, password@)),
        Some(AuthKind::Script { runtime, source }) => Some(AuthView::Script(runtime, source@)),
        None => None,
    }
}

pub struct SourceView {
    pub broker: Option<(Seq<char>, u32)>,
    pub auth: Option<Option<AuthView>>,
    pub subscriptions: Seq<(Seq<char>, PayloadDecodePlan)>,
    pub client_count: u32,
}

pub open spec fn subscriptions_view(s: Seq<MqttSubscriptionPlan>) -> Seq<(Seq<char>, PayloadDecodePlan)> {
    s.map_values(|x: MqttSubscriptionPlan| (x.topic@, x.decode))
}

impl View for MqttSourcePlan {
    type V = SourceView;

    open spec fn view(&self) -> SourceView {
        SourceView {
            broker: match self.broker {
                Some(b) => Some((b.host@, b.port)),
                None => None,
            },
            auth: match self.auth {
                Some(a) => Some(auth_view(a)),
                None => None,
            },
            subscriptions: subscriptions_view(self.subscriptions@),
            client_count: self.client_count,
        }
    }
}

pub open spec fn sources_view(s: Seq<MqttSourcePlan>) -> Seq<SourceView> {
    s.map_values(|x: MqttSourcePlan| x@)
}

/// Model of a message access plan.
pub struct AccessView {
    pub source: Option<(AccessMode, bool, bool)>,
    pub topic: Option<(AccessMode, bool, bool, Seq<u32>)>,
    pub payload: Option<(AccessMode, Seq<Seq<Option<SegModel>>>)>,
    pub raw_payload: Option<(AccessMode, Seq<ByteRange>)>,
    pub metadata: Option<(AccessMode, bool, bool, bool, bool)>,
    pub properties: Option<(AccessMode, Seq<Seq<char>>)>,
}

pub open spec fn segments_view(p: JsonPath) -> Seq<Option<SegModel>> {
    p.segments@.map_values(|s: JsonPathSegment| json_segment_view(s))
}

pub open spec fn json_paths_view(p: Seq<JsonPath>) -> Seq<Seq<Option<SegModel>>> {
    p.map_values(|q: JsonPath| segments_view(q))
}

pub open spec fn strings_view(p: Seq<String>) -> Seq<Seq<char>> {
    p.map_values(|k: String| k@)
}

pub open spec fn access_view(a: MessageAccessPlan) -> AccessView {
    AccessView {
        source: match a.source {
            Some(s) => Some((s.mode, s.name, s.version)),
            None => None,
        },
        topic: match a.topic {
            Some(t) => Some((t.mode, t.raw, t.levels, t.level_indexes@)),
            None => None,
        },
        payload: match a.payload {
            Some(p) => Some((p.mode, json_paths_view(p.paths@))),
            None => None,
        },
        raw_payload: match a.raw_payload {
            Some(w) => Some((w.mode, w.ranges@)),
            None => None,
        },
        metadata: match a.metadata {
            Some(m) => Some((m.mode, m.pkid, m.qos, m.retain, m.dup)),
            None => None,
        },
        properties: match a.properties {
            Some(k) => Some((k.mode, strings_view(k.keys@))),
            None => None,
        },
    }
}

pub struct ProcessView {
    pub runtime: ModuleRuntime,
    pub source: Seq<char>,
    pub access_plan: Option<AccessView>,
}

impl View for ProcessPlan {
    type V = ProcessView;

    open spec fn view(&self) -> ProcessView {
        ProcessView {
            runtime: self.runtime,
            source: self.source@,
            access_plan: match self.access_plan {
                Some(a) => Some(access_view(a)),
                None => None,
            },
        }
    }
}

pub struct PlanView {
    pub id: Option<IdView>,
    pub execution: ExecutionMode,
    pub sources: Seq<SourceView>,
    pub process: Option<ProcessView>,
    pub egress: Option<EgressPlan>,
}

impl View for DeploymentPlan {
    type V = PlanView;

    open spec fn view(&self) -> PlanView {
        PlanView {
            id: match self.id {
                Some(i) => Some(i@),
                None => None,
            },
            execution: self.execution,
            sources: sources_view(self.sources@),
            process: match self.process {
                Some(p) => Some(p@),
                None => None,
            },
            egress: self.egress,
        }
    }
}

impl View for MqttSourceClientIds {
    type V = (u32, Seq<Seq<char>>);

    open spec fn view(&self) -> (u32, Seq<Seq<char>>) {
        (self.source_index, strings_view(self.client_ids@))
    }
}

impl View for MqttClientIds {
    type V = Seq<Seq<char>>;

    open spec fn view(&self) -> Seq<Seq<char>> {
        strings_view(self.client_ids@)
    }
}

// ----- copies -----

pub fn copy_strings(v: &Vec<String>) -> (r: Vec<String>)
    ensures
        strings_view(r@) == strings_view(v@),
{
    let mut r: Vec<String> = Vec::new();
    let mut i: usize = 0;
    while i < v.len()
        invariant
            i <= v@.len(),
            r@.len() == i,
            forall|j: int| 0 <= j < i ==> r@[j]@ == v@[j]@,
        decreases v@.len() - i,
    {
        r.push(v[i].clone());
        i = i + 1;
    }
    assert(strings_view(r@) =~= strings_view(v@));
    r
}

fn copy_u32s(v: &Vec<u32>) -> (r: Vec<u32>)
    ensures
        r@ == v@,
{
    let mut r: Vec<u32> = Vec::new();
    let mut i: usize = 0;
    while i < v.len()
        invariant
            i <= v@.len(),
            r@ == v@.take(i as int),
        decreases v@.len() - i,
    {
        r.push(v[i]);
        i = i + 1;
        assert(r@ =~= v@.take(i as int));
    }
    assert(v@.take(i as int) =~= v@);
    r
}

fn copy_ranges(v: &Vec<ByteRange>) -> (r: Vec<ByteRange>)
    ensures
        r@ == v@,
{
    let mut r: Vec<ByteRange> = Vec::new();
    let mut i: usize = 0;
    while i < v.len()
        invariant
            i <= v@.len(),
            r@ == v@.take(i as int),
        decreases v@.len() - i,
    {
        r.push(v[i]);
        i = i + 1;
        assert(r@ =~= v@.take(i as int));
    }
    assert(v@.take(i as int) =~= v@);
    r
}

fn copy_segment(s: &JsonPathSegment) -> (r: JsonPathSegment)
    ensures
        json_segment_view(r) == json_segment_view(*s),
{
    match &s.kind {
        Some(JsonPathSegmentKind::Field(f)) => JsonPathSegment { kind: Some(JsonPathSegmentKind::Field(f.clone())) },
        Some(JsonPathSegmentKind::Index(i)) => JsonPathSegment { kind: Some(JsonPathSegmentKind::Index(*i)) },
        None => JsonPathSegment { kind: None },
    }
}

fn copy_json_path(p: &JsonPath) -> (r: JsonPath)
    ensures
        segments_view(r) == segments_view(*p),
{
    let mut segs: Vec<JsonPathSegment> = Vec::new();
    let mut i: usize = 0;
    while i < p.segments.len()
        invariant
            i <= p.segments@.len(),
            segs@.len() == i,
            forall|j: int| 0 <= j < i ==> json_segment_view(segs@[j]) == json_segment_view(p.segments@[j]),
        decreases p.segments@.len() - i,
    {
        segs.push(copy_segment(&p.segments[i]));
        i = i + 1;
    }
    let r = JsonPath { segments: segs };
    assert(segments_view(r) =~= segments_view(*p));
    r
}

fn copy_json_paths(v: &Vec<JsonPath>) -> (r: Vec<JsonPath>)
    ensures
        json_paths_view(r@) == json_paths_view(v@),
{
    let mut r: Vec<JsonPath> = Vec::new();
    let mut i: usize = 0;
    while i < v.len()
        invariant
            i <= v@.len(),
            r@.len() == i,
            forall|j: int| 0 <= j < i ==> segments_view(r@[j]) == segments_view(v@[j]),
        decreases v@.len() - i,
    {
        r.push(copy_json_path(&v[i]));
        i = i + 1;
    }
    assert(json_paths_view(r@) =~= json_paths_view(v@));
    r
}

/// A copy of an access plan.
pub fn copy_access_plan(a: &MessageAccessPlan) -> (r: MessageAccessPlan)
    ensures
        access_view(r) == access_view(*a),
{
    let source = match &a.source {
        Some(s) => Some(SourceAccess { mode: s.mode, name: s.name, version: s.version }),
        None => None,
    };
    let topic = match &a.topic {
        Some(t) => Some(TopicAccess { mode: t.mode, raw: t.raw, levels: t.levels, level_indexes: copy_u32s(&t.level_indexes) }),
        None => None,
    };
    let payload = match &a.payload {
        Some(p) => Some(JsonAccess { mode: p.mode, paths: copy_json_paths(&p.paths) }),
        None => None,
    };
    let raw_payload = match &a.raw_payload {
        Some(w) => Some(RawPayloadAccess { mode: w.mode, ranges: copy_ranges(&w.ranges) }),
        None => None,
    };
    let metadata = match &a.metadata {
        Some(m) => Some(MetadataAccess { mode: m.mode, pkid: m.pkid, qos: m.qos, retain: m.retain, dup: m.dup }),
        None => None,
    };
    let properties = match &a.properties {
        Some(k) => Some(PropertiesAccess { mode: k.mode, keys: copy_strings(&k.keys) }),
        None => None,
    };
    MessageAccessPlan { source, topic, payload, raw_payload, metadata, properties }
}

impl ResourceId {
    /// A copy of this id.
    pub fn copy(&self) -> (r: ResourceId)
        ensures
            r@ == self@,
    {
        ResourceId { name: self.name.clone(), version: self.version.clone() }
    }
}

fn copy_auth(a: &AuthPlan) -> (r: AuthPlan)
    ensures
        auth_view(r) == auth_view(*a),
{
    match &a.kind {
        Some(AuthKind::NoAuth) => AuthPlan { kind: Some(AuthKind::NoAuth) },
        Some(AuthKind::UsernamePassword { username, password }) => AuthPlan {
            kind: Some(AuthKind::UsernamePassword { username: username.clone(), password: password.clone() }),
        },
        Some(AuthKind::Script { runtime, source }) => AuthPlan {
            kind: Some(AuthKind::Script { runtime: *runtime, source: source.clone() }),
        },
        None => AuthPlan { kind: None },
    }
}

fn copy_subscriptions(v: &Vec<MqttSubscriptionPlan>) -> (r: Vec<MqttSubscriptionPlan>)
    ensures
        subscriptions_view(r@) == subscriptions_view(v@),
{
    let mut r: Vec<MqttSubscriptionPlan> = Vec::new();
    let mut i: usize = 0;
    while i < v.len()
        invariant
            i <= v@.len(),
            r@.len() == i,
            forall|j: int| 0 <= j < i ==> r@[j].topic@ == v@[j].topic@ && r@[j].decode == v@[j].decode,
        decreases v@.len() - i,
    {
        r.push(MqttSubscriptionPlan { topic: v[i].topic.clone(), decode: v[i].decode });
        i = i + 1;
    }
    assert(subscriptions_view(r@) =~= subscriptions_view(v@));
    r
}

impl MqttSourcePlan {
    /// A copy of this source.
    pub fn copy(&self) -> (r: MqttSourcePlan)
        ensures
            r@ == self@,
    {
        let broker = match &self.broker {
            Some(b) => Some(MqttBrokerPlan { host: b.host.clone(), port: b.port }),
            None => None,
        };
        let auth = match &self.auth {
            Some(a) => Some(copy_auth(a)),
            None => None,
        };
        MqttSourcePlan {
            broker,
            auth,
            subscriptions: copy_subscriptions(&self.subscriptions),
            client_count: self.client_count,
        }
    }
}

impl ProcessPlan {
    /// A copy of this process.
    pub fn copy(&self) -> (r: ProcessPlan)
        ensures
            r@ == self@,
    {
        let access_plan = match &self.access_plan {
            Some(a) => Some(copy_access_plan(a)),
            None => None,
        };
        ProcessPlan { runtime: self.runtime, source: self.source.clone(), access_plan }
    }
}

impl DeploymentPlan {
    /// A copy of this plan.
    pub fn copy(&self) -> (r: DeploymentPlan)
        ensures
            r@ == self@,
    {
        let id = match &self.id {
            Some(i) => Some(i.copy()),
            None => None,
        };
        let mut sources: Vec<MqttSourcePlan> = Vec::new();
        let mut i: usize = 0;
        while i < self.sources.len()
            invariant
                i <= self.sources@.len(),
                sources@.len() == i,
                forall|j: int| 0 <= j < i ==> sources@[j]@ == self.sources@[j]@,
            decreases self.sources@.len() - i,
        {
            sources.push(self.sources[i].copy());
            i = i + 1;
        }
        assert(sources_view(sources@) =~= sources_view(self.sources@));
        let process = match &self.process {
            Some(p) => Some(p.copy()),
            None => None,
        };
        DeploymentPlan { id, execution: self.execution, sources, process, egress: self.egress }
    }
}

// ----- comparisons -----

fn eq_u32s(a: &Vec<u32>, b: &Vec<u32>) -> (r: bool)
    ensures
        r == (a@ == b@),
{
    if a.len() != b.len() {
        return false;
    }
    let mut i: usize = 0;
    while i < a.len()
        invariant
            a@.len() == b@.len(),
            i <= a@.len(),
            forall|j: int| 0 <= j < i ==> a@[j] == b@[j],
        decreases a@.len() - i,
    {
        if a[i] != b[i] {
            return false;
        }
        i = i + 1;
    }
    assert(a@ =~= b@);
    true
}

fn eq_ranges(a: &Vec<ByteRange>, b: &Vec<ByteRange>) -> (r: bool)
    ensures
        r == (a@ == b@),
{
    if a.len() != b.len() {
        return false;
    }
    let mut i: usize = 0;
    while i < a.len()
        invariant
            a@.len() == b@.len(),
            i <= a@.len(),
            forall|j: int| 0 <= j < i ==> a@[j] == b@[j],
        decreases a@.len() - i,
    {
        if a[i].offset != b[i].offset || a[i].length != b[i].length {
            return false;
        }
        i = i + 1;
    }
    assert(a@ =~= b@);
    true
}

/// Whether two lists of strings are equal.
pub fn eq_strings(a: &Vec<String>, b: &Vec<String>) -> (r: bool)
    ensures
        r == (strings_view(a@) == strings_view(b@)),
{
    if a.len() != b.len() {
        return false;
    }
    let mut i: usize = 0;
    while i < a.len()
        invariant
            a@.len() == b@.len(),
            i <= a@.len(),
            forall|j: int| 0 <= j < i ==> a@[j]@ == b@[j]@,
        decreases a@.len() - i,
    {
        if !str_eq(a[i].as_str(), b[i].as_str()) {
            assert(strings_view(a@)[i as int] != strings_view(b@)[i as int]);
            return false;
        }
        i = i + 1;
    }
    assert(strings_view(a@) =~= strings_view(b@));
    true
}

fn eq_segment(a: &JsonPathSegment, b: &JsonPathSegment) -> (r: bool)
    ensures
        r == (json_segment_view(*a) == json_segment_view(*b)),
{
    match (&a.kind, &b.kind) {
        (Some(JsonPathSegmentKind::Field(x)), Some(JsonPathSegmentKind::Field(y))) => str_eq(x.as_str(), y.as_str()),
        (Some(JsonPathSegmentKind::Index(x)), Some(JsonPathSegmentKind::Index(y))) => *x == *y,
        (None, None) => true,
        _ => false,
    }
}

fn eq_json_path(a: &JsonPath, b: &JsonPath) -> (r: bool)
    ensures
        r == (segments_view(*a) == segments_view(*b)),
{
    if a.segments.len() != b.segments.len() {
        assert(segments_view(*a).len() != segments_view(*b).len());
        return false;
    }
    let mut i: usize = 0;
    while i < a.segments.len()
        invariant
            a.segments@.len() == b.segments@.len(),
            i <= a.segments@.len(),
            forall|j: int| 0 <= j < i ==> json_segment_view(a.segments@[j]) == json_segment_view(b.segments@[j]),
        decreases a.segments@.len() - i,
    {
        if !eq_segment(&a.segments[i], &b.segments[i]) {
            assert(segments_view(*a)[i as int] != segments_view(*b)[i as int]);
            return false;
        }
        i = i + 1;
    }
    assert(segments_view(*a) =~= segments_view(*b));
    true
}

fn eq_json_paths(a: &Vec<JsonPath>, b: &Vec<JsonPath>) -> (r: bool)
    ensures
        r == (json_paths_view(a@) == json_paths_view(b@)),
{
    if a.len() != b.len() {
        assert(json_paths_view(a@).len() != json_paths_view(b@).len());
        return false;
    }
    let mut i: usize = 0;
    while i < a.len()
        invariant
            a@.len() == b@.len(),
            i <= a@.len(),
            forall|j: int| 0 <= j < i ==> segments_view(a@[j]) == segments_view(b@[j]),
        decreases a@.len() - i,
    {
        if !eq_json_path(&a[i], &b[i]) {
            assert(json_paths_view(a@)[i as int] != json_paths_view(b@)[i as int]);
            return false;
        }
        i = i + 1;
    }
    assert(json_paths_view(a@) =~= json_paths_view(b@));
    true
}

/// Whether two access plans are equal.
pub fn eq_access_plan(a: &MessageAccessPlan, b: &MessageAccessPlan) -> (r: bool)
    ensures
        r == (access_view(*a) == access_view(*b)),
{
    let source = match (&a.source, &b.source) {
        (Some(x), Some(y)) => x.mode == y.mode && x.name == y.name && x.version == y.version,
        (None, None) => true,
        _ => false,
    };
    let topic = match (&a.topic, &b.topic) {
        (Some(x), Some(y)) => x.mode == y.mode && x.raw == y.raw && x.levels == y.levels && eq_u32s(&x.level_indexes, &y.level_indexes),
        (None, None) => true,
        _ => false,
    };
    let payload = match (&a.payload, &b.payload) {
        (Some(x), Some(y)) => x.mode == y.mode && eq_json_paths(&x.paths, &y.paths),
        (None, None) => true,
        _ => false,
    };
    let raw_payload = match (&a.raw_payload, &b.raw_payload) {
        (Some(x), Some(y)) => x.mode == y.mode && eq_ranges(&x.ranges, &y.ranges),
        (None, None) => true,
        _ => false,
    };
    let metadata = match (&a.metadata, &b.metadata) {
        (Some(x), Some(y)) => x.mode == y.mode && x.pkid == y.pkid && x.qos == y.qos && x.retain == y.retain && x.dup == y.dup,
        (None, None) => true,
        _ => false,
    };
    let properties = match (&a.properties, &b.properties) {
        (Some(x), Some(y)) => x.mode == y.mode && eq_strings(&x.keys, &y.keys),
        (None, None) => true,
        _ => false,
    };
    source && topic && payload && raw_payload && metadata && properties
}

fn eq_auth(a: &AuthPlan, b: &AuthPlan) -> (r: bool)
    ensures
        r == (auth_view(*a) == auth_view(*b)),
{
    match (&a.kind, &b.kind) {
        (Some(AuthKind::NoAuth), Some(AuthKind::NoAuth)) => true,
        (
            Some(AuthKind::UsernamePassword { username: u1, password: p1 }),
            Some(AuthKind::UsernamePassword { username: u2, password: p2 }),
        ) => str_eq(u1.as_str(), u2.as_str()) && str_eq(p1.as_str(), p2.as_str()),
        (Some(AuthKind::Script { runtime: r1, source: s1 }), Some(AuthKind::Script { runtime: r2, source: s2 })) =>
            *r1 == *r2 && str_eq(s1.as_str(), s2.as_str()),
        (None, None) => true,
        _ => false,
    }
}

fn eq_subscriptions(a: &Vec<MqttSubscriptionPlan>, b: &Vec<MqttSubscriptionPlan>) -> (r: bool)
    ensures
        r == (subscriptions_view(a@) == subscriptions_view(b@)),
{
    if a.len() != b.len() {
        assert(subscriptions_view(a@).len() != subscriptions_view(b@).len());
        return false;
    }
    let mut i: usize = 0;
    while i < a.len()
        invariant
            a@.len() == b@.len(),
            i <= a@.len(),
            forall|j: int| 0 <= j < i ==> a@[j].topic@ == b@[j].topic@ && a@[j].decode == b@[j].decode,
        decreases a@.len() - i,
    {
        if !str_eq(a[i].topic.as_str(), b[i].topic.as_str()) || a[i].decode != b[i].decode {
            assert(subscriptions_view(a@)[i as int] != subscriptions_view(b@)[i as int]);
            return false;
        }
        i = i + 1;
    }
    assert(subscriptions_view(a@) =~= subscriptions_view(b@));
    true
}

impl MqttSourcePlan {
    /// Whether two sources are equal.
    pub fn same_as(&self, other: &MqttSourcePlan) -> (r: bool)
        ensures
            r == (self@ == other@),
    {
        let broker = match (&self.broker, &other.broker) {
            (Some(x), Some(y)) => str_eq(x.host.as_str(), y.host.as_str()) && x.port == y.port,
            (None, None) => true,
            _ => false,
        };
        let auth = match (&self.auth, &other.auth) {
            (Some(x), Some(y)) => eq_auth(x, y),
            (None, None) => true,
            _ => false,
        };
        broker && auth && eq_subscriptions(&self.subscriptions, &other.subscriptions)
            && self.client_count == other.client_count
    }
}

/// Whether two lists of sources are equal.
pub fn eq_sources(a: &Vec<MqttSourcePlan>, b: &Vec<MqttSourcePlan>) -> (r: bool)
    ensures
        r == (sources_view(a@) == sources_view(b@)),
{
    if a.len() != b.len() {
        assert(sources_view(a@).len() != sources_view(b@).len());
        return false;
    }
    let mut i: usize = 0;
    while i < a.len()
        invariant
            a@.len() == b@.len(),
            i <= a@.len(),
            forall|j: int| 0 <= j < i ==> a@[j]@ == b@[j]@,
        decreases a@.len() - i,
    {
        if !a[i].same_as(&b[i]) {
            assert(sources_view(a@)[i as int] != sources_view(b@)[i as int]);
            return false;
        }
        i = i + 1;
    }
    assert(sources_view(a@) =~= sources_view(b@));
    true
}

impl ProcessPlan {
    /// Whether two processes are equal.
    pub fn same_as(&self, other: &ProcessPlan) -> (r: bool)
        ensures
            r == (self@ == other@),
    {
        let access = match (&self.access_plan, &other.access_plan) {
            (Some(x), Some(y)) => eq_access_plan(x, y),
            (None, None) => true,
            _ => false,
        };
        self.runtime == other.runtime && str_eq(self.source.as_str(), other.source.as_str()) && access
    }
}

} // verus!
