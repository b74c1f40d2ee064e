//! Resource documents of a pipeline manifest: their validation and their
//! resolution into one deployment plan.
use vstd::prelude::*;
use crate::extension::{AUTH_CREDENTIALS_FN, PROCESS_ON_MESSAGE_FN};
use crate::loader::error::{load_fails_with, LoaderError, LoaderErrorKind};
use crate::loader::lua::{analyze_process_access_plan, extension_result, validate_extension_function};
use crate::message::{
    AuthKind, AuthPlan, DeploymentPlan, EgressPlan, MqttBrokerPlan, MqttSourcePlan,
    MqttSubscriptionPlan, ProcessPlan, ResourceId,
};
use crate::number::{dec, usize_to_string};
use crate::plan::{DeliveryMode, ExecutionMode, ModuleRuntime, PayloadDecodePlan, ResourceKind};
use crate::text::{concat, is_blank, str_eq, str_is_blank};

verus! {

/// The API version that every resource declares.
pub const API_VERSION: &'static str = "tenon.apache.org/v1alpha1";

/// The kinds of resources a manifest holds.
#[derive(Debug, Clone, Copy, PartialEq, Eq, Structural)]
pub enum ManifestResourceKind {
    MqttSource,
    Module,
    Egress,
    Process,
    Pipeline,
}

pub open spec fn kind_text(k: ManifestResourceKind) -> Seq<char> {
    match k {
        ManifestResourceKind::MqttSource => "MqttSource"@,
        ManifestResourceKind::Module => "Module"@,
        ManifestResourceKind::Egress => "Egress"@,
        ManifestResourceKind::Process => "Process"@,
        ManifestResourceKind::Pipeline => "Pipeline"@,
    }
}

impl ManifestResourceKind {
    /// The name of the kind, as manifests write it.
    pub fn name(self) -> (r: &'static str)
        ensures
            r@ == kind_text(self),
    {
        proof {
            reveal_strlit("MqttSource");
            reveal_strlit("Module");
            reveal_strlit("Egress");
            reveal_strlit("Process");
            reveal_strlit("Pipeline");
        }
        match self {
            ManifestResourceKind::MqttSource => "MqttSource",
            ManifestResourceKind::Module => "Module",
            ManifestResourceKind::Egress => "Egress",
            ManifestResourceKind::Process => "Process",
            ManifestResourceKind::Pipeline => "Pipeline",
        }
    }

    /// The kind of plan resource this kind of manifest resource becomes.
    pub fn into_plan_kind(self) -> (r: ResourceKind)
        ensures
            r == (match self {
                ManifestResourceKind::MqttSource => ResourceKind::MqttSource,
                ManifestResourceKind::Module => ResourceKind::Module,
                ManifestResourceKind::Egress => ResourceKind::Egress,
                ManifestResourceKind::Process => ResourceKind::Process,
                ManifestResourceKind::Pipeline => ResourceKind::Pipeline,
            }),
    {
        match self {
            ManifestResourceKind::MqttSource => ResourceKind::MqttSource,
            ManifestResourceKind::Module => ResourceKind::Module,
            ManifestResourceKind::Egress => ResourceKind::Egress,
            ManifestResourceKind::Process => ResourceKind::Process,
            ManifestResourceKind::Pipeline => ResourceKind::Pipeline,
        }
    }
}

#[derive(Debug, Clone, Copy, PartialEq, Eq, Structural)]
pub enum ScriptRuntimeSpec {
    Lua,
}

#[derive(Debug, Clone, Copy, PartialEq, Eq, Structural)]
pub enum PayloadDecodeSpec {
    Json,
}

#[derive(Debug, Clone, Copy, PartialEq, Eq, Structural)]
pub enum DeliveryModeSpec {
    Single,
    Broadcast,
}

impl From<DeliveryModeSpec> for DeliveryMode {
    fn from(value: DeliveryModeSpec) -> (r: DeliveryMode) {
        match value {
            DeliveryModeSpec::Single => DeliveryMode::Single,
            DeliveryModeSpec::Broadcast => DeliveryMode::Broadcast,
        }
    }
}

impl vstd::std_specs::convert::FromSpecImpl<DeliveryModeSpec> for DeliveryMode {
    open spec fn obeys_from_spec() -> bool {
        true
    }

    open spec fn from_spec(value: DeliveryModeSpec) -> DeliveryMode {
        match value {
            DeliveryModeSpec::Single => DeliveryMode::Single,
            DeliveryModeSpec::Broadcast => DeliveryMode::Broadcast,
        }
    }
}

#[derive(Debug, Clone)]
pub struct MqttBrokerSpec {
    pub host: String,
    pub port: u16,
}

#[derive(Debug, Clone)]
pub struct InlineScriptSpec {
    pub runtime: ScriptRuntimeSpec,
    pub source: String,
}

#[derive(Debug, Clone)]
pub enum AuthSpec {
    Static { username: String, password: String },
    Script { script: InlineScriptSpec },
}

#[derive(Debug, Clone)]
pub struct MqttSubscriptionSpec {
    pub topic: String,
    pub decode: PayloadDecodeSpec,
}

#[derive(Debug, Clone)]
pub struct MqttSourceSpec {
    pub broker: MqttBrokerSpec,
    pub client_count: u32,
    pub auth: Option<AuthSpec>,
    pub subscriptions: Vec<MqttSubscriptionSpec>,
}

#[derive(Debug, Clone)]
pub struct ModuleSpec {
    pub runtime: ScriptRuntimeSpec,
    pub source: String,
}

#[derive(Debug, Clone)]
pub struct EgressSpec {
    pub delivery: DeliveryModeSpec,
}

#[derive(Debug, Clone)]
pub struct ProcessSpec {
    pub runtime: ScriptRuntimeSpec,
    pub source: String,
}

#[derive(Debug, Clone)]
pub struct ExecutionSpec {
    pub mode: String,
}

/// A reference from a pipeline to another resource.
#[derive(Debug, Clone)]
pub struct ResourceRef {
    pub kind: Option<ManifestResourceKind>,
    pub name: String,
    pub version: String,
}

#[derive(Debug, Clone)]
pub struct PipelineSpec {
    pub execution: ExecutionSpec,
    pub source_refs: Vec<ResourceRef>,
    pub process_ref: ResourceRef,
    pub egress_ref: ResourceRef,
}

/// The spec of a resource, read according to its kind, or why it could not
/// be read.
#[derive(Debug, Clone)]
pub enum ResourceSpec {
    MqttSource(MqttSourceSpec),
    Module(ModuleSpec),
    Egress(EgressSpec),
    Process(ProcessSpec),
    Pipeline(PipelineSpec),
    Invalid(String),
}

#[derive(Debug, Clone)]
pub struct ResourceMetadata {
    pub name: String,
    pub version: String,
}

/// One resource of a manifest.
#[derive(Debug, Clone)]
pub struct ResourceDocument {
    pub api_version: String,
    pub kind: ManifestResourceKind,
    pub metadata: ResourceMetadata,
    pub spec: ResourceSpec,
}

/// One document of a manifest's YAML stream, as read.
#[derive(Debug, Clone)]
pub enum ParsedDocument {
    /// A document that holds nothing.
    Empty,
    /// A document that is not a resource, with the reason.
    Malformed(String),
    Resource(ResourceDocument),
}

// ----- errors -----

pub fn resource_error(message: String) -> (e: LoaderError)
    ensures
        e.kind == LoaderErrorKind::ResourceValidation,
        e.message@ == message@,
{
    LoaderError::new(LoaderErrorKind::ResourceValidation, message)
}

pub fn reference_error(message: String) -> (e: LoaderError)
    ensures
        e.kind == LoaderErrorKind::ReferenceResolution,
        e.message@ == message@,
{
    LoaderError::new(LoaderErrorKind::ReferenceResolution, message)
}

pub fn script_error(message: String) -> (e: LoaderError)
    ensures
        e.kind == LoaderErrorKind::ScriptValidation,
        e.message@ == message@,
{
    LoaderError::new(LoaderErrorKind::ScriptValidation, message)
}

/// A validation outcome: none, or the kind and message of the error.
pub open spec fn outcome<T>(r: Result<T, LoaderError>) -> Option<(LoaderErrorKind, Seq<char>)> {
    match r {
        Ok(_) => None,
        Err(e) => Some((e.kind, e.message@)),
    }
}

pub open spec fn must_not_be_empty(field: Seq<char>) -> Seq<char> {
    field + " must not be empty"@
}

/// The error for a blank `value` of `field`.
pub open spec fn blank_problem(field: Seq<char>, value: Seq<char>) -> Option<(LoaderErrorKind, Seq<char>)> {
    if is_blank(value) {
        Some((LoaderErrorKind::ResourceValidation, must_not_be_empty(field)))
    } else {
        None
    }
}

/// Fails if `value` is blank.
pub fn require_non_empty(field: &str, value: &str) -> (r: Result<(), LoaderError>)
    ensures
        outcome(r) == blank_problem(field@, value@),
{
    if str_is_blank(value) {
        return Err(resource_error(concat(field, " must not be empty")));
    }
    Ok(())
}

/// What checking script `source` of `field` for global function `name`
/// taking `arity` arguments gives: a blank source is refused; otherwise the
/// extension check of the script, its message after the field's name.
pub open spec fn script_check(field: Seq<char>, source: Seq<char>, name: Seq<char>, arity: nat, r: Result<(), LoaderError>) -> bool {
    if is_blank(source) {
        load_fails_with(r, LoaderErrorKind::ScriptValidation, must_not_be_empty(field))
    } else {
        exists|x: Result<(), String>| #[trigger] extension_result(source, name, arity, x) && match x {
            Ok(_) => r is Ok,
            Err(m) => load_fails_with(r, LoaderErrorKind::ScriptValidation, field + ": "@ + m@),
        }
    }
}

/// Fails if `source` is blank or does not define global function
/// `function_name` taking `arity` arguments and using the extension API
/// correctly; the error names `field`.
pub fn validate_lua_function(field: &str, source: &str, function_name: &str, arity: usize) -> (r: Result<(), LoaderError>)
    ensures
        script_check(field@, source@, function_name@, arity as nat, r),
{
    if str_is_blank(source) {
        return Err(script_error(concat(field, " must not be empty")));
    }
    let x = validate_extension_function(source, function_name, arity);
    let ghost xv = x;
    match x {
        Ok(()) => {
            let r: Result<(), LoaderError> = Ok(());
            assert(extension_result(source@, function_name@, arity as nat, xv));
            r
        },
        Err(e) => {
            let head = concat(field, ": ");
            let m = concat(head.as_str(), e.as_str());
            assert(m@ == field@ + ": "@ + e@);
            let r: Result<(), LoaderError> = Err(script_error(m));
            assert(extension_result(source@, function_name@, arity as nat, xv));
            r
        },
    }
}

// ----- specs -----

/// The first problem among the checks of an MQTT source that need no script.
pub open spec fn source_problem(s: MqttSourceSpec) -> Option<(LoaderErrorKind, Seq<char>)> {
    if is_blank(s.broker.host@) {
        Some((LoaderErrorKind::ResourceValidation, must_not_be_empty("broker.host"@)))
    } else if s.broker.port == 0 {
        Some((LoaderErrorKind::ResourceValidation, "broker.port must be greater than 0"@))
    } else if s.client_count == 0 {
        Some((LoaderErrorKind::ResourceValidation, "clientCount must be greater than 0"@))
    } else if s.subscriptions@.len() == 0 {
        Some((LoaderErrorKind::ResourceValidation, "MqttSource must declare at least one subscription"@))
    } else if exists|i: int| 0 <= i < s.subscriptions@.len() && is_blank(#[trigger] s.subscriptions@[i].topic@) {
        Some((LoaderErrorKind::ResourceValidation, must_not_be_empty("subscription.topic"@)))
    } else {
        match s.auth {
            Some(AuthSpec::Static { username, password }) => if is_blank(username@) {
                Some((LoaderErrorKind::ResourceValidation, must_not_be_empty("auth.username"@)))
            } else if is_blank(password@) {
                Some((LoaderErrorKind::ResourceValidation, must_not_be_empty("auth.password"@)))
            } else {
                None
            },
            _ => None,
        }
    }
}

/// An MQTT source that passes its check names a broker host and port,
/// runs at least one client, subscribes to at least one non-blank topic,
/// and, with static credentials, has a non-blank username and password.
pub proof fn law_accepted_source_is_complete(s: MqttSourceSpec, r: Result<(), LoaderError>)
    requires
        source_check(s, r),
        r is Ok,
    ensures
        !is_blank(s.broker.host@),
        s.broker.port != 0,
        s.client_count != 0,
        s.subscriptions@.len() > 0,
        forall|i: int| 0 <= i < s.subscriptions@.len() ==> !is_blank(#[trigger] s.subscriptions@[i].topic@),
        s.auth matches Some(AuthSpec::Static { username, password }) ==> !is_blank(username@) && !is_blank(password@),
{
}

/// What checking an MQTT source gives: its first problem, else the check of
/// its credentials script where it has one.
pub open spec fn source_check(s: MqttSourceSpec, r: Result<(), LoaderError>) -> bool {
    match source_problem(s) {
        Some(p) => outcome(r) == Some(p),
        None => match s.auth {
            Some(AuthSpec::Script { script }) => script_check("auth.script.source"@, script.source@, AUTH_CREDENTIALS_FN@, 1, r),
            _ => r is Ok,
        },
    }
}

impl MqttSourceSpec {
    /// Checks the broker, the client count, the subscriptions and the
    /// credentials, in that order.
    pub fn validate(&self) -> (r: Result<(), LoaderError>)
        ensures
            source_check(*self, r),
            r is Ok ==> (self.auth matches Some(AuthSpec::Static { username, password }) ==> !is_blank(username@) && !is_blank(password@)),
    {
        proof {
            reveal_strlit("broker.host");
            reveal_strlit("subscription.topic");
            reveal_strlit("auth.username");
            reveal_strlit("auth.password");
        }
        assert("subscription.topic"@ =~= seq!['s', 'u', 'b', 's', 'c', 'r', 'i', 'p', 't', 'i', 'o', 'n', '.', 't', 'o', 'p', 'i', 'c']);
        require_non_empty("broker.host", self.broker.host.as_str())?;
        if self.broker.port == 0 {
            return Err(resource_error("broker.port must be greater than 0".to_string()));
        }
        if self.client_count == 0 {
            return Err(resource_error("clientCount must be greater than 0".to_string()));
        }
        if self.subscriptions.len() == 0 {
            return Err(resource_error("MqttSource must declare at least one subscription".to_string()));
        }
        let mut i: usize = 0;
        while i < self.subscriptions.len()
            invariant
                i <= self.subscriptions@.len(),
                !is_blank(self.broker.host@),
                self.broker.port != 0,
                self.client_count != 0,
                self.subscriptions@.len() > 0,
                "subscription.topic"@ == seq!['s', 'u', 'b', 's', 'c', 'r', 'i', 'p', 't', 'i', 'o', 'n', '.', 't', 'o', 'p', 'i', 'c'],
                forall|j: int| 0 <= j < i ==> !is_blank(#[trigger] self.subscriptions@[j].topic@),
            decreases self.subscriptions@.len() - i,
        {
            match require_non_empty("subscription.topic", self.subscriptions[i].topic.as_str()) {
                Err(e) => {
                    return Err(e);
                },
                Ok(()) => {},
            }
            i = i + 1;
        }
        match &self.auth {
            Some(AuthSpec::Static { username, password }) => {
                require_non_empty("auth.username", username.as_str())?;
                require_non_empty("auth.password", password.as_str())
            },
            Some(AuthSpec::Script { script }) => {
                proof {
                    reveal_strlit("auth.script.source");
                }
                match script.runtime {
                    ScriptRuntimeSpec::Lua => validate_lua_function("auth.script.source", script.source.as_str(), AUTH_CREDENTIALS_FN, 1),
                }
            },
            None => Ok(()),
        }
    }
}

impl ProcessSpec {
    /// Checks the processing script.
    pub fn validate(&self) -> (r: Result<(), LoaderError>)
        ensures
            script_check("Process.spec.source"@, self.source@, PROCESS_ON_MESSAGE_FN@, 2, r),
    {
        proof {
            reveal_strlit("Process.spec.source");
        }
        match self.runtime {
            ScriptRuntimeSpec::Lua => {},
        }
        validate_lua_function("Process.spec.source", self.source.as_str(), PROCESS_ON_MESSAGE_FN, 2)
    }
}

impl ModuleSpec {
    /// Checks the module's script as a processing script.
    pub fn validate(&self) -> (r: Result<(), LoaderError>)
        ensures
            script_check("Module.spec.source"@, self.source@, PROCESS_ON_MESSAGE_FN@, 2, r),
    {
        proof {
            reveal_strlit("Module.spec.source");
        }
        match self.runtime {
            ScriptRuntimeSpec::Lua => {},
        }
        validate_lua_function("Module.spec.source", self.source.as_str(), PROCESS_ON_MESSAGE_FN, 2)
    }
}

impl EgressSpec {
    /// Every delivery mode is valid.
    pub fn validate(&self) -> (r: Result<(), LoaderError>)
        ensures
            r is Ok,
    {
        match self.delivery {
            DeliveryModeSpec::Single | DeliveryModeSpec::Broadcast => Ok(()),
        }
    }
}

/// `kind name/version`, or `name/version` without a kind.
pub open spec fn ref_text(r: ResourceRef) -> Seq<char> {
    match r.kind {
        Some(k) => kind_text(k) + " "@ + r.name@ + "/"@ + r.version@,
        None => r.name@ + "/"@ + r.version@,
    }
}

/// The problem of a reference in `field`.
pub open spec fn ref_problem(r: ResourceRef, field: Seq<char>) -> Option<(LoaderErrorKind, Seq<char>)> {
    if r.kind is None {
        Some((LoaderErrorKind::ResourceValidation, field + ".kind must not be empty"@))
    } else {
        blank_problem(field + ".name"@, r.name@)
    }
}

impl ResourceRef {
    /// Fails without a kind or with a blank name.
    pub fn validate(&self, field: &str) -> (r: Result<(), LoaderError>)
        ensures
            outcome(r) == ref_problem(*self, field@),
    {
        if self.kind.is_none() {
            return Err(resource_error(concat(field, ".kind must not be empty")));
        }
        let f = concat(field, ".name");
        require_non_empty(f.as_str(), self.name.as_str())
    }

    /// `kind name/version`, or `name/version` without a kind.
    pub fn display(&self) -> (r: String)
        ensures
            r@ == ref_text(*self),
    {
        let tail = {
            let a = concat(self.name.as_str(), "/");
            concat(a.as_str(), self.version.as_str())
        };
        match self.kind {
            Some(k) => {
                let a = concat(k.name(), " ");
                concat(a.as_str(), tail.as_str())
            },
            None => tail,
        }
    }
}

/// The first problem of the references of a pipeline.
pub open spec fn refs_problem(refs: Seq<ResourceRef>, n: int) -> Option<(LoaderErrorKind, Seq<char>)>
    decreases n,
{
    if n <= 0 {
        None
    } else {
        match refs_problem(refs, n - 1) {
            Some(p) => Some(p),
            None => ref_problem(refs[n - 1], "Pipeline.sourceRefs"@),
        }
    }
}

/// The first problem of a pipeline spec.
pub open spec fn pipeline_problem(p: PipelineSpec) -> Option<(LoaderErrorKind, Seq<char>)> {
    if p.execution.mode@ != "intra-proc"@ {
        Some((LoaderErrorKind::ResourceValidation, "unsupported execution mode "@ + p.execution.mode@))
    } else if p.source_refs@.len() == 0 {
        Some((LoaderErrorKind::ResourceValidation, "Pipeline must declare at least one sourceRef"@))
    } else {
        match refs_problem(p.source_refs@, p.source_refs@.len() as int) {
            Some(x) => Some(x),
            None => match ref_problem(p.process_ref, "Pipeline.processRef"@) {
                Some(x) => Some(x),
                None => ref_problem(p.egress_ref, "Pipeline.egressRef"@),
            },
        }
    }
}

impl PipelineSpec {
    /// Checks the execution mode and the references, in order.
    pub fn validate(&self) -> (r: Result<(), LoaderError>)
        ensures
            outcome(r) == pipeline_problem(*self),
    {
        proof {
            reveal_strlit("Pipeline.sourceRefs");
            reveal_strlit("Pipeline.processRef");
            reveal_strlit("Pipeline.egressRef");
        }
        assert("Pipeline.sourceRefs"@ =~= seq!['P', 'i', 'p', 'e', 'l', 'i', 'n', 'e', '.', 's', 'o', 'u', 'r', 'c', 'e', 'R', 'e', 'f', 's']);
        if !str_eq(self.execution.mode.as_str(), "intra-proc") {
            return Err(resource_error(concat("unsupported execution mode ", self.execution.mode.as_str())));
        }
        if self.source_refs.len() == 0 {
            return Err(resource_error("Pipeline must declare at least one sourceRef".to_string()));
        }
        let mut i: usize = 0;
        while i < self.source_refs.len()
            invariant
                i <= self.source_refs@.len(),
                self.execution.mode@ == "intra-proc"@,
                self.source_refs@.len() > 0,
                "Pipeline.sourceRefs"@ == seq!['P', 'i', 'p', 'e', 'l', 'i', 'n', 'e', '.', 's', 'o', 'u', 'r', 'c', 'e', 'R', 'e', 'f', 's'],
                refs_problem(self.source_refs@, i as int) is None,
            decreases self.source_refs@.len() - i,
        {
            match self.source_refs[i].validate("Pipeline.sourceRefs") {
                Err(e) => {
                    proof {
                        lemma_refs_problem_stays(self.source_refs@, i + 1, self.source_refs@.len() as int);
                    }
                    return Err(e);
                },
                Ok(()) => {},
            }
            i = i + 1;
        }
        self.process_ref.validate("Pipeline.processRef")?;
        self.egress_ref.validate("Pipeline.egressRef")?;
        Ok(())
    }
}

proof fn lemma_refs_problem_stays(refs: Seq<ResourceRef>, k: int, n: int)
    requires
        0 < k <= n,
        refs_problem(refs, k) is Some,
    ensures
        refs_problem(refs, n) == refs_problem(refs, k),
    decreases n - k,
{
    if k < n {
        lemma_refs_problem_stays(refs, k, n - 1);
    }
}

// ----- documents -----

/// `kind name/version` of a resource.
pub open spec fn display_text(d: ResourceDocument) -> Seq<char> {
    kind_text(d.kind) + " "@ + d.metadata.name@ + "/"@ + d.metadata.version@
}

pub open spec fn invalid_spec_message(d: ResourceDocument, reason: Seq<char>) -> Seq<char> {
    "invalid spec for "@ + display_text(d) + ": "@ + reason
}

/// Why a spec of one kind cannot stand for a resource of another.
pub open spec fn mismatch_reason() -> Seq<char> {
    "spec does not match the resource kind"@
}

/// Whether the spec of `d` is of `d`'s kind.
pub open spec fn spec_fits(d: ResourceDocument) -> bool {
    match (d.kind, d.spec) {
        (ManifestResourceKind::MqttSource, ResourceSpec::MqttSource(_)) => true,
        (ManifestResourceKind::Module, ResourceSpec::Module(_)) => true,
        (ManifestResourceKind::Egress, ResourceSpec::Egress(_)) => true,
        (ManifestResourceKind::Process, ResourceSpec::Process(_)) => true,
        (ManifestResourceKind::Pipeline, ResourceSpec::Pipeline(_)) => true,
        _ => false,
    }
}

/// The error for a spec that could not be read or is of another kind.
pub open spec fn spec_read_problem(d: ResourceDocument) -> Option<(LoaderErrorKind, Seq<char>)> {
    match d.spec {
        ResourceSpec::Invalid(e) => Some((LoaderErrorKind::ResourceValidation, invalid_spec_message(d, e@))),
        _ => if spec_fits(d) {
            None
        } else {
            Some((LoaderErrorKind::ResourceValidation, invalid_spec_message(d, mismatch_reason())))
        },
    }
}

/// The first problem of a resource's header.
pub open spec fn header_problem(d: ResourceDocument) -> Option<(LoaderErrorKind, Seq<char>)> {
    if d.api_version@ != API_VERSION@ {
        Some((LoaderErrorKind::ResourceValidation, "unsupported apiVersion "@ + d.api_version@ + " for "@ + display_text(d)))
    } else if is_blank(d.metadata.name@) {
        Some((LoaderErrorKind::ResourceValidation, must_not_be_empty("metadata.name"@)))
    } else if is_blank(d.metadata.version@) {
        Some((LoaderErrorKind::ResourceValidation, must_not_be_empty("metadata.version"@)))
    } else {
        None
    }
}

/// What checking the spec of `d` gives: a spec that could not be read or
/// is of another kind is refused; otherwise the check of its kind.
pub open spec fn spec_check(d: ResourceDocument, r: Result<(), LoaderError>) -> bool {
    match spec_read_problem(d) {
        Some(p) => outcome(r) == Some(p),
        None => match d.spec {
            ResourceSpec::MqttSource(s) => source_check(s, r),
            ResourceSpec::Module(m) => script_check("Module.spec.source"@, m.source@, PROCESS_ON_MESSAGE_FN@, 2, r),
            ResourceSpec::Process(p) => script_check("Process.spec.source"@, p.source@, PROCESS_ON_MESSAGE_FN@, 2, r),
            ResourceSpec::Pipeline(p) => outcome(r) == pipeline_problem(p),
            ResourceSpec::Egress(_) => r is Ok,
            ResourceSpec::Invalid(_) => false,
        },
    }
}

/// What checking resource `d` gives: its header's first problem, else the
/// check of its spec.
pub open spec fn resource_check(d: ResourceDocument, r: Result<(), LoaderError>) -> bool {
    match header_problem(d) {
        Some(p) => outcome(r) == Some(p),
        None => spec_check(d, r),
    }
}

impl ResourceDocument {
    /// `kind name/version`.
    pub fn display_name(&self) -> (r: String)
        ensures
            r@ == display_text(*self),
    {
        let a = concat(self.kind.name(), " ");
        let b = concat(a.as_str(), self.metadata.name.as_str());
        let c = concat(b.as_str(), "/");
        concat(c.as_str(), self.metadata.version.as_str())
    }

    /// The id of this resource in a plan.
    pub fn id(&self) -> (r: ResourceId)
        ensures
            r.name@ == self.metadata.name@,
            r.version@ == self.metadata.version@,
    {
        ResourceId { name: self.metadata.name.clone(), version: self.metadata.version.clone() }
    }

    fn spec_error(&self, reason: &str) -> (e: LoaderError)
        ensures
            e.kind == LoaderErrorKind::ResourceValidation,
            e.message@ == invalid_spec_message(*self, reason@),
    {
        let head = concat("invalid spec for ", self.display_name().as_str());
        let a = concat(head.as_str(), ": ");
        resource_error(concat(a.as_str(), reason))
    }

    fn mismatch_error(&self) -> (e: LoaderError)
        ensures
            e.kind == LoaderErrorKind::ResourceValidation,
            e.message@ == invalid_spec_message(*self, mismatch_reason()),
    {
        proof {
            reveal_strlit("spec does not match the resource kind");
        }
        self.spec_error("spec does not match the resource kind")
    }

    /// Checks the API version, the name, the version and the spec.
    pub fn validate(&self) -> (r: Result<(), LoaderError>)
        ensures
            resource_check(*self, r),
    {
        proof {
            reveal_strlit("metadata.name");
            reveal_strlit("metadata.version");
        }
        if !str_eq(self.api_version.as_str(), API_VERSION) {
            let a = concat("unsupported apiVersion ", self.api_version.as_str());
            let b = concat(a.as_str(), " for ");
            return Err(resource_error(concat(b.as_str(), self.display_name().as_str())));
        }
        require_non_empty("metadata.name", self.metadata.name.as_str())?;
        require_non_empty("metadata.version", self.metadata.version.as_str())?;
        validate_spec(self)
    }
}

/// Checks the spec of `resource` as its kind demands.
pub fn validate_spec(resource: &ResourceDocument) -> (r: Result<(), LoaderError>)
    ensures
        spec_check(*resource, r),
{
    match (&resource.spec, resource.kind) {
        (ResourceSpec::Invalid(e), _) => Err(resource.spec_error(e.as_str())),
        (ResourceSpec::MqttSource(s), ManifestResourceKind::MqttSource) => s.validate(),
        (ResourceSpec::Module(s), ManifestResourceKind::Module) => s.validate(),
        (ResourceSpec::Egress(s), ManifestResourceKind::Egress) => s.validate(),
        (ResourceSpec::Process(s), ManifestResourceKind::Process) => s.validate(),
        (ResourceSpec::Pipeline(s), ManifestResourceKind::Pipeline) => s.validate(),
        _ => Err(resource.mismatch_error()),
    }
}

/// Whether the documents before `n` that are read all parse and validate;
/// `outs` are those kept.
pub open spec fn kept_resources(docs: Seq<ParsedDocument>) -> Seq<ResourceDocument>
    decreases docs.len(),
{
    if docs.len() == 0 {
        seq![]
    } else {
        let rest = kept_resources(docs.drop_last());
        match docs.last() {
            ParsedDocument::Resource(d) => rest.push(d),
            _ => rest,
        }
    }
}

pub open spec fn no_resources_message() -> Seq<char> {
    "pipeline manifest does not contain Tenon resources"@
}

/// A document that reading the manifest goes past: an empty one, or a
/// resource whose check passes.
pub open spec fn doc_passes(d: ParsedDocument) -> bool {
    match d {
        ParsedDocument::Empty => true,
        ParsedDocument::Malformed(_) => false,
        ParsedDocument::Resource(x) => resource_check(x, Ok::<(), LoaderError>(())),
    }
}

/// A document that stops reading the manifest with `e`: a malformed one, or
/// a resource whose check fails with `e`.
pub open spec fn doc_fails_with(d: ParsedDocument, e: LoaderError) -> bool {
    match d {
        ParsedDocument::Empty => false,
        ParsedDocument::Malformed(m) => e.kind == LoaderErrorKind::ManifestParsing && e.message@ == m@,
        ParsedDocument::Resource(x) => resource_check(x, Err::<(), LoaderError>(e)),
    }
}

/// Every document before `n` passes.
pub open spec fn docs_pass(docs: Seq<ParsedDocument>, n: int) -> bool {
    forall|j: int| 0 <= j < n ==> #[trigger] doc_passes(docs[j])
}

/// What reading the documents of a manifest gives: the first document that
/// fails stops it with its error; where all pass, the resources in order, or
/// an error where there are none.
pub open spec fn documents_read(docs: Seq<ParsedDocument>, r: Result<Vec<ResourceDocument>, LoaderError>) -> bool {
    match r {
        Ok(v) => docs_pass(docs, docs.len() as int) && v@ == kept_resources(docs) && v@.len() > 0,
        Err(e) => (exists|i: int| 0 <= i < docs.len() && docs_pass(docs, i) && #[trigger] doc_fails_with(docs[i], e))
            || (docs_pass(docs, docs.len() as int) && kept_resources(docs).len() == 0
                && e.kind == LoaderErrorKind::EmptyManifest && e.message@ == no_resources_message()),
    }
}

/// Validates the documents of a manifest in order, skipping empty ones; a
/// malformed or invalid document fails the whole manifest, and so does one
/// without resources.
pub fn parse_resource_documents(documents: Vec<ParsedDocument>) -> (r: Result<Vec<ResourceDocument>, LoaderError>)
    ensures
        documents_read(documents@, r),
{
    let ghost all = documents@;
    let mut rest = documents;
    let mut resources: Vec<ResourceDocument> = Vec::new();
    let ghost mut i: int = 0;
    while rest.len() > 0
        invariant
            all == documents@,
            0 <= i <= all.len(),
            rest@ == all.skip(i),
            resources@ == kept_resources(all.take(i)),
            docs_pass(all, i),
        decreases rest@.len(),
    {
        let doc = rest.remove(0);
        assert(doc == all[i]);
        assert(all.take(i + 1).drop_last() =~= all.take(i));
        match doc {
            ParsedDocument::Empty => {},
            ParsedDocument::Malformed(m) => {
                let e = LoaderError::new(LoaderErrorKind::ManifestParsing, m);
                assert(doc_fails_with(all[i], e));
                return Err(e);
            },
            ParsedDocument::Resource(resource) => {
                let v = resource.validate();
                match v {
                    Err(e) => {
                        assert(doc_fails_with(all[i], e));
                        return Err(e);
                    },
                    Ok(()) => {
                        assert(doc_passes(all[i]));
                    },
                }
                resources.push(resource);
            },
        }
        proof {
            i = i + 1;
        }
    }
    assert(all.take(i) =~= all);
    if resources.len() == 0 {
        return Err(LoaderError::new(LoaderErrorKind::EmptyManifest, "pipeline manifest does not contain Tenon resources".to_string()));
    }
    Ok(resources)
}

} // verus!
