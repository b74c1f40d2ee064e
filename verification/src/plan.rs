//! Deployment plans: what a loaded pipeline manifest resolves to, and what the
//! daemon stores and hands to workers.
use vstd::prelude::*;

verus! {

/// Kind of a pipeline resource.
#[derive(Debug, Clone, Copy, PartialEq, Eq, Structural)]
pub enum ResourceKind {
    MqttSource,
    Module,
    Egress,
    Process,
    Pipeline,
}

impl ResourceKind {
    pub open spec fn spec_name(self) -> Seq<char> {
        match self {
            ResourceKind::MqttSource => "MqttSource"@,
            ResourceKind::Module => "Module"@,
            ResourceKind::Egress => "Egress"@,
            ResourceKind::Process => "Process"@,
            ResourceKind::Pipeline => "Pipeline"@,
        }
    }

    /// The kind's name as manifests write it.
    pub fn name(&self) -> (r: &'static str)
        ensures
            r@ == self.spec_name(),
    {
        match self {
            ResourceKind::MqttSource => "MqttSource",
            ResourceKind::Module => "Module",
            ResourceKind::Egress => "Egress",
            ResourceKind::Process => "Process",
            ResourceKind::Pipeline => "Pipeline",
        }
    }
}

/// Identity of a resource: its kind, name and version.
#[derive(Debug, Clone, PartialEq, Eq)]
pub struct ResourceId {
    pub kind: ResourceKind,
    pub name: String,
    pub version: String,
}

/// How the stages of a pipeline are executed.
#[derive(Debug, Clone, Copy, PartialEq, Eq, Structural)]
pub enum ExecutionMode {
    IntraProc,
}

/// How a worker delivers emitted records to the egress.
#[derive(Debug, Clone, Copy, PartialEq, Eq, Structural)]
pub enum DeliveryMode {
    Single,
    Broadcast,
}

/// One MQTT source of a pipeline.
#[derive(Debug, Clone, PartialEq, Eq)]
pub struct MqttSourcePlan {
    pub id: ResourceId,
    pub broker: MqttBrokerPlan,
    pub auth: AuthPlan,
    pub subscriptions: Vec<MqttSubscriptionPlan>,
    pub client_count: u32,
}

/// Address of an MQTT broker.
#[derive(Debug, Clone, PartialEq, Eq)]
pub struct MqttBrokerPlan {
    pub host: String,
    pub port: u16,
}

/// How a source authenticates against its broker.
#[derive(Debug, Clone, PartialEq, Eq)]
pub enum AuthPlan {
    NoAuth,
    Static { username: String, password: String },
    Module { module: ModulePlan },
}

/// One topic subscription of a source.
#[derive(Debug, Clone, PartialEq, Eq)]
pub struct MqttSubscriptionPlan {
    pub topic: String,
    pub decode: PayloadDecodePlan,
}

/// How payloads of a subscription are decoded.
#[derive(Debug, Clone, Copy, PartialEq, Eq, Structural)]
pub enum PayloadDecodePlan {
    Json,
}

/// The processing stage of a pipeline: a script module and the message
/// fields that the script reads.
#[derive(Debug, Clone, PartialEq, Eq)]
pub struct ProcessPlan {
    pub id: ResourceId,
    pub module: ModulePlan,
    pub access_plan: MessageAccessPlan,
}

/// A script module.
#[derive(Debug, Clone, PartialEq, Eq)]
pub struct ModulePlan {
    pub id: ResourceId,
    pub runtime: ModuleRuntime,
    pub source: String,
}

/// Runtime that executes a script module.
#[derive(Debug, Clone, Copy, PartialEq, Eq, Structural)]
pub enum ModuleRuntime {
    Lua,
}

/// The egress stage of a pipeline.
#[derive(Debug, Clone, PartialEq, Eq)]
pub struct EgressPlan {
    pub id: ResourceId,
    pub delivery: DeliveryMode,
}

/// A fully resolved pipeline.
#[derive(Debug, Clone, PartialEq, Eq)]
pub struct DeploymentPlan {
    pub id: ResourceId,
    pub execution: ExecutionMode,
    pub sources: Vec<MqttSourcePlan>,
    pub process: ProcessPlan,
    pub egress: EgressPlan,
}

impl DeploymentPlan {
    pub fn new(
        id: ResourceId,
        execution: ExecutionMode,
        sources: Vec<MqttSourcePlan>,
        process: ProcessPlan,
        egress: EgressPlan,
    ) -> (r: Self)
        ensures
            r.id == id,
            r.execution == execution,
            r.sources == sources,
            r.process == process,
            r.egress == egress,
    {
        DeploymentPlan { id, execution, sources, process, egress }
    }
}

/// How much of one part of a message a script reads.
#[derive(Debug, Clone, Copy, PartialEq, Eq, Structural)]
pub enum AccessMode {
    NoAccess,
    Selective,
    Full,
}

/// Access to the message's source context.
#[derive(Debug, Clone, PartialEq, Eq)]
pub struct SourceAccess {
    pub mode: AccessMode,
    pub name: bool,
    pub version: bool,
}

/// Access to the message's topic.
#[derive(Debug, Clone, PartialEq, Eq)]
pub struct TopicAccess {
    pub mode: AccessMode,
    pub raw: bool,
    pub levels: bool,
    pub level_indexes: Vec<u32>,
}

/// One step of a path into the JSON payload.
#[derive(Debug, Clone, PartialEq, Eq)]
pub enum JsonPathSegmentKind {
    Field(String),
    Index(u32),
}

/// One step of a path into the JSON payload.
#[derive(Debug, Clone, PartialEq, Eq)]
pub struct JsonPathSegment {
    pub kind: Option<JsonPathSegmentKind>,
}

/// A path into the JSON payload.
#[derive(Debug, Clone, PartialEq, Eq)]
pub struct JsonPath {
    pub segments: Vec<JsonPathSegment>,
}

/// Access to the decoded JSON payload.
#[derive(Debug, Clone, PartialEq, Eq)]
pub struct JsonAccess {
    pub mode: AccessMode,
    pub paths: Vec<JsonPath>,
}

/// A range of bytes of the raw payload.
#[derive(Debug, Clone, Copy, PartialEq, Eq, Structural)]
pub struct ByteRange {
    pub offset: u32,
    pub length: u32,
}

/// Access to the raw payload bytes.
#[derive(Debug, Clone, PartialEq, Eq)]
pub struct RawPayloadAccess {
    pub mode: AccessMode,
    pub ranges: Vec<ByteRange>,
}

/// Access to the MQTT metadata.
#[derive(Debug, Clone, PartialEq, Eq)]
pub struct MetadataAccess {
    pub mode: AccessMode,
    pub pkid: bool,
    pub qos: bool,
    pub retain: bool,
    pub dup: bool,
}

/// Access to the MQTT user properties.
#[derive(Debug, Clone, PartialEq, Eq)]
pub struct PropertiesAccess {
    pub mode: AccessMode,
    pub keys: Vec<String>,
}

/// Which parts of a message a processing script reads.
#[derive(Debug, Clone, PartialEq, Eq)]
pub struct MessageAccessPlan {
    pub source: Option<SourceAccess>,
    pub topic: Option<TopicAccess>,
    pub payload: Option<JsonAccess>,
    pub raw_payload: Option<RawPayloadAccess>,
    pub metadata: Option<MetadataAccess>,
    pub properties: Option<PropertiesAccess>,
}

} // verus!
