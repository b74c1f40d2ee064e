use tenon::loader::error::LoaderErrorKind;
use tenon::loader::expand::expand_environment_variables_with;
use tenon::loader::load::Loader;
use tenon::loader::manifest::{
    AuthSpec, DeliveryModeSpec, EgressSpec, ExecutionSpec, InlineScriptSpec, ManifestResourceKind,
    MqttBrokerSpec, MqttSourceSpec, MqttSubscriptionSpec, ParsedDocument, PayloadDecodeSpec,
    PipelineSpec, ProcessSpec, ResourceDocument, ResourceMetadata, ResourceRef, ResourceSpec,
    ScriptRuntimeSpec,
};
use tenon::message::AuthKind;
use tenon::plan::{AccessMode, DeliveryMode, JsonPathSegmentKind, ResourceKind};

fn no_documents(_: String) -> Vec<ParsedDocument> {
    Vec::new()
}

#[test]
fn expands_environment_placeholders() {
    let expanded = expand_environment_variables_with("password: \"{{PASSWORD}}\"", |name| {
        Ok(format!("value-for-{name}"))
    })
    .expect("expanded manifest");
    assert_eq!(expanded, "password: \"value-for-PASSWORD\"");
}

#[test]
fn rejects_missing_environment_variables() {
    let error = expand_environment_variables_with("{{PASSWORD}}", |_| {
        Err("environment variable PASSWORD is not set".to_string())
    })
    .expect_err("missing environment variable");
    assert_eq!(error.kind, LoaderErrorKind::EnvironmentVariable);
    assert!(error.message.contains("PASSWORD is not set"));
}

#[test]
fn rejects_empty_environment_placeholders() {
    let error = expand_environment_variables_with("{{}}", |_| Ok("value".to_string()))
        .expect_err("empty environment placeholder");
    assert_eq!(error.kind, LoaderErrorKind::EnvironmentVariable);
}

#[test]
fn rejects_empty_manifest() {
    let err = Loader
        .load(" \n\t", |_| Ok(String::new()), no_documents)
        .expect_err("empty manifest");
    assert_eq!(err.kind, LoaderErrorKind::EmptyManifest);
}

#[test]
fn rejects_unterminated_placeholder() {
    let error = expand_environment_variables_with("a: {{NAME", |_| Ok("v".to_string()))
        .expect_err("unterminated placeholder");
    assert_eq!(error.kind, LoaderErrorKind::EnvironmentVariable);
    assert_eq!(error.message, "unterminated environment placeholder; expected `}}`");
}

#[test]
fn expands_several_placeholders_and_keeps_the_rest() {
    let expanded = expand_environment_variables_with("{{A}}-{{B}} and } {", |name| {
        Ok(name.to_lowercase())
    })
    .expect("expanded");
    assert_eq!(expanded, "a-b and } {");
}

#[test]
fn text_without_placeholders_is_unchanged() {
    let expanded =
        expand_environment_variables_with("kind: Pipeline", |_| Err("unused".to_string()))
            .expect("expanded");
    assert_eq!(expanded, "kind: Pipeline");
}

#[test]
fn placeholder_error_stops_loading() {
    let err = Loader
        .load("a: {{MISSING}}", |name| Err(format!("environment variable {name} is not set")), no_documents)
        .expect_err("missing variable");
    assert_eq!(err.kind, LoaderErrorKind::EnvironmentVariable);
    assert_eq!(err.message, "environment variable MISSING is not set");
}

#[test]
fn resource_kinds_and_delivery_modes() {
    assert_eq!(ResourceKind::MqttSource.name(), "MqttSource");
    assert_eq!(ResourceKind::Pipeline.name(), "Pipeline");
    assert_eq!(DeliveryMode::from(DeliveryModeSpec::Broadcast), DeliveryMode::Broadcast);
    assert_eq!(DeliveryMode::from(DeliveryModeSpec::Single), DeliveryMode::Single);
}

fn document(kind: ManifestResourceKind, name: &str, spec: ResourceSpec) -> ParsedDocument {
    ParsedDocument::Resource(ResourceDocument {
        api_version: "tenon.apache.org/v1alpha1".to_string(),
        kind,
        metadata: ResourceMetadata { name: name.to_string(), version: "v1".to_string() },
        spec,
    })
}

fn reference(kind: ManifestResourceKind, name: &str) -> ResourceRef {
    ResourceRef { kind: Some(kind), name: name.to_string(), version: "v1".to_string() }
}

fn sensor_documents(process_source: &str) -> Vec<ParsedDocument> {
    vec![
        document(
            ManifestResourceKind::MqttSource,
            "sensor-source",
            ResourceSpec::MqttSource(MqttSourceSpec {
                broker: MqttBrokerSpec { host: "127.0.0.1".to_string(), port: 1883 },
                client_count: 2,
                auth: Some(AuthSpec::Script {
                    script: InlineScriptSpec {
                        runtime: ScriptRuntimeSpec::Lua,
                        source: "function credentials(ctx) return { type = 'username-password', username = 'u', password = 'p' } end".to_string(),
                    },
                }),
                subscriptions: vec![MqttSubscriptionSpec {
                    topic: "sensors/+/data".to_string(),
                    decode: PayloadDecodeSpec::Json,
                }],
            }),
        ),
        ParsedDocument::Empty,
        document(
            ManifestResourceKind::Process,
            "sensor-process",
            ResourceSpec::Process(ProcessSpec { runtime: ScriptRuntimeSpec::Lua, source: process_source.to_string() }),
        ),
        document(
            ManifestResourceKind::Egress,
            "sensor-egress",
            ResourceSpec::Egress(EgressSpec { delivery: DeliveryModeSpec::Single }),
        ),
        document(
            ManifestResourceKind::Pipeline,
            "sensor-ingest",
            ResourceSpec::Pipeline(PipelineSpec {
                execution: ExecutionSpec { mode: "intra-proc".to_string() },
                source_refs: vec![reference(ManifestResourceKind::MqttSource, "sensor-source")],
                process_ref: reference(ManifestResourceKind::Process, "sensor-process"),
                egress_ref: reference(ManifestResourceKind::Egress, "sensor-egress"),
            }),
        ),
    ]
}

#[test]
fn loads_a_pipeline_built_from_documents() {
    let plan = Loader
        .load("kind: Pipeline", |_| Ok(String::new()), |_| sensor_documents("function on_message(ctx, msg) ctx.emit(msg.payload) end"))
        .expect("valid pipeline");
    let id = plan.id.as_ref().expect("plan id");
    assert_eq!(id.name, "sensor-ingest");
    assert_eq!(plan.sources.len(), 1);
    assert_eq!(plan.sources[0].client_count, 2);
    assert!(matches!(
        plan.sources[0].auth.as_ref().and_then(|a| a.kind.as_ref()),
        Some(AuthKind::Script { source, .. }) if source.contains("function credentials")
    ));
    let process = plan.process.as_ref().expect("process");
    assert!(process.source.contains("function on_message"));
    assert!(process.access_plan.is_some());
}

#[test]
fn process_script_without_on_message_is_refused() {
    let err = Loader
        .load("kind: Pipeline", |_| Ok(String::new()), |_| sensor_documents("function other(ctx, msg) end"))
        .expect_err("missing on_message");
    assert_eq!(err.kind, LoaderErrorKind::ScriptValidation);
}

#[test]
fn malformed_document_is_refused() {
    let err = Loader
        .load("x", |_| Ok(String::new()), |_| vec![ParsedDocument::Malformed("failed to parse YAML document: bad".to_string())])
        .expect_err("malformed");
    assert_eq!(err.kind, LoaderErrorKind::ManifestParsing);
    assert_eq!(err.message, "failed to parse YAML document: bad");
}

const SENSOR_CREDENTIALS: &str = "function credentials(ctx)\n  return { type = 'username-password', username = 'sensor', password = 'secret' }\nend\n";

const SENSOR_ON_MESSAGE: &str = r#"
function on_message(ctx, msg)
  local payload = msg.payload
  ctx.emit({
    source = msg.source.name,
    topic = msg.topic.raw,
    device = msg.topic.levels[2],
    temp = payload.temp,
    hum = payload.hum,
    qos = msg.metadata.qos
  })
end
"#;

fn script_source(name: &str) -> ParsedDocument {
    document(
        ManifestResourceKind::MqttSource,
        name,
        ResourceSpec::MqttSource(MqttSourceSpec {
            broker: MqttBrokerSpec { host: "127.0.0.1".to_string(), port: 1883 },
            client_count: 1,
            auth: Some(AuthSpec::Script {
                script: InlineScriptSpec { runtime: ScriptRuntimeSpec::Lua, source: SENSOR_CREDENTIALS.to_string() },
            }),
            subscriptions: vec![MqttSubscriptionSpec {
                topic: "sensors/+/data".to_string(),
                decode: PayloadDecodeSpec::Json,
            }],
        }),
    )
}

/// The documents of the sensor pipeline manifest: two script-authenticated
/// sources, a process, an egress and the pipeline `sensor-ingest`.
fn sensor_fixture(process_name: &str, process_source: &str) -> Vec<ParsedDocument> {
    vec![
        script_source("sensor-source-a"),
        script_source("sensor-source-b"),
        document(
            ManifestResourceKind::Process,
            process_name,
            ResourceSpec::Process(ProcessSpec { runtime: ScriptRuntimeSpec::Lua, source: process_source.to_string() }),
        ),
        document(
            ManifestResourceKind::Egress,
            "sensor-egress",
            ResourceSpec::Egress(EgressSpec { delivery: DeliveryModeSpec::Single }),
        ),
        document(
            ManifestResourceKind::Pipeline,
            "sensor-ingest",
            ResourceSpec::Pipeline(PipelineSpec {
                execution: ExecutionSpec { mode: "intra-proc".to_string() },
                source_refs: vec![
                    reference(ManifestResourceKind::MqttSource, "sensor-source-a"),
                    reference(ManifestResourceKind::MqttSource, "sensor-source-b"),
                ],
                process_ref: reference(ManifestResourceKind::Process, "sensor-process"),
                egress_ref: reference(ManifestResourceKind::Egress, "sensor-egress"),
            }),
        ),
    ]
}

fn load_fixture(process_name: &'static str, process_source: &'static str) -> Result<tenon::message::DeploymentPlan, tenon::loader::error::LoaderError> {
    Loader.load("kind: Pipeline", |_| Ok(String::new()), move |_| sensor_fixture(process_name, process_source))
}

#[test]
fn loads_sensor_pipeline_fixture() {
    let plan = load_fixture("sensor-process", SENSOR_ON_MESSAGE).expect("valid sensor pipeline");

    let id = plan.id.as_ref().expect("plan id");
    assert_eq!(id.name, "sensor-ingest");
    assert_eq!(plan.sources.len(), 2);
    for source in &plan.sources {
        let auth = source.auth.as_ref().and_then(|auth| auth.kind.as_ref()).expect("script auth");
        assert!(matches!(auth, AuthKind::Script { source, .. } if source.contains("function credentials")));
    }

    let process = plan.process.as_ref().expect("process plan");
    assert!(process.source.contains("function on_message"));
    let access = process.access_plan.as_ref().expect("access plan");

    let source = access.source.as_ref().expect("source access");
    assert_eq!(source.mode, AccessMode::Selective);
    assert!(source.name);
    assert!(!source.version);

    let topic = access.topic.as_ref().expect("topic access");
    assert_eq!(topic.mode, AccessMode::Selective);
    assert!(topic.raw);
    assert!(!topic.levels);
    assert_eq!(topic.level_indexes, vec![2]);

    let payload = access.payload.as_ref().expect("payload access");
    assert_eq!(payload.mode, AccessMode::Selective);
    let payload_paths = payload
        .paths
        .iter()
        .map(|path| {
            path.segments
                .iter()
                .map(|segment| match segment.kind.as_ref().expect("path segment") {
                    JsonPathSegmentKind::Field(field) => field.as_str(),
                    JsonPathSegmentKind::Index(_) => "<index>",
                })
                .collect::<Vec<_>>()
        })
        .collect::<Vec<_>>();
    assert_eq!(payload_paths, vec![vec!["hum"], vec!["temp"]]);

    let metadata = access.metadata.as_ref().expect("metadata access");
    assert_eq!(metadata.mode, AccessMode::Selective);
    assert!(metadata.qos);
    assert!(!metadata.pkid);
    assert!(!metadata.retain);
    assert!(!metadata.dup);

    let properties = access.properties.as_ref().expect("properties access");
    assert_eq!(properties.mode, AccessMode::NoAccess);

    assert!(plan.egress.is_some());
}

#[test]
fn rejects_missing_process_reference() {
    let error = load_fixture("other-process", SENSOR_ON_MESSAGE).expect_err("missing process");
    assert_eq!(error.kind, LoaderErrorKind::ReferenceResolution);
    assert!(error.message.contains("missing Process"));
}

#[test]
fn rejects_process_script_without_on_message() {
    let error = load_fixture("sensor-process", "function handle(ctx, msg)\n  ctx.emit(msg.payload)\nend\n")
        .expect_err("missing on_message");
    assert_eq!(error.kind, LoaderErrorKind::ScriptValidation);
    assert!(error.message.contains("on_message"));
}

#[test]
fn rejects_invalid_lua_extension_api_usage() {
    let error = load_fixture("sensor-process", "function on_message(ctx, msg)\n  ctx.emit({ device = msg.device })\nend\n")
        .expect_err("invalid Lua API usage");
    assert_eq!(error.kind, LoaderErrorKind::ScriptValidation);
    assert!(error.message.contains("invalid msg field: device"));
}
