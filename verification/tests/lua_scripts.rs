use tenon::extension::{AUTH_CREDENTIALS_FN, PROCESS_ON_MESSAGE_FN};
use tenon::loader::env::{StaticType, StaticValue};
use tenon::loader::lua::{
    analyze_node, analyze_process_access_plan, find_global_function, new_type_env,
    validate_extension_function,
};
use tenon::loader::syntax::parse_lua;
use tenon::plan::{AccessMode, JsonPath, JsonPathSegmentKind};

fn path_fields(path: &JsonPath) -> Vec<&str> {
    path.segments
        .iter()
        .map(|segment| match segment.kind.as_ref().expect("path segment") {
            JsonPathSegmentKind::Field(field) => field.as_str(),
            JsonPathSegmentKind::Index(_) => "<index>",
        })
        .collect()
}

#[test]
fn validates_named_extension_functions() {
    validate_extension_function(
        "function credentials(ctx) return { type = 'username-password', username = 'u', password = 'p' } end",
        AUTH_CREDENTIALS_FN,
        1,
    )
    .expect("auth function");

    validate_extension_function(
        "function on_message(ctx, msg) ctx.emit(msg.payload) end",
        PROCESS_ON_MESSAGE_FN,
        2,
    )
    .expect("process function");
}

#[test]
fn validates_credentials_username_password_shape() {
    validate_extension_function(
        r#"
function credentials(ctx)
  return {
type = "username-password",
username = "dev",
password = "dev"
  }
end
"#,
        AUTH_CREDENTIALS_FN,
        1,
    )
    .expect("username/password credentials");
}

#[test]
fn validates_credentials_client_certificate_shape() {
    validate_extension_function(
        r#"
function credentials(ctx)
  return {
type = "client-certificate",
cert_path = "/etc/tenon/certs/client.crt",
key_path = "/etc/tenon/certs/client.key",
ca_path = "/etc/tenon/certs/ca.crt"
  }
end
"#,
        AUTH_CREDENTIALS_FN,
        1,
    )
    .expect("client certificate credentials");
}

#[test]
fn validates_credentials_custom_dynamic_shape() {
    validate_extension_function(
        r#"
function credentials(ctx)
  local ts = "1770000000"
  local signature = "sig-" .. ts
  return {
type = "custom",
username = "device",
password = signature,
properties = {
  timestamp = ts,
  signature = signature
}
  }
end
"#,
        AUTH_CREDENTIALS_FN,
        1,
    )
    .expect("custom dynamic credentials");
}

#[test]
fn validates_assigned_extension_function() {
    validate_extension_function(
        "on_message = function(ctx, msg) ctx.emit(msg.payload) end",
        PROCESS_ON_MESSAGE_FN,
        2,
    )
    .expect("assigned process function");
}

#[test]
fn rejects_local_extension_function() {
    let error = validate_extension_function(
        "local function on_message(ctx, msg) end",
        PROCESS_ON_MESSAGE_FN,
        2,
    )
    .expect_err("local function is not global extension entry");
    assert!(error.contains(PROCESS_ON_MESSAGE_FN));
}

#[test]
fn rejects_invalid_lua_source() {
    let error = validate_extension_function("function on_message(ctx, msg)", PROCESS_ON_MESSAGE_FN, 2)
        .expect_err("syntax error");
    assert!(error.contains("syntax error"));
}

#[test]
fn rejects_missing_extension_function() {
    let error = validate_extension_function("function other(ctx, msg) end", PROCESS_ON_MESSAGE_FN, 2)
        .expect_err("missing function");
    assert!(error.contains(PROCESS_ON_MESSAGE_FN));
}

#[test]
fn rejects_wrong_extension_arity() {
    let error = validate_extension_function("function on_message(ctx) end", PROCESS_ON_MESSAGE_FN, 2)
        .expect_err("wrong arity");
    assert!(error.contains("expects 2 args"));
}

#[test]
fn validates_ctx_msg_usage_with_aliases() {
    validate_extension_function(
        r#"
function on_message(c, m)
  local memory = c.memory
  local payload = m.payload
  local topic = m.topic
  local source = m.source
  local metadata = m.metadata
  local properties = m.properties
  local temp = payload.temp
  local first = topic[1]
  local raw = topic.raw
  local name = source.name
  local qos = metadata.qos
  local prop = properties["x"]
  memory.set("last", temp)
  c.emit({ temp = temp, first = first, raw = raw, name = name, qos = qos, prop = prop })
end
"#,
        PROCESS_ON_MESSAGE_FN,
        2,
    )
    .expect("valid Tenon extension usage");
}

#[test]
fn propagates_literal_constants_for_static_bracket_access() {
    let source = r#"
function on_message(ctx, msg)
  local payload = msg.payload
  local key = "temp"
  local topic = msg.topic
  local index = 2
  local temp = payload[key]
  local device = topic[index]
  ctx.emit({ temp = temp, device = device })
end
"#;
    let tree = parse_lua(source).expect("tree");
    let function = find_global_function(&tree, PROCESS_ON_MESSAGE_FN)
        .expect("function");
    let mut env = new_type_env(function, 2, true).expect("env");
    analyze_node(function, &mut env).expect("analysis");

    assert!(matches!(env.value("key"), StaticValue::String(ref s) if s == "temp"));
    assert!(matches!(env.value("index"), StaticValue::Int(2)));
    assert_eq!(env.get("temp"), StaticType::JsonValue);
    assert_eq!(env.get("device"), StaticType::JsonValue);
}

#[test]
fn keeps_runtime_dependent_bracket_access_dynamic() {
    let source = r#"
function on_message(ctx, msg)
  local payload = msg.payload
  local key = ctx.memory.get("field")
  local temp = payload[key]
  ctx.emit({ temp = temp })
end
"#;
    let tree = parse_lua(source).expect("tree");
    let function = find_global_function(&tree, PROCESS_ON_MESSAGE_FN)
        .expect("function");
    let mut env = new_type_env(function, 2, true).expect("env");
    analyze_node(function, &mut env).expect("analysis");

    assert!(matches!(env.value("key"), StaticValue::Unknown));
    assert_eq!(env.get("temp"), StaticType::JsonValue);
}

#[test]
fn generates_static_message_access_plan() {
    let plan = analyze_process_access_plan(
        r#"
function on_message(ctx, msg)
  local payload = msg.payload
  local key = "temp"
  local level = 2
  local raw_index = 1
  ctx.emit({
source = msg.source.version,
topic = msg.topic.raw,
device = msg.topic.levels[level],
temp = payload[key],
first = payload.values[1],
byte = msg.raw_payload[raw_index],
dup = msg.metadata.dup,
site = msg.properties["site"]
  })
end
"#,
    )
    .expect("access plan");

    let source = plan.source.as_ref().expect("source access");
    assert_eq!(source.mode, AccessMode::Selective);
    assert!(!source.name);
    assert!(source.version);

    let topic = plan.topic.as_ref().expect("topic access");
    assert_eq!(topic.mode, AccessMode::Selective);
    assert!(topic.raw);
    assert_eq!(topic.level_indexes, vec![2]);

    let payload = plan.payload.as_ref().expect("payload access");
    assert_eq!(payload.mode, AccessMode::Selective);
    let paths = payload.paths.iter().map(path_fields).collect::<Vec<_>>();
    assert_eq!(paths, vec![vec!["temp"], vec!["values"], vec!["values", "<index>"]]);

    let raw_payload = plan.raw_payload.as_ref().expect("raw payload access");
    assert_eq!(raw_payload.mode, AccessMode::Selective);
    assert_eq!(raw_payload.ranges.len(), 1);
    assert_eq!(raw_payload.ranges[0].offset, 0);
    assert_eq!(raw_payload.ranges[0].length, 1);

    let metadata = plan.metadata.as_ref().expect("metadata access");
    assert_eq!(metadata.mode, AccessMode::Selective);
    assert!(metadata.dup);
    assert!(!metadata.qos);

    let properties = plan.properties.as_ref().expect("properties access");
    assert_eq!(properties.mode, AccessMode::Selective);
    assert_eq!(properties.keys, vec!["site"]);
}

#[test]
fn marks_dynamic_message_access_as_full() {
    let plan = analyze_process_access_plan(
        r#"
function on_message(ctx, msg)
  local key = ctx.memory.get("field")
  ctx.emit({
payload = msg.payload[key],
raw = msg.raw_payload[key],
prop = msg.properties[key],
level = msg.topic.levels[key]
  })
end
"#,
    )
    .expect("access plan");

    assert_eq!(
        plan.payload.as_ref().expect("payload access").mode,
        AccessMode::Full
    );
    assert_eq!(
        plan.raw_payload.as_ref().expect("raw payload access").mode,
        AccessMode::Full
    );
    assert_eq!(
        plan.properties.as_ref().expect("properties access").mode,
        AccessMode::Full
    );
    let topic = plan.topic.as_ref().expect("topic access");
    assert_eq!(topic.mode, AccessMode::Selective);
    assert!(topic.levels);
    assert!(topic.level_indexes.is_empty());
}

#[test]
fn rejects_invalid_ctx_field_after_aliasing() {
    let error = validate_extension_function(
        r#"
function on_message(ctx, msg)
  local a = ctx
  local x = a.device
end
"#,
        PROCESS_ON_MESSAGE_FN,
        2,
    )
    .expect_err("invalid ctx field");
    assert!(error.contains("invalid ctx field: device"));
}

#[test]
fn rejects_invalid_msg_field_after_aliasing() {
    let error = validate_extension_function(
        r#"
function on_message(ctx, msg)
  local m = msg
  local x = m.device
end
"#,
        PROCESS_ON_MESSAGE_FN,
        2,
    )
    .expect_err("invalid msg field");
    assert!(error.contains("invalid msg field: device"));
}

#[test]
fn rejects_invalid_memory_method() {
    let error = validate_extension_function(
        r#"
function on_message(ctx, msg)
  local m = ctx.memory
  m:put("a", "b")
end
"#,
        PROCESS_ON_MESSAGE_FN,
        2,
    )
    .expect_err("invalid memory method");
    assert!(error.contains("invalid memory method: put"));
}

#[test]
fn rejects_wrong_emit_arity() {
    let error = validate_extension_function(
        "function on_message(ctx, msg) ctx.emit('a', msg.payload) end",
        PROCESS_ON_MESSAGE_FN,
        2,
    )
    .expect_err("wrong emit arity");
    assert!(error.contains("ctx.emit expects 1 arg"));
}

#[test]
fn rejects_on_message_return() {
    let error = validate_extension_function(
        "function on_message(ctx, msg) return { temp = msg.payload.temp } end",
        PROCESS_ON_MESSAGE_FN,
        2,
    )
    .expect_err("on_message return");
    assert!(error.contains("on_message must not return"));
}

#[test]
fn rejects_global_assignment() {
    let error = validate_extension_function(
        "function on_message(ctx, msg) count = 1 end ",
        PROCESS_ON_MESSAGE_FN,
        2,
    )
    .expect_err("global assignment");
    assert!(error.contains("global assignment is not allowed: count"));
}

#[test]
fn rejects_obvious_non_object_emit_payload() {
    let error = validate_extension_function(
        "function on_message(ctx, msg) ctx.emit({1, 2, 3}) end",
        PROCESS_ON_MESSAGE_FN,
        2,
    )
    .expect_err("non-object emit payload");
    assert!(error.contains("ctx.emit payload must be a JSON object"));
}

#[test]
fn parsed_root_fills_no_field() {
    let tree = parse_lua("local x = 1\n").expect("tree");
    assert!(tree.field.is_none());
    assert_eq!(tree.kind, "chunk");
    assert!(!tree.has_error);
}
