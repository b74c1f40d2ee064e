use serde_json::Value;
use tenon::extension::{ExtensionErrorKind, MqttMetadata, SourceContext, Topic};
use tenon::invocation::{Context, EmitBuffer, EmitRecord, ExtensionValue, MemoryView, Message};

fn value(text: &str) -> ExtensionValue {
    ExtensionValue { json: Value::String(text.to_string()) }
}

fn source() -> SourceContext {
    SourceContext::new("sensor".to_string(), "v1".to_string())
}

#[test]
fn memory_reads_back_what_was_set() {
    let mut memory = MemoryView::new();
    assert_eq!(memory.get("k").unwrap(), None);
    memory.set("k".to_string(), value("a")).unwrap();
    assert_eq!(memory.get("k").unwrap(), Some(value("a")));
    memory.set("k".to_string(), value("b")).unwrap();
    assert_eq!(memory.get("k").unwrap(), Some(value("b")));
    memory.delete("k").unwrap();
    assert_eq!(memory.get("k").unwrap(), None);
    assert_eq!(memory.values().len(), 0);
}

#[test]
fn memory_refuses_empty_keys() {
    let mut memory = MemoryView::new();
    let err = memory.set(String::new(), value("x")).unwrap_err();
    assert_eq!(err.kind, ExtensionErrorKind::InvalidArgument);
    assert_eq!(err.message, "memory key is empty");
    assert_eq!(memory.delete("").unwrap_err().message, "memory key is empty");
}

#[test]
fn context_collects_emits_and_drains_them() {
    let mut ctx = Context::with_empty_memory(source());
    ctx.emit(value("one")).unwrap();
    ctx.emit(value("two")).unwrap();
    assert_eq!(ctx.emitter().records().len(), 2);
    let outcome = ctx.drain_outcome();
    assert_eq!(outcome.emits, vec![EmitRecord::new(value("one")), EmitRecord::new(value("two"))]);
    assert!(ctx.emitter().records().is_empty());
    ctx.memory_set("count".to_string(), ExtensionValue { json: Value::from(3) }).unwrap();
    assert_eq!(ctx.memory_get("count").unwrap(), Some(ExtensionValue { json: Value::from(3) }));
    ctx.memory_delete("count").unwrap();
    assert_eq!(ctx.memory().get("count").unwrap(), None);
    ctx.memory_mut().set("m".to_string(), value("v")).unwrap();
    ctx.emitter_mut().emit(EmitRecord::new(value("three"))).unwrap();
    assert_eq!(ctx.source().name, "sensor");
    let (s, memory, emitter) = ctx.into_parts();
    assert_eq!(s, source());
    assert_eq!(memory.get("m").unwrap(), Some(value("v")));
    assert_eq!(emitter.into_records().len(), 1);
}

#[test]
fn context_outcome_keeps_emit_order() {
    let mut buffer = EmitBuffer::new();
    buffer.emit(EmitRecord::new(value("a"))).unwrap();
    let mut ctx = Context::new(source(), MemoryView::new(), buffer);
    ctx.emit(value("b")).unwrap();
    let outcome = ctx.into_outcome();
    assert_eq!(outcome.emits, vec![EmitRecord::new(value("a")), EmitRecord::new(value("b"))]);
}

#[test]
fn message_keeps_its_parts() {
    let m = Message::new(
        source(),
        Topic::new("a/b".to_string()),
        value("p"),
        b"p".to_vec(),
        MqttMetadata::new(1, 1, false, false),
        vec![("k".to_string(), "v".to_string())],
    );
    assert_eq!(m.topic.levels, vec!["a".to_string(), "b".to_string()]);
    assert_eq!(m.properties.len(), 1);
    assert_eq!(m.payload, value("p"));
}
