//! What a script invocation sees and leaves behind: the message it runs
//! on, the memory it reads and writes, and the records it emits.
use vstd::prelude::*;
use crate::extension::{ExtensionError, ExtensionErrorKind, MqttMetadata, SourceContext, Topic};
use crate::table::Table;

verus! {

#[verifier::external_type_specification]
#[verifier::external_body]
pub struct ExJsonValue(serde_json::Value);

/// A JSON value that scripts read and produce.
#[derive(Debug, PartialEq)]
pub struct ExtensionValue {
    pub json: serde_json::Value,
}

impl View for ExtensionValue {
    type V = ExtensionValue;

    open spec fn view(&self) -> ExtensionValue {
        *self
    }
}

/// `serde_json::Value::clone`: a copy of the value. The copy is the same
/// JSON value; the contract states it as equality of the two values.
#[verifier::external_body]
fn copy_value(v: &ExtensionValue) -> (r: ExtensionValue)
    ensures
        r == *v,
{
    ExtensionValue { json: v.json.clone() }
}

/// Whether `r` is the refusal of an empty memory key.
pub open spec fn empty_key_refusal<T>(r: Result<T, ExtensionError>) -> bool {
    r matches Err(e) && e.kind == ExtensionErrorKind::InvalidArgument && e.message@ == "memory key is empty"@
}

/// The values a script keeps between invocations, by key.
#[derive(Debug)]
pub struct MemoryView {
    values: Table<ExtensionValue>,
}

impl View for MemoryView {
    type V = Map<Seq<char>, ExtensionValue>;

    closed spec fn view(&self) -> Map<Seq<char>, ExtensionValue> {
        self.values@
    }
}

impl MemoryView {
    /// An empty memory.
    pub fn new() -> (r: Self)
        ensures
            r@ == Map::<Seq<char>, ExtensionValue>::empty(),
    {
        MemoryView { values: Table::new() }
    }

    /// The stored values.
    pub fn values(&self) -> (r: &Table<ExtensionValue>)
        ensures
            r@ == self@,
    {
        &self.values
    }

    /// The value under `key`, if any.
    pub fn get(&self, key: &str) -> (r: Result<Option<ExtensionValue>, ExtensionError>)
        ensures
            r == Ok::<Option<ExtensionValue>, ExtensionError>(
                if self@.contains_key(key@) { Some(self@[key@]) } else { None },
            ),
    {
        match self.values.get(key) {
            Some(v) => Ok(Some(copy_value(v))),
            None => Ok(None),
        }
    }

    /// Stores `value` under `key`; an empty key is refused.
    pub fn set(&mut self, key: String, value: ExtensionValue) -> (r: Result<(), ExtensionError>)
        ensures
            key@.len() == 0 ==> empty_key_refusal(r) && final(self)@ == old(self)@,
            key@.len() > 0 ==> r is Ok && final(self)@ == old(self)@.insert(key@, value),
    {
        if key.as_str().is_empty() {
            return Err(ExtensionError::invalid_argument("memory key is empty".to_string()));
        }
        let ghost k = key@;
        let ghost v = value;
        self.values.insert(key, value);
        Ok(())
    }

    /// Forgets the value under `key`; an empty key is refused.
    pub fn delete(&mut self, key: &str) -> (r: Result<(), ExtensionError>)
        ensures
            key@.len() == 0 ==> empty_key_refusal(r) && final(self)@ == old(self)@,
            key@.len() > 0 ==> r is Ok && final(self)@ == old(self)@.remove(key@),
    {
        if key.is_empty() {
            return Err(ExtensionError::invalid_argument("memory key is empty".to_string()));
        }
        self.values.remove(key);
        Ok(())
    }
}

/// One record that a script emitted.
#[derive(Debug, PartialEq)]
pub struct EmitRecord {
    pub payload: ExtensionValue,
}

impl EmitRecord {
    pub fn new(payload: ExtensionValue) -> (r: Self)
        ensures
            r.payload == payload,
    {
        EmitRecord { payload }
    }
}

/// The records emitted so far, in order.
#[derive(Debug, PartialEq)]
pub struct EmitBuffer {
    records: Vec<EmitRecord>,
}

impl View for EmitBuffer {
    type V = Seq<EmitRecord>;

    closed spec fn view(&self) -> Seq<EmitRecord> {
        self.records@
    }
}

impl EmitBuffer {
    /// An empty buffer.
    pub fn new() -> (r: Self)
        ensures
            r@ == Seq::<EmitRecord>::empty(),
    {
        EmitBuffer { records: Vec::new() }
    }

    pub fn records(&self) -> (r: &[EmitRecord])
        ensures
            r@ == self@,
    {
        self.records.as_slice()
    }

    pub fn into_records(self) -> (r: Vec<EmitRecord>)
        ensures
            r@ == self@,
    {
        self.records
    }

    /// Appends a record.
    pub fn emit(&mut self, record: EmitRecord) -> (r: Result<(), ExtensionError>)
        ensures
            r is Ok,
            final(self)@ == old(self)@.push(record),
    {
        self.records.push(record);
        Ok(())
    }
}

/// What one invocation produced.
#[derive(Debug, PartialEq)]
pub struct InvocationOutcome {
    pub emits: Vec<EmitRecord>,
}

/// What a script's `ctx` holds: where it runs, its memory and its emitted
/// records.
#[derive(Debug)]
pub struct Context {
    source: SourceContext,
    memory: MemoryView,
    emitter: EmitBuffer,
}

impl Context {
    pub closed spec fn spec_source(&self) -> SourceContext {
        self.source
    }

    pub closed spec fn spec_memory(&self) -> Map<Seq<char>, ExtensionValue> {
        self.memory@
    }

    pub closed spec fn spec_emitted(&self) -> Seq<EmitRecord> {
        self.emitter@
    }

    pub fn new(source: SourceContext, memory: MemoryView, emitter: EmitBuffer) -> (r: Self)
        ensures
            r.spec_source() == source,
            r.spec_memory() == memory@,
            r.spec_emitted() == emitter@,
    {
        Context { source, memory, emitter }
    }

    /// A context with an empty memory and nothing emitted.
    pub fn with_empty_memory(source: SourceContext) -> (r: Self)
        ensures
            r.spec_source() == source,
            r.spec_memory() == Map::<Seq<char>, ExtensionValue>::empty(),
            r.spec_emitted() == Seq::<EmitRecord>::empty(),
    {
        Self::new(source, MemoryView::new(), EmitBuffer::new())
    }

    pub fn source(&self) -> (r: &SourceContext)
        ensures
            *r == self.spec_source(),
    {
        &self.source
    }

    pub fn memory(&self) -> (r: &MemoryView)
        ensures
            r@ == self.spec_memory(),
    {
        &self.memory
    }

    /// The memory, to change in place.
    pub fn memory_mut(&mut self) -> (r: &mut MemoryView)
        ensures
            r@ == old(self).spec_memory(),
            final(self).spec_memory() == final(r)@,
            final(self).spec_source() == old(self).spec_source(),
            final(self).spec_emitted() == old(self).spec_emitted(),
    {
        &mut self.memory
    }

    /// The emitted records, to add to in place.
    pub fn emitter_mut(&mut self) -> (r: &mut EmitBuffer)
        ensures
            r@ == old(self).spec_emitted(),
            final(self).spec_emitted() == final(r)@,
            final(self).spec_source() == old(self).spec_source(),
            final(self).spec_memory() == old(self).spec_memory(),
    {
        &mut self.emitter
    }

    pub fn emitter(&self) -> (r: &EmitBuffer)
        ensures
            r@ == self.spec_emitted(),
    {
        &self.emitter
    }

    /// The value in memory under `key`, if any.
    pub fn memory_get(&self, key: &str) -> (r: Result<Option<ExtensionValue>, ExtensionError>)
        ensures
            r == Ok::<Option<ExtensionValue>, ExtensionError>(
                if self.spec_memory().contains_key(key@) { Some(self.spec_memory()[key@]) } else { None },
            ),
    {
        self.memory.get(key)
    }

    /// Stores `value` in memory under `key`; an empty key is refused.
    pub fn memory_set(&mut self, key: String, value: ExtensionValue) -> (r: Result<(), ExtensionError>)
        ensures
            final(self).spec_source() == old(self).spec_source(),
            final(self).spec_emitted() == old(self).spec_emitted(),
            key@.len() == 0 ==> empty_key_refusal(r) && final(self).spec_memory() == old(self).spec_memory(),
            key@.len() > 0 ==> r is Ok && final(self).spec_memory() == old(self).spec_memory().insert(key@, value),
    {
        self.memory.set(key, value)
    }

    /// Forgets the value in memory under `key`; an empty key is refused.
    pub fn memory_delete(&mut self, key: &str) -> (r: Result<(), ExtensionError>)
        ensures
            final(self).spec_source() == old(self).spec_source(),
            final(self).spec_emitted() == old(self).spec_emitted(),
            key@.len() == 0 ==> empty_key_refusal(r) && final(self).spec_memory() == old(self).spec_memory(),
            key@.len() > 0 ==> r is Ok && final(self).spec_memory() == old(self).spec_memory().remove(key@),
    {
        self.memory.delete(key)
    }

    /// Emits a record with `payload`.
    pub fn emit(&mut self, payload: ExtensionValue) -> (r: Result<(), ExtensionError>)
        ensures
            r is Ok,
            final(self).spec_source() == old(self).spec_source(),
            final(self).spec_memory() == old(self).spec_memory(),
            final(self).spec_emitted() == old(self).spec_emitted().push(EmitRecord { payload }),
    {
        self.emitter.emit(EmitRecord::new(payload))
    }

    /// Hands out what was emitted so far and starts afresh.
    pub fn drain_outcome(&mut self) -> (r: InvocationOutcome)
        ensures
            r.emits@ == old(self).spec_emitted(),
            final(self).spec_emitted() == Seq::<EmitRecord>::empty(),
            final(self).spec_source() == old(self).spec_source(),
            final(self).spec_memory() == old(self).spec_memory(),
    {
        let mut taken = EmitBuffer::new();
        std::mem::swap(&mut taken, &mut self.emitter);
        InvocationOutcome { emits: taken.into_records() }
    }

    /// The source, the memory and the emitted records.
    pub fn into_parts(self) -> (r: (SourceContext, MemoryView, EmitBuffer))
        ensures
            r.0 == self.spec_source(),
            r.1@ == self.spec_memory(),
            r.2@ == self.spec_emitted(),
    {
        (self.source, self.memory, self.emitter)
    }

    /// What the invocation emitted.
    pub fn into_outcome(self) -> (r: InvocationOutcome)
        ensures
            r.emits@ == self.spec_emitted(),
    {
        InvocationOutcome { emits: self.emitter.into_records() }
    }
}

/// The message a processing script runs on.
#[derive(Debug, PartialEq)]
pub struct Message {
    pub source: SourceContext,
    pub topic: Topic,
    pub payload: ExtensionValue,
    pub raw_payload: Vec<u8>,
    pub metadata: MqttMetadata,
    pub properties: Vec<(String, String)>,
}

impl Message {
    pub fn new(
        source: SourceContext,
        topic: Topic,
        payload: ExtensionValue,
        raw_payload: Vec<u8>,
        metadata: MqttMetadata,
        properties: Vec<(String, String)>,
    ) -> (r: Self)
        ensures
            r == (Message { source, topic, payload, raw_payload, metadata, properties }),
    {
        Message { source, topic, payload, raw_payload, metadata, properties }
    }
}

/// A value written to memory is read back until it is overwritten or
/// deleted; a deleted key reads as nothing.
pub proof fn law_memory_read_back(m: Map<Seq<char>, ExtensionValue>, k: Seq<char>, other: Seq<char>, v: ExtensionValue)
    requires
        k.len() > 0,
        other != k,
    ensures
        m.insert(k, v).contains_key(k) && m.insert(k, v)[k] == v,
        !m.remove(k).contains_key(k),
        m.insert(k, v).contains_key(other) == m.contains_key(other),
        m.contains_key(other) ==> m.insert(k, v)[other] == m[other],
{
}

} // verus!
