//! The IPC sink's wire format and its decisions: which messages it takes,
//! how it batches them, and the bytes of a batch frame.
//!
//! A frame is a little-endian `u32` body length followed by the body. The
//! body starts with an eight-byte header (protocol version, frame type, two
//! reserved bytes, the item count as `u16`, two reserved bytes) and holds
//! one item per message: an eighteen-byte item header, then the
//! destination, topic and payload bytes.
use vstd::prelude::*;
use vstd::utf8::encode_utf8;
use crate::text::trim;

verus! {

pub const PROTOCOL_VERSION: u8 = 1;

pub const FRAME_TYPE_BATCH: u8 = 2;

/// Bytes of an item's header.
pub const IPC_ITEM_HEADER_LEN: usize = 18;

/// Bytes of a batch body's header.
pub const IPC_BATCH_HEADER_LEN: usize = 8;

/// One message on its way to the IPC consumer.
#[derive(Debug, Clone)]
pub struct IpcMessage {
    pub rule_index: u32,
    pub packet_id: u16,
    pub destination: Vec<u8>,
    pub topic: Vec<u8>,
    pub payload: Vec<u8>,
}

/// The item's size in bytes, header included.
pub open spec fn item_len(m: IpcMessage) -> int {
    IPC_ITEM_HEADER_LEN + m.destination@.len() + m.topic@.len() + m.payload@.len()
}

/// The size of an item fits in `usize`.
pub open spec fn item_fits(m: IpcMessage) -> bool {
    item_len(m) <= usize::MAX
}

/// `x.to_le_bytes()` for a `u16`.
pub open spec fn le16(x: u16) -> Seq<u8> {
    seq![(x % 256) as u8, (x / 256) as u8]
}

/// `x.to_le_bytes()` for a `u32`.
pub open spec fn le32(x: u32) -> Seq<u8> {
    seq![(x % 256) as u8, ((x / 256) % 256) as u8, ((x / 65536) % 256) as u8, (x / 16777216) as u8]
}

/// The bytes of one item. Lengths are written in the width of their field,
/// cut to it where they do not fit.
pub open spec fn item_bytes(m: IpcMessage) -> Seq<u8> {
    le32(item_len(m) as u32) + le32(m.rule_index) + le16(m.packet_id) + seq![
        m.destination@.len() as u8,
        m.topic@.len() as u8,
        0u8,
        0u8,
    ] + le32(m.payload@.len() as u32) + m.destination@ + m.topic@ + m.payload@
}

/// The items of `ms`, one after another.
pub open spec fn items_bytes(ms: Seq<IpcMessage>) -> Seq<u8>
    decreases ms.len(),
{
    if ms.len() == 0 {
        seq![]
    } else {
        items_bytes(ms.drop_last()) + item_bytes(ms.last())
    }
}

/// The header of a batch body holding `count` items.
pub open spec fn batch_header(count: u16) -> Seq<u8> {
    seq![PROTOCOL_VERSION, FRAME_TYPE_BATCH, 0u8, 0u8] + le16(count) + seq![0u8, 0u8]
}

/// The body of a batch frame.
pub open spec fn batch_body(ms: Seq<IpcMessage>) -> Seq<u8> {
    batch_header(ms.len() as u16) + items_bytes(ms)
}

/// A whole frame: the body's length, then the body.
pub open spec fn framed(body: Seq<u8>) -> Seq<u8> {
    le32(body.len() as u32) + body
}

impl IpcMessage {
    /// The item's size in bytes, header included.
    pub fn encoded_len(&self) -> (r: usize)
        requires
            item_fits(*self),
        ensures
            r == item_len(*self),
    {
        IPC_ITEM_HEADER_LEN + self.destination.len() + self.topic.len() + self.payload.len()
    }
}

fn push_le16(out: &mut Vec<u8>, x: u16)
    ensures
        final(out)@ == old(out)@ + le16(x),
{
    out.push((x % 256) as u8);
    out.push((x / 256) as u8);
    assert(out@ =~= old(out)@ + le16(x));
}

pub(crate) fn push_le32(out: &mut Vec<u8>, x: u32)
    ensures
        final(out)@ == old(out)@ + le32(x),
{
    out.push((x % 256) as u8);
    out.push(((x / 256) % 256) as u8);
    out.push(((x / 65536) % 256) as u8);
    out.push((x / 16777216) as u8);
    assert(out@ =~= old(out)@ + le32(x));
}

pub(crate) fn push_bytes(out: &mut Vec<u8>, bytes: &[u8])
    ensures
        final(out)@ == old(out)@ + bytes@,
{
    let mut i: usize = 0;
    while i < bytes.len()
        invariant
            i <= bytes@.len(),
            out@ == old(out)@ + bytes@.take(i as int),
        decreases bytes@.len() - i,
    {
        out.push(bytes[i]);
        assert(bytes@.take(i + 1) =~= bytes@.take(i as int).push(bytes@[i as int]));
        i = i + 1;
    }
    assert(bytes@.take(i as int) =~= bytes@);
}

/// Appends the bytes of one item to `buffer`.
pub fn encode_message_item(buffer: &mut Vec<u8>, message: &IpcMessage)
    requires
        item_fits(*message),
    ensures
        final(buffer)@ == old(buffer)@ + item_bytes(*message),
{
    let item_len = message.encoded_len();
    push_le32(buffer, item_len as u32);
    push_le32(buffer, message.rule_index);
    push_le16(buffer, message.packet_id);
    buffer.push(message.destination.len() as u8);
    buffer.push(message.topic.len() as u8);
    push_le16(buffer, 0);
    push_le32(buffer, message.payload.len() as u32);
    push_bytes(buffer, message.destination.as_slice());
    push_bytes(buffer, message.topic.as_slice());
    push_bytes(buffer, message.payload.as_slice());
    assert(le16(0) =~= seq![0u8, 0u8]);
    assert(buffer@ =~= old(buffer)@ + item_bytes(*message));
}

/// The body of a batch frame for `messages`.
pub fn encode_batch_body(messages: &[IpcMessage]) -> (r: Vec<u8>)
    requires
        forall|i: int| 0 <= i < messages@.len() ==> item_fits(#[trigger] messages@[i]),
    ensures
        r@ == batch_body(messages@),
{
    let mut body: Vec<u8> = Vec::new();
    body.push(PROTOCOL_VERSION);
    body.push(FRAME_TYPE_BATCH);
    push_le16(&mut body, 0);
    push_le16(&mut body, messages.len() as u16);
    push_le16(&mut body, 0);
    assert(le16(0) =~= seq![0u8, 0u8]);
    assert(body@ =~= batch_header(messages@.len() as u16));
    let mut i: usize = 0;
    while i < messages.len()
        invariant
            i <= messages@.len(),
            forall|k: int| 0 <= k < messages@.len() ==> item_fits(#[trigger] messages@[k]),
            body@ == batch_header(messages@.len() as u16) + items_bytes(messages@.take(i as int)),
        decreases messages@.len() - i,
    {
        encode_message_item(&mut body, &messages[i]);
        assert(messages@.take(i + 1).drop_last() =~= messages@.take(i as int));
        assert(body@ =~= batch_header(messages@.len() as u16) + items_bytes(messages@.take(i + 1)));
        i = i + 1;
    }
    assert(messages@.take(i as int) =~= messages@);
    body
}

/// The whole frame for `messages`: the body's length, then the body.
pub fn encode_batch_frame(messages: &[IpcMessage]) -> (r: Vec<u8>)
    requires
        forall|i: int| 0 <= i < messages@.len() ==> item_fits(#[trigger] messages@[i]),
    ensures
        r@ == framed(batch_body(messages@)),
{
    let body = encode_batch_body(messages);
    let mut frame: Vec<u8> = Vec::new();
    push_le32(&mut frame, body.len() as u32);
    push_bytes(&mut frame, body.as_slice());
    assert(frame@ =~= framed(batch_body(messages@)));
    frame
}

/// What becomes of a message handed to the IPC sink.
#[derive(Debug, Clone, Copy, PartialEq, Eq, Structural)]
pub enum IpcAdmission {
    /// Queued for the consumer.
    Accepted,
    /// No consumer is connected: dropped.
    Disconnected,
    /// The destination is longer than 255 bytes: dropped.
    DestinationTooLong,
    /// The topic is longer than 255 bytes: dropped.
    TopicTooLong,
}

pub open spec fn admission(connected: bool, destination: Seq<char>, topic: Seq<char>) -> IpcAdmission {
    if !connected {
        IpcAdmission::Disconnected
    } else if encode_utf8(destination).len() > 255 {
        IpcAdmission::DestinationTooLong
    } else if encode_utf8(topic).len() > 255 {
        IpcAdmission::TopicTooLong
    } else {
        IpcAdmission::Accepted
    }
}

/// Whether a message for `destination` on `topic` may be queued, given
/// whether a consumer is connected.
pub fn ipc_admission(connected: bool, destination: &str, topic: &str) -> (r: IpcAdmission)
    ensures
        r == admission(connected, destination@, topic@),
{
    if !connected {
        IpcAdmission::Disconnected
    } else if destination.as_bytes().len() > 255 {
        IpcAdmission::DestinationTooLong
    } else if topic.as_bytes().len() > 255 {
        IpcAdmission::TopicTooLong
    } else {
        IpcAdmission::Accepted
    }
}

/// The message queued for `destination`, with the topic, packet id and
/// payload of the message that a rule matched.
pub fn ipc_message(destination: &str, rule_index: u32, topic: &str, packet_id: u16, payload: Vec<u8>) -> (r: IpcMessage)
    ensures
        r.rule_index == rule_index,
        r.packet_id == packet_id,
        r.destination@ == encode_utf8(destination@),
        r.topic@ == encode_utf8(topic@),
        r.payload@ == payload@,
{
    let mut d: Vec<u8> = Vec::new();
    push_bytes(&mut d, destination.as_bytes());
    let mut t: Vec<u8> = Vec::new();
    push_bytes(&mut t, topic.as_bytes());
    assert(d@ =~= encode_utf8(destination@));
    assert(t@ =~= encode_utf8(topic@));
    IpcMessage { rule_index, packet_id, destination: d, topic: t, payload }
}

/// The settings the IPC sink runs with, each raised to its least workable
/// value.
#[derive(Debug, Clone)]
pub struct IpcSinkSettings {
    pub path: String,
    pub queue_capacity: usize,
    pub batch_max_messages: usize,
    pub batch_max_bytes: usize,
    pub flush_interval_millis: u64,
}

pub open spec fn at_least(x: int, floor: int) -> int {
    if x < floor { floor } else { x }
}

/// Checks the sink's path and raises each limit to its floor: one message
/// of queue and of batch, one item header of batch bytes, one millisecond
/// of flush interval.
pub fn ipc_sink_settings(
    path: String,
    queue_capacity: usize,
    batch_max_messages: usize,
    batch_max_bytes: usize,
    flush_interval_millis: u64,
) -> (r: Result<IpcSinkSettings, String>)
    ensures
        match r {
            Ok(s) => {
                &&& trim(path@).len() > 0
                &&& s.path@ == path@
                &&& s.queue_capacity == at_least(queue_capacity as int, 1)
                &&& s.batch_max_messages == at_least(batch_max_messages as int, 1)
                &&& s.batch_max_bytes == at_least(batch_max_bytes as int, IPC_ITEM_HEADER_LEN as int)
                &&& s.flush_interval_millis == at_least(flush_interval_millis as int, 1)
            },
            Err(e) => trim(path@).len() == 0 && e@ == "IPC sink path must not be empty"@,
        },
{
    if crate::text::str_is_blank(path.as_str()) {
        proof {
            crate::text::lemma_blank_iff_trim_empty(path@);
        }
        return Err("IPC sink path must not be empty".to_string());
    }
    proof {
        crate::text::lemma_blank_iff_trim_empty(path@);
    }
    Ok(IpcSinkSettings {
        path,
        queue_capacity: if queue_capacity < 1 { 1 } else { queue_capacity },
        batch_max_messages: if batch_max_messages < 1 { 1 } else { batch_max_messages },
        batch_max_bytes: if batch_max_bytes < IPC_ITEM_HEADER_LEN { IPC_ITEM_HEADER_LEN } else { batch_max_bytes },
        flush_interval_millis: if flush_interval_millis < 1 { 1 } else { flush_interval_millis },
    })
}

/// The batch being gathered for the consumer.
#[derive(Debug)]
pub struct IpcBatch {
    messages: Vec<IpcMessage>,
    bytes: usize,
}

pub open spec fn total_len(ms: Seq<IpcMessage>) -> int
    decreases ms.len(),
{
    if ms.len() == 0 {
        0
    } else {
        total_len(ms.drop_last()) + item_len(ms.last())
    }
}

impl IpcBatch {
    pub closed spec fn items(&self) -> Seq<IpcMessage> {
        self.messages@
    }

    /// The bytes of the batch's items, as counted.
    pub closed spec fn counted(&self) -> int {
        self.bytes as int
    }

    pub closed spec fn wf(&self) -> bool {
        &&& self.bytes as int == total_len(self.messages@)
        &&& forall|i: int| 0 <= i < self.messages@.len() ==> item_fits(#[trigger] self.messages@[i])
    }

    /// An empty batch.
    pub fn new() -> (r: Self)
        ensures
            r.wf(),
            r.items() == Seq::<IpcMessage>::empty(),
            r.counted() == 0,
    {
        IpcBatch { messages: Vec::new(), bytes: 0 }
    }

    pub fn len(&self) -> (r: usize)
        ensures
            r == self.items().len(),
    {
        self.messages.len()
    }

    pub fn is_empty(&self) -> (r: bool)
        ensures
            r == (self.items().len() == 0),
    {
        self.messages.len() == 0
    }

    /// The bytes of the batch's items.
    pub fn byte_len(&self) -> (r: usize)
        ensures
            r == self.counted(),
    {
        self.bytes
    }

    /// Whether the batch takes another message before it is written: it
    /// holds fewer messages and fewer bytes than the settings allow.
    pub fn wants_more(&self, settings: &IpcSinkSettings) -> (r: bool)
        ensures
            r == (self.items().len() < settings.batch_max_messages && self.counted() < settings.batch_max_bytes),
    {
        self.messages.len() < settings.batch_max_messages && self.bytes < settings.batch_max_bytes
    }

    /// Adds a message to the batch.
    pub fn push(&mut self, message: IpcMessage)
        requires
            old(self).wf(),
            item_fits(message),
            old(self).counted() + item_len(message) <= usize::MAX,
        ensures
            final(self).wf(),
            final(self).items() == old(self).items().push(message),
            final(self).counted() == old(self).counted() + item_len(message),
    {
        let n = message.encoded_len();
        let ghost m = message;
        self.messages.push(message);
        self.bytes = self.bytes + n;
        assert(self.messages@.drop_last() =~= old(self).messages@);
    }

    /// The frame for the batch's messages.
    pub fn frame(&self) -> (r: Vec<u8>)
        requires
            self.wf(),
        ensures
            r@ == framed(batch_body(self.items())),
    {
        encode_batch_frame(self.messages.as_slice())
    }

    /// Empties the batch, handing back how many messages it held.
    pub fn clear(&mut self) -> (r: usize)
        ensures
            final(self).wf(),
            final(self).items() == Seq::<IpcMessage>::empty(),
            final(self).counted() == 0,
            r == old(self).items().len(),
    {
        let n = self.messages.len();
        self.messages = Vec::new();
        self.bytes = 0;
        n
    }
}

/// What happens to the sink's consumer slot.
#[derive(Debug, Clone, Copy, PartialEq, Eq, Structural)]
pub enum ConsumerEvent {
    /// A consumer connects.
    Connect,
    /// The consumer being served goes away.
    Release,
}

/// Whether a connecting consumer is served, and whether a consumer is
/// served afterwards, given whether one was being served.
pub open spec fn consumer_transition(connected: bool, event: ConsumerEvent) -> (bool, bool) {
    match event {
        ConsumerEvent::Connect => (!connected, true),
        ConsumerEvent::Release => (false, false),
    }
}

/// Whether a consumer is being served after the first `n` events.
pub open spec fn consumer_connected_after(events: Seq<ConsumerEvent>, n: int) -> bool
    decreases n,
{
    if n <= 0 {
        false
    } else {
        consumer_transition(consumer_connected_after(events, n - 1), events[n - 1]).1
    }
}

/// Whether event `i` is a consumer that gets served.
pub open spec fn consumer_served(events: Seq<ConsumerEvent>, i: int) -> bool {
    consumer_transition(consumer_connected_after(events, i), events[i]).0
}

/// Whether a connecting consumer is served: only where no consumer is being
/// served already.
pub fn admit_consumer(consumer_connected: bool) -> (r: bool)
    ensures
        r == consumer_transition(consumer_connected, ConsumerEvent::Connect).0,
{
    !consumer_connected
}

proof fn lemma_connected_until(events: Seq<ConsumerEvent>, i: int, k: int)
    requires
        0 <= i < k <= events.len(),
        consumer_served(events, i),
        forall|m: int| i < m < k ==> #[trigger] events[m] == ConsumerEvent::Connect,
    ensures
        consumer_connected_after(events, k),
    decreases k - i,
{
    if k > i + 1 {
        lemma_connected_until(events, i, k - 1);
        assert(events[k - 1] == ConsumerEvent::Connect);
    }
}

/// One consumer at a time: between two consumers that are served, the first
/// went away.
pub proof fn law_one_consumer_at_a_time(events: Seq<ConsumerEvent>, i: int, j: int)
    requires
        0 <= i < j < events.len(),
        consumer_served(events, i),
        consumer_served(events, j),
    ensures
        exists|k: int| i < k < j && #[trigger] events[k] == ConsumerEvent::Release,
{
    if !(exists|k: int| i < k < j && #[trigger] events[k] == ConsumerEvent::Release) {
        assert forall|m: int| i < m < j implies #[trigger] events[m] == ConsumerEvent::Connect by {
            if events[m] != ConsumerEvent::Connect {
                assert(events[m] == ConsumerEvent::Release);
            }
        }
        lemma_connected_until(events, i, j);
    }
}

} // verus!
