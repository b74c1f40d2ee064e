//! The OSS engine's metrics: which series each event moves, by how much, and
//! how the metrics endpoint answers a request.
//!
//! The library decides what changes; the program that owns the metrics
//! recorder applies each `MetricUpdate` to it.
use vstd::prelude::*;
use crate::number::{dec, usize_to_string};
use crate::text::{concat, starts_with, str_starts_with};

verus! {

/// The port the metrics endpoint listens on.
pub const METRICS_PORT: u16 = 9100;

/// The series that the OSS engine publishes.
#[derive(Debug, Clone, Copy, PartialEq, Eq, Structural)]
pub enum OssMetric {
    IngressMessages,
    EvalQueueDepth,
    EvalQueueDrops,
    CoreEvalLatency,
    WorkerPipelineLatency,
    KafkaEnqueue,
    KafkaQueueFull,
    KafkaEnqueueErrors,
    NoopSinkMessages,
    SinkUnsupportedDestinations,
}

impl OssMetric {
    pub open spec fn spec_name(self) -> Seq<char> {
        match self {
            OssMetric::IngressMessages => "tenon_oss_ingress_messages_total"@,
            OssMetric::EvalQueueDepth => "tenon_oss_eval_queue_depth"@,
            OssMetric::EvalQueueDrops => "tenon_oss_eval_queue_drops_total"@,
            OssMetric::CoreEvalLatency => "tenon_oss_core_eval_latency_seconds"@,
            OssMetric::WorkerPipelineLatency => "tenon_oss_worker_pipeline_latency_seconds"@,
            OssMetric::KafkaEnqueue => "tenon_oss_kafka_enqueue_total"@,
            OssMetric::KafkaQueueFull => "tenon_oss_kafka_queue_full_total"@,
            OssMetric::KafkaEnqueueErrors => "tenon_oss_kafka_enqueue_errors_total"@,
            OssMetric::NoopSinkMessages => "tenon_oss_noop_sink_messages_total"@,
            OssMetric::SinkUnsupportedDestinations => "tenon_oss_sink_unsupported_destinations_total"@,
        }
    }

    /// The series' name as the exporter shows it.
    pub fn name(&self) -> (r: &'static str)
        ensures
            r@ == self.spec_name(),
    {
        match self {
            OssMetric::IngressMessages => "tenon_oss_ingress_messages_total",
            OssMetric::EvalQueueDepth => "tenon_oss_eval_queue_depth",
            OssMetric::EvalQueueDrops => "tenon_oss_eval_queue_drops_total",
            OssMetric::CoreEvalLatency => "tenon_oss_core_eval_latency_seconds",
            OssMetric::WorkerPipelineLatency => "tenon_oss_worker_pipeline_latency_seconds",
            OssMetric::KafkaEnqueue => "tenon_oss_kafka_enqueue_total",
            OssMetric::KafkaQueueFull => "tenon_oss_kafka_queue_full_total",
            OssMetric::KafkaEnqueueErrors => "tenon_oss_kafka_enqueue_errors_total",
            OssMetric::NoopSinkMessages => "tenon_oss_noop_sink_messages_total",
            OssMetric::SinkUnsupportedDestinations => "tenon_oss_sink_unsupported_destinations_total",
        }
    }
}

/// How a series changes.
#[derive(Debug, Clone, Copy, PartialEq, Eq, Structural)]
pub enum MetricChange {
    /// A counter goes up by this much.
    CounterIncrement(u64),
    /// A counter is set to this total.
    CounterAbsolute(u64),
    /// A gauge is set to this value.
    GaugeValue(u64),
    /// A latency histogram records this many nanoseconds (published in
    /// seconds).
    LatencyNanos(u64),
}

/// One change to one series.
#[derive(Debug, Clone, Copy, PartialEq, Eq, Structural)]
pub struct MetricUpdate {
    pub metric: OssMetric,
    pub change: MetricChange,
}

pub open spec fn update(metric: OssMetric, change: MetricChange) -> MetricUpdate {
    MetricUpdate { metric, change }
}

/// Enqueues minus dequeues among queue events (true for an enqueue).
pub open spec fn queue_balance(events: Seq<bool>) -> int
    decreases events.len(),
{
    if events.len() == 0 {
        0
    } else {
        queue_balance(events.drop_last()) + if events.last() {
            1int
        } else {
            -1int
        }
    }
}

/// The engine's own counters; the evaluation queue's depth is the one that
/// it keeps itself.
#[derive(Debug)]
pub struct OssMetrics {
    eval_queue_depth: u64,
}

impl Default for OssMetrics {
    fn default() -> (r: Self)
        ensures
            r.depth() == 0,
    {
        OssMetrics { eval_queue_depth: 0 }
    }
}

impl OssMetrics {
    pub closed spec fn depth(&self) -> nat {
        self.eval_queue_depth as nat
    }

    /// Metrics with an empty evaluation queue.
    pub fn new() -> (r: Self)
        ensures
            r.depth() == 0,
    {
        OssMetrics { eval_queue_depth: 0 }
    }

    /// The evaluation queue's depth as counted so far.
    pub fn eval_queue_depth(&self) -> (r: u64)
        ensures
            r == self.depth(),
    {
        self.eval_queue_depth
    }

    /// A message came in.
    pub fn record_ingress(&self) -> (r: MetricUpdate)
        ensures
            r == update(OssMetric::IngressMessages, MetricChange::CounterIncrement(1)),
    {
        MetricUpdate { metric: OssMetric::IngressMessages, change: MetricChange::CounterIncrement(1) }
    }

    /// A message entered the evaluation queue: the depth goes up by one.
    pub fn record_eval_queue_enqueued(&mut self) -> (r: MetricUpdate)
        requires
            old(self).depth() < u64::MAX,
        ensures
            final(self).depth() == old(self).depth() + 1,
            r == update(OssMetric::EvalQueueDepth, MetricChange::GaugeValue(final(self).depth() as u64)),
    {
        self.eval_queue_depth = self.eval_queue_depth + 1;
        MetricUpdate { metric: OssMetric::EvalQueueDepth, change: MetricChange::GaugeValue(self.eval_queue_depth) }
    }

    /// A message left the evaluation queue: the depth goes down by one.
    pub fn record_eval_queue_dequeued(&mut self) -> (r: MetricUpdate)
        requires
            old(self).depth() > 0,
        ensures
            final(self).depth() == old(self).depth() - 1,
            r == update(OssMetric::EvalQueueDepth, MetricChange::GaugeValue(final(self).depth() as u64)),
    {
        self.eval_queue_depth = self.eval_queue_depth - 1;
        MetricUpdate { metric: OssMetric::EvalQueueDepth, change: MetricChange::GaugeValue(self.eval_queue_depth) }
    }

    /// The evaluation queue's depth moves as one queue event says: up by one
    /// for an enqueue, down by one for a dequeue.
    pub open spec fn queue_step(before: OssMetrics, enqueued: bool, after: OssMetrics) -> bool {
        if enqueued {
            after.depth() == before.depth() + 1
        } else {
            after.depth() == before.depth() - 1
        }
    }

    /// The evaluation queue's gauge counts what is in the queue: along any
    /// run of `record_eval_queue_enqueued` (true) and
    /// `record_eval_queue_dequeued` (false) calls from fresh metrics, the
    /// depth after each call is the enqueues minus the dequeues so far.
    pub proof fn law_eval_queue_depth_is_balance(trace: Seq<OssMetrics>, events: Seq<bool>)
        requires
            trace.len() == events.len() + 1,
            trace[0].depth() == 0,
            forall|i: int| 0 <= i < events.len() ==> Self::queue_step(trace[i], #[trigger] events[i], trace[i + 1]),
        ensures
            forall|i: int| 0 <= i <= events.len() ==> #[trigger] trace[i].depth() == queue_balance(events.take(i)),
        decreases events.len(),
    {
        if events.len() > 0 {
            let n = events.len() - 1;
            Self::law_eval_queue_depth_is_balance(trace.take(trace.len() - 1), events.take(n));
            assert forall|i: int| 0 <= i <= events.len() implies #[trigger] trace[i].depth() == queue_balance(events.take(i)) by {
                if i <= n {
                    assert(trace.take(trace.len() - 1)[i] == trace[i]);
                    assert(events.take(n).take(i) =~= events.take(i));
                } else {
                    assert(trace.take(trace.len() - 1)[n] == trace[n]);
                    assert(events.take(n).take(n) =~= events.take(n));
                    assert(events.take(i).drop_last() =~= events.take(n));
                    assert(Self::queue_step(trace[n], events[n], trace[n + 1]));
                }
            }
        }
    }

    /// The evaluation queue was full and a message was dropped.
    pub fn record_eval_queue_drop(&self) -> (r: MetricUpdate)
        ensures
            r == update(OssMetric::EvalQueueDrops, MetricChange::CounterIncrement(1)),
    {
        MetricUpdate { metric: OssMetric::EvalQueueDrops, change: MetricChange::CounterIncrement(1) }
    }

    /// One evaluation by the core took `duration_nanos`.
    pub fn record_core_eval(&self, duration_nanos: u64) -> (r: MetricUpdate)
        ensures
            r == update(OssMetric::CoreEvalLatency, MetricChange::LatencyNanos(duration_nanos)),
    {
        MetricUpdate { metric: OssMetric::CoreEvalLatency, change: MetricChange::LatencyNanos(duration_nanos) }
    }

    /// One pass of the worker's pipeline took `duration_nanos`.
    pub fn record_worker_pipeline(&self, duration_nanos: u64) -> (r: MetricUpdate)
        ensures
            r == update(OssMetric::WorkerPipelineLatency, MetricChange::LatencyNanos(duration_nanos)),
    {
        MetricUpdate { metric: OssMetric::WorkerPipelineLatency, change: MetricChange::LatencyNanos(duration_nanos) }
    }

    /// A record was handed to Kafka.
    pub fn record_kafka_enqueue(&self) -> (r: MetricUpdate)
        ensures
            r == update(OssMetric::KafkaEnqueue, MetricChange::CounterIncrement(1)),
    {
        MetricUpdate { metric: OssMetric::KafkaEnqueue, change: MetricChange::CounterIncrement(1) }
    }

    /// Kafka's queue was full.
    pub fn record_kafka_queue_full(&self) -> (r: MetricUpdate)
        ensures
            r == update(OssMetric::KafkaQueueFull, MetricChange::CounterIncrement(1)),
    {
        MetricUpdate { metric: OssMetric::KafkaQueueFull, change: MetricChange::CounterIncrement(1) }
    }

    /// Kafka refused a record.
    pub fn record_kafka_enqueue_error(&self) -> (r: MetricUpdate)
        ensures
            r == update(OssMetric::KafkaEnqueueErrors, MetricChange::CounterIncrement(1)),
    {
        MetricUpdate { metric: OssMetric::KafkaEnqueueErrors, change: MetricChange::CounterIncrement(1) }
    }

    /// The no-op sink took a message.
    pub fn record_noop_sink_message(&self) -> (r: MetricUpdate)
        ensures
            r == update(OssMetric::NoopSinkMessages, MetricChange::CounterIncrement(1)),
    {
        MetricUpdate { metric: OssMetric::NoopSinkMessages, change: MetricChange::CounterIncrement(1) }
    }

    /// A message named a destination that no sink serves.
    pub fn record_sink_unsupported_destination(&self) -> (r: MetricUpdate)
        ensures
            r == update(OssMetric::SinkUnsupportedDestinations, MetricChange::CounterIncrement(1)),
    {
        MetricUpdate {
            metric: OssMetric::SinkUnsupportedDestinations,
            change: MetricChange::CounterIncrement(1),
        }
    }
}

/// The counters published at zero, and the queue depth at zero, before the
/// endpoint serves its first request.
pub open spec fn initial_series() -> Seq<MetricUpdate> {
    seq![
        update(OssMetric::IngressMessages, MetricChange::CounterAbsolute(0)),
        update(OssMetric::EvalQueueDrops, MetricChange::CounterAbsolute(0)),
        update(OssMetric::KafkaEnqueue, MetricChange::CounterAbsolute(0)),
        update(OssMetric::KafkaQueueFull, MetricChange::CounterAbsolute(0)),
        update(OssMetric::KafkaEnqueueErrors, MetricChange::CounterAbsolute(0)),
        update(OssMetric::NoopSinkMessages, MetricChange::CounterAbsolute(0)),
        update(OssMetric::SinkUnsupportedDestinations, MetricChange::CounterAbsolute(0)),
        update(OssMetric::EvalQueueDepth, MetricChange::GaugeValue(0)),
    ]
}

/// The updates that bring every series of the engine to its starting value.
pub fn initial_updates() -> (r: Vec<MetricUpdate>)
    ensures
        r@ == initial_series(),
{
    let mut v: Vec<MetricUpdate> = Vec::new();
    v.push(MetricUpdate { metric: OssMetric::IngressMessages, change: MetricChange::CounterAbsolute(0) });
    v.push(MetricUpdate { metric: OssMetric::EvalQueueDrops, change: MetricChange::CounterAbsolute(0) });
    v.push(MetricUpdate { metric: OssMetric::KafkaEnqueue, change: MetricChange::CounterAbsolute(0) });
    v.push(MetricUpdate { metric: OssMetric::KafkaQueueFull, change: MetricChange::CounterAbsolute(0) });
    v.push(MetricUpdate { metric: OssMetric::KafkaEnqueueErrors, change: MetricChange::CounterAbsolute(0) });
    v.push(MetricUpdate { metric: OssMetric::NoopSinkMessages, change: MetricChange::CounterAbsolute(0) });
    v.push(MetricUpdate {
        metric: OssMetric::SinkUnsupportedDestinations,
        change: MetricChange::CounterAbsolute(0),
    });
    v.push(MetricUpdate { metric: OssMetric::EvalQueueDepth, change: MetricChange::GaugeValue(0) });
    assert(v@ =~= initial_series());
    v
}

/// What the metrics endpoint does with a request.
#[derive(Debug, Clone, Copy, PartialEq, Eq, Structural)]
pub enum MetricsRoute {
    /// Publish the evaluation metrics and answer with the exporter's text.
    Metrics,
    /// Answer `OK`.
    Health,
    /// Answer `404 Not Found`.
    NotFound,
}

pub open spec fn route_of(request: Seq<char>) -> MetricsRoute {
    if starts_with(request, "GET /metrics "@) || starts_with(request, "GET /metrics?"@) {
        MetricsRoute::Metrics
    } else if starts_with(request, "GET /health "@) || starts_with(request, "GET /health?"@) {
        MetricsRoute::Health
    } else {
        MetricsRoute::NotFound
    }
}

/// Routes a request by its first line: `GET /metrics`, `GET /health`, or
/// anything else.
pub fn route_metrics_request(request: &str) -> (r: MetricsRoute)
    ensures
        r == route_of(request@),
{
    if str_starts_with(request, "GET /metrics ") || str_starts_with(request, "GET /metrics?") {
        MetricsRoute::Metrics
    } else if str_starts_with(request, "GET /health ") || str_starts_with(request, "GET /health?") {
        MetricsRoute::Health
    } else {
        MetricsRoute::NotFound
    }
}

/// The HTTP response the endpoint sends: status line, plain-text headers
/// with the body's length in bytes (`body_bytes`), and the body.
pub open spec fn http_response(status: Seq<char>, body: Seq<char>, body_bytes: nat) -> Seq<char> {
    "HTTP/1.1 "@ + status + "\r\nContent-Type: text/plain; version=0.0.4\r\nContent-Length: "@
        + dec(body_bytes) + "\r\nConnection: close\r\n\r\n"@ + body
}

/// The full text of the endpoint's answer.
pub fn metrics_response(status: &str, body: &str) -> (r: String)
    ensures
        r@ == http_response(status@, body@, body.len() as nat),
{
    let len = usize_to_string(body.len());
    let a = concat("HTTP/1.1 ", status);
    let b = concat(a.as_str(), "\r\nContent-Type: text/plain; version=0.0.4\r\nContent-Length: ");
    let c = concat(b.as_str(), len.as_str());
    let d = concat(c.as_str(), "\r\nConnection: close\r\n\r\n");
    let r = concat(d.as_str(), body);
    assert(r@ =~= http_response(status@, body@, body.len() as nat));
    r
}


/// Latency counts of one stage of evaluation.
#[derive(Debug, Clone, Copy, PartialEq, Eq, Structural)]
pub struct LatencyMetricsSnapshot {
    pub count: u64,
    pub total_nanos: u64,
    pub max_nanos: u64,
}

/// The evaluation counters of the rule engine at one moment.
#[derive(Debug, Clone, Copy, PartialEq, Eq, Structural)]
pub struct EvalMetricsSnapshot {
    pub eval_count: u64,
    pub eval_error_count: u64,
    pub eval_type_error_count: u64,
    pub payload_schema_error_count: u64,
    pub payload_decode_error_count: u64,
    pub payload_build_error_count: u64,
    pub topic_match: LatencyMetricsSnapshot,
    pub payload_decode: LatencyMetricsSnapshot,
    pub msg_ir_build: LatencyMetricsSnapshot,
    pub predicate: LatencyMetricsSnapshot,
    pub projection: LatencyMetricsSnapshot,
}

/// A change to a series named at run time.
#[derive(Debug, Clone, PartialEq, Eq)]
pub struct NamedUpdate {
    pub name: String,
    pub change: MetricChange,
}

pub open spec fn named(name: Seq<char>, change: MetricChange) -> (Seq<char>, MetricChange) {
    (name, change)
}

pub open spec fn named_view(v: Seq<NamedUpdate>) -> Seq<(Seq<char>, MetricChange)> {
    v.map_values(|u: NamedUpdate| (u.name@, u.change))
}

/// The series of one stage's latency: its sample count and total as
/// counters, its maximum as a gauge.
pub open spec fn latency_series(name: Seq<char>, l: LatencyMetricsSnapshot) -> Seq<(Seq<char>, MetricChange)> {
    seq![
        named(name + "_samples_total"@, MetricChange::CounterAbsolute(l.count)),
        named(name + "_nanos_total"@, MetricChange::CounterAbsolute(l.total_nanos)),
        named(name + "_max_nanos"@, MetricChange::GaugeValue(l.max_nanos)),
    ]
}

/// Every series that a snapshot of the evaluation counters sets.
pub open spec fn eval_series(s: EvalMetricsSnapshot) -> Seq<(Seq<char>, MetricChange)> {
    seq![
        named("tenon_evals_total"@, MetricChange::CounterAbsolute(s.eval_count)),
        named("tenon_eval_errors_total"@, MetricChange::CounterAbsolute(s.eval_error_count)),
        named("tenon_eval_type_errors_total"@, MetricChange::CounterAbsolute(s.eval_type_error_count)),
        named("tenon_payload_schema_errors_total"@, MetricChange::CounterAbsolute(s.payload_schema_error_count)),
        named("tenon_payload_decode_errors_total"@, MetricChange::CounterAbsolute(s.payload_decode_error_count)),
        named("tenon_payload_build_errors_total"@, MetricChange::CounterAbsolute(s.payload_build_error_count)),
    ] + latency_series("tenon_topic_match_latency"@, s.topic_match)
        + latency_series("tenon_payload_decode_latency"@, s.payload_decode)
        + latency_series("tenon_msg_ir_build_latency"@, s.msg_ir_build)
        + latency_series("tenon_predicate_latency"@, s.predicate)
        + latency_series("tenon_projection_latency"@, s.projection)
}

fn push_named(out: &mut Vec<NamedUpdate>, name: String, change: MetricChange)
    ensures
        named_view(final(out)@) == named_view(old(out)@).push(named(name@, change)),
{
    let ghost before = out@;
    out.push(NamedUpdate { name, change });
    assert(named_view(out@) =~= named_view(before).push(named(name@, change)));
}

fn push_latency(out: &mut Vec<NamedUpdate>, name: &str, l: LatencyMetricsSnapshot)
    ensures
        named_view(final(out)@) == named_view(old(out)@) + latency_series(name@, l),
{
    push_named(out, concat(name, "_samples_total"), MetricChange::CounterAbsolute(l.count));
    push_named(out, concat(name, "_nanos_total"), MetricChange::CounterAbsolute(l.total_nanos));
    push_named(out, concat(name, "_max_nanos"), MetricChange::GaugeValue(l.max_nanos));
    assert(named_view(out@) =~= named_view(old(out)@) + latency_series(name@, l));
}

/// The updates that publish a snapshot of the evaluation counters.
pub fn eval_metric_updates(snapshot: &EvalMetricsSnapshot) -> (r: Vec<NamedUpdate>)
    ensures
        named_view(r@) == eval_series(*snapshot),
{
    let mut out: Vec<NamedUpdate> = Vec::new();
    push_named(&mut out, "tenon_evals_total".to_string(), MetricChange::CounterAbsolute(snapshot.eval_count));
    push_named(&mut out, "tenon_eval_errors_total".to_string(), MetricChange::CounterAbsolute(snapshot.eval_error_count));
    push_named(
        &mut out,
        "tenon_eval_type_errors_total".to_string(),
        MetricChange::CounterAbsolute(snapshot.eval_type_error_count),
    );
    push_named(
        &mut out,
        "tenon_payload_schema_errors_total".to_string(),
        MetricChange::CounterAbsolute(snapshot.payload_schema_error_count),
    );
    push_named(
        &mut out,
        "tenon_payload_decode_errors_total".to_string(),
        MetricChange::CounterAbsolute(snapshot.payload_decode_error_count),
    );
    push_named(
        &mut out,
        "tenon_payload_build_errors_total".to_string(),
        MetricChange::CounterAbsolute(snapshot.payload_build_error_count),
    );
    let ghost head = named_view(out@);
    push_latency(&mut out, "tenon_topic_match_latency", snapshot.topic_match);
    push_latency(&mut out, "tenon_payload_decode_latency", snapshot.payload_decode);
    push_latency(&mut out, "tenon_msg_ir_build_latency", snapshot.msg_ir_build);
    push_latency(&mut out, "tenon_predicate_latency", snapshot.predicate);
    push_latency(&mut out, "tenon_projection_latency", snapshot.projection);
    assert(named_view(out@) =~= eval_series(*snapshot));
    out
}

} // verus!
