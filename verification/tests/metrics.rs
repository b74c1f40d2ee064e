use tenon::metrics::{
    eval_metric_updates, EvalMetricsSnapshot, LatencyMetricsSnapshot, initial_updates, metrics_response, route_metrics_request, MetricChange, MetricUpdate,
    MetricsRoute, OssMetric, OssMetrics, METRICS_PORT,
};

#[test]
fn queue_depth_follows_enqueue_and_dequeue() {
    let mut m = OssMetrics::new();
    assert_eq!(
        m.record_eval_queue_enqueued(),
        MetricUpdate { metric: OssMetric::EvalQueueDepth, change: MetricChange::GaugeValue(1) }
    );
    m.record_eval_queue_enqueued();
    assert_eq!(
        m.record_eval_queue_dequeued(),
        MetricUpdate { metric: OssMetric::EvalQueueDepth, change: MetricChange::GaugeValue(1) }
    );
    assert_eq!(m.eval_queue_depth(), 1);
}

#[test]
fn counters_and_latencies() {
    let m = OssMetrics::default();
    assert_eq!(m.record_ingress().change, MetricChange::CounterIncrement(1));
    assert_eq!(m.record_ingress().metric.name(), "tenon_oss_ingress_messages_total");
    assert_eq!(m.record_core_eval(5).change, MetricChange::LatencyNanos(5));
    assert_eq!(m.record_worker_pipeline(6).metric.name(), "tenon_oss_worker_pipeline_latency_seconds");
    assert_eq!(m.record_eval_queue_drop().metric, OssMetric::EvalQueueDrops);
    assert_eq!(m.record_kafka_enqueue().metric, OssMetric::KafkaEnqueue);
    assert_eq!(m.record_kafka_queue_full().metric, OssMetric::KafkaQueueFull);
    assert_eq!(m.record_kafka_enqueue_error().metric, OssMetric::KafkaEnqueueErrors);
    assert_eq!(m.record_noop_sink_message().metric, OssMetric::NoopSinkMessages);
    assert_eq!(
        m.record_sink_unsupported_destination().metric.name(),
        "tenon_oss_sink_unsupported_destinations_total"
    );
}

#[test]
fn all_series_start_at_zero() {
    let updates = initial_updates();
    assert_eq!(updates.len(), 8);
    assert_eq!(updates[7], MetricUpdate { metric: OssMetric::EvalQueueDepth, change: MetricChange::GaugeValue(0) });
    assert!(updates[..7].iter().all(|u| u.change == MetricChange::CounterAbsolute(0)));
}

#[test]
fn endpoint_routes_and_responses() {
    assert_eq!(METRICS_PORT, 9100);
    assert_eq!(route_metrics_request("GET /metrics HTTP/1.1\r\n"), MetricsRoute::Metrics);
    assert_eq!(route_metrics_request("GET /metrics?x=1 HTTP/1.1"), MetricsRoute::Metrics);
    assert_eq!(route_metrics_request("GET /health HTTP/1.1"), MetricsRoute::Health);
    assert_eq!(route_metrics_request("GET /metricsx HTTP/1.1"), MetricsRoute::NotFound);
    assert_eq!(route_metrics_request("POST /metrics HTTP/1.1"), MetricsRoute::NotFound);
    assert_eq!(
        metrics_response("200 OK", "é\n"),
        "HTTP/1.1 200 OK\r\nContent-Type: text/plain; version=0.0.4\r\nContent-Length: 3\r\nConnection: close\r\n\r\né\n"
    );
}

#[test]
fn eval_snapshot_publishes_every_series() {
    let l = |n: u64| LatencyMetricsSnapshot { count: n, total_nanos: n * 10, max_nanos: n * 3 };
    let snapshot = EvalMetricsSnapshot {
        eval_count: 7,
        eval_error_count: 1,
        eval_type_error_count: 2,
        payload_schema_error_count: 3,
        payload_decode_error_count: 4,
        payload_build_error_count: 5,
        topic_match: l(1),
        payload_decode: l(2),
        msg_ir_build: l(3),
        predicate: l(4),
        projection: l(5),
    };
    let updates = eval_metric_updates(&snapshot);
    assert_eq!(updates.len(), 21);
    assert_eq!(updates[0].name, "tenon_evals_total");
    assert_eq!(updates[0].change, MetricChange::CounterAbsolute(7));
    assert_eq!(updates[6].name, "tenon_topic_match_latency_samples_total");
    assert_eq!(updates[8].name, "tenon_topic_match_latency_max_nanos");
    assert_eq!(updates[8].change, MetricChange::GaugeValue(3));
    assert_eq!(updates[20].name, "tenon_projection_latency_max_nanos");
    assert_eq!(updates[20].change, MetricChange::GaugeValue(15));
}
