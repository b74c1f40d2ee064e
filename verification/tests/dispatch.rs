use tenon::metrics::{MetricChange, OssMetric, OssMetrics};
use tenon::dispatch::{
    kafka_send_update, unsupported_destination_update, KafkaSendOutcome, bootstrap_setting, check_kafka_sink, check_metre_kafka_sink, metre_route, missing_destinations,
    used_destinations, DispatchPlan, MetreRoute, RuleMetadata, SinkRoute,
};

fn strings(values: &[&str]) -> Vec<String> {
    values.iter().map(|v| v.to_string()).collect()
}

fn rule(index: usize, destinations: &[&str]) -> RuleMetadata {
    RuleMetadata { rule_index: index, destinations: strings(destinations) }
}

#[test]
fn used_destinations_are_listed_once_in_first_order() {
    let md = vec![rule(0, &["log", "kafka"]), rule(1, &["kafka", "ipc", "log"])];
    assert_eq!(used_destinations(&md), strings(&["log", "kafka", "ipc"]));
    assert!(used_destinations(&[]).is_empty());
}

#[test]
fn missing_destinations_keep_their_order() {
    let used = strings(&["log", "kafka", "ipc"]);
    assert_eq!(missing_destinations(&used, &strings(&["kafka"])), strings(&["log", "ipc"]));
    assert!(missing_destinations(&used, &strings(&["ipc", "kafka", "log"])).is_empty());
}

#[test]
fn plan_refuses_destinations_without_sinks() {
    let err = DispatchPlan::new(strings(&["log"]), vec![rule(0, &["kafka", "log", "ipc"])]).unwrap_err();
    assert_eq!(err, "rule destinations are not configured as sinks: kafka,ipc");
}

#[test]
fn plan_builds_only_used_sinks_and_routes_results() {
    let plan = DispatchPlan::new(
        strings(&["noop", "log", "kafka"]),
        vec![rule(0, &["kafka"]), rule(1, &["log", "kafka"])],
    )
    .unwrap();
    assert_eq!(plan.built, strings(&["log", "kafka"]));
    assert_eq!(
        plan.route(1).unwrap(),
        vec![
            SinkRoute { destination: "log".to_string(), sink: Some(0) },
            SinkRoute { destination: "kafka".to_string(), sink: Some(1) },
        ]
    );
    assert_eq!(plan.route(0).unwrap(), vec![SinkRoute { destination: "kafka".to_string(), sink: Some(1) }]);
    assert_eq!(plan.route(7), None);
}

#[test]
fn later_metadata_for_a_rule_wins() {
    let plan = DispatchPlan::new(strings(&["log", "kafka"]), vec![rule(3, &["log"]), rule(3, &["kafka"])]).unwrap();
    assert_eq!(plan.route(3).unwrap(), vec![SinkRoute { destination: "kafka".to_string(), sink: Some(1) }]);
}

#[test]
fn kafka_sink_settings_are_checked() {
    assert_eq!(
        check_kafka_sink("events", &vec![], "t").unwrap_err(),
        "sinks.events.bootstrap_servers must not be empty"
    );
    assert_eq!(
        check_kafka_sink("events", &strings(&["b:9092"]), "").unwrap_err(),
        "sinks.events.topic must not be empty"
    );
    assert!(check_kafka_sink("events", &strings(&["b:9092"]), "t").is_ok());
    assert_eq!(check_metre_kafka_sink(&vec![], "t").unwrap_err(), "sinks.kafka.bootstrap_servers must not be empty");
    assert_eq!(bootstrap_setting(&strings(&["a:1", "b:2"])), "a:1,b:2");
}

#[test]
fn metre_routes_by_destination_name() {
    assert_eq!(metre_route("log", true, false), MetreRoute::Log);
    assert_eq!(metre_route("log", false, true), MetreRoute::Skipped);
    assert_eq!(metre_route("kafka", false, true), MetreRoute::Kafka);
    assert_eq!(metre_route("ipc", true, true), MetreRoute::Unsupported);
}

#[test]
fn sink_outcomes_move_their_metrics() {
    let m = OssMetrics::new();
    assert_eq!(kafka_send_update(&m, KafkaSendOutcome::Enqueued).metric, OssMetric::KafkaEnqueue);
    assert_eq!(kafka_send_update(&m, KafkaSendOutcome::QueueFull).metric, OssMetric::KafkaQueueFull);
    assert_eq!(kafka_send_update(&m, KafkaSendOutcome::Failed).change, MetricChange::CounterIncrement(1));
    let missing = SinkRoute { destination: "x".to_string(), sink: None };
    assert_eq!(
        unsupported_destination_update(&m, &missing).unwrap().metric,
        OssMetric::SinkUnsupportedDestinations
    );
    let found = SinkRoute { destination: "x".to_string(), sink: Some(0) };
    assert_eq!(unsupported_destination_update(&m, &found), None);
}
