use tenon::cli::{parse_config_path, MetreCommand, ProbeCommand, ProbeConfig};
use tenon::config::{
    KafkaSinkConfig, MetricsConfig, MqttOssConfig, OssConfig, PayloadConfig, PayloadDecoderChoice,
    SinkConfig,
};
use tenon::coordinator::{client_ids_file_content, default_node_id, mqtt_client_count, parse_client_ids};

fn config(client_ids_path: &str) -> OssConfig {
    OssConfig {
        rule_json_path: "rules.json".to_string(),
        client_ids_path: client_ids_path.to_string(),
        payload: PayloadConfig::default(),
        mqtt: MqttOssConfig::default(),
        sinks: SinkConfig::default(),
        metrics: MetricsConfig::default(),
    }
}

#[test]
fn missing_client_ids_path_uses_default() {
    assert_eq!(config("").normalize().client_ids_path, "./client_ids");
}

#[test]
fn blank_client_ids_path_uses_default() {
    assert_eq!(config("   ").normalize().client_ids_path, "./client_ids");
}

#[test]
fn client_ids_path_is_trimmed() {
    let c = config("  ids.txt ").normalize();
    assert_eq!(c.client_ids_path, "ids.txt");
    assert_eq!(c.rule_json_path, "rules.json");
}

#[test]
fn payload_format_picks_the_decoder() {
    let mut p = PayloadConfig::default();
    assert_eq!(p.decoder_choice(), Ok(PayloadDecoderChoice::Json));
    p.format = "PROTOBUF".to_string();
    assert_eq!(p.decoder_choice().unwrap_err(), "payload.protobuf_descriptor_set_path is required for protobuf");
    p.protobuf_descriptor_set_path = Some("d.bin".to_string());
    assert_eq!(
        p.decoder_choice(),
        Ok(PayloadDecoderChoice::Protobuf { descriptor_set_path: "d.bin".to_string() })
    );
    p.format = "xml".to_string();
    assert_eq!(p.decoder_choice().unwrap_err(), "unsupported payload.format: xml");
}

#[test]
fn defaults_of_the_engine_settings() {
    let m = MqttOssConfig::default();
    assert_eq!((m.host.as_str(), m.port, m.client_count, m.queue_capacity), ("127.0.0.1", 1883, 1, 4096));
    let k = KafkaSinkConfig { bootstrap_servers: vec![], topic: String::new(), properties: vec![] };
    assert!(k.properties.is_empty());
}

#[test]
fn node_ids_and_client_counts() {
    assert_eq!(default_node_id(42, 1700000000000), "tenon_oss_42_1700000000000");
    assert_eq!(mqtt_client_count(0), 1);
    assert_eq!(mqtt_client_count(3), 3);
}

#[test]
fn client_id_file_round_trips() {
    let ids = vec!["node_0".to_string(), "node_1".to_string()];
    let content = client_ids_file_content(&ids).unwrap();
    assert_eq!(content, "node_0\nnode_1\n");
    assert_eq!(parse_client_ids(content.as_bytes()), Some(ids));
    assert_eq!(client_ids_file_content(&[]), None);
}

#[test]
fn metre_command_line() {
    let a = |v: &[&str]| v.iter().map(|s| s.to_string()).collect::<Vec<_>>();
    assert_eq!(
        parse_config_path(a(&["metre", "-c", "x.json"])),
        Ok(MetreCommand::Run { config_path: "x.json".to_string() })
    );
    assert_eq!(parse_config_path(a(&["metre"])).unwrap_err(), "missing required -c <config.json>");
    assert_eq!(parse_config_path(a(&["metre", "-h"])), Ok(MetreCommand::Help { program: "metre".to_string() }));
    assert_eq!(parse_config_path(a(&["metre", "--config"])).unwrap_err(), "missing value for -c/--config");
    assert_eq!(parse_config_path(a(&["metre", "x"])).unwrap_err(), "unknown argument: x");
}

#[test]
fn probe_connection_options() {
    let args: Vec<String> = ["probe", "--username", "u"].iter().map(|s| s.to_string()).collect();
    let ProbeCommand::Run(c) = ProbeConfig::parse(&args, 5).unwrap() else { panic!("run") };
    let o = c.mqtt_options();
    assert_eq!(o.keep_alive_secs, 5);
    assert!(o.clean_start);
    assert_eq!(o.credentials, Some(("u".to_string(), String::new())));
    assert_eq!(o.client_id, "tenon-test-mqtt-5");
}
