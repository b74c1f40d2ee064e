//! Configuration of the OSS engine: rules, client ids, payload format, MQTT,
//! sinks and metrics, with the defaults of every optional setting.
use vstd::prelude::*;
use crate::text::{is_ws, leading_ws, lemma_trim_idempotent, str_is_blank, str_trim, trailing_ws, trim, trim_start};

verus! {

pub open spec fn default_client_ids_path() -> Seq<char> {
    "./client_ids"@
}

/// Where client ids are kept when the configuration names no file.
pub fn default_client_ids_path_string() -> (r: String)
    ensures
        r@ == default_client_ids_path(),
{
    "./client_ids".to_string()
}

/// How payloads are decoded.
#[derive(Debug)]
pub struct PayloadConfig {
    pub format: String,
    pub protobuf_descriptor_set_path: Option<String>,
}

impl Default for PayloadConfig {
    fn default() -> (r: Self)
        ensures
            r.format@ == "json"@,
            r.protobuf_descriptor_set_path is None,
    {
        PayloadConfig { format: "json".to_string(), protobuf_descriptor_set_path: None }
    }
}

/// How the engine connects to the MQTT broker.
#[derive(Debug)]
pub struct MqttOssConfig {
    pub host: String,
    pub port: u16,
    pub node_id: Option<String>,
    pub client_count: u16,
    pub username: Option<String>,
    pub password: Option<String>,
    pub clean_start: bool,
    pub session_expiry_interval: u32,
    pub group_name: String,
    pub ordered: bool,
    pub ordered_prefix: String,
    pub keep_alive_secs: u16,
    pub io_threads: u16,
    pub queue_capacity: u16,
}

impl Default for MqttOssConfig {
    fn default() -> (r: Self)
        ensures
            r.host@ == "127.0.0.1"@,
            r.port == 1883,
            r.node_id is None,
            r.client_count == 1,
            r.username is None,
            r.password is None,
            r.clean_start,
            r.session_expiry_interval == 3600,
            r.group_name@ == "metre-oss"@,
            !r.ordered,
            r.ordered_prefix@.len() == 0,
            r.keep_alive_secs == 30,
            r.io_threads == 2,
            r.queue_capacity == 4096,
    {
        MqttOssConfig {
            host: "127.0.0.1".to_string(),
            port: 1883,
            node_id: None,
            client_count: 1,
            username: None,
            password: None,
            clean_start: true,
            session_expiry_interval: 3600,
            group_name: "metre-oss".to_string(),
            ordered: false,
            ordered_prefix: String::new(),
            keep_alive_secs: 30,
            io_threads: 2,
            queue_capacity: 4096,
        }
    }
}

#[derive(Debug)]
pub struct NoopSinkConfig {}

#[derive(Debug)]
pub struct LogSinkConfig {}

/// A Kafka sink: its brokers, topic and producer properties.
#[derive(Debug)]
pub struct KafkaSinkConfig {
    pub bootstrap_servers: Vec<String>,
    pub topic: String,
    pub properties: Vec<(String, String)>,
}

/// The sinks that rules can emit to.
#[derive(Debug)]
pub struct SinkConfig {
    pub noop: Option<NoopSinkConfig>,
    pub log: Option<LogSinkConfig>,
    pub kafka: Option<KafkaSinkConfig>,
}

impl Default for SinkConfig {
    fn default() -> (r: Self)
        ensures
            r.noop is None,
            r.log is None,
            r.kafka is None,
    {
        SinkConfig { noop: None, log: None, kafka: None }
    }
}

#[derive(Debug, Clone, Copy)]
pub struct MetricsConfig {
    pub detailed_latency: bool,
}

impl Default for MetricsConfig {
    fn default() -> (r: Self)
        ensures
            !r.detailed_latency,
    {
        MetricsConfig { detailed_latency: false }
    }
}

/// The engine's configuration.
#[derive(Debug)]
pub struct OssConfig {
    pub rule_json_path: String,
    pub client_ids_path: String,
    pub payload: PayloadConfig,
    pub mqtt: MqttOssConfig,
    pub sinks: SinkConfig,
    pub metrics: MetricsConfig,
}

/// The client-id file that a configured path stands for: the path trimmed,
/// or the default one where it is blank.
pub open spec fn normal_client_ids_path(p: Seq<char>) -> Seq<char> {
    if trim(p).len() == 0 {
        default_client_ids_path()
    } else {
        trim(p)
    }
}

/// Normalizing is idempotent: the client-id path of a normalized
/// configuration stays as it is when normalized again.
pub proof fn law_normalize_idempotent(p: Seq<char>)
    ensures
        normal_client_ids_path(normal_client_ids_path(p)) == normal_client_ids_path(p),
{
    reveal_strlit("./client_ids");
    lemma_trim_idempotent(p);
    let d = default_client_ids_path();
    assert(d.len() > 0 && !is_ws(d[0]) && !is_ws(d.last()));
    assert(leading_ws(d) == 0);
    assert(trim_start(d) =~= d);
    assert(trailing_ws(d) == 0);
    assert(trim(d) =~= d);
}

impl OssConfig {
    /// The configuration with its client-id path trimmed, the default one
    /// where it is blank; nothing else changes.
    pub fn normalize(self) -> (r: Self)
        ensures
            r.client_ids_path@ == normal_client_ids_path(self.client_ids_path@),
            r.rule_json_path == self.rule_json_path,
            r.payload == self.payload,
            r.mqtt == self.mqtt,
            r.sinks == self.sinks,
            r.metrics == self.metrics,
    {
        let trimmed = str_trim(self.client_ids_path.as_str());
        let client_ids_path = if trimmed.as_str().is_empty() {
            default_client_ids_path_string()
        } else {
            trimmed
        };
        OssConfig { client_ids_path, ..self }
    }
}


/// How message payloads are decoded.
#[derive(Debug, Clone, PartialEq, Eq)]
pub enum PayloadDecoderChoice {
    Json,
    /// Protobuf, with the descriptor set read from this file.
    Protobuf { descriptor_set_path: String },
}

pub open spec fn decoder_choice_of(format: Seq<char>, descriptor: Option<Seq<char>>) -> Result<Option<Seq<char>>, Seq<char>> {
    if format == "json"@ || format == "JSON"@ {
        Ok(None)
    } else if format == "protobuf"@ || format == "Protobuf"@ || format == "PROTOBUF"@ {
        match descriptor {
            Some(p) => Ok(Some(p)),
            None => Err("payload.protobuf_descriptor_set_path is required for protobuf"@),
        }
    } else {
        Err("unsupported payload.format: "@ + format)
    }
}

impl PayloadConfig {
    /// The decoder that the payload format asks for; `Ok(None)` in the
    /// contract stands for JSON, `Ok(Some(path))` for Protobuf.
    pub fn decoder_choice(&self) -> (r: Result<PayloadDecoderChoice, String>)
        ensures
            decoder_choice_of(self.format@, match self.protobuf_descriptor_set_path {
                Some(p) => Some(p@),
                None => None,
            }) == (match r {
                Ok(PayloadDecoderChoice::Json) => Ok(None),
                Ok(PayloadDecoderChoice::Protobuf { descriptor_set_path }) => Ok(Some(descriptor_set_path@)),
                Err(e) => Err(e@),
            }),
    {
        let f = self.format.as_str();
        if crate::text::str_eq(f, "json") || crate::text::str_eq(f, "JSON") {
            return Ok(PayloadDecoderChoice::Json);
        }
        if crate::text::str_eq(f, "protobuf") || crate::text::str_eq(f, "Protobuf") || crate::text::str_eq(f, "PROTOBUF") {
            return match &self.protobuf_descriptor_set_path {
                Some(p) => Ok(PayloadDecoderChoice::Protobuf { descriptor_set_path: p.clone() }),
                None => Err("payload.protobuf_descriptor_set_path is required for protobuf".to_string()),
            };
        }
        Err(crate::text::concat("unsupported payload.format: ", f))
    }
}

} // verus!
