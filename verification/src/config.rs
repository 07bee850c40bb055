//! Service configuration and its documented defaults.
use vstd::prelude::*;

use std::time::Duration;

verus! {

broadcast use vstd::string::group_string_axioms;

/// Kafka connection settings.
#[derive(Debug, Clone)]
pub struct KafkaConfig {
    pub brokers: String,
    pub topic_prefix: String,
    pub client_id: String,
    pub group_id: String,
}

/// The consumer group used when a configuration names none.
pub fn default_group_id() -> (r: String)
    ensures
        r@ == "netwatcher"@,
{
    "netwatcher".to_owned()
}

impl Default for KafkaConfig {
    fn default() -> (r: KafkaConfig)
        ensures
            r.brokers@ == "kafka:9092"@,
            r.topic_prefix@ == "netwatcher"@,
            r.client_id@ == "netwatcher"@,
            r.group_id@ == "netwatcher"@,
    {
        KafkaConfig {
            brokers: "kafka:9092".to_owned(),
            topic_prefix: "netwatcher".to_owned(),
            client_id: "netwatcher".to_owned(),
            group_id: default_group_id(),
        }
    }
}

/// Elasticsearch connection settings.
#[derive(Debug, Clone)]
pub struct ElasticsearchConfig {
    pub url: String,
    pub index_prefix: String,
    pub username: Option<String>,
    pub password: Option<String>,
}

impl Default for ElasticsearchConfig {
    fn default() -> (r: ElasticsearchConfig)
        ensures
            r.url@ == "http://elasticsearch:9200"@,
            r.index_prefix@ == "netwatcher"@,
            r.username is None,
            r.password is None,
    {
        ElasticsearchConfig {
            url: "http://elasticsearch:9200".to_owned(),
            index_prefix: "netwatcher".to_owned(),
            username: None,
            password: None,
        }
    }
}

/// Settings of the ingest gateway.
#[derive(Debug, Clone)]
pub struct GatewayConfig {
    pub bind_addr: String,
    pub api_key: Option<String>,
    /// Refuse ingest when no key is configured.
    pub require_api_key: bool,
    pub max_body_bytes: usize,
    pub max_pcap_bytes: usize,
    pub max_events_per_batch: usize,
    pub max_raw_event_bytes: usize,
    pub rate_limit_per_minute: u32,
    pub p0f_bin: String,
    pub p0f_fp: String,
    pub fatt_script: String,
    pub zeek_bin: String,
    pub analysis_timeout_secs: u64,
    pub max_concurrent_pcap_analysis: usize,
    pub kafka: KafkaConfig,
}

impl Default for GatewayConfig {
    fn default() -> (r: GatewayConfig)
        ensures
            r.bind_addr@ == "0.0.0.0:8080"@,
            r.api_key is None,
            !r.require_api_key,
            r.max_body_bytes == 10 * 1024 * 1024,
            r.max_pcap_bytes == 50 * 1024 * 1024,
            r.max_events_per_batch == 500,
            r.max_raw_event_bytes == 256 * 1024,
            r.rate_limit_per_minute == 600,
            r.p0f_bin@ == "/usr/local/bin/p0f"@,
            r.p0f_fp@ == "/opt/p0f/p0f.fp"@,
            r.fatt_script@ == "/opt/fatt/fatt.py"@,
            r.zeek_bin@ == "/usr/local/zeek/bin/zeek"@,
            r.analysis_timeout_secs == 120,
            r.max_concurrent_pcap_analysis == 2,
            r.kafka.brokers@ == "kafka:9092"@,
            r.kafka.topic_prefix@ == "netwatcher"@,
            r.kafka.client_id@ == "netwatcher"@,
            r.kafka.group_id@ == "netwatcher"@,
    {
        GatewayConfig {
            bind_addr: "0.0.0.0:8080".to_owned(),
            api_key: None,
            require_api_key: false,
            max_body_bytes: 10 * 1024 * 1024,
            max_pcap_bytes: 50 * 1024 * 1024,
            max_events_per_batch: crate::security::default_max_events_per_batch(),
            max_raw_event_bytes: crate::security::default_max_raw_event_bytes(),
            rate_limit_per_minute: 600,
            p0f_bin: "/usr/local/bin/p0f".to_owned(),
            p0f_fp: "/opt/p0f/p0f.fp".to_owned(),
            fatt_script: "/opt/fatt/fatt.py".to_owned(),
            zeek_bin: "/usr/local/zeek/bin/zeek".to_owned(),
            analysis_timeout_secs: 120,
            max_concurrent_pcap_analysis: 2,
            kafka: KafkaConfig::default(),
        }
    }
}

/// Settings of a capture agent's log shipper.
#[derive(Debug, Clone)]
pub struct ShipperConfig {
    pub gateway_url: String,
    pub agent_id: String,
    pub hostname: String,
    pub api_key: Option<String>,
    pub watch_dirs: Vec<String>,
    pub pcap_dir: Option<String>,
    pub poll_interval_secs: u64,
}

impl ShipperConfig {
    /// The default shipper settings on a host whose `HOSTNAME` environment
    /// variable holds `env_hostname` (`None` when unset).
    pub fn default_for_host(env_hostname: Option<String>) -> (r: ShipperConfig)
        ensures
            r.gateway_url@ == "http://gateway:8080"@,
            r.agent_id@ == "capture-agent-1"@,
            r.hostname@ == (match env_hostname {
                Some(h) => h@,
                None => "capture-agent"@,
            }),
            r.api_key is None,
            r.watch_dirs@.len() == 3,
            r.watch_dirs@[0]@ == "/logs/zeek"@,
            r.watch_dirs@[1]@ == "/logs/p0f"@,
            r.watch_dirs@[2]@ == "/logs/fatt"@,
            r.pcap_dir matches Some(d) && d@ == "/pcap"@,
            r.poll_interval_secs == 5,
    {
        let hostname = match env_hostname {
            Some(h) => h,
            None => "capture-agent".to_owned(),
        };
        let mut watch_dirs: Vec<String> = Vec::new();
        watch_dirs.push("/logs/zeek".to_owned());
        watch_dirs.push("/logs/p0f".to_owned());
        watch_dirs.push("/logs/fatt".to_owned());
        ShipperConfig {
            gateway_url: "http://gateway:8080".to_owned(),
            agent_id: "capture-agent-1".to_owned(),
            hostname,
            api_key: None,
            watch_dirs,
            pcap_dir: Some("/pcap".to_owned()),
            poll_interval_secs: 5,
        }
    }
}

/// Settings of the threat-feed refresher.
#[derive(Debug, Clone)]
pub struct ThreatFeedConfig {
    pub et_compromised_url: String,
    pub et_botnet_url: String,
    pub refresh_interval_secs: u64,
}

impl Default for ThreatFeedConfig {
    fn default() -> (r: ThreatFeedConfig)
        ensures
            r.et_compromised_url@
                == "https://rules.emergingthreats.net/blockrules/compromised-ips.txt"@,
            r.et_botnet_url@ == "https://rules.emergingthreats.net/blockrules/emerging-botcc.rules"@,
            r.refresh_interval_secs == 3600,
    {
        ThreatFeedConfig {
            et_compromised_url: "https://rules.emergingthreats.net/blockrules/compromised-ips.txt".to_owned(),
            et_botnet_url: "https://rules.emergingthreats.net/blockrules/emerging-botcc.rules".to_owned(),
            refresh_interval_secs: 3600,
        }
    }
}

/// The `Duration` of a whole number of seconds (std's `Duration::from_secs`).
pub uninterp spec fn duration_of_secs(secs: u64) -> Duration;

/// std's `Duration::from_secs`, which never fails; its result is named by
/// [`duration_of_secs`].
#[verifier::external_body]
fn duration_from_secs(secs: u64) -> (d: Duration)
    ensures
        d == duration_of_secs(secs),
{
    Duration::from_secs(secs)
}

/// Timeout of outgoing HTTP requests: thirty seconds.
pub fn default_http_timeout() -> (r: Duration)
    ensures
        r == duration_of_secs(30),
{
    duration_from_secs(30)
}

} // verus!
