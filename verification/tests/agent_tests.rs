use netwatcher::capture::{capture_file_name_of, prune_candidates, sort_texts, PcapCapturer, RotationState};
use netwatcher::config::{ElasticsearchConfig, KafkaConfig, ShipperConfig, ThreatFeedConfig};
use netwatcher::event::{EventSource, IngestEvent, RawEvent, Timestamp};
use netwatcher::indexer::{index_template_body, raw_keyword_fields, raw_keyword_groups, raw_typed_fields, EsIndexer};
use netwatcher::kafka::{accepted_count, consumer_config, message_key, producer_settings, topic_names};
use netwatcher::shipper::{
    ingest_batch_for, pcap_upload_fields, select_ready_pcaps, source_for_watch_dir, FileTailer,
    PcapFile, ShippedPcaps,
};

#[test]
fn rotating_writer_module_loads() {
    assert!(true);
}

#[test]
fn capture_file_names() {
    assert_eq!(capture_file_name_of(1), "capture-0001.pcap");
    assert_eq!(capture_file_name_of(19), "capture-0019.pcap");
    assert_eq!(capture_file_name_of(12345), "capture-12345.pcap");
}

#[test]
fn capturer_settings_are_normalized() {
    let c = PcapCapturer::new("eth0", "/pcap", 30, 1, 10, 65535);
    assert_eq!(c.interface(), "eth0");
    assert_eq!(c.pcap_dir(), "/pcap");
    assert_eq!(c.snaplen(), 65535);
    let mut s = c.schedule(0);
    // two files at least: the numbers cycle 1, 0, 1, ...
    assert_eq!(s.rotate(0), "capture-0001.pcap");
    assert_eq!(s.rotate(0), "capture-0000.pcap");
    assert_eq!(s.rotate(0), "capture-0001.pcap");
}

#[test]
fn rotation_by_time_and_size() {
    let mut s = RotationState::new(30, 20, 1024, 0);
    assert_eq!(s.rotate(0), "capture-0001.pcap");
    assert!(!s.should_rotate(29_999_999_999));
    assert!(s.should_rotate(30_000_000_000));
    assert_eq!(s.rotate_if_due(1), None);
    s.record_packet(1000);
    assert!(!s.should_rotate(1));
    s.record_packet(8);
    assert!(s.should_rotate(1));
    assert_eq!(s.rotate_if_due(2), Some("capture-0002.pcap".to_string()));
    assert!(!s.should_rotate(2));
}

#[test]
fn pruning_picks_oldest_names() {
    let files: Vec<String> = ["/p/capture-0003.pcap", "/p/capture-0001.pcap", "/p/capture-0002.pcap", "/p/capture-0000.pcap"]
        .iter()
        .map(|s| s.to_string())
        .collect();
    assert_eq!(sort_texts(&files)[0], "/p/capture-0000.pcap");
    assert_eq!(
        prune_candidates(&files, 2, Some("/p/capture-0000.pcap")),
        vec!["/p/capture-0001.pcap".to_string()]
    );
    assert_eq!(
        prune_candidates(&files, 2, None),
        vec!["/p/capture-0000.pcap".to_string(), "/p/capture-0001.pcap".to_string()]
    );
    assert!(prune_candidates(&files, 4, None).is_empty());
}

#[test]
fn parser_file_tailer_reads_incrementally() {
    let mut tailer = FileTailer::new("conn.log".to_string());
    let first = tailer.absorb_lines(vec!["line1".to_string(), "line2".to_string()]);
    assert_eq!(first, vec!["line1", "line2"]);
    assert_eq!(tailer.offset(), 12);
    let second = tailer.absorb_lines(vec!["line3".to_string()]);
    assert_eq!(second, vec!["line3"]);
    assert_eq!(tailer.offset(), 18);
}

#[test]
fn shipper_file_tailer_reads_incrementally() {
    let mut tailer = FileTailer::new("conn.log".to_string());
    let first = tailer.absorb_lines(vec!["line1".to_string(), "line2".to_string()]);
    assert_eq!(first, vec!["line1", "line2"]);
    assert_eq!(tailer.path(), "conn.log");
}

#[test]
fn tailer_skips_blank_lines_but_counts_them() {
    let mut tailer = FileTailer::new("x".to_string());
    let kept = tailer.absorb_lines(vec!["  ".to_string(), "é".to_string(), String::new()]);
    assert_eq!(kept, vec!["é"]);
    assert_eq!(tailer.offset(), 3 + 3 + 1);
}

fn pcap(path: &str, secs: u64) -> PcapFile {
    PcapFile { path: path.to_string(), modified_nanos: secs * 1_000_000_000 }
}

#[test]
fn find_ready_pcaps_requires_multiple_files() {
    let ready = select_ready_pcaps(&vec![pcap("only.pcap", 0)], 1_000_000_000_000, 5);
    assert!(ready.is_empty());
}

#[test]
fn ready_pcaps_oldest_first_without_newest() {
    let files = vec![pcap("c.pcap", 100), pcap("a.pcap", 50), pcap("d.pcap", 200), pcap("b.pcap", 50), pcap("e.pcap", 195)];
    let now = 200 * 1_000_000_000;
    // threshold: max(2 * 5, 10) = 10 seconds; e.pcap is too recent, d.pcap is the newest
    assert_eq!(
        select_ready_pcaps(&files, now, 5),
        vec!["a.pcap".to_string(), "b.pcap".to_string(), "c.pcap".to_string()]
    );
    // a long poll interval raises the threshold
    assert_eq!(select_ready_pcaps(&files, now, 60), vec!["a.pcap".to_string(), "b.pcap".to_string()]);
}

#[test]
fn watch_dirs_and_batches() {
    assert_eq!(source_for_watch_dir("/logs/p0f"), EventSource::P0f);
    assert_eq!(source_for_watch_dir("/logs/fatt"), EventSource::Fatt);
    assert_eq!(source_for_watch_dir("/logs/zeek"), EventSource::Zeek);
    let config = ShipperConfig::default_for_host(None);
    assert_eq!(config.hostname, "capture-agent");
    assert_eq!(config.watch_dirs, vec!["/logs/zeek", "/logs/p0f", "/logs/fatt"]);
    assert_eq!(config.pcap_dir.as_deref(), Some("/pcap"));
    assert!(ingest_batch_for(&config, Vec::new()).is_none());
    let event = IngestEvent {
        source: EventSource::Zeek,
        zeek_log_type: None,
        timestamp: Timestamp { secs: 0, nanos: 0 },
        raw: RawEvent::new("{}".to_string(), Vec::new()),
    };
    let batch = ingest_batch_for(&config, vec![event]).unwrap();
    assert_eq!(batch.agent_id, "capture-agent-1");
    assert_eq!(batch.events.len(), 1);
    let named = ShipperConfig::default_for_host(Some("sensor".to_string()));
    assert_eq!(named.hostname, "sensor");
    let fields = pcap_upload_fields(&named, None, "capture-0001.pcap".to_string());
    assert_eq!(fields[2], ("interface".to_string(), "auto".to_string()));
    assert_eq!(fields[3], ("filename".to_string(), "capture-0001.pcap".to_string()));
}

#[test]
fn shipped_pcaps_set() {
    let mut shipped = ShippedPcaps::new();
    shipped.insert("a".to_string());
    shipped.insert("a".to_string());
    shipped.insert("b".to_string());
    assert!(shipped.contains("a"));
    assert_eq!(shipped.paths().len(), 2);
    let keep: Vec<bool> = shipped.paths().iter().map(|p| p == "b").collect();
    shipped.retain_flags(&keep);
    assert!(!shipped.contains("a"));
    assert!(shipped.contains("b"));
}

#[test]
fn consumer_config_sets_expected_keys() {
    let config = KafkaConfig {
        brokers: "kafka:9092".to_string(),
        topic_prefix: "netwatcher".to_string(),
        client_id: "test".to_string(),
        group_id: "test-group".to_string(),
    };
    let cfg = consumer_config(&config);
    let get = |k: &str| cfg.iter().rev().find(|(key, _)| key == k).map(|(_, v)| v.as_str());
    assert_eq!(get("bootstrap.servers"), Some("kafka:9092"));
    assert_eq!(get("group.id"), Some("test-group"));
    let producer = producer_settings(&config);
    assert_eq!(producer[1], ("client.id".to_string(), "test".to_string()));
}

#[test]
fn topics_and_keys() {
    assert_eq!(
        topic_names(&[EventSource::Zeek, EventSource::Enriched], "nw"),
        vec!["nw.zeek".to_string(), "nw.enriched".to_string()]
    );
    let event = netwatcher::event::NetworkEvent::from_ingest(
        "agent",
        "host",
        IngestEvent {
            source: EventSource::Zeek,
            zeek_log_type: None,
            timestamp: Timestamp { secs: 0, nanos: 0 },
            raw: RawEvent::new("{}".to_string(), Vec::new()),
        },
    );
    assert_eq!(message_key(&event), format!("agent:{}", event.id));
}

#[test]
fn index_names_and_mapping_tables() {
    let es = EsIndexer::new(&ElasticsearchConfig::default());
    assert_eq!(es.template_name(), "netwatcher-template");
    assert_eq!(es.template_pattern(), "netwatcher-*");
    assert_eq!(es.event_index(EventSource::Fatt, "2024.01.31"), "netwatcher-fatt-2024.01.31");
    assert_eq!(raw_keyword_fields().len(), 34);
    assert_eq!(raw_typed_fields()[0], ("id.orig_p".to_string(), "integer".to_string()));
    assert_eq!(raw_keyword_groups()[1].1, vec!["hassh", "client", "server"]);
}

#[test]
fn feed_defaults() {
    let feeds = ThreatFeedConfig::default();
    assert_eq!(feeds.refresh_interval_secs, 3600);
    assert!(feeds.et_botnet_url.ends_with("emerging-botcc.rules"));
    assert_eq!(netwatcher::config::default_group_id(), "netwatcher");
    assert_eq!(netwatcher::config::default_http_timeout(), std::time::Duration::from_secs(30));
}

#[test]
fn tailer_two_reads_match_one_read() {
    let first = vec!["a".to_string(), " ".to_string(), "bb".to_string()];
    let next = vec!["".to_string(), "ccc".to_string()];
    let mut pieces = FileTailer::new("log".to_string());
    let mut kept = pieces.absorb_lines(first.clone());
    kept.extend(pieces.absorb_lines(next.clone()));
    let mut whole = FileTailer::new("log".to_string());
    let all: Vec<String> = first.into_iter().chain(next).collect();
    let kept_whole = whole.absorb_lines(all);
    assert_eq!(kept, kept_whole);
    assert_eq!(kept, vec!["a", "bb", "ccc"]);
    assert_eq!(pieces.offset(), whole.offset());
    assert_eq!(whole.offset(), 2 + 2 + 3 + 1 + 4);
}

#[test]
fn accepted_count_counts_successful_sends() {
    assert_eq!(accepted_count(&[true, false, true]), 2);
    assert_eq!(accepted_count(&[false, false]), 0);
    assert_eq!(accepted_count(&[]), 0);
}

fn event_at(source: EventSource, secs: i64, nanos: u32) -> netwatcher::event::NetworkEvent {
    netwatcher::event::NetworkEvent::from_ingest(
        "agent",
        "host",
        IngestEvent {
            source,
            zeek_log_type: None,
            timestamp: Timestamp { secs, nanos },
            raw: RawEvent::new("{}".to_string(), Vec::new()),
        },
    )
}

#[test]
fn index_for_uses_the_utc_day_of_the_event() {
    let es = EsIndexer::new(&ElasticsearchConfig::default());
    assert_eq!(
        es.index_for(&event_at(EventSource::Zeek, 1_705_314_600, 0)).as_deref(),
        Some("netwatcher-zeek-2024.01.15")
    );
    assert_eq!(es.index_for(&event_at(EventSource::P0f, 0, 0)).as_deref(), Some("netwatcher-p0f-1970.01.01"));
    assert_eq!(
        es.index_for(&event_at(EventSource::Fatt, 1_705_276_799, 999_999_999)).as_deref(),
        Some("netwatcher-fatt-2024.01.14")
    );
    assert_eq!(es.index_for(&event_at(EventSource::Zeek, i64::MAX, 0)), None);
}

#[test]
fn index_template_body_is_the_event_mapping() {
    let body: serde_json::Value = serde_json::from_str(&index_template_body("nw")).unwrap();
    assert_eq!(body["index_patterns"], serde_json::Value::from(vec!["nw-*"]));
    let template = &body["template"];
    assert_eq!(template["settings"]["number_of_shards"], 1);
    assert_eq!(template["settings"]["number_of_replicas"], 0);
    let props = template["mappings"]["properties"].as_object().unwrap();
    assert_eq!(props.len(), 10);
    assert_eq!(props["timestamp"]["type"], "date");
    assert_eq!(props["tags"]["type"], "keyword");
    assert_eq!(props["raw"]["type"], "object");
    let raw = props["raw"]["properties"].as_object().unwrap();
    assert_eq!(raw.len(), 34 + 13 + 3);
    assert_eq!(raw["id.orig_h"]["type"], "keyword");
    assert_eq!(raw["id.orig_p"]["type"], "integer");
    assert_eq!(raw["orig_bytes"]["type"], "long");
    assert_eq!(raw["rejected"]["type"], "boolean");
    assert_eq!(raw["tls"]["properties"]["ja3sAlgorithms"]["type"], "keyword");
    assert_eq!(raw["http"]["properties"].as_object().unwrap().len(), 6);
    assert_eq!(props["threat"]["properties"]["description"]["type"], "text");
    assert_eq!(props["threat"]["properties"].as_object().unwrap().len(), 7);
    assert_eq!(props["attack"]["properties"]["technique"]["type"], "text");
    assert_eq!(props["attack"]["properties"].as_object().unwrap().len(), 8);
}
