use netwatcher::config::{GatewayConfig, KafkaConfig};
use netwatcher::event::{EventSource, IngestBatch, IngestEvent, NetworkEvent, RawEvent, Timestamp};
use netwatcher::gateway::{
    admit_request, authorize, health, pcap_form_field, pcap_ingest_response, register_response,
    startup_key_check, validate_batch, PcapForm, PcapFormField, RateLimiter, Rejection,
    StartupKeyCheck, TrafficAnalyzer,
};
use netwatcher::mcp;

fn test_config(api_key: Option<&str>) -> GatewayConfig {
    GatewayConfig {
        bind_addr: "0.0.0.0:8080".to_string(),
        api_key: api_key.map(str::to_string),
        require_api_key: false,
        max_body_bytes: 1024 * 1024,
        max_pcap_bytes: 50 * 1024 * 1024,
        max_events_per_batch: 500,
        max_raw_event_bytes: 256 * 1024,
        rate_limit_per_minute: 600,
        p0f_bin: "/usr/local/bin/p0f".to_string(),
        p0f_fp: "/opt/p0f/p0f.fp".to_string(),
        fatt_script: "/opt/fatt/fatt.py".to_string(),
        zeek_bin: "/usr/local/zeek/bin/zeek".to_string(),
        analysis_timeout_secs: 120,
        max_concurrent_pcap_analysis: 2,
        kafka: KafkaConfig::default(),
    }
}

#[test]
fn authorize_without_api_key_allows_all() {
    let config = test_config(None);
    assert!(authorize(&config, None));
}

#[test]
fn authorize_with_api_key_requires_header() {
    let config = test_config(Some("secret"));
    assert!(!authorize(&config, None));
    assert!(authorize(&config, Some("secret")));
}

#[test]
fn authorize_rejects_wrong_length_key_without_panic() {
    let config = test_config(Some("secret"));
    assert!(!authorize(&config, Some("not-secret")));
}

#[test]
fn require_api_key_denies_when_unconfigured() {
    let mut config = GatewayConfig::default();
    config.require_api_key = true;
    config.api_key = None;
    assert!(!authorize(&config, None));
}

#[test]
fn security_rate_limiter_blocks_after_threshold() {
    let minute: u64 = 60_000_000_000;
    let mut limiter = RateLimiter::new(2, minute, 0);
    assert!(limiter.check(0));
    assert!(limiter.check(0));
    assert!(!limiter.check(0));

    let mut limiter = mcp::RateLimiter::new(2, minute, 0);
    assert!(limiter.check(0).is_ok());
    assert!(limiter.check(0).is_ok());
    assert!(matches!(limiter.check(0), Err(mcp::SecurityError::RateLimit)));
}

#[test]
fn rate_limiter_window_resets() {
    let mut limiter = RateLimiter::new(1, 1_000, 5_000);
    assert!(limiter.check(5_000));
    assert!(!limiter.check(5_999));
    assert!(limiter.check(6_000));
    assert!(!limiter.check(6_500));
    // a clock that went backwards counts as no time elapsed
    assert!(!limiter.check(10));
    let mut none = RateLimiter::new(0, 1_000, 0);
    assert!(!none.check(0));
    assert!(!none.check(50_000));
}

#[test]
fn admission_checks_key_before_rate() {
    let config = test_config(Some("k"));
    let mut limiter = RateLimiter::new(1, 1_000_000, 0);
    assert_eq!(admit_request(&config, Some("bad"), &mut limiter, 0), Err(Rejection::Unauthorized));
    assert_eq!(admit_request(&config, Some("k"), &mut limiter, 0), Ok(()));
    assert_eq!(admit_request(&config, Some("k"), &mut limiter, 0), Err(Rejection::TooManyRequests));
    assert_eq!(Rejection::TooManyRequests.status_code(), 429);
    assert_eq!(Rejection::Unauthorized.status_code(), 401);
    assert_eq!(Rejection::PayloadTooLarge.status_code(), 413);
}

#[test]
fn gateway_defaults() {
    let config = GatewayConfig::default();
    assert_eq!(config.max_body_bytes, 10 * 1024 * 1024);
    assert_eq!(config.max_pcap_bytes, 50 * 1024 * 1024);
    assert_eq!(config.max_events_per_batch, 500);
    assert_eq!(config.max_raw_event_bytes, 262_144);
    assert_eq!(config.rate_limit_per_minute, 600);
    assert_eq!(config.kafka.brokers, "kafka:9092");
}

#[test]
fn analyzer_constructs_with_defaults() {
    let analyzer = TrafficAnalyzer::new(GatewayConfig::default());
    assert_eq!(analyzer.config.p0f_bin, "/usr/local/bin/p0f");
}

fn ingest(source: EventSource, tag: &str) -> IngestEvent {
    IngestEvent {
        source,
        zeek_log_type: None,
        timestamp: Timestamp { secs: 1, nanos: 2 },
        raw: RawEvent::new(format!("{{\"t\":\"{tag}\"}}"), vec![("t".to_string(), tag.to_string())]),
    }
}

#[test]
fn analyzer_events_keep_order_and_limit() {
    let mut config = GatewayConfig::default();
    config.max_events_per_batch = 3;
    let analyzer = TrafficAnalyzer::new(config);
    let events = analyzer.assemble_events(
        "agent",
        "host",
        Vec::new(),
        vec![ingest(EventSource::P0f, "p1"), ingest(EventSource::P0f, "p2")],
        vec![ingest(EventSource::Fatt, "f1"), ingest(EventSource::Fatt, "f2")],
    );
    assert_eq!(events.len(), 3);
    assert_eq!(events[2].source, EventSource::Fatt);
    assert_eq!(events[2].raw.get_str("t").map(|s| s.as_str()), Some("f1"));
    assert_eq!(events[0].agent_id, "agent");
    let response = pcap_ingest_response(2, &events, "capture-0001.pcap".to_string());
    assert_eq!(response.p0f_events, 2);
    assert_eq!(response.fatt_events, 1);
    assert_eq!(response.zeek_events, 0);
    assert_eq!(response.accepted, 2);
}

#[test]
fn analyzer_events_put_zeek_before_p0f_and_fatt() {
    let mut config = GatewayConfig::default();
    config.max_events_per_batch = 4;
    let analyzer = TrafficAnalyzer::new(config);
    let events = analyzer.assemble_events(
        "agent",
        "host",
        vec![ingest(EventSource::Zeek, "z1"), ingest(EventSource::Zeek, "z2")],
        vec![ingest(EventSource::P0f, "p1")],
        vec![ingest(EventSource::Fatt, "f1"), ingest(EventSource::Fatt, "f2")],
    );
    let tags: Vec<&str> = events.iter().map(|e| e.raw.get_str("t").map(|s| s.as_str()).unwrap_or("")).collect();
    assert_eq!(tags, vec!["z1", "z2", "p1", "f1"]);
    assert!(events.iter().all(|e| e.agent_id == "agent" && e.hostname == "host"));
    let response = pcap_ingest_response(4, &events, "capture-0002.pcap".to_string());
    assert_eq!(response.zeek_events, 2);
    assert_eq!(response.p0f_events, 1);
    assert_eq!(response.fatt_events, 1);
    assert_eq!(response.accepted, 4);
}

#[test]
fn analyzer_events_fill_the_limit_with_zeek_first() {
    let mut config = GatewayConfig::default();
    config.max_events_per_batch = 2;
    let analyzer = TrafficAnalyzer::new(config);
    let events = analyzer.assemble_events(
        "agent",
        "host",
        vec![ingest(EventSource::Zeek, "z1"), ingest(EventSource::Zeek, "z2"), ingest(EventSource::Zeek, "z3")],
        vec![ingest(EventSource::P0f, "p1")],
        Vec::new(),
    );
    assert_eq!(events.len(), 2);
    assert!(events.iter().all(|e| e.source == EventSource::Zeek));
}

#[test]
fn batch_envelopes_and_registration() {
    let batch = IngestBatch {
        agent_id: "agent-7".to_string(),
        hostname: "edge".to_string(),
        events: vec![ingest(EventSource::Zeek, "z")],
    };
    assert_eq!(validate_batch(&test_config(None), &batch), Ok(()));
    let reg = register_response(&batch);
    assert_eq!(reg.agent_id, "agent-7");
    assert_eq!(reg.status, "registered");
    let events = NetworkEvent::from_batch(batch);
    assert_eq!(events.len(), 1);
    assert_eq!(events[0].hostname, "edge");
    assert!(events[0].tags.is_empty());
    let h = health();
    assert_eq!(h.status, "ok");
    assert_eq!(h.service, "netwatcher-gateway");
}

fn pcap_bytes() -> Vec<u8> {
    vec![0xd4, 0xc3, 0xb2, 0xa1, 2, 0, 4, 0]
}

#[test]
fn pcap_upload_form() {
    let mut form = PcapForm::new();
    form.set_text(pcap_form_field(Some("agent_id")), "agent-1".to_string());
    form.set_text(pcap_form_field(Some("hostname")), "host-1".to_string());
    form.set_text(pcap_form_field(Some("filename")), "capture-0001.pcap".to_string());
    form.set_text(pcap_form_field(Some("unrelated")), "x".to_string());
    assert_eq!(pcap_form_field(Some("pcap")), PcapFormField::Pcap);
    assert_eq!(pcap_form_field(None), PcapFormField::Other);
    assert_eq!(form.set_pcap(vec![0; 10], 4), Err(Rejection::PayloadTooLarge));
    assert!(form.pcap.is_none());
    assert_eq!(form.set_pcap(pcap_bytes(), 64), Ok(()));
    let upload = form.clone().finish().unwrap();
    assert_eq!(upload.interface, "unknown");
    assert_eq!(upload.agent_id, "agent-1");
    assert_eq!(upload.pcap, pcap_bytes());

    let mut bad = form.clone();
    bad.set_text(PcapFormField::Interface, "eth0; rm".to_string());
    assert!(matches!(bad.finish(), Err(Rejection::BadRequest)));
    let mut not_pcap = form.clone();
    assert_eq!(not_pcap.set_pcap(b"hello".to_vec(), 64), Ok(()));
    assert!(matches!(not_pcap.finish(), Err(Rejection::BadRequest)));
    let mut missing = PcapForm::new();
    assert_eq!(missing.set_pcap(pcap_bytes(), 64), Ok(()));
    assert!(matches!(missing.finish(), Err(Rejection::BadRequest)));
}

#[test]
fn startup_refuses_a_required_key_that_is_missing() {
    assert_eq!(startup_key_check(true, None), StartupKeyCheck::Refuse);
    assert_eq!(startup_key_check(false, None), StartupKeyCheck::WarnUnauthenticated);
    assert_eq!(startup_key_check(true, Some("k")), StartupKeyCheck::Start);
    assert_eq!(startup_key_check(false, Some("k")), StartupKeyCheck::Start);
}
