use netwatcher::attack::{extract_bzar_attack, technique_text_is_safe};
use netwatcher::event::{
    is_zeek_rotation_timestamp, normalize_zeek_log_stem, EventSource, IngestBatch, IngestEvent,
    NetworkEvent, RawEvent, ThreatSeverity, Timestamp, ZeekLogType,
};
use netwatcher::parser::{
    cap_analyzer_events, is_valid_pcap_magic, p0f_log_events, parse_p0f_line,
    raw_from_string_members,
};
use netwatcher::security::{
    constant_time_eq_str, escape_lucene_query, reject_lucene_injection_patterns,
    reject_unknown_json_keys, truncate_utf8, validate_agent_identifier, validate_ingest_batch,
    validate_threat_feed_url, default_feed_host_suffix, JsonArgs,
};
use netwatcher::threat::{
    extract_ips_from_rule, extract_sid, ip_in_cidr, parse_et_botcc_rules,
    parse_et_compromised_ips, parse_ipv4, IndicatorType, ThreatIndicator, ThreatStore,
};

fn ts() -> Timestamp {
    Timestamp { secs: 1_700_000_000, nanos: 0 }
}

fn pairs(items: &[(&str, &str)]) -> Vec<(String, String)> {
    items.iter().map(|(k, v)| (k.to_string(), v.to_string())).collect()
}

fn indicator(text: &str, kind: IndicatorType, category: &str, severity: ThreatSeverity) -> ThreatIndicator {
    ThreatIndicator {
        indicator: text.to_string(),
        indicator_type: kind,
        categories: vec![category.to_string()],
        severity,
        description: "test".to_string(),
        feed: "test".to_string(),
        rule_id: None,
    }
}

// ---- event ----

#[test]
fn event_source_topic_and_index_names() {
    assert_eq!(EventSource::Zeek.as_str(), "zeek");
    assert_eq!(EventSource::Zeek.kafka_topic("netwatcher"), "netwatcher.zeek");
    assert_eq!(EventSource::P0f.elasticsearch_index("netwatcher"), "netwatcher-p0f");
}

#[test]
fn network_event_from_ingest_sets_fields() {
    let event = NetworkEvent::from_ingest(
        "agent-1",
        "host-a",
        IngestEvent {
            source: EventSource::Fatt,
            zeek_log_type: None,
            timestamp: ts(),
            raw: RawEvent::new("{\"ja3\":\"abc\"}".to_string(), pairs(&[("ja3", "abc")])),
        },
    );
    assert_eq!(event.agent_id, "agent-1");
    assert_eq!(event.hostname, "host-a");
    assert_eq!(event.source, EventSource::Fatt);
    assert!(event.threat.is_none());
}

#[test]
fn network_event_ids_are_fresh() {
    let make = || {
        NetworkEvent::from_ingest(
            "a",
            "h",
            IngestEvent {
                source: EventSource::Zeek,
                zeek_log_type: None,
                timestamp: ts(),
                raw: RawEvent::new("{}".to_string(), Vec::new()),
            },
        )
    };
    let a = make();
    let b = make();
    assert_eq!(a.id.len(), 36);
    assert_ne!(a.id, b.id);
    let chars: Vec<char> = a.id.chars().collect();
    for (i, c) in chars.iter().enumerate() {
        if [8, 13, 18, 23].contains(&i) {
            assert_eq!(*c, '-');
        } else {
            assert!(c.is_ascii_hexdigit() && !c.is_ascii_uppercase());
        }
    }
    assert_eq!(chars[14], '4');
    assert!(['8', '9', 'a', 'b'].contains(&chars[19]));
}

#[test]
fn zeek_log_type_from_rotated_stem() {
    assert_eq!(ZeekLogType::from_log_stem("conn.2026-06-17-02-37-41"), ZeekLogType::Conn);
    assert_eq!(ZeekLogType::from_log_stem("dns.2026-06-17-02-37-31"), ZeekLogType::Dns);
}

#[test]
fn zeek_log_type_names_round_trip() {
    for t in [
        ZeekLogType::Conn,
        ZeekLogType::Dns,
        ZeekLogType::Http,
        ZeekLogType::Ssl,
        ZeekLogType::Files,
        ZeekLogType::Weird,
        ZeekLogType::Notice,
        ZeekLogType::Other("custom".to_string()),
    ] {
        assert_eq!(ZeekLogType::from_name(t.as_str()), t);
    }
}

#[test]
fn zeek_stem_keeps_non_timestamp_suffix() {
    assert_eq!(normalize_zeek_log_stem("conn.summary"), "conn.summary");
    assert_eq!(normalize_zeek_log_stem("conn"), "conn");
    assert!(is_zeek_rotation_timestamp("2026-06-17-02-37-41"));
    assert!(!is_zeek_rotation_timestamp("2026-06-17 02-37-41"));
    assert_eq!(
        ZeekLogType::from_log_stem("custom.2026-06-17-02-37-41"),
        ZeekLogType::Other("custom".to_string())
    );
}

// ---- parser ----

#[test]
fn recognizes_pcap_magic() {
    assert!(is_valid_pcap_magic(&[0xd4, 0xc3, 0xb2, 0xa1, 0x00]));
    assert!(is_valid_pcap_magic(&[0xa1, 0xb2, 0xc3, 0xd4, 0x00]));
    assert!(!is_valid_pcap_magic(b"not a pcap"));
}

#[test]
fn recognizes_nanosecond_and_pcapng_magic() {
    assert!(is_valid_pcap_magic(&[0x4d, 0x3c, 0xb2, 0xa1]));
    assert!(is_valid_pcap_magic(&[0xa1, 0xb2, 0x3c, 0x4d]));
    assert!(is_valid_pcap_magic(&[0x0a, 0x0d, 0x0d, 0x0a, 0x1c]));
    assert!(!is_valid_pcap_magic(&[0xd4, 0xc3, 0xb2]));
    assert!(!is_valid_pcap_magic(&[]));
}

#[test]
fn parser_parse_p0f_line_extracts_fields() {
    let line = "srv|10.0.0.1|1.2.3.4|ether|Linux 3.x";
    let event = parse_p0f_line(line, ts()).unwrap();
    assert_eq!(event.source, EventSource::P0f);
    assert_eq!(event.raw.get_str("src_ip").map(|s| s.as_str()), Some("10.0.0.1"));
}

#[test]
fn parse_p0f_skips_comments() {
    assert!(parse_p0f_line("# comment", ts()).is_none());
    assert!(parse_p0f_line("", ts()).is_none());
}

#[test]
fn p0f_payload_is_sorted_json() {
    let event = parse_p0f_line("srv|10.0.0.1|1.2.3.4|ether|Linux \"3\".x", ts()).unwrap();
    assert_eq!(
        event.raw.json,
        "{\"detail\":\"Linux \\\"3\\\".x\",\"dst_ip\":\"1.2.3.4\",\"link\":\"ether\",\"mod\":\"srv\",\"raw_line\":\"srv|10.0.0.1|1.2.3.4|ether|Linux \\\"3\\\".x\",\"src_ip\":\"10.0.0.1\"}"
    );
    assert_eq!(event.raw.get_str("dst_ip").map(|s| s.as_str()), Some("1.2.3.4"));
    assert_eq!(event.timestamp, ts());
    assert!(event.zeek_log_type.is_none());
    assert!(parse_p0f_line("a|b|c|d", ts()).is_none());
    assert!(parse_p0f_line("   ", ts()).is_none());
}

#[test]
fn p0f_log_keeps_records_only() {
    let events = p0f_log_events("# header\na|b|c|d|e\n\nshort|line\nf|g|h|i|j\n", ts());
    assert_eq!(events.len(), 2);
    assert_eq!(events[0].raw.get_str("mod").map(|s| s.as_str()), Some("a"));
    assert_eq!(events[1].raw.get_str("detail").map(|s| s.as_str()), Some("j"));
}

#[test]
fn analyzer_events_are_capped() {
    let small = IngestEvent {
        source: EventSource::Fatt,
        zeek_log_type: None,
        timestamp: ts(),
        raw: raw_from_string_members(pairs(&[("a", "b")])),
    };
    let big = IngestEvent {
        source: EventSource::P0f,
        zeek_log_type: None,
        timestamp: ts(),
        raw: raw_from_string_members(pairs(&[("payload", "0123456789012345678901234567890123456789")])),
    };
    let big_len = big.raw.json.len();
    let out = cap_analyzer_events(vec![small.clone(), big, small.clone()], 2, 20);
    assert_eq!(out.len(), 2);
    assert_eq!(out[0].raw.json, "{\"a\":\"b\"}");
    assert_eq!(out[1].raw.json, format!("{{\"original_bytes\":{big_len},\"truncated\":true}}"));
    assert!(out[1].raw.string_fields.is_empty());
    assert_eq!(out[1].source, EventSource::P0f);
}

// ---- security ----

#[test]
fn constant_time_eq_matches_equal_strings() {
    assert!(constant_time_eq_str("secret-key", "secret-key"));
    assert!(!constant_time_eq_str("secret-key", "other-key"));
    assert!(!constant_time_eq_str("short", "longer-value"));
}

#[test]
fn rejects_invalid_agent_id() {
    assert!(validate_agent_identifier("", "agent_id").is_err());
    assert!(validate_agent_identifier("agent/../etc", "agent_id").is_err());
}

#[test]
fn agent_identifier_errors_name_the_field() {
    assert_eq!(validate_agent_identifier("", "hostname"), Err("hostname must not be empty".to_string()));
    assert_eq!(
        validate_agent_identifier(&"a".repeat(129), "agent_id"),
        Err("agent_id exceeds maximum length (128 characters)".to_string())
    );
    assert_eq!(
        validate_agent_identifier("bad id", "agent_id"),
        Err("agent_id contains invalid characters".to_string())
    );
    assert_eq!(validate_agent_identifier("edge-sensor_01.lan", "agent_id"), Ok(()));
    assert_eq!(validate_agent_identifier(&"a".repeat(128), "agent_id"), Ok(()));
}

fn batch_of(n: usize, raw_json: &str) -> IngestBatch {
    IngestBatch {
        agent_id: "agent-1".into(),
        hostname: "host-1".into(),
        events: vec![
            IngestEvent {
                source: EventSource::Zeek,
                zeek_log_type: None,
                timestamp: ts(),
                raw: RawEvent::new(raw_json.to_string(), Vec::new()),
            };
            n
        ],
    }
}

#[test]
fn rejects_oversized_batch() {
    let batch = batch_of(3, "{\"x\":1}");
    assert!(validate_ingest_batch(&batch, 2, 1024).is_err());
}

#[test]
fn batch_errors_are_exact() {
    assert_eq!(
        validate_ingest_batch(&batch_of(3, "{\"x\":1}"), 2, 1024),
        Err("batch exceeds maximum event count (2)".to_string())
    );
    assert_eq!(
        validate_ingest_batch(&batch_of(0, "{}"), 2, 1024),
        Err("events must not be empty".to_string())
    );
    assert_eq!(
        validate_ingest_batch(&batch_of(2, "{\"x\":1}"), 2, 6),
        Err("event 0 raw payload exceeds maximum size (6 bytes)".to_string())
    );
    assert_eq!(validate_ingest_batch(&batch_of(2, "{\"x\":1}"), 2, 7), Ok(()));
}

#[test]
fn escapes_lucene_special_chars() {
    let escaped = escape_lucene_query(r#"foo:bar AND (x OR y)"#);
    assert!(escaped.contains(r"foo\:bar"));
    assert!(escaped.contains(r"\("));
}

#[test]
fn escape_lucene_exact() {
    assert_eq!(escape_lucene_query("a+b=c"), r"a\+b\=c");
    assert_eq!(escape_lucene_query(r"\"), r"\\");
    assert_eq!(escape_lucene_query("plain text"), "plain text");
}

#[test]
fn rejects_field_specifiers_in_query() {
    assert!(reject_lucene_injection_patterns("_index:secret").is_err());
    assert!(reject_lucene_injection_patterns("10.0.0.1").is_ok());
}

#[test]
fn lucene_rejections_are_exact() {
    assert_eq!(
        reject_lucene_injection_patterns("a:b"),
        Err("query must not contain field specifiers (':')".to_string())
    );
    assert_eq!(
        reject_lucene_injection_patterns("x _SOURCE y"),
        Err("query contains disallowed pattern: _source".to_string())
    );
    assert_eq!(
        reject_lucene_injection_patterns("QUERY(1)"),
        Err("query contains disallowed pattern: query(".to_string())
    );
}

#[test]
fn accepts_default_threat_feed_urls() {
    assert!(validate_threat_feed_url(
        "https://rules.emergingthreats.net/blockrules/compromised-ips.txt",
        default_feed_host_suffix()
    )
    .is_ok());
    assert!(validate_threat_feed_url("http://evil.example/feed", default_feed_host_suffix()).is_err());
}

#[test]
fn feed_url_errors_are_exact() {
    let suffix = default_feed_host_suffix();
    assert_eq!(validate_threat_feed_url("not a url", suffix), Err("invalid feed URL".to_string()));
    assert_eq!(
        validate_threat_feed_url("http://rules.emergingthreats.net/x", suffix),
        Err("feed URL must use HTTPS".to_string())
    );
    assert_eq!(
        validate_threat_feed_url("https://evilemergingthreats.net/x", suffix),
        Err("feed URL host not allowed: evilemergingthreats.net".to_string())
    );
    assert_eq!(validate_threat_feed_url("https://emergingthreats.net/x", suffix), Ok(()));
}

#[test]
fn rejects_unknown_tool_args() {
    let args = JsonArgs { object_keys: Some(vec!["extra".to_string(), "query".to_string()]) };
    assert!(reject_unknown_json_keys(&args, &["query", "source", "limit"]).is_err());
}

#[test]
fn unknown_key_errors_are_exact() {
    let args = JsonArgs { object_keys: Some(vec!["extra".to_string(), "query".to_string()]) };
    assert_eq!(
        reject_unknown_json_keys(&args, &["query"]),
        Err("unknown argument: extra".to_string())
    );
    assert_eq!(
        reject_unknown_json_keys(&JsonArgs { object_keys: None }, &["query"]),
        Err("arguments must be a JSON object".to_string())
    );
    assert_eq!(
        reject_unknown_json_keys(&JsonArgs { object_keys: Some(vec!["query".to_string()]) }, &["query"]),
        Ok(())
    );
}

#[test]
fn truncate_utf8_cuts_on_char_boundary() {
    assert_eq!(truncate_utf8("hello", 10), "hello");
    assert_eq!(truncate_utf8("héllo", 2), "h… [truncated, total_bytes=6]");
    assert_eq!(truncate_utf8("hello", 3), "hel… [truncated, total_bytes=5]");
}

// ---- threat ----

#[test]
fn parses_compromised_ips() {
    let content = "# comment\n1.2.3.4\n10.0.0.0/8\n";
    let indicators = parse_et_compromised_ips(content);
    assert_eq!(indicators.len(), 2);
}

#[test]
fn compromised_indicators_are_typed() {
    let indicators = parse_et_compromised_ips("  1.2.3.4  extra\n10.0.0.0/8\n");
    assert_eq!(indicators[0].indicator, "1.2.3.4");
    assert_eq!(indicators[0].indicator_type, IndicatorType::Ip);
    assert_eq!(indicators[1].indicator_type, IndicatorType::Cidr);
    assert_eq!(indicators[0].severity, ThreatSeverity::High);
    assert_eq!(indicators[0].categories, vec!["compromised".to_string()]);
    assert_eq!(indicators[0].feed, "emerging_threats_compromised");
}

#[test]
fn cidr_match_works() {
    let mut store = ThreatStore::new();
    store.upsert(indicator("10.0.0.0/8", IndicatorType::Cidr, "test", ThreatSeverity::High));
    assert!(store.lookup_ip("10.1.2.3").is_some());
    assert!(store.lookup_ip("192.168.1.1").is_none());
}

#[test]
fn direct_ip_lookup() {
    let mut store = ThreatStore::new();
    store.upsert(indicator("8.8.8.8", IndicatorType::Ip, "dns", ThreatSeverity::Low));
    assert_eq!(store.len(), 1);
    assert!(store.lookup_ip("8.8.8.8").is_some());
}

#[test]
fn upsert_replaces_same_indicator() {
    let mut store = ThreatStore::new();
    assert!(store.is_empty());
    store.upsert(indicator("8.8.8.8", IndicatorType::Ip, "first", ThreatSeverity::Low));
    store.upsert(indicator("8.8.8.8", IndicatorType::Ip, "second", ThreatSeverity::High));
    store.upsert(indicator("evil.example", IndicatorType::Domain, "d", ThreatSeverity::Medium));
    assert_eq!(store.len(), 2);
    let found = store.lookup_ip("8.8.8.8").unwrap();
    assert_eq!(found.categories, vec!["second".to_string()]);
    assert_eq!(store.lookup_ip("evil.example").unwrap().severity, ThreatSeverity::Medium);
}

#[test]
fn exact_match_wins_over_networks_and_first_network_wins() {
    let mut store = ThreatStore::new();
    store.upsert(indicator("10.0.0.0/8", IndicatorType::Cidr, "wide", ThreatSeverity::Low));
    store.upsert(indicator("10.1.0.0/16", IndicatorType::Cidr, "narrow", ThreatSeverity::High));
    store.upsert(indicator("10.1.2.3", IndicatorType::Ip, "exact", ThreatSeverity::Critical));
    assert_eq!(store.lookup_ip("10.1.2.3").unwrap().categories, vec!["exact".to_string()]);
    assert_eq!(store.lookup_ip("10.1.9.9").unwrap().categories, vec!["wide".to_string()]);
    assert_eq!(store.len(), 3);
    assert!(!store.has_overlong_cidr());
}

#[test]
fn store_from_indicators_upserts_in_order() {
    let store = ThreatStore::from_indicators(vec![
        indicator("1.1.1.1", IndicatorType::Ip, "a", ThreatSeverity::Low),
        indicator("1.1.1.1", IndicatorType::Ip, "b", ThreatSeverity::Low),
        indicator("2.0.0.0/8", IndicatorType::Cidr, "c", ThreatSeverity::Low),
    ]);
    assert_eq!(store.len(), 2);
    assert_eq!(store.lookup_ip("1.1.1.1").unwrap().categories, vec!["b".to_string()]);
    assert_eq!(store.lookup_ip("2.3.4.5").unwrap().categories, vec!["c".to_string()]);
}

#[test]
fn parses_botcc_rules() {
    let content = r#"alert ip $HOME_NET any -> 1.2.3.4 any (msg:"ET BOT"; sid:123; rev:1;)"#;
    let indicators = parse_et_botcc_rules(content);
    assert_eq!(indicators.len(), 1);
    assert_eq!(indicators[0].indicator, "1.2.3.4");
    assert_eq!(indicators[0].rule_id.as_deref(), Some("123"));
}

#[test]
fn botcc_rule_pieces() {
    assert_eq!(extract_sid("x sid: 42 ; rev:1"), Some("42".to_string()));
    assert_eq!(extract_sid("no id here"), None);
    assert_eq!(
        extract_ips_from_rule("alert ip 1.2.3.4,5.6.7.0/24] any -> [8.8.8.8] 9.9.9.9; x.y"),
        vec!["1.2.3.4,5.6.7.0/24".to_string(), "9.9.9.9".to_string()]
    );
    let indicators = parse_et_botcc_rules("alert ip any any -> 10.0.0.0/8 any (sid:7;)");
    assert_eq!(indicators[0].indicator_type, IndicatorType::Cidr);
    assert_eq!(indicators[0].categories, vec!["botnet".to_string(), "c2".to_string()]);
    assert_eq!(indicators[0].severity, ThreatSeverity::Critical);
}

#[test]
fn skips_comments_and_empty_lines() {
    assert!(parse_et_compromised_ips("# only comment\n\n").is_empty());
}

#[test]
fn invalid_cidr_does_not_match() {
    assert!(!ip_in_cidr("10.0.0.1", "not-a-cidr"));
    assert!(parse_ipv4("999.1.1.1").is_none());
}

#[test]
fn cidr_edges() {
    assert!(ip_in_cidr("1.2.3.4", "0.0.0.0/0"));
    assert!(ip_in_cidr("1.2.3.4", "1.2.3.4/32"));
    assert!(!ip_in_cidr("1.2.3.5", "1.2.3.4/32"));
    assert!(ip_in_cidr("192.168.1.77", "192.168.1.0/24"));
    assert_eq!(parse_ipv4("10.0.0.1"), Some([10, 0, 0, 1]));
    assert_eq!(parse_ipv4("1.2.3"), None);
}

// ---- attack ----

fn notice(json: &str, fields: &[(&str, &str)]) -> RawEvent {
    RawEvent::new(json.to_string(), pairs(fields))
}

#[test]
fn parses_bzar_notice_with_sub_field() {
    let raw = notice(
        r#"{"id.orig_h":"10.0.0.2","id.resp_h":"10.0.0.5","msg":"Detected DCSync against 10.0.0.5","note":"ATTACK::Credential_Access","sub":"T1003.006 OS Credential Dumping: DCSync","ts":1718582400.0}"#,
        &[
            ("id.orig_h", "10.0.0.2"),
            ("id.resp_h", "10.0.0.5"),
            ("msg", "Detected DCSync against 10.0.0.5"),
            ("note", "ATTACK::Credential_Access"),
            ("sub", "T1003.006 OS Credential Dumping: DCSync"),
        ],
    );
    let attack = extract_bzar_attack(&raw, Some(&ZeekLogType::Notice)).unwrap();
    assert!(attack.matched);
    assert_eq!(attack.tactic, "Credential Access");
    assert_eq!(attack.tactic_id.as_deref(), Some("TA0006"));
    assert_eq!(attack.technique_id.as_deref(), Some("T1003.006"));
    assert_eq!(attack.technique, "OS Credential Dumping: DCSync");
    assert_eq!(attack.source, "bzar");
}

#[test]
fn parses_sumstats_notice_from_msg() {
    let raw = notice(
        r#"{"msg":"Detected T1018 Remote System Discovery from host 10.0.0.3","note":"ATTACK::Discovery"}"#,
        &[
            ("msg", "Detected T1018 Remote System Discovery from host 10.0.0.3"),
            ("note", "ATTACK::Discovery"),
        ],
    );
    let attack = extract_bzar_attack(&raw, Some(&ZeekLogType::Notice)).unwrap();
    assert_eq!(attack.tactic, "Discovery");
    assert_eq!(attack.technique_id.as_deref(), Some("T1018"));
}

#[test]
fn ignores_non_attack_notices() {
    let raw = notice(
        r#"{"msg":"invalid cert","note":"SSL::Invalid_Server_Cert"}"#,
        &[("msg", "invalid cert"), ("note", "SSL::Invalid_Server_Cert")],
    );
    assert!(extract_bzar_attack(&raw, Some(&ZeekLogType::Notice)).is_none());
}

#[test]
fn ignores_non_notice_logs() {
    let raw = notice(r#"{"id.orig_h":"10.0.0.1"}"#, &[("id.orig_h", "10.0.0.1")]);
    assert!(extract_bzar_attack(&raw, Some(&ZeekLogType::Conn)).is_none());
}

#[test]
fn attack_notice_without_id_keeps_message() {
    let raw = notice(
        r#"{"msg":"lateral movement seen","note":"ATTACK::Lateral_Movement"}"#,
        &[("msg", "lateral movement seen"), ("note", "ATTACK::Lateral_Movement")],
    );
    let attack = extract_bzar_attack(&raw, None).unwrap();
    assert_eq!(attack.tactic, "Lateral Movement");
    assert_eq!(attack.tactic_id.as_deref(), Some("TA0008"));
    assert_eq!(attack.technique_id, None);
    assert_eq!(attack.technique, "lateral movement seen");
    assert_eq!(attack.notice_type, "ATTACK::Lateral_Movement");
    let unknown = notice(r#"{"note":"ATTACK::Collection"}"#, &[("note", "ATTACK::Collection")]);
    let attack = extract_bzar_attack(&unknown, None).unwrap();
    assert_eq!(attack.tactic_id, None);
    assert_eq!(attack.description, "");
}

#[test]
fn technique_ids_are_found_case_insensitively() {
    let raw = notice(
        r#"{"msg":"saw t1021.002 smb","note":"ATTACK::Lateral_Movement"}"#,
        &[("msg", "saw t1021.002 smb"), ("note", "ATTACK::Lateral_Movement")],
    );
    let attack = extract_bzar_attack(&raw, None).unwrap();
    assert_eq!(attack.technique_id.as_deref(), Some("T1021.002"));
}

#[test]
fn constant_time_eq_same_length() {
    assert!(!constant_time_eq_str("secret", "secreT"));
    assert!(constant_time_eq_str("", ""));
}

#[test]
fn string_members_are_escaped_as_json() {
    let raw = raw_from_string_members(pairs(&[("k", "a\\b\n\u{1}\t\"é")]));
    assert_eq!(raw.json, "{\"k\":\"a\\\\b\\n\\u0001\\t\\\"é\"}");
    let parsed: serde_json::Value = serde_json::from_str(&raw.json).unwrap();
    assert_eq!(parsed["k"], "a\\b\n\u{1}\t\"é");
}

#[test]
fn ascii_technique_text_is_always_scannable() {
    assert!(technique_text_is_safe("  T1569.002 System Services  "));
    assert!(technique_text_is_safe("no technique here"));
    assert!(technique_text_is_safe(""));
}
