use netwatcher::enrich::{enrich_event, extract_ips, looks_like_ip};
use netwatcher::event::{EventSource, IngestEvent, NetworkEvent, RawEvent, ThreatSeverity, Timestamp, ZeekLogType};
use netwatcher::threat::{IndicatorType, ThreatIndicator, ThreatStore};

fn event(source: EventSource, log_type: Option<ZeekLogType>, json: &str, fields: &[(&str, &str)]) -> NetworkEvent {
    NetworkEvent::from_ingest(
        "a1",
        "host",
        IngestEvent {
            source,
            zeek_log_type: log_type,
            timestamp: Timestamp { secs: 0, nanos: 0 },
            raw: RawEvent::new(
                json.to_string(),
                fields.iter().map(|(k, v)| (k.to_string(), v.to_string())).collect(),
            ),
        },
    )
}

#[test]
fn enriches_matching_ip() {
    let mut store = ThreatStore::new();
    store.upsert(ThreatIndicator {
        indicator: "1.2.3.4".to_string(),
        indicator_type: IndicatorType::Ip,
        categories: vec!["botnet".to_string()],
        severity: ThreatSeverity::Critical,
        description: "test".to_string(),
        feed: "test".to_string(),
        rule_id: None,
    });
    let mut event = event(EventSource::Zeek, None, r#"{"id.orig_h":"1.2.3.4"}"#, &[("id.orig_h", "1.2.3.4")]);
    enrich_event(&mut event, &store);
    assert!(event.threat.as_ref().unwrap().matched);
    assert!(event.tags.contains(&"threat_match".to_string()));
}

#[test]
fn enriches_bzar_attack_notice() {
    let store = ThreatStore::new();
    let mut event = event(
        EventSource::Zeek,
        Some(ZeekLogType::Notice),
        r#"{"id.orig_h":"10.0.0.2","id.resp_h":"10.0.0.5","msg":"Detected service execution","note":"ATTACK::Execution","sub":"T1569.002 System Services: Service Execution"}"#,
        &[
            ("id.orig_h", "10.0.0.2"),
            ("id.resp_h", "10.0.0.5"),
            ("msg", "Detected service execution"),
            ("note", "ATTACK::Execution"),
            ("sub", "T1569.002 System Services: Service Execution"),
        ],
    );
    enrich_event(&mut event, &store);
    let attack = event.attack.as_ref().unwrap();
    assert!(attack.matched);
    assert_eq!(attack.technique_id.as_deref(), Some("T1569.002"));
    assert!(event.tags.contains(&"attack_match".to_string()));
    assert!(event.tags.contains(&"T1569.002".to_string()));
}

#[test]
fn no_match_leaves_event_clean() {
    let store = ThreatStore::new();
    let mut event = event(EventSource::Zeek, None, r#"{"id.orig_h":"10.0.0.1"}"#, &[("id.orig_h", "10.0.0.1")]);
    enrich_event(&mut event, &store);
    assert!(event.threat.is_none());
    assert!(event.tags.is_empty());
}

#[test]
fn enriches_from_resp_ip_field() {
    let mut store = ThreatStore::new();
    store.upsert(ThreatIndicator {
        indicator: "5.6.7.8".to_string(),
        indicator_type: IndicatorType::Ip,
        categories: vec!["c2".to_string()],
        severity: ThreatSeverity::High,
        description: "c2".to_string(),
        feed: "test".to_string(),
        rule_id: Some("99".to_string()),
    });
    let mut event = event(EventSource::P0f, None, r#"{"dst_ip":"5.6.7.8"}"#, &[("dst_ip", "5.6.7.8")]);
    enrich_event(&mut event, &store);
    assert_eq!(event.threat.as_ref().unwrap().indicator.as_deref(), Some("5.6.7.8"));
}

#[test]
fn enrichment_tags_in_order() {
    let mut store = ThreatStore::new();
    store.upsert(ThreatIndicator {
        indicator: "10.0.0.0/8".to_string(),
        indicator_type: IndicatorType::Cidr,
        categories: vec!["internal".to_string(), "lab".to_string()],
        severity: ThreatSeverity::Low,
        description: "lab".to_string(),
        feed: "test".to_string(),
        rule_id: Some("7".to_string()),
    });
    let mut event = event(
        EventSource::Zeek,
        Some(ZeekLogType::Notice),
        r#"{"id.resp_h":"10.0.0.9","note":"ATTACK::Discovery","msg":"Detected T1018 scan"}"#,
        &[("id.resp_h", "10.0.0.9"), ("note", "ATTACK::Discovery"), ("msg", "Detected T1018 scan")],
    );
    enrich_event(&mut event, &store);
    assert_eq!(
        event.tags,
        vec!["T1018", "attack_match", "bzar", "Discovery", "threat_match", "internal", "lab"]
            .into_iter()
            .map(String::from)
            .collect::<Vec<_>>()
    );
    let threat = event.threat.unwrap();
    assert_eq!(threat.indicator.as_deref(), Some("10.0.0.0/8"));
    assert_eq!(threat.rule_id.as_deref(), Some("7"));
    assert_eq!(threat.severity, ThreatSeverity::Low);
}

#[test]
fn first_sorted_address_wins() {
    let mut store = ThreatStore::new();
    for (ip, cat) in [("9.9.9.9", "nine"), ("1.1.1.1", "one")] {
        store.upsert(ThreatIndicator {
            indicator: ip.to_string(),
            indicator_type: IndicatorType::Ip,
            categories: vec![cat.to_string()],
            severity: ThreatSeverity::Info,
            description: String::new(),
            feed: "test".to_string(),
            rule_id: None,
        });
    }
    let mut event = event(
        EventSource::Fatt,
        None,
        r#"{"server_ip":"9.9.9.9","client_ip":"1.1.1.1"}"#,
        &[("server_ip", "9.9.9.9"), ("client_ip", "1.1.1.1")],
    );
    enrich_event(&mut event, &store);
    assert_eq!(event.threat.unwrap().categories, vec!["one".to_string()]);
}

#[test]
fn extracts_sorted_distinct_addresses() {
    let raw = RawEvent::new(
        String::new(),
        vec![
            ("id.resp_h".to_string(), "10.0.0.5".to_string()),
            ("src_ip".to_string(), "10.0.0.5".to_string()),
            ("peer_h".to_string(), "1.2.3.4".to_string()),
            ("note".to_string(), "9.9.9.9".to_string()),
            ("ipv4".to_string(), "not-an-ip".to_string()),
            ("dst_ip".to_string(), "1.2.3".to_string()),
        ],
    );
    assert_eq!(extract_ips(&raw), vec!["1.2.3.4".to_string(), "10.0.0.5".to_string()]);
}

#[test]
fn address_shape() {
    assert!(looks_like_ip("10.0.0.1"));
    assert!(looks_like_ip("999.1.1.1"));
    assert!(!looks_like_ip("10.0.0"));
    assert!(!looks_like_ip("10.0.0.1.2"));
    assert!(!looks_like_ip("a.b.c.d"));
    assert!(looks_like_ip("..."));
}

#[test]
fn enrichment_safety_check() {
    let mut store = ThreatStore::new();
    store.upsert(ThreatIndicator {
        indicator: "10.0.0.0/40".to_string(),
        indicator_type: IndicatorType::Cidr,
        categories: vec![],
        severity: ThreatSeverity::Low,
        description: String::new(),
        feed: "test".to_string(),
        rule_id: None,
    });
    let clean = event(EventSource::Zeek, None, r#"{"id.orig_h":"bad"}"#, &[("id.orig_h", "bad")]);
    assert!(netwatcher::enrich::enrich_is_safe(&clean, &store));
    let risky = event(EventSource::Zeek, None, r#"{"id.orig_h":"10.0.0.1"}"#, &[("id.orig_h", "10.0.0.1")]);
    assert!(!netwatcher::enrich::enrich_is_safe(&risky, &store));
    store.upsert(ThreatIndicator {
        indicator: "10.0.0.1".to_string(),
        indicator_type: IndicatorType::Ip,
        categories: vec![],
        severity: ThreatSeverity::Low,
        description: String::new(),
        feed: "test".to_string(),
        rule_id: None,
    });
    assert!(netwatcher::enrich::enrich_is_safe(&risky, &store));
    assert!(store.lookup_is_safe("10.0.0.1"));
    assert!(!store.lookup_is_safe("10.0.0.2"));
}

#[test]
fn guarded_enrichment() {
    let store = ThreatStore::new();
    let mut event = event(EventSource::Zeek, None, r#"{"id.orig_h":"10.0.0.1"}"#, &[("id.orig_h", "10.0.0.1")]);
    assert!(netwatcher::enrich::try_enrich_event(&mut event, &store));
    assert!(event.tags.is_empty());
    match netwatcher::attack::try_extract_bzar_attack(&event.raw, None) {
        netwatcher::attack::BzarOutcome::NoAttack => {}
        _ => panic!("not a notice"),
    }
}

#[test]
fn unscannable_technique_text_is_reported() {
    let raw = RawEvent::new(
        r#"{"msg":"T123é","note":"ATTACK::Execution"}"#.to_string(),
        vec![
            ("msg".to_string(), "T123é".to_string()),
            ("note".to_string(), "ATTACK::Execution".to_string()),
        ],
    );
    assert!(matches!(
        netwatcher::attack::try_extract_bzar_attack(&raw, None),
        netwatcher::attack::BzarOutcome::Unscannable
    ));
    let store = ThreatStore::new();
    let mut event = event(
        EventSource::Zeek,
        None,
        r#"{"msg":"T123é","note":"ATTACK::Execution"}"#,
        &[("msg", "T123é"), ("note", "ATTACK::Execution")],
    );
    let before = event.tags.clone();
    assert!(!netwatcher::enrich::try_enrich_event(&mut event, &store));
    assert_eq!(event.tags, before);
    assert!(event.attack.is_none());
}

fn indicator(text: &str, kind: IndicatorType, feed: &str) -> ThreatIndicator {
    ThreatIndicator {
        indicator: text.to_string(),
        indicator_type: kind,
        categories: vec!["botnet".to_string()],
        severity: ThreatSeverity::High,
        description: "test".to_string(),
        feed: feed.to_string(),
        rule_id: None,
    }
}

#[test]
fn lookup_after_upserts_prefers_last_exact_then_first_network() {
    let store = ThreatStore::from_indicators(vec![
        indicator("10.1.0.0/16", IndicatorType::Cidr, "wide"),
        indicator("10.1.2.3", IndicatorType::Ip, "old"),
        indicator("10.1.2.0/24", IndicatorType::Cidr, "narrow"),
        indicator("10.1.2.3", IndicatorType::Ip, "new"),
    ]);
    assert_eq!(store.lookup_ip("10.1.2.3").map(|i| i.feed.as_str()), Some("new"));
    assert_eq!(store.lookup_ip("10.1.2.9").map(|i| i.feed.as_str()), Some("wide"));
    assert_eq!(store.lookup_ip("10.2.0.1").map(|i| i.feed.as_str()), None);
    assert_eq!(store.len(), 3);
}

#[test]
fn refresh_with_no_indicators_keeps_the_store() {
    assert!(ThreatStore::refreshed(Vec::new()).is_none());
    let fresh = ThreatStore::refreshed(vec![indicator("5.6.7.8", IndicatorType::Ip, "et")]).unwrap();
    assert_eq!(fresh.len(), 1);
    assert_eq!(fresh.lookup_ip("5.6.7.8").map(|i| i.feed.as_str()), Some("et"));
}
