use netwatcher::mcp::{
    check_ip_text, clamp_limit, contains_bidi_overrides, redact_string, sanitize_tool_response,
    validate_analyze_ip_args, validate_hours, validate_index_prefix, validate_list_sources_args,
    validate_method, validate_query, validate_request_size, validate_search_args, validate_source,
    validate_threat_summary_args, validate_tool_enabled, McpServer, McpTool, Redaction, RpcAction,
    SecurityConfig, SecurityError, ToolArgs, ToolError, ToolPlan,
};
use netwatcher::security::JsonArgs;

fn message(r: Result<(), SecurityError>) -> String {
    match r {
        Ok(()) => "ok".to_string(),
        Err(e) => e.message(),
    }
}

#[test]
fn rejects_disallowed_method() {
    assert!(validate_method("resources/list").is_err());
}

#[test]
fn allowed_methods_pass() {
    for m in ["initialize", "notifications/initialized", "tools/list", "tools/call"] {
        assert!(validate_method(m).is_ok());
    }
    assert_eq!(message(validate_method("x")), "method not allowed: x");
}

#[test]
fn rejects_oversized_query() {
    let query = "a".repeat(1025);
    assert!(validate_query(&query, 1024).is_err());
}

#[test]
fn rejects_bidi_override_in_query() {
    assert!(validate_query("test\u{202E}payload", 1024).is_err());
}

#[test]
fn rejects_lucene_field_specifiers_in_query() {
    assert!(validate_query("_index:secret", 1024).is_err());
}

#[test]
fn query_screening_messages() {
    assert_eq!(message(validate_query("", 10)), "query must not be empty");
    assert_eq!(message(validate_query("abcdef", 5)), "query exceeds maximum length (5 characters)");
    assert_eq!(message(validate_query("a\u{0}b", 10)), "query contains invalid control characters");
    assert_eq!(message(validate_query("a\tb", 10)), "ok");
    assert_eq!(
        message(validate_query("a\u{2066}b", 10)),
        "query contains disallowed unicode direction overrides"
    );
    assert_eq!(message(validate_query("x QUERY(1)", 100)), "query contains disallowed pattern: query(");
    assert_eq!(message(validate_query("a:b", 100)), "query must not contain field specifiers (':')");
    assert!(contains_bidi_overrides("x\u{202A}"));
    assert!(!contains_bidi_overrides("plain"));
}

#[test]
fn rejects_unknown_tool_arguments() {
    let args = JsonArgs { object_keys: Some(vec!["extra".to_string(), "query".to_string()]) };
    assert!(validate_search_args(&args).is_err());
}

#[test]
fn tool_argument_allow_lists() {
    let keys = |k: &[&str]| JsonArgs { object_keys: Some(k.iter().map(|s| s.to_string()).collect()) };
    assert!(validate_search_args(&keys(&["limit", "query", "source"])).is_ok());
    assert!(validate_threat_summary_args(&keys(&["hours"])).is_ok());
    assert_eq!(message(validate_threat_summary_args(&keys(&["limit"]))), "unknown argument: limit");
    assert!(validate_analyze_ip_args(&keys(&["ip", "limit"])).is_ok());
    assert!(validate_list_sources_args(&keys(&[])).is_ok());
    assert!(validate_list_sources_args(&keys(&["x"])).is_err());
    assert_eq!(
        message(validate_list_sources_args(&JsonArgs { object_keys: None })),
        "arguments must be a JSON object"
    );
}

#[test]
fn security_rate_limiter_blocks_after_threshold_mcp_errors() {
    let e = SecurityError::RateLimit.to_rpc_error();
    assert_eq!(e.code, -32000);
    assert_eq!(e.message, "rate limit exceeded");
    let e = SecurityError::RequestTooLarge { max: 10 }.to_rpc_error();
    assert_eq!(e.code, -32600);
    assert_eq!(e.message, "request exceeds maximum size (10 bytes)");
    let e = SecurityError::Parse("bad".to_string()).to_rpc_error();
    assert_eq!((e.code, e.message.as_str()), (-32700, "parse error: bad"));
    let e = SecurityError::ToolDisabled("t".to_string()).to_rpc_error();
    assert_eq!((e.code, e.message.as_str()), (-32602, "tool not enabled: t"));
    assert_eq!(ToolError::Backend.client_message(), "Search backend unavailable");
    assert_eq!(ToolError::Validation("v".to_string()).client_message(), "v");
}

#[test]
fn request_size_limit() {
    assert!(validate_request_size(10, 10).is_ok());
    assert!(matches!(validate_request_size(11, 10), Err(SecurityError::RequestTooLarge { max: 10 })));
}

#[test]
fn tools_list_has_four_tools_by_default() {
    assert_eq!(McpTool::all(&SecurityConfig::default()).len(), 4);
}

#[test]
fn tools_list_respects_enabled_tools() {
    let mut security = SecurityConfig::default();
    security.enabled_tools.retain(|tool| tool == "list_sources");
    assert_eq!(McpTool::all(&security).len(), 1);
}

#[test]
fn tool_catalog_order_and_schemas() {
    let tools = McpTool::catalog();
    let names: Vec<&str> = tools.iter().map(|t| t.name.as_str()).collect();
    assert_eq!(names, vec!["search_events", "threat_summary", "analyze_ip", "list_sources"]);
    assert!(tools[2].input_schema.contains("\"pattern\":\"^(?:[0-9]{1,3}(?:\\\\.[0-9]{1,3}){3}|[0-9A-Fa-f:]+)$\""));
}

#[test]
fn security_config_lists() {
    let c = SecurityConfig::from_lists(
        Some(vec!["zeek".to_string(), "zeek".to_string()]),
        Some(vec!["analyze_ip".to_string()]),
    );
    assert_eq!(c.allowed_sources, vec!["zeek".to_string()]);
    assert!(validate_tool_enabled("analyze_ip", &c.enabled_tools).is_ok());
    assert_eq!(message(validate_tool_enabled("search_events", &c.enabled_tools)), "tool not enabled: search_events");
    let d = SecurityConfig::from_lists(None, None);
    assert_eq!(d.allowed_sources.len(), 4);
    assert_eq!(d.max_hours, 168);
    assert_eq!(d.rate_limit_per_minute, 120);
}

#[test]
fn source_and_prefix_screening() {
    let c = SecurityConfig::default();
    assert!(validate_source("zeek", &c.allowed_sources).is_ok());
    assert_eq!(message(validate_source("", &c.allowed_sources)), "source must be 1-32 characters");
    assert_eq!(message(validate_source("ze ek", &c.allowed_sources)), "source contains invalid characters");
    assert_eq!(message(validate_source("other", &c.allowed_sources)), "source not allowed: other");
    assert!(validate_index_prefix("netwatcher").is_ok());
    assert_eq!(message(validate_index_prefix(&"a".repeat(65))), "index prefix must be 1-64 characters");
    assert_eq!(message(validate_index_prefix("net*")), "index prefix contains invalid characters");
}

#[test]
fn limits_and_hours() {
    assert_eq!(clamp_limit(500, 100), 100);
    assert_eq!(clamp_limit(5, 100), 5);
    assert_eq!(validate_hours(24, 168).unwrap(), 24);
    assert_eq!(validate_hours(0, 168).unwrap_err().message(), "hours must be greater than zero");
    assert_eq!(validate_hours(169, 168).unwrap_err().message(), "hours exceeds maximum (168)");
    assert_eq!(message(check_ip_text(&"1".repeat(46), true)), "ip address too long");
    assert_eq!(message(check_ip_text("x", false)), "invalid ip address");
    assert!(check_ip_text("10.0.0.1", true).is_ok());
    assert_eq!(sanitize_tool_response("abcdef".to_string(), 3), "abc… [truncated, total_bytes=6]");
}

#[test]
fn index_pattern_for_zeek() {
    let server = McpServer::new("netwatcher".to_string(), SecurityConfig::default());
    assert_eq!(server.index_pattern(Some("zeek")), "netwatcher-zeek-*");
    assert_eq!(server.index_pattern(None), "netwatcher-*");
}

fn args() -> ToolArgs {
    ToolArgs { query: None, source: None, limit: None, hours: None, ip: None }
}

#[test]
fn tool_plans() {
    let server = McpServer::new("nw".to_string(), SecurityConfig::default());
    let mut a = args();
    a.query = Some("dns".to_string());
    a.source = Some("zeek".to_string());
    a.limit = Some(500);
    match server.plan_tool_call("search_events", &a).unwrap() {
        ToolPlan::Search { index_pattern, query, size } => {
            assert_eq!((index_pattern.as_str(), query.as_str(), size), ("nw-zeek-*", "dns", 100));
        }
        _ => panic!("wrong plan"),
    }
    match server.plan_tool_call("threat_summary", &args()).unwrap() {
        ToolPlan::ThreatSummary { index_pattern, hours } => {
            assert_eq!((index_pattern.as_str(), hours), ("nw-enriched-*", 24));
        }
        _ => panic!("wrong plan"),
    }
    let mut b = args();
    b.ip = Some("1.2.3.4".to_string());
    match server.plan_tool_call("analyze_ip", &b).unwrap() {
        ToolPlan::Search { index_pattern, query, size } => {
            assert_eq!(index_pattern, "nw-*");
            assert_eq!(size, 20);
            assert_eq!(
                query,
                "id.orig_h:1.2.3.4 OR id.resp_h:1.2.3.4 OR src_ip:1.2.3.4 OR dst_ip:1.2.3.4 OR threat.indicator:1.2.3.4"
            );
        }
        _ => panic!("wrong plan"),
    }
    assert!(matches!(server.plan_tool_call("search_events", &args()), Err(ToolError::Validation(m)) if m == "missing query"));
    assert!(matches!(server.plan_tool_call("analyze_ip", &args()), Err(ToolError::Validation(m)) if m == "missing ip"));
    assert!(matches!(server.plan_tool_call("nope", &args()), Err(ToolError::Validation(m)) if m == "unknown tool: nope"));
    assert!(matches!(server.plan_tool_call("list_sources", &args()), Ok(ToolPlan::ListSources { index_prefix }) if index_prefix == "nw"));
}

#[test]
fn request_actions() {
    let mut security = SecurityConfig::default();
    security.enabled_tools.retain(|t| t == "list_sources");
    let server = McpServer::new("nw".to_string(), security);
    assert!(matches!(server.plan_request("initialize", None), RpcAction::Initialize));
    assert!(matches!(server.plan_request("notifications/initialized", None), RpcAction::Initialized));
    assert!(matches!(server.plan_request("tools/list", None), RpcAction::ListTools));
    assert!(matches!(server.plan_request("tools/call", Some("list_sources")), RpcAction::CallTool { name } if name == "list_sources"));
    assert!(matches!(server.plan_request("tools/call", Some("search_events")), RpcAction::DenyTool { message } if message == "tool not enabled: search_events"));
    assert!(matches!(server.plan_request("tools/call", None), RpcAction::DenyTool { message } if message == "tool not enabled: "));
    assert!(matches!(server.plan_request("other", None), RpcAction::RpcError { code: -32601, message } if message == "method not found: other"));
}

#[test]
fn audit_redaction() {
    assert!(matches!(redact_string("short"), Redaction::Keep));
    let long = "x".repeat(300);
    match redact_string(&long) {
        Redaction::Shortened(t) => assert_eq!(t, format!("{}… [truncated, len=300]", "x".repeat(256))),
        _ => panic!("expected shortening"),
    }
    let mut awkward = "x".repeat(255);
    awkward.push('é');
    awkward.push_str(&"y".repeat(10));
    assert!(matches!(redact_string(&awkward), Redaction::Unsliceable));
}
