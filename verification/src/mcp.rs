//! The MCP server's security controls, tool catalog and request handling decisions.
use vstd::prelude::*;

use crate::gateway::{after_check, RateWindow};
use vstd::utf8::encode_utf8;

use crate::security::{
    allowed_views, concat_strs, is_allowed, lucene_injection_error, reject_lucene_injection_patterns,
    reject_unknown_json_keys, truncate_utf8, truncated_text, unknown_keys_error, JsonArgs,
};
use crate::text::{append_chars, chars_of, decimal, decimal_chars, is_ascii_alphanumeric, str_eq, str_len};
use crate::threat::string_views;

verus! {

broadcast use vstd::string::group_string_axioms;

// ---------------------------------------------------------------------------
// Allow lists
// ---------------------------------------------------------------------------

/// The JSON-RPC methods the server answers.
pub open spec fn allowed_methods() -> Seq<Seq<char>> {
    seq!["initialize"@, "notifications/initialized"@, "tools/list"@, "tools/call"@]
}

/// The event sources searchable by default.
pub open spec fn default_sources() -> Seq<Seq<char>> {
    seq!["zeek"@, "p0f"@, "fatt"@, "enriched"@]
}

/// The tools enabled by default.
pub open spec fn default_tools() -> Seq<Seq<char>> {
    seq!["search_events"@, "threat_summary"@, "analyze_ip"@, "list_sources"@]
}

/// The set of texts a list of strings holds.
pub open spec fn string_set(v: Seq<String>) -> Set<Seq<char>> {
    string_views(v).to_set()
}

/// Whether `s` is one of the strings in `v`.
pub fn contains_str(v: &Vec<String>, s: &str) -> (r: bool)
    ensures
        r == string_views(v@).contains(s@),
{
    let mut i: usize = 0;
    while i < v.len()
        invariant
            i <= v.len(),
            forall|j: int| 0 <= j < i ==> v@[j]@ != s@,
        decreases v.len() - i,
    {
        if str_eq(v[i].as_str(), s) {
            proof {
                assert(string_views(v@)[i as int] == s@);
            }
            return true;
        }
        i += 1;
    }
    proof {
        if string_views(v@).contains(s@) {
            let j = choose|j: int| 0 <= j < v@.len() && string_views(v@)[j] == s@;
            assert(v@[j]@ == s@);
        }
    }
    false
}

/// The distinct strings of `items`, first occurrences kept in order.
fn distinct_strings(items: Vec<String>) -> (r: Vec<String>)
    ensures
        string_views(r@).no_duplicates(),
        string_set(r@) == string_set(items@),
{
    let mut r: Vec<String> = Vec::new();
    let mut i: usize = 0;
    while i < items.len()
        invariant
            i <= items.len(),
            string_views(r@).no_duplicates(),
            string_set(r@) == string_views(items@).take(i as int).to_set(),
        decreases items.len() - i,
    {
        let item = items[i].clone();
        let ghost before = r@;
        proof {
            assert(string_views(items@).take(i + 1) =~= string_views(items@).take(i as int).push(
                item@,
            ));
        }
        if !contains_str(&r, item.as_str()) {
            r.push(item);
            proof {
                assert(string_views(r@) =~= string_views(before).push(item@));
                string_views(before).lemma_push_to_set_commute(item@);
            }
        } else {
            proof {
                assert(string_set(r@) =~= string_set(before).insert(item@));
            }
        }
        proof {
            string_views(items@).take(i as int).lemma_push_to_set_commute(item@);
        }
        i += 1;
    }
    proof {
        assert(string_views(items@).take(items.len() as int) =~= string_views(items@));
    }
    r
}

fn strings_of(items: &[&str]) -> (r: Vec<String>)
    ensures
        string_views(r@) == allowed_views(items@),
{
    let mut r: Vec<String> = Vec::new();
    let mut i: usize = 0;
    while i < items.len()
        invariant
            i <= items.len(),
            string_views(r@) == allowed_views(items@).take(i as int),
        decreases items.len() - i,
    {
        let ghost before = r@;
        let s = items[i].to_owned();
        r.push(s);
        proof {
            assert(string_views(r@) =~= string_views(before).push(s@));
            assert(allowed_views(items@).take(i + 1) =~= allowed_views(items@).take(i as int).push(
                items@[i as int]@,
            ));
        }
        i += 1;
    }
    proof {
        assert(allowed_views(items@).take(items.len() as int) =~= allowed_views(items@));
    }
    r
}

// ---------------------------------------------------------------------------
// Security configuration and errors
// ---------------------------------------------------------------------------

/// Limits and allow lists of the MCP server.
#[derive(Debug, Clone)]
pub struct SecurityConfig {
    pub max_request_bytes: usize,
    pub max_query_length: usize,
    pub max_results_limit: u64,
    pub max_hours: u64,
    pub max_response_bytes: usize,
    pub rate_limit_per_minute: u32,
    /// Searchable sources; their order carries no meaning.
    pub allowed_sources: Vec<String>,
    /// Enabled tools; their order carries no meaning.
    pub enabled_tools: Vec<String>,
}

impl Default for SecurityConfig {
    fn default() -> (r: SecurityConfig)
        ensures
            r.max_request_bytes == 64 * 1024,
            r.max_query_length == 1024,
            r.max_results_limit == 100,
            r.max_hours == 168,
            r.max_response_bytes == 512 * 1024,
            r.rate_limit_per_minute == 120,
            string_views(r.allowed_sources@) == default_sources(),
            string_views(r.enabled_tools@) == default_tools(),
    {
        let sources: [&str; 4] = ["zeek", "p0f", "fatt", "enriched"];
        let tools: [&str; 4] = ["search_events", "threat_summary", "analyze_ip", "list_sources"];
        proof {
            assert(allowed_views(sources@) =~= default_sources());
            assert(allowed_views(tools@) =~= default_tools());
        }
        SecurityConfig {
            max_request_bytes: 64 * 1024,
            max_query_length: 1024,
            max_results_limit: 100,
            max_hours: 168,
            max_response_bytes: 512 * 1024,
            rate_limit_per_minute: 120,
            allowed_sources: strings_of(&sources),
            enabled_tools: strings_of(&tools),
        }
    }
}

impl SecurityConfig {
    /// The default configuration with its source and tool allow lists
    /// replaced by the given lists, where given.
    pub fn from_lists(
        allowed_sources: Option<Vec<String>>,
        enabled_tools: Option<Vec<String>>,
    ) -> (r: SecurityConfig)
        ensures
            r.max_request_bytes == 64 * 1024,
            r.max_query_length == 1024,
            r.max_results_limit == 100,
            r.max_hours == 168,
            r.max_response_bytes == 512 * 1024,
            r.rate_limit_per_minute == 120,
            string_set(r.allowed_sources@) == (match allowed_sources {
                Some(s) => string_set(s@),
                None => default_sources().to_set(),
            }),
            string_set(r.enabled_tools@) == (match enabled_tools {
                Some(t) => string_set(t@),
                None => default_tools().to_set(),
            }),
    {
        let mut config = SecurityConfig::default();
        match allowed_sources {
            Some(sources) => {
                config.allowed_sources = distinct_strings(sources);
            },
            None => {},
        }
        match enabled_tools {
            Some(tools) => {
                config.enabled_tools = distinct_strings(tools);
            },
            None => {},
        }
        config
    }
}

/// Why the server refuses a request or a tool call.
#[derive(Debug, Clone)]
pub enum SecurityError {
    Parse(String),
    Validation(String),
    RateLimit,
    RequestTooLarge { max: usize },
    MethodNotAllowed(String),
    ToolDisabled(String),
}

/// The mathematical value of a [`SecurityError`].
pub enum SecurityErrorView {
    Parse(Seq<char>),
    Validation(Seq<char>),
    RateLimit,
    RequestTooLarge { max: usize },
    MethodNotAllowed(Seq<char>),
    ToolDisabled(Seq<char>),
}

impl View for SecurityError {
    type V = SecurityErrorView;

    open spec fn view(&self) -> SecurityErrorView {
        match self {
            SecurityError::Parse(m) => SecurityErrorView::Parse(m@),
            SecurityError::Validation(m) => SecurityErrorView::Validation(m@),
            SecurityError::RateLimit => SecurityErrorView::RateLimit,
            SecurityError::RequestTooLarge { max } => SecurityErrorView::RequestTooLarge {
                max: *max,
            },
            SecurityError::MethodNotAllowed(m) => SecurityErrorView::MethodNotAllowed(m@),
            SecurityError::ToolDisabled(t) => SecurityErrorView::ToolDisabled(t@),
        }
    }
}

/// The text of an error, as the server logs it.
pub open spec fn error_message(e: SecurityErrorView) -> Seq<char> {
    match e {
        SecurityErrorView::Parse(m) => "parse error: "@ + m,
        SecurityErrorView::Validation(m) => m,
        SecurityErrorView::RateLimit => "rate limit exceeded"@,
        SecurityErrorView::RequestTooLarge { max } => "request exceeds maximum size ("@ + decimal(
            max as nat,
        ) + " bytes)"@,
        SecurityErrorView::MethodNotAllowed(m) => "method not allowed: "@ + m,
        SecurityErrorView::ToolDisabled(t) => "tool not enabled: "@ + t,
    }
}

/// The JSON-RPC error code a refusal is answered with.
pub open spec fn error_code(e: SecurityErrorView) -> i32 {
    match e {
        SecurityErrorView::Parse(_) => -32700i32,
        SecurityErrorView::Validation(_) => -32602i32,
        SecurityErrorView::RateLimit => -32000i32,
        SecurityErrorView::RequestTooLarge { .. } => -32600i32,
        SecurityErrorView::MethodNotAllowed(_) => -32601i32,
        SecurityErrorView::ToolDisabled(_) => -32602i32,
    }
}

/// A JSON-RPC error object.
#[derive(Debug, Clone)]
pub struct JsonRpcError {
    pub code: i32,
    pub message: String,
}

impl SecurityError {
    /// The error's text.
    pub fn message(&self) -> (r: String)
        ensures
            r@ == error_message(self@),
    {
        match self {
            SecurityError::Parse(m) => concat_strs("parse error: ", m.as_str()),
            SecurityError::Validation(m) => m.clone(),
            SecurityError::RateLimit => "rate limit exceeded".to_owned(),
            SecurityError::RequestTooLarge { max } => {
                let mut r = "request exceeds maximum size (".to_owned();
                append_chars(&mut r, &decimal_chars(*max as u64));
                crate::text::append_str(&mut r, " bytes)");
                r
            },
            SecurityError::MethodNotAllowed(m) => concat_strs("method not allowed: ", m.as_str()),
            SecurityError::ToolDisabled(t) => concat_strs("tool not enabled: ", t.as_str()),
        }
    }

    /// The JSON-RPC error a refused request is answered with.
    pub fn to_rpc_error(&self) -> (r: JsonRpcError)
        ensures
            r.code == error_code(self@),
            r.message@ == error_message(self@),
    {
        JsonRpcError {
            code: match self {
                SecurityError::Parse(_) => -32700,
                SecurityError::Validation(_) => -32602,
                SecurityError::RateLimit => -32000,
                SecurityError::RequestTooLarge { .. } => -32600,
                SecurityError::MethodNotAllowed(_) => -32601,
                SecurityError::ToolDisabled(_) => -32602,
            },
            message: self.message(),
        }
    }
}

/// Why a tool call failed.
#[derive(Debug, Clone)]
pub enum ToolError {
    Validation(String),
    Backend,
}

impl ToolError {
    /// The text shown to the client: validation messages as they are, backend
    /// failures without detail.
    pub fn client_message(&self) -> (r: String)
        ensures
            r@ == (match self {
                ToolError::Validation(m) => m@,
                ToolError::Backend => "Search backend unavailable"@,
            }),
    {
        match self {
            ToolError::Validation(m) => m.clone(),
            ToolError::Backend => "Search backend unavailable".to_owned(),
        }
    }
}

/// A `()` result agrees with an expected refusal (`None`: success).
pub open spec fn matches_refusal(r: Result<(), SecurityError>, e: Option<SecurityErrorView>) -> bool {
    match r {
        Ok(_) => e is None,
        Err(x) => e == Some(x@),
    }
}

// ---------------------------------------------------------------------------
// Rate limiting
// ---------------------------------------------------------------------------

/// Fixed-window limiter of MCP requests; times are monotonic nanoseconds.
pub struct RateLimiter {
    max_per_window: u32,
    window_nanos: u64,
    window_start: u64,
    count: u32,
}

impl View for RateLimiter {
    type V = RateWindow;

    closed spec fn view(&self) -> RateWindow {
        RateWindow {
            max_per_window: self.max_per_window,
            window: self.window_nanos,
            start: self.window_start,
            count: self.count,
        }
    }
}

impl RateLimiter {
    pub fn new(max_per_window: u32, window_nanos: u64, now: u64) -> (r: RateLimiter)
        ensures
            r@ == (RateWindow { max_per_window, window: window_nanos, start: now, count: 0 }),
    {
        RateLimiter { max_per_window, window_nanos, window_start: now, count: 0 }
    }

    /// Count one request at time `now`; a rate-limit error when the window's
    /// budget is spent.
    pub fn check(&mut self, now: u64) -> (r: Result<(), SecurityError>)
        ensures
            final(self)@ == after_check(old(self)@, now).1,
            matches_refusal(
                r,
                if after_check(old(self)@, now).0 {
                    None
                } else {
                    Some(SecurityErrorView::RateLimit)
                },
            ),
    {
        let elapsed: u64 = if now >= self.window_start {
            now - self.window_start
        } else {
            0
        };
        if elapsed >= self.window_nanos {
            self.window_start = now;
            self.count = 0;
        }
        if self.count >= self.max_per_window {
            return Err(SecurityError::RateLimit);
        }
        self.count = self.count + 1;
        Ok(())
    }
}

// ---------------------------------------------------------------------------
// Request and argument screening
// ---------------------------------------------------------------------------

pub open spec fn request_size_error(len: usize, max: usize) -> Option<SecurityErrorView> {
    if len > max {
        Some(SecurityErrorView::RequestTooLarge { max })
    } else {
        None
    }
}

/// Refuse a request of more than `max` bytes.
pub fn validate_request_size(len: usize, max: usize) -> (r: Result<(), SecurityError>)
    ensures
        matches_refusal(r, request_size_error(len, max)),
{
    if len > max {
        return Err(SecurityError::RequestTooLarge { max });
    }
    Ok(())
}

pub open spec fn method_error(method: Seq<char>) -> Option<SecurityErrorView> {
    if allowed_methods().contains(method) {
        None
    } else {
        Some(SecurityErrorView::MethodNotAllowed(method))
    }
}

/// Refuse a JSON-RPC method outside the allow list.
pub fn validate_method(method: &str) -> (r: Result<(), SecurityError>)
    ensures
        matches_refusal(r, method_error(method@)),
{
    let methods: [&str; 4] = ["initialize", "notifications/initialized", "tools/list", "tools/call"];
    proof {
        assert(allowed_views(methods@) =~= allowed_methods());
    }
    if is_allowed(method, &methods) {
        Ok(())
    } else {
        Err(SecurityError::MethodNotAllowed(method.to_owned()))
    }
}

pub open spec fn tool_error(tool: Seq<char>, enabled: Seq<String>) -> Option<SecurityErrorView> {
    if string_set(enabled).contains(tool) {
        None
    } else {
        Some(SecurityErrorView::ToolDisabled(tool))
    }
}

/// Refuse a tool that is not enabled.
pub fn validate_tool_enabled(tool: &str, enabled: &Vec<String>) -> (r: Result<(), SecurityError>)
    ensures
        matches_refusal(r, tool_error(tool@, enabled@)),
{
    if contains_str(enabled, tool) {
        Ok(())
    } else {
        Err(SecurityError::ToolDisabled(tool.to_owned()))
    }
}

pub open spec fn is_name_char(c: char) -> bool {
    is_ascii_alphanumeric(c) || c == '-' || c == '_'
}

pub open spec fn all_name_chars(s: Seq<char>) -> bool {
    forall|i: int| 0 <= i < s.len() ==> is_name_char(#[trigger] s[i])
}

fn name_chars_only(s: &str) -> (r: bool)
    ensures
        r == all_name_chars(s@),
{
    let v = chars_of(s);
    let mut i: usize = 0;
    while i < v.len()
        invariant
            i <= v.len(),
            v@ == s@,
            forall|j: int| 0 <= j < i ==> is_name_char(#[trigger] v@[j]),
        decreases v.len() - i,
    {
        let c = v[i];
        if !(crate::text::char_is_ascii_alphanumeric(c) || c == '-' || c == '_') {
            return false;
        }
        i += 1;
    }
    true
}

pub open spec fn index_prefix_error(prefix: Seq<char>) -> Option<SecurityErrorView> {
    if prefix.len() == 0 || str_len(prefix) > 64 {
        Some(SecurityErrorView::Validation("index prefix must be 1-64 characters"@))
    } else if !all_name_chars(prefix) {
        Some(SecurityErrorView::Validation("index prefix contains invalid characters"@))
    } else {
        None
    }
}

/// Refuse an index prefix that is empty, longer than 64 bytes, or holds a
/// character other than ASCII letters, digits, `-` and `_`.
pub fn validate_index_prefix(prefix: &str) -> (r: Result<(), SecurityError>)
    ensures
        matches_refusal(r, index_prefix_error(prefix@)),
{
    if chars_of(prefix).len() == 0 || crate::text::str_byte_len(prefix) > 64 {
        return Err(SecurityError::Validation("index prefix must be 1-64 characters".to_owned()));
    }
    if !name_chars_only(prefix) {
        return Err(
            SecurityError::Validation("index prefix contains invalid characters".to_owned()),
        );
    }
    Ok(())
}

pub open spec fn source_error(source: Seq<char>, allowed: Seq<String>) -> Option<SecurityErrorView> {
    if source.len() == 0 || str_len(source) > 32 {
        Some(SecurityErrorView::Validation("source must be 1-32 characters"@))
    } else if !all_name_chars(source) {
        Some(SecurityErrorView::Validation("source contains invalid characters"@))
    } else if !string_set(allowed).contains(source) {
        Some(SecurityErrorView::Validation("source not allowed: "@ + source))
    } else {
        None
    }
}

/// Refuse a source filter that is malformed or not allowed.
pub fn validate_source(source: &str, allowed: &Vec<String>) -> (r: Result<(), SecurityError>)
    ensures
        matches_refusal(r, source_error(source@, allowed@)),
{
    if chars_of(source).len() == 0 || crate::text::str_byte_len(source) > 32 {
        return Err(SecurityError::Validation("source must be 1-32 characters".to_owned()));
    }
    if !name_chars_only(source) {
        return Err(SecurityError::Validation("source contains invalid characters".to_owned()));
    }
    if !contains_str(allowed, source) {
        return Err(SecurityError::Validation(concat_strs("source not allowed: ", source)));
    }
    Ok(())
}

/// The Unicode bidirectional embedding, override and isolate controls.
pub open spec fn is_bidi_control(c: char) -> bool {
    ('\u{202A}' <= c && c <= '\u{202E}') || ('\u{2066}' <= c && c <= '\u{2069}')
}

pub open spec fn has_bidi_control(text: Seq<char>) -> bool {
    exists|i: int| 0 <= i < text.len() && is_bidi_control(#[trigger] text[i])
}

/// Whether `text` holds a Unicode direction override or isolate.
pub fn contains_bidi_overrides(text: &str) -> (r: bool)
    ensures
        r == has_bidi_control(text@),
{
    let v = chars_of(text);
    let mut i: usize = 0;
    while i < v.len()
        invariant
            i <= v.len(),
            v@ == text@,
            forall|j: int| 0 <= j < i ==> !is_bidi_control(#[trigger] v@[j]),
        decreases v.len() - i,
    {
        let c = v[i];
        if ('\u{202A}' <= c && c <= '\u{202E}') || ('\u{2066}' <= c && c <= '\u{2069}') {
            return true;
        }
        i += 1;
    }
    false
}

/// A byte below 0x20 other than the tab.
pub open spec fn is_control_byte(b: u8) -> bool {
    b < 0x20 && b != 0x09
}

pub open spec fn has_control_byte(text: Seq<char>) -> bool {
    exists|i: int| 0 <= i < encode_utf8(text).len() && is_control_byte(#[trigger] encode_utf8(text)[i])
}

pub open spec fn query_error(query: Seq<char>, max_len: usize) -> Option<SecurityErrorView> {
    if query.len() == 0 {
        Some(SecurityErrorView::Validation("query must not be empty"@))
    } else if str_len(query) > max_len {
        Some(
            SecurityErrorView::Validation(
                "query exceeds maximum length ("@ + decimal(max_len as nat) + " characters)"@,
            ),
        )
    } else if has_control_byte(query) {
        Some(SecurityErrorView::Validation("query contains invalid control characters"@))
    } else if has_bidi_control(query) {
        Some(
            SecurityErrorView::Validation(
                "query contains disallowed unicode direction overrides"@,
            ),
        )
    } else {
        match lucene_injection_error(query) {
            Some(m) => Some(SecurityErrorView::Validation(m)),
            None => None,
        }
    }
}

/// Screen a search query: non-empty, at most `max_len` bytes, no control
/// bytes but the tab, no direction overrides, no field-scoped Lucene syntax.
pub fn validate_query(query: &str, max_len: usize) -> (r: Result<(), SecurityError>)
    ensures
        matches_refusal(r, query_error(query@, max_len)),
{
    if chars_of(query).len() == 0 {
        return Err(SecurityError::Validation("query must not be empty".to_owned()));
    }
    if crate::text::str_byte_len(query) > max_len {
        let mut m = "query exceeds maximum length (".to_owned();
        append_chars(&mut m, &decimal_chars(max_len as u64));
        crate::text::append_str(&mut m, " characters)");
        return Err(SecurityError::Validation(m));
    }
    let bytes = query.as_bytes();
    let mut i: usize = 0;
    while i < bytes.len()
        invariant
            i <= bytes.len(),
            bytes@ == encode_utf8(query@),
            query@.len() != 0,
            str_len(query@) <= max_len,
            forall|j: int| 0 <= j < i ==> !is_control_byte(#[trigger] bytes@[j]),
        decreases bytes.len() - i,
    {
        let b = bytes[i];
        if b < 0x20 && b != 0x09 {
            proof {
                assert(is_control_byte(encode_utf8(query@)[i as int]));
            }
            return Err(
                SecurityError::Validation("query contains invalid control characters".to_owned()),
            );
        }
        i += 1;
    }
    if contains_bidi_overrides(query) {
        return Err(
            SecurityError::Validation(
                "query contains disallowed unicode direction overrides".to_owned(),
            ),
        );
    }
    match reject_lucene_injection_patterns(query) {
        Err(m) => Err(SecurityError::Validation(m)),
        Ok(_) => Ok(()),
    }
}

pub open spec fn ip_text_error(ip: Seq<char>, parses: bool) -> Option<SecurityErrorView> {
    if str_len(ip) > 45 {
        Some(SecurityErrorView::Validation("ip address too long"@))
    } else if !parses {
        Some(SecurityErrorView::Validation("invalid ip address"@))
    } else {
        None
    }
}

/// Screen an IP argument given whether std's `IpAddr` parser accepts it
/// (`is_ip_addr`): at most 45 bytes, and a valid IPv4 or IPv6 address.
pub fn check_ip_text(ip: &str, is_ip_addr: bool) -> (r: Result<(), SecurityError>)
    ensures
        matches_refusal(r, ip_text_error(ip@, is_ip_addr)),
{
    if ip.len() > 45 {
        return Err(SecurityError::Validation("ip address too long".to_owned()));
    }
    if !is_ip_addr {
        return Err(SecurityError::Validation("invalid ip address".to_owned()));
    }
    Ok(())
}

/// A result limit capped at `max`.
pub fn clamp_limit(limit: u64, max: u64) -> (r: u64)
    ensures
        r == if limit <= max {
            limit
        } else {
            max
        },
{
    if limit <= max {
        limit
    } else {
        max
    }
}

/// A lookback window of 1 to `max` hours.
pub fn validate_hours(hours: u64, max: u64) -> (r: Result<u64, SecurityError>)
    ensures
        hours == 0 ==> (r matches Err(e) && e@ == SecurityErrorView::Validation(
            "hours must be greater than zero"@,
        )),
        hours != 0 && hours > max ==> (r matches Err(e) && e@ == SecurityErrorView::Validation(
            "hours exceeds maximum ("@ + decimal(max as nat) + ")"@,
        )),
        1 <= hours <= max ==> r == Ok::<u64, SecurityError>(hours),
{
    if hours == 0 {
        return Err(SecurityError::Validation("hours must be greater than zero".to_owned()));
    }
    if hours > max {
        let mut m = "hours exceeds maximum (".to_owned();
        append_chars(&mut m, &decimal_chars(max));
        crate::text::append_str(&mut m, ")");
        return Err(SecurityError::Validation(m));
    }
    Ok(hours)
}

/// Cap a tool response at `max_bytes` (see [`truncate_utf8`]).
pub fn sanitize_tool_response(text: String, max_bytes: usize) -> (r: String)
    ensures
        r@ == truncated_text(text@, max_bytes),
{
    truncate_utf8(text.as_str(), max_bytes)
}

pub open spec fn args_error(args: JsonArgs, allowed: Seq<Seq<char>>) -> Option<SecurityErrorView> {
    match unknown_keys_error(args, allowed) {
        Some(m) => Some(SecurityErrorView::Validation(m)),
        None => None,
    }
}

fn check_args(args: &JsonArgs, allowed: &[&str]) -> (r: Result<(), SecurityError>)
    ensures
        matches_refusal(r, args_error(*args, allowed_views(allowed@))),
{
    match reject_unknown_json_keys(args, allowed) {
        Err(m) => Err(SecurityError::Validation(m)),
        Ok(_) => Ok(()),
    }
}

/// `search_events` accepts `query`, `source` and `limit`.
pub fn validate_search_args(args: &JsonArgs) -> (r: Result<(), SecurityError>)
    ensures
        matches_refusal(r, args_error(*args, seq!["query"@, "source"@, "limit"@])),
{
    let allowed: [&str; 3] = ["query", "source", "limit"];
    proof {
        assert(allowed_views(allowed@) =~= seq!["query"@, "source"@, "limit"@]);
    }
    check_args(args, &allowed)
}

/// `threat_summary` accepts `hours`.
pub fn validate_threat_summary_args(args: &JsonArgs) -> (r: Result<(), SecurityError>)
    ensures
        matches_refusal(r, args_error(*args, seq!["hours"@])),
{
    let allowed: [&str; 1] = ["hours"];
    proof {
        assert(allowed_views(allowed@) =~= seq!["hours"@]);
    }
    check_args(args, &allowed)
}

/// `analyze_ip` accepts `ip` and `limit`.
pub fn validate_analyze_ip_args(args: &JsonArgs) -> (r: Result<(), SecurityError>)
    ensures
        matches_refusal(r, args_error(*args, seq!["ip"@, "limit"@])),
{
    let allowed: [&str; 2] = ["ip", "limit"];
    proof {
        assert(allowed_views(allowed@) =~= seq!["ip"@, "limit"@]);
    }
    check_args(args, &allowed)
}

/// `list_sources` accepts no arguments.
pub fn validate_list_sources_args(args: &JsonArgs) -> (r: Result<(), SecurityError>)
    ensures
        matches_refusal(r, args_error(*args, Seq::empty())),
{
    let allowed: [&str; 0] = [];
    proof {
        assert(allowed_views(allowed@) =~= Seq::<Seq<char>>::empty());
    }
    check_args(args, &allowed)
}

// ---------------------------------------------------------------------------
// Tool catalog
// ---------------------------------------------------------------------------

/// A tool the server offers: its name, description and JSON input schema (as JSON text).
#[derive(Debug, Clone)]
pub struct McpTool {
    pub name: String,
    pub description: String,
    pub input_schema: String,
}

pub open spec fn tool_view(t: McpTool) -> (Seq<char>, Seq<char>, Seq<char>) {
    (t.name@, t.description@, t.input_schema@)
}

pub open spec fn tool_views(v: Seq<McpTool>) -> Seq<(Seq<char>, Seq<char>, Seq<char>)> {
    v.map_values(|t: McpTool| tool_view(t))
}

/// The full tool catalog, in order.
pub open spec fn catalog_spec() -> Seq<(Seq<char>, Seq<char>, Seq<char>)> {
    seq![
        (
            "search_events"@,
            "Search NetWatcher events in Elasticsearch using Lucene syntax"@,
            "{\"type\":\"object\",\"additionalProperties\":false,\"properties\":{\"query\":{\"type\":\"string\",\"minLength\":1,\"maxLength\":1024},\"source\":{\"type\":\"string\",\"enum\":[\"zeek\",\"p0f\",\"fatt\",\"enriched\"]},\"limit\":{\"type\":\"integer\",\"minimum\":1,\"maximum\":100}},\"required\":[\"query\"]}"@,
        ),
        (
            "threat_summary"@,
            "Summarize threat matches from enriched events"@,
            "{\"type\":\"object\",\"additionalProperties\":false,\"properties\":{\"hours\":{\"type\":\"integer\",\"minimum\":1,\"maximum\":168,\"default\":24}}}"@,
        ),
        (
            "analyze_ip"@,
            "Analyze traffic and fingerprints for an IP"@,
            "{\"type\":\"object\",\"additionalProperties\":false,\"properties\":{\"ip\":{\"type\":\"string\",\"minLength\":3,\"maxLength\":45,\"pattern\":\"^(?:[0-9]{1,3}(?:\\\\.[0-9]{1,3}){3}|[0-9A-Fa-f:]+)$\"},\"limit\":{\"type\":\"integer\",\"minimum\":1,\"maximum\":100}},\"required\":[\"ip\"]}"@,
        ),
        (
            "list_sources"@,
            "List NetWatcher data sources and index patterns"@,
            "{\"type\":\"object\",\"additionalProperties\":false,\"properties\":{}}"@,
        ),
    ]
}

/// The catalog entries whose tool is enabled, in catalog order.
pub open spec fn enabled_catalog(enabled: Seq<String>) -> Seq<(Seq<char>, Seq<char>, Seq<char>)> {
    catalog_spec().filter(|t: (Seq<char>, Seq<char>, Seq<char>)| string_set(enabled).contains(t.0))
}

fn tool(name: &str, description: &str, input_schema: &str) -> (r: McpTool)
    ensures
        tool_view(r) == (name@, description@, input_schema@),
{
    McpTool {
        name: name.to_owned(),
        description: description.to_owned(),
        input_schema: input_schema.to_owned(),
    }
}

impl McpTool {
    /// Every tool the server knows, in catalog order.
    pub fn catalog() -> (r: Vec<McpTool>)
        ensures
            tool_views(r@) == catalog_spec(),
    {
        let mut r: Vec<McpTool> = Vec::new();
        r.push(
            tool(
                "search_events",
                "Search NetWatcher events in Elasticsearch using Lucene syntax",
                "{\"type\":\"object\",\"additionalProperties\":false,\"properties\":{\"query\":{\"type\":\"string\",\"minLength\":1,\"maxLength\":1024},\"source\":{\"type\":\"string\",\"enum\":[\"zeek\",\"p0f\",\"fatt\",\"enriched\"]},\"limit\":{\"type\":\"integer\",\"minimum\":1,\"maximum\":100}},\"required\":[\"query\"]}",
            ),
        );
        r.push(
            tool(
                "threat_summary",
                "Summarize threat matches from enriched events",
                "{\"type\":\"object\",\"additionalProperties\":false,\"properties\":{\"hours\":{\"type\":\"integer\",\"minimum\":1,\"maximum\":168,\"default\":24}}}",
            ),
        );
        r.push(
            tool(
                "analyze_ip",
                "Analyze traffic and fingerprints for an IP",
                "{\"type\":\"object\",\"additionalProperties\":false,\"properties\":{\"ip\":{\"type\":\"string\",\"minLength\":3,\"maxLength\":45,\"pattern\":\"^(?:[0-9]{1,3}(?:\\\\.[0-9]{1,3}){3}|[0-9A-Fa-f:]+)$\"},\"limit\":{\"type\":\"integer\",\"minimum\":1,\"maximum\":100}},\"required\":[\"ip\"]}",
            ),
        );
        r.push(
            tool(
                "list_sources",
                "List NetWatcher data sources and index patterns",
                "{\"type\":\"object\",\"additionalProperties\":false,\"properties\":{}}",
            ),
        );
        proof {
            assert(tool_views(r@) =~= catalog_spec());
        }
        r
    }

    /// The enabled tools, in catalog order.
    pub fn all(security: &SecurityConfig) -> (r: Vec<McpTool>)
        ensures
            tool_views(r@) == enabled_catalog(security.enabled_tools@),
    {
        let catalog = McpTool::catalog();
        let ghost pred = |t: (Seq<char>, Seq<char>, Seq<char>)|
            string_set(security.enabled_tools@).contains(t.0);
        let mut r: Vec<McpTool> = Vec::new();
        let mut i: usize = 0;
        proof {
            assert(catalog_spec().take(0).filter(pred) =~= Seq::empty());
        }
        while i < catalog.len()
            invariant
                i <= catalog.len(),
                tool_views(catalog@) == catalog_spec(),
                pred == (|t: (Seq<char>, Seq<char>, Seq<char>)|
                    string_set(security.enabled_tools@).contains(t.0)),
                tool_views(r@) == catalog_spec().take(i as int).filter(pred),
            decreases catalog.len() - i,
        {
            let ghost before = r@;
            let t = &catalog[i];
            proof {
                assert(catalog_spec().take(i + 1) =~= catalog_spec().take(i as int).push(
                    tool_view(*t),
                ));
                catalog_spec().take(i as int).lemma_filter_push(tool_view(*t), pred);
            }
            if contains_str(&security.enabled_tools, t.name.as_str()) {
                r.push(
                    McpTool {
                        name: t.name.clone(),
                        description: t.description.clone(),
                        input_schema: t.input_schema.clone(),
                    },
                );
                proof {
                    assert(tool_views(r@) =~= tool_views(before).push(tool_view(*t)));
                }
            }
            i += 1;
        }
        proof {
            assert(catalog_spec().take(catalog.len() as int) =~= catalog_spec());
        }
        r
    }
}

// ---------------------------------------------------------------------------
// Request handling decisions
// ---------------------------------------------------------------------------

/// The server's fixed state: the Elasticsearch index prefix and its security settings.
pub struct McpServer {
    index_prefix: String,
    security: SecurityConfig,
}

/// The arguments of a tool call that the tools read: the string or
/// non-negative integer value of each member, where it has one of that kind.
#[derive(Debug, Clone)]
pub struct ToolArgs {
    pub query: Option<String>,
    pub source: Option<String>,
    pub limit: Option<u64>,
    pub hours: Option<u64>,
    pub ip: Option<String>,
}

/// What a tool call asks of the search backend.
#[derive(Debug, Clone)]
pub enum ToolPlan {
    /// A Lucene `query_string` search over `index_pattern`, at most `size` hits.
    Search { index_pattern: String, query: String, size: u64 },
    /// Threat matches over the last `hours` hours in `index_pattern`.
    ThreatSummary { index_pattern: String, hours: u64 },
    /// The source list, with the index prefix.
    ListSources { index_prefix: String },
}

/// The mathematical value of a [`ToolPlan`].
pub enum ToolPlanView {
    Search { index_pattern: Seq<char>, query: Seq<char>, size: u64 },
    ThreatSummary { index_pattern: Seq<char>, hours: u64 },
    ListSources { index_prefix: Seq<char> },
}

impl View for ToolPlan {
    type V = ToolPlanView;

    open spec fn view(&self) -> ToolPlanView {
        match self {
            ToolPlan::Search { index_pattern, query, size } => ToolPlanView::Search {
                index_pattern: index_pattern@,
                query: query@,
                size: *size,
            },
            ToolPlan::ThreatSummary { index_pattern, hours } => ToolPlanView::ThreatSummary {
                index_pattern: index_pattern@,
                hours: *hours,
            },
            ToolPlan::ListSources { index_prefix } => ToolPlanView::ListSources {
                index_prefix: index_prefix@,
            },
        }
    }
}

pub open spec fn pattern_for(prefix: Seq<char>, source: Option<Seq<char>>) -> Seq<char> {
    match source {
        Some(s) => prefix + "-"@ + s + "-*"@,
        None => prefix + "-*"@,
    }
}

/// A requested result count: 20 when absent, at most 100.
pub open spec fn result_size(limit: Option<u64>) -> u64 {
    match limit {
        Some(l) => if l <= 100 {
            l
        } else {
            100
        },
        None => 20,
    }
}

/// The Lucene query that finds events mentioning `ip`.
pub open spec fn ip_query(ip: Seq<char>) -> Seq<char> {
    "id.orig_h:"@ + ip + " OR id.resp_h:"@ + ip + " OR src_ip:"@ + ip + " OR dst_ip:"@ + ip
        + " OR threat.indicator:"@ + ip
}

/// What a call of tool `name` asks for, or the message of the error it fails with.
pub open spec fn tool_plan(prefix: Seq<char>, name: Seq<char>, args: ToolArgs) -> Result<
    ToolPlanView,
    Seq<char>,
> {
    if name == "search_events"@ {
        match args.query {
            Some(q) => Ok(
                ToolPlanView::Search {
                    index_pattern: pattern_for(prefix, crate::text::opt_view(args.source)),
                    query: q@,
                    size: result_size(args.limit),
                },
            ),
            None => Err("missing query"@),
        }
    } else if name == "threat_summary"@ {
        Ok(
            ToolPlanView::ThreatSummary {
                index_pattern: pattern_for(prefix, Some("enriched"@)),
                hours: match args.hours {
                    Some(h) => h,
                    None => 24,
                },
            },
        )
    } else if name == "analyze_ip"@ {
        match args.ip {
            Some(ip) => Ok(
                ToolPlanView::Search {
                    index_pattern: pattern_for(prefix, None),
                    query: ip_query(ip@),
                    size: result_size(args.limit),
                },
            ),
            None => Err("missing ip"@),
        }
    } else if name == "list_sources"@ {
        Ok(ToolPlanView::ListSources { index_prefix: prefix })
    } else {
        Err("unknown tool: "@ + name)
    }
}

/// What the server does with a JSON-RPC request whose method passed screening.
#[derive(Debug, Clone)]
pub enum RpcAction {
    /// Answer `initialize` with the server's capabilities.
    Initialize,
    /// Acknowledge `notifications/initialized` with an empty response.
    Initialized,
    /// Answer `tools/list` with the enabled tools.
    ListTools,
    /// Run the named tool.
    CallTool { name: String },
    /// Answer with a tool error result carrying `message`.
    DenyTool { message: String },
    /// Answer with JSON-RPC error `code` and `message`.
    RpcError { code: i32, message: String },
}

pub enum RpcActionView {
    Initialize,
    Initialized,
    ListTools,
    CallTool { name: Seq<char> },
    DenyTool { message: Seq<char> },
    RpcError { code: i32, message: Seq<char> },
}

impl View for RpcAction {
    type V = RpcActionView;

    open spec fn view(&self) -> RpcActionView {
        match self {
            RpcAction::Initialize => RpcActionView::Initialize,
            RpcAction::Initialized => RpcActionView::Initialized,
            RpcAction::ListTools => RpcActionView::ListTools,
            RpcAction::CallTool { name } => RpcActionView::CallTool { name: name@ },
            RpcAction::DenyTool { message } => RpcActionView::DenyTool { message: message@ },
            RpcAction::RpcError { code, message } => RpcActionView::RpcError {
                code: *code,
                message: message@,
            },
        }
    }
}

/// The action for a request with `method`, whose `params.name` is `tool_name`
/// when that member is a string.
pub open spec fn rpc_action(method: Seq<char>, tool_name: Option<Seq<char>>, enabled: Seq<String>) -> RpcActionView {
    if method == "initialize"@ {
        RpcActionView::Initialize
    } else if method == "notifications/initialized"@ {
        RpcActionView::Initialized
    } else if method == "tools/list"@ {
        RpcActionView::ListTools
    } else if method == "tools/call"@ {
        let name = match tool_name {
            Some(n) => n,
            None => Seq::empty(),
        };
        if string_set(enabled).contains(name) {
            RpcActionView::CallTool { name }
        } else {
            RpcActionView::DenyTool { message: "tool not enabled: "@ + name }
        }
    } else {
        RpcActionView::RpcError { code: -32601i32, message: "method not found: "@ + method }
    }
}

/// A `threat_summary` call always plans a summary over the enriched indices
/// (`{prefix}-enriched-*`) whose lookback is the requested `hours` when the
/// argument is given, and 24 hours only when it is absent.
pub proof fn law_threat_summary_hours(prefix: Seq<char>, args: ToolArgs)
    ensures
        tool_plan(prefix, "threat_summary"@, args) matches Ok(
            ToolPlanView::ThreatSummary { index_pattern, hours },
        ) && index_pattern == prefix + "-"@ + "enriched"@ + "-*"@
            && (args.hours matches Some(h) ==> hours == h)
            && (args.hours is None ==> hours == 24),
{
    reveal_strlit("threat_summary");
    reveal_strlit("search_events");
    assert("threat_summary"@.len() != "search_events"@.len());
}

/// A `search_events` call with a query plans a search for exactly that query
/// over `{prefix}-{source}-*` (or `{prefix}-*` without a source), returning
/// the requested number of results capped at 100, or 20 when none is
/// requested; without a query it fails with `missing query`.
pub proof fn law_search_events_plan(prefix: Seq<char>, args: ToolArgs)
    ensures
        args.query is None ==> tool_plan(prefix, "search_events"@, args) == Err::<
            ToolPlanView,
            Seq<char>,
        >("missing query"@),
        args.query matches Some(q) ==> tool_plan(prefix, "search_events"@, args) matches Ok(
            ToolPlanView::Search { index_pattern, query, size },
        ) && query == q@ && (args.source matches Some(s) ==> index_pattern == prefix + "-"@ + s@
            + "-*"@) && (args.source is None ==> index_pattern == prefix + "-*"@) && (
        args.limit is None ==> size == 20) && (args.limit matches Some(l) ==> size == (if l
            <= 100 {
            l
        } else {
            100
        })),
{
}

/// An `analyze_ip` call with an address plans a search over `{prefix}-*` for
/// events naming it as `id.orig_h`, `id.resp_h`, `src_ip`, `dst_ip` or
/// `threat.indicator`, with the same result count rule as `search_events`;
/// without an address it fails with `missing ip`.
pub proof fn law_analyze_ip_plan(prefix: Seq<char>, args: ToolArgs)
    ensures
        args.ip is None ==> tool_plan(prefix, "analyze_ip"@, args) == Err::<ToolPlanView, Seq<char>>(
            "missing ip"@,
        ),
        args.ip matches Some(ip) ==> tool_plan(prefix, "analyze_ip"@, args) matches Ok(
            ToolPlanView::Search { index_pattern, query, size },
        ) && index_pattern == prefix + "-*"@ && query == "id.orig_h:"@ + ip@ + " OR id.resp_h:"@
            + ip@ + " OR src_ip:"@ + ip@ + " OR dst_ip:"@ + ip@ + " OR threat.indicator:"@ + ip@ && (
        args.limit is None ==> size == 20) && (args.limit matches Some(l) ==> size == (if l
            <= 100 {
            l
        } else {
            100
        })),
{
    reveal_strlit("analyze_ip");
    reveal_strlit("search_events");
    reveal_strlit("threat_summary");
    assert("analyze_ip"@.len() != "search_events"@.len());
    assert("analyze_ip"@.len() != "threat_summary"@.len());
}

/// A call of a tool that is not enabled is denied, never run.
pub proof fn law_disabled_tool_denied(name: Option<Seq<char>>, enabled: Seq<String>)
    requires
        !string_set(enabled).contains(
            match name {
                Some(n) => n,
                None => Seq::empty(),
            },
        ),
    ensures
        rpc_action("tools/call"@, name, enabled) is DenyTool,
{
    reveal_strlit("initialize");
    reveal_strlit("notifications/initialized");
    reveal_strlit("tools/list");
    reveal_strlit("tools/call");
    assert("tools/call"@[0] != "initialize"@[0]);
    assert("tools/call"@[6] != "tools/list"@[6]);
    assert("tools/call"@.len() != "notifications/initialized"@.len());
}

/// `tools/list` lists only enabled tools, and every enabled tool of the catalog.
pub proof fn law_listed_tools_are_enabled(enabled: Seq<String>)
    ensures
        forall|i: int|
            0 <= i < enabled_catalog(enabled).len() ==> string_set(enabled).contains(
                #[trigger] enabled_catalog(enabled)[i].0,
            ),
        forall|i: int|
            0 <= i < catalog_spec().len() && string_set(enabled).contains(catalog_spec()[i].0)
                ==> enabled_catalog(enabled).contains(#[trigger] catalog_spec()[i]),
{
    let pred = |t: (Seq<char>, Seq<char>, Seq<char>)| string_set(enabled).contains(t.0);
    broadcast use vstd::seq_lib::group_filter_ensures;
    assert(enabled_catalog(enabled) == catalog_spec().filter(pred));
    assert forall|i: int|
        0 <= i < catalog_spec().len() && string_set(enabled).contains(catalog_spec()[i].0)
            implies enabled_catalog(enabled).contains(#[trigger] catalog_spec()[i]) by {
        catalog_spec().lemma_filter_contains(pred, i);
    }
}

impl McpServer {
    pub fn new(index_prefix: String, security: SecurityConfig) -> (r: McpServer)
        ensures
            r.prefix() == index_prefix@,
            r.security_config() == security,
    {
        McpServer { index_prefix, security }
    }

    pub closed spec fn prefix(&self) -> Seq<char> {
        self.index_prefix@
    }

    pub closed spec fn security_config(&self) -> SecurityConfig {
        self.security
    }

    pub fn security(&self) -> (r: &SecurityConfig)
        ensures
            *r == self.security_config(),
    {
        &self.security
    }

    /// The index pattern searched for `source` (all sources when `None`).
    pub fn index_pattern(&self, source: Option<&str>) -> (r: String)
        ensures
            r@ == pattern_for(self.prefix(), crate::gateway::opt_str_view(source)),
    {
        let mut r = self.index_prefix.clone();
        match source {
            Some(s) => {
                crate::text::append_str(&mut r, "-");
                crate::text::append_str(&mut r, s);
                crate::text::append_str(&mut r, "-*");
            },
            None => {
                crate::text::append_str(&mut r, "-*");
            },
        }
        r
    }

    /// Decide what a call of tool `name` with `args` asks of the backend.
    pub fn plan_tool_call(&self, name: &str, args: &ToolArgs) -> (r: Result<ToolPlan, ToolError>)
        ensures
            match tool_plan(self.prefix(), name@, *args) {
                Ok(p) => r matches Ok(x) && x@ == p,
                Err(m) => r matches Err(ToolError::Validation(x)) && x@ == m,
            },
    {
        if str_eq(name, "search_events") {
            match &args.query {
                Some(q) => {
                    let pattern = match &args.source {
                        Some(s) => self.index_pattern(Some(s.as_str())),
                        None => self.index_pattern(None),
                    };
                    Ok(ToolPlan::Search { index_pattern: pattern, query: q.clone(), size: size_of(args.limit) })
                },
                None => Err(ToolError::Validation("missing query".to_owned())),
            }
        } else if str_eq(name, "threat_summary") {
            let hours = match args.hours {
                Some(h) => h,
                None => 24,
            };
            Ok(ToolPlan::ThreatSummary { index_pattern: self.index_pattern(Some("enriched")), hours })
        } else if str_eq(name, "analyze_ip") {
            match &args.ip {
                Some(ip) => {
                    let ip = ip.as_str();
                    let mut q = "id.orig_h:".to_owned();
                    crate::text::append_str(&mut q, ip);
                    crate::text::append_str(&mut q, " OR id.resp_h:");
                    crate::text::append_str(&mut q, ip);
                    crate::text::append_str(&mut q, " OR src_ip:");
                    crate::text::append_str(&mut q, ip);
                    crate::text::append_str(&mut q, " OR dst_ip:");
                    crate::text::append_str(&mut q, ip);
                    crate::text::append_str(&mut q, " OR threat.indicator:");
                    crate::text::append_str(&mut q, ip);
                    Ok(ToolPlan::Search { index_pattern: self.index_pattern(None), query: q, size: size_of(args.limit) })
                },
                None => Err(ToolError::Validation("missing ip".to_owned())),
            }
        } else if str_eq(name, "list_sources") {
            Ok(ToolPlan::ListSources { index_prefix: self.index_prefix.clone() })
        } else {
            Err(ToolError::Validation(concat_strs("unknown tool: ", name)))
        }
    }

    /// Decide how to answer a request whose method passed screening.
    pub fn plan_request(&self, method: &str, tool_name: Option<&str>) -> (r: RpcAction)
        ensures
            r@ == rpc_action(
                method@,
                crate::gateway::opt_str_view(tool_name),
                self.security_config().enabled_tools@,
            ),
    {
        if str_eq(method, "initialize") {
            RpcAction::Initialize
        } else if str_eq(method, "notifications/initialized") {
            RpcAction::Initialized
        } else if str_eq(method, "tools/list") {
            RpcAction::ListTools
        } else if str_eq(method, "tools/call") {
            let name: &str = match tool_name {
                Some(n) => n,
                None => "",
            };
            proof {
                reveal_strlit("");
                assert(""@ =~= Seq::<char>::empty());
            }
            match validate_tool_enabled(name, &self.security.enabled_tools) {
                Ok(_) => RpcAction::CallTool { name: name.to_owned() },
                Err(e) => RpcAction::DenyTool { message: e.message() },
            }
        } else {
            RpcAction::RpcError { code: -32601, message: concat_strs("method not found: ", method) }
        }
    }
}

fn size_of(limit: Option<u64>) -> (r: u64)
    ensures
        r == result_size(limit),
{
    match limit {
        Some(l) => clamp_limit(l, 100),
        None => 20,
    }
}

// ---------------------------------------------------------------------------
// Audit redaction
// ---------------------------------------------------------------------------

/// How the audit log shows a string argument.
#[derive(Debug, Clone)]
pub enum Redaction {
    /// Short enough to log as it is.
    Keep,
    /// Logged as this shortened text.
    Shortened(String),
    /// Over 256 bytes, with byte 256 inside a character: no prefix of exactly
    /// 256 bytes exists to log.
    Unsliceable,
}

/// The audit form of a string argument of more than 256 bytes: its first 256
/// bytes, then a marker with its length.
pub open spec fn shortened_text(s: Seq<char>) -> Seq<char> {
    vstd::utf8::decode_utf8(encode_utf8(s).take(256)) + "… [truncated, len="@ + decimal(
        str_len(s) as nat,
    ) + "]"@
}

/// Decide how a string argument appears in the audit log.
pub fn redact_string(s: &str) -> (r: Redaction)
    ensures
        str_len(s@) <= 256 ==> r is Keep,
        str_len(s@) > 256 && vstd::utf8::is_char_boundary(encode_utf8(s@), 256) ==> (r matches Redaction::Shortened(t) && t@ == shortened_text(s@)),
        str_len(s@) > 256 && !vstd::utf8::is_char_boundary(encode_utf8(s@), 256) ==> r is Unsliceable,
{
    let total = s.len();
    if total <= 256 {
        return Redaction::Keep;
    }
    if !s.is_char_boundary(256) {
        return Redaction::Unsliceable;
    }
    proof {
        vstd::utf8::encode_utf8_valid_utf8(s@);
    }
    let (head, _) = s.split_at(256);
    proof {
        vstd::utf8::encode_utf8_decode_utf8(head@);
        assert(encode_utf8(s@).subrange(0, 256) =~= encode_utf8(s@).take(256));
    }
    let mut r = head.to_owned();
    crate::text::append_str(&mut r, "… [truncated, len=");
    append_chars(&mut r, &decimal_chars(total as u64));
    crate::text::append_str(&mut r, "]");
    Redaction::Shortened(r)
}

} // verus!
