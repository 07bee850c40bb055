//! Input validation and hardening shared by the gateway, enricher and MCP server.
use vstd::prelude::*;
use vstd::utf8::{decode_utf8, encode_utf8, is_char_boundary};

use crate::event::{IngestBatch, IngestEvent};
use crate::text::{
    append_chars, append_str, char_is_ascii_alphanumeric, chars_of, contains_char,
    contains_chars, contains_seq, decimal, decimal_chars, ends_with, ends_with_chars,
    is_ascii_alphanumeric, opt_view, str_byte_len, str_eq, str_len, string_from_chars,
    to_ascii_lowercase, to_ascii_lowercase_chars, utf8_len,
};

verus! {

broadcast use vstd::string::group_string_axioms, vstd::utf8::group_utf8_lib;

// ---------------------------------------------------------------------------
// Secret comparison
// ---------------------------------------------------------------------------

/// Calls subtle's `ConstantTimeEq::ct_eq` on two byte slices: the result is
/// true exactly when both slices have the same length and the same bytes.
#[verifier::external_body]
fn ct_eq_bytes(a: &[u8], b: &[u8]) -> (r: bool)
    ensures
        r == (a@ == b@),
{
    bool::from(subtle::ConstantTimeEq::ct_eq(a, b))
}

/// Compare two secret strings in constant time (same-length only).
pub fn constant_time_eq_str(a: &str, b: &str) -> (r: bool)
    ensures
        r == (a@ == b@),
{
    let ab = a.as_bytes();
    let bb = b.as_bytes();
    if ab.len() != bb.len() {
        return false;
    }
    let r = ct_eq_bytes(ab, bb);
    proof {
        vstd::utf8::encode_utf8_decode_utf8(a@);
        vstd::utf8::encode_utf8_decode_utf8(b@);
    }
    r
}

// ---------------------------------------------------------------------------
// Agent identifiers and ingest batches
// ---------------------------------------------------------------------------

pub open spec fn is_identifier_char(c: char) -> bool {
    is_ascii_alphanumeric(c) || c == '-' || c == '_' || c == '.'
}

/// The error for an agent_id / hostname value, if it is not acceptable.
pub open spec fn agent_identifier_error(value: Seq<char>, field: Seq<char>) -> Option<Seq<char>> {
    if value.len() == 0 {
        Some(field + " must not be empty"@)
    } else if str_len(value) > 128 {
        Some(field + " exceeds maximum length (128 characters)"@)
    } else if !(forall|i: int| 0 <= i < value.len() ==> is_identifier_char(#[trigger] value[i])) {
        Some(field + " contains invalid characters"@)
    } else {
        None
    }
}

pub open spec fn unit_result_matches(r: Result<(), String>, e: Option<Seq<char>>) -> bool {
    match r {
        Ok(_) => e is None,
        Err(m) => e == Some(m@),
    }
}

pub(crate) fn concat_strs(a: &str, b: &str) -> (r: String)
    ensures
        r@ == a@ + b@,
{
    let mut r = a.to_owned();
    append_str(&mut r, b);
    r
}

/// Validate agent_id / hostname fields on ingest payloads.
pub fn validate_agent_identifier(value: &str, field: &str) -> (r: Result<(), String>)
    ensures
        unit_result_matches(r, agent_identifier_error(value@, field@)),
{
    let v = chars_of(value);
    if v.len() == 0 {
        return Err(concat_strs(field, " must not be empty"));
    }
    if str_byte_len(value) > 128 {
        return Err(concat_strs(field, " exceeds maximum length (128 characters)"));
    }
    let mut i: usize = 0;
    while i < v.len()
        invariant
            i <= v.len(),
            v@ == value@,
            v@.len() != 0,
            str_len(value@) <= 128,
            forall|j: int| 0 <= j < i ==> is_identifier_char(#[trigger] v@[j]),
        decreases v.len() - i,
    {
        let c = v[i];
        if !(char_is_ascii_alphanumeric(c) || c == '-' || c == '_' || c == '.') {
            proof {
                assert(!is_identifier_char(value@[i as int]));
            }
            return Err(concat_strs(field, " contains invalid characters"));
        }
        i += 1;
    }
    Ok(())
}

const DEFAULT_MAX_EVENTS_PER_BATCH: usize = 500;

const DEFAULT_MAX_RAW_EVENT_BYTES: usize = 262144;

/// Index of the first event whose raw payload encodes to more than `max` bytes.
pub open spec fn first_oversized(events: Seq<IngestEvent>, max: usize) -> Option<int>
    decreases events.len(),
{
    if events.len() == 0 {
        None
    } else if str_len(events[0].raw.json@) > max {
        Some(0)
    } else {
        match first_oversized(events.drop_first(), max) {
            Some(i) => Some(i + 1),
            None => None,
        }
    }
}

/// The error for an ingest batch, if it is not acceptable.
pub open spec fn ingest_batch_error(batch: IngestBatch, max_events: usize, max_raw_bytes: usize) -> Option<
    Seq<char>,
> {
    if agent_identifier_error(batch.agent_id@, "agent_id"@) is Some {
        agent_identifier_error(batch.agent_id@, "agent_id"@)
    } else if agent_identifier_error(batch.hostname@, "hostname"@) is Some {
        agent_identifier_error(batch.hostname@, "hostname"@)
    } else if batch.events.len() == 0 {
        Some("events must not be empty"@)
    } else if batch.events.len() > max_events {
        Some("batch exceeds maximum event count ("@ + decimal(max_events as nat) + ")"@)
    } else {
        match first_oversized(batch.events@, max_raw_bytes) {
            Some(i) => Some(
                "event "@ + decimal(i as nat) + " raw payload exceeds maximum size ("@ + decimal(
                    max_raw_bytes as nat,
                ) + " bytes)"@,
            ),
            None => None,
        }
    }
}

fn decimal_string(n: usize) -> (r: Vec<char>)
    ensures
        r@ == decimal(n as nat),
{
    decimal_chars(n as u64)
}

/// Validate an ingest batch size and embedded event payloads.
pub fn validate_ingest_batch(batch: &IngestBatch, max_events: usize, max_raw_bytes: usize) -> (r:
    Result<(), String>)
    ensures
        unit_result_matches(r, ingest_batch_error(*batch, max_events, max_raw_bytes)),
{
    match validate_agent_identifier(batch.agent_id.as_str(), "agent_id") {
        Err(e) => {
            return Err(e);
        },
        Ok(_) => {},
    }
    match validate_agent_identifier(batch.hostname.as_str(), "hostname") {
        Err(e) => {
            return Err(e);
        },
        Ok(_) => {},
    }
    if batch.events.len() == 0 {
        return Err("events must not be empty".to_owned());
    }
    if batch.events.len() > max_events {
        let mut m = "batch exceeds maximum event count (".to_owned();
        append_chars(&mut m, &decimal_string(max_events));
        append_str(&mut m, ")");
        return Err(m);
    }
    let n = batch.events.len();
    let mut index: usize = 0;
    proof {
        assert(batch.events@.skip(0) =~= batch.events@);
    }
    while index < n
        invariant
            index <= n,
            n == batch.events.len(),
            agent_identifier_error(batch.agent_id@, "agent_id"@) is None,
            agent_identifier_error(batch.hostname@, "hostname"@) is None,
            n > 0,
            n <= max_events,
            first_oversized(batch.events@, max_raw_bytes) == (match first_oversized(
                batch.events@.skip(index as int),
                max_raw_bytes,
            ) {
                Some(i) => Some(i + index),
                None => None::<int>,
            }),
        decreases n - index,
    {
        proof {
            assert(batch.events@.skip(index as int).drop_first() =~= batch.events@.skip(
                index + 1,
            ));
        }
        let raw_len = batch.events[index].raw.encoded_len();
        proof {
            assert(batch.events@.skip(index as int)[0] == batch.events@[index as int]);
        }
        if raw_len > max_raw_bytes {
            let mut m = "event ".to_owned();
            append_chars(&mut m, &decimal_string(index));
            append_str(&mut m, " raw payload exceeds maximum size (");
            append_chars(&mut m, &decimal_string(max_raw_bytes));
            append_str(&mut m, " bytes)");
            return Err(m);
        }
        index += 1;
    }
    Ok(())
}

proof fn lemma_no_oversized(events: Seq<IngestEvent>, max: usize)
    requires
        first_oversized(events, max) is None,
    ensures
        forall|i: int| 0 <= i < events.len() ==> str_len(#[trigger] events[i].raw.json@) <= max,
    decreases events.len(),
{
    if events.len() > 0 {
        lemma_no_oversized(events.drop_first(), max);
        assert forall|i: int| 0 <= i < events.len() implies str_len(#[trigger] events[i].raw.json@) <= max by {
            if i > 0 {
                assert(events[i] == events.drop_first()[i - 1]);
            }
        }
    }
}

/// An accepted batch respects every limit: well-formed agent and host names,
/// between one and `max_events` events, each payload at most `max_raw_bytes`.
pub proof fn law_accepted_batch_within_limits(batch: IngestBatch, max_events: usize, max_raw_bytes: usize)
    requires
        ingest_batch_error(batch, max_events, max_raw_bytes) is None,
    ensures
        agent_identifier_error(batch.agent_id@, "agent_id"@) is None,
        agent_identifier_error(batch.hostname@, "hostname"@) is None,
        1 <= batch.events.len() <= max_events,
        forall|i: int|
            0 <= i < batch.events.len() ==> str_len(#[trigger] batch.events@[i].raw.json@) <= max_raw_bytes,
{
    lemma_no_oversized(batch.events@, max_raw_bytes);
}

pub fn default_max_events_per_batch() -> (r: usize)
    ensures
        r == 500,
{
    DEFAULT_MAX_EVENTS_PER_BATCH
}

pub fn default_max_raw_event_bytes() -> (r: usize)
    ensures
        r == 262144,
{
    DEFAULT_MAX_RAW_EVENT_BYTES
}

// ---------------------------------------------------------------------------
// Lucene query hardening
// ---------------------------------------------------------------------------

/// The characters with a meaning in Lucene query syntax.
pub open spec fn is_lucene_special(c: char) -> bool {
    c == '\\' || c == '+' || c == '-' || c == '!' || c == '(' || c == ')' || c == '{' || c == '}'
        || c == '[' || c == ']' || c == '^' || c == '"' || c == '~' || c == '*' || c == '?' || c
        == ':' || c == '/' || c == '&' || c == '|' || c == '<' || c == '>' || c == '='
}

pub open spec fn escape_char(c: char) -> Seq<char> {
    if is_lucene_special(c) {
        seq!['\\', c]
    } else {
        seq![c]
    }
}

/// Every special character preceded by a backslash.
pub open spec fn escape_lucene(s: Seq<char>) -> Seq<char>
    decreases s.len(),
{
    if s.len() == 0 {
        Seq::empty()
    } else {
        escape_lucene(s.drop_last()) + escape_char(s.last())
    }
}

/// Undo [`escape_lucene`]: a backslash makes the next character literal.
pub open spec fn unescape_lucene(s: Seq<char>) -> Seq<char>
    decreases s.len(),
{
    if s.len() == 0 {
        Seq::empty()
    } else if s[0] == '\\' && s.len() >= 2 {
        seq![s[1]] + unescape_lucene(s.skip(2))
    } else {
        seq![s[0]] + unescape_lucene(s.skip(1))
    }
}

fn is_lucene_special_char(c: char) -> (r: bool)
    ensures
        r == is_lucene_special(c),
{
    c == '\\' || c == '+' || c == '-' || c == '!' || c == '(' || c == ')' || c == '{' || c == '}'
        || c == '[' || c == ']' || c == '^' || c == '"' || c == '~' || c == '*' || c == '?' || c
        == ':' || c == '/' || c == '&' || c == '|' || c == '<' || c == '>' || c == '='
}

/// Escape Lucene special characters so user input cannot alter query structure.
pub fn escape_lucene_query(query: &str) -> (r: String)
    ensures
        r@ == escape_lucene(query@),
{
    let q = chars_of(query);
    let mut out: Vec<char> = Vec::new();
    let mut i: usize = 0;
    while i < q.len()
        invariant
            i <= q.len(),
            out@ == escape_lucene(q@.take(i as int)),
        decreases q.len() - i,
    {
        let ch = q[i];
        proof {
            assert(q@.take(i + 1).drop_last() =~= q@.take(i as int));
        }
        let ghost before = out@;
        if is_lucene_special_char(ch) {
            out.push('\\');
        }
        out.push(ch);
        proof {
            assert(out@ =~= before + escape_char(ch));
        }
        i += 1;
    }
    proof {
        assert(q@.take(q.len() as int) =~= q@);
    }
    string_from_chars(&out)
}

/// `escape(c :: u) == escape_char(c) + escape(u)`.
proof fn lemma_escape_front(u: Seq<char>)
    ensures
        u.len() > 0 ==> escape_lucene(u) == escape_char(u[0]) + escape_lucene(u.drop_first()),
    decreases u.len(),
{
    if u.len() > 1 {
        lemma_escape_front(u.drop_last());
        assert(u.drop_last().drop_first() =~= u.drop_first().drop_last());
        assert(u.drop_last()[0] == u[0]);
        assert(u.drop_first().last() == u.last());
        assert(escape_lucene(u) =~= escape_char(u[0]) + escape_lucene(u.drop_first()));
    } else if u.len() == 1 {
        assert(u.drop_last() =~= Seq::<char>::empty());
        assert(u.drop_first() =~= Seq::<char>::empty());
        assert(escape_lucene(u) =~= escape_char(u[0]) + escape_lucene(u.drop_first()));
    }
}

/// Escaping works piece by piece: the escape of a query is the escape of its
/// first part followed by the escape of the rest.
pub proof fn law_escape_concat(a: Seq<char>, b: Seq<char>)
    ensures
        escape_lucene(a + b) == escape_lucene(a) + escape_lucene(b),
    decreases b.len(),
{
    if b.len() == 0 {
        assert(a + b =~= a);
        assert(escape_lucene(a) + escape_lucene(b) =~= escape_lucene(a));
    } else {
        law_escape_concat(a, b.drop_last());
        assert((a + b).drop_last() =~= a + b.drop_last());
        assert((a + b).last() == b.last());
        assert(escape_lucene(a + b) =~= escape_lucene(a) + escape_lucene(b));
    }
}

/// Which characters are escaped: each character of Lucene syntax
/// (`\ + - ! ( ) { } [ ] ^ " ~ * ? : / & | < > =`) comes out preceded by a
/// backslash, and every other character comes out as it is.
pub proof fn law_escape_one_char(c: char)
    ensures
        escape_lucene(seq![c]) == (if c == '\\' || c == '+' || c == '-' || c == '!' || c == '('
            || c == ')' || c == '{' || c == '}' || c == '[' || c == ']' || c == '^' || c == '"' || c
            == '~' || c == '*' || c == '?' || c == ':' || c == '/' || c == '&' || c == '|' || c
            == '<' || c == '>' || c == '=' {
            seq!['\\', c]
        } else {
            seq![c]
        }),
{
    let s = seq![c];
    assert(s.drop_last() =~= Seq::<char>::empty());
    assert(s.last() == c);
    assert(escape_lucene(Seq::<char>::empty()) =~= Seq::<char>::empty());
    assert(escape_lucene(s) == escape_lucene(s.drop_last()) + escape_char(s.last()));
    assert(escape_lucene(s) =~= escape_char(c));
}

/// Escaping loses nothing: unescaping an escaped query gives the query back.
pub proof fn law_escape_roundtrip(q: Seq<char>)
    ensures
        unescape_lucene(escape_lucene(q)) == q,
    decreases q.len(),
{
    lemma_escape_front(q);
    if q.len() == 0 {
        assert(unescape_lucene(escape_lucene(q)) =~= q);
    } else {
        let c = q[0];
        let rest = q.drop_first();
        law_escape_roundtrip(rest);
        let s = escape_lucene(q);
        assert(s == escape_char(c) + escape_lucene(rest));
        let k = escape_char(c).len() as int;
        assert(s.skip(k) =~= escape_lucene(rest));
        if is_lucene_special(c) {
            assert(s[0] == '\\' && s[1] == c);
        } else {
            assert(s[0] == c);
        }
        assert(unescape_lucene(s) =~= seq![c] + rest);
        assert(seq![c] + rest =~= q);
    }
}

pub open spec fn lucene_tokens() -> Seq<Seq<char>> {
    seq!["_index"@, "_id"@, "_source"@, "script:"@, "query("@]
}

/// The first disallowed token (in list order) that the lower-cased query contains.
pub open spec fn first_token_in(lower: Seq<char>, tokens: Seq<Seq<char>>) -> Option<Seq<char>>
    decreases tokens.len(),
{
    if tokens.len() == 0 {
        None
    } else if contains_seq(lower, tokens[0]) {
        Some(tokens[0])
    } else {
        first_token_in(lower, tokens.drop_first())
    }
}

/// The error for a query with field-scoped or script-like syntax, if any.
pub open spec fn lucene_injection_error(query: Seq<char>) -> Option<Seq<char>> {
    if query.contains(':') {
        Some("query must not contain field specifiers (':')"@)
    } else {
        match first_token_in(to_ascii_lowercase(query), lucene_tokens()) {
            Some(t) => Some("query contains disallowed pattern: "@ + t),
            None => None,
        }
    }
}

/// Reject queries that attempt field-scoped Lucene syntax or script-like payloads.
pub fn reject_lucene_injection_patterns(query: &str) -> (r: Result<(), String>)
    ensures
        unit_result_matches(r, lucene_injection_error(query@)),
{
    let q = chars_of(query);
    if contains_char(&q, ':') {
        return Err("query must not contain field specifiers (':')".to_owned());
    }
    let lower = to_ascii_lowercase_chars(&q);
    let tokens: [&str; 5] = ["_index", "_id", "_source", "script:", "query("];
    let ghost tv = lucene_tokens();
    proof {
        assert(tokens@.map_values(|t: &str| t@) =~= tv);
        assert(tv.skip(0) =~= tv);
    }
    let mut i: usize = 0;
    while i < 5
        invariant
            i <= 5,
            tokens@.map_values(|t: &str| t@) == tv,
            tv == lucene_tokens(),
            !query@.contains(':'),
            lower@ == to_ascii_lowercase(query@),
            first_token_in(lower@, tv) == first_token_in(lower@, tv.skip(i as int)),
        decreases 5 - i,
    {
        let token = tokens[i];
        proof {
            assert(tv.skip(i as int).drop_first() =~= tv.skip(i + 1));
            assert(tv.skip(i as int)[0] == token@);
        }
        if contains_chars(&lower, &chars_of(token)) {
            return Err(concat_strs("query contains disallowed pattern: ", token));
        }
        i += 1;
    }
    Ok(())
}

// ---------------------------------------------------------------------------
// Threat-feed URLs
// ---------------------------------------------------------------------------

const DEFAULT_FEED_HOST_SUFFIX: &'static str = "emergingthreats.net";

/// Scheme and host that url's `Url::parse` finds in a URL (None when it does not parse).
pub uninterp spec fn url_scheme_host(input: Seq<char>) -> Option<(Seq<char>, Option<Seq<char>>)>;

/// Calls url's `Url::parse` and reads back `scheme()` and `host_str()`; the
/// contract names the result only.
#[verifier::external_body]
fn parse_url_scheme_host(input: &str) -> (r: Option<(String, Option<String>)>)
    ensures
        match r {
            Some((scheme, host)) => url_scheme_host(input@) == Some((scheme@, opt_view(host))),
            None => url_scheme_host(input@) is None,
        },
{
    match url::Url::parse(input) {
        Ok(u) => Some((u.scheme().to_string(), u.host_str().map(|h| h.to_string()))),
        Err(_) => None,
    }
}

/// The error for a parsed feed URL: HTTPS only, and the host must be the
/// allowed suffix or a subdomain of it.
pub open spec fn feed_url_parts_error(
    parts: Option<(Seq<char>, Option<Seq<char>>)>,
    suffix: Seq<char>,
) -> Option<Seq<char>> {
    match parts {
        None => Some("invalid feed URL"@),
        Some((scheme, host)) => if scheme != "https"@ {
            Some("feed URL must use HTTPS"@)
        } else {
            match host {
                None => Some("feed URL must include a host"@),
                Some(h) => if h == suffix || ends_with(h, "."@ + suffix) {
                    None
                } else {
                    Some("feed URL host not allowed: "@ + h)
                },
            }
        },
    }
}

pub open spec fn parts_view(parts: Option<(String, Option<String>)>) -> Option<
    (Seq<char>, Option<Seq<char>>),
> {
    match parts {
        Some((s, h)) => Some((s@, opt_view(h))),
        None => None,
    }
}

/// Decide on a feed URL from the scheme and host its parse gave.
pub fn check_feed_url_parts(parts: Option<(String, Option<String>)>, allowed_host_suffix: &str) -> (r:
    Result<(), String>)
    ensures
        unit_result_matches(r, feed_url_parts_error(parts_view(parts), allowed_host_suffix@)),
{
    match parts {
        None => Err("invalid feed URL".to_owned()),
        Some((scheme, host)) => {
            if !str_eq(scheme.as_str(), "https") {
                return Err("feed URL must use HTTPS".to_owned());
            }
            match host {
                None => Err("feed URL must include a host".to_owned()),
                Some(h) => {
                    let dotted = concat_strs(".", allowed_host_suffix);
                    if str_eq(h.as_str(), allowed_host_suffix) || ends_with_chars(
                        &chars_of(h.as_str()),
                        &chars_of(dotted.as_str()),
                    ) {
                        Ok(())
                    } else {
                        Err(concat_strs("feed URL host not allowed: ", h.as_str()))
                    }
                },
            }
        },
    }
}

/// Validate threat-feed URLs: HTTPS only and host must match the allowlist suffix.
pub fn validate_threat_feed_url(url: &str, allowed_host_suffix: &str) -> (r: Result<(), String>)
    ensures
        unit_result_matches(r, feed_url_parts_error(url_scheme_host(url@), allowed_host_suffix@)),
{
    let parts = parse_url_scheme_host(url);
    check_feed_url_parts(parts, allowed_host_suffix)
}

pub fn default_feed_host_suffix() -> (r: &'static str)
    ensures
        r@ == "emergingthreats.net"@,
{
    DEFAULT_FEED_HOST_SUFFIX
}

// ---------------------------------------------------------------------------
// Tool arguments
// ---------------------------------------------------------------------------

/// The keys of a JSON arguments value: `None` when it is not an object.
#[derive(Debug, Clone)]
pub struct JsonArgs {
    pub object_keys: Option<Vec<String>>,
}

pub open spec fn allowed_views(allowed: Seq<&str>) -> Seq<Seq<char>> {
    allowed.map_values(|a: &str| a@)
}

/// The first key (in object order) that is not allowed.
pub open spec fn first_unknown_key(keys: Seq<String>, allowed: Seq<Seq<char>>) -> Option<Seq<char>>
    decreases keys.len(),
{
    if keys.len() == 0 {
        None
    } else if !allowed.contains(keys[0]@) {
        Some(keys[0]@)
    } else {
        first_unknown_key(keys.drop_first(), allowed)
    }
}

pub open spec fn unknown_keys_error(args: JsonArgs, allowed: Seq<Seq<char>>) -> Option<Seq<char>> {
    match args.object_keys {
        None => Some("arguments must be a JSON object"@),
        Some(keys) => match first_unknown_key(keys@, allowed) {
            Some(k) => Some("unknown argument: "@ + k),
            None => None,
        },
    }
}

pub(crate) fn is_allowed(key: &str, allowed: &[&str]) -> (r: bool)
    ensures
        r == allowed_views(allowed@).contains(key@),
{
    let mut i: usize = 0;
    while i < allowed.len()
        invariant
            i <= allowed.len(),
            forall|j: int| 0 <= j < i ==> allowed@[j]@ != key@,
        decreases allowed.len() - i,
    {
        if str_eq(allowed[i], key) {
            proof {
                assert(allowed_views(allowed@)[i as int] == key@);
            }
            return true;
        }
        i += 1;
    }
    proof {
        if allowed_views(allowed@).contains(key@) {
            let j = choose|j: int| 0 <= j < allowed@.len() && allowed_views(allowed@)[j] == key@;
            assert(allowed@[j]@ == key@);
        }
    }
    false
}

/// Reject JSON tool arguments that contain keys outside an allowlist.
pub fn reject_unknown_json_keys(args: &JsonArgs, allowed: &[&str]) -> (r: Result<(), String>)
    ensures
        unit_result_matches(r, unknown_keys_error(*args, allowed_views(allowed@))),
{
    let keys = match &args.object_keys {
        None => {
            return Err("arguments must be a JSON object".to_owned());
        },
        Some(k) => k,
    };
    let mut i: usize = 0;
    proof {
        assert(keys@.skip(0) =~= keys@);
    }
    while i < keys.len()
        invariant
            i <= keys.len(),
            args.object_keys matches Some(k) && k@ == keys@,
            first_unknown_key(keys@, allowed_views(allowed@)) == first_unknown_key(
                keys@.skip(i as int),
                allowed_views(allowed@),
            ),
        decreases keys.len() - i,
    {
        proof {
            assert(keys@.skip(i as int).drop_first() =~= keys@.skip(i + 1));
        }
        proof {
            assert(keys@.skip(i as int)[0] == keys@[i as int]);
        }
        if !is_allowed(keys[i].as_str(), allowed) {
            return Err(concat_strs("unknown argument: ", keys[i].as_str()));
        }
        i += 1;
    }
    Ok(())
}

// ---------------------------------------------------------------------------
// Response truncation
// ---------------------------------------------------------------------------

/// The largest character boundary at or below `e`.
pub open spec fn boundary_at_or_below(b: Seq<u8>, e: int) -> int
    decreases e,
{
    if e <= 0 || is_char_boundary(b, e) {
        e
    } else {
        boundary_at_or_below(b, e - 1)
    }
}

/// `text` itself when it fits in `max_bytes`; otherwise its longest prefix
/// that fits (cut on a character boundary) with a marker giving the total size.
pub open spec fn truncated_text(text: Seq<char>, max_bytes: usize) -> Seq<char> {
    let b = encode_utf8(text);
    if str_len(text) <= max_bytes {
        text
    } else {
        decode_utf8(b.take(boundary_at_or_below(b, max_bytes as int))) + "… [truncated, total_bytes="@
            + decimal(str_len(text) as nat) + "]"@
    }
}

/// Truncate a string to a maximum byte length on a UTF-8 boundary.
pub fn truncate_utf8(text: &str, max_bytes: usize) -> (r: String)
    ensures
        r@ == truncated_text(text@, max_bytes),
{
    let total = text.len();
    if total <= max_bytes {
        return text.to_owned();
    }
    let mut end = max_bytes;
    while end > 0 && !text.is_char_boundary(end)
        invariant
            end <= max_bytes,
            boundary_at_or_below(encode_utf8(text@), max_bytes as int) == boundary_at_or_below(
                encode_utf8(text@),
                end as int,
            ),
        decreases end,
    {
        end -= 1;
    }
    proof {
        vstd::utf8::encode_utf8_valid_utf8(text@);
    }
    let (head, _) = text.split_at(end);
    proof {
        vstd::utf8::encode_utf8_decode_utf8(head@);
        assert(encode_utf8(text@).subrange(0, end as int) =~= encode_utf8(text@).take(end as int));
    }
    let mut r = head.to_owned();
    append_str(&mut r, "… [truncated, total_bytes=");
    append_chars(&mut r, &decimal_string(total));
    append_str(&mut r, "]");
    r
}

} // verus!
