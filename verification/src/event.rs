//! Event envelopes, their sources, Zeek log types and the raw payload model.
use vstd::prelude::*;

use crate::attack::AttackEnrichment;
use crate::text::{
    append_str, char_is_ascii_digit, chars_of, copy_range, find_chars, find_seq, is_ascii_digit,
    str_byte_len, str_eq, str_len,
};

verus! {

broadcast use vstd::string::group_string_axioms;

/// Source of a network observation event.
#[derive(Debug, Clone, Copy, PartialEq, Eq, Hash, Structural)]
pub enum EventSource {
    Zeek,
    P0f,
    Fatt,
    Enriched,
}

pub open spec fn source_name(s: EventSource) -> Seq<char> {
    match s {
        EventSource::Zeek => "zeek"@,
        EventSource::P0f => "p0f"@,
        EventSource::Fatt => "fatt"@,
        EventSource::Enriched => "enriched"@,
    }
}

impl EventSource {
    pub fn as_str(&self) -> (r: &'static str)
        ensures
            r@ == source_name(*self),
    {
        match self {
            EventSource::Zeek => "zeek",
            EventSource::P0f => "p0f",
            EventSource::Fatt => "fatt",
            EventSource::Enriched => "enriched",
        }
    }

    /// Kafka topic for this source: `{prefix}.{source}`.
    pub fn kafka_topic(&self, prefix: &str) -> (r: String)
        ensures
            r@ == prefix@ + "."@ + source_name(*self),
    {
        let mut r = prefix.to_owned();
        append_str(&mut r, ".");
        append_str(&mut r, self.as_str());
        r
    }

    /// Elasticsearch index for this source: `{prefix}-{source}`.
    pub fn elasticsearch_index(&self, prefix: &str) -> (r: String)
        ensures
            r@ == prefix@ + "-"@ + source_name(*self),
    {
        let mut r = prefix.to_owned();
        append_str(&mut r, "-");
        append_str(&mut r, self.as_str());
        r
    }
}

/// Zeek log sub-types for routing within the zeek topic.
#[derive(Debug, Clone, PartialEq, Eq)]
pub enum ZeekLogType {
    Conn,
    Dns,
    Http,
    Ssl,
    Files,
    Weird,
    Notice,
    Other(String),
}

/// The mathematical value of a [`ZeekLogType`].
pub enum ZeekLogTypeView {
    Conn,
    Dns,
    Http,
    Ssl,
    Files,
    Weird,
    Notice,
    Other(Seq<char>),
}

impl View for ZeekLogType {
    type V = ZeekLogTypeView;

    open spec fn view(&self) -> ZeekLogTypeView {
        match self {
            ZeekLogType::Conn => ZeekLogTypeView::Conn,
            ZeekLogType::Dns => ZeekLogTypeView::Dns,
            ZeekLogType::Http => ZeekLogTypeView::Http,
            ZeekLogType::Ssl => ZeekLogTypeView::Ssl,
            ZeekLogType::Files => ZeekLogTypeView::Files,
            ZeekLogType::Weird => ZeekLogTypeView::Weird,
            ZeekLogType::Notice => ZeekLogTypeView::Notice,
            ZeekLogType::Other(n) => ZeekLogTypeView::Other(n@),
        }
    }
}

pub open spec fn zeek_type_name(t: ZeekLogTypeView) -> Seq<char> {
    match t {
        ZeekLogTypeView::Conn => "conn"@,
        ZeekLogTypeView::Dns => "dns"@,
        ZeekLogTypeView::Http => "http"@,
        ZeekLogTypeView::Ssl => "ssl"@,
        ZeekLogTypeView::Files => "files"@,
        ZeekLogTypeView::Weird => "weird"@,
        ZeekLogTypeView::Notice => "notice"@,
        ZeekLogTypeView::Other(n) => n,
    }
}

/// The log type that a Zeek log name denotes; unknown names are kept as `Other`.
pub open spec fn zeek_type_from_name(name: Seq<char>) -> ZeekLogTypeView {
    if name == "conn"@ {
        ZeekLogTypeView::Conn
    } else if name == "dns"@ {
        ZeekLogTypeView::Dns
    } else if name == "http"@ {
        ZeekLogTypeView::Http
    } else if name == "ssl"@ {
        ZeekLogTypeView::Ssl
    } else if name == "files"@ {
        ZeekLogTypeView::Files
    } else if name == "weird"@ {
        ZeekLogTypeView::Weird
    } else if name == "notice"@ {
        ZeekLogTypeView::Notice
    } else {
        ZeekLogTypeView::Other(name)
    }
}

/// A Zeek rotation suffix `YYYY-MM-DD-HH-MM-SS`.
pub open spec fn is_rotation_timestamp(s: Seq<char>) -> bool {
    s.len() == 19 && forall|i: int|
        0 <= i < 19 ==> (if i == 4 || i == 7 || i == 10 || i == 13 || i == 16 {
            #[trigger] s[i] == '-'
        } else {
            is_ascii_digit(s[i])
        })
}

/// A log file stem with its rotation suffix (after the first `.`) removed.
pub open spec fn normalize_stem(s: Seq<char>) -> Seq<char> {
    match find_seq(s, "."@) {
        Some(k) => if is_rotation_timestamp(s.skip(k + 1)) {
            s.take(k)
        } else {
            s
        },
        None => s,
    }
}

/// The names of the log types that have a variant of their own.
pub open spec fn is_known_zeek_name(n: Seq<char>) -> bool {
    n == "conn"@ || n == "dns"@ || n == "http"@ || n == "ssl"@ || n == "files"@ || n == "weird"@
        || n == "notice"@
}

/// A log type's name maps back to that log type, except an `Other` type
/// whose name is one of the known names.
pub proof fn law_zeek_name_roundtrip(t: ZeekLogTypeView)
    requires
        !(t matches ZeekLogTypeView::Other(n) && is_known_zeek_name(n)),
    ensures
        zeek_type_from_name(zeek_type_name(t)) == t,
{
    reveal_strlit("conn");
    reveal_strlit("dns");
    reveal_strlit("http");
    reveal_strlit("ssl");
    reveal_strlit("files");
    reveal_strlit("weird");
    reveal_strlit("notice");
    let names = seq!["conn"@, "dns"@, "http"@, "ssl"@, "files"@, "weird"@, "notice"@];
    assert forall|i: int, j: int| 0 <= i < j < 7 implies #[trigger] names[i] != #[trigger] names[j] by {
        if names[i].len() == names[j].len() {
            assert(names[i][0] != names[j][0]);
        }
    }
    assert(names[0] == "conn"@ && names[1] == "dns"@ && names[2] == "http"@ && names[3] == "ssl"@
        && names[4] == "files"@ && names[5] == "weird"@ && names[6] == "notice"@);
}

impl ZeekLogType {
    pub fn as_str(&self) -> (r: &str)
        ensures
            r@ == zeek_type_name(self@),
    {
        match self {
            ZeekLogType::Conn => "conn",
            ZeekLogType::Dns => "dns",
            ZeekLogType::Http => "http",
            ZeekLogType::Ssl => "ssl",
            ZeekLogType::Files => "files",
            ZeekLogType::Weird => "weird",
            ZeekLogType::Notice => "notice",
            ZeekLogType::Other(name) => name.as_str(),
        }
    }

    /// Map a Zeek log file stem (e.g. `conn` or rotated `conn.2026-06-17-02-37-41`) to a type.
    pub fn from_log_stem(stem: &str) -> (r: ZeekLogType)
        ensures
            r@ == zeek_type_from_name(normalize_stem(stem@)),
    {
        let name = normalize_zeek_log_stem(stem);
        ZeekLogType::from_name(name)
    }

    pub fn from_name(name: &str) -> (r: ZeekLogType)
        ensures
            r@ == zeek_type_from_name(name@),
    {
        if str_eq(name, "conn") {
            ZeekLogType::Conn
        } else if str_eq(name, "dns") {
            ZeekLogType::Dns
        } else if str_eq(name, "http") {
            ZeekLogType::Http
        } else if str_eq(name, "ssl") {
            ZeekLogType::Ssl
        } else if str_eq(name, "files") {
            ZeekLogType::Files
        } else if str_eq(name, "weird") {
            ZeekLogType::Weird
        } else if str_eq(name, "notice") {
            ZeekLogType::Notice
        } else {
            ZeekLogType::Other(name.to_owned())
        }
    }

    /// A copy of this log type.
    pub fn duplicate(&self) -> (r: ZeekLogType)
        ensures
            r@ == self@,
    {
        match self {
            ZeekLogType::Conn => ZeekLogType::Conn,
            ZeekLogType::Dns => ZeekLogType::Dns,
            ZeekLogType::Http => ZeekLogType::Http,
            ZeekLogType::Ssl => ZeekLogType::Ssl,
            ZeekLogType::Files => ZeekLogType::Files,
            ZeekLogType::Weird => ZeekLogType::Weird,
            ZeekLogType::Notice => ZeekLogType::Notice,
            ZeekLogType::Other(name) => ZeekLogType::Other(name.clone()),
        }
    }

    pub fn is_notice(&self) -> (r: bool)
        ensures
            r == (self@ == ZeekLogTypeView::Notice),
    {
        match self {
            ZeekLogType::Notice => true,
            _ => false,
        }
    }
}

/// Strip Zeek log-rotation timestamp suffixes from a file stem.
pub fn normalize_zeek_log_stem(stem: &str) -> (r: &str)
    ensures
        r@ == normalize_stem(stem@),
{
    let chars = chars_of(stem);
    let mut dot: Vec<char> = Vec::new();
    dot.push('.');
    proof {
        reveal_strlit(".");
        assert(dot@ =~= "."@);
    }
    match find_chars(&chars, &dot) {
        Some(k) => {
            let suffix = copy_range(&chars, k + 1, chars.len());
            proof {
                assert(suffix@ =~= stem@.skip(k + 1));
            }
            if rotation_timestamp_chars(&suffix) {
                stem.substring_char(0, k)
            } else {
                stem
            }
        },
        None => stem,
    }
}

fn rotation_timestamp_chars(s: &Vec<char>) -> (r: bool)
    ensures
        r == is_rotation_timestamp(s@),
{
    if s.len() != 19 {
        return false;
    }
    let mut i: usize = 0;
    while i < 19
        invariant
            i <= 19,
            s.len() == 19,
            forall|j: int|
                0 <= j < i ==> (if j == 4 || j == 7 || j == 10 || j == 13 || j == 16 {
                    #[trigger] s@[j] == '-'
                } else {
                    is_ascii_digit(s@[j])
                }),
        decreases 19 - i,
    {
        let ok = if i == 4 || i == 7 || i == 10 || i == 13 || i == 16 {
            s[i] == '-'
        } else {
            char_is_ascii_digit(s[i])
        };
        if !ok {
            return false;
        }
        i += 1;
    }
    true
}

pub fn is_zeek_rotation_timestamp(suffix: &str) -> (r: bool)
    ensures
        r == is_rotation_timestamp(suffix@),
{
    let v = chars_of(suffix);
    rotation_timestamp_chars(&v)
}

/// The mapping from a Zeek log name to its type, as the shipper applies it.
pub fn map_zeek_log_type(name: &str) -> (r: ZeekLogType)
    ensures
        r@ == zeek_type_from_name(name@),
{
    ZeekLogType::from_name(name)
}

// ---------------------------------------------------------------------------
// Event payloads
// ---------------------------------------------------------------------------

/// A UTC instant as seconds and nanoseconds since the Unix epoch.
#[derive(Debug, Clone, Copy, PartialEq, Eq, Structural)]
pub struct Timestamp {
    pub secs: i64,
    pub nanos: u32,
}

/// The `raw` payload of an event: its compact JSON text and the members of
/// its top-level object whose values are JSON strings, in object order.
#[derive(Debug, Clone)]
pub struct RawEvent {
    pub json: String,
    pub string_fields: Vec<(String, String)>,
}

/// The string value stored under `key`, if the payload has one.
pub open spec fn field_lookup(fields: Seq<(String, String)>, key: Seq<char>) -> Option<Seq<char>>
    decreases fields.len(),
{
    if fields.len() == 0 {
        None
    } else if fields[0].0@ == key {
        Some(fields[0].1@)
    } else {
        field_lookup(fields.drop_first(), key)
    }
}

impl RawEvent {
    /// A payload whose members are the given string fields.
    pub fn new(json: String, string_fields: Vec<(String, String)>) -> (r: RawEvent)
        ensures
            r.json == json,
            r.string_fields == string_fields,
    {
        RawEvent { json, string_fields }
    }

    /// The string value under `key` (`raw.get(key).and_then(Value::as_str)`).
    pub fn get_str(&self, key: &str) -> (r: Option<&String>)
        ensures
            match r {
                Some(v) => field_lookup(self.string_fields@, key@) == Some(v@),
                None => field_lookup(self.string_fields@, key@) is None,
            },
    {
        let n = self.string_fields.len();
        let mut i: usize = 0;
        proof {
            assert(self.string_fields@.skip(0) =~= self.string_fields@);
        }
        while i < n
            invariant
                i <= n,
                n == self.string_fields.len(),
                field_lookup(self.string_fields@, key@) == field_lookup(
                    self.string_fields@.skip(i as int),
                    key@,
                ),
            decreases n - i,
        {
            proof {
                assert(self.string_fields@.skip(i as int).drop_first() =~= self.string_fields@.skip(
                    i + 1,
                ));
            }
            if str_eq(self.string_fields[i].0.as_str(), key) {
                return Some(&self.string_fields[i].1);
            }
            i += 1;
        }
        None
    }

    /// Size in bytes of the compact JSON encoding.
    pub fn encoded_len(&self) -> (r: usize)
        ensures
            r == str_len(self.json@),
    {
        str_byte_len(self.json.as_str())
    }
}

/// Severity of a threat indicator.
#[derive(Debug, Clone, Copy, PartialEq, Eq, Structural)]
pub enum ThreatSeverity {
    Info,
    Low,
    Medium,
    High,
    Critical,
}

/// Threat intelligence enrichment from Emerging Threats and related feeds.
#[derive(Debug, Clone)]
pub struct ThreatEnrichment {
    pub matched: bool,
    pub severity: ThreatSeverity,
    pub categories: Vec<String>,
    pub description: String,
    pub feed: String,
    pub rule_id: Option<String>,
    pub indicator: Option<String>,
}

/// One event of an agent's ingest batch.
#[derive(Debug, Clone)]
pub struct IngestEvent {
    pub source: EventSource,
    pub zeek_log_type: Option<ZeekLogType>,
    pub timestamp: Timestamp,
    pub raw: RawEvent,
}

/// Batch ingest payload from capture agents.
#[derive(Debug, Clone)]
pub struct IngestBatch {
    pub agent_id: String,
    pub hostname: String,
    pub events: Vec<IngestEvent>,
}

/// A normalized event envelope used across gateway, Kafka, and Elasticsearch.
#[derive(Debug, Clone)]
pub struct NetworkEvent {
    pub id: String,
    pub timestamp: Timestamp,
    pub source: EventSource,
    pub agent_id: String,
    pub hostname: String,
    pub zeek_log_type: Option<ZeekLogType>,
    pub raw: RawEvent,
    pub threat: Option<ThreatEnrichment>,
    pub attack: Option<AttackEnrichment>,
    pub tags: Vec<String>,
}

pub open spec fn is_lower_hex(c: char) -> bool {
    ('0' <= c && c <= '9') || ('a' <= c && c <= 'f')
}

/// The hyphenated lower-case text of a random (version 4, RFC 9562 variant) UUID.
pub open spec fn is_uuid_v4_text(s: Seq<char>) -> bool {
    &&& s.len() == 36
    &&& forall|i: int|
        0 <= i < 36 ==> if i == 8 || i == 13 || i == 18 || i == 23 {
            #[trigger] s[i] == '-'
        } else {
            is_lower_hex(s[i])
        }
    &&& s[14] == '4'
    &&& (s[19] == '8' || s[19] == '9' || s[19] == 'a' || s[19] == 'b')
}

/// A fresh random event identifier: uuid's `Uuid::new_v4`, formatted by its
/// `Display` (hyphenated, lower case). The contract states the text's shape;
/// which identifier comes out is chance.
#[verifier::external_body]
fn new_event_id() -> (r: String)
    ensures
        is_uuid_v4_text(r@),
{
    uuid::Uuid::new_v4().to_string()
}

impl NetworkEvent {
    /// Wrap an agent's event in an envelope with a fresh identifier.
    pub fn from_ingest(agent_id: &str, hostname: &str, event: IngestEvent) -> (r: NetworkEvent)
        ensures
            is_uuid_v4_text(r.id@),
            r.timestamp == event.timestamp,
            r.source == event.source,
            r.agent_id@ == agent_id@,
            r.hostname@ == hostname@,
            r.zeek_log_type == event.zeek_log_type,
            r.raw == event.raw,
            r.threat is None,
            r.attack is None,
            r.tags@.len() == 0,
    {
        NetworkEvent {
            id: new_event_id(),
            timestamp: event.timestamp,
            source: event.source,
            agent_id: agent_id.to_owned(),
            hostname: hostname.to_owned(),
            zeek_log_type: event.zeek_log_type,
            raw: event.raw,
            threat: None,
            attack: None,
            tags: Vec::new(),
        }
    }
}

/// `n` is an envelope that [`NetworkEvent::from_ingest`] makes of `e` for an
/// agent (its identifier is a fresh random UUID).
pub open spec fn is_envelope(n: NetworkEvent, agent_id: Seq<char>, hostname: Seq<char>, e: IngestEvent) -> bool {
    &&& is_uuid_v4_text(n.id@)
    &&& n.timestamp == e.timestamp
    &&& n.source == e.source
    &&& n.agent_id@ == agent_id
    &&& n.hostname@ == hostname
    &&& n.zeek_log_type == e.zeek_log_type
    &&& n.raw == e.raw
    &&& n.threat is None
    &&& n.attack is None
    &&& n.tags@.len() == 0
}

impl NetworkEvent {
    /// Wrap each event of a batch in an envelope for the batch's agent, in order.
    pub fn from_batch(batch: IngestBatch) -> (r: Vec<NetworkEvent>)
        ensures
            r.len() == batch.events.len(),
            forall|k: int|
                0 <= k < r.len() ==> is_envelope(
                    #[trigger] r@[k],
                    batch.agent_id@,
                    batch.hostname@,
                    batch.events@[k],
                ),
    {
        let ghost input = batch.events@;
        let agent_id = batch.agent_id;
        let hostname = batch.hostname;
        let mut r: Vec<NetworkEvent> = Vec::new();
        for e in it: batch.events.into_iter()
            invariant
                it.seq() == input,
                r.len() == it.index(),
                forall|k: int|
                    0 <= k < r.len() ==> is_envelope(#[trigger] r@[k], agent_id@, hostname@, input[k]),
        {
            r.push(NetworkEvent::from_ingest(agent_id.as_str(), hostname.as_str(), e));
        }
        r
    }
}

/// How many of `events` came from `source`.
pub open spec fn count_source(events: Seq<NetworkEvent>, source: EventSource) -> nat
    decreases events.len(),
{
    if events.len() == 0 {
        0
    } else {
        count_source(events.drop_last(), source) + if events.last().source == source {
            1nat
        } else {
            0nat
        }
    }
}

proof fn lemma_count_source_bound(events: Seq<NetworkEvent>, source: EventSource)
    ensures
        count_source(events, source) <= events.len(),
    decreases events.len(),
{
    if events.len() > 0 {
        lemma_count_source_bound(events.drop_last(), source);
    }
}

/// Number of events from one source (the gateway's per-analyzer counts).
pub fn count_events_from(events: &Vec<NetworkEvent>, source: EventSource) -> (r: usize)
    ensures
        r == count_source(events@, source),
{
    let mut n: usize = 0;
    let mut i: usize = 0;
    while i < events.len()
        invariant
            i <= events.len(),
            n == count_source(events@.take(i as int), source),
        decreases events.len() - i,
    {
        proof {
            assert(events@.take(i + 1).drop_last() =~= events@.take(i as int));
            lemma_count_source_bound(events@.take(i as int), source);
        }
        if events[i].source == source {
            n += 1;
        }
        i += 1;
    }
    proof {
        assert(events@.take(events.len() as int) =~= events@);
    }
    n
}

} // verus!
