//! Analyzer output: PCAP magic numbers, p0f log lines and payload size caps.
use vstd::prelude::*;

use crate::event::{map_zeek_log_type, EventSource, IngestEvent, RawEvent, Timestamp, ZeekLogType};
use crate::text::{
    append_chars, append_str, chars_of, decimal, decimal_chars, lines, lines_of, split_char,
    split_on, starts_with, str_len, string_from_chars, trim_ws, trim_ws_chars, views,
};

verus! {

broadcast use vstd::string::group_string_axioms;

// ---------------------------------------------------------------------------
// PCAP magic
// ---------------------------------------------------------------------------

/// The first four bytes read as a little-endian number.
pub open spec fn le_u32(b: Seq<u8>) -> int {
    b[0] + b[1] * 0x100 + b[2] * 0x1_0000 + b[3] * 0x100_0000
}

/// The data begins with a PCAP magic number (microsecond or nanosecond
/// resolution, either byte order) or the PCAPNG section header block type.
pub open spec fn has_pcap_magic(b: Seq<u8>) -> bool {
    &&& b.len() >= 4
    &&& {
        ||| le_u32(b) == 0xa1b2_c3d4
        ||| le_u32(b) == 0xd4c3_b2a1
        ||| le_u32(b) == 0xa1b2_3c4d
        ||| le_u32(b) == 0x4d3c_b2a1
        ||| (b[0] == 0x0a && b[1] == 0x0d && b[2] == 0x0d && b[3] == 0x0a)
    }
}

/// Returns true when `data` begins with a recognized PCAP or PCAPNG magic header.
pub fn is_valid_pcap_magic(data: &[u8]) -> (r: bool)
    ensures
        r == has_pcap_magic(data@),
{
    if data.len() < 4 {
        return false;
    }
    let magic: u32 = data[0] as u32 + data[1] as u32 * 0x100 + data[2] as u32 * 0x1_0000
        + data[3] as u32 * 0x100_0000;
    magic == 0xa1b2_c3d4 || magic == 0xd4c3_b2a1 || magic == 0xa1b2_3c4d || magic == 0x4d3c_b2a1
        || (data[0] == 0x0a && data[1] == 0x0d && data[2] == 0x0d && data[3] == 0x0a)
}

// ---------------------------------------------------------------------------
// Payloads made of string members
// ---------------------------------------------------------------------------

/// Lower-case hexadecimal digit of `n` (`0..16`).
pub open spec fn hex_digit_char(n: u32) -> char {
    if n < 10 {
        (('0' as u32) + n) as char
    } else {
        (('a' as u32) + n - 10) as char
    }
}

/// How serde_json writes one character inside a string literal: `"` and `\`
/// and the control characters are escaped (the short escapes where JSON has
/// them, else `\u00` and two lower-case hex digits); any other character is
/// written as it is.
pub open spec fn json_escaped_char(c: char) -> Seq<char> {
    if c == '"' {
        seq!['\\', '"']
    } else if c == '\\' {
        seq!['\\', '\\']
    } else if c == '\u{8}' {
        seq!['\\', 'b']
    } else if c == '\t' {
        seq!['\\', 't']
    } else if c == '\n' {
        seq!['\\', 'n']
    } else if c == '\u{c}' {
        seq!['\\', 'f']
    } else if c == '\r' {
        seq!['\\', 'r']
    } else if '\u{1f}' >= c {
        let code = c as u32;
        seq!['\\', 'u', '0', '0'] + seq![hex_digit_char(code / 16)] + seq![hex_digit_char(code % 16)]
    } else {
        seq![c]
    }
}

/// The characters of `s`, each written as [`json_escaped_char`] writes it.
pub open spec fn json_escaped(s: Seq<char>) -> Seq<char>
    decreases s.len(),
{
    if s.len() == 0 {
        Seq::empty()
    } else {
        json_escaped(s.drop_last()) + json_escaped_char(s.last())
    }
}

/// The JSON string literal that serde_json writes for `s`: a quote, the
/// escaped characters, a quote.
pub open spec fn json_text_of_str(s: Seq<char>) -> Seq<char> {
    seq!['"'] + json_escaped(s) + seq!['"']
}

/// serde_json's `to_string` on a `str` (compact output): the quoted, escaped
/// JSON literal of `s`, as [`json_text_of_str`] states it. Serializing a `str`
/// cannot fail.
#[verifier::external_body]
pub(crate) fn json_string(s: &str) -> (r: String)
    ensures
        r@ == json_text_of_str(s@),
{
    match serde_json::to_string(s) {
        Ok(t) => t,
        Err(_) => String::new(),
    }
}

pub open spec fn field_views(f: Seq<(String, String)>) -> Seq<(Seq<char>, Seq<char>)> {
    f.map_values(|p: (String, String)| (p.0@, p.1@))
}

pub open spec fn member_text(m: (Seq<char>, Seq<char>)) -> Seq<char> {
    json_text_of_str(m.0) + ":"@ + json_text_of_str(m.1)
}

/// The members of a JSON object, separated by commas.
pub open spec fn members_text(ms: Seq<(Seq<char>, Seq<char>)>) -> Seq<char>
    decreases ms.len(),
{
    if ms.len() == 0 {
        Seq::empty()
    } else if ms.len() == 1 {
        member_text(ms[0])
    } else {
        members_text(ms.drop_last()) + ","@ + member_text(ms.last())
    }
}

/// The compact JSON text of an object whose members all hold strings.
pub open spec fn string_object_text(ms: Seq<(Seq<char>, Seq<char>)>) -> Seq<char> {
    "{"@ + members_text(ms) + "}"@
}

/// A payload whose members, in order, are the given name / string pairs.
pub fn raw_from_string_members(members: Vec<(String, String)>) -> (r: RawEvent)
    ensures
        r.string_fields@ == members@,
        r.json@ == string_object_text(field_views(members@)),
{
    let mut text = "{".to_owned();
    let mut i: usize = 0;
    while i < members.len()
        invariant
            i <= members.len(),
            text@ == "{"@ + members_text(field_views(members@).take(i as int)),
        decreases members.len() - i,
    {
        let ghost before = text@;
        if i > 0 {
            append_str(&mut text, ",");
        }
        append_chars(&mut text, &chars_of(json_string(members[i].0.as_str()).as_str()));
        append_str(&mut text, ":");
        append_chars(&mut text, &chars_of(json_string(members[i].1.as_str()).as_str()));
        proof {
            let fv = field_views(members@);
            assert(fv.take(i + 1).drop_last() =~= fv.take(i as int));
            assert(fv.take(i + 1).last() == fv[i as int]);
            if i == 0 {
                assert(fv.take(0) =~= Seq::<(Seq<char>, Seq<char>)>::empty());
                assert(text@ =~= "{"@ + members_text(fv.take(1)));
            } else {
                assert(text@ =~= "{"@ + members_text(fv.take(i + 1)));
            }
        }
        i += 1;
    }
    append_str(&mut text, "}");
    proof {
        assert(field_views(members@).take(members.len() as int) =~= field_views(members@));
    }
    RawEvent::new(text, members)
}

// ---------------------------------------------------------------------------
// p0f log lines
// ---------------------------------------------------------------------------

/// The `|`-separated pieces of a p0f log line, when it is one: not blank, not
/// a `#` comment, and with at least five pieces.
pub open spec fn p0f_parts(line: Seq<char>) -> Option<Seq<Seq<char>>> {
    if trim_ws(line).len() == 0 || starts_with(line, "#"@) {
        None
    } else if split_char(line, '|').len() < 5 {
        None
    } else {
        Some(split_char(line, '|'))
    }
}

/// The payload members of a p0f event, in serde_json's (sorted) member order.
pub open spec fn p0f_members(line: Seq<char>, parts: Seq<Seq<char>>) -> Seq<(Seq<char>, Seq<char>)> {
    seq![
        ("detail"@, parts[4]),
        ("dst_ip"@, parts[2]),
        ("link"@, parts[3]),
        ("mod"@, parts[0]),
        ("raw_line"@, line),
        ("src_ip"@, parts[1]),
    ]
}

/// `e` is the p0f event of `line`, observed at `now`.
pub open spec fn is_p0f_event(e: IngestEvent, line: Seq<char>, now: Timestamp) -> bool {
    &&& p0f_parts(line) is Some
    &&& e.source == EventSource::P0f
    &&& e.zeek_log_type is None
    &&& e.timestamp == now
    &&& field_views(e.raw.string_fields@) == p0f_members(line, p0f_parts(line).unwrap())
    &&& e.raw.json@ == string_object_text(p0f_members(line, p0f_parts(line).unwrap()))
}

fn pair(k: &str, v: &Vec<char>) -> (r: (String, String))
    ensures
        r.0@ == k@,
        r.1@ == v@,
{
    (k.to_owned(), string_from_chars(v))
}

/// Parse one line of p0f's log (`mod|src|dst|link|detail`) observed at `now`.
pub fn parse_p0f_line(line: &str, now: Timestamp) -> (r: Option<IngestEvent>)
    ensures
        p0f_parts(line@) is None ==> r is None,
        p0f_parts(line@) is Some ==> (r matches Some(e) && is_p0f_event(e, line@, now)),
{
    let chars = chars_of(line);
    if trim_ws_chars(&chars).len() == 0 || (chars.len() > 0 && chars[0] == '#') {
        proof {
            reveal_strlit("#");
            if chars.len() > 0 && chars[0] == '#' {
                assert(line@.take(1) =~= "#"@);
            }
        }
        return None;
    }
    proof {
        reveal_strlit("#");
        if starts_with(line@, "#"@) {
            assert(line@.take(1)[0] == line@[0]);
        }
    }
    let parts = split_on(&chars, '|');
    if parts.len() < 5 {
        return None;
    }
    let mut members: Vec<(String, String)> = Vec::new();
    members.push(pair("detail", &parts[4]));
    members.push(pair("dst_ip", &parts[2]));
    members.push(pair("link", &parts[3]));
    members.push(pair("mod", &parts[0]));
    members.push(pair("raw_line", &chars));
    members.push(pair("src_ip", &parts[1]));
    proof {
        assert(field_views(members@) =~= p0f_members(line@, split_char(line@, '|')));
    }
    let raw = raw_from_string_members(members);
    Some(IngestEvent { source: EventSource::P0f, zeek_log_type: None, timestamp: now, raw })
}

/// The p0f events of each line of `content`, in order, all observed at `now`.
pub open spec fn p0f_log_lines(ls: Seq<Seq<char>>) -> Seq<Seq<char>>
    decreases ls.len(),
{
    if ls.len() == 0 {
        Seq::empty()
    } else if p0f_parts(ls.last()) is Some {
        p0f_log_lines(ls.drop_last()).push(ls.last())
    } else {
        p0f_log_lines(ls.drop_last())
    }
}

/// Parse every p0f line of a log, skipping the lines that are not p0f records.
pub fn p0f_log_events(content: &str, now: Timestamp) -> (r: Vec<IngestEvent>)
    ensures
        r.len() == p0f_log_lines(lines(content@)).len(),
        forall|k: int|
            0 <= k < r.len() ==> is_p0f_event(
                #[trigger] r@[k],
                p0f_log_lines(lines(content@))[k],
                now,
            ),
{
    let ls = lines_of(&chars_of(content));
    let mut r: Vec<IngestEvent> = Vec::new();
    let mut i: usize = 0;
    while i < ls.len()
        invariant
            i <= ls.len(),
            views(ls@) == lines(content@),
            r.len() == p0f_log_lines(views(ls@).take(i as int)).len(),
            forall|k: int|
                0 <= k < r.len() ==> is_p0f_event(
                    #[trigger] r@[k],
                    p0f_log_lines(views(ls@).take(i as int))[k],
                    now,
                ),
        decreases ls.len() - i,
    {
        let line = string_from_chars(&ls[i]);
        proof {
            assert(views(ls@).take(i + 1).drop_last() =~= views(ls@).take(i as int));
            assert(views(ls@).take(i + 1).last() == line@);
        }
        match parse_p0f_line(line.as_str(), now) {
            Some(e) => {
                r.push(e);
            },
            None => {},
        }
        i += 1;
    }
    proof {
        assert(views(ls@).take(ls.len() as int) =~= views(ls@));
    }
    r
}

// ---------------------------------------------------------------------------
// Events of other analyzers
// ---------------------------------------------------------------------------

/// A Zeek event of log type `log_type` with a parsed payload.
pub fn zeek_ingest_event(raw: RawEvent, log_type: &str, timestamp: Timestamp) -> (r: IngestEvent)
    ensures
        r.source == EventSource::Zeek,
        r.zeek_log_type matches Some(t) && t@ == crate::event::zeek_type_from_name(log_type@),
        r.timestamp == timestamp,
        r.raw == raw,
{
    IngestEvent {
        source: EventSource::Zeek,
        zeek_log_type: Some(map_zeek_log_type(log_type)),
        timestamp,
        raw,
    }
}

/// A fatt event with a parsed payload.
pub fn fatt_ingest_event(raw: RawEvent, timestamp: Timestamp) -> (r: IngestEvent)
    ensures
        r.source == EventSource::Fatt,
        r.zeek_log_type is None,
        r.timestamp == timestamp,
        r.raw == raw,
{
    IngestEvent { source: EventSource::Fatt, zeek_log_type: None, timestamp, raw }
}

// ---------------------------------------------------------------------------
// Payload size caps
// ---------------------------------------------------------------------------

/// The payload that stands in for one of `original_bytes` bytes that was too large.
pub open spec fn truncation_marker_text(original_bytes: nat) -> Seq<char> {
    "{\"original_bytes\":"@ + decimal(original_bytes) + ",\"truncated\":true}"@
}

/// `r` is `e`, with its payload replaced by the truncation marker when it
/// encodes to more than `max_raw` bytes.
pub open spec fn is_capped_event(r: IngestEvent, e: IngestEvent, max_raw: usize) -> bool {
    &&& r.source == e.source
    &&& r.zeek_log_type == e.zeek_log_type
    &&& r.timestamp == e.timestamp
    &&& if str_len(e.raw.json@) <= max_raw {
        r.raw == e.raw
    } else {
        r.raw.json@ == truncation_marker_text(str_len(e.raw.json@) as nat)
            && r.raw.string_fields@.len() == 0
    }
}

fn truncation_marker(original_bytes: usize) -> (r: RawEvent)
    ensures
        r.json@ == truncation_marker_text(original_bytes as nat),
        r.string_fields@.len() == 0,
{
    let mut text = "{\"original_bytes\":".to_owned();
    append_chars(&mut text, &decimal_chars(original_bytes as u64));
    append_str(&mut text, ",\"truncated\":true}");
    RawEvent::new(text, Vec::new())
}

/// The first `max_events` analyzer events, each payload over `max_raw_bytes`
/// replaced by a truncation marker.
pub fn cap_analyzer_events(events: Vec<IngestEvent>, max_events: usize, max_raw_bytes: usize) -> (r:
    Vec<IngestEvent>)
    ensures
        r.len() == if events.len() <= max_events {
            events.len()
        } else {
            max_events
        },
        forall|k: int| 0 <= k < r.len() ==> is_capped_event(#[trigger] r@[k], events@[k], max_raw_bytes),
{
    let ghost input = events@;
    let mut r: Vec<IngestEvent> = Vec::new();
    for e in it: events.into_iter()
        invariant
            it.seq() == input,
            r.len() == if it.index() <= max_events {
                it.index()
            } else {
                max_events as int
            },
            forall|k: int| 0 <= k < r.len() ==> is_capped_event(#[trigger] r@[k], input[k], max_raw_bytes),
    {
        if r.len() < max_events {
            let size = e.raw.encoded_len();
            if size <= max_raw_bytes {
                r.push(e);
            } else {
                r.push(
                    IngestEvent {
                        source: e.source,
                        zeek_log_type: e.zeek_log_type,
                        timestamp: e.timestamp,
                        raw: truncation_marker(size),
                    },
                );
            }
        }
    }
    r
}

} // verus!
