//! Elasticsearch indexing: index names and the mapping of the index template.
use vstd::prelude::*;

use crate::config::ElasticsearchConfig;
use crate::event::{source_name, EventSource, NetworkEvent};
use crate::parser::{json_string, json_text_of_str};
use crate::text::append_str;
use crate::threat::string_views;

verus! {

broadcast use vstd::string::group_string_axioms;

pub open spec fn pair_views(v: Seq<(String, String)>) -> Seq<(Seq<char>, Seq<char>)> {
    v.map_values(|p: (String, String)| (p.0@, p.1@))
}

/// The payload members mapped as keywords.
pub open spec fn raw_keyword_fields_spec() -> Seq<Seq<char>> {
    seq![
        "id.orig_h"@,
        "id.resp_h"@,
        "proto"@,
        "service"@,
        "conn_state"@,
        "query"@,
        "qtype_name"@,
        "rcode_name"@,
        "host"@,
        "method"@,
        "uri"@,
        "user_agent"@,
        "src_ip"@,
        "dst_ip"@,
        "detail"@,
        "link"@,
        "mod"@,
        "ja3"@,
        "ja3s"@,
        "protocol"@,
        "sourceIp"@,
        "destinationIp"@,
        "sourcePort"@,
        "destinationPort"@,
        "qclass_name"@,
        "server_name"@,
        "cipher"@,
        "version"@,
        "history"@,
        "status_msg"@,
        "referrer"@,
        "note"@,
        "sub"@,
        "msg"@,
    ]
}

/// The payload members mapped as keywords, in template order.
pub fn raw_keyword_fields() -> (r: Vec<String>)
    ensures
        string_views(r@) == raw_keyword_fields_spec(),
{
    let mut r: Vec<String> = Vec::new();
    r.push("id.orig_h".to_owned());
    r.push("id.resp_h".to_owned());
    r.push("proto".to_owned());
    r.push("service".to_owned());
    r.push("conn_state".to_owned());
    r.push("query".to_owned());
    r.push("qtype_name".to_owned());
    r.push("rcode_name".to_owned());
    r.push("host".to_owned());
    r.push("method".to_owned());
    r.push("uri".to_owned());
    r.push("user_agent".to_owned());
    r.push("src_ip".to_owned());
    r.push("dst_ip".to_owned());
    r.push("detail".to_owned());
    r.push("link".to_owned());
    r.push("mod".to_owned());
    r.push("ja3".to_owned());
    r.push("ja3s".to_owned());
    r.push("protocol".to_owned());
    r.push("sourceIp".to_owned());
    r.push("destinationIp".to_owned());
    r.push("sourcePort".to_owned());
    r.push("destinationPort".to_owned());
    r.push("qclass_name".to_owned());
    r.push("server_name".to_owned());
    r.push("cipher".to_owned());
    r.push("version".to_owned());
    r.push("history".to_owned());
    r.push("status_msg".to_owned());
    r.push("referrer".to_owned());
    r.push("note".to_owned());
    r.push("sub".to_owned());
    r.push("msg".to_owned());
    proof {
        assert(string_views(r@) =~= raw_keyword_fields_spec());
    }
    r
}

/// The payload members with a number or boolean mapping, and that mapping type.
pub open spec fn raw_typed_fields_spec() -> Seq<(Seq<char>, Seq<char>)> {
    seq![
        ("id.orig_p"@, "integer"@),
        ("id.resp_p"@, "integer"@),
        ("orig_bytes"@, "long"@),
        ("resp_bytes"@, "long"@),
        ("orig_ip_bytes"@, "long"@),
        ("resp_ip_bytes"@, "long"@),
        ("orig_pkts"@, "long"@),
        ("resp_pkts"@, "long"@),
        ("request_body_len"@, "long"@),
        ("response_body_len"@, "long"@),
        ("status_code"@, "integer"@),
        ("established"@, "boolean"@),
        ("rejected"@, "boolean"@),
    ]
}

/// The payload members with a number or boolean mapping type, in template order.
pub fn raw_typed_fields() -> (r: Vec<(String, String)>)
    ensures
        pair_views(r@) == raw_typed_fields_spec(),
{
    let mut r: Vec<(String, String)> = Vec::new();
    r.push(("id.orig_p".to_owned(), "integer".to_owned()));
    r.push(("id.resp_p".to_owned(), "integer".to_owned()));
    r.push(("orig_bytes".to_owned(), "long".to_owned()));
    r.push(("resp_bytes".to_owned(), "long".to_owned()));
    r.push(("orig_ip_bytes".to_owned(), "long".to_owned()));
    r.push(("resp_ip_bytes".to_owned(), "long".to_owned()));
    r.push(("orig_pkts".to_owned(), "long".to_owned()));
    r.push(("resp_pkts".to_owned(), "long".to_owned()));
    r.push(("request_body_len".to_owned(), "long".to_owned()));
    r.push(("response_body_len".to_owned(), "long".to_owned()));
    r.push(("status_code".to_owned(), "integer".to_owned()));
    r.push(("established".to_owned(), "boolean".to_owned()));
    r.push(("rejected".to_owned(), "boolean".to_owned()));
    proof {
        assert(pair_views(r@) =~= raw_typed_fields_spec());
    }
    r
}

/// The payload objects whose members are all mapped as keywords.
pub open spec fn raw_keyword_groups_spec() -> Seq<(Seq<char>, Seq<Seq<char>>)> {
    seq![
        ("tls"@, seq!["ja3"@, "ja3s"@, "ja3Algorithms"@, "ja3sAlgorithms"@]),
        ("ssh"@, seq!["hassh"@, "client"@, "server"@]),
        ("http"@, seq!["userAgent"@, "requestMethod"@, "requestURI"@, "clientHeaderHash"@, "clientHeaderOrder"@, "serverHeaderHash"@]),
    ]
}

pub open spec fn group_views(v: Seq<(String, Vec<String>)>) -> Seq<(Seq<char>, Seq<Seq<char>>)> {
    v.map_values(|g: (String, Vec<String>)| (g.0@, string_views(g.1@)))
}

fn names(items: &[&str]) -> (r: Vec<String>)
    ensures
        string_views(r@) == items@.map_values(|s: &str| s@),
{
    let mut r: Vec<String> = Vec::new();
    let mut i: usize = 0;
    while i < items.len()
        invariant
            i <= items.len(),
            string_views(r@) == items@.map_values(|s: &str| s@).take(i as int),
        decreases items.len() - i,
    {
        let ghost before = r@;
        let s = items[i].to_owned();
        r.push(s);
        proof {
            assert(string_views(r@) =~= string_views(before).push(s@));
            assert(items@.map_values(|s: &str| s@).take(i + 1) =~= items@.map_values(|s: &str| s@).take(i as int).push(items@[i as int]@));
        }
        i += 1;
    }
    proof {
        assert(items@.map_values(|s: &str| s@).take(items.len() as int) =~= items@.map_values(|s: &str| s@));
    }
    r
}

/// The payload objects whose members are all mapped as keywords, in template order.
pub fn raw_keyword_groups() -> (r: Vec<(String, Vec<String>)>)
    ensures
        group_views(r@) == raw_keyword_groups_spec(),
{
    let mut r: Vec<(String, Vec<String>)> = Vec::new();
    let tls: [&str; 4] = ["ja3", "ja3s", "ja3Algorithms", "ja3sAlgorithms"];
    proof {
        assert(tls@.map_values(|s: &str| s@) =~= seq!["ja3"@, "ja3s"@, "ja3Algorithms"@, "ja3sAlgorithms"@]);
    }
    r.push(("tls".to_owned(), names(&tls)));
    let ssh: [&str; 3] = ["hassh", "client", "server"];
    proof {
        assert(ssh@.map_values(|s: &str| s@) =~= seq!["hassh"@, "client"@, "server"@]);
    }
    r.push(("ssh".to_owned(), names(&ssh)));
    let http: [&str; 6] = ["userAgent", "requestMethod", "requestURI", "clientHeaderHash", "clientHeaderOrder", "serverHeaderHash"];
    proof {
        assert(http@.map_values(|s: &str| s@) =~= seq!["userAgent"@, "requestMethod"@, "requestURI"@, "clientHeaderHash"@, "clientHeaderOrder"@, "serverHeaderHash"@]);
    }
    r.push(("http".to_owned(), names(&http)));
    proof {
        assert(group_views(r@) =~= raw_keyword_groups_spec());
    }
    r
}

/// The envelope's own fields and their mapping types.
pub open spec fn event_field_types_spec() -> Seq<(Seq<char>, Seq<char>)> {
    seq![
        ("id"@, "keyword"@),
        ("timestamp"@, "date"@),
        ("source"@, "keyword"@),
        ("agent_id"@, "keyword"@),
        ("hostname"@, "keyword"@),
        ("zeek_log_type"@, "keyword"@),
        ("tags"@, "keyword"@),
    ]
}

/// The envelope's own fields and their mapping types, in template order.
pub fn event_field_types() -> (r: Vec<(String, String)>)
    ensures
        pair_views(r@) == event_field_types_spec(),
{
    let mut r: Vec<(String, String)> = Vec::new();
    r.push(("id".to_owned(), "keyword".to_owned()));
    r.push(("timestamp".to_owned(), "date".to_owned()));
    r.push(("source".to_owned(), "keyword".to_owned()));
    r.push(("agent_id".to_owned(), "keyword".to_owned()));
    r.push(("hostname".to_owned(), "keyword".to_owned()));
    r.push(("zeek_log_type".to_owned(), "keyword".to_owned()));
    r.push(("tags".to_owned(), "keyword".to_owned()));
    proof {
        assert(pair_views(r@) =~= event_field_types_spec());
    }
    r
}

/// The fields of a threat enrichment and their mapping types.
pub open spec fn threat_field_types_spec() -> Seq<(Seq<char>, Seq<char>)> {
    seq![
        ("matched"@, "boolean"@),
        ("severity"@, "keyword"@),
        ("categories"@, "keyword"@),
        ("description"@, "text"@),
        ("feed"@, "keyword"@),
        ("rule_id"@, "keyword"@),
        ("indicator"@, "keyword"@),
    ]
}

/// The fields of a threat enrichment and their mapping types, in template order.
pub fn threat_field_types() -> (r: Vec<(String, String)>)
    ensures
        pair_views(r@) == threat_field_types_spec(),
{
    let mut r: Vec<(String, String)> = Vec::new();
    r.push(("matched".to_owned(), "boolean".to_owned()));
    r.push(("severity".to_owned(), "keyword".to_owned()));
    r.push(("categories".to_owned(), "keyword".to_owned()));
    r.push(("description".to_owned(), "text".to_owned()));
    r.push(("feed".to_owned(), "keyword".to_owned()));
    r.push(("rule_id".to_owned(), "keyword".to_owned()));
    r.push(("indicator".to_owned(), "keyword".to_owned()));
    proof {
        assert(pair_views(r@) =~= threat_field_types_spec());
    }
    r
}

/// The fields of an ATT&CK enrichment and their mapping types.
pub open spec fn attack_field_types_spec() -> Seq<(Seq<char>, Seq<char>)> {
    seq![
        ("matched"@, "boolean"@),
        ("tactic"@, "keyword"@),
        ("tactic_id"@, "keyword"@),
        ("technique_id"@, "keyword"@),
        ("technique"@, "text"@),
        ("notice_type"@, "keyword"@),
        ("description"@, "text"@),
        ("source"@, "keyword"@),
    ]
}

/// The fields of an ATT&CK enrichment and their mapping types, in template order.
pub fn attack_field_types() -> (r: Vec<(String, String)>)
    ensures
        pair_views(r@) == attack_field_types_spec(),
{
    let mut r: Vec<(String, String)> = Vec::new();
    r.push(("matched".to_owned(), "boolean".to_owned()));
    r.push(("tactic".to_owned(), "keyword".to_owned()));
    r.push(("tactic_id".to_owned(), "keyword".to_owned()));
    r.push(("technique_id".to_owned(), "keyword".to_owned()));
    r.push(("technique".to_owned(), "text".to_owned()));
    r.push(("notice_type".to_owned(), "keyword".to_owned()));
    r.push(("description".to_owned(), "text".to_owned()));
    r.push(("source".to_owned(), "keyword".to_owned()));
    proof {
        assert(pair_views(r@) =~= attack_field_types_spec());
    }
    r
}

// ---------------------------------------------------------------------------
// The index template as JSON text
// ---------------------------------------------------------------------------

/// One member of a JSON object: the key's string literal, `:`, the value's text.
pub open spec fn json_member(m: (Seq<char>, Seq<char>)) -> Seq<char> {
    json_text_of_str(m.0) + ":"@ + m.1
}

/// The members of a JSON object, separated by commas.
pub open spec fn json_members(ms: Seq<(Seq<char>, Seq<char>)>) -> Seq<char>
    decreases ms.len(),
{
    if ms.len() == 0 {
        Seq::empty()
    } else if ms.len() == 1 {
        json_member(ms[0])
    } else {
        json_members(ms.drop_last()) + ","@ + json_member(ms.last())
    }
}

/// The JSON object with members `ms` (each a key and the JSON text of its
/// value), in that order.
pub open spec fn json_object(ms: Seq<(Seq<char>, Seq<char>)>) -> Seq<char> {
    "{"@ + json_members(ms) + "}"@
}

/// The JSON text of an object from its members (key, JSON text of the value).
fn object_text(members: &Vec<(String, String)>) -> (r: String)
    ensures
        r@ == json_object(pair_views(members@)),
{
    let ghost ms = pair_views(members@);
    let mut r = "{".to_owned();
    let mut i: usize = 0;
    proof {
        assert(ms.take(0) =~= Seq::<(Seq<char>, Seq<char>)>::empty());
    }
    while i < members.len()
        invariant
            i <= members.len(),
            ms == pair_views(members@),
            r@ == "{"@ + json_members(ms.take(i as int)),
        decreases members.len() - i,
    {
        let ghost before = r@;
        if i > 0 {
            append_str(&mut r, ",");
        }
        let key = json_string(members[i].0.as_str());
        append_str(&mut r, key.as_str());
        append_str(&mut r, ":");
        append_str(&mut r, members[i].1.as_str());
        proof {
            let t = ms.take(i + 1);
            assert(t.drop_last() =~= ms.take(i as int));
            assert(t.last() == ms[i as int]);
            assert(ms[i as int] == (members@[i as int].0@, members@[i as int].1@));
            if i == 0 {
                assert(t.len() == 1);
                assert(r@ =~= "{"@ + json_members(t));
            } else {
                assert(r@ =~= "{"@ + json_members(t));
            }
        }
        i += 1;
    }
    append_str(&mut r, "}");
    proof {
        assert(ms.take(ms.len() as int) =~= ms);
    }
    r
}

/// The mapping `{"type": kind}`.
pub open spec fn typed_json(kind: Seq<char>) -> Seq<char> {
    json_object(seq![("type"@, json_text_of_str(kind))])
}

fn typed_text(kind: &str) -> (r: String)
    ensures
        r@ == typed_json(kind@),
{
    let mut members: Vec<(String, String)> = Vec::new();
    members.push(("type".to_owned(), json_string(kind)));
    proof {
        assert(pair_views(members@) =~= seq![("type"@, json_text_of_str(kind@))]);
    }
    object_text(&members)
}

/// `{"properties": object}` for the object with members `ms`.
pub open spec fn properties_json(ms: Seq<(Seq<char>, Seq<char>)>) -> Seq<char> {
    json_object(seq![("properties"@, json_object(ms))])
}

fn properties_text(members: &Vec<(String, String)>) -> (r: String)
    ensures
        r@ == properties_json(pair_views(members@)),
{
    let inner = object_text(members);
    let mut outer: Vec<(String, String)> = Vec::new();
    outer.push(("properties".to_owned(), inner));
    proof {
        assert(pair_views(outer@) =~= seq![("properties"@, json_object(pair_views(members@)))]);
    }
    object_text(&outer)
}

/// Each (name, type) as a member `name: {"type": type}`.
pub open spec fn typed_members(ps: Seq<(Seq<char>, Seq<char>)>) -> Seq<(Seq<char>, Seq<char>)> {
    ps.map_values(|p: (Seq<char>, Seq<char>)| (p.0, typed_json(p.1)))
}

fn typed_members_of(pairs: &Vec<(String, String)>) -> (r: Vec<(String, String)>)
    ensures
        pair_views(r@) == typed_members(pair_views(pairs@)),
{
    let mut r: Vec<(String, String)> = Vec::new();
    let mut i: usize = 0;
    while i < pairs.len()
        invariant
            i <= pairs.len(),
            pair_views(r@) == typed_members(pair_views(pairs@)).take(i as int),
        decreases pairs.len() - i,
    {
        let ghost before = r@;
        let name = pairs[i].0.clone();
        let value = typed_text(pairs[i].1.as_str());
        proof {
            assert(name@ == pairs@[i as int].0@);
        }
        r.push((name, value));
        proof {
            let all = typed_members(pair_views(pairs@));
            assert(all[i as int] == (pairs@[i as int].0@, typed_json(pairs@[i as int].1@)));
            assert(pair_views(r@) =~= pair_views(before).push((name@, value@)));
            assert(all.take(i + 1) =~= all.take(i as int).push(all[i as int]));
        }
        i += 1;
    }
    proof {
        assert(typed_members(pair_views(pairs@)).take(pairs.len() as int) =~= typed_members(
            pair_views(pairs@),
        ));
    }
    r
}

/// Each name as a member `name: {"type": "keyword"}`.
pub open spec fn keyword_members(names: Seq<Seq<char>>) -> Seq<(Seq<char>, Seq<char>)> {
    names.map_values(|n: Seq<char>| (n, typed_json("keyword"@)))
}

fn keyword_members_of(names: &Vec<String>) -> (r: Vec<(String, String)>)
    ensures
        pair_views(r@) == keyword_members(string_views(names@)),
{
    let mut r: Vec<(String, String)> = Vec::new();
    let mut i: usize = 0;
    while i < names.len()
        invariant
            i <= names.len(),
            pair_views(r@) == keyword_members(string_views(names@)).take(i as int),
        decreases names.len() - i,
    {
        let ghost before = r@;
        let name = names[i].clone();
        let value = typed_text("keyword");
        proof {
            assert(name@ == names@[i as int]@);
        }
        r.push((name, value));
        proof {
            let all = keyword_members(string_views(names@));
            assert(all[i as int] == (names@[i as int]@, typed_json("keyword"@)));
            assert(pair_views(r@) =~= pair_views(before).push((name@, value@)));
            assert(all.take(i + 1) =~= all.take(i as int).push(all[i as int]));
        }
        i += 1;
    }
    proof {
        assert(keyword_members(string_views(names@)).take(names.len() as int) =~= keyword_members(
            string_views(names@),
        ));
    }
    r
}

/// Each keyword group as a member `group: {"properties": {member: keyword, ...}}`.
pub open spec fn group_members(gs: Seq<(Seq<char>, Seq<Seq<char>>)>) -> Seq<(Seq<char>, Seq<char>)> {
    gs.map_values(|g: (Seq<char>, Seq<Seq<char>>)| (g.0, properties_json(keyword_members(g.1))))
}

fn group_members_of(groups: &Vec<(String, Vec<String>)>) -> (r: Vec<(String, String)>)
    ensures
        pair_views(r@) == group_members(group_views(groups@)),
{
    let mut r: Vec<(String, String)> = Vec::new();
    let mut i: usize = 0;
    while i < groups.len()
        invariant
            i <= groups.len(),
            pair_views(r@) == group_members(group_views(groups@)).take(i as int),
        decreases groups.len() - i,
    {
        let ghost before = r@;
        let name = groups[i].0.clone();
        let value = properties_text(&keyword_members_of(&groups[i].1));
        proof {
            assert(name@ == groups@[i as int].0@);
        }
        r.push((name, value));
        proof {
            let all = group_members(group_views(groups@));
            assert(all[i as int] == (
                groups@[i as int].0@,
                properties_json(keyword_members(string_views(groups@[i as int].1@))),
            ));
            assert(pair_views(r@) =~= pair_views(before).push((name@, value@)));
            assert(all.take(i + 1) =~= all.take(i as int).push(all[i as int]));
        }
        i += 1;
    }
    proof {
        assert(group_members(group_views(groups@)).take(groups.len() as int) =~= group_members(
            group_views(groups@),
        ));
    }
    r
}

/// The mapping of the `raw` payload: its keyword fields, its number and
/// boolean fields, then its keyword groups.
pub open spec fn raw_members_spec() -> Seq<(Seq<char>, Seq<char>)> {
    keyword_members(raw_keyword_fields_spec()) + typed_members(raw_typed_fields_spec())
        + group_members(raw_keyword_groups_spec())
}

/// The mapping of an event document: its envelope fields, then `raw` (an
/// object), `threat` and `attack`.
pub open spec fn mapping_members_spec() -> Seq<(Seq<char>, Seq<char>)> {
    typed_members(event_field_types_spec()) + seq![
        (
            "raw"@,
            json_object(
                seq![("type"@, json_text_of_str("object"@)), ("properties"@, json_object(raw_members_spec()))],
            ),
        ),
        ("threat"@, properties_json(typed_members(threat_field_types_spec()))),
        ("attack"@, properties_json(typed_members(attack_field_types_spec()))),
    ]
}

/// The body of the index template for indices under `prefix`: the pattern
/// `{prefix}-*`, one shard and no replica, and the event mapping.
pub open spec fn index_template_spec(prefix: Seq<char>) -> Seq<char> {
    json_object(
        seq![
            ("index_patterns"@, "["@ + json_text_of_str(prefix + "-*"@) + "]"@),
            (
                "template"@,
                json_object(
                    seq![
                        (
                            "settings"@,
                            json_object(seq![("number_of_shards"@, "1"@), ("number_of_replicas"@, "0"@)]),
                        ),
                        ("mappings"@, properties_json(mapping_members_spec())),
                    ],
                ),
            ),
        ],
    )
}

fn raw_mapping_text() -> (r: String)
    ensures
        r@ == json_object(seq![("type"@, json_text_of_str("object"@)), ("properties"@, json_object(raw_members_spec()))]),
{
    let mut members = keyword_members_of(&raw_keyword_fields());
    let mut typed = typed_members_of(&raw_typed_fields());
    let mut groups = group_members_of(&raw_keyword_groups());
    let ghost (k, t, g) = (members@, typed@, groups@);
    members.append(&mut typed);
    members.append(&mut groups);
    proof {
        assert(members@ == k + t + g);
        assert(pair_views(members@) =~= pair_views(k) + pair_views(t) + pair_views(g));
    }
    let properties = object_text(&members);
    let mut outer: Vec<(String, String)> = Vec::new();
    outer.push(("type".to_owned(), json_string("object")));
    outer.push(("properties".to_owned(), properties));
    proof {
        assert(pair_views(outer@) =~= seq![("type"@, json_text_of_str("object"@)), ("properties"@, json_object(raw_members_spec()))]);
    }
    object_text(&outer)
}

fn mapping_members() -> (r: Vec<(String, String)>)
    ensures
        pair_views(r@) == mapping_members_spec(),
{
    let mut r = typed_members_of(&event_field_types());
    r.push(("raw".to_owned(), raw_mapping_text()));
    r.push(("threat".to_owned(), properties_text(&typed_members_of(&threat_field_types()))));
    r.push(("attack".to_owned(), properties_text(&typed_members_of(&attack_field_types()))));
    proof {
        assert(pair_views(r@) =~= mapping_members_spec());
    }
    r
}

/// The body of the index template for indices under `index_prefix`, as JSON
/// text: the index pattern, one shard and no replica, and the mapping of event
/// documents.
pub fn index_template_body(index_prefix: &str) -> (r: String)
    ensures
        r@ == index_template_spec(index_prefix@),
{
    let mut pattern = index_prefix.to_owned();
    append_str(&mut pattern, "-*");
    let mut patterns = "[".to_owned();
    append_str(&mut patterns, json_string(pattern.as_str()).as_str());
    append_str(&mut patterns, "]");
    let mut settings: Vec<(String, String)> = Vec::new();
    settings.push(("number_of_shards".to_owned(), "1".to_owned()));
    settings.push(("number_of_replicas".to_owned(), "0".to_owned()));
    let settings_text = object_text(&settings);
    let mappings_text = properties_text(&mapping_members());
    let mut template: Vec<(String, String)> = Vec::new();
    template.push(("settings".to_owned(), settings_text));
    template.push(("mappings".to_owned(), mappings_text));
    let template_text = object_text(&template);
    let mut body: Vec<(String, String)> = Vec::new();
    body.push(("index_patterns".to_owned(), patterns));
    body.push(("template".to_owned(), template_text));
    proof {
        assert(pair_views(settings@) =~= seq![("number_of_shards"@, "1"@), ("number_of_replicas"@, "0"@)]);
        assert(pair_views(template@) =~= seq![
            ("settings"@, json_object(seq![("number_of_shards"@, "1"@), ("number_of_replicas"@, "0"@)])),
            ("mappings"@, properties_json(mapping_members_spec())),
        ]);
        assert(pair_views(body@) =~= seq![
            ("index_patterns"@, "["@ + json_text_of_str(index_prefix@ + "-*"@) + "]"@),
            ("template"@, json_object(pair_views(template@))),
        ]);
    }
    object_text(&body)
}

/// The pattern of an index's day: year, month and day of month, separated by
/// dots (`2024.01.15`).
pub open spec fn day_pattern() -> Seq<char> {
    "%Y.%m.%d"@
}

/// The UTC instant `secs` seconds and `nanos` nanoseconds after the Unix
/// epoch, as chrono writes it with `pattern`; `None` where chrono has no such
/// instant.
pub uninterp spec fn utc_formatted_text(secs: i64, nanos: u32, pattern: Seq<char>) -> Option<
    Seq<char>,
>;

/// Calls chrono's `DateTime::<Utc>::from_timestamp` and writes the instant
/// with `pattern`. The contract only names the result: it depends on the three
/// arguments alone (UTC, no locale). chrono fails to write a pattern it cannot
/// read, and `to_string` then panics, so the pattern is held to the day
/// pattern, which it reads.
#[verifier::external_body]
fn utc_formatted(secs: i64, nanos: u32, pattern: &str) -> (r: Option<String>)
    requires
        pattern@ == day_pattern(),
    ensures
        match r {
            Some(text) => utc_formatted_text(secs, nanos, pattern@) == Some(text@),
            None => utc_formatted_text(secs, nanos, pattern@) is None,
        },
{
    match chrono::DateTime::from_timestamp(secs, nanos) {
        Some(instant) => Some(instant.format(pattern).to_string()),
        None => None,
    }
}

/// Names of the indices one deployment writes to.
#[derive(Debug, Clone)]
pub struct EsIndexer {
    index_prefix: String,
}

impl EsIndexer {
    pub fn new(config: &ElasticsearchConfig) -> (r: EsIndexer)
        ensures
            r.prefix() == config.index_prefix@,
    {
        EsIndexer { index_prefix: config.index_prefix.clone() }
    }

    pub closed spec fn prefix(&self) -> Seq<char> {
        self.index_prefix@
    }

    pub fn index_prefix(&self) -> (r: &str)
        ensures
            r@ == self.prefix(),
    {
        self.index_prefix.as_str()
    }

    /// The name of the index template: `{prefix}-template`.
    pub fn template_name(&self) -> (r: String)
        ensures
            r@ == self.prefix() + "-template"@,
    {
        let mut r = self.index_prefix.clone();
        crate::text::append_str(&mut r, "-template");
        r
    }

    /// The index pattern the template applies to: `{prefix}-*`.
    pub fn template_pattern(&self) -> (r: String)
        ensures
            r@ == self.prefix() + "-*"@,
    {
        let mut r = self.index_prefix.clone();
        crate::text::append_str(&mut r, "-*");
        r
    }

    /// The daily index of events from `source` on `day` (`YYYY.MM.DD`):
    /// `{prefix}-{source}-{day}`.
    pub fn event_index(&self, source: EventSource, day: &str) -> (r: String)
        ensures
            r@ == self.prefix() + "-"@ + source_name(source) + "-"@ + day@,
    {
        let mut r = self.index_prefix.clone();
        crate::text::append_str(&mut r, "-");
        crate::text::append_str(&mut r, source.as_str());
        crate::text::append_str(&mut r, "-");
        crate::text::append_str(&mut r, day);
        r
    }

    /// The daily index that `event` is written to: the index of its source on
    /// the UTC day of its timestamp; `None` where the timestamp is not an
    /// instant that chrono can represent.
    pub fn index_for(&self, event: &NetworkEvent) -> (r: Option<String>)
        ensures
            match utc_formatted_text(event.timestamp.secs, event.timestamp.nanos, day_pattern()) {
                Some(day) => r matches Some(name) && name@ == self.prefix() + "-"@ + source_name(
                    event.source,
                ) + "-"@ + day,
                None => r is None,
            },
    {
        match utc_formatted(event.timestamp.secs, event.timestamp.nanos, "%Y.%m.%d") {
            Some(day) => Some(self.event_index(event.source, day.as_str())),
            None => None,
        }
    }
}

} // verus!
