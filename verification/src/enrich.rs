//! Event enrichment: ATT&CK notices and threat-intelligence address matches.
use vstd::prelude::*;

use crate::attack::{bzar_attack, bzar_scan_is_safe, bzar_scan_safe, extract_bzar_attack, AttackView};
use crate::event::{field_lookup, NetworkEvent, RawEvent, ThreatEnrichment, ZeekLogType};
use crate::text::{
    chars_eq, chars_of, contains_chars, contains_seq, ends_with, ends_with_chars, is_ascii_digit,
    lemma_lex_asymmetric, lemma_lex_irreflexive, lemma_lex_transitive, lemma_lex_trichotomy,
    lex_lt, lex_lt_chars, opt_view, split_char, split_on, strictly_sorted, string_from_chars, views,
};
use crate::threat::{
    lookup_safe, store_lookup, string_views, ThreatIndicator, ThreatStore, ThreatStoreView,
};

verus! {

broadcast use vstd::string::group_string_axioms;

// ---------------------------------------------------------------------------
// Addresses mentioned by a payload
// ---------------------------------------------------------------------------

/// Four dot-separated pieces made of ASCII digits only.
pub open spec fn is_ip_like(s: Seq<char>) -> bool {
    &&& split_char(s, '.').len() == 4
    &&& forall|i: int| 0 <= i < s.len() ==> is_ascii_digit(#[trigger] s[i]) || s[i] == '.'
}

/// A payload member whose name marks it as holding an address.
pub open spec fn is_ip_field_name(name: Seq<char>) -> bool {
    contains_seq(name, "ip"@) || ends_with(name, "_h"@)
}

/// The value of one of the well-known address members is `s`.
pub open spec fn is_keyed_ip(fields: Seq<(String, String)>, s: Seq<char>) -> bool {
    ||| field_lookup(fields, "id.orig_h"@) == Some(s)
    ||| field_lookup(fields, "id.resp_h"@) == Some(s)
    ||| field_lookup(fields, "src_ip"@) == Some(s)
    ||| field_lookup(fields, "dst_ip"@) == Some(s)
    ||| field_lookup(fields, "client_ip"@) == Some(s)
    ||| field_lookup(fields, "server_ip"@) == Some(s)
    ||| field_lookup(fields, "ip"@) == Some(s)
}

/// `s` is an address that the payload mentions: the address-like string value
/// of a well-known address member or of any member named like one.
pub open spec fn is_ip_candidate(fields: Seq<(String, String)>, s: Seq<char>) -> bool {
    &&& is_ip_like(s)
    &&& (is_keyed_ip(fields, s) || exists|i: int|
        0 <= i < fields.len() && is_ip_field_name(#[trigger] fields[i].0@) && fields[i].1@ == s)
}

/// Whether `s` looks like a dotted IPv4 address.
pub fn looks_like_ip(s: &str) -> (r: bool)
    ensures
        r == is_ip_like(s@),
{
    let chars = chars_of(s);
    let parts = split_on(&chars, '.');
    if parts.len() != 4 {
        return false;
    }
    let mut i: usize = 0;
    while i < chars.len()
        invariant
            i <= chars.len(),
            chars@ == s@,
            split_char(s@, '.').len() == 4,
            forall|j: int| 0 <= j < i ==> is_ascii_digit(#[trigger] chars@[j]) || chars@[j] == '.',
        decreases chars.len() - i,
    {
        let c = chars[i];
        if !(('0' <= c && c <= '9') || c == '.') {
            return false;
        }
        i += 1;
    }
    true
}

fn is_ip_field_name_str(name: &str) -> (r: bool)
    ensures
        r == is_ip_field_name(name@),
{
    let chars = chars_of(name);
    contains_chars(&chars, &chars_of("ip")) || ends_with_chars(&chars, &chars_of("_h"))
}

proof fn lemma_sorted_order(s: Seq<Seq<char>>, j: int, k: int)
    requires
        strictly_sorted(s),
        0 <= j < s.len(),
        0 <= k < s.len(),
        lex_lt(s[j], s[k]),
    ensures
        j < k,
{
    if j == k {
        lemma_lex_irreflexive(s[j]);
    } else if j > k {
        lemma_lex_asymmetric(s[k], s[j]);
    }
}

/// Insert `s` into a strictly sorted list unless it is already there.
fn insert_sorted(acc: &mut Vec<Vec<char>>, s: Vec<char>)
    requires
        strictly_sorted(views(old(acc)@)),
    ensures
        strictly_sorted(views(final(acc)@)),
        forall|x: Seq<char>|
            views(final(acc)@).contains(x) <==> (views(old(acc)@).contains(x) || x == s@),
{
    let n = acc.len();
    let mut p: usize = 0;
    while p < n && lex_lt_chars(&acc[p], &s)
        invariant
            p <= n,
            n == acc.len(),
            strictly_sorted(views(acc@)),
            forall|j: int| 0 <= j < p ==> lex_lt(#[trigger] views(acc@)[j], s@),
        decreases n - p,
    {
        p += 1;
    }
    if p < n && chars_eq(&acc[p], &s) {
        proof {
            assert(views(acc@)[p as int] == s@);
        }
        return ;
    }
    let ghost old_v = views(acc@);
    let ghost sv = s@;
    proof {
        if p < n {
            lemma_lex_trichotomy(old_v[p as int], sv);
        }
    }
    acc.insert(p, s);
    proof {
        let t = views(acc@);
        assert(t =~= old_v.insert(p as int, sv));
        assert forall|i: int, j: int| 0 <= i < j < t.len() implies lex_lt(
            #[trigger] t[i],
            #[trigger] t[j],
        ) by {
            if j < p {
            } else if j == p {
            } else if i < p {
                assert(lex_lt(old_v[i], old_v[j - 1]));
            } else if i == p {
                if j - 1 > p {
                    assert(lex_lt(old_v[p as int], old_v[j - 1]));
                    lemma_lex_transitive(sv, old_v[p as int], old_v[j - 1]);
                }
            } else {
                assert(lex_lt(old_v[i - 1], old_v[j - 1]));
            }
        }
        assert forall|x: Seq<char>| t.contains(x) <==> (old_v.contains(x) || x == sv) by {
            if t.contains(x) {
                let i = choose|i: int| 0 <= i < t.len() && t[i] == x;
                if i < p {
                    assert(old_v[i] == x);
                } else if i > p {
                    assert(old_v[i - 1] == x);
                }
            }
            if old_v.contains(x) {
                let i = choose|i: int| 0 <= i < old_v.len() && old_v[i] == x;
                if i < p {
                    assert(t[i] == x);
                } else {
                    assert(t[i + 1] == x);
                }
            }
            if x == sv {
                assert(t[p as int] == x);
            }
        }
    }
}

/// Add the value of member `key` when it looks like an address.
fn add_keyed(acc: &mut Vec<Vec<char>>, raw: &RawEvent, key: &str)
    requires
        strictly_sorted(views(old(acc)@)),
    ensures
        strictly_sorted(views(final(acc)@)),
        forall|x: Seq<char>|
            views(final(acc)@).contains(x) <==> (views(old(acc)@).contains(x) || (field_lookup(
                raw.string_fields@,
                key@,
            ) == Some(x) && is_ip_like(x))),
{
    match raw.get_str(key) {
        Some(v) => {
            if looks_like_ip(v.as_str()) {
                insert_sorted(acc, chars_of(v.as_str()));
            }
        },
        None => {},
    }
}

/// The addresses that an event payload mentions, sorted and without repeats.
pub fn extract_ips(raw: &RawEvent) -> (r: Vec<String>)
    ensures
        strictly_sorted(string_views(r@)),
        forall|s: Seq<char>|
            string_views(r@).contains(s) <==> is_ip_candidate(raw.string_fields@, s),
{
    let mut acc: Vec<Vec<char>> = Vec::new();
    proof {
        assert(views(acc@) =~= Seq::<Seq<char>>::empty());
    }
    add_keyed(&mut acc, raw, "id.orig_h");
    add_keyed(&mut acc, raw, "id.resp_h");
    add_keyed(&mut acc, raw, "src_ip");
    add_keyed(&mut acc, raw, "dst_ip");
    add_keyed(&mut acc, raw, "client_ip");
    add_keyed(&mut acc, raw, "server_ip");
    add_keyed(&mut acc, raw, "ip");
    let fields = &raw.string_fields;
    let n = fields.len();
    let mut i: usize = 0;
    while i < n
        invariant
            i <= n,
            n == fields.len(),
            fields == &raw.string_fields,
            strictly_sorted(views(acc@)),
            forall|x: Seq<char>|
                #[trigger] views(acc@).contains(x) <==> (is_ip_like(x) && (is_keyed_ip(fields@, x)
                    || exists|j: int|
                    0 <= j < i && is_ip_field_name(#[trigger] fields@[j].0@) && fields@[j].1@
                        == x)),
        decreases n - i,
    {
        let ghost before = views(acc@);
        let name = fields[i].0.as_str();
        let value = fields[i].1.as_str();
        let add = is_ip_field_name_str(name) && looks_like_ip(value);
        if add {
            insert_sorted(&mut acc, chars_of(value));
        }
        proof {
            let fi = fields@[i as int];
            assert forall|x: Seq<char>|
                #[trigger] views(acc@).contains(x) <==> (is_ip_like(x) && (is_keyed_ip(fields@, x)
                    || exists|j: int|
                    0 <= j < i + 1 && is_ip_field_name(#[trigger] fields@[j].0@) && fields@[j].1@
                        == x)) by {
                if before.contains(x) {
                    assert(is_ip_like(x));
                }
                let old_ex = exists|j: int|
                    0 <= j < i && is_ip_field_name(#[trigger] fields@[j].0@) && fields@[j].1@ == x;
                let new_ex = exists|j: int|
                    0 <= j < i + 1 && is_ip_field_name(#[trigger] fields@[j].0@) && fields@[j].1@
                        == x;
                if new_ex {
                    let j = choose|j: int|
                        0 <= j < i + 1 && is_ip_field_name(#[trigger] fields@[j].0@) && fields@[j].1@
                            == x;
                    if j < i {
                        assert(old_ex);
                    } else {
                        assert(j == i);
                        if is_ip_like(x) {
                            assert(add);
                        }
                    }
                }
                if old_ex {
                    let j = choose|j: int|
                        0 <= j < i && is_ip_field_name(#[trigger] fields@[j].0@) && fields@[j].1@
                            == x;
                    assert(0 <= j < i + 1 && is_ip_field_name(fields@[j].0@) && fields@[j].1@ == x);
                }
                if views(acc@).contains(x) && !before.contains(x) {
                    assert(add && x == fi.1@);
                    assert(0 <= i < i + 1 && is_ip_field_name(fields@[i as int].0@)
                        && fields@[i as int].1@ == x);
                }
            }
        }
        i += 1;
    }
    let mut r: Vec<String> = Vec::new();
    let mut k: usize = 0;
    while k < acc.len()
        invariant
            k <= acc.len(),
            string_views(r@) == views(acc@).take(k as int),
        decreases acc.len() - k,
    {
        let ghost prev = r@;
        let item = string_from_chars(&acc[k]);
        r.push(item);
        proof {
            assert(r@ == prev.push(item));
            assert(views(acc@)[k as int] == item@);
            assert(string_views(r@) =~= string_views(prev).push(item@));
            assert(string_views(r@) =~= views(acc@).take(k + 1));
        }
        k += 1;
    }
    proof {
        assert(views(acc@).take(acc.len() as int) =~= views(acc@));
    }
    r
}

// ---------------------------------------------------------------------------
// Enrichment
// ---------------------------------------------------------------------------

/// `ip` is the first address the payload mentions, in sorted order, that the
/// store knows.
pub open spec fn is_first_known(v: ThreatStoreView, fields: Seq<(String, String)>, ip: Seq<char>) -> bool {
    &&& is_ip_candidate(fields, ip)
    &&& store_lookup(v, ip) is Some
    &&& forall|o: Seq<char>|
        #![trigger is_ip_candidate(fields, o), lex_lt(o, ip)]
        is_ip_candidate(fields, o) && lex_lt(o, ip) ==> store_lookup(v, o) is None
}

/// The indicator that enrichment attaches to a payload: the one found for the
/// first known address.
pub open spec fn threat_match(v: ThreatStoreView, fields: Seq<(String, String)>) -> Option<
    ThreatIndicator,
> {
    if exists|ip: Seq<char>| is_first_known(v, fields, ip) {
        store_lookup(v, choose|ip: Seq<char>| is_first_known(v, fields, ip))
    } else {
        None
    }
}

/// Every address that enrichment looks up (each one up to the first known
/// one) can be looked up without reaching a network indicator whose mask
/// cannot be computed.
pub open spec fn enrich_lookups_safe(v: ThreatStoreView, fields: Seq<(String, String)>) -> bool {
    forall|ip: Seq<char>|
        #![trigger is_ip_candidate(fields, ip)]
        is_ip_candidate(fields, ip) && (forall|o: Seq<char>|
            #![trigger is_ip_candidate(fields, o), lex_lt(o, ip)]
            is_ip_candidate(fields, o) && lex_lt(o, ip) ==> store_lookup(v, o) is None)
            ==> lookup_safe(v, ip)
}

/// The tags an ATT&CK match adds: the technique id if any, then
/// `attack_match`, `bzar` and the tactic.
pub open spec fn attack_tags(a: AttackView) -> Seq<Seq<char>> {
    (match a.technique_id {
        Some(t) => seq![t],
        None => Seq::empty(),
    }) + seq!["attack_match"@, "bzar"@, a.tactic]
}

/// The tags a threat match adds: `threat_match`, then the indicator's categories.
pub open spec fn threat_tags(ind: ThreatIndicator) -> Seq<Seq<char>> {
    seq!["threat_match"@] + string_views(ind.categories@)
}

/// `t` records a match against indicator `ind`.
pub open spec fn is_threat_of(t: ThreatEnrichment, ind: ThreatIndicator) -> bool {
    &&& t.matched
    &&& t.severity == ind.severity
    &&& string_views(t.categories@) == string_views(ind.categories@)
    &&& t.description@ == ind.description@
    &&& t.feed@ == ind.feed@
    &&& opt_view(t.rule_id) == opt_view(ind.rule_id)
    &&& opt_view(t.indicator) == Some(ind.indicator@)
}

pub open spec fn added_attack_tags(fields: Seq<(String, String)>) -> Seq<Seq<char>> {
    match bzar_attack(fields) {
        Some(a) => attack_tags(a),
        None => Seq::empty(),
    }
}

pub open spec fn added_threat_tags(v: ThreatStoreView, fields: Seq<(String, String)>) -> Seq<
    Seq<char>,
> {
    match threat_match(v, fields) {
        Some(ind) => threat_tags(ind),
        None => Seq::empty(),
    }
}

proof fn lemma_first_known_unique(
    v: ThreatStoreView,
    fields: Seq<(String, String)>,
    a: Seq<char>,
    b: Seq<char>,
)
    requires
        is_first_known(v, fields, a),
        is_first_known(v, fields, b),
    ensures
        a == b,
{
    lemma_lex_trichotomy(a, b);
    if lex_lt(a, b) {
        assert(is_ip_candidate(fields, a) && lex_lt(a, b));
    } else if lex_lt(b, a) {
        assert(is_ip_candidate(fields, b) && lex_lt(b, a));
    }
}

fn copy_strings(v: &Vec<String>) -> (r: Vec<String>)
    ensures
        r@ == v@,
{
    let mut r: Vec<String> = Vec::new();
    let mut i: usize = 0;
    while i < v.len()
        invariant
            i <= v.len(),
            r@ == v@.take(i as int),
        decreases v.len() - i,
    {
        r.push(v[i].clone());
        proof {
            assert(v@.take(i + 1) =~= v@.take(i as int).push(v@[i as int]));
        }
        i += 1;
    }
    proof {
        assert(v@.take(v.len() as int) =~= v@);
    }
    r
}

fn copy_opt_string(o: &Option<String>) -> (r: Option<String>)
    ensures
        r == *o,
{
    match o {
        Some(s) => Some(s.clone()),
        None => None,
    }
}

/// The first of `ips` that the store knows, looking them up in order.
fn first_known<'a>(store: &'a ThreatStore, ips: &Vec<String>) -> (r: Option<&'a ThreatIndicator>)
    requires
        store.wf(),
        forall|k: int|
            0 <= k < ips.len() && (forall|j: int|
                0 <= j < k ==> store_lookup(store@, #[trigger] ips@[j]@) is None) ==> lookup_safe(
                store@,
                #[trigger] ips@[k]@,
            ),
    ensures
        match r {
            Some(ind) => exists|k: int|
                0 <= k < ips.len() && store_lookup(store@, #[trigger] ips@[k]@) == Some(*ind)
                    && forall|j: int|
                    0 <= j < k ==> store_lookup(store@, #[trigger] ips@[j]@) is None,
            None => forall|k: int| 0 <= k < ips.len() ==> store_lookup(store@, #[trigger] ips@[k]@) is None,
        },
{
    let mut k: usize = 0;
    while k < ips.len()
        invariant
            k <= ips.len(),
            store.wf(),
            forall|k: int|
                0 <= k < ips.len() && (forall|j: int|
                    0 <= j < k ==> store_lookup(store@, #[trigger] ips@[j]@) is None) ==> lookup_safe(
                    store@,
                    #[trigger] ips@[k]@,
                ),
            forall|j: int| 0 <= j < k ==> store_lookup(store@, #[trigger] ips@[j]@) is None,
        decreases ips.len() - k,
    {
        proof {
            assert(lookup_safe(store@, ips@[k as int]@));
        }
        match store.lookup_ip(ips[k].as_str()) {
            Some(ind) => {
                return Some(ind);
            },
            None => {},
        }
        k += 1;
    }
    None
}

fn push_copies(tags: &mut Vec<String>, items: &Vec<String>)
    ensures
        final(tags)@ == old(tags)@ + items@,
{
    let mut i: usize = 0;
    while i < items.len()
        invariant
            i <= items.len(),
            tags@ == old(tags)@ + items@.take(i as int),
        decreases items.len() - i,
    {
        tags.push(items[i].clone());
        proof {
            assert(items@.take(i + 1) =~= items@.take(i as int).push(items@[i as int]));
        }
        i += 1;
    }
    proof {
        assert(items@.take(items.len() as int) =~= items@);
    }
}

proof fn lemma_string_views_add(a: Seq<String>, b: Seq<String>)
    ensures
        string_views(a + b) == string_views(a) + string_views(b),
{
    assert(string_views(a + b) =~= string_views(a) + string_views(b));
}

/// Enrich an event in place: attach the ATT&CK match of a BZAR notice, and the
/// threat indicator of the first address it mentions (in sorted order) that the
/// store knows, adding the matching tags.
pub fn enrich_event(event: &mut NetworkEvent, store: &ThreatStore)
    requires
        store.wf(),
        bzar_scan_safe(old(event).raw.string_fields@),
        enrich_lookups_safe(store@, old(event).raw.string_fields@),
    ensures
        final(event).id == old(event).id,
        final(event).timestamp == old(event).timestamp,
        final(event).source == old(event).source,
        final(event).agent_id == old(event).agent_id,
        final(event).hostname == old(event).hostname,
        final(event).zeek_log_type == old(event).zeek_log_type,
        final(event).raw == old(event).raw,
        match bzar_attack(old(event).raw.string_fields@) {
            Some(a) => final(event).attack matches Some(x) && x@ == a,
            None => final(event).attack == old(event).attack,
        },
        match threat_match(store@, old(event).raw.string_fields@) {
            Some(ind) => final(event).threat matches Some(t) && is_threat_of(t, ind),
            None => final(event).threat == old(event).threat,
        },
        string_views(final(event).tags@) == string_views(old(event).tags@) + added_attack_tags(
            old(event).raw.string_fields@,
        ) + added_threat_tags(store@, old(event).raw.string_fields@),
{
    let ghost fields = event.raw.string_fields@;
    let ghost tags0 = string_views(event.tags@);
    let log_type: Option<&ZeekLogType> = match &event.zeek_log_type {
        Some(t) => Some(t),
        None => None,
    };
    let attack = extract_bzar_attack(&event.raw, log_type);
    match attack {
        Some(a) => {
            let ghost before = event.tags@;
            match &a.technique_id {
                Some(tid) => {
                    event.tags.push(tid.clone());
                },
                None => {},
            }
            event.tags.push("attack_match".to_owned());
            event.tags.push("bzar".to_owned());
            event.tags.push(a.tactic.clone());
            proof {
                assert(string_views(event.tags@) =~= string_views(before) + attack_tags(a@));
            }
            event.attack = Some(a);
        },
        None => {
            proof {
                assert(tags0 + added_attack_tags(fields) =~= tags0);
            }
        },
    }
    let ghost tags1 = string_views(event.tags@);
    let ips = extract_ips(&event.raw);
    let ghost v = store@;
    proof {
        assert forall|k: int|
            0 <= k < ips.len() && (forall|j: int|
                0 <= j < k ==> store_lookup(v, #[trigger] ips@[j]@) is None) implies lookup_safe(
            v,
            #[trigger] ips@[k]@,
        ) by {
            let ip = ips@[k]@;
            assert(string_views(ips@)[k] == ip);
            assert(is_ip_candidate(fields, ip));
            assert forall|o: Seq<char>|
                is_ip_candidate(fields, o) && lex_lt(o, ip) implies store_lookup(v, o) is None by {
                assert(string_views(ips@).contains(o));
                let j = choose|j: int| 0 <= j < ips.len() && string_views(ips@)[j] == o;
                lemma_sorted_order(string_views(ips@), j, k);
                assert(ips@[j]@ == o);
            }
        }
    }
    let found = first_known(store, &ips);
    match found {
        Some(ind) => {
            let ghost before = event.tags@;
            proof {
                let k = choose|k: int|
                    0 <= k < ips.len() && store_lookup(v, #[trigger] ips@[k]@) == Some(*ind)
                        && forall|j: int| 0 <= j < k ==> store_lookup(v, #[trigger] ips@[j]@) is None;
                let ip = ips@[k]@;
                assert(string_views(ips@)[k] == ip);
                assert forall|o: Seq<char>|
                    #![trigger is_ip_candidate(fields, o), lex_lt(o, ip)]
                    is_ip_candidate(fields, o) && lex_lt(o, ip) implies store_lookup(v, o) is None by {
                    assert(string_views(ips@).contains(o));
                    let j = choose|j: int| 0 <= j < ips.len() && string_views(ips@)[j] == o;
                    lemma_sorted_order(string_views(ips@), j, k);
                    assert(ips@[j]@ == o);
                }
                assert(is_first_known(v, fields, ip));
                let c = choose|ip: Seq<char>| is_first_known(v, fields, ip);
                lemma_first_known_unique(v, fields, c, ip);
                assert(threat_match(v, fields) == Some(*ind));
            }
            let t = ThreatEnrichment {
                matched: true,
                severity: ind.severity,
                categories: copy_strings(&ind.categories),
                description: ind.description.clone(),
                feed: ind.feed.clone(),
                rule_id: copy_opt_string(&ind.rule_id),
                indicator: Some(ind.indicator.clone()),
            };
            event.threat = Some(t);
            event.tags.push("threat_match".to_owned());
            let ghost mid = event.tags@;
            push_copies(&mut event.tags, &ind.categories);
            proof {
                lemma_string_views_add(mid, ind.categories@);
                assert(string_views(event.tags@) =~= tags1 + threat_tags(*ind));
            }
        },
        None => {
            proof {
                if exists|ip: Seq<char>| is_first_known(v, fields, ip) {
                    let ip = choose|ip: Seq<char>| is_first_known(v, fields, ip);
                    assert(string_views(ips@).contains(ip));
                    let j = choose|j: int| 0 <= j < ips.len() && string_views(ips@)[j] == ip;
                    assert(ips@[j]@ == ip);
                }
                assert(tags1 + added_threat_tags(v, fields) =~= tags1);
            }
        },
    }
}

/// Whether [`enrich_event`] can enrich `event` against `store`: its technique
/// text can be scanned, and every lookup it makes is safe.
pub fn enrich_is_safe(event: &NetworkEvent, store: &ThreatStore) -> (r: bool)
    requires
        store.wf(),
    ensures
        r == (bzar_scan_safe(event.raw.string_fields@) && enrich_lookups_safe(
            store@,
            event.raw.string_fields@,
        )),
{
    if !bzar_scan_is_safe(&event.raw) {
        return false;
    }
    let ghost fields = event.raw.string_fields@;
    let ghost v = store@;
    let ips = extract_ips(&event.raw);
    let ghost sv = string_views(ips@);
    let mut k: usize = 0;
    while k < ips.len()
        invariant
            k <= ips.len(),
            store.wf(),
            v == store@,
            fields == event.raw.string_fields@,
            bzar_scan_safe(fields),
            sv == string_views(ips@),
            strictly_sorted(sv),
            forall|s: Seq<char>| sv.contains(s) <==> is_ip_candidate(fields, s),
            forall|j: int| 0 <= j < k ==> lookup_safe(v, #[trigger] sv[j]),
            forall|j: int| 0 <= j < k ==> store_lookup(v, #[trigger] sv[j]) is None,
        decreases ips.len() - k,
    {
        let ip = ips[k].as_str();
        proof {
            assert(sv[k as int] == ip@);
        }
        if !store.lookup_is_safe(ip) {
            proof {
                assert(is_ip_candidate(fields, ip@));
                assert forall|o: Seq<char>|
                    #![trigger is_ip_candidate(fields, o), lex_lt(o, ip@)]
                    is_ip_candidate(fields, o) && lex_lt(o, ip@) implies store_lookup(v, o) is None by {
                    assert(sv.contains(o));
                    let j = choose|j: int| 0 <= j < sv.len() && sv[j] == o;
                    lemma_sorted_order(sv, j, k as int);
                }
                assert(!enrich_lookups_safe(v, fields));
            }
            return false;
        }
        if store.lookup_ip(ip).is_some() {
            proof {
                assert forall|x: Seq<char>|
                    #![trigger is_ip_candidate(fields, x)]
                    is_ip_candidate(fields, x) && (forall|o: Seq<char>|
                        #![trigger is_ip_candidate(fields, o), lex_lt(o, x)]
                        is_ip_candidate(fields, o) && lex_lt(o, x) ==> store_lookup(v, o) is None)
                        implies lookup_safe(v, x) by {
                    assert(sv.contains(x));
                    let j = choose|j: int| 0 <= j < sv.len() && sv[j] == x;
                    if j > k {
                        assert(lex_lt(sv[k as int], sv[j]));
                        assert(is_ip_candidate(fields, sv[k as int]));
                    } else if j == k {
                    } else {
                        assert(lookup_safe(v, sv[j]));
                    }
                }
            }
            return true;
        }
        k += 1;
    }
    proof {
        assert forall|x: Seq<char>|
            #![trigger is_ip_candidate(fields, x)]
            is_ip_candidate(fields, x) && (forall|o: Seq<char>|
                #![trigger is_ip_candidate(fields, o), lex_lt(o, x)]
                is_ip_candidate(fields, o) && lex_lt(o, x) ==> store_lookup(v, o) is None)
                implies lookup_safe(v, x) by {
            assert(sv.contains(x));
            let j = choose|j: int| 0 <= j < sv.len() && sv[j] == x;
            assert(lookup_safe(v, sv[j]));
        }
    }
    true
}

/// Enrich `event` where [`enrich_is_safe`] holds, as [`enrich_event`] does;
/// otherwise leave it unchanged. Returns whether it enriched.
pub fn try_enrich_event(event: &mut NetworkEvent, store: &ThreatStore) -> (r: bool)
    requires
        store.wf(),
    ensures
        r == (bzar_scan_safe(old(event).raw.string_fields@) && enrich_lookups_safe(
            store@,
            old(event).raw.string_fields@,
        )),
        !r ==> *final(event) == *old(event),
        r ==> final(event).id == old(event).id && final(event).timestamp == old(event).timestamp
            && final(event).source == old(event).source && final(event).agent_id == old(
            event,
        ).agent_id && final(event).hostname == old(event).hostname && final(event).zeek_log_type
            == old(event).zeek_log_type && final(event).raw == old(event).raw,
        r ==> match bzar_attack(old(event).raw.string_fields@) {
            Some(a) => final(event).attack matches Some(x) && x@ == a,
            None => final(event).attack == old(event).attack,
        },
        r ==> match threat_match(store@, old(event).raw.string_fields@) {
            Some(ind) => final(event).threat matches Some(t) && is_threat_of(t, ind),
            None => final(event).threat == old(event).threat,
        },
        r ==> string_views(final(event).tags@) == string_views(old(event).tags@)
            + added_attack_tags(old(event).raw.string_fields@) + added_threat_tags(
            store@,
            old(event).raw.string_fields@,
        ),
{
    if !enrich_is_safe(event, store) {
        return false;
    }
    enrich_event(event, store);
    true
}

} // verus!
