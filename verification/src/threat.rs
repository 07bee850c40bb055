//! Threat indicators, the in-memory threat store and the Emerging Threats feed parsers.
use vstd::arithmetic::power2::pow2;
use vstd::bits::lemma_u32_shr_is_div;
use vstd::prelude::*;

use crate::event::ThreatSeverity;
use crate::text::{
    chars_of, contains_char, copy_range, find_chars, find_seq, in_class, is_ascii_digit,
    lines, lines_of, parse_u8, parse_u8_chars, split_char, split_on, string_from_chars, trim,
    trim_class, trim_ws, trim_ws_chars, views, words, words_of, CharClass,
};

verus! {

broadcast use vstd::string::group_string_axioms;

#[derive(Debug, Clone, Copy, PartialEq, Eq, Structural)]
pub enum IndicatorType {
    Ip,
    Cidr,
    Domain,
    Url,
}

/// A single threat indicator from Emerging Threats or related feeds.
#[derive(Debug, Clone)]
pub struct ThreatIndicator {
    pub indicator: String,
    pub indicator_type: IndicatorType,
    pub categories: Vec<String>,
    pub severity: ThreatSeverity,
    pub description: String,
    pub feed: String,
    pub rule_id: Option<String>,
}

pub open spec fn string_views(v: Seq<String>) -> Seq<Seq<char>> {
    v.map_values(|s: String| s@)
}

// ---------------------------------------------------------------------------
// IPv4 and CIDR matching
// ---------------------------------------------------------------------------

/// The octets that parse among the `.`-separated parts (unparsable parts are skipped).
pub open spec fn parsed_octets(parts: Seq<Seq<char>>) -> Seq<u8>
    decreases parts.len(),
{
    if parts.len() == 0 {
        Seq::empty()
    } else {
        let init = parsed_octets(parts.drop_last());
        match parse_u8(parts.last()) {
            Some(b) => init.push(b),
            None => init,
        }
    }
}

/// The four octets of a dotted address, when exactly four parts parse as bytes.
pub open spec fn parse_ipv4_spec(s: Seq<char>) -> Option<Seq<u8>> {
    let octets = parsed_octets(split_char(s, '.'));
    if octets.len() == 4 {
        Some(octets)
    } else {
        None
    }
}

/// Big-endian value of four octets.
pub open spec fn ipv4_value(o: Seq<u8>) -> u32 {
    ((o[0] as int) * 16777216 + (o[1] as int) * 65536 + (o[2] as int) * 256 + (o[3] as int)) as u32
}

/// The address and network agree on their first `prefix` bits.
pub open spec fn same_prefix(a: u32, n: u32, prefix: u8) -> bool {
    prefix == 0 || (a >> ((32 - prefix) as u32)) == (n >> ((32 - prefix) as u32))
}

/// `ip` lies in the network `cidr` (`a.b.c.d/len`).
pub open spec fn ip_in_cidr_spec(ip: Seq<char>, cidr: Seq<char>) -> bool {
    let parts = split_char(cidr, '/');
    parts.len() == 2 && match parse_u8(parts[1]) {
        Some(prefix) => match (parse_ipv4_spec(ip), parse_ipv4_spec(parts[0])) {
            (Some(a), Some(n)) => same_prefix(ipv4_value(a), ipv4_value(n), prefix),
            _ => false,
        },
        None => false,
    }
}

/// Network membership is agreement on the first `p` bits: for an address
/// `a.b.c.d` and a network `w.x.y.z/p` with `0 < p <= 32`, the address lies in
/// the network exactly when the two 32-bit values, read big-endian from their
/// octets, have the same quotient by `2^(32 - p)`; with `p == 0` every address
/// lies in it.
pub proof fn law_cidr_membership(ip: Seq<char>, cidr: Seq<char>, a: Seq<u8>, n: Seq<u8>, p: u8)
    requires
        split_char(cidr, '/').len() == 2,
        parse_u8(split_char(cidr, '/')[1]) == Some(p),
        p <= 32,
        parse_ipv4_spec(ip) == Some(a),
        parse_ipv4_spec(split_char(cidr, '/')[0]) == Some(n),
    ensures
        p == 0 ==> ip_in_cidr_spec(ip, cidr),
        p > 0 ==> ip_in_cidr_spec(ip, cidr) == ((a[0] * 16777216 + a[1] * 65536 + a[2] * 256
            + a[3]) / pow2((32 - p) as nat) as int == (n[0] * 16777216 + n[1] * 65536 + n[2] * 256
            + n[3]) / pow2((32 - p) as nat) as int),
{
    if p > 0 {
        let x = ipv4_value(a);
        let y = ipv4_value(n);
        assert(x == a[0] * 16777216 + a[1] * 65536 + a[2] * 256 + a[3]);
        assert(y == n[0] * 16777216 + n[1] * 65536 + n[2] * 256 + n[3]);
        let k: u32 = (32 - p) as u32;
        lemma_u32_shr_is_div(x, k);
        lemma_u32_shr_is_div(y, k);
    }
}

/// A CIDR whose prefix length parses but exceeds 32 bits, with a network
/// address that parses: the mask computation fails on it.
pub open spec fn cidr_overlong(cidr: Seq<char>) -> bool {
    let parts = split_char(cidr, '/');
    parts.len() == 2 && match parse_u8(parts[1]) {
        Some(prefix) => prefix > 32 && parse_ipv4_spec(parts[0]) is Some,
        None => false,
    }
}

fn parse_ipv4_chars(s: &Vec<char>) -> (r: Option<[u8; 4]>)
    ensures
        match r {
            Some(o) => parse_ipv4_spec(s@) == Some(o@),
            None => parse_ipv4_spec(s@) is None,
        },
{
    let parts = split_on(s, '.');
    let ghost ps = split_char(s@, '.');
    let mut octets: Vec<u8> = Vec::new();
    let mut i: usize = 0;
    while i < parts.len()
        invariant
            i <= parts.len(),
            views(parts@) == ps,
            octets@ == parsed_octets(ps.take(i as int)),
        decreases parts.len() - i,
    {
        proof {
            assert(ps.take(i + 1).drop_last() =~= ps.take(i as int));
            assert(parts@[i as int]@ == ps[i as int]);
        }
        match parse_u8_chars(&parts[i]) {
            Some(b) => {
                octets.push(b);
            },
            None => {},
        }
        i += 1;
    }
    proof {
        assert(ps.take(parts.len() as int) =~= ps);
    }
    if octets.len() == 4 {
        let a = [octets[0], octets[1], octets[2], octets[3]];
        proof {
            assert(a@ =~= octets@);
        }
        Some(a)
    } else {
        None
    }
}

/// Parse a dotted IPv4 address.
pub fn parse_ipv4(s: &str) -> (r: Option<[u8; 4]>)
    ensures
        match r {
            Some(o) => parse_ipv4_spec(s@) == Some(o@),
            None => parse_ipv4_spec(s@) is None,
        },
{
    parse_ipv4_chars(&chars_of(s))
}

fn ipv4_bits(o: &[u8; 4]) -> (r: u32)
    ensures
        r == ipv4_value(o@),
{
    (o[0] as u32) * 16777216 + (o[1] as u32) * 65536 + (o[2] as u32) * 256 + (o[3] as u32)
}

fn masked_equal(a: u32, n: u32, prefix: u8) -> (r: bool)
    requires
        prefix <= 32,
    ensures
        r == same_prefix(a, n, prefix),
{
    let s: u32 = (32 - prefix) as u32;
    let mask: u32 = if prefix == 0 {
        0
    } else {
        0xffff_ffffu32 << s
    };
    let r = (a & mask) == (n & mask);
    proof {
        if prefix == 0 {
            assert((a & 0u32) == (n & 0u32)) by (bit_vector);
        } else {
            assert(s == ((32 - prefix) as u32));
            assert(s < 32);
            assert(((a & (0xffff_ffffu32 << s)) == (n & (0xffff_ffffu32 << s))) == ((a >> s) == (n
                >> s))) by (bit_vector)
                requires
                    s < 32,
            ;
        }
    }
    r
}

/// Whether `ip` lies in the network `cidr`.
pub fn ip_in_cidr(ip: &str, cidr: &str) -> (r: bool)
    requires
        !(parse_ipv4_spec(ip@) is Some && cidr_overlong(cidr@)),
    ensures
        r == ip_in_cidr_spec(ip@, cidr@),
{
    let parts = split_on(&chars_of(cidr), '/');
    if parts.len() != 2 {
        return false;
    }
    proof {
        assert(parts@[1]@ == split_char(cidr@, '/')[1]);
        assert(parts@[0]@ == split_char(cidr@, '/')[0]);
    }
    let prefix = match parse_u8_chars(&parts[1]) {
        Some(p) => p,
        None => {
            return false;
        },
    };
    let ip_octets = parse_ipv4(ip);
    let net_octets = parse_ipv4_chars(&parts[0]);
    match (ip_octets, net_octets) {
        (Some(a), Some(n)) => masked_equal(ipv4_bits(&a), ipv4_bits(&n), prefix),
        _ => false,
    }
}

/// Whether `cidr` is [`cidr_overlong`].
pub fn is_overlong_cidr(cidr: &str) -> (r: bool)
    ensures
        r == cidr_overlong(cidr@),
{
    let parts = split_on(&chars_of(cidr), '/');
    if parts.len() != 2 {
        return false;
    }
    proof {
        assert(parts@[1]@ == split_char(cidr@, '/')[1]);
        assert(parts@[0]@ == split_char(cidr@, '/')[0]);
    }
    match parse_u8_chars(&parts[1]) {
        Some(p) => p > 32 && parse_ipv4_chars(&parts[0]).is_some(),
        None => false,
    }
}

// ---------------------------------------------------------------------------
// The threat store
// ---------------------------------------------------------------------------

pub open spec fn keys_of(s: Seq<ThreatIndicator>) -> Seq<Seq<char>> {
    s.map_values(|x: ThreatIndicator| x.indicator@)
}

/// The indicators keyed by their indicator text.
pub open spec fn indicator_map(s: Seq<ThreatIndicator>) -> Map<Seq<char>, ThreatIndicator> {
    Map::new(
        |k: Seq<char>| exists|i: int| 0 <= i < s.len() && #[trigger] s[i].indicator@ == k,
        |k: Seq<char>| s[choose|i: int| 0 <= i < s.len() && #[trigger] s[i].indicator@ == k],
    )
}

/// The first network indicator (in insertion order) that contains `ip`.
pub open spec fn first_cidr_match(cidrs: Seq<ThreatIndicator>, ip: Seq<char>) -> Option<
    ThreatIndicator,
>
    decreases cidrs.len(),
{
    if cidrs.len() == 0 {
        None
    } else if ip_in_cidr_spec(ip, cidrs[0].indicator@) {
        Some(cidrs[0])
    } else {
        first_cidr_match(cidrs.drop_first(), ip)
    }
}

pub struct ThreatStoreView {
    /// Exact-match indicators (addresses, domains, URLs) by indicator text.
    pub ips: Map<Seq<char>, ThreatIndicator>,
    /// Network indicators, in insertion order.
    pub cidrs: Seq<ThreatIndicator>,
}

/// The indicator that a lookup of `ip` finds: an exact match first, else the
/// first network containing it.
pub open spec fn store_lookup(v: ThreatStoreView, ip: Seq<char>) -> Option<ThreatIndicator> {
    if v.ips.contains_key(ip) {
        Some(v.ips[ip])
    } else {
        first_cidr_match(v.cidrs, ip)
    }
}

/// Scanning the networks in order for `ip` meets no [`cidr_overlong`] network
/// before the first one that contains it.
pub open spec fn cidr_scan_safe(cidrs: Seq<ThreatIndicator>, ip: Seq<char>) -> bool
    decreases cidrs.len(),
{
    if cidrs.len() == 0 {
        true
    } else if parse_ipv4_spec(ip) is Some && cidr_overlong(cidrs[0].indicator@) {
        false
    } else if ip_in_cidr_spec(ip, cidrs[0].indicator@) {
        true
    } else {
        cidr_scan_safe(cidrs.drop_first(), ip)
    }
}

/// A lookup of `ip` cannot reach a network indicator whose mask cannot be computed.
pub open spec fn lookup_safe(v: ThreatStoreView, ip: Seq<char>) -> bool {
    v.ips.contains_key(ip) || cidr_scan_safe(v.cidrs, ip)
}

/// The contents of an empty store.
pub open spec fn empty_store() -> ThreatStoreView {
    ThreatStoreView { ips: Map::empty(), cidrs: Seq::empty() }
}

/// The store's contents after upserting `ind`.
pub open spec fn upsert_view(v: ThreatStoreView, ind: ThreatIndicator) -> ThreatStoreView {
    if ind.indicator_type == IndicatorType::Cidr {
        ThreatStoreView { ips: v.ips, cidrs: v.cidrs.push(ind) }
    } else {
        ThreatStoreView { ips: v.ips.insert(ind.indicator@, ind), cidrs: v.cidrs }
    }
}

/// The store's contents after upserting each of `inds` in order.
pub open spec fn upsert_all(v: ThreatStoreView, inds: Seq<ThreatIndicator>) -> ThreatStoreView
    decreases inds.len(),
{
    if inds.len() == 0 {
        v
    } else {
        upsert_view(upsert_all(v, inds.drop_last()), inds.last())
    }
}

/// A lookup of an address, domain or URL just upserted finds that indicator.
pub proof fn law_lookup_after_upsert(v: ThreatStoreView, ind: ThreatIndicator)
    requires
        ind.indicator_type != IndicatorType::Cidr,
    ensures
        store_lookup(upsert_view(v, ind), ind.indicator@) == Some(ind),
{
}

/// Upserting an exact-match indicator changes no lookup of any other text.
pub proof fn law_upsert_keeps_other_lookups(v: ThreatStoreView, ind: ThreatIndicator, ip: Seq<char>)
    requires
        ind.indicator_type != IndicatorType::Cidr,
        ip != ind.indicator@,
    ensures
        store_lookup(upsert_view(v, ind), ip) == store_lookup(v, ip),
{
}

proof fn lemma_first_cidr_match_push(cidrs: Seq<ThreatIndicator>, extra: ThreatIndicator, ip: Seq<char>)
    ensures
        first_cidr_match(cidrs, ip) is Some ==> first_cidr_match(cidrs.push(extra), ip)
            == first_cidr_match(cidrs, ip),
        first_cidr_match(cidrs, ip) is None ==> first_cidr_match(cidrs.push(extra), ip) == (if ip_in_cidr_spec(
            ip,
            extra.indicator@,
        ) {
            Some(extra)
        } else {
            None
        }),
    decreases cidrs.len(),
{
    if cidrs.len() > 0 {
        assert(cidrs.push(extra).drop_first() =~= cidrs.drop_first().push(extra));
        lemma_first_cidr_match_push(cidrs.drop_first(), extra, ip);
    } else {
        assert(cidrs.push(extra).drop_first() =~= Seq::<ThreatIndicator>::empty());
        assert(first_cidr_match(Seq::<ThreatIndicator>::empty(), ip) is None);
        assert(cidrs.push(extra)[0] == extra);
    }
}

proof fn lemma_first_cidr_match_sound(cidrs: Seq<ThreatIndicator>, ip: Seq<char>)
    ensures
        first_cidr_match(cidrs, ip) matches Some(ind) ==> cidrs.contains(ind) && ip_in_cidr_spec(
            ip,
            ind.indicator@,
        ),
    decreases cidrs.len(),
{
    if cidrs.len() > 0 && !ip_in_cidr_spec(ip, cidrs[0].indicator@) {
        lemma_first_cidr_match_sound(cidrs.drop_first(), ip);
        match first_cidr_match(cidrs.drop_first(), ip) {
            Some(ind) => {
                let j = choose|j: int| 0 <= j < cidrs.drop_first().len() && cidrs.drop_first()[j] == ind;
                assert(cidrs[j + 1] == ind);
            },
            None => {},
        }
    } else if cidrs.len() > 0 {
        assert(cidrs.contains(cidrs[0]));
    }
}

/// A lookup only reports what matches: an indicator stored under exactly that
/// text, or a stored network that contains the address.
pub proof fn law_lookup_is_sound(v: ThreatStoreView, ip: Seq<char>)
    ensures
        store_lookup(v, ip) matches Some(ind) ==> (v.ips.contains_key(ip) && v.ips[ip] == ind) || (
        v.cidrs.contains(ind) && ip_in_cidr_spec(ip, ind.indicator@)),
{
    lemma_first_cidr_match_sound(v.cidrs, ip);
}

/// Adding a network indicator never changes a lookup that already found
/// something: networks are searched in the order they were added.
pub proof fn law_cidr_upsert_keeps_found(v: ThreatStoreView, ind: ThreatIndicator, ip: Seq<char>)
    requires
        ind.indicator_type == IndicatorType::Cidr,
        store_lookup(v, ip) is Some,
    ensures
        store_lookup(upsert_view(v, ind), ip) == store_lookup(v, ip),
{
    lemma_first_cidr_match_push(v.cidrs, ind, ip);
}

/// After adding a network indicator, an address that found nothing before
/// finds that network exactly when it lies inside it.
pub proof fn law_cidr_upsert_finds_new(v: ThreatStoreView, ind: ThreatIndicator, ip: Seq<char>)
    requires
        ind.indicator_type == IndicatorType::Cidr,
        store_lookup(v, ip) is None,
    ensures
        store_lookup(upsert_view(v, ind), ip) == (if ip_in_cidr_spec(ip, ind.indicator@) {
            Some(ind)
        } else {
            None
        }),
{
    lemma_first_cidr_match_push(v.cidrs, ind, ip);
}

/// The last exact-match (non-network) indicator among `inds` whose text is `ip`.
pub open spec fn last_exact_match(inds: Seq<ThreatIndicator>, ip: Seq<char>) -> Option<
    ThreatIndicator,
>
    decreases inds.len(),
{
    if inds.len() == 0 {
        None
    } else if inds.last().indicator_type != IndicatorType::Cidr && inds.last().indicator@ == ip {
        Some(inds.last())
    } else {
        last_exact_match(inds.drop_last(), ip)
    }
}

/// The network indicators among `inds`, in their order.
pub open spec fn network_indicators(inds: Seq<ThreatIndicator>) -> Seq<ThreatIndicator>
    decreases inds.len(),
{
    if inds.len() == 0 {
        Seq::empty()
    } else if inds.last().indicator_type == IndicatorType::Cidr {
        network_indicators(inds.drop_last()).push(inds.last())
    } else {
        network_indicators(inds.drop_last())
    }
}

proof fn lemma_upsert_all_parts(inds: Seq<ThreatIndicator>, ip: Seq<char>)
    ensures
        upsert_all(empty_store(), inds).cidrs == network_indicators(inds),
        upsert_all(empty_store(), inds).ips.contains_key(ip) <==> last_exact_match(inds, ip) is Some,
        last_exact_match(inds, ip) matches Some(ind) ==> upsert_all(empty_store(), inds).ips[ip]
            == ind,
    decreases inds.len(),
{
    if inds.len() > 0 {
        lemma_upsert_all_parts(inds.drop_last(), ip);
    }
}

/// What a lookup finds in a store built by upserting `inds` in order into an
/// empty store: the last address, domain or URL indicator whose text is `ip`;
/// failing that, the first network indicator (in upsert order) that contains
/// `ip`; failing that, nothing. Exact matches take priority over networks.
pub proof fn law_lookup_after_upserts(inds: Seq<ThreatIndicator>, ip: Seq<char>)
    ensures
        store_lookup(upsert_all(empty_store(), inds), ip) == match last_exact_match(inds, ip) {
            Some(ind) => Some(ind),
            None => first_cidr_match(network_indicators(inds), ip),
        },
{
    lemma_upsert_all_parts(inds, ip);
}

/// In-memory threat intelligence store.
#[derive(Debug)]
pub struct ThreatStore {
    ips: Vec<ThreatIndicator>,
    cidrs: Vec<ThreatIndicator>,
}

impl View for ThreatStore {
    type V = ThreatStoreView;

    closed spec fn view(&self) -> ThreatStoreView {
        ThreatStoreView { ips: indicator_map(self.ips@), cidrs: self.cidrs@ }
    }
}

proof fn lemma_map_update(s: Seq<ThreatIndicator>, j: int, ind: ThreatIndicator)
    requires
        keys_of(s).no_duplicates(),
        0 <= j < s.len(),
        s[j].indicator@ == ind.indicator@,
    ensures
        indicator_map(s.update(j, ind)) =~= indicator_map(s).insert(ind.indicator@, ind),
        keys_of(s.update(j, ind)).no_duplicates(),
{
    let t = s.update(j, ind);
    assert(keys_of(t) =~= keys_of(s));
    assert forall|k: Seq<char>| #[trigger] indicator_map(t).contains_key(k) implies indicator_map(
        s,
    ).insert(ind.indicator@, ind).contains_key(k) by {
        let i = choose|i: int| 0 <= i < t.len() && #[trigger] t[i].indicator@ == k;
        if i != j {
            assert(s[i].indicator@ == k);
        }
    }
    assert forall|k: Seq<char>|
        #[trigger] indicator_map(s).insert(ind.indicator@, ind).contains_key(k) implies indicator_map(
        t,
    ).contains_key(k) by {
        if k == ind.indicator@ {
            assert(t[j].indicator@ == k);
        } else {
            let i = choose|i: int| 0 <= i < s.len() && #[trigger] s[i].indicator@ == k;
            assert(t[i].indicator@ == k);
        }
    }
    assert forall|k: Seq<char>| #[trigger] indicator_map(t).contains_key(k) implies indicator_map(
        t,
    )[k] == indicator_map(s).insert(ind.indicator@, ind)[k] by {
        let i = choose|i: int| 0 <= i < t.len() && #[trigger] t[i].indicator@ == k;
        if k == ind.indicator@ {
            assert(keys_of(t)[i] == keys_of(t)[j]);
        } else {
            assert(i != j);
            let i2 = choose|i2: int| 0 <= i2 < s.len() && #[trigger] s[i2].indicator@ == k;
            assert(keys_of(s)[i] == keys_of(s)[i2]);
        }
    }
}

proof fn lemma_map_push(s: Seq<ThreatIndicator>, ind: ThreatIndicator)
    requires
        keys_of(s).no_duplicates(),
        forall|i: int| 0 <= i < s.len() ==> #[trigger] s[i].indicator@ != ind.indicator@,
    ensures
        indicator_map(s.push(ind)) =~= indicator_map(s).insert(ind.indicator@, ind),
        keys_of(s.push(ind)).no_duplicates(),
{
    let t = s.push(ind);
    let n = s.len() as int;
    assert(keys_of(t) =~= keys_of(s).push(ind.indicator@));
    assert forall|k: Seq<char>| #[trigger] indicator_map(t).contains_key(k) implies indicator_map(
        s,
    ).insert(ind.indicator@, ind).contains_key(k) by {
        let i = choose|i: int| 0 <= i < t.len() && #[trigger] t[i].indicator@ == k;
        if i != n {
            assert(s[i].indicator@ == k);
        }
    }
    assert forall|k: Seq<char>|
        #[trigger] indicator_map(s).insert(ind.indicator@, ind).contains_key(k) implies indicator_map(
        t,
    ).contains_key(k) by {
        if k == ind.indicator@ {
            assert(t[n].indicator@ == k);
        } else {
            let i = choose|i: int| 0 <= i < s.len() && #[trigger] s[i].indicator@ == k;
            assert(t[i].indicator@ == k);
        }
    }
    assert forall|k: Seq<char>| #[trigger] indicator_map(t).contains_key(k) implies indicator_map(
        t,
    )[k] == indicator_map(s).insert(ind.indicator@, ind)[k] by {
        let i = choose|i: int| 0 <= i < t.len() && #[trigger] t[i].indicator@ == k;
        if k == ind.indicator@ {
            if i != n {
                assert(s[i].indicator@ == ind.indicator@);
            }
        } else {
            assert(i != n);
            let i2 = choose|i2: int| 0 <= i2 < s.len() && #[trigger] s[i2].indicator@ == k;
            assert(keys_of(s)[i] == keys_of(s)[i2]);
        }
    }
}

proof fn lemma_map_len(s: Seq<ThreatIndicator>)
    requires
        keys_of(s).no_duplicates(),
    ensures
        indicator_map(s).dom().len() == s.len(),
{
    assert(indicator_map(s).dom() =~= keys_of(s).to_set()) by {
        assert forall|k: Seq<char>| #[trigger] indicator_map(s).dom().contains(k) implies keys_of(
            s,
        ).to_set().contains(k) by {
            let i = choose|i: int| 0 <= i < s.len() && #[trigger] s[i].indicator@ == k;
            assert(keys_of(s)[i] == k);
        }
        assert forall|k: Seq<char>| #[trigger] keys_of(s).to_set().contains(k) implies indicator_map(
            s,
        ).dom().contains(k) by {
            let i = choose|i: int| 0 <= i < keys_of(s).len() && keys_of(s)[i] == k;
            assert(s[i].indicator@ == k);
        }
    }
    keys_of(s).unique_seq_to_set();
}

impl ThreatStore {
    /// No two exact-match indicators share an indicator text, and the entry
    /// count fits in a `usize`.
    pub closed spec fn wf(&self) -> bool {
        &&& keys_of(self.ips@).no_duplicates()
        &&& self.ips.len() + self.cidrs.len() <= usize::MAX
    }

    pub fn new() -> (r: ThreatStore)
        ensures
            r.wf(),
            r@.ips == Map::<Seq<char>, ThreatIndicator>::empty(),
            r@.cidrs == Seq::<ThreatIndicator>::empty(),
    {
        let r = ThreatStore { ips: Vec::new(), cidrs: Vec::new() };
        proof {
            assert(indicator_map(r.ips@) =~= Map::<Seq<char>, ThreatIndicator>::empty());
        }
        r
    }

    /// Add an indicator: networks are appended; any other kind replaces the
    /// entry with the same indicator text.
    pub fn upsert(&mut self, indicator: ThreatIndicator)
        requires
            old(self).wf(),
            old(self)@.ips.dom().len() + old(self)@.cidrs.len() < usize::MAX,
        ensures
            final(self).wf(),
            indicator.indicator_type == IndicatorType::Cidr ==> final(self)@.ips == old(self)@.ips
                && final(self)@.cidrs == old(self)@.cidrs.push(indicator),
            indicator.indicator_type != IndicatorType::Cidr ==> final(self)@.ips == old(
                self,
            )@.ips.insert(indicator.indicator@, indicator) && final(self)@.cidrs == old(
                self,
            )@.cidrs,
            final(self)@.ips.dom().len() + final(self)@.cidrs.len() <= old(self)@.ips.dom().len()
                + old(self)@.cidrs.len() + 1,
    {
        proof {
            lemma_map_len(self.ips@);
        }
        match indicator.indicator_type {
            IndicatorType::Cidr => {
                self.cidrs.push(indicator);
            },
            _ => {
                let n = self.ips.len();
                let mut j: usize = 0;
                while j < n && !(self.ips[j].indicator == indicator.indicator)
                    invariant
                        j <= n,
                        n == self.ips.len(),
                        forall|k: int| 0 <= k < j ==> #[trigger] self.ips@[k].indicator@
                            != indicator.indicator@,
                    decreases n - j,
                {
                    j += 1;
                }
                let ghost before = self.ips@;
                if j < n {
                    proof {
                        lemma_map_update(before, j as int, indicator);
                    }
                    self.ips.set(j, indicator);
                } else {
                    proof {
                        lemma_map_push(before, indicator);
                    }
                    self.ips.push(indicator);
                }
            },
        }
        proof {
            lemma_map_len(self.ips@);
        }
    }

    /// The exact-match indicator for `ip`, else the first network indicator containing it.
    pub fn lookup_ip(&self, ip: &str) -> (r: Option<&ThreatIndicator>)
        requires
            self.wf(),
            lookup_safe(self@, ip@),
        ensures
            match r {
                Some(ind) => store_lookup(self@, ip@) == Some(*ind),
                None => store_lookup(self@, ip@) is None,
            },
    {
        let mut i: usize = 0;
        while i < self.ips.len()
            invariant
                i <= self.ips.len(),
                self.wf(),
                forall|k: int| 0 <= k < i ==> #[trigger] self.ips@[k].indicator@ != ip@,
            decreases self.ips.len() - i,
        {
            if crate::text::str_eq(self.ips[i].indicator.as_str(), ip) {
                proof {
                    assert(self.ips@[i as int].indicator@ == ip@);
                    assert(indicator_map(self.ips@).contains_key(ip@));
                    let k = choose|k: int|
                        0 <= k < self.ips@.len() && #[trigger] self.ips@[k].indicator@ == ip@;
                    assert(keys_of(self.ips@)[k] == keys_of(self.ips@)[i as int]);
                }
                return Some(&self.ips[i]);
            }
            i += 1;
        }
        let mut c: usize = 0;
        proof {
            assert(self.cidrs@.skip(0) =~= self.cidrs@);
            assert(!indicator_map(self.ips@).contains_key(ip@));
        }
        while c < self.cidrs.len()
            invariant
                c <= self.cidrs.len(),
                forall|k: int| 0 <= k < self.ips.len() ==> #[trigger] self.ips@[k].indicator@ != ip@,
                cidr_scan_safe(self.cidrs@.skip(c as int), ip@),
                self@.cidrs == self.cidrs@,
                first_cidr_match(self.cidrs@, ip@) == first_cidr_match(
                    self.cidrs@.skip(c as int),
                    ip@,
                ),
            decreases self.cidrs.len() - c,
        {
            proof {
                assert(self.cidrs@.skip(c as int).drop_first() =~= self.cidrs@.skip(c + 1));
                assert(self.cidrs@.skip(c as int)[0] == self.cidrs@[c as int]);
            }
            if ip_in_cidr(ip, self.cidrs[c].indicator.as_str()) {
                proof {
                    assert(!indicator_map(self.ips@).contains_key(ip@));
                    assert(first_cidr_match(self.cidrs@, ip@) == Some(self.cidrs@[c as int]));
                }
                return Some(&self.cidrs[c]);
            }
            c += 1;
        }
        None
    }

    /// A store holding `indicators`, upserted in order.
    pub fn from_indicators(indicators: Vec<ThreatIndicator>) -> (r: ThreatStore)
        requires
            indicators.len() < usize::MAX,
        ensures
            r.wf(),
            r@ == upsert_all(empty_store(), indicators@),
    {
        let mut store = ThreatStore::new();
        let ghost empty = store@;
        let ghost input = indicators@;
        proof {
            assert(input.take(0) =~= Seq::<ThreatIndicator>::empty());
        }
        for ind in it: indicators.into_iter()
            invariant
                it.seq() == input,
                input.len() < usize::MAX,
                store.wf(),
                store@.ips.dom().len() + store@.cidrs.len() <= it.index(),
                store@ == upsert_all(empty, input.take(it.index() as int)),
        {
            let ghost i = it.index();
            proof {
                assert(input.take(i + 1).drop_last() =~= input.take(i));
                assert(input.take(i + 1).last() == ind);
            }
            store.upsert(ind);
        }
        proof {
            assert(input.take(input.len() as int) =~= input);
        }
        store
    }

    /// The store that a feed refresh installs: `None` when the feeds gave no
    /// indicator at all, so that the store in use stays and the next cycle
    /// tries again; else the store of the fetched indicators.
    pub fn refreshed(indicators: Vec<ThreatIndicator>) -> (r: Option<ThreatStore>)
        requires
            indicators.len() < usize::MAX,
        ensures
            r is None <==> indicators.len() == 0,
            r matches Some(s) ==> s.wf() && s@ == upsert_all(empty_store(), indicators@),
    {
        if indicators.len() == 0 {
            None
        } else {
            Some(ThreatStore::from_indicators(indicators))
        }
    }

    /// Whether a lookup of `ip` can be made without reaching a network
    /// indicator whose mask cannot be computed ([`lookup_safe`]).
    pub fn lookup_is_safe(&self, ip: &str) -> (r: bool)
        requires
            self.wf(),
        ensures
            r == lookup_safe(self@, ip@),
    {
        let mut i: usize = 0;
        while i < self.ips.len()
            invariant
                i <= self.ips.len(),
                forall|k: int| 0 <= k < i ==> #[trigger] self.ips@[k].indicator@ != ip@,
            decreases self.ips.len() - i,
        {
            if crate::text::str_eq(self.ips[i].indicator.as_str(), ip) {
                proof {
                    assert(indicator_map(self.ips@).contains_key(ip@));
                }
                return true;
            }
            i += 1;
        }
        proof {
            if indicator_map(self.ips@).contains_key(ip@) {
                let k = choose|k: int| 0 <= k < self.ips@.len() && #[trigger] self.ips@[k].indicator@ == ip@;
                assert(self.ips@[k].indicator@ == ip@);
            }
            assert(self.cidrs@.skip(0) =~= self.cidrs@);
        }
        let parses = parse_ipv4(ip).is_some();
        let mut c: usize = 0;
        while c < self.cidrs.len()
            invariant
                c <= self.cidrs.len(),
                !indicator_map(self.ips@).contains_key(ip@),
                parses == (parse_ipv4_spec(ip@) is Some),
                self@.cidrs == self.cidrs@,
                cidr_scan_safe(self.cidrs@, ip@) == cidr_scan_safe(self.cidrs@.skip(c as int), ip@),
            decreases self.cidrs.len() - c,
        {
            proof {
                assert(self.cidrs@.skip(c as int).drop_first() =~= self.cidrs@.skip(c + 1));
                assert(self.cidrs@.skip(c as int)[0] == self.cidrs@[c as int]);
            }
            let cidr = self.cidrs[c].indicator.as_str();
            if parses && is_overlong_cidr(cidr) {
                return false;
            }
            if ip_in_cidr(ip, cidr) {
                return true;
            }
            c += 1;
        }
        true
    }

    /// Number of stored indicators.
    pub fn len(&self) -> (r: usize)
        requires
            self.wf(),
        ensures
            r == self@.ips.dom().len() + self@.cidrs.len(),
    {
        proof {
            lemma_map_len(self.ips@);
        }
        self.ips.len() + self.cidrs.len()
    }

    pub fn is_empty(&self) -> (r: bool)
        requires
            self.wf(),
        ensures
            r == (self@.ips.dom().len() + self@.cidrs.len() == 0),
    {
        self.len() == 0
    }

    /// Whether some network indicator is [`cidr_overlong`].
    pub fn has_overlong_cidr(&self) -> (r: bool)
        ensures
            r == exists|i: int|
                0 <= i < self@.cidrs.len() && cidr_overlong(#[trigger] self@.cidrs[i].indicator@),
    {
        let mut i: usize = 0;
        while i < self.cidrs.len()
            invariant
                i <= self.cidrs.len(),
                self@.cidrs == self.cidrs@,
                forall|k: int| 0 <= k < i ==> !cidr_overlong(#[trigger] self.cidrs@[k].indicator@),
            decreases self.cidrs.len() - i,
        {
            if is_overlong_cidr(self.cidrs[i].indicator.as_str()) {
                return true;
            }
            i += 1;
        }
        false
    }
}

// ---------------------------------------------------------------------------
// Emerging Threats feeds
// ---------------------------------------------------------------------------

pub open spec fn indicator_type_for(ip: Seq<char>) -> IndicatorType {
    if ip.contains('/') {
        IndicatorType::Cidr
    } else {
        IndicatorType::Ip
    }
}

/// A trimmed feed line that carries no entry: empty or a `#` comment.
pub open spec fn is_skipped_line(t: Seq<char>) -> bool {
    t.len() == 0 || t[0] == '#'
}

/// The address on each entry line of compromised-ips.txt: its first word.
pub open spec fn compromised_entries(ls: Seq<Seq<char>>) -> Seq<Seq<char>>
    decreases ls.len(),
{
    if ls.len() == 0 {
        Seq::empty()
    } else {
        let rest = compromised_entries(ls.drop_last());
        let t = trim_ws(ls.last());
        if is_skipped_line(t) || words(t).len() == 0 {
            rest
        } else {
            rest.push(words(t)[0])
        }
    }
}

pub open spec fn is_compromised_indicator(ind: ThreatIndicator, ip: Seq<char>) -> bool {
    &&& ind.indicator@ == ip
    &&& ind.indicator_type == indicator_type_for(ip)
    &&& string_views(ind.categories@) == seq!["compromised"@]
    &&& ind.severity == ThreatSeverity::High
    &&& ind.description@ == "Emerging Threats compromised host"@
    &&& ind.feed@ == "emerging_threats_compromised"@
    &&& ind.rule_id is None
}

/// The rule id of a Snort rule: the text after the first `sid:` up to the
/// next `;` (or the next `sid:`), trimmed.
pub open spec fn sid_of(line: Seq<char>) -> Option<Seq<char>> {
    match find_seq(line, "sid:"@) {
        Some(i) => {
            let after = line.skip(i + "sid:"@.len());
            let piece = match find_seq(after, "sid:"@) {
                Some(j) => after.take(j),
                None => after,
            };
            Some(trim_ws(split_char(piece, ';')[0]))
        },
        None => None,
    }
}

/// A rule word that names an address: it starts with a digit and contains
/// a `.`, and still contains a `.` once brackets and separators are trimmed.
pub open spec fn rule_token_ip(token: Seq<char>) -> Option<Seq<char>> {
    if token.contains('.') && token.len() > 0 && is_ascii_digit(token[0]) {
        let c = trim(token, CharClass::RuleDelimiter);
        if c.contains('.') {
            Some(c)
        } else {
            None
        }
    } else {
        None
    }
}

pub open spec fn rule_ips_of(ws: Seq<Seq<char>>) -> Seq<Seq<char>>
    decreases ws.len(),
{
    if ws.len() == 0 {
        Seq::empty()
    } else {
        let rest = rule_ips_of(ws.drop_last());
        match rule_token_ip(ws.last()) {
            Some(ip) => rest.push(ip),
            None => rest,
        }
    }
}

/// The addresses named in a Snort rule, in order.
pub open spec fn rule_ips(line: Seq<char>) -> Seq<Seq<char>> {
    rule_ips_of(words(line))
}

/// (address, rule id) for every address of every rule line of a botcc rules file.
pub open spec fn botcc_entries(ls: Seq<Seq<char>>) -> Seq<(Seq<char>, Option<Seq<char>>)>
    decreases ls.len(),
{
    if ls.len() == 0 {
        Seq::empty()
    } else {
        let rest = botcc_entries(ls.drop_last());
        let t = trim_ws(ls.last());
        if is_skipped_line(t) {
            rest
        } else {
            rest + rule_ips(t).map_values(|ip: Seq<char>| (ip, sid_of(t)))
        }
    }
}

pub open spec fn is_botcc_indicator(
    ind: ThreatIndicator,
    ip: Seq<char>,
    sid: Option<Seq<char>>,
) -> bool {
    &&& ind.indicator@ == ip
    &&& ind.indicator_type == indicator_type_for(ip)
    &&& string_views(ind.categories@) == seq!["botnet"@, "c2"@]
    &&& ind.severity == ThreatSeverity::Critical
    &&& ind.description@ == "Emerging Threats botnet C2"@
    &&& ind.feed@ == "emerging_threats_botcc"@
    &&& crate::text::opt_view(ind.rule_id) == sid
}

fn compromised_indicator(ip: &Vec<char>) -> (r: ThreatIndicator)
    ensures
        is_compromised_indicator(r, ip@),
{
    let indicator_type = if contains_char(ip, '/') {
        IndicatorType::Cidr
    } else {
        IndicatorType::Ip
    };
    let mut categories: Vec<String> = Vec::new();
    categories.push("compromised".to_owned());
    proof {
        assert(string_views(categories@) =~= seq!["compromised"@]);
    }
    ThreatIndicator {
        indicator: string_from_chars(ip),
        indicator_type,
        categories,
        severity: ThreatSeverity::High,
        description: "Emerging Threats compromised host".to_owned(),
        feed: "emerging_threats_compromised".to_owned(),
        rule_id: None,
    }
}

fn botcc_indicator(ip: &Vec<char>, sid: &Option<String>) -> (r: ThreatIndicator)
    ensures
        is_botcc_indicator(r, ip@, crate::text::opt_view(*sid)),
{
    let indicator_type = if contains_char(ip, '/') {
        IndicatorType::Cidr
    } else {
        IndicatorType::Ip
    };
    let mut categories: Vec<String> = Vec::new();
    categories.push("botnet".to_owned());
    categories.push("c2".to_owned());
    proof {
        assert(string_views(categories@) =~= seq!["botnet"@, "c2"@]);
    }
    let rule_id = match sid {
        Some(s) => Some(s.clone()),
        None => None,
    };
    ThreatIndicator {
        indicator: string_from_chars(ip),
        indicator_type,
        categories,
        severity: ThreatSeverity::Critical,
        description: "Emerging Threats botnet C2".to_owned(),
        feed: "emerging_threats_botcc".to_owned(),
        rule_id,
    }
}

fn is_skipped_chars(t: &Vec<char>) -> (r: bool)
    ensures
        r == is_skipped_line(t@),
{
    t.len() == 0 || t[0] == '#'
}

/// Parse Emerging Threats compromised-ips.txt format.
pub fn parse_et_compromised_ips(content: &str) -> (r: Vec<ThreatIndicator>)
    ensures
        r.len() == compromised_entries(lines(content@)).len(),
        forall|i: int|
            0 <= i < r.len() ==> is_compromised_indicator(
                #[trigger] r@[i],
                compromised_entries(lines(content@))[i],
            ),
{
    let ls = lines_of(&chars_of(content));
    let ghost lv = lines(content@);
    let mut out: Vec<ThreatIndicator> = Vec::new();
    let mut i: usize = 0;
    while i < ls.len()
        invariant
            i <= ls.len(),
            views(ls@) == lv,
            out.len() == compromised_entries(lv.take(i as int)).len(),
            forall|k: int|
                0 <= k < out.len() ==> is_compromised_indicator(
                    #[trigger] out@[k],
                    compromised_entries(lv.take(i as int))[k],
                ),
        decreases ls.len() - i,
    {
        proof {
            assert(lv.take(i + 1).drop_last() =~= lv.take(i as int));
            assert(lv.take(i + 1).last() == ls@[i as int]@);
        }
        let t = trim_ws_chars(&ls[i]);
        if !is_skipped_chars(&t) {
            let ws = words_of(&t);
            if ws.len() > 0 {
                proof {
                    assert(ws@[0]@ == words(t@)[0]);
                }
                out.push(compromised_indicator(&ws[0]));
            }
        }
        i += 1;
    }
    proof {
        assert(lv.take(ls.len() as int) =~= lv);
    }
    out
}

/// The rule id of a Snort rule line (see [`sid_of`]).
pub fn extract_sid(line: &str) -> (r: Option<String>)
    ensures
        crate::text::opt_view(r) == sid_of(line@),
{
    let l = chars_of(line);
    let pat = chars_of("sid:");
    match find_chars(&l, &pat) {
        Some(i) => {
            let after = copy_range(&l, i + pat.len(), l.len());
            proof {
                assert(after@ =~= line@.skip(i + "sid:"@.len()));
            }
            let piece = match find_chars(&after, &pat) {
                Some(j) => {
                    let p = copy_range(&after, 0, j);
                    proof {
                        assert(p@ =~= after@.take(j as int));
                    }
                    p
                },
                None => after,
            };
            let parts = split_on(&piece, ';');
            proof {
                crate::text::lemma_split_char_len(piece@, ';');
                assert(parts@[0]@ == split_char(piece@, ';')[0]);
            }
            Some(string_from_chars(&trim_ws_chars(&parts[0])))
        },
        None => None,
    }
}

fn rule_token_ip_chars(token: &Vec<char>) -> (r: Option<Vec<char>>)
    ensures
        match r {
            Some(c) => rule_token_ip(token@) == Some(c@),
            None => rule_token_ip(token@) is None,
        },
{
    if contains_char(token, '.') && token.len() > 0 && crate::text::char_is_ascii_digit(token[0]) {
        let c = trim_class(token, &CharClass::RuleDelimiter);
        if contains_char(&c, '.') {
            Some(c)
        } else {
            None
        }
    } else {
        None
    }
}

fn rule_ips_chars(line: &Vec<char>) -> (r: Vec<Vec<char>>)
    ensures
        views(r@) == rule_ips(line@),
{
    let ws = words_of(line);
    let ghost wv = words(line@);
    let mut out: Vec<Vec<char>> = Vec::new();
    let mut i: usize = 0;
    proof {
        assert(views(out@) =~= rule_ips_of(wv.take(0)));
    }
    while i < ws.len()
        invariant
            i <= ws.len(),
            views(ws@) == wv,
            views(out@) == rule_ips_of(wv.take(i as int)),
        decreases ws.len() - i,
    {
        proof {
            assert(wv.take(i + 1).drop_last() =~= wv.take(i as int));
            assert(wv.take(i + 1).last() == ws@[i as int]@);
        }
        let ghost before = out@;
        match rule_token_ip_chars(&ws[i]) {
            Some(c) => {
                out.push(c);
                proof {
                    assert(views(out@) =~= views(before).push(out@.last()@));
                }
            },
            None => {},
        }
        i += 1;
    }
    proof {
        assert(wv.take(ws.len() as int) =~= wv);
    }
    out
}

/// The addresses named in a Snort rule line (see [`rule_ips`]).
pub fn extract_ips_from_rule(line: &str) -> (r: Vec<String>)
    ensures
        string_views(r@) == rule_ips(line@),
{
    let ips = rule_ips_chars(&chars_of(line));
    let mut out: Vec<String> = Vec::new();
    let mut i: usize = 0;
    while i < ips.len()
        invariant
            i <= ips.len(),
            string_views(out@) == views(ips@).take(i as int),
        decreases ips.len() - i,
    {
        let ghost before = out@;
        let item = string_from_chars(&ips[i]);
        out.push(item);
        proof {
            assert(string_views(out@) =~= string_views(before).push(ips@[i as int]@));
            assert(views(ips@).take(i + 1) =~= views(ips@).take(i as int).push(ips@[i as int]@));
        }
        i += 1;
    }
    proof {
        assert(views(ips@).take(ips.len() as int) =~= views(ips@));
    }
    out
}

/// Parse Snort/Suricata rules from ET botcc.rules for IP extraction.
pub fn parse_et_botcc_rules(content: &str) -> (r: Vec<ThreatIndicator>)
    ensures
        r.len() == botcc_entries(lines(content@)).len(),
        forall|i: int|
            0 <= i < r.len() ==> is_botcc_indicator(
                #[trigger] r@[i],
                botcc_entries(lines(content@))[i].0,
                botcc_entries(lines(content@))[i].1,
            ),
{
    let ls = lines_of(&chars_of(content));
    let ghost lv = lines(content@);
    let mut out: Vec<ThreatIndicator> = Vec::new();
    let mut i: usize = 0;
    while i < ls.len()
        invariant
            i <= ls.len(),
            views(ls@) == lv,
            out.len() == botcc_entries(lv.take(i as int)).len(),
            forall|k: int|
                0 <= k < out.len() ==> is_botcc_indicator(
                    #[trigger] out@[k],
                    botcc_entries(lv.take(i as int))[k].0,
                    botcc_entries(lv.take(i as int))[k].1,
                ),
        decreases ls.len() - i,
    {
        proof {
            assert(lv.take(i + 1).drop_last() =~= lv.take(i as int));
            assert(lv.take(i + 1).last() == ls@[i as int]@);
        }
        let t = trim_ws_chars(&ls[i]);
        if !is_skipped_chars(&t) {
            let ts = string_from_chars(&t);
            let sid = extract_sid(ts.as_str());
            let ips = rule_ips_chars(&t);
            let ghost base = botcc_entries(lv.take(i as int));
            let ghost added = rule_ips(t@).map_values(|ip: Seq<char>| (ip, sid_of(t@)));
            let mut j: usize = 0;
            while j < ips.len()
                invariant
                    j <= ips.len(),
                    views(ips@) == rule_ips(t@),
                    crate::text::opt_view(sid) == sid_of(t@),
                    added == rule_ips(t@).map_values(|ip: Seq<char>| (ip, sid_of(t@))),
                    out.len() == base.len() + j,
                    forall|k: int|
                        0 <= k < base.len() ==> is_botcc_indicator(
                            #[trigger] out@[k],
                            base[k].0,
                            base[k].1,
                        ),
                    forall|k: int|
                        0 <= k < j ==> is_botcc_indicator(
                            #[trigger] out@[base.len() + k],
                            added[k].0,
                            added[k].1,
                        ),
                decreases ips.len() - j,
            {
                out.push(botcc_indicator(&ips[j], &sid));
                proof {
                    assert(ips@[j as int]@ == added[j as int].0);
                }
                j += 1;
            }
            proof {
                let total = base + added;
                assert forall|k: int| 0 <= k < out.len() implies is_botcc_indicator(
                    #[trigger] out@[k],
                    total[k].0,
                    total[k].1,
                ) by {
                    if k >= base.len() {
                        assert(out@[base.len() + (k - base.len())] == out@[k]);
                    }
                }
            }
        }
        i += 1;
    }
    proof {
        assert(lv.take(ls.len() as int) =~= lv);
    }
    out
}

} // verus!
