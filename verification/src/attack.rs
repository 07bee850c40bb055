//! MITRE ATT&CK enrichment extracted from BZAR Zeek notices.
use vstd::prelude::*;
use vstd::utf8::{
    encode_utf8, encode_utf8_valid_utf8, is_ascii_chars, is_ascii_chars_encode_utf8,
    is_char_boundary, is_char_boundary_iff_not_is_continuation_byte,
    is_char_boundary_start_end_of_seq, valid_utf8,
};

use crate::event::{field_lookup, RawEvent, ZeekLogType};
use crate::text::{
    ascii_upper, chars_of, copy_range, in_class, opt_view, starts_with, starts_with_chars,
    string_from_chars, trim_end, trim_start, trim_ws, trim_ws_chars, CharClass,
};

verus! {

broadcast use vstd::string::group_string_axioms;

/// MITRE ATT&CK enrichment extracted from BZAR Zeek notices.
#[derive(Debug, Clone, PartialEq, Eq)]
pub struct AttackEnrichment {
    pub matched: bool,
    pub tactic: String,
    pub tactic_id: Option<String>,
    pub technique_id: Option<String>,
    pub technique: String,
    pub notice_type: String,
    pub description: String,
    pub source: String,
}

pub struct AttackView {
    pub matched: bool,
    pub tactic: Seq<char>,
    pub tactic_id: Option<Seq<char>>,
    pub technique_id: Option<Seq<char>>,
    pub technique: Seq<char>,
    pub notice_type: Seq<char>,
    pub description: Seq<char>,
    pub source: Seq<char>,
}

impl View for AttackEnrichment {
    type V = AttackView;

    open spec fn view(&self) -> AttackView {
        AttackView {
            matched: self.matched,
            tactic: self.tactic@,
            tactic_id: opt_view(self.tactic_id),
            technique_id: opt_view(self.technique_id),
            technique: self.technique@,
            notice_type: self.notice_type@,
            description: self.description@,
            source: self.source@,
        }
    }
}

/// Unicode upper-casing of a string, as std's `str::to_uppercase` computes it.
pub uninterp spec fn unicode_uppercase(s: Seq<char>) -> Seq<char>;

/// Calls std's `str::to_uppercase`. The contract names its result and states
/// one fact of it: on ASCII text, where the Unicode mapping agrees with the
/// ASCII one, each letter `a`..`z` becomes `A`..`Z` and every other character
/// stays. What it gives on other text is left unsaid.
#[verifier::external_body]
fn to_uppercase(s: &str) -> (r: String)
    ensures
        r@ == unicode_uppercase(s@),
        is_ascii_chars(s@) ==> r@ == s@.map_values(|c: char| ascii_upper(c)),
{
    s.to_uppercase()
}

pub open spec fn is_digit_byte(b: u8) -> bool {
    48 <= b && b <= 57
}

pub open spec fn digit_bytes(b: Seq<u8>, from: int, to: int) -> bool {
    forall|k: int| from <= k < to ==> is_digit_byte(#[trigger] b[k])
}

/// Outcome of the scan for a technique id over the bytes of an upper-cased text.
pub enum TechniqueScan {
    Found(nat),
    NotFound,
    /// The scan would slice the text inside a multi-byte character.
    Unsliceable,
}

/// Scan from byte `i` for `T` followed by four digits: the scan stops at the
/// first `T` with fewer than four bytes after it; slicing four (or, after a
/// `.`, three more) bytes must fall on character boundaries.
pub open spec fn technique_scan(b: Seq<u8>, i: nat) -> TechniqueScan
    decreases b.len() - i,
{
    if i >= b.len() {
        TechniqueScan::NotFound
    } else if b[i as int] == 84u8 {
        if i + 5 > b.len() {
            TechniqueScan::NotFound
        } else if !is_char_boundary(b, i + 5int) {
            TechniqueScan::Unsliceable
        } else if digit_bytes(b, i + 1int, i + 5int) {
            if i + 9 <= b.len() && b[i + 5int] == 46u8 && !is_char_boundary(b, i + 9int) {
                TechniqueScan::Unsliceable
            } else {
                TechniqueScan::Found(i)
            }
        } else {
            technique_scan(b, i + 1)
        }
    } else {
        technique_scan(b, i + 1)
    }
}

pub open spec fn bytes_as_chars(b: Seq<u8>) -> Seq<char> {
    b.map_values(|x: u8| x as char)
}

/// The id found at byte `i`: `T` and four digits, and `.` and three digits
/// when they follow.
pub open spec fn technique_id_at(b: Seq<u8>, i: int) -> Seq<char> {
    let major = seq!['T'] + bytes_as_chars(b.subrange(i + 1, i + 5));
    if i + 9 <= b.len() && b[i + 5] == 46u8 && digit_bytes(b, i + 6, i + 9) {
        major + seq!['.'] + bytes_as_chars(b.subrange(i + 6, i + 9))
    } else {
        major
    }
}

pub open spec fn uppercase_scan(text: Seq<char>) -> TechniqueScan {
    technique_scan(encode_utf8(unicode_uppercase(text)), 0)
}

/// The ATT&CK technique id mentioned in `text`, if any.
pub open spec fn technique_id_of(text: Seq<char>) -> Option<Seq<char>> {
    match uppercase_scan(text) {
        TechniqueScan::Found(i) => Some(
            technique_id_at(encode_utf8(unicode_uppercase(text)), i as int),
        ),
        _ => None,
    }
}

/// The (technique id, technique name) that a notice's text describes.
pub open spec fn technique_text(text: Seq<char>) -> (Option<Seq<char>>, Seq<char>) {
    let t = trim_ws(text);
    match technique_id_of(t) {
        Some(id) => (
            Some(id),
            if starts_with(t, id) {
                trim_ws(t.skip(id.len() as int))
            } else {
                t
            },
        ),
        None => (None, t),
    }
}

/// The technique text of `text` can be scanned: always when its trimmed text
/// is ASCII; else when the scan of its upper-cased bytes meets no slice that
/// would fall inside a character.
pub open spec fn technique_text_safe(text: Seq<char>) -> bool {
    is_ascii_chars(trim_ws(text)) || !(uppercase_scan(trim_ws(text)) is Unsliceable)
}

proof fn lemma_ascii_boundary(b: Seq<u8>, k: int)
    requires
        valid_utf8(b),
        forall|j: int| 0 <= j < b.len() ==> #[trigger] b[j] < 128,
        0 <= k <= b.len(),
    ensures
        is_char_boundary(b, k),
{
    if k == b.len() {
        is_char_boundary_start_end_of_seq(b);
    } else {
        assert(b[k] < 128);
        is_char_boundary_iff_not_is_continuation_byte(b, k);
    }
}

/// On bytes that are all ASCII every position is a character boundary, so the
/// scan never meets a slice it cannot make.
proof fn lemma_ascii_scan_sliceable(b: Seq<u8>, i: nat)
    requires
        valid_utf8(b),
        forall|j: int| 0 <= j < b.len() ==> #[trigger] b[j] < 128,
    ensures
        !(technique_scan(b, i) is Unsliceable),
    decreases b.len() - i,
{
    if i < b.len() {
        if i + 5 <= b.len() {
            lemma_ascii_boundary(b, i + 5int);
        }
        if i + 9 <= b.len() {
            lemma_ascii_boundary(b, i + 9int);
        }
        lemma_ascii_scan_sliceable(b, i + 1);
    }
}

/// Upper-casing ASCII text, then scanning its bytes, never meets a slice
/// inside a character.
proof fn lemma_ascii_text_scan(text: Seq<char>)
    requires
        is_ascii_chars(text),
    ensures
        is_ascii_chars(text.map_values(|c: char| ascii_upper(c))),
        !(technique_scan(encode_utf8(text.map_values(|c: char| ascii_upper(c))), 0) is Unsliceable),
{
    let u = text.map_values(|c: char| ascii_upper(c));
    assert forall|i: int| 0 <= i < u.len() implies '\0' <= #[trigger] u[i] <= '\u{7f}' by {
        assert('\0' <= text[i] <= '\u{7f}');
    }
    let b = encode_utf8(u);
    encode_utf8_valid_utf8(u);
    is_ascii_chars_encode_utf8(u);
    assert forall|k: int| 0 <= k < b.len() implies #[trigger] b[k] < 128 by {
        assert(u[k] as u8 == b[k]);
        assert('\0' <= u[k] <= '\u{7f}');
    }
    lemma_ascii_scan_sliceable(b, 0);
}

proof fn lemma_trim_start_keeps_ascii(s: Seq<char>)
    requires
        is_ascii_chars(s),
    ensures
        is_ascii_chars(trim_start(s, CharClass::Whitespace)),
    decreases s.len(),
{
    if s.len() > 0 && in_class(CharClass::Whitespace, s[0]) {
        assert forall|i: int| 0 <= i < s.drop_first().len() implies '\0' <= #[trigger] s.drop_first()[i]
            <= '\u{7f}' by {
            assert(s.drop_first()[i] == s[i + 1]);
        }
        lemma_trim_start_keeps_ascii(s.drop_first());
    }
}

proof fn lemma_trim_end_keeps_ascii(s: Seq<char>)
    requires
        is_ascii_chars(s),
    ensures
        is_ascii_chars(trim_end(s, CharClass::Whitespace)),
    decreases s.len(),
{
    if s.len() > 0 && in_class(CharClass::Whitespace, s.last()) {
        assert forall|i: int| 0 <= i < s.drop_last().len() implies '\0' <= #[trigger] s.drop_last()[i]
            <= '\u{7f}' by {
            assert(s.drop_last()[i] == s[i]);
        }
        lemma_trim_end_keeps_ascii(s.drop_last());
    }
}

/// A BZAR notice whose technique text (`sub`, else `msg`) is ASCII can always
/// be scanned for a technique id.
pub proof fn law_ascii_notice_is_scannable(fields: Seq<(String, String)>)
    requires
        is_ascii_chars(notice_technique_source(fields)),
    ensures
        bzar_scan_safe(fields),
{
    let t = notice_technique_source(fields);
    lemma_trim_start_keeps_ascii(t);
    lemma_trim_end_keeps_ascii(trim_start(t, CharClass::Whitespace));
}

/// MITRE tactic id for a BZAR tactic key.
pub open spec fn mitre_tactic_id(key: Seq<char>) -> Option<Seq<char>> {
    if key == "Credential_Access"@ {
        Some("TA0006"@)
    } else if key == "Defense_Evasion"@ {
        Some("TA0005"@)
    } else if key == "Discovery"@ {
        Some("TA0007"@)
    } else if key == "Execution"@ {
        Some("TA0002"@)
    } else if key == "Impact"@ {
        Some("TA0040"@)
    } else if key == "Lateral_Movement"@ || key == "Lateral_Movement_and_Execution"@ || key
        == "Lateral_Movement_Extracted_File"@ || key == "Lateral_Movement_Multiple_Attempts"@ {
        Some("TA0008"@)
    } else if key == "Persistence"@ {
        Some("TA0003"@)
    } else {
        None
    }
}

/// A BZAR notice whose note is `ATTACK::` and a tactic key reports that key's
/// published MITRE ATT&CK tactic id: Credential_Access TA0006, Defense_Evasion
/// TA0005, Discovery TA0007, Execution TA0002, Impact TA0040, the four
/// Lateral_Movement keys TA0008, Persistence TA0003; any other key has none.
pub proof fn law_bzar_tactic_ids(fields: Seq<(String, String)>, key: Seq<char>)
    requires
        field_lookup(fields, "note"@) == Some("ATTACK::"@ + key),
    ensures
        bzar_attack(fields) is Some,
        key == "Credential_Access"@ ==> bzar_attack(fields).unwrap().tactic_id == Some("TA0006"@),
        key == "Defense_Evasion"@ ==> bzar_attack(fields).unwrap().tactic_id == Some("TA0005"@),
        key == "Discovery"@ ==> bzar_attack(fields).unwrap().tactic_id == Some("TA0007"@),
        key == "Execution"@ ==> bzar_attack(fields).unwrap().tactic_id == Some("TA0002"@),
        key == "Impact"@ ==> bzar_attack(fields).unwrap().tactic_id == Some("TA0040"@),
        key == "Lateral_Movement"@ ==> bzar_attack(fields).unwrap().tactic_id == Some("TA0008"@),
        key == "Lateral_Movement_and_Execution"@ ==> bzar_attack(fields).unwrap().tactic_id == Some(
            "TA0008"@,
        ),
        key == "Lateral_Movement_Extracted_File"@ ==> bzar_attack(fields).unwrap().tactic_id == Some(
            "TA0008"@,
        ),
        key == "Lateral_Movement_Multiple_Attempts"@ ==> bzar_attack(fields).unwrap().tactic_id
            == Some("TA0008"@),
        key == "Persistence"@ ==> bzar_attack(fields).unwrap().tactic_id == Some("TA0003"@),
        !(key == "Credential_Access"@ || key == "Defense_Evasion"@ || key == "Discovery"@ || key
            == "Execution"@ || key == "Impact"@ || key == "Lateral_Movement"@ || key
            == "Lateral_Movement_and_Execution"@ || key == "Lateral_Movement_Extracted_File"@ || key
            == "Lateral_Movement_Multiple_Attempts"@ || key == "Persistence"@) ==> bzar_attack(
            fields,
        ).unwrap().tactic_id is None,
        bzar_attack(fields).unwrap().tactic == key.map_values(
            |c: char|
                if c == '_' {
                    ' '
                } else {
                    c
                },
        ),
{
    reveal_strlit("ATTACK::");
    reveal_strlit("Credential_Access");
    reveal_strlit("Defense_Evasion");
    reveal_strlit("Discovery");
    reveal_strlit("Execution");
    reveal_strlit("Impact");
    reveal_strlit("Lateral_Movement");
    reveal_strlit("Lateral_Movement_and_Execution");
    reveal_strlit("Lateral_Movement_Extracted_File");
    reveal_strlit("Lateral_Movement_Multiple_Attempts");
    reveal_strlit("Persistence");
    let note = "ATTACK::"@ + key;
    assert(note.take(8) =~= "ATTACK::"@);
    assert(note.skip(8) =~= key);
    assert(is_attack_notice(fields));
    if key == "Execution"@ {
        assert(key[0] != "Discovery"@[0]);
    }
}

pub open spec fn underscores_to_spaces(s: Seq<char>) -> Seq<char> {
    s.map_values(|c: char| if c == '_' { ' ' } else { c })
}

/// The text whose technique id a BZAR notice reports: `sub` if present, else `msg`.
pub open spec fn notice_technique_source(fields: Seq<(String, String)>) -> Seq<char> {
    match field_lookup(fields, "sub"@) {
        Some(sub) => sub,
        None => match field_lookup(fields, "msg"@) {
            Some(m) => m,
            None => Seq::empty(),
        },
    }
}

/// A notice is a BZAR ATT&CK notice when its `note` starts with `ATTACK::`.
pub open spec fn is_attack_notice(fields: Seq<(String, String)>) -> bool {
    match field_lookup(fields, "note"@) {
        Some(note) => starts_with(note, "ATTACK::"@),
        None => false,
    }
}

/// The payloads whose technique text can be scanned without slicing inside a character.
pub open spec fn bzar_scan_safe(fields: Seq<(String, String)>) -> bool {
    is_attack_notice(fields) ==> technique_text_safe(notice_technique_source(fields))
}

/// The ATT&CK enrichment of a payload.
pub open spec fn bzar_attack(fields: Seq<(String, String)>) -> Option<AttackView> {
    if is_attack_notice(fields) {
        let note = field_lookup(fields, "note"@).unwrap();
        let key = note.skip("ATTACK::"@.len() as int);
        let msg = match field_lookup(fields, "msg"@) {
            Some(m) => m,
            None => Seq::empty(),
        };
        let (technique_id, technique) = match field_lookup(fields, "sub"@) {
            Some(sub) => technique_text(sub),
            None => {
                let (id, name) = technique_text(msg);
                (
                    id,
                    if name.len() == 0 {
                        msg
                    } else {
                        name
                    },
                )
            },
        };
        Some(
            AttackView {
                matched: true,
                tactic: underscores_to_spaces(key),
                tactic_id: mitre_tactic_id(key),
                technique_id,
                technique,
                notice_type: note,
                description: msg,
                source: "bzar"@,
            },
        )
    } else {
        None
    }
}

/// Result of scanning an upper-cased text for a technique id.
pub enum TechniqueIdScan {
    Found(String),
    Absent,
    /// Slicing the text at the id's bytes would split a multi-byte character.
    Unsliceable,
}

fn digit_run(b: &[u8], from: usize, to: usize) -> (r: bool)
    requires
        from <= to <= b@.len(),
    ensures
        r == digit_bytes(b@, from as int, to as int),
{
    let mut k = from;
    while k < to
        invariant
            from <= k <= to,
            to <= b@.len(),
            forall|j: int| from <= j < k ==> is_digit_byte(#[trigger] b@[j]),
        decreases to - k,
    {
        if !(48 <= b[k] && b[k] <= 57) {
            return false;
        }
        k += 1;
    }
    true
}

fn push_bytes_as_chars(v: &mut Vec<char>, b: &[u8], from: usize, to: usize)
    requires
        from <= to <= b@.len(),
    ensures
        final(v)@ == old(v)@ + bytes_as_chars(b@.subrange(from as int, to as int)),
{
    let mut k = from;
    while k < to
        invariant
            from <= k <= to,
            to <= b@.len(),
            v@ == old(v)@ + bytes_as_chars(b@.subrange(from as int, k as int)),
        decreases to - k,
    {
        v.push(b[k] as char);
        proof {
            assert(bytes_as_chars(b@.subrange(from as int, k + 1)) =~= bytes_as_chars(
                b@.subrange(from as int, k as int),
            ).push(b@[k as int] as char));
        }
        k += 1;
    }
}

/// Find the first technique id in an upper-cased text, reporting where the
/// byte slicing of the scan would not fall on a character boundary.
pub fn scan_technique_id(upper: &str) -> (r: TechniqueIdScan)
    ensures
        match technique_scan(encode_utf8(upper@), 0) {
            TechniqueScan::Found(i) => r matches TechniqueIdScan::Found(id) && id@
                == technique_id_at(encode_utf8(upper@), i as int),
            TechniqueScan::NotFound => r is Absent,
            TechniqueScan::Unsliceable => r is Unsliceable,
        },
{
    let bytes = upper.as_bytes();
    let n = bytes.len();
    let ghost b = encode_utf8(upper@);
    let mut i: usize = 0;
    while i < n
        invariant
            i <= n,
            n == b.len(),
            bytes@ == b,
            b == encode_utf8(upper@),
            technique_scan(b, 0) == technique_scan(b, i as nat),
        decreases n - i,
    {
        if bytes[i] == 84u8 {
            if n - i < 5 {
                return TechniqueIdScan::Absent;
            }
            if !upper.is_char_boundary(i + 5) {
                return TechniqueIdScan::Unsliceable;
            }
            if digit_run(bytes, i + 1, i + 5) {
                let with_minor = n - i >= 9 && bytes[i + 5] == 46u8;
                if with_minor && !upper.is_char_boundary(i + 9) {
                    return TechniqueIdScan::Unsliceable;
                }
                let mut id: Vec<char> = Vec::new();
                id.push('T');
                push_bytes_as_chars(&mut id, bytes, i + 1, i + 5);
                if with_minor && digit_run(bytes, i + 6, i + 9) {
                    id.push('.');
                    push_bytes_as_chars(&mut id, bytes, i + 6, i + 9);
                }
                proof {
                    assert(id@ =~= technique_id_at(b, i as int));
                }
                return TechniqueIdScan::Found(string_from_chars(&id));
            }
        }
        i += 1;
    }
    TechniqueIdScan::Absent
}

fn extract_technique_id(text: &str) -> (r: Option<String>)
    requires
        is_ascii_chars(text@) || !(uppercase_scan(text@) is Unsliceable),
    ensures
        opt_view(r) == technique_id_of(text@),
{
    let upper = to_uppercase(text);
    proof {
        if is_ascii_chars(text@) {
            lemma_ascii_text_scan(text@);
        }
    }
    match scan_technique_id(upper.as_str()) {
        TechniqueIdScan::Found(id) => Some(id),
        TechniqueIdScan::Absent => None,
        TechniqueIdScan::Unsliceable => None,
    }
}

/// Whether the technique text of `text` can be scanned (see [`technique_text_safe`]).
pub fn technique_text_is_safe(text: &str) -> (r: bool)
    ensures
        r == technique_text_safe(text@),
{
    let t = string_from_chars(&trim_ws_chars(&chars_of(text)));
    let upper = to_uppercase(t.as_str());
    proof {
        if is_ascii_chars(t@) {
            lemma_ascii_text_scan(t@);
        }
    }
    match scan_technique_id(upper.as_str()) {
        TechniqueIdScan::Unsliceable => false,
        _ => true,
    }
}

fn parse_technique_text(text: &str) -> (r: (Option<String>, String))
    requires
        technique_text_safe(text@),
    ensures
        opt_view(r.0) == technique_text(text@).0,
        r.1@ == technique_text(text@).1,
{
    let trimmed = trim_ws_chars(&chars_of(text));
    let t = string_from_chars(&trimmed);
    match extract_technique_id(t.as_str()) {
        Some(id) => {
            let idc = chars_of(id.as_str());
            let name = if starts_with_chars(&trimmed, &idc) {
                let rest = copy_range(&trimmed, idc.len(), trimmed.len());
                proof {
                    assert(rest@ =~= trimmed@.skip(idc@.len() as int));
                }
                string_from_chars(&trim_ws_chars(&rest))
            } else {
                t
            };
            (Some(id), name)
        },
        None => (None, t),
    }
}

fn tactic_to_mitre_id(tactic_key: &str) -> (r: Option<String>)
    ensures
        opt_view(r) == mitre_tactic_id(tactic_key@),
{
    let id = if crate::text::str_eq(tactic_key, "Credential_Access") {
        "TA0006"
    } else if crate::text::str_eq(tactic_key, "Defense_Evasion") {
        "TA0005"
    } else if crate::text::str_eq(tactic_key, "Discovery") {
        "TA0007"
    } else if crate::text::str_eq(tactic_key, "Execution") {
        "TA0002"
    } else if crate::text::str_eq(tactic_key, "Impact") {
        "TA0040"
    } else if crate::text::str_eq(tactic_key, "Lateral_Movement") || crate::text::str_eq(
        tactic_key,
        "Lateral_Movement_and_Execution",
    ) || crate::text::str_eq(tactic_key, "Lateral_Movement_Extracted_File")
        || crate::text::str_eq(tactic_key, "Lateral_Movement_Multiple_Attempts") {
        "TA0008"
    } else if crate::text::str_eq(tactic_key, "Persistence") {
        "TA0003"
    } else {
        return None;
    };
    Some(id.to_owned())
}

fn underscores_to_spaces_chars(v: &Vec<char>) -> (r: Vec<char>)
    ensures
        r@ == underscores_to_spaces(v@),
{
    let mut r: Vec<char> = Vec::new();
    let mut i: usize = 0;
    while i < v.len()
        invariant
            i <= v.len(),
            r@ == underscores_to_spaces(v@.take(i as int)),
        decreases v.len() - i,
    {
        let c = if v[i] == '_' {
            ' '
        } else {
            v[i]
        };
        r.push(c);
        proof {
            assert(underscores_to_spaces(v@.take(i + 1)) =~= underscores_to_spaces(
                v@.take(i as int),
            ).push(c));
        }
        i += 1;
    }
    proof {
        assert(v@.take(v.len() as int) =~= v@);
    }
    r
}

/// Whether [`extract_bzar_attack`] may be applied to `raw` (see [`bzar_scan_safe`]).
pub fn bzar_scan_is_safe(raw: &RawEvent) -> (r: bool)
    ensures
        r == bzar_scan_safe(raw.string_fields@),
{
    let note = match raw.get_str("note") {
        Some(n) => n,
        None => {
            return true;
        },
    };
    if !starts_with_chars(&chars_of(note.as_str()), &chars_of("ATTACK::")) {
        return true;
    }
    match raw.get_str("sub") {
        Some(sub) => technique_text_is_safe(sub.as_str()),
        None => match raw.get_str("msg") {
            Some(msg) => technique_text_is_safe(msg.as_str()),
            None => {
                proof {
                    reveal_strlit("");
                    assert(""@ =~= Seq::<char>::empty());
                }
                technique_text_is_safe("")
            },
        },
    }
}

/// Parse a Zeek notice payload produced by BZAR into ATT&CK metadata.
pub fn extract_bzar_attack(raw: &RawEvent, zeek_log_type: Option<&ZeekLogType>) -> (r: Option<
    AttackEnrichment,
>)
    requires
        bzar_scan_safe(raw.string_fields@),
    ensures
        match r {
            Some(a) => bzar_attack(raw.string_fields@) == Some(a@),
            None => bzar_attack(raw.string_fields@) is None,
        },
{
    let prefix = chars_of("ATTACK::");
    let note_field = raw.get_str("note");
    let is_notice = match zeek_log_type {
        Some(t) => t.is_notice(),
        None => false,
    } || match note_field {
        Some(n) => starts_with_chars(&chars_of(n.as_str()), &prefix),
        None => false,
    };
    if !is_notice {
        return None;
    }
    let note = match note_field {
        Some(n) => n,
        None => {
            return None;
        },
    };
    let note_chars = chars_of(note.as_str());
    if !starts_with_chars(&note_chars, &prefix) {
        return None;
    }
    let key_chars = copy_range(&note_chars, prefix.len(), note_chars.len());
    proof {
        assert(key_chars@ =~= note@.skip("ATTACK::"@.len() as int));
    }
    let tactic_key = string_from_chars(&key_chars);
    let tactic = string_from_chars(&underscores_to_spaces_chars(&key_chars));
    let msg: String = match raw.get_str("msg") {
        Some(m) => m.clone(),
        None => String::new(),
    };
    let (technique_id, technique) = match raw.get_str("sub") {
        Some(sub) => parse_technique_text(sub.as_str()),
        None => {
            let (id, name) = parse_technique_text(msg.as_str());
            let name_chars = chars_of(name.as_str());
            (
                id,
                if name_chars.len() == 0 {
                    msg.clone()
                } else {
                    name
                },
            )
        },
    };
    Some(
        AttackEnrichment {
            matched: true,
            tactic,
            tactic_id: tactic_to_mitre_id(tactic_key.as_str()),
            technique_id,
            technique,
            notice_type: note.clone(),
            description: msg,
            source: "bzar".to_owned(),
        },
    )
}

/// The outcome of parsing a payload whose technique text may not be scannable.
#[derive(Debug, Clone)]
pub enum BzarOutcome {
    /// A BZAR ATT&CK notice, parsed.
    Attack(AttackEnrichment),
    /// Not a BZAR ATT&CK notice.
    NoAttack,
    /// A BZAR notice whose technique text cannot be scanned: upper-casing it
    /// moves a would-be technique id off character boundaries.
    Unscannable,
}

/// [`extract_bzar_attack`] where its precondition holds, and `Unscannable` otherwise.
pub fn try_extract_bzar_attack(raw: &RawEvent, zeek_log_type: Option<&ZeekLogType>) -> (r: BzarOutcome)
    ensures
        !bzar_scan_safe(raw.string_fields@) ==> r is Unscannable,
        bzar_scan_safe(raw.string_fields@) ==> match bzar_attack(raw.string_fields@) {
            Some(a) => r matches BzarOutcome::Attack(x) && x@ == a,
            None => r is NoAttack,
        },
{
    if !bzar_scan_is_safe(raw) {
        return BzarOutcome::Unscannable;
    }
    match extract_bzar_attack(raw, zeek_log_type) {
        Some(a) => BzarOutcome::Attack(a),
        None => BzarOutcome::NoAttack,
    }
}

} // verus!
