//! The capture agent's log shipper: tailing offsets, source routing, batches
//! and the choice of PCAP files that are ready to upload.
use vstd::prelude::*;

use crate::config::ShipperConfig;
use crate::event::{EventSource, IngestBatch, IngestEvent};
use crate::mcp::{contains_str, string_set};
use crate::text::{
    chars_of, contains_chars, contains_seq, str_byte_len, str_len, trim_ws, trim_ws_chars,
};
use crate::threat::string_views;

verus! {

broadcast use vstd::string::group_string_axioms;

// ---------------------------------------------------------------------------
// Tailing log files
// ---------------------------------------------------------------------------

/// Bytes a run of lines took in the file: each line and its newline.
pub open spec fn lines_bytes(ls: Seq<String>) -> int
    decreases ls.len(),
{
    if ls.len() == 0 {
        0
    } else {
        lines_bytes(ls.drop_last()) + str_len(ls.last()@) + 1
    }
}

pub open spec fn is_blank(s: Seq<char>) -> bool {
    trim_ws(s).len() == 0
}

/// The lines that are not blank, in order.
pub open spec fn non_blank(ls: Seq<String>) -> Seq<String> {
    ls.filter(|l: String| !is_blank(l@))
}

/// Where reading of one log file resumes.
#[derive(Debug, Clone)]
pub struct FileTailer {
    path: String,
    offset: u64,
}

impl FileTailer {
    /// A tailer that starts at the beginning of the file at `path`.
    pub fn new(path: String) -> (r: FileTailer)
        ensures
            r.path_view() == path@,
            r.offset_view() == 0,
    {
        FileTailer { path, offset: 0 }
    }

    pub closed spec fn path_view(&self) -> Seq<char> {
        self.path@
    }

    pub closed spec fn offset_view(&self) -> u64 {
        self.offset
    }

    pub fn path(&self) -> (r: &str)
        ensures
            r@ == self.path_view(),
    {
        self.path.as_str()
    }

    /// The byte offset at which the next read starts.
    pub fn offset(&self) -> (r: u64)
        ensures
            r == self.offset_view(),
    {
        self.offset
    }

    /// Whether the offset can take `lines` without passing `u64::MAX`.
    pub fn can_absorb(&self, lines: &Vec<String>) -> (r: bool)
        ensures
            r == (self.offset_view() + lines_bytes(lines@) <= u64::MAX),
    {
        let mut total: u64 = self.offset;
        let mut i: usize = 0;
        while i < lines.len()
            invariant
                i <= lines.len(),
                total == self.offset + lines_bytes(lines@.take(i as int)),
            decreases lines.len() - i,
        {
            proof {
                assert(lines@.take(i + 1).drop_last() =~= lines@.take(i as int));
            }
            let n = str_byte_len(lines[i].as_str()) as u64;
            if total > u64::MAX - 1 || n > u64::MAX - 1 - total {
                proof {
                    lemma_lines_bytes_prefix(lines@, i + 1);
                }
                return false;
            }
            total = total + n + 1;
            i += 1;
        }
        proof {
            assert(lines@.take(lines.len() as int) =~= lines@);
        }
        true
    }

    /// Account for the lines just read from the offset on (each followed by
    /// a newline), and hand back those that are not blank.
    pub fn absorb_lines(&mut self, lines: Vec<String>) -> (r: Vec<String>)
        requires
            old(self).offset_view() + lines_bytes(lines@) <= u64::MAX,
        ensures
            final(self).offset_view() == old(self).offset_view() + lines_bytes(lines@),
            final(self).path_view() == old(self).path_view(),
            r@ == non_blank(lines@),
    {
        let ghost start = self.offset;
        let ghost pred = |l: String| !is_blank(l@);
        let mut kept: Vec<String> = Vec::new();
        let ghost input = lines@;
        proof {
            assert(input.take(0) =~= Seq::<String>::empty());
        }
        for line in it: lines.into_iter()
            invariant
                it.seq() == input,
                start + lines_bytes(input) <= u64::MAX,
                self.offset == start + lines_bytes(input.take(it.index() as int)),
                self.path == old(self).path,
                pred == (|l: String| !is_blank(l@)),
                kept@ == input.take(it.index() as int).filter(pred),
        {
            let ghost i = it.index();
            proof {
                assert(input.take(i + 1).drop_last() =~= input.take(i));
                assert(input.take(i + 1).last() == line);
                lemma_lines_bytes_prefix(input, i + 1);
                input.take(i).lemma_filter_push(line, pred);
                assert(input.take(i + 1) =~= input.take(i).push(line));
            }
            let n = str_byte_len(line.as_str());
            self.offset = self.offset + n as u64 + 1;
            if trim_ws_chars(&chars_of(line.as_str())).len() != 0 {
                kept.push(line);
            }
        }
        proof {
            assert(input.take(input.len() as int) =~= input);
        }
        kept
    }
}

proof fn lemma_lines_bytes_prefix(ls: Seq<String>, k: int)
    requires
        0 <= k <= ls.len(),
    ensures
        lines_bytes(ls.take(k)) <= lines_bytes(ls),
    decreases ls.len() - k,
{
    if k < ls.len() {
        lemma_lines_bytes_prefix(ls, k + 1);
        assert(ls.take(k + 1).drop_last() =~= ls.take(k));
    } else {
        assert(ls.take(k) =~= ls);
    }
}

proof fn lemma_lines_bytes_add(a: Seq<String>, b: Seq<String>)
    ensures
        lines_bytes(a + b) == lines_bytes(a) + lines_bytes(b),
    decreases b.len(),
{
    if b.len() == 0 {
        assert(a + b =~= a);
    } else {
        lemma_lines_bytes_add(a, b.drop_last());
        assert((a + b).drop_last() =~= a + b.drop_last());
        assert((a + b).last() == b.last());
    }
}

/// Reading a file in two pieces is reading it once: absorbing the lines of one
/// read and then those of the next moves the offset as far as absorbing all of
/// them at once, and the non-blank lines handed back, put together, are those
/// of the whole run, in order, none repeated or skipped.
pub proof fn law_absorb_concatenation(first: Seq<String>, next: Seq<String>)
    ensures
        lines_bytes(first + next) == lines_bytes(first) + lines_bytes(next),
        non_blank(first + next) == non_blank(first) + non_blank(next),
{
    lemma_lines_bytes_add(first, next);
    Seq::filter_distributes_over_add(first, next, |l: String| !is_blank(l@));
}

// ---------------------------------------------------------------------------
// Routing and batches
// ---------------------------------------------------------------------------

/// The analyzer whose logs a watched directory holds, judged by its name.
pub open spec fn watch_dir_source(dir: Seq<char>) -> EventSource {
    if contains_seq(dir, "p0f"@) {
        EventSource::P0f
    } else if contains_seq(dir, "fatt"@) {
        EventSource::Fatt
    } else {
        EventSource::Zeek
    }
}

pub fn source_for_watch_dir(dir: &str) -> (r: EventSource)
    ensures
        r == watch_dir_source(dir@),
{
    let d = chars_of(dir);
    if contains_chars(&d, &chars_of("p0f")) {
        EventSource::P0f
    } else if contains_chars(&d, &chars_of("fatt")) {
        EventSource::Fatt
    } else {
        EventSource::Zeek
    }
}

/// The batch that ships `events` for this agent; nothing to ship when there are none.
pub fn ingest_batch_for(config: &ShipperConfig, events: Vec<IngestEvent>) -> (r: Option<IngestBatch>)
    ensures
        events.len() == 0 ==> r is None,
        events.len() > 0 ==> (r matches Some(b) && b.agent_id@ == config.agent_id@
            && b.hostname@ == config.hostname@ && b.events == events),
{
    if events.len() == 0 {
        return None;
    }
    Some(
        IngestBatch {
            agent_id: config.agent_id.clone(),
            hostname: config.hostname.clone(),
            events,
        },
    )
}

/// The text fields of a PCAP upload form, in order: the agent, its host, the
/// capture interface (`auto` unless `CAPTURE_INTERFACE` is set) and the file name.
pub fn pcap_upload_fields(config: &ShipperConfig, capture_interface: Option<String>, filename: String) -> (r:
    Vec<(String, String)>)
    ensures
        r@.len() == 4,
        r@[0].0@ == "agent_id"@ && r@[0].1@ == config.agent_id@,
        r@[1].0@ == "hostname"@ && r@[1].1@ == config.hostname@,
        r@[2].0@ == "interface"@ && r@[2].1@ == (match capture_interface {
            Some(i) => i@,
            None => "auto"@,
        }),
        r@[3].0@ == "filename"@ && r@[3].1@ == filename@,
{
    let interface = match capture_interface {
        Some(i) => i,
        None => "auto".to_owned(),
    };
    let mut r: Vec<(String, String)> = Vec::new();
    r.push(("agent_id".to_owned(), config.agent_id.clone()));
    r.push(("hostname".to_owned(), config.hostname.clone()));
    r.push(("interface".to_owned(), interface));
    r.push(("filename".to_owned(), filename));
    r
}

// ---------------------------------------------------------------------------
// PCAP files already shipped
// ---------------------------------------------------------------------------

/// The PCAP paths already uploaded in this run.
#[derive(Debug, Clone)]
pub struct ShippedPcaps {
    paths: Vec<String>,
}

impl View for ShippedPcaps {
    type V = Set<Seq<char>>;

    closed spec fn view(&self) -> Set<Seq<char>> {
        string_set(self.paths@)
    }
}

impl ShippedPcaps {
    pub fn new() -> (r: ShippedPcaps)
        ensures
            r@ == Set::<Seq<char>>::empty(),
    {
        let r = ShippedPcaps { paths: Vec::new() };
        proof {
            assert(string_set(r.paths@) =~= Set::<Seq<char>>::empty());
        }
        r
    }

    pub fn contains(&self, path: &str) -> (r: bool)
        ensures
            r == self@.contains(path@),
    {
        contains_str(&self.paths, path)
    }

    pub fn insert(&mut self, path: String)
        ensures
            final(self)@ == old(self)@.insert(path@),
    {
        if !contains_str(&self.paths, path.as_str()) {
            let ghost before = self.paths@;
            self.paths.push(path);
            proof {
                assert(string_views(self.paths@) =~= string_views(before).push(path@));
                string_views(before).lemma_push_to_set_commute(path@);
            }
        } else {
            proof {
                assert(string_set(self.paths@) =~= string_set(self.paths@).insert(path@));
            }
        }
    }

    /// The recorded paths, each once.
    pub fn paths(&self) -> (r: &Vec<String>)
        ensures
            string_set(r@) == self@,
    {
        &self.paths
    }

    /// Keep only the paths for which `keep` holds (`keep` follows [`Self::paths`]).
    pub fn retain_flags(&mut self, keep: &Vec<bool>)
        requires
            keep.len() == old(self).paths_len(),
        ensures
            final(self)@ == Set::new(
                |p: Seq<char>|
                    exists|i: int| 0 <= i < keep.len() && keep@[i] && #[trigger] old(self).path_at(i) == p,
            ),
    {
        let mut kept: Vec<String> = Vec::new();
        let mut i: usize = 0;
        while i < self.paths.len()
            invariant
                i <= self.paths.len(),
                keep.len() == self.paths.len(),
                self.paths@ == old(self).paths@,
                string_set(kept@) == Set::new(
                    |p: Seq<char>| exists|j: int| 0 <= j < i && keep@[j] && #[trigger] self.paths@[j]@ == p,
                ),
            decreases self.paths.len() - i,
        {
            let ghost before = kept@;
            let ghost paths = self.paths@;
            if keep[i] {
                kept.push(self.paths[i].clone());
                proof {
                    assert(string_views(kept@) =~= string_views(before).push(paths[i as int]@));
                    string_views(before).lemma_push_to_set_commute(paths[i as int]@);
                }
            }
            proof {
                assert forall|p: Seq<char>|
                    string_set(kept@).contains(p) == (exists|j: int|
                        0 <= j < i + 1 && keep@[j] && #[trigger] paths[j]@ == p) by {
                    if exists|j: int| 0 <= j < i + 1 && keep@[j] && #[trigger] paths[j]@ == p {
                        let j = choose|j: int| 0 <= j < i + 1 && keep@[j] && #[trigger] paths[j]@ == p;
                        if j < i {
                            assert(exists|j: int| 0 <= j < i && keep@[j] && #[trigger] paths[j]@ == p);
                        }
                    }
                    if string_set(before).contains(p) {
                        let j = choose|j: int| 0 <= j < i && keep@[j] && #[trigger] paths[j]@ == p;
                        assert(0 <= j < i + 1 && keep@[j] && paths[j]@ == p);
                    }
                }
                assert(string_set(kept@) =~= Set::new(
                    |p: Seq<char>| exists|j: int| 0 <= j < i + 1 && keep@[j] && #[trigger] paths[j]@ == p,
                ));
            }
            i += 1;
        }
        proof {
            assert(string_set(kept@) =~= Set::new(
                |p: Seq<char>|
                    exists|i: int| 0 <= i < keep.len() && keep@[i] && #[trigger] old(self).path_at(i) == p,
            )) by {
                assert forall|p: Seq<char>| string_set(kept@).contains(p) implies (exists|i: int| 0 <= i < keep.len() && keep@[i] && #[trigger] old(self).path_at(i) == p) by {
                    let j = choose|j: int| 0 <= j < i && keep@[j] && #[trigger] self.paths@[j]@ == p;
                    assert(old(self).path_at(j) == p);
                }
                assert forall|p: Seq<char>| (exists|i: int| 0 <= i < keep.len() && keep@[i] && #[trigger] old(self).path_at(i) == p) implies string_set(kept@).contains(p) by {
                    let j = choose|j: int| 0 <= j < keep.len() && keep@[j] && #[trigger] old(self).path_at(j) == p;
                    assert(self.paths@[j]@ == p);
                }
            }
        }
        self.paths = kept;
    }

    pub closed spec fn paths_len(&self) -> nat {
        self.paths@.len()
    }

    pub closed spec fn path_at(&self, i: int) -> Seq<char> {
        self.paths@[i]@
    }
}

// ---------------------------------------------------------------------------
// PCAP files ready to upload
// ---------------------------------------------------------------------------

/// A PCAP file in the capture directory and its modification time
/// (nanoseconds since the Unix epoch).
#[derive(Debug, Clone)]
pub struct PcapFile {
    pub path: String,
    pub modified_nanos: u64,
}

/// How long a finished file must have been left alone: twice the poll
/// interval, at least ten seconds (in nanoseconds).
pub open spec fn stale_threshold_nanos(poll_interval_secs: u64) -> int {
    let doubled = if poll_interval_secs * 2 <= u64::MAX {
        poll_interval_secs * 2
    } else {
        u64::MAX as int
    };
    (if doubled >= 10 {
        doubled
    } else {
        10
    }) * 1_000_000_000
}

/// The newest modification time among `files`.
pub open spec fn newest(files: Seq<PcapFile>) -> u64
    decreases files.len(),
{
    if files.len() == 0 {
        0
    } else if files.len() == 1 || files.last().modified_nanos >= newest(files.drop_last()) {
        files.last().modified_nanos
    } else {
        newest(files.drop_last())
    }
}

/// File `f` is ready: not (one of) the newest, which may still be written,
/// and unmodified for the stale threshold as of `now`.
pub open spec fn is_ready(f: PcapFile, newest_time: u64, now: u64, poll_interval_secs: u64) -> bool {
    &&& f.modified_nanos != newest_time
    &&& now >= f.modified_nanos
    &&& now - f.modified_nanos >= stale_threshold_nanos(poll_interval_secs)
}

/// `r` lists `files[idx[0]], files[idx[1]], ...`, oldest first, ties in input order.
pub open spec fn lists_in_time_order(r: Seq<String>, files: Seq<PcapFile>, idx: Seq<int>) -> bool {
    &&& r.len() == idx.len()
    &&& forall|k: int| 0 <= k < idx.len() ==> 0 <= #[trigger] idx[k] < files.len()
    &&& forall|k: int| 0 <= k < idx.len() ==> #[trigger] r[k]@ == files[idx[k]].path@
    &&& forall|a: int, b: int|
        0 <= a < b < idx.len() ==> (files[idx[a]].modified_nanos < files[idx[b]].modified_nanos || (
        files[idx[a]].modified_nanos == files[idx[b]].modified_nanos && idx[a] < idx[b]))
}

fn newest_time(files: &Vec<PcapFile>) -> (r: u64)
    ensures
        r == newest(files@),
{
    let mut best: u64 = 0;
    let mut i: usize = 0;
    while i < files.len()
        invariant
            i <= files.len(),
            best == newest(files@.take(i as int)),
        decreases files.len() - i,
    {
        proof {
            assert(files@.take(i + 1).drop_last() =~= files@.take(i as int));
        }
        if i == 0 || files[i].modified_nanos >= best {
            best = files[i].modified_nanos;
        }
        i += 1;
    }
    proof {
        assert(files@.take(files.len() as int) =~= files@);
    }
    best
}

/// Before `(t, j)` in time order, ties broken by position.
pub open spec fn earlier(files: Seq<PcapFile>, i: int, j: int) -> bool {
    files[i].modified_nanos < files[j].modified_nanos || (files[i].modified_nanos
        == files[j].modified_nanos && i < j)
}

/// The PCAP files that are complete and ready to upload, oldest first; none
/// unless there are at least two files.
pub fn select_ready_pcaps(files: &Vec<PcapFile>, now: u64, poll_interval_secs: u64) -> (r: Vec<String>)
    ensures
        files.len() < 2 ==> r.len() == 0,
        files.len() >= 2 ==> exists|idx: Seq<int>|
            {
                &&& lists_in_time_order(r@, files@, idx)
                &&& forall|k: int| 0 <= k < idx.len() ==> is_ready(files@[#[trigger] idx[k]], newest(files@), now, poll_interval_secs)
                &&& forall|i: int| 0 <= i < files.len() && is_ready(files@[i], newest(files@), now, poll_interval_secs) ==> #[trigger] idx.contains(i)
            },
{
    if files.len() < 2 {
        return Vec::new();
    }
    let top = newest_time(files);
    let doubled: u64 = if poll_interval_secs <= u64::MAX / 2 {
        poll_interval_secs * 2
    } else {
        u64::MAX
    };
    let secs: u64 = if doubled >= 10 {
        doubled
    } else {
        10
    };
    let threshold: u128 = secs as u128 * 1_000_000_000;
    // indices of ready files, kept sorted by (time, position)
    let mut order: Vec<usize> = Vec::new();
    let mut i: usize = 0;
    while i < files.len()
        invariant
            i <= files.len(),
            top == newest(files@),
            threshold == stale_threshold_nanos(poll_interval_secs),
            forall|k: int| 0 <= k < order.len() ==> #[trigger] order@[k] < i,
            forall|k: int| 0 <= k < order.len() ==> is_ready(files@[#[trigger] order@[k] as int], top, now, poll_interval_secs),
            forall|j: int| 0 <= j < i && is_ready(files@[j], top, now, poll_interval_secs) ==> exists|k: int| 0 <= k < order.len() && #[trigger] order@[k] == j,
            forall|a: int, b: int| 0 <= a < b < order.len() ==> earlier(files@, order@[a] as int, order@[b] as int),
        decreases files.len() - i,
    {
        let t = files[i].modified_nanos;
        let ready = t != top && now >= t && (now - t) as u128 >= threshold;
        if ready {
            let mut p: usize = 0;
            while p < order.len() && (files[order[p]].modified_nanos <= t)
                invariant
                    p <= order.len(),
                    forall|k: int| 0 <= k < order.len() ==> #[trigger] order@[k] < i,
                    i < files.len(),
                    t == files@[i as int].modified_nanos,
                    forall|k: int| 0 <= k < p ==> earlier(files@, #[trigger] order@[k] as int, i as int),
                decreases order.len() - p,
            {
                p += 1;
            }
            let ghost before = order@;
            order.insert(p, i);
            proof {
                assert(order@ =~= before.insert(p as int, i));
                assert forall|a: int, b: int| 0 <= a < b < order.len() implies earlier(files@, order@[a] as int, order@[b] as int) by {
                    if b < p {
                    } else if b == p {
                    } else if a < p {
                        assert(earlier(files@, before[a] as int, before[b - 1] as int));
                    } else if a == p {
                        // files[before[p]] is later than t, or the scan would have gone on
                        assert(files@[before[p as int] as int].modified_nanos > t);
                        if b - 1 > p {
                            assert(earlier(files@, before[p as int] as int, before[b - 1] as int));
                        }
                    } else {
                        assert(earlier(files@, before[a - 1] as int, before[b - 1] as int));
                    }
                }
                assert forall|j: int| 0 <= j < i + 1 && is_ready(files@[j], top, now, poll_interval_secs) implies exists|k: int| 0 <= k < order.len() && #[trigger] order@[k] == j by {
                    if j == i {
                        assert(order@[p as int] == j);
                    } else {
                        let k = choose|k: int| 0 <= k < before.len() && #[trigger] before[k] == j;
                        if k < p {
                            assert(order@[k] == j);
                        } else {
                            assert(order@[k + 1] == j);
                        }
                    }
                }
            }
        }
        i += 1;
    }
    let mut r: Vec<String> = Vec::new();
    let mut k: usize = 0;
    while k < order.len()
        invariant
            k <= order.len(),
            forall|m: int| 0 <= m < order.len() ==> #[trigger] order@[m] < files.len(),
            r.len() == k,
            forall|m: int| 0 <= m < k ==> #[trigger] r@[m]@ == files@[order@[m] as int].path@,
        decreases order.len() - k,
    {
        r.push(files[order[k]].path.clone());
        k += 1;
    }
    let ghost idx = order@.map_values(|x: usize| x as int);
    proof {
        assert forall|k: int| 0 <= k < idx.len() implies #[trigger] idx[k] == order@[k] as int by {}
        assert forall|a: int, b: int| 0 <= a < b < idx.len() implies (files@[idx[a]].modified_nanos < files@[idx[b]].modified_nanos || (
            files@[idx[a]].modified_nanos == files@[idx[b]].modified_nanos && idx[a] < idx[b])) by {
            assert(earlier(files@, order@[a] as int, order@[b] as int));
        }
        assert(lists_in_time_order(r@, files@, idx));
        assert forall|i: int| 0 <= i < files.len() && is_ready(files@[i], newest(files@), now, poll_interval_secs) implies #[trigger] idx.contains(i) by {
            let k = choose|k: int| 0 <= k < order.len() && #[trigger] order@[k] == i;
            assert(idx[k] == i);
        }
    }
    r
}

} // verus!
