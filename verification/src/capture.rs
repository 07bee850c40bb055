//! Rotating PCAP capture: capture settings, the rotation schedule, file names
//! and the choice of old files to prune.
use vstd::prelude::*;

use crate::text::{
    append_chars, chars_of, decimal, decimal_chars, lemma_lex_irreflexive, lemma_lex_transitive,
    lex_lt, lex_lt_chars,
};
use crate::threat::string_views;

verus! {

broadcast use vstd::string::group_string_axioms;

// ---------------------------------------------------------------------------
// Capture settings
// ---------------------------------------------------------------------------

/// Settings of a rotating capture on one interface.
#[derive(Debug, Clone)]
pub struct PcapCapturer {
    interface: String,
    pcap_dir: String,
    rotate_interval_secs: u64,
    rotate_count: usize,
    rotate_size_bytes: u64,
    snaplen: i32,
}

impl PcapCapturer {
    /// Capture settings, keeping at least two files and rotating at no less
    /// than 1024 bytes.
    pub fn new(
        interface: &str,
        pcap_dir: &str,
        rotate_interval_secs: u64,
        rotate_count: usize,
        rotate_size_bytes: u64,
        snaplen: i32,
    ) -> (r: PcapCapturer)
        ensures
            r.interface_view() == interface@,
            r.pcap_dir_view() == pcap_dir@,
            r.rotate_interval_secs_view() == rotate_interval_secs,
            r.rotate_count_view() == if rotate_count >= 2 {
                rotate_count
            } else {
                2
            },
            r.rotate_size_bytes_view() == if rotate_size_bytes >= 1024 {
                rotate_size_bytes
            } else {
                1024
            },
            r.snaplen_view() == snaplen,
    {
        PcapCapturer {
            interface: interface.to_owned(),
            pcap_dir: pcap_dir.to_owned(),
            rotate_interval_secs,
            rotate_count: if rotate_count >= 2 {
                rotate_count
            } else {
                2
            },
            rotate_size_bytes: if rotate_size_bytes >= 1024 {
                rotate_size_bytes
            } else {
                1024
            },
            snaplen,
        }
    }

    pub closed spec fn interface_view(&self) -> Seq<char> {
        self.interface@
    }

    pub closed spec fn pcap_dir_view(&self) -> Seq<char> {
        self.pcap_dir@
    }

    pub closed spec fn rotate_interval_secs_view(&self) -> u64 {
        self.rotate_interval_secs
    }

    pub closed spec fn rotate_count_view(&self) -> usize {
        self.rotate_count
    }

    pub closed spec fn rotate_size_bytes_view(&self) -> u64 {
        self.rotate_size_bytes
    }

    pub closed spec fn snaplen_view(&self) -> i32 {
        self.snaplen
    }

    pub fn interface(&self) -> (r: &str)
        ensures
            r@ == self.interface_view(),
    {
        self.interface.as_str()
    }

    pub fn pcap_dir(&self) -> (r: &str)
        ensures
            r@ == self.pcap_dir_view(),
    {
        self.pcap_dir.as_str()
    }

    /// How many capture files are kept.
    pub fn rotate_count(&self) -> (r: usize)
        ensures
            r == self.rotate_count_view(),
    {
        self.rotate_count
    }

    pub fn snaplen(&self) -> (r: i32)
        ensures
            r == self.snaplen_view(),
    {
        self.snaplen
    }

    /// The rotation schedule of a capture that opens its first file at `now`.
    pub fn schedule(&self, now: u64) -> (r: RotationState)
        ensures
            r.wf(),
            r@ == (RotationView {
                interval_secs: self.rotate_interval_secs_view(),
                count: if self.rotate_count_view() >= 2 { self.rotate_count_view() } else { 2 },
                size: self.rotate_size_bytes_view(),
                index: 0,
                opened_at: now,
                bytes: 0,
            }),
    {
        let count = if self.rotate_count >= 2 {
            self.rotate_count
        } else {
            2
        };
        RotationState::new(self.rotate_interval_secs, count, self.rotate_size_bytes, now)
    }
}

// ---------------------------------------------------------------------------
// Rotation schedule
// ---------------------------------------------------------------------------

/// `d` left-padded with zeros to four characters.
pub open spec fn zero_pad4(d: Seq<char>) -> Seq<char> {
    if d.len() >= 4 {
        d
    } else {
        Seq::new((4 - d.len()) as nat, |i: int| '0') + d
    }
}

/// The name of capture file number `index`: `capture-0001.pcap` and so on.
pub open spec fn capture_file_name(index: nat) -> Seq<char> {
    "capture-"@ + zero_pad4(decimal(index)) + ".pcap"@
}

pub fn capture_file_name_of(index: usize) -> (r: String)
    ensures
        r@ == capture_file_name(index as nat),
{
    let digits = decimal_chars(index as u64);
    let mut r = "capture-".to_owned();
    let mut pad: usize = 0;
    let missing: usize = if digits.len() >= 4 {
        0
    } else {
        4 - digits.len()
    };
    while pad < missing
        invariant
            pad <= missing,
            missing == (if digits@.len() >= 4 {
                0
            } else {
                4 - digits@.len()
            }),
            r@ == "capture-"@ + Seq::new(pad as nat, |i: int| '0'),
        decreases missing - pad,
    {
        crate::text::push_char(&mut r, '0');
        proof {
            assert(Seq::new(pad as nat, |i: int| '0').push('0') =~= Seq::new((pad + 1) as nat, |i: int| '0'));
        }
        pad += 1;
    }
    append_chars(&mut r, &digits);
    crate::text::append_str(&mut r, ".pcap");
    proof {
        if digits@.len() >= 4 {
            assert(Seq::new(0, |i: int| '0') + digits@ =~= digits@);
        }
        assert(r@ =~= capture_file_name(index as nat));
    }
    r
}

/// The state of the rotation: settings, current file and how much it holds.
pub struct RotationView {
    pub interval_secs: u64,
    pub count: usize,
    pub size: u64,
    pub index: usize,
    pub opened_at: u64,
    pub bytes: u64,
}

/// When a capture moves on to its next file; times are monotonic nanoseconds.
pub struct RotationState {
    interval_secs: u64,
    count: usize,
    size: u64,
    index: usize,
    opened_at: u64,
    bytes: u64,
}

impl View for RotationState {
    type V = RotationView;

    closed spec fn view(&self) -> RotationView {
        RotationView {
            interval_secs: self.interval_secs,
            count: self.count,
            size: self.size,
            index: self.index,
            opened_at: self.opened_at,
            bytes: self.bytes,
        }
    }
}

/// The current file has been open for the rotation interval, or holds the
/// rotation size (time before the opening counts as none elapsed).
pub open spec fn rotation_due(v: RotationView, now: u64) -> bool {
    let elapsed: int = if now >= v.opened_at {
        now - v.opened_at
    } else {
        0
    };
    elapsed >= v.interval_secs * 1_000_000_000 || v.bytes >= v.size
}

impl RotationState {
    /// The current file number is one of the `count > 0` numbers in use.
    pub closed spec fn wf(&self) -> bool {
        self.count > 0 && self.index < self.count
    }

    pub fn new(interval_secs: u64, count: usize, size: u64, now: u64) -> (r: RotationState)
        requires
            count > 0,
        ensures
            r.wf(),
            r@ == (RotationView { interval_secs, count, size, index: 0, opened_at: now, bytes: 0 }),
    {
        RotationState { interval_secs, count, size, index: 0, opened_at: now, bytes: 0 }
    }

    pub fn should_rotate(&self, now: u64) -> (r: bool)
        ensures
            r == rotation_due(self@, now),
    {
        let elapsed: u64 = if now >= self.opened_at {
            now - self.opened_at
        } else {
            0
        };
        elapsed as u128 >= self.interval_secs as u128 * 1_000_000_000 || self.bytes >= self.size
    }

    /// Move on to the next file (the numbers wrap around after `count`
    /// files) opened at `now`, and return its name.
    pub fn rotate(&mut self, now: u64) -> (r: String)
        requires
            old(self).wf(),
        ensures
            final(self).wf(),
            final(self)@ == (RotationView {
                index: ((old(self)@.index + 1) % (old(self)@.count as int)) as usize,
                opened_at: now,
                bytes: 0,
                ..old(self)@
            }),
            final(self)@.index < final(self)@.count,
            r@ == capture_file_name(final(self)@.index as nat),
    {
        self.bytes = 0;
        self.opened_at = now;
        proof {
            if self.index + 1 < self.count {
                vstd::arithmetic::div_mod::lemma_small_mod((self.index + 1) as nat, self.count as nat);
            } else {
                vstd::arithmetic::div_mod::lemma_mod_self_0(self.count as int);
            }
        }
        self.index = if self.index + 1 < self.count {
            self.index + 1
        } else {
            0
        };
        capture_file_name_of(self.index)
    }

    /// Rotate first when a rotation is due, returning the new file's name.
    pub fn rotate_if_due(&mut self, now: u64) -> (r: Option<String>)
        requires
            old(self).wf(),
        ensures
            final(self).wf(),
            rotation_due(old(self)@, now) ==> (r matches Some(name) && final(self)@ == (RotationView {
                index: ((old(self)@.index + 1) % (old(self)@.count as int)) as usize,
                opened_at: now,
                bytes: 0,
                ..old(self)@
            }) && name@ == capture_file_name(final(self)@.index as nat)),
            !rotation_due(old(self)@, now) ==> r is None && final(self)@ == old(self)@,
    {
        if self.should_rotate(now) {
            Some(self.rotate(now))
        } else {
            None
        }
    }

    /// Whether the size count can take a packet of `caplen` bytes.
    pub fn can_record(&self, caplen: u32) -> (r: bool)
        ensures
            r == (self@.bytes + 16 + caplen <= u64::MAX),
    {
        self.bytes <= u64::MAX - 16 - caplen as u64
    }

    /// Count a written packet of `caplen` captured bytes with its 16-byte record header.
    pub fn record_packet(&mut self, caplen: u32)
        requires
            old(self)@.bytes + 16 + caplen <= u64::MAX,
        ensures
            final(self).wf() == old(self).wf(),
            final(self)@ == (RotationView { bytes: (old(self)@.bytes + 16 + caplen) as u64, ..old(self)@ }),
    {
        self.bytes = self.bytes + 16 + caplen as u64;
    }
}

// ---------------------------------------------------------------------------
// Pruning
// ---------------------------------------------------------------------------

/// In order: no later text sorts before an earlier one.
pub open spec fn sorted_texts(s: Seq<Seq<char>>) -> bool {
    forall|i: int, j: int| 0 <= i < j < s.len() ==> !lex_lt(#[trigger] s[j], #[trigger] s[i])
}

/// The texts of `v` in sorted order.
pub fn sort_texts(v: &Vec<String>) -> (r: Vec<String>)
    ensures
        string_views(r@).to_multiset() == string_views(v@).to_multiset(),
        sorted_texts(string_views(r@)),
{
    broadcast use vstd::seq_lib::group_to_multiset_ensures;

    let mut acc: Vec<String> = Vec::new();
    let mut accv: Vec<Vec<char>> = Vec::new();
    let mut i: usize = 0;
    proof {
        assert(string_views(acc@) =~= Seq::<Seq<char>>::empty());
        assert(string_views(v@).take(0) =~= Seq::<Seq<char>>::empty());
    }
    while i < v.len()
        invariant
            i <= v.len(),
            acc.len() == accv.len(),
            forall|k: int| 0 <= k < acc.len() ==> #[trigger] accv@[k]@ == acc@[k]@,
            string_views(acc@).to_multiset() == string_views(v@).take(i as int).to_multiset(),
            sorted_texts(string_views(acc@)),
        decreases v.len() - i,
    {
        let x = v[i].clone();
        let xc = chars_of(x.as_str());
        let mut p: usize = 0;
        while p < accv.len() && !lex_lt_chars(&xc, &accv[p])
            invariant
                p <= accv.len(),
                xc@ == x@,
                acc.len() == accv.len(),
                forall|k: int| 0 <= k < acc.len() ==> #[trigger] accv@[k]@ == acc@[k]@,
                forall|k: int| 0 <= k < p ==> !lex_lt(x@, #[trigger] string_views(acc@)[k]),
            decreases accv.len() - p,
        {
            proof {
                assert(string_views(acc@)[p as int] == accv@[p as int]@);
            }
            p += 1;
        }
        proof {
            if p < accv.len() {
                assert(string_views(acc@)[p as int] == accv@[p as int]@);
            }
        }
        let ghost old_v = string_views(acc@);
        let ghost oldc = accv@;
        acc.insert(p, x);
        accv.insert(p, xc);
        proof {
            let t = string_views(acc@);
            assert(t =~= old_v.insert(p as int, x@));
            assert forall|k: int| 0 <= k < acc.len() implies #[trigger] accv@[k]@ == acc@[k]@ by {
                if k < p {
                    assert(accv@[k] == oldc[k]);
                } else if k > p {
                    assert(accv@[k] == oldc[k - 1]);
                }
            }
            assert forall|a: int, b: int| 0 <= a < b < t.len() implies !lex_lt(#[trigger] t[b], #[trigger] t[a]) by {
                if b < p {
                } else if b == p {
                } else if a < p {
                    assert(!lex_lt(old_v[b - 1], old_v[a]));
                } else if a == p {
                    // x sorts strictly before old_v[p], which is no later than old_v[b - 1]
                    assert(lex_lt(x@, old_v[p as int]));
                    if lex_lt(old_v[b - 1], x@) {
                        lemma_lex_transitive(old_v[b - 1], x@, old_v[p as int]);
                        if b - 1 == p {
                            lemma_lex_irreflexive(old_v[p as int]);
                        } else {
                            assert(!lex_lt(old_v[b - 1], old_v[p as int]));
                        }
                    }
                } else {
                    assert(!lex_lt(old_v[b - 1], old_v[a - 1]));
                }
            }
            vstd::seq_lib::to_multiset_insert(old_v, p as int, x@);
            assert(string_views(v@).take(i + 1) =~= string_views(v@).take(i as int).push(x@));
            vstd::seq_lib::to_multiset_build(string_views(v@).take(i as int), x@);
        }
        i += 1;
    }
    proof {
        assert(string_views(v@).take(v.len() as int) =~= string_views(v@));
    }
    acc
}

pub open spec fn is_active(p: Seq<char>, active: Option<Seq<char>>) -> bool {
    active == Some(p)
}

/// The files to delete when a directory holds more than `keep_count` capture
/// files: the oldest names beyond the allowance (the first ones in sorted
/// order), except the file being written.
pub fn prune_candidates(files: &Vec<String>, keep_count: usize, active: Option<&str>) -> (r: Vec<String>)
    ensures
        files.len() <= keep_count ==> r.len() == 0,
        files.len() > keep_count ==> exists|s: Seq<Seq<char>>|
            {
                &&& s.to_multiset() == string_views(files@).to_multiset()
                &&& sorted_texts(s)
                &&& string_views(r@) == s.take(files.len() - keep_count).filter(
                    |p: Seq<char>| !is_active(p, crate::gateway::opt_str_view(active)),
                )
            },
{
    if files.len() <= keep_count {
        return Vec::new();
    }
    let sorted = sort_texts(files);
    let excess = files.len() - keep_count;
    proof {
        vstd::seq_lib::to_multiset_len(string_views(sorted@));
        vstd::seq_lib::to_multiset_len(string_views(files@));
        assert(sorted.len() == files.len());
    }
    let ghost av = crate::gateway::opt_str_view(active);
    let ghost pred = |p: Seq<char>| !is_active(p, av);
    let mut r: Vec<String> = Vec::new();
    let mut k: usize = 0;
    proof {
        assert(string_views(sorted@).take(0).filter(pred) =~= Seq::<Seq<char>>::empty());
    }
    while k < excess
        invariant
            k <= excess,
            excess <= sorted.len(),
            pred == (|p: Seq<char>| !is_active(p, av)),
            av == crate::gateway::opt_str_view(active),
            string_views(r@) == string_views(sorted@).take(k as int).filter(pred),
        decreases excess - k,
    {
        let name = &sorted[k];
        let is_current = match active {
            Some(a) => crate::text::str_eq(name.as_str(), a),
            None => false,
        };
        let ghost before = r@;
        proof {
            assert(string_views(sorted@).take(k + 1) =~= string_views(sorted@).take(k as int).push(name@));
            string_views(sorted@).take(k as int).lemma_filter_push(name@, pred);
        }
        if !is_current {
            r.push(name.clone());
            proof {
                assert(string_views(r@) =~= string_views(before).push(name@));
            }
        }
        k += 1;
    }
    r
}

} // verus!
