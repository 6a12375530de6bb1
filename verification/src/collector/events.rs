//! RT-20: kernel log, journal and pstore.
use vstd::prelude::*;

use crate::collector::{
    CollectionStatus, ProbeOutcome, StatusView, filter_in, probe_from_presence, probe_verdict,
    probe_view, contains_string, status_with_unsupported, status_with_unsupported_spec, str_views,
    strings_view,
};
use crate::fs::FsRoots;
use crate::text::{chars_eq, chars_of, string_of, sub_chars, utf8_len, utf8_width};

verus! {

/// The RT-20 collector.
pub struct Events;

/// The kernel log settings that RT-20 reads.
pub const FILES: [&'static str; 6] = [
    "/proc/sys/kernel/printk",
    "/proc/sys/kernel/printk_ratelimit",
    "/proc/sys/kernel/printk_ratelimit_burst",
    "/proc/sys/kernel/printk_dropped",
    "/proc/sys/kernel/devkmsg_log",
    "/proc/sys/kernel/dmesg_restrict",
];

/// The kernel log device.
pub const KMSG_PATH: &'static str = "/dev/kmsg";

/// Settings whose absence means the kernel lacks the feature.
pub const UNSUPPORTED_IF_MISSING: [&'static str; 2] = [
    "/proc/sys/kernel/printk_dropped",
    "/proc/sys/kernel/devkmsg_log",
];

/// The most pstore records, and the most journal files, that the record
/// lists.
pub const MAX_PSTORE_FILES: usize = 20;
pub const MAX_JOURNAL_FILES: usize = 20;

/// The most bytes of a pstore record that the snapshot keeps.
pub const PSTORE_EXCERPT_BYTES: usize = 8192;

/// The status of RT-20 after its record was written: when the log device
/// was missing and could not be read, the kernel refused it; otherwise the
/// missing inputs split into those the kernel may lack and the rest.
pub open spec fn events_status_spec(degraded: Seq<Seq<char>>, dmesg_ok: bool) -> StatusView {
    if !dmesg_ok && filter_in(degraded, str_views(UNSUPPORTED_IF_MISSING@), false).contains(
        KMSG_PATH@,
    ) {
        StatusView::PermissionDenied
    } else {
        status_with_unsupported_spec(degraded, str_views(UNSUPPORTED_IF_MISSING@))
    }
}

/// What a pstore record keeps of `s`: the prefix of at most
/// `PSTORE_EXCERPT_BYTES` bytes, all of `s` when it is no longer.
pub open spec fn is_excerpt(s: Seq<char>, r: Seq<char>) -> bool {
    &&& r.len() <= s.len()
    &&& r == s.take(r.len() as int)
    &&& utf8_len(r) == if utf8_len(s) <= PSTORE_EXCERPT_BYTES {
        utf8_len(s)
    } else {
        PSTORE_EXCERPT_BYTES as nat
    }
}

/// Whether a prefix of `s` ends exactly at byte `n`, so that a cut there
/// falls between two characters.
pub open spec fn cut_at_boundary(s: Seq<char>, n: nat) -> bool {
    exists|k: int| 0 <= k <= s.len() && #[trigger] utf8_len(s.take(k)) == n
}

/// Each character adds at least one byte: the longer of two prefixes is
/// longer in bytes by at least the number of characters between them.
proof fn lemma_utf8_prefix_grows(s: Seq<char>, a: int, b: int)
    requires
        0 <= a <= b <= s.len(),
    ensures
        utf8_len(s.take(a)) + (b - a) <= utf8_len(s.take(b)),
    decreases b - a,
{
    if a < b {
        lemma_utf8_prefix_grows(s, a, b - 1);
        assert(s.take(b).drop_last() =~= s.take(b - 1));
    }
}

/// The number of leading characters of `s` whose encoding fits in `n` bytes.
fn prefix_within(s: &[char], n: usize) -> (k: usize)
    ensures
        k <= s@.len(),
        utf8_len(s@.take(k as int)) <= n,
        k < s@.len() ==> utf8_len(s@.take(k + 1)) > n,
{
    let mut total: usize = 0;
    let mut i: usize = 0;
    while i < s.len()
        invariant
            i <= s@.len(),
            total == utf8_len(s@.take(i as int)),
            total <= n,
        decreases s.len() - i,
    {
        assert(s@.take(i + 1).drop_last() =~= s@.take(i as int));
        let w = utf8_width(s[i]);
        if w > n - total {
            return i;
        }
        total = total + w;
        i = i + 1;
    }
    i
}

/// The part of a pstore record that the snapshot keeps. A record longer
/// than the limit must not have a character across the cut.
pub fn pstore_excerpt(s: &str) -> (r: String)
    requires
        utf8_len(s@) <= PSTORE_EXCERPT_BYTES || cut_at_boundary(s@, PSTORE_EXCERPT_BYTES as nat),
    ensures
        is_excerpt(s@, r@),
{
    let c = chars_of(s);
    let k = prefix_within(c.as_slice(), PSTORE_EXCERPT_BYTES);
    let t = sub_chars(c.as_slice(), 0, k);
    assert(t@ =~= s@.take(k as int));
    proof {
        if k < s@.len() {
            lemma_utf8_prefix_grows(s@, (k + 1) as int, s@.len() as int);
            assert(s@.take(s@.len() as int) =~= s@);
            let j = choose|j: int|
                0 <= j <= s@.len() && #[trigger] utf8_len(s@.take(j)) == PSTORE_EXCERPT_BYTES;
            if j > k {
                lemma_utf8_prefix_grows(s@, (k + 1) as int, j);
            } else if j < k {
                lemma_utf8_prefix_grows(s@, j, k as int);
            }
        } else {
            assert(s@.take(k as int) =~= s@);
        }
    }
    string_of(t.as_slice())
}

/// An entry stays among those kept by `filter_in` exactly when it is in the
/// input and its membership in `list` is the one kept.
proof fn lemma_filter_in_contains(d: Seq<Seq<char>>, list: Seq<Seq<char>>, keep: bool, x: Seq<char>)
    ensures
        filter_in(d, list, keep).contains(x) <==> (d.contains(x) && list.contains(x) == keep),
    decreases d.len(),
{
    if d.len() > 0 {
        let init = d.drop_last();
        lemma_filter_in_contains(init, list, keep, x);
        let prev = filter_in(init, list, keep);
        let f = filter_in(d, list, keep);
        let pushed = list.contains(d.last()) == keep;
        assert(f == if pushed { prev.push(d.last()) } else { prev });
        if d.contains(x) && list.contains(x) == keep {
            let w = choose|w: int| 0 <= w < d.len() && d[w] == x;
            if w < d.len() - 1 {
                assert(init[w] == x);
                assert(init.contains(x));
                let v = choose|v: int| 0 <= v < prev.len() && prev[v] == x;
                assert(f[v] == x);
            } else {
                assert(f[f.len() - 1] == x);
            }
        }
        if f.contains(x) {
            let w = choose|w: int| 0 <= w < f.len() && f[w] == x;
            if w < prev.len() {
                assert(prev[w] == x);
                assert(prev.contains(x));
                let v = choose|v: int| 0 <= v < init.len() && init[v] == x;
                assert(d[v] == x);
            } else {
                assert(d[d.len() - 1] == x);
            }
        }
    }
}

/// The RT-20 probe verdict, given which of its files exist and whether the
/// kernel log device could be opened: without the device it still runs,
/// with the device listed last among the degraded inputs.
pub open spec fn events_verdict(present: Seq<bool>, kmsg_ok: bool) -> (
    bool,
    Seq<Seq<char>>,
    Option<Seq<char>>,
) {
    let v = probe_verdict(str_views(FILES@), present, "all events files missing"@);
    if kmsg_ok {
        v
    } else {
        (true, v.1.push(KMSG_PATH@), None)
    }
}

impl Events {
    /// Decides the probe from which of the RT-20 files exist and whether the
    /// kernel log device could be opened.
    pub fn probe_from(&self, present: &[bool], kmsg_ok: bool, roots: &FsRoots) -> (r: ProbeOutcome)
        requires
            present@.len() == FILES@.len(),
        ensures
            probe_view(r) == events_verdict(present@, kmsg_ok),
            r.roots@ == roots@,
    {
        let mut p = probe_from_presence(
            FILES.as_slice(),
            present,
            "all events files missing",
            roots.clone(),
        );
        if !kmsg_ok {
            let k = string_of(chars_of(KMSG_PATH).as_slice());
            let ghost before = strings_view(p.degraded@);
            p.available = true;
            p.reason = None;
            p.degraded.push(k);
            assert(strings_view(p.degraded@) =~= before.push(KMSG_PATH@));
        }
        p
    }

    /// Which RT-20 inputs exist under `roots`, given whether the kernel log
    /// device could be opened.
    pub fn probe(&self, roots: &FsRoots, kmsg_ok: bool) -> (r: ProbeOutcome)
        ensures
            exists|p: Seq<bool>|
                p.len() == FILES@.len() && #[trigger] events_verdict(p, kmsg_ok) == probe_view(r),
            r.roots@ == roots@,
    {
        let mut present: Vec<bool> = Vec::new();
        let mut i: usize = 0;
        while i < FILES.len()
            invariant
                i <= FILES@.len(),
                present@.len() == i,
            decreases FILES.len() - i,
        {
            present.push(roots.exists_at(FILES[i]));
            i = i + 1;
        }
        let r = self.probe_from(present.as_slice(), kmsg_ok, roots);
        assert(events_verdict(present@, kmsg_ok) == probe_view(r));
        r
    }

    /// The status after the record was written, given what the probe found
    /// missing and whether the kernel log could be read.
    pub fn status(&self, degraded: &Vec<String>, dmesg_ok: bool) -> (r: CollectionStatus)
        ensures
            r@ == events_status_spec(strings_view(degraded@), dmesg_ok),
    {
        proof {
            reveal_strlit("/dev/kmsg");
            reveal_strlit("/proc/sys/kernel/printk_dropped");
            reveal_strlit("/proc/sys/kernel/devkmsg_log");
            let list = str_views(UNSUPPORTED_IF_MISSING@);
            assert(list[0].len() != KMSG_PATH@.len());
            assert(list[1].len() != KMSG_PATH@.len());
            assert(!list.contains(KMSG_PATH@));
            lemma_filter_in_contains(strings_view(degraded@), list, false, KMSG_PATH@);
        }
        if !dmesg_ok && contains_string(degraded, KMSG_PATH) {
            CollectionStatus::PermissionDenied
        } else {
            status_with_unsupported(degraded, UNSUPPORTED_IF_MISSING.as_slice())
        }
    }

    /// The number of items collected: the kernel log when it could be read.
    pub fn items_collected(&self, dmesg_ok: bool) -> (r: Option<u64>)
        ensures
            r == if dmesg_ok {
                Some(1u64)
            } else {
                None
            },
    {
        if dmesg_ok {
            Some(1)
        } else {
            None
        }
    }
}

} // verus!
