//! RT-06: memory, virtual memory and swap. `/proc/meminfo` becomes a list
//! of key/value entries ordered by key.
use vstd::prelude::*;

use crate::collector::{
    probe_files, probe_post, status_with_unsupported, status_with_unsupported_spec, str_views,
    strings_view, CollectionStatus, ProbeOutcome,
};
use crate::collector::sections::{
    Section, render_sections, sections_report, sections_view, sort_by_name, sort_sections,
};
use crate::fs::FsRoots;
use crate::text::{
    chars_of, extend_chars, lines, lines_of, parse_i64, parse_signed, seqs_of, string_of, sub_chars, trim,
    trim_chars, words, words_of,
};

verus! {

/// The RT-06 collector.
pub struct Memory;

/// The files that RT-06 reads, in the order its record uses them.
pub const FILES: [&'static str; 24] = [
    "/proc/meminfo",
    "/proc/pressure/memory",
    "/proc/vmstat",
    "/proc/zoneinfo",
    "/proc/swaps",
    "/proc/sys/vm/swappiness",
    "/proc/sys/vm/oom_kill_allocating_task",
    "/proc/sys/vm/panic_on_oom",
    "/proc/sys/vm/overcommit_memory",
    "/proc/sys/vm/overcommit_ratio",
    "/proc/sys/vm/min_free_kbytes",
    "/proc/sys/vm/dirty_ratio",
    "/proc/sys/vm/dirty_background_ratio",
    "/proc/sys/vm/vfs_cache_pressure",
    "/proc/sys/vm/zone_reclaim_mode",
    "/sys/kernel/mm/ksm/run",
    "/sys/kernel/mm/ksm/pages_shared",
    "/sys/kernel/mm/ksm/pages_sharing",
    "/sys/kernel/mm/ksm/pages_unshared",
    "/sys/kernel/mm/ksm/full_scans",
    "/proc/sys/vm/nr_hugepages",
    "/proc/sys/vm/nr_overcommit_hugepages",
    "/proc/sys/vm/hugetlb_shm_group",
    "/proc/buddyinfo",
];

/// Inputs whose absence means the kernel lacks the feature.
pub const UNSUPPORTED_IF_MISSING: [&'static str; 1] = ["/proc/pressure/memory"];

/// One line of `/proc/meminfo`.
pub struct MeminfoEntry {
    pub key: String,
    pub value_kb: i64,
}

pub struct MeminfoView {
    pub key: Seq<char>,
    pub value_kb: int,
}

impl View for MeminfoEntry {
    type V = MeminfoView;

    open spec fn view(&self) -> MeminfoView {
        MeminfoView { key: self.key@, value_kb: self.value_kb as int }
    }
}

pub open spec fn entries_view(v: Seq<MeminfoEntry>) -> Seq<MeminfoView> {
    v.map_values(|e: MeminfoEntry| e@)
}

/// The entry of a `Key: value kB` line: the trimmed text before the first
/// colon, and the first word after it as a number (0 when it is not one);
/// `None` when the line has no colon.
pub open spec fn meminfo_line(line: Seq<char>) -> Option<MeminfoView> {
    match crate::collector::process::find_char(line, ':') {
        None => None,
        Some(i) => {
            let ws = words_of(trim(line.skip(i + 1)));
            Some(
                MeminfoView {
                    key: trim(line.take(i)),
                    value_kb: if ws.len() == 0 {
                        0
                    } else {
                        match parse_signed(ws[0], i64::MIN as int, i64::MAX as int) {
                            Some(v) => v,
                            None => 0,
                        }
                    },
                },
            )
        },
    }
}

/// The entries of the lines, in file order.
pub open spec fn meminfo_entries(ls: Seq<Seq<char>>) -> Seq<MeminfoView>
    decreases ls.len(),
{
    if ls.len() == 0 {
        seq![]
    } else {
        let prev = meminfo_entries(ls.drop_last());
        match meminfo_line(ls.last()) {
            Some(e) => prev.push(e),
            None => prev,
        }
    }
}

/// Whether `a` comes before `b` in the order of `String`: lexicographic by
/// character.
pub open spec fn key_lt(a: Seq<char>, b: Seq<char>) -> bool
    decreases a.len(),
{
    if a.len() == 0 {
        b.len() > 0
    } else if b.len() == 0 {
        false
    } else if a[0] < b[0] {
        true
    } else if a[0] > b[0] {
        false
    } else {
        key_lt(a.drop_first(), b.drop_first())
    }
}

/// `s` with `e` put before its first entry whose key is greater.
pub open spec fn insert_by_key(s: Seq<MeminfoView>, e: MeminfoView) -> Seq<MeminfoView>
    decreases s.len(),
{
    if s.len() == 0 {
        seq![e]
    } else if key_lt(e.key, s[0].key) {
        seq![e] + s
    } else {
        seq![s[0]] + insert_by_key(s.drop_first(), e)
    }
}

/// The stable sort of `s` by key.
pub open spec fn sort_by_key(s: Seq<MeminfoView>) -> Seq<MeminfoView>
    decreases s.len(),
{
    if s.len() == 0 {
        seq![]
    } else {
        insert_by_key(sort_by_key(s.drop_last()), s.last())
    }
}

/// The entries of a `/proc/meminfo` text, sorted by key.
pub open spec fn meminfo_spec(raw: Seq<char>) -> Seq<MeminfoView> {
    sort_by_key(meminfo_entries(lines_of(raw)))
}

/// Whether `a` comes before `b` in the order of `String`.
pub fn key_less(a: &[char], b: &[char]) -> (r: bool)
    ensures
        r == key_lt(a@, b@),
{
    let mut i: usize = 0;
    assert(a@.skip(0) =~= a@);
    assert(b@.skip(0) =~= b@);
    while i < a.len() && i < b.len() && a[i] == b[i]
        invariant
            i <= a@.len(),
            i <= b@.len(),
            forall|j: int| 0 <= j < i ==> a@[j] == b@[j],
            key_lt(a@, b@) == key_lt(a@.skip(i as int), b@.skip(i as int)),
        decreases a.len() - i,
    {
        assert(a@.skip(i as int).drop_first() =~= a@.skip(i + 1));
        assert(b@.skip(i as int).drop_first() =~= b@.skip(i + 1));
        i = i + 1;
    }
    let ghost sa = a@.skip(i as int);
    let ghost sb = b@.skip(i as int);
    if i == a.len() {
        assert(sa.len() == 0);
        i < b.len()
    } else if i == b.len() {
        assert(sb.len() == 0);
        false
    } else {
        assert(sa[0] == a@[i as int]);
        assert(sb[0] == b@[i as int]);
        assert(a@[i as int] != b@[i as int]);
        a[i] < b[i]
    }
}

fn meminfo_entry(line: &[char]) -> (r: Option<MeminfoEntry>)
    ensures
        match r {
            None => meminfo_line(line@) is None,
            Some(e) => meminfo_line(line@) == Some(e@),
        },
{
    let mut i: usize = 0;
    while i < line.len() && line[i] != ':'
        invariant
            i <= line@.len(),
            forall|j: int| 0 <= j < i ==> line@[j] != ':',
        decreases line.len() - i,
    {
        i = i + 1;
    }
    proof {
        crate::collector::process::lemma_find_char_pub(line@, ':', i as int);
    }
    if i == line.len() {
        return None;
    }
    let key_part = sub_chars(line, 0, i);
    let val_part = sub_chars(line, i + 1, line.len());
    assert(key_part@ =~= line@.take(i as int));
    assert(val_part@ =~= line@.skip(i + 1));
    let key = trim_chars(key_part.as_slice());
    let val = trim_chars(val_part.as_slice());
    let ws = words(val.as_slice());
    assert(seqs_of(ws@).len() == ws@.len());
    let value_kb: i64 = if ws.len() == 0 {
        0
    } else {
        assert(seqs_of(ws@)[0] == ws@[0]@);
        match parse_i64(ws[0].as_slice()) {
            Some(v) => v,
            None => 0,
        }
    };
    Some(MeminfoEntry { key: string_of(key.as_slice()), value_kb })
}

fn insert_entry(v: &mut Vec<MeminfoEntry>, e: MeminfoEntry)
    ensures
        entries_view(final(v)@) == insert_by_key(entries_view(old(v)@), e@),
{
    let ek = chars_of(e.key.as_str());
    let mut i: usize = 0;
    let ghost s = entries_view(v@);
    assert(s.skip(0) =~= s);
    assert(s.take(0) + insert_by_key(s, e@) =~= insert_by_key(s, e@));
    while i < v.len()
        invariant
            i <= v@.len(),
            v@ == old(v)@,
            s == entries_view(v@),
            ek@ == e@.key,
            insert_by_key(s, e@) == s.take(i as int) + insert_by_key(s.skip(i as int), e@),
        ensures
            i <= v@.len(),
            v@ == old(v)@,
            insert_by_key(s, e@) == s.take(i as int) + insert_by_key(s.skip(i as int), e@),
            i < v@.len() ==> key_lt(e@.key, s[i as int].key),
        decreases v.len() - i,
    {
        let k = chars_of(v[i].key.as_str());
        assert(s.skip(i as int)[0] == v@[i as int]@);
        if key_less(ek.as_slice(), k.as_slice()) {
            break;
        }
        proof {
            let t = s.skip(i as int);
            assert(t.drop_first() =~= s.skip(i + 1));
            assert(insert_by_key(t, e@) == seq![t[0]] + insert_by_key(t.drop_first(), e@));
            assert(s.take(i + 1) =~= s.take(i as int) + seq![t[0]]);
            assert(s.take(i as int) + insert_by_key(t, e@) =~= s.take(i + 1) + insert_by_key(
                s.skip(i + 1),
                e@,
            ));
        }
        i = i + 1;
    }
    proof {
        let t = s.skip(i as int);
        if i < v@.len() {
            assert(t[0] == s[i as int]);
            assert(insert_by_key(t, e@) == seq![e@] + t);
        } else {
            assert(t =~= seq![]);
        }
    }
    v.insert(i, e);
    assert(entries_view(v@) =~= s.take(i as int) + (seq![entries_view(v@)[i as int]] + s.skip(
        i as int,
    )));
}

/// The entries of `/proc/meminfo` (its trimmed contents), sorted by key.
pub fn parse_meminfo(raw: &str) -> (r: Vec<MeminfoEntry>)
    ensures
        entries_view(r@) == meminfo_spec(raw@),
        keys_sorted(entries_view(r@)),
        entries_view(r@).to_multiset() == meminfo_entries(lines_of(raw@)).to_multiset(),
{
    let c = chars_of(raw);
    let ls = lines(c.as_slice());
    let mut out: Vec<MeminfoEntry> = Vec::new();
    let ghost mut found: Seq<MeminfoView> = seq![];
    let mut i: usize = 0;
    while i < ls.len()
        invariant
            i <= ls@.len(),
            seqs_of(ls@) == lines_of(raw@),
            found == meminfo_entries(seqs_of(ls@).take(i as int)),
            entries_view(out@) == sort_by_key(found),
        decreases ls.len() - i,
    {
        let ghost t = seqs_of(ls@).take(i + 1);
        assert(t.drop_last() =~= seqs_of(ls@).take(i as int));
        assert(t.last() == ls@[i as int]@);
        match meminfo_entry(ls[i].as_slice()) {
            Some(e) => {
                let ghost ev = e@;
                insert_entry(&mut out, e);
                proof {
                    let f2 = found.push(ev);
                    assert(f2.drop_last() =~= found);
                    found = f2;
                }
            },
            None => {},
        }
        i = i + 1;
    }
    assert(seqs_of(ls@).take(i as int) =~= seqs_of(ls@));
    proof {
        lemma_meminfo_sorted(raw@);
    }
    out
}

/// Whether no entry of `t` has a key below that of an earlier entry.
pub open spec fn keys_sorted(t: Seq<MeminfoView>) -> bool {
    forall|i: int, j: int| 0 <= i < j < t.len() ==> !key_lt(#[trigger] t[j].key, #[trigger] t[i].key)
}

proof fn lemma_key_lt_irreflexive(a: Seq<char>)
    ensures
        !key_lt(a, a),
    decreases a.len(),
{
    if a.len() > 0 {
        lemma_key_lt_irreflexive(a.drop_first());
    }
}

proof fn lemma_key_lt_transitive(a: Seq<char>, b: Seq<char>, c: Seq<char>)
    requires
        key_lt(a, b),
        key_lt(b, c),
    ensures
        key_lt(a, c),
    decreases a.len(),
{
    if a.len() > 0 && b.len() > 0 && c.len() > 0 && a[0] == b[0] && b[0] == c[0] {
        lemma_key_lt_transitive(a.drop_first(), b.drop_first(), c.drop_first());
    }
}

/// Where `insert_by_key` puts `e`: after the entries whose keys are not
/// above its own, before the first whose key is.
proof fn lemma_insert_by_key_at(s: Seq<MeminfoView>, e: MeminfoView) -> (i: int)
    ensures
        0 <= i <= s.len(),
        insert_by_key(s, e) == s.insert(i, e),
        forall|m: int| 0 <= m < i ==> !key_lt(e.key, #[trigger] s[m].key),
        i < s.len() ==> key_lt(e.key, s[i].key),
    decreases s.len(),
{
    if s.len() == 0 {
        assert(seq![e] =~= s.insert(0, e));
        0
    } else if key_lt(e.key, s[0].key) {
        assert(seq![e] + s =~= s.insert(0, e));
        0
    } else {
        let t = s.drop_first();
        let j = lemma_insert_by_key_at(t, e);
        assert(seq![s[0]] + t.insert(j, e) =~= s.insert(j + 1, e));
        assert forall|m: int| 0 <= m < j + 1 implies !key_lt(e.key, #[trigger] s[m].key) by {
            if m > 0 {
                assert(s[m] == t[m - 1]);
            }
        }
        j + 1
    }
}

proof fn lemma_insert_by_key_sorted(s: Seq<MeminfoView>, e: MeminfoView)
    requires
        keys_sorted(s),
    ensures
        keys_sorted(insert_by_key(s, e)),
        insert_by_key(s, e).to_multiset() == s.to_multiset().insert(e),
{
    broadcast use vstd::seq_lib::to_multiset_insert;

    let i = lemma_insert_by_key_at(s, e);
    let r = s.insert(i, e);
    assert forall|a: int, b: int| 0 <= a < b < r.len() implies !key_lt(
        #[trigger] r[b].key,
        #[trigger] r[a].key,
    ) by {
        if b < i {
            assert(r[a] == s[a] && r[b] == s[b]);
        } else if b == i {
            assert(r[a] == s[a]);
        } else if a == i {
            assert(r[b] == s[b - 1]);
            if key_lt(s[b - 1].key, e.key) {
                lemma_key_lt_transitive(s[b - 1].key, e.key, s[i].key);
                if b - 1 == i {
                    lemma_key_lt_irreflexive(s[i].key);
                } else {
                    assert(!key_lt(s[b - 1].key, s[i].key));
                }
            }
        } else if a < i {
            assert(r[a] == s[a] && r[b] == s[b - 1]);
        } else {
            assert(r[a] == s[a - 1] && r[b] == s[b - 1]);
        }
    }
}

proof fn lemma_sort_by_key(s: Seq<MeminfoView>)
    ensures
        keys_sorted(sort_by_key(s)),
        sort_by_key(s).to_multiset() == s.to_multiset(),
    decreases s.len(),
{
    broadcast use vstd::seq_lib::to_multiset_build;

    if s.len() == 0 {
        assert(s =~= seq![]);
    } else {
        let init = s.drop_last();
        lemma_sort_by_key(init);
        lemma_insert_by_key_sorted(sort_by_key(init), s.last());
        assert(init.push(s.last()) =~= s);
    }
}

/// The parsed entries are sorted by key and are exactly the entries of the
/// lines that hold a colon, each as often as it occurs.
pub proof fn lemma_meminfo_sorted(raw: Seq<char>)
    ensures
        keys_sorted(meminfo_spec(raw)),
        meminfo_spec(raw).to_multiset() == meminfo_entries(lines_of(raw)).to_multiset(),
{
    lemma_sort_by_key(meminfo_entries(lines_of(raw)));
}

/// A size in kibibytes from a size in bytes.
pub fn kb_of_bytes(bytes: u64) -> (r: i64)
    ensures
        r == bytes / 1024,
{
    (bytes / 1024) as i64
}

/// Block devices whose names begin with this are compressed RAM disks.
pub const ZRAM_PREFIX: &'static str = "zram";

/// The files listed for each compressed RAM disk.
pub const ZRAM_FILES: [&'static str; 3] = ["disksize", "comp_algorithm", "mm_stat"];

/// Entries of the node directory whose names begin with this are NUMA nodes.
pub const NUMA_PREFIX: &'static str = "node";

/// The files listed for each NUMA node.
pub const NUMA_FILES: [&'static str; 2] = ["meminfo", "numastat"];

/// The compressed RAM disks' statistics, in the order the directory lists
/// them, each file on its device's lines; nothing when there is none.
pub fn zram_report(devices: &Vec<Section>) -> (r: Option<String>)
    ensures
        match r {
            Some(t) => sections_report(sections_view(devices@), true) == Some(t@),
            None => devices@.len() == 0,
        },
{
    render_sections(devices, true)
}

/// The NUMA nodes' statistics, sorted by node name, each file's contents on
/// the lines after its name; nothing when there is no node.
pub fn numa_report(nodes: Vec<Section>) -> (r: Option<String>)
    ensures
        match r {
            Some(t) => sections_report(sort_by_name(sections_view(nodes@)), false) == Some(t@),
            None => nodes@.len() == 0,
        },
{
    let ghost n = sections_view(nodes@);
    let sorted = sort_sections(nodes);
    proof {
        lemma_sort_by_name_len(n);
    }
    render_sections(&sorted, false)
}

proof fn lemma_sort_by_name_len(s: Seq<crate::collector::sections::SectionView>)
    ensures
        sort_by_name(s).len() == s.len(),
    decreases s.len(),
{
    if s.len() > 0 {
        lemma_sort_by_name_len(s.drop_last());
        lemma_insert_by_name_len(sort_by_name(s.drop_last()), s.last());
    }
}

proof fn lemma_insert_by_name_len(
    s: Seq<crate::collector::sections::SectionView>,
    e: crate::collector::sections::SectionView,
)
    ensures
        crate::collector::sections::insert_by_name(s, e).len() == s.len() + 1,
    decreases s.len(),
{
    if s.len() > 0 {
        lemma_insert_by_name_len(s.drop_first(), e);
    }
}

/// The zswap summary: the pool size and the number of stored pages, each
/// trimmed (the latter empty when it could not be read); nothing when the
/// pool size could not be read.
pub open spec fn zswap_spec(pool: Option<Seq<char>>, stored: Option<Seq<char>>) -> Option<
    Seq<char>,
> {
    match pool {
        None => None,
        Some(p) => Some(
            "pool_total_size: "@ + trim(p) + "\nstored_pages: "@ + match stored {
                Some(s) => trim(s),
                None => seq![],
            },
        ),
    }
}

/// The zswap summary from the contents of its two files.
pub fn zswap_report(pool: &Option<String>, stored: &Option<String>) -> (r: Option<String>)
    ensures
        match r {
            Some(t) => zswap_spec(
                crate::collector::process::opt_view(*pool),
                crate::collector::process::opt_view(*stored),
            ) == Some(t@),
            None => pool is None,
        },
{
    match pool {
        None => None,
        Some(p) => {
            let mut out = chars_of("pool_total_size: ");
            let pc = chars_of(p.as_str());
            let pt = trim_chars(pc.as_slice());
            extend_chars(&mut out, pt.as_slice());
            let mid = chars_of("\nstored_pages: ");
            extend_chars(&mut out, mid.as_slice());
            match stored {
                Some(s) => {
                    let sc = chars_of(s.as_str());
                    let st = trim_chars(sc.as_slice());
                    extend_chars(&mut out, st.as_slice());
                },
                None => {},
            }
            let r = string_of(out.as_slice());
            assert(r@ =~= zswap_spec(
                crate::collector::process::opt_view(*pool),
                crate::collector::process::opt_view(*stored),
            )->0);
            Some(r)
        },
    }
}

impl Memory {
    /// Which of the memory files exist under `roots`.
    pub fn probe(&self, roots: &FsRoots) -> (r: ProbeOutcome)
        ensures
            probe_post(r, *roots, str_views(FILES@), "all memory files missing"@),
    {
        probe_files(roots, FILES.as_slice(), "all memory files missing")
    }

    /// The status after the record was written, given what the probe found missing.
    pub fn status(&self, degraded: &Vec<String>) -> (r: CollectionStatus)
        ensures
            r@ == status_with_unsupported_spec(
                strings_view(degraded@),
                str_views(UNSUPPORTED_IF_MISSING@),
            ),
    {
        status_with_unsupported(degraded, UNSUPPORTED_IF_MISSING.as_slice())
    }
}

} // verus!
