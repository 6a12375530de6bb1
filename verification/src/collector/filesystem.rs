//! RT-22: disk forensics: capacity of each real mount, of critical
//! directories, and the block devices with their filesystem ids.
use vstd::prelude::*;

use crate::collector::{
    partial_status, str_views, strings_view, CollectionStatus, ProbeOutcome, StatusView,
};
use crate::fs::FsRoots;
use crate::text::{chars_of, lines, lines_of, seqs_of, starts_with, string_of, sub_chars, words, words_of};

verus! {

/// The RT-22 collector.
pub struct Filesystem;

/// Filesystem types whose mounts hold no disk capacity.
pub const PSEUDO_FS: [&'static str; 17] = [
    "proc",
    "sysfs",
    "devtmpfs",
    "devpts",
    "tmpfs",
    "cgroup",
    "cgroup2",
    "pstore",
    "bpf",
    "debugfs",
    "tracefs",
    "securityfs",
    "configfs",
    "hugetlbfs",
    "mqueue",
    "fusectl",
    "selinuxfs",
];

/// The directories whose capacity is recorded.
pub const CRITICAL_DIRS: [&'static str; 4] = [
    "/var/log",
    "/var/lib/containerd",
    "/var/lib/docker",
    "/var/lib/kubelet",
];

/// The most block devices recorded.
pub const MAX_BLOCK_DEVICES: usize = 50;

/// The device, mount point and type of a `/proc/mounts` line: its first three
/// words, when it has three.
pub open spec fn mount_line_spec(line: Seq<char>) -> Option<(Seq<char>, Seq<char>, Seq<char>)> {
    let ws = words_of(line);
    if ws.len() < 3 {
        None
    } else {
        Some((ws[0], ws[1], ws[2]))
    }
}

/// The device, mount point and filesystem type of a `/proc/mounts` line.
pub fn mount_line(line: &str) -> (r: Option<(String, String, String)>)
    ensures
        match r {
            None => mount_line_spec(line@) is None,
            Some((d, m, t)) => mount_line_spec(line@) == Some((d@, m@, t@)),
        },
{
    let c = chars_of(line);
    let ws = words(c.as_slice());
    assert(seqs_of(ws@).len() == ws@.len());
    if ws.len() < 3 {
        return None;
    }
    assert(seqs_of(ws@)[0] == ws@[0]@);
    assert(seqs_of(ws@)[1] == ws@[1]@);
    assert(seqs_of(ws@)[2] == ws@[2]@);
    Some((string_of(ws[0].as_slice()), string_of(ws[1].as_slice()), string_of(ws[2].as_slice())))
}

/// Whether a mount of this type is left out of the capacity list.
pub fn is_pseudo_fs(fs_type: &str) -> (r: bool)
    ensures
        r == str_views(PSEUDO_FS@).contains(fs_type@),
{
    let c = chars_of(fs_type);
    let mut i: usize = 0;
    while i < PSEUDO_FS.len()
        invariant
            i <= PSEUDO_FS@.len(),
            c@ == fs_type@,
            forall|j: int| 0 <= j < i ==> PSEUDO_FS@[j]@ != fs_type@,
        decreases PSEUDO_FS.len() - i,
    {
        let p = chars_of(PSEUDO_FS[i]);
        if crate::text::chars_eq(p.as_slice(), c.as_slice()) {
            assert(str_views(PSEUDO_FS@)[i as int] == fs_type@);
            return true;
        }
        i = i + 1;
    }
    proof {
        if str_views(PSEUDO_FS@).contains(fs_type@) {
            let w = choose|w: int|
                0 <= w < str_views(PSEUDO_FS@).len() && str_views(PSEUDO_FS@)[w] == fs_type@;
            assert(PSEUDO_FS@[w]@ == fs_type@);
        }
    }
    false
}

/// The mounts whose capacity is measured: those of the lines of
/// `/proc/mounts` that name a device, a mount point and a type, skipping the
/// pseudo filesystems, in file order.
pub open spec fn disk_mounts_spec(ls: Seq<Seq<char>>) -> Seq<(Seq<char>, Seq<char>, Seq<char>)>
    decreases ls.len(),
{
    if ls.len() == 0 {
        seq![]
    } else {
        let prev = disk_mounts_spec(ls.drop_last());
        match mount_line_spec(ls.last()) {
            Some(m) => if str_views(PSEUDO_FS@).contains(m.2) {
                prev
            } else {
                prev.push(m)
            },
            None => prev,
        }
    }
}

pub open spec fn triples_view(v: Seq<(String, String, String)>) -> Seq<(Seq<char>, Seq<char>, Seq<char>)> {
    v.map_values(|t: (String, String, String)| (t.0@, t.1@, t.2@))
}

/// The mounts of a `/proc/mounts` text whose capacity is measured.
pub fn disk_mounts(raw: &str) -> (r: Vec<(String, String, String)>)
    ensures
        triples_view(r@) == disk_mounts_spec(lines_of(raw@)),
{
    let c = chars_of(raw);
    let ls = lines(c.as_slice());
    let mut out: Vec<(String, String, String)> = Vec::new();
    let mut i: usize = 0;
    while i < ls.len()
        invariant
            i <= ls@.len(),
            seqs_of(ls@) == lines_of(raw@),
            triples_view(out@) == disk_mounts_spec(seqs_of(ls@).take(i as int)),
        decreases ls.len() - i,
    {
        let ghost t = seqs_of(ls@).take(i + 1);
        assert(t.drop_last() =~= seqs_of(ls@).take(i as int));
        assert(t.last() == ls@[i as int]@);
        let line = string_of(ls[i].as_slice());
        match mount_line(line.as_str()) {
            Some((d, m, ty)) => {
                if !is_pseudo_fs(ty.as_str()) {
                    let ghost prev = triples_view(out@);
                    let ghost tv = (d@, m@, ty@);
                    out.push((d, m, ty));
                    assert(triples_view(out@) =~= prev.push(tv));
                }
            },
            None => {},
        }
        i = i + 1;
    }
    assert(seqs_of(ls@).take(i as int) =~= seqs_of(ls@));
    out
}

/// `a * b`, or the largest `u64` when the product does not fit.
pub open spec fn sat_mul(a: u64, b: u64) -> u64 {
    if a * b > u64::MAX {
        u64::MAX
    } else {
        (a * b) as u64
    }
}

/// `a - b`, or 0 when `b` is larger.
pub open spec fn sat_sub(a: u64, b: u64) -> u64 {
    if a < b {
        0
    } else {
        (a - b) as u64
    }
}

fn saturating_mul(a: u64, b: u64) -> (r: u64)
    ensures
        r == sat_mul(a, b),
{
    match a.checked_mul(b) {
        Some(v) => v,
        None => u64::MAX,
    }
}

/// The capacity of a filesystem from its `statvfs` counters: total, used and
/// available bytes, total and used inodes; products saturate, differences
/// stop at zero.
pub fn capacity(blocks: u64, block_size: u64, avail_blocks: u64, files: u64, free_files: u64) -> (r:
    (u64, u64, u64, u64, u64))
    ensures
        r.0 == sat_mul(blocks, block_size),
        r.2 == sat_mul(avail_blocks, block_size),
        r.1 == sat_sub(r.0, r.2),
        r.3 == files,
        r.4 == sat_sub(files, free_files),
{
    let total = saturating_mul(blocks, block_size);
    let avail = saturating_mul(avail_blocks, block_size);
    let used = total.saturating_sub(avail);
    let used_inodes = files.saturating_sub(free_files);
    (total, used, avail, files, used_inodes)
}

/// `s` with every leading repetition of `pre` removed (`trim_start_matches`).
pub open spec fn strip_all(s: Seq<char>, pre: Seq<char>) -> Seq<char>
    decreases s.len(),
{
    if pre.len() > 0 && pre.len() <= s.len() && s.take(pre.len() as int) == pre {
        strip_all(s.skip(pre.len() as int), pre)
    } else {
        s
    }
}

pub open spec fn uuid_key() -> Seq<char> {
    seq!['I', 'D', '_', 'F', 'S', '_', 'U', 'U', 'I', 'D', '=']
}

pub open spec fn label_key() -> Seq<char> {
    seq!['I', 'D', '_', 'F', 'S', '_', 'L', 'A', 'B', 'E', 'L', '=']
}

pub open spec fn has_prefix(s: Seq<char>, pre: Seq<char>) -> bool {
    pre.len() <= s.len() && s.take(pre.len() as int) == pre
}

/// The filesystem UUID and label of a device's `uevent` lines: the value of
/// the last `ID_FS_UUID=` and of the last `ID_FS_LABEL=` line.
pub open spec fn fs_ids_spec(ls: Seq<Seq<char>>) -> (Option<Seq<char>>, Option<Seq<char>>)
    decreases ls.len(),
{
    if ls.len() == 0 {
        (None, None)
    } else {
        let prev = fs_ids_spec(ls.drop_last());
        let l = ls.last();
        if has_prefix(l, uuid_key()) {
            (Some(strip_all(l, uuid_key())), prev.1)
        } else if has_prefix(l, label_key()) {
            (prev.0, Some(strip_all(l, label_key())))
        } else {
            prev
        }
    }
}

fn strip_all_exec(s: &[char], pre: &[char]) -> (r: Vec<char>)
    requires
        pre@.len() > 0,
    ensures
        r@ == strip_all(s@, pre@),
{
    let mut cur = sub_chars(s, 0, s.len());
    assert(cur@ =~= s@);
    while starts_with(cur.as_slice(), pre)
        invariant
            pre@.len() > 0,
            strip_all(cur@, pre@) == strip_all(s@, pre@),
        decreases cur@.len(),
    {
        let next = sub_chars(cur.as_slice(), pre.len(), cur.len());
        assert(next@ =~= cur@.skip(pre@.len() as int));
        cur = next;
    }
    cur
}

pub open spec fn opt_str(o: Option<String>) -> Option<Seq<char>> {
    match o {
        Some(s) => Some(s@),
        None => None,
    }
}

/// The filesystem UUID and label in the contents of a device's `uevent` file.
pub fn fs_ids(uevent: &str) -> (r: (Option<String>, Option<String>))
    ensures
        (opt_str(r.0), opt_str(r.1)) == fs_ids_spec(lines_of(uevent@)),
{
    let c = chars_of(uevent);
    let ls = lines(c.as_slice());
    let uk: [char; 11] = ['I', 'D', '_', 'F', 'S', '_', 'U', 'U', 'I', 'D', '='];
    let lk: [char; 12] = ['I', 'D', '_', 'F', 'S', '_', 'L', 'A', 'B', 'E', 'L', '='];
    assert(uk@ =~= uuid_key());
    assert(lk@ =~= label_key());
    let mut uuid: Option<String> = None;
    let mut label: Option<String> = None;
    let mut i: usize = 0;
    while i < ls.len()
        invariant
            i <= ls@.len(),
            uk@ == uuid_key(),
            lk@ == label_key(),
            seqs_of(ls@) == lines_of(uevent@),
            (opt_str(uuid), opt_str(label)) == fs_ids_spec(seqs_of(ls@).take(i as int)),
        decreases ls.len() - i,
    {
        let ghost t = seqs_of(ls@).take(i + 1);
        assert(t.drop_last() =~= seqs_of(ls@).take(i as int));
        assert(t.last() == ls@[i as int]@);
        let l = ls[i].as_slice();
        if starts_with(l, uk.as_slice()) {
            uuid = Some(string_of(strip_all_exec(l, uk.as_slice()).as_slice()));
        } else if starts_with(l, lk.as_slice()) {
            label = Some(string_of(strip_all_exec(l, lk.as_slice()).as_slice()));
        }
        i = i + 1;
    }
    assert(seqs_of(ls@).take(i as int) =~= seqs_of(ls@));
    (uuid, label)
}

impl Filesystem {
    /// The filesystem collector needs no particular file: it can always run.
    pub fn probe(&self, roots: &FsRoots) -> (r: ProbeOutcome)
        ensures
            r.available,
            r.degraded@.len() == 0,
            r.reason is None,
            r.roots@ == roots@,
    {
        ProbeOutcome { available: true, degraded: Vec::new(), reason: None, roots: roots.clone() }
    }

    /// The status after the record was written.
    pub fn status(&self, degraded: &Vec<String>) -> (r: CollectionStatus)
        ensures
            r@ == if degraded@.len() == 0 {
                StatusView::Complete
            } else {
                StatusView::Partial(strings_view(degraded@))
            },
    {
        partial_status(degraded)
    }
}

} // verus!
