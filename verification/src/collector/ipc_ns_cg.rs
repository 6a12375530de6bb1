//! RT-14: IPC, namespaces and cgroups.
use vstd::prelude::*;

use crate::collector::{
    CollectionStatus, ProbeOutcome, StatusView, partial_status, probe_files, probe_post, str_views, strings_view,
};
use crate::collector::{join_strings, seq_join};
use crate::fs::FsRoots;
use crate::text::{chars_of, lines, lines_of, seqs_of, string_of};

verus! {

/// The RT-14 collector.
pub struct IpcNsCg;

/// The files that RT-14 reads, in the order its record uses them.
pub const FILES: [&'static str; 7] = [
    "/proc/cgroups",
    "/proc/sysvipc/msg",
    "/proc/sysvipc/sem",
    "/proc/sysvipc/shm",
    "/proc/sys/fs/mqueue/queues_max",
    "/proc/sys/fs/mqueue/msg_max",
    "/proc/sys/fs/mqueue/msgsize_max",
];

/// The most cgroup entries recorded per hierarchy version.
pub const MAX_CGROUP_ENTRIES: usize = 50;

/// How deep below the cgroup root the walk goes.
pub const MAX_CGROUP_DEPTH: u32 = 2;

/// Whether the cgroup walk visits a directory at `depth` when `count`
/// entries are already recorded.
pub fn walk_visits(depth: u32, count: usize) -> (r: bool)
    ensures
        r == (depth <= MAX_CGROUP_DEPTH && count < MAX_CGROUP_ENTRIES),
{
    depth <= MAX_CGROUP_DEPTH && count < MAX_CGROUP_ENTRIES
}

/// The number of lines of a file such as `cgroup.procs`.
pub fn count_lines(s: &str) -> (r: usize)
    ensures
        r == lines_of(s@).len(),
{
    let c = chars_of(s);
    let ls = lines(c.as_slice());
    assert(seqs_of(ls@).len() == ls@.len());
    ls.len()
}

/// The first line of a file such as `cpu.pressure` (empty when it has none).
pub fn first_line(s: &str) -> (r: String)
    ensures
        r@ == if lines_of(s@).len() == 0 {
            Seq::<char>::empty()
        } else {
            lines_of(s@)[0]
        },
{
    let c = chars_of(s);
    let ls = lines(c.as_slice());
    assert(seqs_of(ls@).len() == ls@.len());
    if ls.len() == 0 {
        String::new()
    } else {
        assert(seqs_of(ls@)[0] == ls@[0]@);
        string_of(ls[0].as_slice())
    }
}

/// The first `n` lines of a file such as `memory.events`, joined by newlines.
pub fn first_n_lines(s: &str, n: usize) -> (r: String)
    ensures
        r@ == seq_join(
            lines_of(s@).take(
                if n <= lines_of(s@).len() {
                    n as int
                } else {
                    lines_of(s@).len() as int
                },
            ),
            seq!['\n'],
        ),
{
    let c = chars_of(s);
    let ls = lines(c.as_slice());
    assert(seqs_of(ls@).len() == ls@.len());
    let end = if n <= ls.len() {
        n
    } else {
        ls.len()
    };
    let mut picked: Vec<String> = Vec::new();
    let mut i: usize = 0;
    while i < end
        invariant
            i <= end <= ls@.len(),
            crate::collector::strings_view(picked@) == seqs_of(ls@).take(i as int),
        decreases end - i,
    {
        let ghost prev = crate::collector::strings_view(picked@);
        picked.push(string_of(ls[i].as_slice()));
        assert(crate::collector::strings_view(picked@) =~= prev.push(ls@[i as int]@));
        assert(seqs_of(ls@)[i as int] == ls@[i as int]@);
        assert(seqs_of(ls@).take(i + 1) =~= seqs_of(ls@).take(i as int).push(ls@[i as int]@));
        i = i + 1;
    }
    let nl: [char; 1] = ['\n'];
    assert(nl@ =~= seq!['\n']);
    let sep = string_of(nl.as_slice());
    join_strings(&picked, sep.as_str())
}

/// The path recorded for a cgroup v2 directory at `rel` below the root.
pub fn cgroup_v2_path(rel: &str) -> (r: String)
    ensures
        r@ == seq!['/'] + rel@,
{
    let slash: [char; 1] = ['/'];
    let s = string_of(slash.as_slice());
    assert(slash@ =~= seq!['/']);
    s.concat(rel)
}

/// The path below the root of a child directory `name` of `rel`.
pub fn cgroup_child_rel(rel: &str, name: &str) -> (r: String)
    ensures
        r@ == if rel@.len() == 0 {
            name@
        } else {
            rel@ + seq!['/'] + name@
        },
{
    if rel.is_empty() {
        String::from_str(name)
    } else {
        let slash: [char; 1] = ['/'];
        assert(slash@ =~= seq!['/']);
        let s = String::from_str(rel);
        let s = s.concat(string_of(slash.as_slice()).as_str());
        s.concat(name)
    }
}

impl IpcNsCg {
    /// Which of the RT-14 files exist under `roots`.
    pub fn probe(&self, roots: &FsRoots) -> (r: ProbeOutcome)
        ensures
            probe_post(r, *roots, str_views(FILES@), "all ipc/ns/cg files missing"@),
    {
        probe_files(roots, FILES.as_slice(), "all ipc/ns/cg files missing")
    }

    /// The status after the record was written: `Partial` when the probe
    /// found inputs missing.
    pub fn status(&self, degraded: &Vec<String>) -> (r: CollectionStatus)
        ensures
            r@ == if degraded@.len() == 0 {
                StatusView::Complete
            } else {
                StatusView::Partial(strings_view(degraded@))
            },
    {
        partial_status(degraded)
    }
}

} // verus!
