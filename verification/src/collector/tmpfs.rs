//! RT-08: tmpfs mounts and the runtime directories they hold.
use vstd::prelude::*;

use crate::collector::{
    CollectionStatus, ProbeOutcome, StatusView, partial_status, probe_from_presence, probe_verdict,
    probe_view, str_views, strings_view,
};
use crate::fs::FsRoots;
use crate::text::{chars_of, string_of};

verus! {

/// The RT-08 collector.
pub struct Tmpfs;

/// The mount table, without which RT-08 cannot run.
pub const MOUNTS_FILE: &'static str = "/proc/mounts";

/// The runtime directories whose entries RT-08 counts.
pub const RUNTIME_DIRS: [&'static str; 3] = ["/run", "/dev/shm", "/tmp"];

/// Why RT-08 cannot run without its mount table.
pub const NO_MOUNTS_REASON: &'static str = "all tmpfs files missing";

/// Why RT-08 cannot run without any of its runtime directories.
pub const NO_DIRS_REASON: &'static str = "all tmpfs runtime dirs missing";

/// The probe verdict of RT-08: the mount table must exist, and then the
/// runtime directories decide as for any collector.
pub open spec fn tmpfs_verdict(mounts_exists: bool, present: Seq<bool>) -> (
    bool,
    Seq<Seq<char>>,
    Option<Seq<char>>,
) {
    if !mounts_exists {
        (false, seq![], Some(NO_MOUNTS_REASON@))
    } else {
        probe_verdict(str_views(RUNTIME_DIRS@), present, NO_DIRS_REASON@)
    }
}

/// The total number of entries of the runtime directories that could be
/// listed, or nothing when none could.
pub open spec fn total_spec(run: Option<u64>, shm: Option<u64>, tmp: Option<u64>) -> Option<int> {
    if run is None && shm is None && tmp is None {
        None
    } else {
        Some(run.unwrap_or(0) + shm.unwrap_or(0) + tmp.unwrap_or(0))
    }
}

/// Each directory that could be listed adds its whole count to the total,
/// and one that could not adds nothing: adding a listed directory's count
/// to a total raises it by exactly that count.
pub proof fn lemma_total_adds_each_directory(run: Option<u64>, shm: Option<u64>, tmp: Option<u64>)
    ensures
        total_spec(run, shm, tmp) is Some ==> total_spec(run, shm, tmp)->0 == total_spec(run, None, None).unwrap_or(0)
            + total_spec(None, shm, None).unwrap_or(0) + total_spec(None, None, tmp).unwrap_or(0),
        forall|n: u64| #[trigger] total_spec(Some(n), None, None) == Some(n as int),
        forall|n: u64| #[trigger] total_spec(None, Some(n), None) == Some(n as int),
        forall|n: u64| #[trigger] total_spec(None, None, Some(n)) == Some(n as int),
{
}

/// The total of the entry counts of the runtime directories: when any could
/// be listed, the sum of all three counts with the unlisted ones as 0.
pub fn total_entries(run: Option<u64>, shm: Option<u64>, tmp: Option<u64>) -> (r: Option<u64>)
    requires
        run.unwrap_or(0) + shm.unwrap_or(0) + tmp.unwrap_or(0) <= u64::MAX,
    ensures
        match r {
            Some(t) => total_spec(run, shm, tmp) == Some(t as int),
            None => total_spec(run, shm, tmp) is None,
        },
        r is None <==> (run is None && shm is None && tmp is None),
        r is Some ==> r->0 == (match run {
            Some(a) => a as int,
            None => 0int,
        }) + (match shm {
            Some(b) => b as int,
            None => 0int,
        }) + (match tmp {
            Some(c) => c as int,
            None => 0int,
        }),
{
    match (run, shm, tmp) {
        (None, None, None) => None,
        _ => Some(run.unwrap_or(0) + shm.unwrap_or(0) + tmp.unwrap_or(0)),
    }
}

impl Tmpfs {
    /// Decides the probe from whether the mount table exists and which of
    /// the runtime directories do.
    pub fn probe_from(&self, mounts_exists: bool, present: &[bool], roots: &FsRoots) -> (r:
        ProbeOutcome)
        requires
            present@.len() == RUNTIME_DIRS@.len(),
        ensures
            probe_view(r) == tmpfs_verdict(mounts_exists, present@),
            r.roots@ == roots@,
    {
        if !mounts_exists {
            return ProbeOutcome {
                available: false,
                degraded: Vec::new(),
                reason: Some(string_of(chars_of(NO_MOUNTS_REASON).as_slice())),
                roots: roots.clone(),
            };
        }
        probe_from_presence(RUNTIME_DIRS.as_slice(), present, NO_DIRS_REASON, roots.clone())
    }

    /// Which RT-08 inputs exist under `roots`.
    pub fn probe(&self, roots: &FsRoots) -> (r: ProbeOutcome)
        ensures
            exists|m: bool, p: Seq<bool>|
                p.len() == RUNTIME_DIRS@.len() && #[trigger] tmpfs_verdict(m, p) == probe_view(r),
            r.roots@ == roots@,
    {
        let mounts_exists = roots.exists_at(MOUNTS_FILE);
        let mut present: Vec<bool> = Vec::new();
        let mut i: usize = 0;
        while i < RUNTIME_DIRS.len()
            invariant
                i <= RUNTIME_DIRS@.len(),
                present@.len() == i,
            decreases RUNTIME_DIRS.len() - i,
        {
            present.push(roots.exists_at(RUNTIME_DIRS[i]));
            i = i + 1;
        }
        let r = self.probe_from(mounts_exists, present.as_slice(), roots);
        assert(tmpfs_verdict(mounts_exists, present@) == probe_view(r));
        r
    }

    /// The status after the record was written, given what the probe found
    /// missing.
    pub fn status(&self, degraded: &Vec<String>) -> (r: CollectionStatus)
        ensures
            r@ == if degraded@.len() == 0 {
                StatusView::Complete
            } else {
                StatusView::Partial(strings_view(degraded@))
            },
    {
        partial_status(degraded)
    }
}

} // verus!
