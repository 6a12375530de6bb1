//! RT-09: VFS and mounts.
use vstd::prelude::*;

use crate::collector::{
    CollectionStatus, ProbeOutcome, StatusView, degraded_status, probe_files, probe_post, str_views, strings_view,
};
use crate::fs::FsRoots;

verus! {

/// The RT-09 collector.
pub struct Mount;

/// The files that RT-09 reads, in the order its record uses them.
pub const FILES: [&'static str; 6] = [
    "/proc/self/mountinfo",
    "/proc/self/mounts",
    "/proc/self/mountstats",
    "/proc/filesystems",
    "/sys/fs/ext4/features",
    "/proc/sys/fs/suid_dumpable",
];

impl Mount {
    /// Which of the RT-09 files exist under `roots`.
    pub fn probe(&self, roots: &FsRoots) -> (r: ProbeOutcome)
        ensures
            probe_post(r, *roots, str_views(FILES@), "all mount files missing"@),
    {
        probe_files(roots, FILES.as_slice(), "all mount files missing")
    }

    /// The status after the record was written: `Degraded` when the probe
    /// found inputs missing.
    pub fn status(&self, degraded: &Vec<String>) -> (r: CollectionStatus)
        ensures
            r@ == if degraded@.len() == 0 {
                StatusView::Complete
            } else {
                StatusView::Degraded(strings_view(degraded@))
            },
    {
        degraded_status(degraded)
    }
}

} // verus!
