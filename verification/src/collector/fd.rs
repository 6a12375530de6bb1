//! RT-07: open handles and kernel references.
use vstd::prelude::*;

use crate::collector::{
    CollectionStatus, ProbeOutcome, probe_files, probe_post, status_with_unsupported, status_with_unsupported_spec, str_views, strings_view,
};
use crate::fs::FsRoots;

verus! {

/// The RT-07 collector.
pub struct Fd;

/// The files that RT-07 reads, in the order its record uses them.
pub const FILES: [&'static str; 7] = [
    "/proc/sys/fs/file-nr",
    "/proc/sys/fs/file-max",
    "/proc/sys/fs/inode-nr",
    "/proc/sys/fs/inode-max",
    "/proc/sys/fs/nr_open",
    "/proc/sys/kernel/pid_max",
    "/proc/locks",
];

/// Inputs whose absence means the kernel lacks the feature.
pub const UNSUPPORTED_IF_MISSING: [&'static str; 1] = [
    "/proc/sys/fs/inode-max",
];

impl Fd {
    /// Which of the RT-07 files exist under `roots`.
    pub fn probe(&self, roots: &FsRoots) -> (r: ProbeOutcome)
        ensures
            probe_post(r, *roots, str_views(FILES@), "all fd files missing"@),
    {
        probe_files(roots, FILES.as_slice(), "all fd files missing")
    }

    /// The status after the record was written, given what the probe found missing.
    pub fn status(&self, degraded: &Vec<String>) -> (r: CollectionStatus)
        ensures
            r@ == status_with_unsupported_spec(
                strings_view(degraded@),
                str_views(UNSUPPORTED_IF_MISSING@),
            ),
    {
        status_with_unsupported(degraded, UNSUPPORTED_IF_MISSING.as_slice())
    }
}

} // verus!
