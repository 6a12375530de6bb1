//! RT-01: boot identity.
use vstd::prelude::*;

use crate::collector::{
    CollectionStatus, ProbeOutcome, StatusView, partial_status, probe_files, probe_post, str_views, strings_view,
};
use crate::fs::FsRoots;

verus! {

/// The RT-01 collector.
pub struct Boot;

/// The files that RT-01 reads, in the order its record uses them.
pub const FILES: [&'static str; 6] = [
    "/proc/sys/kernel/random/boot_id",
    "/proc/uptime",
    "/proc/version",
    "/proc/cmdline",
    "/proc/sys/kernel/hostname",
    "/proc/sys/kernel/domainname",
];

impl Boot {
    /// Which of the RT-01 files exist under `roots`.
    pub fn probe(&self, roots: &FsRoots) -> (r: ProbeOutcome)
        ensures
            probe_post(r, *roots, str_views(FILES@), "all boot identity files missing"@),
    {
        probe_files(roots, FILES.as_slice(), "all boot identity files missing")
    }

    /// The status after the record was written: `Partial` when the probe
    /// found inputs missing.
    pub fn status(&self, degraded: &Vec<String>) -> (r: CollectionStatus)
        ensures
            r@ == if degraded@.len() == 0 {
                StatusView::Complete
            } else {
                StatusView::Partial(strings_view(degraded@))
            },
    {
        partial_status(degraded)
    }
}

} // verus!
