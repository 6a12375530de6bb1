//! RT-13: packet filtering and traffic control.
use vstd::prelude::*;

use crate::collector::{
    CollectionStatus, ProbeOutcome, StatusView, degraded_status, probe_files, probe_post, str_views, strings_view,
};
use crate::fs::FsRoots;

verus! {

/// The RT-13 collector.
pub struct Netfilter;

/// The files that RT-13 reads, in the order its record uses them.
pub const FILES: [&'static str; 10] = [
    "/proc/net/nf_conntrack",
    "/proc/net/stat/nf_conntrack",
    "/proc/sys/net/nf_conntrack_max",
    "/proc/net/nf_tables_names",
    "/proc/net/xfrm_stat",
    "/proc/net/ip_tables_names",
    "/proc/net/ip6_tables_names",
    "/proc/net/arp_tables_names",
    "/proc/net/ip_tables_matches",
    "/proc/net/ip_tables_targets",
];

/// The most queueing disciplines that the record lists.
pub const MAX_QDISCS: usize = 100;

impl Netfilter {
    /// Which of the RT-13 files exist under `roots`.
    pub fn probe(&self, roots: &FsRoots) -> (r: ProbeOutcome)
        ensures
            probe_post(r, *roots, str_views(FILES@), "all netfilter files missing"@),
    {
        probe_files(roots, FILES.as_slice(), "all netfilter files missing")
    }

    /// The status after the record was written: `Degraded` when the probe
    /// found inputs missing.
    pub fn status(&self, degraded: &Vec<String>) -> (r: CollectionStatus)
        ensures
            r@ == if degraded@.len() == 0 {
                StatusView::Complete
            } else {
                StatusView::Degraded(strings_view(degraded@))
            },
    {
        degraded_status(degraded)
    }
}

} // verus!
