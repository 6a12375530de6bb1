//! RT-16: security policy and credentials.
use vstd::prelude::*;

use crate::collector::{
    CollectionStatus, ProbeOutcome, StatusView, degraded_status, probe_files, probe_post, str_views, strings_view,
};
use crate::fs::FsRoots;

verus! {

/// The RT-16 collector.
pub struct Security;

/// The files that RT-16 reads, in the order its record uses them.
pub const FILES: [&'static str; 21] = [
    "/proc/sys/kernel/random/entropy_avail",
    "/proc/sys/kernel/random/poolsize",
    "/proc/sys/kernel/random/read_wakeup_threshold",
    "/proc/sys/kernel/random/urandom_min_reseed_secs",
    "/proc/sys/kernel/cap_last_cap",
    "/proc/sys/kernel/seccomp/actions_avail",
    "/proc/sys/kernel/seccomp/actions_logged",
    "/proc/sys/kernel/audit_backlog_limit",
    "/proc/sys/kernel/audit_backlog_wait_time",
    "/sys/kernel/security/ima/policy",
    "/sys/kernel/security/lsm",
    "/sys/kernel/security/lockdown",
    "/proc/sys/crypto/fips_enabled",
    "/proc/sys/net/ipv4/ip_forward",
    "/proc/sys/net/ipv6/conf/all/forwarding",
    "/proc/sys/net/ipv4/conf/all/rp_filter",
    "/proc/sys/net/ipv4/tcp_syncookies",
    "/proc/sys/net/ipv4/conf/all/accept_redirects",
    "/proc/sys/net/ipv4/conf/all/send_redirects",
    "/proc/sys/net/ipv4/conf/all/secure_redirects",
    "/proc/sys/net/ipv4/conf/all/log_martians",
];

impl Security {
    /// Which of the RT-16 files exist under `roots`.
    pub fn probe(&self, roots: &FsRoots) -> (r: ProbeOutcome)
        ensures
            probe_post(r, *roots, str_views(FILES@), "all security files missing"@),
    {
        probe_files(roots, FILES.as_slice(), "all security files missing")
    }

    /// The status after the record was written: `Degraded` when the probe
    /// found inputs missing.
    pub fn status(&self, degraded: &Vec<String>) -> (r: CollectionStatus)
        ensures
            r@ == if degraded@.len() == 0 {
                StatusView::Complete
            } else {
                StatusView::Degraded(strings_view(degraded@))
            },
    {
        degraded_status(degraded)
    }
}

} // verus!
