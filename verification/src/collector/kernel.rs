//! RT-02: kernel state and parameters.
use vstd::prelude::*;

use crate::collector::{
    CollectionStatus, ProbeOutcome, probe_files, probe_post, status_with_unsupported, status_with_unsupported_spec, str_views, strings_view,
};
use crate::fs::FsRoots;
use crate::text::{decimal, decimal_chars, extend_chars, string_of};

verus! {

/// The RT-02 collector.
pub struct Kernel;

/// The files that RT-02 reads, in the order its record uses them.
pub const FILES: [&'static str; 20] = [
    "/proc/sys/kernel/ostype",
    "/proc/sys/kernel/osrelease",
    "/proc/modules",
    "/proc/sys/kernel/tainted",
    "/proc/sys/kernel/core_pattern",
    "/proc/sys/kernel/panic",
    "/proc/sys/kernel/printk",
    "/proc/sys/kernel/watchdog",
    "/proc/sys/kernel/soft_watchdog",
    "/proc/sys/kernel/nmi_watchdog",
    "/proc/sys/kernel/kexec_load_disabled",
    "/proc/sys/kernel/hung_task_panic",
    "/proc/sys/kernel/hung_task_timeout_secs",
    "/proc/sys/kernel/hung_task_check_interval_secs",
    "/proc/sys/kernel/sysrq",
    "/proc/sys/kernel/panic_on_oops",
    "/proc/sys/kernel/unknown_nmi_panic",
    "/sys/kernel/kexec_crash_loaded",
    "/sys/kernel/kexec_crash_size",
    "/sys/kernel/livepatch",
];

/// Inputs whose absence means the kernel lacks the feature.
pub const UNSUPPORTED_IF_MISSING: [&'static str; 1] = [
    "/proc/sys/kernel/hung_task_check_interval_secs",
];

/// What the `livepatch` field records: `present:<n>` with the number of
/// entries of `/sys/kernel/livepatch` when it can be listed, else `absent`.
pub open spec fn livepatch_spec(count: Option<u64>) -> Seq<char> {
    match count {
        Some(n) => seq!['p', 'r', 'e', 's', 'e', 'n', 't', ':'] + decimal(n as nat),
        None => seq!['a', 'b', 's', 'e', 'n', 't'],
    }
}

/// The `livepatch` field from the number of live patches, if they could be listed.
pub fn livepatch_text(count: Option<u64>) -> (r: String)
    ensures
        r@ == livepatch_spec(count),
{
    match count {
        Some(n) => {
            let p: [char; 8] = ['p', 'r', 'e', 's', 'e', 'n', 't', ':'];
            let mut v: Vec<char> = Vec::new();
            extend_chars(&mut v, p.as_slice());
            let d = decimal_chars(n);
            extend_chars(&mut v, d.as_slice());
            assert(v@ =~= livepatch_spec(count));
            string_of(v.as_slice())
        },
        None => {
            let a: [char; 6] = ['a', 'b', 's', 'e', 'n', 't'];
            assert(a@ =~= seq!['a', 'b', 's', 'e', 'n', 't']);
            string_of(a.as_slice())
        },
    }
}

impl Kernel {
    /// Which of the RT-02 files exist under `roots`.
    pub fn probe(&self, roots: &FsRoots) -> (r: ProbeOutcome)
        ensures
            probe_post(r, *roots, str_views(FILES@), "all kernel files missing"@),
    {
        probe_files(roots, FILES.as_slice(), "all kernel files missing")
    }

    /// The status after the record was written, given what the probe found missing.
    pub fn status(&self, degraded: &Vec<String>) -> (r: CollectionStatus)
        ensures
            r@ == status_with_unsupported_spec(
                strings_view(degraded@),
                str_views(UNSUPPORTED_IF_MISSING@),
            ),
    {
        status_with_unsupported(degraded, UNSUPPORTED_IF_MISSING.as_slice())
    }
}

} // verus!
