//! RT-05: CPU, scheduling and interrupts.
use vstd::prelude::*;

use crate::collector::{
    CollectionStatus, ProbeOutcome, probe_files, probe_post, status_with_unsupported, status_with_unsupported_spec, str_views, strings_view,
};
use crate::fs::FsRoots;
use crate::text::{chars_of, parse_uint, parse_unsigned, starts_with, sub_chars};

verus! {

/// The RT-05 collector.
pub struct Cpu;

/// The files that RT-05 reads, in the order its record uses them.
pub const FILES: [&'static str; 8] = [
    "/proc/stat",
    "/proc/loadavg",
    "/proc/pressure/cpu",
    "/proc/interrupts",
    "/proc/softirqs",
    "/sys/devices/system/cpu/isolated",
    "/sys/devices/system/cpu/smt/control",
    "/sys/devices/system/cpu/nohz_full",
];

/// Inputs whose absence means the kernel lacks the feature.
pub const UNSUPPORTED_IF_MISSING: [&'static str; 1] = [
    "/proc/pressure/cpu",
];

/// The CPU number of a sysfs entry named `cpu<N>`.
pub open spec fn cpu_id_spec(name: Seq<char>) -> Option<int> {
    if name.len() >= 3 && name.take(3) == seq!['c', 'p', 'u'] {
        parse_unsigned(name.skip(3), 10, u32::MAX as int)
    } else {
        None
    }
}

/// The CPU number of a directory of `/sys/devices/system/cpu` named `cpu<N>`.
pub fn cpu_dir_id(name: &str) -> (r: Option<u32>)
    ensures
        match r {
            Some(v) => cpu_id_spec(name@) == Some(v as int),
            None => cpu_id_spec(name@) is None,
        },
{
    let c = chars_of(name);
    let p: [char; 3] = ['c', 'p', 'u'];
    assert(p@ =~= seq!['c', 'p', 'u']);
    if !starts_with(c.as_slice(), p.as_slice()) {
        return None;
    }
    let rest = sub_chars(c.as_slice(), 3, c.len());
    assert(rest@ =~= name@.skip(3));
    match parse_uint(rest.as_slice(), 10, u32::MAX as u64) {
        Some(v) => Some(v as u32),
        None => None,
    }
}

/// Whether a CPU is online: its trimmed `online` file reads `1`.
pub fn online_flag(online: &Option<String>) -> (r: bool)
    ensures
        r == (match *online {
            Some(s) => s@ == seq!['1'],
            None => false,
        }),
{
    match online {
        None => false,
        Some(s) => {
            let c = chars_of(s.as_str());
            if c.len() == 1 && c[0] == '1' {
                assert(c@ =~= seq!['1']);
                true
            } else {
                proof {
                    if c@.len() == 1 {
                        assert(c@[0] != seq!['1'][0]);
                    }
                }
                false
            }
        },
    }
}

impl Cpu {
    /// Which of the RT-05 files exist under `roots`.
    pub fn probe(&self, roots: &FsRoots) -> (r: ProbeOutcome)
        ensures
            probe_post(r, *roots, str_views(FILES@), "all cpu files missing"@),
    {
        probe_files(roots, FILES.as_slice(), "all cpu files missing")
    }

    /// The status after the record was written, given what the probe found missing.
    pub fn status(&self, degraded: &Vec<String>) -> (r: CollectionStatus)
        ensures
            r@ == status_with_unsupported_spec(
                strings_view(degraded@),
                str_views(UNSUPPORTED_IF_MISSING@),
            ),
    {
        status_with_unsupported(degraded, UNSUPPORTED_IF_MISSING.as_slice())
    }
}

} // verus!
