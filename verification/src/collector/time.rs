//! RT-19: time and scheduled tasks.
use vstd::prelude::*;

use crate::collector::{
    CollectionStatus, ProbeOutcome, StatusView, degraded_status, probe_files, probe_post, str_views, strings_view,
};
use crate::fs::FsRoots;

verus! {

/// The RT-19 collector.
pub struct Time;

/// The files that RT-19 reads, in the order its record uses them.
pub const FILES: [&'static str; 9] = [
    "/proc/timer_list",
    "/proc/driver/rtc",
    "/etc/localtime",
    "/etc/adjtime",
    "/etc/crontab",
    "/sys/class/rtc/rtc0/date",
    "/sys/class/rtc/rtc0/time",
    "/sys/devices/system/clocksource/clocksource0/current_clocksource",
    "/sys/devices/system/clocksource/clocksource0/available_clocksource",
];

impl Time {
    /// Which of the RT-19 files exist under `roots`.
    pub fn probe(&self, roots: &FsRoots) -> (r: ProbeOutcome)
        ensures
            probe_post(r, *roots, str_views(FILES@), "all time files missing"@),
    {
        probe_files(roots, FILES.as_slice(), "all time files missing")
    }

    /// The status after the record was written: `Degraded` when the probe
    /// found inputs missing.
    pub fn status(&self, degraded: &Vec<String>) -> (r: CollectionStatus)
        ensures
            r@ == if degraded@.len() == 0 {
                StatusView::Complete
            } else {
                StatusView::Degraded(strings_view(degraded@))
            },
    {
        degraded_status(degraded)
    }
}

} // verus!
