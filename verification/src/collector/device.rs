//! RT-17: devices and drivers.
use vstd::prelude::*;

use crate::collector::{
    CollectionStatus, ProbeOutcome, StatusView, degraded_status, probe_files, probe_post, str_views, strings_view,
};
use crate::fs::FsRoots;

verus! {

/// The RT-17 collector.
pub struct Device;

/// The files that RT-17 reads, in the order its record uses them.
pub const FILES: [&'static str; 5] = [
    "/proc/devices",
    "/proc/misc",
    "/sys/kernel/debug",
    "/proc/bus/input/devices",
    "/proc/interrupts",
];

/// The most sysfs devices that the record lists.
pub const MAX_SYSFS_DEVICES: usize = 100;

/// How deep below each top-level entry of `/sys/devices` the walk goes.
pub const MAX_DEVICE_DEPTH: u32 = 3;

/// Whether the device walk enters a directory at `depth` when `count`
/// devices are already listed.
pub fn device_walk_visits(depth: u32, count: usize) -> (r: bool)
    ensures
        r == (depth <= MAX_DEVICE_DEPTH && count < MAX_SYSFS_DEVICES),
{
    depth <= MAX_DEVICE_DEPTH && count < MAX_SYSFS_DEVICES
}

/// Whether a sysfs directory is listed as a device: it has a `uevent` file
/// or a driver.
pub fn is_device(has_uevent: bool, has_driver: bool) -> (r: bool)
    ensures
        r == (has_uevent || has_driver),
{
    has_uevent || has_driver
}

impl Device {
    /// Which of the RT-17 files exist under `roots`.
    pub fn probe(&self, roots: &FsRoots) -> (r: ProbeOutcome)
        ensures
            probe_post(r, *roots, str_views(FILES@), "all device files missing"@),
    {
        probe_files(roots, FILES.as_slice(), "all device files missing")
    }

    /// The status after the record was written: `Degraded` when the probe
    /// found inputs missing.
    pub fn status(&self, degraded: &Vec<String>) -> (r: CollectionStatus)
        ensures
            r@ == if degraded@.len() == 0 {
                StatusView::Complete
            } else {
                StatusView::Degraded(strings_view(degraded@))
            },
    {
        degraded_status(degraded)
    }
}

} // verus!
