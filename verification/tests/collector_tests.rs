use std::time::Duration;

use rebootsnap::collector::boot::Boot;
use rebootsnap::collector::events::{pstore_excerpt, Events};
use rebootsnap::collector::kernel::Kernel;
use rebootsnap::collector::netdev::{is_tunnel_kind, select_tunnels, LinkEntry, Netdev};
use rebootsnap::collector::systemd::{is_failed_state, BusNames, CallErrors, Systemd};
use rebootsnap::collector::tmpfs::{total_entries, Tmpfs};
use rebootsnap::collector::{
    all_tasks, join_strings, outcome_status, probe_from_presence, size_limit_outcome,
    status_with_unsupported, CollectionStatus, CollectionTask,
};
use rebootsnap::fs::FsRoots;

fn missing_roots() -> FsRoots {
    FsRoots {
        proc: "/nonexistent-rebootsnap-fixture/proc".to_string(),
        sys: "/nonexistent-rebootsnap-fixture/sys".to_string(),
        dev: "/nonexistent-rebootsnap-fixture/dev".to_string(),
        etc: "/nonexistent-rebootsnap-fixture/etc".to_string(),
        run: "/nonexistent-rebootsnap-fixture/run".to_string(),
    }
}

fn strings(v: &[&str]) -> Vec<String> {
    v.iter().map(|s| s.to_string()).collect()
}

fn label(s: &CollectionStatus) -> String {
    outcome_status(s).to_string()
}

#[test]
fn all_tasks_are_twenty_one_in_rt_order() {
    let tasks = all_tasks();
    assert_eq!(tasks.len(), 21);
    let ids: Vec<&str> = tasks.iter().map(|t| t.id()).collect();
    let mut sorted = ids.clone();
    sorted.sort();
    assert_eq!(ids, sorted);
    assert_eq!(ids[0], "RT-01");
    assert_eq!(ids[20], "RT-22");
    assert!(!ids.contains(&"RT-21"));
    let mut files: Vec<&str> = tasks.iter().map(|t| t.filename()).collect();
    files.sort();
    files.dedup();
    assert_eq!(files.len(), 21);
}

#[test]
fn task_identity_and_files() {
    let p = CollectionTask::Process(rebootsnap::collector::process::Process);
    assert_eq!(p.id(), "RT-04");
    assert_eq!(p.filename(), "processes.jsonl");
    let e = CollectionTask::Events(Events);
    assert_eq!(e.id(), "RT-20");
    assert_eq!(e.filename(), "dmesg.json");
    let f = CollectionTask::Filesystem(rebootsnap::collector::filesystem::Filesystem);
    assert_eq!(f.id(), "RT-22");
    assert_eq!(f.filename(), "filesystem.json");
}

#[test]
fn item_timeouts_follow_the_volume_of_the_collector() {
    for t in all_tasks() {
        let expected = match t.id() {
            "RT-04" | "RT-06" | "RT-07" | "RT-09" | "RT-11" | "RT-12" => 10,
            "RT-03" | "RT-13" => 5,
            _ => 2,
        };
        assert_eq!(t.timeout_secs(), expected, "{}", t.id());
        assert_eq!(t.item_timeout(), Duration::from_secs(expected));
    }
}

#[test]
fn probe_decides_from_presence() {
    let files = ["/proc/a", "/proc/b", "/proc/c"];
    let p = probe_from_presence(&files, &[true, false, true], "gone", missing_roots());
    assert!(p.available);
    assert_eq!(p.degraded, strings(&["/proc/b"]));
    assert_eq!(p.reason, None);
    let q = probe_from_presence(&files, &[false, false, false], "gone", missing_roots());
    assert!(!q.available);
    assert!(q.degraded.is_empty());
    assert_eq!(q.reason, Some("gone".to_string()));
}

#[test]
fn probe_of_missing_roots_is_unavailable() {
    let p = Boot.probe(&missing_roots());
    assert!(!p.available);
    assert_eq!(p.reason, Some("all boot identity files missing".to_string()));
    assert_eq!(p.roots.proc, missing_roots().proc);
    let k = Kernel.probe(&missing_roots());
    assert_eq!(k.reason, Some("all kernel files missing".to_string()));
}

#[test]
fn status_splits_unsupported_from_degraded() {
    let none: Vec<String> = Vec::new();
    assert!(matches!(Kernel.status(&none), CollectionStatus::Complete));
    let unsup = strings(&["/proc/sys/kernel/hung_task_check_interval_secs"]);
    match Kernel.status(&unsup) {
        CollectionStatus::Unsupported { reason } => {
            assert_eq!(reason, "/proc/sys/kernel/hung_task_check_interval_secs")
        }
        _ => panic!("expected unsupported"),
    }
    let both = strings(&["/proc/sys/kernel/hung_task_check_interval_secs", "/proc/modules"]);
    match Kernel.status(&both) {
        CollectionStatus::Partial { degrading } => assert_eq!(degrading, strings(&["/proc/modules"])),
        _ => panic!("expected partial"),
    }
}

#[test]
fn unsupported_reasons_are_joined_with_commas() {
    let d = strings(&["x", "y", "z"]);
    match status_with_unsupported(&d, &["x", "z"]) {
        CollectionStatus::Partial { degrading } => assert_eq!(degrading, strings(&["y"])),
        _ => panic!("expected partial"),
    }
    let d2 = strings(&["x", "z"]);
    match status_with_unsupported(&d2, &["x", "z"]) {
        CollectionStatus::Unsupported { reason } => assert_eq!(reason, "x, z"),
        _ => panic!("expected unsupported"),
    }
    assert_eq!(join_strings(&strings(&["a", "b", "c"]), "; "), "a; b; c");
    assert_eq!(join_strings(&Vec::new(), "; "), "");
}

#[test]
fn manifest_labels_of_statuses() {
    assert_eq!(label(&CollectionStatus::Complete), "ok");
    assert_eq!(label(&CollectionStatus::Truncated { reason: "r".into() }), "truncated");
    assert_eq!(label(&CollectionStatus::Degraded { missing: vec![] }), "degraded");
    assert_eq!(label(&CollectionStatus::Partial { degrading: vec![] }), "degraded");
    assert_eq!(label(&CollectionStatus::Unsupported { reason: "r".into() }), "degraded");
    assert_eq!(label(&CollectionStatus::PermissionDenied), "degraded");
    assert_eq!(label(&CollectionStatus::Failed { reason: "r".into() }), "failed");
    assert_eq!(label(&CollectionStatus::TimedOut), "timed_out");
}

#[test]
fn events_probe_lists_the_unopenable_log_device() {
    let p = Events.probe(&missing_roots(), false);
    assert!(p.available);
    assert_eq!(p.reason, None);
    assert_eq!(p.degraded.last().map(|s| s.as_str()), Some("/dev/kmsg"));
    let q = Events.probe(&missing_roots(), true);
    assert!(!q.available);
    assert_eq!(q.reason, Some("all events files missing".to_string()));
}

#[test]
fn events_status_permission_denied() {
    let d = strings(&["/dev/kmsg"]);
    assert!(matches!(Events.status(&d, false), CollectionStatus::PermissionDenied));
    match Events.status(&d, true) {
        CollectionStatus::Partial { degrading } => assert_eq!(degrading, d),
        _ => panic!("expected partial"),
    }
    let u = strings(&["/proc/sys/kernel/printk_dropped", "/proc/sys/kernel/devkmsg_log"]);
    match Events.status(&u, false) {
        CollectionStatus::Unsupported { reason } => {
            assert_eq!(reason, "/proc/sys/kernel/printk_dropped, /proc/sys/kernel/devkmsg_log")
        }
        _ => panic!("expected unsupported"),
    }
    assert_eq!(Events.items_collected(true), Some(1));
    assert_eq!(Events.items_collected(false), None);
}

#[test]
fn pstore_excerpt_keeps_at_most_8192_bytes() {
    assert_eq!(pstore_excerpt("panic"), "panic");
    let long = "a".repeat(9000);
    assert_eq!(pstore_excerpt(&long), "a".repeat(8192));
    let exact = "é".repeat(4096);
    assert_eq!(pstore_excerpt(&exact), exact);
    let over = "é".repeat(4100);
    assert_eq!(pstore_excerpt(&over), "é".repeat(4096));
}

#[test]
fn tunnel_kinds() {
    assert!(is_tunnel_kind("vxlan"));
    assert!(is_tunnel_kind("ip6gretap"));
    assert!(!is_tunnel_kind("bridge"));
    assert!(!is_tunnel_kind("gre0"));
}

#[test]
fn select_tunnels_keeps_tunnels_in_order() {
    let links = vec![
        LinkEntry { ifindex: 1, name: "lo".into(), kind: None },
        LinkEntry { ifindex: 2, name: "gre1".into(), kind: Some("gre".into()) },
        LinkEntry { ifindex: 3, name: "br0".into(), kind: Some("bridge".into()) },
        LinkEntry { ifindex: 4, name: "vx".into(), kind: Some("vxlan".into()) },
    ];
    let t = select_tunnels(&links);
    assert_eq!(t.len(), 2);
    assert_eq!(t[0].ifindex, 2);
    assert_eq!(t[1].name, "vx");
    let many: Vec<LinkEntry> = (0..150)
        .map(|i| LinkEntry { ifindex: i, name: format!("t{i}"), kind: Some("sit".into()) })
        .collect();
    let kept = select_tunnels(&many);
    assert_eq!(kept.len(), 100);
    assert_eq!(kept[99].ifindex, 99);
}

#[test]
fn netdev_probe_and_status() {
    let p = Netdev.probe(&missing_roots(), false);
    assert!(!p.available);
    assert_eq!(p.reason, Some("net sysfs and proc files unavailable".to_string()));
    let q = Netdev.probe(&missing_roots(), true);
    assert!(q.available);
    assert!(q.degraded.is_empty());
    assert_eq!(q.reason, None);
    match Netdev.status(&Vec::new(), 0) {
        CollectionStatus::Degraded { missing } => {
            assert_eq!(missing, strings(&["no interfaces read from sysfs"]))
        }
        _ => panic!("expected degraded"),
    }
    assert!(matches!(Netdev.status(&Vec::new(), 3), CollectionStatus::Complete));
}

#[test]
fn tmpfs_probe_and_totals() {
    let r = missing_roots();
    let p = Tmpfs.probe_from(false, &[true, true, true], &r);
    assert_eq!(p.reason, Some("all tmpfs files missing".to_string()));
    let q = Tmpfs.probe_from(true, &[false, false, false], &r);
    assert_eq!(q.reason, Some("all tmpfs runtime dirs missing".to_string()));
    let s = Tmpfs.probe_from(true, &[true, false, true], &r);
    assert!(s.available);
    assert_eq!(s.degraded, strings(&["/dev/shm"]));
    assert_eq!(total_entries(Some(1), None, Some(2)), Some(3));
    assert_eq!(total_entries(None, None, None), None);
    assert_eq!(total_entries(None, Some(0), None), Some(0));
    assert!(!Tmpfs.probe(&r).available);
}

#[test]
fn systemd_probe_from_bus_answers() {
    let r = missing_roots();
    let a = Systemd.probe_from_bus(&BusNames::Unreachable { error: "no socket".into() }, &r);
    assert_eq!(a.reason, Some("D-Bus system bus unavailable: no socket".to_string()));
    let b = Systemd.probe_from_bus(&BusNames::ListFailed { error: "denied".into() }, &r);
    assert_eq!(b.reason, Some("D-Bus ListNames failed: denied".to_string()));
    let names = strings(&["org.freedesktop.DBus", "org.freedesktop.systemd1"]);
    let c = Systemd.probe_from_bus(&BusNames::Listed { names: Some(names) }, &r);
    assert!(c.available);
    let d = Systemd.probe_from_bus(&BusNames::Listed { names: None }, &r);
    assert_eq!(d.reason, Some("org.freedesktop.systemd1 not on system bus".to_string()));
}

#[test]
fn systemd_degradation_and_failure() {
    let errs = CallErrors { units: Some("timeout".into()), jobs: None, inhibitors: Some("x".into()) };
    let d = Systemd.degraded_after(&strings(&["probe"]), &errs);
    assert_eq!(d, strings(&["probe", "ListUnits: timeout", "ListInhibitors: x"]));
    match Systemd.status(&d, true) {
        CollectionStatus::Failed { reason } => {
            assert_eq!(reason, "probe; ListUnits: timeout; ListInhibitors: x")
        }
        _ => panic!("expected failed"),
    }
    match Systemd.status(&d, false) {
        CollectionStatus::Degraded { missing } => assert_eq!(missing, d),
        _ => panic!("expected degraded"),
    }
    assert!(matches!(Systemd.status(&Vec::new(), true), CollectionStatus::Complete));
    assert!(is_failed_state("failed"));
    assert!(is_failed_state("auto-restart"));
    assert!(!is_failed_state("active"));
}

#[test]
fn oversized_json_is_recorded_as_truncated_without_a_file() {
    let o = size_limit_outcome(Duration::from_millis(7), 67108865);
    assert_eq!(label(&o.status), "truncated");
    match &o.status {
        CollectionStatus::Truncated { reason } => assert_eq!(reason, "size_limit"),
        _ => panic!("expected truncated"),
    }
    assert_eq!(o.file_size, 67108865);
    assert_eq!(o.duration, Duration::from_millis(7));
    assert!(o.items_total.is_none());
}

#[test]
fn events_probe_from_presence() {
    let r = missing_roots();
    let all = [true; 6];
    let p = Events.probe_from(&all, false, &r);
    assert!(p.available);
    assert_eq!(p.degraded, strings(&["/dev/kmsg"]));
    let none = [false; 6];
    let p = Events.probe_from(&none, true, &r);
    assert!(!p.available);
    assert!(p.degraded.is_empty());
    assert_eq!(p.reason.as_deref(), Some("all events files missing"));
    let p = Events.probe_from(&none, false, &r);
    assert!(p.available);
    assert_eq!(p.degraded, strings(&["/dev/kmsg"]));
    assert!(p.reason.is_none());
    let some = [true, false, true, true, false, true];
    let p = Events.probe_from(&some, false, &r);
    assert_eq!(
        p.degraded,
        strings(&["/proc/sys/kernel/printk_ratelimit", "/proc/sys/kernel/devkmsg_log", "/dev/kmsg"])
    );
    let p = Events.probe_from(&some, true, &r);
    assert_eq!(
        p.degraded,
        strings(&["/proc/sys/kernel/printk_ratelimit", "/proc/sys/kernel/devkmsg_log"])
    );
}

#[test]
fn netdev_probe_from_presence() {
    let r = missing_roots();
    let none = [false; 4];
    let p = Netdev.probe_from(&none, false, &r);
    assert!(!p.available);
    assert!(p.degraded.is_empty());
    assert_eq!(p.reason.as_deref(), Some("net sysfs and proc files unavailable"));
    let p = Netdev.probe_from(&none, true, &r);
    assert!(p.available);
    assert!(p.degraded.is_empty());
    assert!(p.reason.is_none());
    let some = [true, false, true, false];
    let p = Netdev.probe_from(&some, false, &r);
    assert!(p.available);
    assert_eq!(
        p.degraded,
        strings(&["sysfs interface dir empty/missing", "/proc/net/ipv6_route", "/proc/net/netstat"])
    );
    let p = Netdev.probe_from(&some, true, &r);
    assert_eq!(p.degraded, strings(&["/proc/net/ipv6_route", "/proc/net/netstat"]));
}

#[test]
fn listings_keep_their_first_entries() {
    assert_eq!(rebootsnap::collector::keep_first(vec![1, 2, 3, 4], 2), vec![1, 2]);
    assert_eq!(rebootsnap::collector::keep_first(vec![1, 2], 5), vec![1, 2]);
    assert!(rebootsnap::collector::keep_first(vec![1, 2], 0).is_empty());
}

#[test]
fn only_the_process_file_is_json_lines() {
    for t in all_tasks() {
        let name = t.filename();
        let is_process = matches!(t, CollectionTask::Process(_));
        assert_eq!(name.ends_with(".jsonl"), is_process);
        if !is_process {
            assert!(name.ends_with(".json"));
        }
    }
}
