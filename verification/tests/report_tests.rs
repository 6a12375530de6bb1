use std::time::Duration;

use rebootsnap::collector::memory::{numa_report, zram_report, zswap_report, NUMA_FILES, ZRAM_FILES};
use rebootsnap::collector::power::{thermal_entry, throttle_report, CpuThrottle, ThermalEntry};
use rebootsnap::collector::sections::{render_sections, section, sort_sections, FieldText, Section};
use rebootsnap::collector::{all_tasks, CollectionOutcome, CollectionStatus, ProbeOutcome};
use rebootsnap::fs::FsRoots;
use rebootsnap::manifest::{
    exit_reason, find_result, host_values, manifest_item, manifest_items, probe_label,
    summary_values, TaskProbe, TaskResult,
};

fn outcome(status: CollectionStatus, size: u64, ms: u64) -> CollectionOutcome {
    CollectionOutcome {
        status,
        duration: Duration::from_millis(ms),
        file_size: size,
        items_total: None,
        items_collected: None,
        mem_total_kb: None,
        mem_available_kb: None,
        hostname: None,
        kernel_version: None,
        boot_id: None,
        uptime_seconds: None,
    }
}

fn result(id: &str, o: CollectionOutcome) -> TaskResult {
    TaskResult { id: id.to_string(), filename: String::new(), outcome: o }
}

fn roots() -> FsRoots {
    FsRoots::default()
}

#[test]
fn sections_render_inline_and_below() {
    let s = section(
        "zram0".to_string(),
        &ZRAM_FILES,
        vec![Some(" 1024\n".into()), None, Some("a b".into())],
    );
    assert_eq!(
        render_sections(&vec![s], true),
        Some("zram0:\ndisksize: 1024\ncomp_algorithm: \nmm_stat: a b\n".to_string())
    );
    assert_eq!(render_sections(&Vec::new(), true), None);
    let n = section("node0".to_string(), &NUMA_FILES, vec![Some("x\n".into()), Some("y".into())]);
    assert_eq!(
        render_sections(&vec![n], false),
        Some("node0:\nmeminfo:\nx\nnumastat:\ny\n".to_string())
    );
}

#[test]
fn numa_nodes_are_sorted_by_name() {
    let mk = |name: &str| Section { name: name.to_string(), fields: Vec::new() };
    let sorted = sort_sections(vec![mk("node10"), mk("node2"), mk("node1")]);
    let names: Vec<&str> = sorted.iter().map(|s| s.name.as_str()).collect();
    assert_eq!(names, vec!["node1", "node10", "node2"]);
    let report = numa_report(vec![mk("node1"), mk("node0")]);
    assert_eq!(report, Some("node0:\nnode1:\n".to_string()));
    assert_eq!(numa_report(Vec::new()), None);
}

#[test]
fn zram_and_zswap_reports() {
    assert_eq!(zram_report(&Vec::new()), None);
    let f = FieldText { file: "disksize".into(), content: Some("0".into()) };
    let s = Section { name: "zram1".into(), fields: vec![f] };
    assert_eq!(zram_report(&vec![s]), Some("zram1:\ndisksize: 0\n".to_string()));
    assert_eq!(
        zswap_report(&Some(" 4096\n".into()), &Some("12\n".into())),
        Some("pool_total_size: 4096\nstored_pages: 12".to_string())
    );
    assert_eq!(
        zswap_report(&Some("1".into()), &None),
        Some("pool_total_size: 1\nstored_pages: ".to_string())
    );
    assert_eq!(zswap_report(&None, &Some("1".into())), None);
}

#[test]
fn throttle_report_sorts_cpus_by_number() {
    let t = |id: u32, c: &str| CpuThrottle { id, core: Some(c.to_string()), package: None };
    let r = throttle_report(vec![t(10, "5\n"), t(2, "7"), t(1, "0")]);
    assert_eq!(
        r,
        Some(
            "cpu1:\ncore_throttle_count: 0\npackage_throttle_count: \n\
             cpu2:\ncore_throttle_count: 7\npackage_throttle_count: \n\
             cpu10:\ncore_throttle_count: 5\npackage_throttle_count: \n"
                .to_string()
        )
    );
    assert_eq!(throttle_report(Vec::new()), None);
}

#[test]
fn thermal_entries_by_name() {
    assert!(thermal_entry("thermal_zone0") == ThermalEntry::Zone);
    assert!(thermal_entry("cooling_device3") == ThermalEntry::CoolingDevice);
    assert!(thermal_entry("thermal") == ThermalEntry::Other);
}

#[test]
fn manifest_item_of_each_status() {
    let ok = manifest_item("RT-01", "boot.json", Some(&outcome(CollectionStatus::Complete, 512, 12)));
    assert_eq!(ok.id, "RT-01");
    assert_eq!(ok.status, "ok");
    assert_eq!(ok.file, Some("boot.json".to_string()));
    assert_eq!(ok.size_bytes, Some(512));
    assert_eq!(ok.duration_ms, Some(12));
    assert_eq!(ok.missing, None);
    let tr = manifest_item(
        "RT-04",
        "processes.jsonl",
        Some(&outcome(CollectionStatus::Truncated { reason: "item_count_limit".into() }, 9, 850)),
    );
    assert_eq!(tr.status, "truncated");
    assert_eq!(tr.truncation, Some("item_count_limit".to_string()));
    let dg = manifest_item(
        "RT-13",
        "netfilter.json",
        Some(&outcome(CollectionStatus::Degraded { missing: vec!["nft".into()] }, 0, 1)),
    );
    assert_eq!(dg.status, "degraded");
    assert_eq!(dg.size_bytes, None);
    assert_eq!(dg.missing, Some(vec!["nft".to_string()]));
    let fl = manifest_item("RT-03", "systemd.json", Some(&outcome(CollectionStatus::Failed { reason: "bus".into() }, 0, 0)));
    assert_eq!(fl.status, "failed");
    assert_eq!(fl.error_reason, Some("bus".to_string()));
    let none = manifest_item("RT-09", "mounts.json", None);
    assert_eq!(none.status, "timed_out");
    assert_eq!(none.file, Some("mounts.json".to_string()));
    assert_eq!(none.duration_ms, None);
}

#[test]
fn manifest_items_follow_the_tasks() {
    let tasks = all_tasks();
    let results = vec![
        result("RT-06", outcome(CollectionStatus::Complete, 10, 3)),
        result("RT-01", outcome(CollectionStatus::Complete, 20, 4)),
        result("RT-01", outcome(CollectionStatus::TimedOut, 0, 0)),
    ];
    let items = manifest_items(&tasks, &results);
    assert_eq!(items.len(), 21);
    assert_eq!(items[0].id, "RT-01");
    assert_eq!(items[0].size_bytes, Some(20));
    assert_eq!(items[5].id, "RT-06");
    assert_eq!(items[5].status, "ok");
    assert_eq!(items[1].status, "timed_out");
    let ids: Vec<&str> = items.iter().map(|i| i.id.as_str()).collect();
    let mut sorted = ids.clone();
    sorted.sort();
    sorted.dedup();
    assert_eq!(ids, sorted);
    assert_eq!(find_result(&results, "RT-01"), Some(1));
    assert_eq!(find_result(&results, "RT-22"), None);
}

#[test]
fn host_and_summary_values() {
    let mut boot = outcome(CollectionStatus::Complete, 1, 1);
    boot.hostname = Some("web01".into());
    boot.uptime_seconds = Some(864000);
    let mut mem = outcome(CollectionStatus::Complete, 1, 1);
    mem.mem_total_kb = Some(65536);
    let mut procs = outcome(CollectionStatus::Truncated { reason: "item_count_limit".into() }, 5, 1);
    procs.items_collected = Some(50000);
    let results = vec![result("RT-01", boot), result("RT-06", mem), result("RT-04", procs)];
    let h = host_values(&results);
    assert_eq!(h.hostname, "web01");
    assert_eq!(h.kernel, "");
    assert_eq!(h.uptime_seconds, 864000);
    let items = manifest_items(&all_tasks(), &results);
    let s = summary_values(&results, &items);
    assert_eq!(s.procs_total, Some(50000));
    assert_eq!(s.procs_total_truncated, Some(true));
    assert_eq!(s.mem_total_kb, Some(65536));
    assert_eq!(s.mem_available_kb, None);
    let empty = host_values(&Vec::new());
    assert_eq!(empty.hostname, "");
    assert_eq!(empty.uptime_seconds, 0);
    let s2 = summary_values(&Vec::new(), &manifest_items(&all_tasks(), &Vec::new()));
    assert_eq!(s2.procs_total, None);
    assert_eq!(s2.procs_total_truncated, None);
}

#[test]
fn probe_labels_and_exit_reason() {
    let ok = ProbeOutcome { available: true, degraded: vec![], reason: None, roots: roots() };
    let no = ProbeOutcome {
        available: false,
        degraded: vec![],
        reason: Some("D-Bus system bus unavailable: x".into()),
        roots: roots(),
    };
    let bare = ProbeOutcome { available: false, degraded: vec![], reason: None, roots: roots() };
    let probes = vec![
        TaskProbe { id: "RT-11".into(), probe: ok },
        TaskProbe { id: "RT-03".into(), probe: no },
        TaskProbe { id: "RT-13".into(), probe: bare },
    ];
    assert_eq!(probe_label(&probes, "RT-11"), "available");
    assert_eq!(probe_label(&probes, "RT-03"), "D-Bus system bus unavailable: x");
    assert_eq!(probe_label(&probes, "RT-13"), "unavailable");
    assert_eq!(probe_label(&probes, "RT-99"), "unavailable");
    assert_eq!(exit_reason(true), "completed");
    assert_eq!(exit_reason(false), "global_timeout");
}
