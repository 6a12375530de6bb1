use rebootsnap::error::{ArchiveError, OutputError};
use rebootsnap::fs::FsRoots;
use rebootsnap::output::{
    archive_name, is_temp_name, json_commit_size, snapshot_dir_name, JsonlAction, JsonlState,
    OutputDir, ITEM_COUNT_LIMIT, SIZE_LIMIT,
};

fn fixture_roots() -> FsRoots {
    FsRoots {
        proc: "/fx/proc".to_string(),
        sys: "/fx/sys/".to_string(),
        dev: "/fx/dev".to_string(),
        etc: "/fx/etc".to_string(),
        run: "/fx/run".to_string(),
    }
}

#[test]
fn resolve_maps_each_root() {
    let r = fixture_roots();
    assert_eq!(r.resolve("/proc/meminfo"), "/fx/proc/meminfo");
    assert_eq!(r.resolve("/sys/class/net"), "/fx/sys/class/net");
    assert_eq!(r.resolve("/dev/kmsg"), "/fx/dev/kmsg");
    assert_eq!(r.resolve("/etc//hostname"), "/fx/etc/hostname");
    assert_eq!(r.resolve("/run/log/journal"), "/fx/run/log/journal");
    assert_eq!(r.resolve("/var/run/utmp"), "/var/run/utmp");
    assert_eq!(r.resolve("/proc"), "/fx/proc/");
    let d = FsRoots::default();
    assert_eq!(d.proc, "/proc");
    assert_eq!(d.run, "/run");
    assert_eq!(d.resolve("/proc/uptime"), "/proc/uptime");
    assert!(!r.exists_at("/proc/meminfo"));
}

#[test]
fn snapshot_and_archive_names() {
    assert_eq!(snapshot_dir_name("20260515-143000"), "rebootsnap-20260515-143000");
    assert_eq!(
        archive_name(&Some("rebootsnap-20260515-143000".to_string())),
        "rebootsnap-20260515-143000.tar.gz"
    );
    assert_eq!(archive_name(&None), "rebootsnap-unknown.tar.gz");
    assert!(is_temp_name(".tmpAbc12"));
    assert!(!is_temp_name("boot.json"));
}

#[test]
fn output_dir_names() {
    let o = OutputDir::from_existing("/data/out/rebootsnap-x".to_string());
    assert_eq!(o.root(), "/data/out/rebootsnap-x");
    assert_eq!(o.directory_name(), Some("rebootsnap-x".to_string()));
    assert_eq!(OutputDir::from_existing("/data/out/".to_string()).directory_name(), Some("out".to_string()));
    assert_eq!(OutputDir::from_existing("/".to_string()).directory_name(), None);
}

#[test]
fn json_files_over_the_limit_are_dropped() {
    assert_eq!(json_commit_size(10), Some(10));
    assert_eq!(json_commit_size(SIZE_LIMIT), Some(67108864));
    assert_eq!(json_commit_size(SIZE_LIMIT + 1), None);
}

#[test]
fn error_messages() {
    assert_eq!(OutputError::Io("denied".into()).message(), "I/O error: denied");
    assert_eq!(OutputError::Serialize("bad".into()).message(), "serialization failed: bad");
    assert_eq!(OutputError::SizeLimit.message(), "output exceeds 64 MiB limit");
}

fn step(s: &mut JsonlState, len: u64) -> JsonlAction {
    let a = s.decide(len, 40, 46);
    let copy = match a {
        JsonlAction::Ignore => JsonlAction::Ignore,
        JsonlAction::Write => JsonlAction::Write,
        JsonlAction::WriteSizeMarker => JsonlAction::WriteSizeMarker,
        JsonlAction::WriteItemMarker => JsonlAction::WriteItemMarker,
        JsonlAction::Stop => JsonlAction::Stop,
    };
    s.record(a, len, 40, 46);
    copy
}

#[test]
fn jsonl_lines_are_counted() {
    let mut s = JsonlState::new();
    assert!(!s.keeps_file());
    assert!(step(&mut s, 100) == JsonlAction::Write);
    assert!(step(&mut s, 20) == JsonlAction::Write);
    assert_eq!(s.byte_count(), 120);
    assert_eq!(s.item_count(), 2);
    assert!(!s.is_truncated());
    assert!(s.keeps_file());
}

#[test]
fn jsonl_size_limit_writes_a_marker_then_ignores() {
    let mut s = JsonlState { byte_count: SIZE_LIMIT - 50, item_count: 3, truncated: false, size_stop: false };
    assert!(!s.stopped_by_size());
    assert!(step(&mut s, 100) == JsonlAction::WriteSizeMarker);
    assert!(s.is_truncated());
    assert!(s.stopped_by_size());
    assert_eq!(s.byte_count(), SIZE_LIMIT - 50);
    assert!(step(&mut s, 1) == JsonlAction::Ignore);
    assert_eq!(s.item_count(), 3);
    let mut full = JsonlState { byte_count: SIZE_LIMIT - 10, item_count: 3, truncated: false, size_stop: false };
    assert!(step(&mut full, 100) == JsonlAction::Stop);
    assert!(full.is_truncated());
    assert!(full.stopped_by_size());
}

#[test]
fn jsonl_item_limit_writes_a_marker() {
    let mut s = JsonlState { byte_count: 1000, item_count: ITEM_COUNT_LIMIT, truncated: false, size_stop: false };
    assert!(step(&mut s, 10) == JsonlAction::WriteItemMarker);
    assert!(s.is_truncated());
    assert!(!s.stopped_by_size());
    assert_eq!(s.item_count(), 50000);
    let mut ok = JsonlState { byte_count: 1000, item_count: ITEM_COUNT_LIMIT - 1, truncated: false, size_stop: false };
    assert!(step(&mut ok, 10) == JsonlAction::Write);
    assert_eq!(ok.item_count(), 50000);
}

#[test]
fn jsonl_stream_never_exceeds_its_limits() {
    let mut s = JsonlState::new();
    let mut markers = 0;
    for _ in 0..60000 {
        match step(&mut s, 10) {
            JsonlAction::WriteItemMarker | JsonlAction::WriteSizeMarker => markers += 1,
            _ => {}
        }
        assert!(s.byte_count() <= SIZE_LIMIT);
        assert!(s.item_count() <= ITEM_COUNT_LIMIT);
    }
    assert_eq!(s.item_count(), 50000);
    assert_eq!(s.byte_count(), 500000);
    assert!(s.is_truncated());
    assert_eq!(markers, 1);
}

#[test]
fn archive_error_messages() {
    assert_eq!(ArchiveError::Io("gone".into()).message(), "I/O error: gone");
    assert_eq!(ArchiveError::Tar("x".into()).message(), "tar error: x");
    assert_eq!(ArchiveError::Gzip("y".into()).message(), "gzip error: y");
}
