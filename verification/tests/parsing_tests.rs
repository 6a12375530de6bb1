use rebootsnap::collector::block::{classify_device, parse_io_stat};
use rebootsnap::collector::cpu::{cpu_dir_id, online_flag};
use rebootsnap::collector::device::{device_walk_visits, is_device};
use rebootsnap::collector::filesystem::{capacity, disk_mounts, fs_ids, is_pseudo_fs, mount_line, Filesystem};
use rebootsnap::collector::ipc_ns_cg::{
    cgroup_child_rel, cgroup_v2_path, count_lines, first_line, first_n_lines, walk_visits,
};
use rebootsnap::collector::kernel::livepatch_text;
use rebootsnap::collector::memory::{kb_of_bytes, parse_meminfo};
use rebootsnap::collector::process::{
    cmdline_text, decode_caps, name_text, ns_inodes, parse_cgroup_file, parse_cgroup_line,
    parse_ns_inode, parse_trimmed_i64, pid_path, take_chars, wchan_value, NsLinks, Process,
};
use rebootsnap::collector::session::{parse_utmp_record, utmp_entries, Session, UTMP_RECORD_SIZE};
use rebootsnap::collector::socket::{
    collect_listening_and_counts, hex_to_ipv4, parse_connections, parse_tcp_line,
    parse_udp_connections, parse_udp_line,
};
use rebootsnap::collector::CollectionStatus;
use rebootsnap::fs::FsRoots;

const TCP_LISTEN: &str = "   0: 0100007F:0016 00000000:0000 0A 00000000:00000000 00:00000000 00000000     0        0 12345 1 0000000000000000 100 0 0 10 0";
const TCP_ESTAB: &str = "   1: 0100007F:1F90 0100007F:C350 01 00000000:00000000 00:00000000 00000000  1000        0 23456 1 0000000000000000 20 4 30 10 -1";
const TCP_HEADER: &str = "  sl  local_address rem_address   st tx_queue rx_queue tr tm->when retrnsmt   uid  timeout inode";

#[test]
fn ipv4_columns_are_rendered() {
    assert_eq!(hex_to_ipv4("0100007F"), "127.0.0.1");
    assert_eq!(hex_to_ipv4("00000000"), "0.0.0.0");
    assert_eq!(hex_to_ipv4("7F"), "7F");
    assert_eq!(hex_to_ipv4("ZZZZZZZZ"), "ZZZZZZZZ");
}

#[test]
fn tcp_rows_are_parsed() {
    let e = parse_tcp_line(TCP_LISTEN).expect("row");
    assert_eq!(e.local_addr, "127.0.0.1");
    assert_eq!(e.local_port, 22);
    assert_eq!(e.remote_addr, "0.0.0.0");
    assert_eq!(e.remote_port, 0);
    assert_eq!(e.state_hex, "0A");
    assert_eq!(e.uid, 0);
    assert_eq!(e.inode, 12345);
    assert!(parse_tcp_line("too short line").is_none());
    assert!(parse_tcp_line("0: 01:02:03 00:00 0A a b c 0 0 1").is_none());
    let u = parse_udp_line(TCP_ESTAB).expect("row");
    assert_eq!(u.local_port, 8080);
    assert_eq!(u.remote_port, 50000);
    assert_eq!(u.uid, 1000);
}

#[test]
fn connection_tables_skip_header_and_zero_inodes() {
    let zero = "   2: 00000000:0050 00000000:0000 0A 00000000:00000000 00:00000000 00000000     0        0 0 1";
    let text = format!("{TCP_HEADER}\n{TCP_LISTEN}\n{zero}\n{TCP_ESTAB}");
    let conns = parse_connections(&Some(text.clone())).expect("rows");
    assert_eq!(conns.len(), 2);
    assert_eq!(conns[1].inode, 23456);
    assert!(parse_connections(&None).is_none());
    assert!(parse_connections(&Some(TCP_HEADER.to_string())).is_none());
    assert!(parse_connections(&Some(TCP_LISTEN.to_string())).is_none());
    assert_eq!(parse_udp_connections(&Some(text)).map(|v| v.len()), Some(2));
    let many: String = std::iter::once(TCP_HEADER.to_string())
        .chain((0..250).map(|_| TCP_LISTEN.to_string()))
        .collect::<Vec<_>>()
        .join("\n");
    assert_eq!(parse_connections(&Some(many)).map(|v| v.len()), Some(200));
}

#[test]
fn listening_sockets_and_state_counts() {
    let a = parse_tcp_line(TCP_LISTEN).unwrap();
    let b = parse_tcp_line(TCP_ESTAB).unwrap();
    let c = parse_tcp_line(TCP_LISTEN).unwrap();
    let (listening, counts, ports) = collect_listening_and_counts(&[a, b], &[c]);
    assert_eq!(listening.len(), 2);
    assert_eq!(listening[0].proto, "tcp");
    assert_eq!(listening[1].proto, "tcp6");
    assert_eq!(counts.listen, 2);
    assert_eq!(counts.established, 1);
    assert_eq!(counts.other, 0);
    assert_eq!(ports, vec![22]);
    let total = counts.established + counts.close_wait + counts.time_wait + counts.listen
        + counts.syn_sent + counts.other;
    assert_eq!(total, 3);
}

#[test]
fn namespace_inodes_and_cgroups() {
    assert_eq!(parse_ns_inode("net:[4026531992]"), Some(4026531992));
    assert_eq!(parse_ns_inode("garbage"), None);
    assert_eq!(parse_ns_inode("mnt:[]"), None);
    let e = parse_cgroup_line("0::/init.scope").expect("line");
    assert_eq!(e.hierarchy, Some(0));
    assert_eq!(e.controllers, None);
    assert_eq!(e.path, Some("/init.scope".to_string()));
    let f = parse_cgroup_line("4:cpu,cpuacct:/user.slice:x").expect("line");
    assert_eq!(f.controllers, Some("cpu,cpuacct".to_string()));
    assert_eq!(f.path, Some("/user.slice:x".to_string()));
    assert!(parse_cgroup_line("nocolon").is_none());
    assert_eq!(parse_cgroup_file("0::/\nbad\n1:name=systemd:/x\n").len(), 2);
    let links = NsLinks {
        mnt: None,
        net: Some("net:[7]".into()),
        pid: Some("pid:[9]".into()),
        ipc: None,
        uts: None,
        user: None,
        cgroup: None,
        time: None,
    };
    let n = ns_inodes(&links).expect("inodes");
    assert_eq!(n.net, Some(7));
    assert_eq!(n.pid, Some(9));
    assert_eq!(n.mnt, None);
    let none = NsLinks { mnt: None, net: None, pid: Some("pid:[9]".into()), ipc: None, uts: None, user: None, cgroup: None, time: None };
    assert!(ns_inodes(&none).is_none());
}

#[test]
fn capabilities_are_decoded() {
    assert_eq!(decode_caps(Some(5)), Some(vec!["cap_0".to_string(), "cap_2".to_string()]));
    assert_eq!(decode_caps(Some(0)), None);
    assert_eq!(decode_caps(None), None);
    assert_eq!(decode_caps(Some(1u64 << 41)), None);
    assert_eq!(decode_caps(Some(1u64 << 40)), Some(vec!["cap_40".to_string()]));
}

#[test]
fn process_texts() {
    assert_eq!(pid_path(42, "wchan"), "/proc/42/wchan");
    assert_eq!(pid_path(-3, "stat"), "/proc/-3/stat");
    assert_eq!(wchan_value(&Some("0\n".into())), None);
    assert_eq!(wchan_value(&Some(" do_wait\n".into())), Some("do_wait".to_string()));
    assert_eq!(wchan_value(&None), None);
    assert_eq!(take_chars("héllo", 2), "hé");
    assert_eq!(take_chars("ab", 10), "ab");
    assert_eq!(parse_trimmed_i64(&Some(" -5\n".into())), Some(-5));
    assert_eq!(parse_trimmed_i64(&Some("x".into())), None);
    assert_eq!(cmdline_text(&Some(vec!["sleep".into(), "10".into()])), Some("sleep 10".to_string()));
    assert_eq!(cmdline_text(&Some(vec![])), None);
    assert_eq!(name_text(&Some(String::new())), None);
    assert_eq!(name_text(&Some("bash".into())), Some("bash".to_string()));
}

#[test]
fn process_status_rules() {
    let none: Vec<String> = Vec::new();
    match Process.status(&Some("disk full".into()), true, false, &none) {
        CollectionStatus::Failed { reason } => assert_eq!(reason, "disk full"),
        _ => panic!("expected failed"),
    }
    match Process.status(&None, true, true, &none) {
        CollectionStatus::Truncated { reason } => assert_eq!(reason, "size_limit"),
        _ => panic!("expected truncated"),
    }
    match Process.status(&None, true, false, &none) {
        CollectionStatus::Truncated { reason } => assert_eq!(reason, "item_count_limit"),
        _ => panic!("expected truncated"),
    }
    assert!(matches!(Process.status(&None, false, false, &none), CollectionStatus::Complete));
}

#[test]
fn block_stat_and_device_names() {
    let f = parse_io_stat("  1 2 3 4 5 6 7 8 9 10 11 12 13").expect("stat");
    assert_eq!(f.rd_ios, 1);
    assert_eq!(f.wr_ios, 5);
    assert_eq!(f.io_aveq, 11);
    assert!(parse_io_stat("1 2 3").is_none());
    let g = parse_io_stat("1 x 2 3 4 5 6 7 8 9 10 11").expect("stat");
    assert_eq!(g.rd_merges, 2);
    let k = classify_device("dm-0");
    assert!(k.dm && !k.loop_dev && !k.zram);
    assert!(classify_device("loop7").loop_dev);
    assert!(classify_device("zram0").zram);
    assert!(!classify_device("sda").dm);
}

#[test]
fn filesystem_lines_and_capacity() {
    assert_eq!(
        mount_line("/dev/sda1 / ext4 rw,relatime 0 0"),
        Some(("/dev/sda1".to_string(), "/".to_string(), "ext4".to_string()))
    );
    assert_eq!(mount_line("proc /proc"), None);
    assert!(is_pseudo_fs("proc"));
    assert!(is_pseudo_fs("tmpfs"));
    assert!(!is_pseudo_fs("ext4"));
    assert_eq!(capacity(100, 4096, 25, 1000, 400), (409600, 307200, 102400, 1000, 600));
    assert_eq!(capacity(u64::MAX, 2, 0, 5, 9), (u64::MAX, u64::MAX, 0, 5, 0));
    assert_eq!(
        fs_ids("DEVNAME=sda1\nID_FS_UUID=abcd\nID_FS_LABEL=root\n"),
        (Some("abcd".to_string()), Some("root".to_string()))
    );
    assert_eq!(fs_ids("nothing"), (None, None));
    let roots = FsRoots::default();
    let p = Filesystem.probe(&roots);
    assert!(p.available);
    assert!(p.degraded.is_empty());
}

#[test]
fn cpu_entries_and_kernel_livepatch() {
    assert_eq!(cpu_dir_id("cpu12"), Some(12));
    assert_eq!(cpu_dir_id("cpufreq"), None);
    assert_eq!(cpu_dir_id("cpu"), None);
    assert_eq!(cpu_dir_id("node0"), None);
    assert!(online_flag(&Some("1".into())));
    assert!(!online_flag(&Some("0".into())));
    assert!(!online_flag(&None));
    assert_eq!(livepatch_text(Some(2)), "present:2");
    assert_eq!(livepatch_text(None), "absent");
}

#[test]
fn cgroup_walk_helpers() {
    assert!(walk_visits(2, 49));
    assert!(!walk_visits(3, 0));
    assert!(!walk_visits(0, 50));
    assert_eq!(count_lines("a\nb\n"), 2);
    assert_eq!(first_line("x\ny"), "x");
    assert_eq!(first_line(""), "");
    assert_eq!(first_n_lines("a\nb\nc", 2), "a\nb");
    assert_eq!(first_n_lines("a", 5), "a");
    assert_eq!(cgroup_v2_path("a/b"), "/a/b");
    assert_eq!(cgroup_child_rel("", "x"), "x");
    assert_eq!(cgroup_child_rel("a", "x"), "a/x");
}

#[test]
fn meminfo_is_sorted_by_key() {
    let m = parse_meminfo("MemTotal:  100 kB\nBuffers: 5 kB\nno colon here\nActive(anon):   7 kB\nHugepages: x");
    let keys: Vec<&str> = m.iter().map(|e| e.key.as_str()).collect();
    assert_eq!(keys, vec!["Active(anon)", "Buffers", "Hugepages", "MemTotal"]);
    assert_eq!(m[0].value_kb, 7);
    assert_eq!(m[2].value_kb, 0);
    assert_eq!(m[3].value_kb, 100);
    assert_eq!(kb_of_bytes(2048), 2);
    assert_eq!(kb_of_bytes(1023), 0);
}

fn utmp_record(kind: i32, pid: i32, line: &str, user: &str, host: &str, sec: i32) -> Vec<u8> {
    let mut r = vec![0u8; UTMP_RECORD_SIZE];
    r[0..4].copy_from_slice(&kind.to_ne_bytes());
    r[4..8].copy_from_slice(&pid.to_ne_bytes());
    r[8..8 + line.len()].copy_from_slice(line.as_bytes());
    r[44..44 + user.len()].copy_from_slice(user.as_bytes());
    r[76..76 + host.len()].copy_from_slice(host.as_bytes());
    r[340..344].copy_from_slice(&sec.to_ne_bytes());
    r
}

#[test]
fn utmp_records_are_decoded() {
    let rec = utmp_record(7, 1234, "pts/0", "root", "10.0.0.1", 1700000000);
    let e = parse_utmp_record(&rec);
    assert_eq!(e.ut_type, 7);
    assert_eq!(e.ut_pid, 1234);
    assert_eq!(e.ut_line, "pts/0");
    assert_eq!(e.ut_user, "root");
    assert_eq!(e.ut_host, "10.0.0.1");
    assert_eq!(e.ut_tv_sec, 1700000000);
    assert_eq!(e.ut_tv_usec, 0);
    let mut data = rec.clone();
    data.extend(vec![0u8; UTMP_RECORD_SIZE]);
    data.extend(utmp_record(8, 1, "tty1", "", "", 0));
    data.extend(vec![0u8; 10]);
    let all = utmp_entries(&data).expect("entries");
    assert_eq!(all.len(), 2);
    assert_eq!(all[1].ut_line, "tty1");
    assert!(utmp_entries(&vec![0u8; UTMP_RECORD_SIZE]).is_none());
    let n = Session.items_collected(&Some(all), &None, &None);
    assert_eq!(n, 2);
}

#[test]
fn disk_mounts_skip_pseudo_filesystems() {
    let raw = "proc /proc proc rw 0 0\n/dev/sda1 / ext4 rw 0 0\nshort line\ntmpfs /run tmpfs rw 0 0\n/dev/sdb1 /data xfs rw 0 0\n";
    let m = disk_mounts(raw);
    assert_eq!(
        m,
        vec![
            ("/dev/sda1".to_string(), "/".to_string(), "ext4".to_string()),
            ("/dev/sdb1".to_string(), "/data".to_string(), "xfs".to_string()),
        ]
    );
    assert!(disk_mounts("").is_empty());
}

#[test]
fn device_walk_rules() {
    assert!(device_walk_visits(3, 99));
    assert!(!device_walk_visits(4, 0));
    assert!(!device_walk_visits(0, 100));
    assert!(is_device(true, false));
    assert!(is_device(false, true));
    assert!(!is_device(false, false));
    assert!(rebootsnap::text::str_starts_with("zram0", "zram"));
    assert!(!rebootsnap::text::str_starts_with("zr", "zram"));
}

#[test]
fn utmp_short_trailing_pieces_are_skipped() {
    assert!(utmp_entries(&vec![0u8; 10]).is_none());
    assert!(utmp_entries(&vec![7u8; 100]).is_none());
    let mut data = utmp_record(7, 1, "pts/1", "root", "", 0);
    data.extend(vec![b'x'; 200]);
    let e = utmp_entries(&data).expect("entries");
    assert_eq!(e.len(), 1);
    assert_eq!(e[0].ut_user, "root");
    let mut data = utmp_record(7, 1, "pts/1", "root", "", 0);
    data.extend(utmp_record(7, 2, "pts/2", "alice", "", 0)[..347].to_vec());
    assert_eq!(utmp_entries(&data).expect("entries").len(), 1);
    let mut data = utmp_record(7, 1, "pts/1", "root", "", 0);
    data.extend(utmp_record(7, 2, "pts/2", "alice", "", 0)[..348].to_vec());
    let e = utmp_entries(&data).expect("entries");
    assert_eq!(e.len(), 2);
    assert_eq!(e[1].ut_user, "alice");
}

#[test]
fn tcp_and_udp_parsers_agree_on_a_row() {
    for line in [TCP_LISTEN, TCP_ESTAB] {
        let t = parse_tcp_line(line).expect("tcp row");
        let u = parse_udp_line(line).expect("udp row");
        assert_eq!(t.local_addr, u.local_addr);
        assert_eq!(t.local_port, u.local_port);
        assert_eq!(t.remote_addr, u.remote_addr);
        assert_eq!(t.remote_port, u.remote_port);
        assert_eq!(t.uid, u.uid);
        assert_eq!(t.inode, u.inode);
    }
    assert!(parse_udp_line("too short line").is_none());
}

#[test]
fn meminfo_entries_are_sorted_and_all_kept() {
    let m = parse_meminfo("Zswap: 1 kB\nActive: 2 kB\nno colon\nMemFree: 3 kB\nActive: 4 kB");
    let keys: Vec<&str> = m.iter().map(|e| e.key.as_str()).collect();
    assert_eq!(keys, vec!["Active", "Active", "MemFree", "Zswap"]);
    let values: Vec<i64> = m.iter().map(|e| e.value_kb).collect();
    assert_eq!(values, vec![2, 4, 3, 1]);
}

#[test]
fn caps_are_empty_exactly_when_low_bits_are_clear() {
    assert_eq!(decode_caps(Some(0xFFFF_FE00_0000_0000)), None);
    assert_eq!(decode_caps(Some(1u64 << 40)), Some(vec!["cap_40".to_string()]));
}
