# rebootsnap

A snapshot of a Linux host's runtime state, taken before a reboot: boot
identity, kernel parameters, services, processes, CPU, memory, file
descriptors, mounts, block devices, network interfaces and sockets, packet
filtering, IPC/namespaces/cgroups, sessions, security settings, devices,
power, time and the kernel log. Each collector (`RT-01` … `RT-22`) writes one
JSON or JSONL file; a manifest lists every collector's outcome, a summary
extracts a few indicators, and the directory is packed into a `.tar.gz`.

## Layout

- `src/` — the library, verified with Verus:
  - `text.rs`: line, word and field splitting, trimming and number parsing
    with specifications that match the standard library's behaviour;
  - `fs.rs`: mapping of `/proc`, `/sys`, `/dev`, `/etc` and `/run` onto
    configurable roots;
  - `output.rs`, `error.rs`: naming of the snapshot and the archive, the
    64 MiB / 50 000-line limits of the output files and their truncation;
  - `collector.rs` and `collector/`: the collectors — probing, parsing of
    kernel tables, and the rules that turn missing inputs into a status;
  - `manifest.rs`: the manifest entries and summary values.
- `app/` — the program around the library: file and bus I/O, netlink,
  serialisation, the concurrent run under time limits and the archive.
- `tests/` — tests of the library on concrete inputs.
