//! RT-10: block devices and storage I/O.
use vstd::prelude::*;

use crate::collector::{
    probe_files, probe_post, status_with_unsupported, status_with_unsupported_spec, str_views,
    strings_view, CollectionStatus, ProbeOutcome,
};
use crate::fs::FsRoots;
use crate::text::{chars_of, parse_uint, parse_unsigned, seqs_of, words, words_of};

verus! {

/// The RT-10 collector.
pub struct Block;

/// The files that RT-10 reads, in the order its record uses them.
pub const FILES: [&'static str; 5] = [
    "/proc/diskstats",
    "/proc/partitions",
    "/proc/pressure/io",
    "/proc/sys/fs/aio-max-nr",
    "/proc/sys/fs/aio-nr",
];

/// Inputs whose absence means the kernel lacks the feature.
pub const UNSUPPORTED_IF_MISSING: [&'static str; 1] = ["/proc/pressure/io"];

/// The eleven counters of a block device's `stat` file.
pub struct IoStatFields {
    pub rd_ios: u64,
    pub rd_merges: u64,
    pub rd_sectors: u64,
    pub rd_ticks: u64,
    pub wr_ios: u64,
    pub wr_merges: u64,
    pub wr_sectors: u64,
    pub wr_ticks: u64,
    pub ios_in_progress: u64,
    pub io_ticks: u64,
    pub io_aveq: u64,
}

/// The words of `words` that parse as `u64`, as numbers, in order.
pub open spec fn u64_words(ws: Seq<Seq<char>>) -> Seq<int>
    decreases ws.len(),
{
    if ws.len() == 0 {
        seq![]
    } else {
        let prev = u64_words(ws.drop_last());
        match parse_unsigned(ws.last(), 10, u64::MAX as int) {
            Some(v) => prev.push(v),
            None => prev,
        }
    }
}

/// The counters of a `stat` line: its words that are numbers, the first
/// eleven in order; `None` when fewer than eleven are.
pub open spec fn io_stat_spec(s: Seq<char>) -> Option<Seq<int>> {
    let nums = u64_words(words_of(s));
    if nums.len() < 11 {
        None
    } else {
        Some(nums.take(11))
    }
}

pub open spec fn io_stat_view(f: IoStatFields) -> Seq<int> {
    seq![
        f.rd_ios as int,
        f.rd_merges as int,
        f.rd_sectors as int,
        f.rd_ticks as int,
        f.wr_ios as int,
        f.wr_merges as int,
        f.wr_sectors as int,
        f.wr_ticks as int,
        f.ios_in_progress as int,
        f.io_ticks as int,
        f.io_aveq as int,
    ]
}

/// The counters of a `stat` line are its numeric words in column order:
/// the `k`-th counter is the `k`-th number of the line, for each of the
/// eleven, and there are counters exactly when the line has eleven numbers.
pub proof fn lemma_io_stat_columns(s: Seq<char>)
    ensures
        io_stat_spec(s) is Some <==> u64_words(words_of(s)).len() >= 11,
        io_stat_spec(s) is Some ==> io_stat_spec(s)->0.len() == 11 && forall|k: int|
            0 <= k < 11 ==> #[trigger] io_stat_spec(s)->0[k] == u64_words(words_of(s))[k],
{
}

/// Parses the counters of a block device's `stat` file: each counter is
/// the number in its own column (read, then write, then queue counters).
pub fn parse_io_stat(stat_str: &str) -> (r: Option<IoStatFields>)
    ensures
        r is Some <==> io_stat_spec(stat_str@) is Some,
        r matches Some(f) ==> io_stat_view(f) == io_stat_spec(stat_str@)->0,
        r is Some <==> u64_words(words_of(stat_str@)).len() >= 11,
        r matches Some(f) ==> {
            &&& f.rd_ios == u64_words(words_of(stat_str@))[0]
            &&& f.rd_merges == u64_words(words_of(stat_str@))[1]
            &&& f.rd_sectors == u64_words(words_of(stat_str@))[2]
            &&& f.rd_ticks == u64_words(words_of(stat_str@))[3]
            &&& f.wr_ios == u64_words(words_of(stat_str@))[4]
            &&& f.wr_merges == u64_words(words_of(stat_str@))[5]
            &&& f.wr_sectors == u64_words(words_of(stat_str@))[6]
            &&& f.wr_ticks == u64_words(words_of(stat_str@))[7]
            &&& f.ios_in_progress == u64_words(words_of(stat_str@))[8]
            &&& f.io_ticks == u64_words(words_of(stat_str@))[9]
            &&& f.io_aveq == u64_words(words_of(stat_str@))[10]
        },
{
    let c = chars_of(stat_str);
    let ws = words(c.as_slice());
    let mut parts: Vec<u64> = Vec::new();
    let mut i: usize = 0;
    while i < ws.len()
        invariant
            i <= ws@.len(),
            seqs_of(ws@) == words_of(stat_str@),
            parts@.map_values(|v: u64| v as int) == u64_words(seqs_of(ws@).take(i as int)),
        decreases ws.len() - i,
    {
        let ghost t = seqs_of(ws@).take(i + 1);
        assert(t.drop_last() =~= seqs_of(ws@).take(i as int));
        assert(t.last() == ws@[i as int]@);
        let ghost prev = parts@.map_values(|v: u64| v as int);
        match parse_uint(ws[i].as_slice(), 10, u64::MAX) {
            Some(v) => {
                parts.push(v);
                assert(parts@.map_values(|v: u64| v as int) =~= prev.push(v as int));
            },
            None => {},
        }
        i = i + 1;
    }
    assert(seqs_of(ws@).take(i as int) =~= seqs_of(ws@));
    let ghost nums = parts@.map_values(|v: u64| v as int);
    assert(nums.len() == parts@.len());
    if parts.len() < 11 {
        return None;
    }
    let f = IoStatFields {
        rd_ios: parts[0],
        rd_merges: parts[1],
        rd_sectors: parts[2],
        rd_ticks: parts[3],
        wr_ios: parts[4],
        wr_merges: parts[5],
        wr_sectors: parts[6],
        wr_ticks: parts[7],
        ios_in_progress: parts[8],
        io_ticks: parts[9],
        io_aveq: parts[10],
    };
    assert(io_stat_view(f) =~= nums.take(11));
    Some(f)
}

/// What a block device's name says about it.
pub struct DeviceKind {
    pub dm: bool,
    pub loop_dev: bool,
    pub zram: bool,
}

/// Device-mapper devices are named `dm-*`, loop devices `loop*` and zram
/// devices `zram*`.
pub fn classify_device(name: &str) -> (k: DeviceKind)
    ensures
        k.dm == (name@.len() >= 3 && name@.take(3) == seq!['d', 'm', '-']),
        k.loop_dev == (name@.len() >= 4 && name@.take(4) == seq!['l', 'o', 'o', 'p']),
        k.zram == (name@.len() >= 4 && name@.take(4) == seq!['z', 'r', 'a', 'm']),
{
    let c = chars_of(name);
    let dm: [char; 3] = ['d', 'm', '-'];
    let lp: [char; 4] = ['l', 'o', 'o', 'p'];
    let zr: [char; 4] = ['z', 'r', 'a', 'm'];
    assert(dm@ =~= seq!['d', 'm', '-']);
    assert(lp@ =~= seq!['l', 'o', 'o', 'p']);
    assert(zr@ =~= seq!['z', 'r', 'a', 'm']);
    DeviceKind {
        dm: crate::text::starts_with(c.as_slice(), dm.as_slice()),
        loop_dev: crate::text::starts_with(c.as_slice(), lp.as_slice()),
        zram: crate::text::starts_with(c.as_slice(), zr.as_slice()),
    }
}

impl Block {
    /// Which of the block files exist under `roots`.
    pub fn probe(&self, roots: &FsRoots) -> (r: ProbeOutcome)
        ensures
            probe_post(r, *roots, str_views(FILES@), "all block files missing"@),
    {
        probe_files(roots, FILES.as_slice(), "all block files missing")
    }

    /// The status after the record was written, given what the probe found missing.
    pub fn status(&self, degraded: &Vec<String>) -> (r: CollectionStatus)
        ensures
            r@ == status_with_unsupported_spec(
                strings_view(degraded@),
                str_views(UNSUPPORTED_IF_MISSING@),
            ),
    {
        status_with_unsupported(degraded, UNSUPPORTED_IF_MISSING.as_slice())
    }
}

} // verus!
