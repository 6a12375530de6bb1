//! The collectors and the types that describe what one probe and one
//! collection did: capability probing over the files a collector reads, and
//! the rules that turn what was missing into a collection status.
pub mod block;
pub mod boot;
pub mod cpu;
pub mod device;
pub mod events;
pub mod fd;
pub mod filesystem;
pub mod ipc_ns_cg;
pub mod kernel;
pub mod memory;
pub mod mount;
pub mod netdev;
pub mod netfilter;
pub mod power;
pub mod sections;
pub mod process;
pub mod security;
pub mod session;
pub mod socket;
pub mod systemd;
pub mod time;
pub mod tmpfs;

use std::time::Duration;
use vstd::prelude::*;

use crate::fs::FsRoots;
use crate::text::{chars_eq, chars_of, seqs_of, string_of};

verus! {

/// What a probe found: whether the collector can run, which of its inputs
/// are missing, and why it cannot run when it cannot.
pub struct ProbeOutcome {
    pub available: bool,
    pub degraded: Vec<String>,
    pub reason: Option<String>,
    pub roots: FsRoots,
}

/// How one collection ended.
pub enum CollectionStatus {
    Complete,
    Truncated { reason: String },
    Degraded { missing: Vec<String> },
    Partial { degrading: Vec<String> },
    Unsupported { reason: String },
    PermissionDenied,
    Failed { reason: String },
    TimedOut,
}

/// The result of one collection, with the values the summary needs.
pub struct CollectionOutcome {
    pub status: CollectionStatus,
    pub duration: Duration,
    pub file_size: u64,
    pub items_total: Option<u64>,
    pub items_collected: Option<u64>,
    pub mem_total_kb: Option<i64>,
    pub mem_available_kb: Option<i64>,
    pub hostname: Option<String>,
    pub kernel_version: Option<String>,
    pub boot_id: Option<String>,
    pub uptime_seconds: Option<u64>,
}

/// The mathematical value of a collection status.
pub enum StatusView {
    Complete,
    Truncated(Seq<char>),
    Degraded(Seq<Seq<char>>),
    Partial(Seq<Seq<char>>),
    Unsupported(Seq<char>),
    PermissionDenied,
    Failed(Seq<char>),
    TimedOut,
}

pub open spec fn strings_view(v: Seq<String>) -> Seq<Seq<char>> {
    v.map_values(|s: String| s@)
}

impl View for CollectionStatus {
    type V = StatusView;

    open spec fn view(&self) -> StatusView {
        match self {
            CollectionStatus::Complete => StatusView::Complete,
            CollectionStatus::Truncated { reason } => StatusView::Truncated(reason@),
            CollectionStatus::Degraded { missing } => StatusView::Degraded(strings_view(missing@)),
            CollectionStatus::Partial { degrading } => StatusView::Partial(
                strings_view(degrading@),
            ),
            CollectionStatus::Unsupported { reason } => StatusView::Unsupported(reason@),
            CollectionStatus::PermissionDenied => StatusView::PermissionDenied,
            CollectionStatus::Failed { reason } => StatusView::Failed(reason@),
            CollectionStatus::TimedOut => StatusView::TimedOut,
        }
    }
}

/// `list` joined with `sep` between neighbours.
pub open spec fn seq_join(list: Seq<Seq<char>>, sep: Seq<char>) -> Seq<char>
    decreases list.len(),
{
    if list.len() == 0 {
        seq![]
    } else if list.len() == 1 {
        list[0]
    } else {
        seq_join(list.drop_last(), sep) + sep + list.last()
    }
}

/// A copy of a list of strings.
pub fn clone_strings(v: &Vec<String>) -> (r: Vec<String>)
    ensures
        strings_view(r@) == strings_view(v@),
{
    let mut r: Vec<String> = Vec::new();
    let mut i: usize = 0;
    while i < v.len()
        invariant
            i <= v@.len(),
            strings_view(r@) == strings_view(v@).take(i as int),
        decreases v.len() - i,
    {
        let s = v[i].clone();
        let ghost prev = strings_view(r@);
        r.push(s);
        assert(strings_view(r@) =~= prev.push(v@[i as int]@));
        assert(strings_view(v@).take(i + 1) =~= strings_view(v@).take(i as int).push(
            v@[i as int]@,
        ));
        i = i + 1;
    }
    assert(strings_view(v@).take(i as int) =~= strings_view(v@));
    r
}

/// The first `cap` items of a listing, in their order: how a collector
/// bounds the entries it records.
pub fn keep_first<T>(items: Vec<T>, cap: usize) -> (r: Vec<T>)
    ensures
        r@ == if items@.len() <= cap {
            items@
        } else {
            items@.take(cap as int)
        },
{
    let mut items = items;
    items.truncate(cap);
    items
}

/// The strings of `list` joined with `sep`.
pub fn join_strings(list: &Vec<String>, sep: &str) -> (r: String)
    ensures
        r@ == seq_join(strings_view(list@), sep@),
{
    let mut acc: String = String::new();
    let mut i: usize = 0;
    while i < list.len()
        invariant
            i <= list@.len(),
            acc@ == seq_join(strings_view(list@).take(i as int), sep@),
        decreases list.len() - i,
    {
        let ghost pre = strings_view(list@).take(i as int);
        let ghost nxt = strings_view(list@).take(i + 1);
        assert(nxt.drop_last() =~= pre);
        if i > 0 {
            acc.append(sep);
        }
        acc.append(list[i].as_str());
        proof {
            if i == 0 {
                assert(acc@ =~= nxt[0]);
            }
        }
        i = i + 1;
    }
    assert(strings_view(list@).take(i as int) =~= strings_view(list@));
    acc
}

/// The probe verdict for a collector whose inputs are `files`, of which
/// those with `present[i]` exist: it can run when any exists, and then the
/// missing ones are listed as degraded; when none exists it cannot run, for
/// `reason`.
pub open spec fn probe_verdict(
    files: Seq<Seq<char>>,
    present: Seq<bool>,
    reason: Seq<char>,
) -> (bool, Seq<Seq<char>>, Option<Seq<char>>) {
    let missing = missing_files(files, present);
    if missing.len() == files.len() {
        (false, seq![], Some(reason))
    } else {
        (true, missing, None)
    }
}

/// The files that are not present, in order.
pub open spec fn missing_files(files: Seq<Seq<char>>, present: Seq<bool>) -> Seq<Seq<char>>
    decreases files.len(),
{
    if files.len() == 0 {
        seq![]
    } else {
        let prev = missing_files(files.drop_last(), present);
        if present[files.len() - 1] {
            prev
        } else {
            prev.push(files.last())
        }
    }
}

pub proof fn lemma_missing_len(files: Seq<Seq<char>>, present: Seq<bool>)
    ensures
        missing_files(files, present).len() <= files.len(),
        missing_files(files, present).len() == files.len() <==> forall|i: int|
            0 <= i < files.len() ==> !#[trigger] present[i],
    decreases files.len(),
{
    if files.len() > 0 {
        lemma_missing_len(files.drop_last(), present);
        if missing_files(files, present).len() == files.len() {
            assert forall|i: int| 0 <= i < files.len() implies !#[trigger] present[i] by {
                if i < files.len() - 1 {
                    assert(!present[i]);
                }
            }
        }
    }
}

pub open spec fn str_views(files: Seq<&str>) -> Seq<Seq<char>> {
    files.map_values(|f: &str| f@)
}

pub open spec fn probe_view(p: ProbeOutcome) -> (bool, Seq<Seq<char>>, Option<Seq<char>>) {
    (
        p.available,
        strings_view(p.degraded@),
        match p.reason {
            Some(r) => Some(r@),
            None => None,
        },
    )
}

/// Decides a probe from which of the collector's files exist.
pub fn probe_from_presence(files: &[&str], present: &[bool], reason: &str, roots: FsRoots) -> (r:
    ProbeOutcome)
    requires
        present@.len() == files@.len(),
    ensures
        probe_view(r) == probe_verdict(str_views(files@), present@, reason@),
        r.roots@ == roots@,
        r.available <==> exists|i: int| 0 <= i < files@.len() && #[trigger] present@[i],
{
    let mut missing: Vec<String> = Vec::new();
    let mut i: usize = 0;
    while i < files.len()
        invariant
            i <= files@.len(),
            present@.len() == files@.len(),
            strings_view(missing@) == missing_files(str_views(files@).take(i as int), present@),
        decreases files.len() - i,
    {
        let ghost fs = str_views(files@).take(i + 1);
        assert(fs.drop_last() =~= str_views(files@).take(i as int));
        if !present[i] {
            let f = string_of(chars_of(files[i]).as_slice());
            let ghost prev = strings_view(missing@);
            missing.push(f);
            assert(strings_view(missing@) =~= prev.push(files@[i as int]@));
        }
        i = i + 1;
    }
    assert(str_views(files@).take(i as int) =~= str_views(files@));
    proof {
        lemma_missing_len(str_views(files@), present@);
    }
    if missing.len() == files.len() {
        proof {
            if exists|k: int| 0 <= k < files@.len() && #[trigger] present@[k] {
                let k = choose|k: int| 0 <= k < files@.len() && #[trigger] present@[k];
                assert(!present@[k]);
            }
        }
        ProbeOutcome {
            available: false,
            degraded: Vec::new(),
            reason: Some(string_of(chars_of(reason).as_slice())),
            roots,
        }
    } else {
        proof {
            let k = choose|k: int| 0 <= k < files@.len() && !(!#[trigger] present@[k]);
            assert(present@[k]);
        }
        ProbeOutcome { available: true, degraded: missing, reason: None, roots }
    }
}

/// Probes a collector by checking which of its files exist under `roots`.
/// Whatever the disk holds, a collector that cannot run carries `reason`
/// and no degraded list, and one that can carries no reason and lists only
/// some of its own files.
pub fn probe_files(roots: &FsRoots, files: &[&str], reason: &str) -> (r: ProbeOutcome)
    ensures
        probe_post(r, *roots, str_views(files@), reason@),
{
    let mut present: Vec<bool> = Vec::new();
    let mut i: usize = 0;
    while i < files.len()
        invariant
            i <= files@.len(),
            present@.len() == i,
        decreases files.len() - i,
    {
        present.push(roots.exists_at(files[i]));
        i = i + 1;
    }
    let r = probe_from_presence(files, present.as_slice(), reason, roots.clone());
    proof {
        assert(strings_view(r.degraded@).len() == r.degraded@.len());
        lemma_missing_len(str_views(files@), present@);
        if r.available {
            lemma_missing_within(str_views(files@), present@);
            assert forall|k: int| 0 <= k < r.degraded@.len() implies str_views(files@).contains(
                #[trigger] r.degraded@[k]@,
            ) by {
                assert(strings_view(r.degraded@)[k] == r.degraded@[k]@);
            }
        }
    }
    r
}

proof fn lemma_missing_within(files: Seq<Seq<char>>, present: Seq<bool>)
    ensures
        forall|k: int|
            0 <= k < missing_files(files, present).len() ==> files.contains(
                #[trigger] missing_files(files, present)[k],
            ),
    decreases files.len(),
{
    if files.len() > 0 {
        lemma_missing_within(files.drop_last(), present);
        let prev = missing_files(files.drop_last(), present);
        assert forall|k: int| 0 <= k < missing_files(files, present).len() implies files.contains(
            #[trigger] missing_files(files, present)[k],
        ) by {
            if k < prev.len() {
                assert(files.drop_last().contains(prev[k]));
                let w = choose|w: int| 0 <= w < files.drop_last().len() && files.drop_last()[w] == prev[k];
                assert(files[w] == prev[k]);
            } else {
                assert(files[files.len() - 1] == missing_files(files, present)[k]);
            }
        }
    }
}

/// What a file-based probe guarantees whatever the disk holds.
pub open spec fn probe_post(
    r: ProbeOutcome,
    roots: FsRoots,
    files: Seq<Seq<char>>,
    reason: Seq<char>,
) -> bool {
    &&& !r.available ==> probe_view(r).2 == Some(reason) && r.degraded@.len() == 0
    &&& r.available ==> r.reason is None
    &&& r.available ==> forall|k: int|
        0 <= k < r.degraded@.len() ==> files.contains(#[trigger] r.degraded@[k]@)
    &&& r.roots@ == roots@
}

/// `Ok` when nothing is degraded, else `Partial` with the degraded list.
pub fn partial_status(degraded: &Vec<String>) -> (r: CollectionStatus)
    ensures
        r@ == if degraded@.len() == 0 {
            StatusView::Complete
        } else {
            StatusView::Partial(strings_view(degraded@))
        },
{
    if degraded.len() == 0 {
        CollectionStatus::Complete
    } else {
        CollectionStatus::Partial { degrading: clone_strings(degraded) }
    }
}

/// `Ok` when nothing is missing, else `Degraded` with the missing list.
pub fn degraded_status(missing: &Vec<String>) -> (r: CollectionStatus)
    ensures
        r@ == if missing@.len() == 0 {
            StatusView::Complete
        } else {
            StatusView::Degraded(strings_view(missing@))
        },
{
    if missing.len() == 0 {
        CollectionStatus::Complete
    } else {
        CollectionStatus::Degraded { missing: clone_strings(missing) }
    }
}

/// The degraded entries of `degraded` that are (or, with `keep == false`,
/// are not) in `list`, in order.
pub open spec fn filter_in(degraded: Seq<Seq<char>>, list: Seq<Seq<char>>, keep: bool) -> Seq<
    Seq<char>,
>
    decreases degraded.len(),
{
    if degraded.len() == 0 {
        seq![]
    } else {
        let prev = filter_in(degraded.drop_last(), list, keep);
        if list.contains(degraded.last()) == keep {
            prev.push(degraded.last())
        } else {
            prev
        }
    }
}

/// The status of a collector that wrote its output, given what its probe
/// found missing and which of its inputs a kernel may simply not have:
/// `Partial` with the other missing inputs when there are any, else
/// `Unsupported` naming the absent optional ones (joined by `", "`), else `Ok`.
pub open spec fn status_with_unsupported_spec(
    degraded: Seq<Seq<char>>,
    unsupported_if_missing: Seq<Seq<char>>,
) -> StatusView {
    let unsupported = filter_in(degraded, unsupported_if_missing, true);
    let rest = filter_in(degraded, unsupported_if_missing, false);
    if rest.len() > 0 {
        StatusView::Partial(rest)
    } else if unsupported.len() > 0 {
        StatusView::Unsupported(seq_join(unsupported, seq![',', ' ']))
    } else {
        StatusView::Complete
    }
}

fn contains_str(list: &[&str], s: &String) -> (r: bool)
    ensures
        r == str_views(list@).contains(s@),
{
    let c = chars_of(s.as_str());
    let mut i: usize = 0;
    while i < list.len()
        invariant
            i <= list@.len(),
            c@ == s@,
            forall|j: int| 0 <= j < i ==> list@[j]@ != s@,
        decreases list.len() - i,
    {
        let l = chars_of(list[i]);
        if crate::text::chars_eq(l.as_slice(), c.as_slice()) {
            assert(str_views(list@)[i as int] == s@);
            return true;
        }
        i = i + 1;
    }
    proof {
        if str_views(list@).contains(s@) {
            let w = choose|w: int| 0 <= w < str_views(list@).len() && str_views(list@)[w] == s@;
            assert(list@[w]@ == s@);
        }
    }
    false
}

/// Whether `list` holds a string equal to `s`.
pub fn contains_string(list: &Vec<String>, s: &str) -> (r: bool)
    ensures
        r == strings_view(list@).contains(s@),
{
    let c = chars_of(s);
    let mut i: usize = 0;
    while i < list.len()
        invariant
            i <= list@.len(),
            c@ == s@,
            forall|j: int| 0 <= j < i ==> list@[j]@ != s@,
        decreases list.len() - i,
    {
        let l = chars_of(list[i].as_str());
        if chars_eq(l.as_slice(), c.as_slice()) {
            assert(strings_view(list@)[i as int] == s@);
            return true;
        }
        i = i + 1;
    }
    proof {
        if strings_view(list@).contains(s@) {
            let w = choose|w: int| 0 <= w < strings_view(list@).len() && strings_view(list@)[w] == s@;
            assert(list@[w]@ == s@);
        }
    }
    false
}

/// The status of a collector that wrote its output, splitting the missing
/// inputs into those the kernel may lack and the rest.
pub fn status_with_unsupported(degraded: &Vec<String>, unsupported_if_missing: &[&str]) -> (r:
    CollectionStatus)
    ensures
        r@ == status_with_unsupported_spec(
            strings_view(degraded@),
            str_views(unsupported_if_missing@),
        ),
{
    let ghost list = str_views(unsupported_if_missing@);
    let mut unsupported: Vec<String> = Vec::new();
    let mut rest: Vec<String> = Vec::new();
    let mut i: usize = 0;
    while i < degraded.len()
        invariant
            i <= degraded@.len(),
            list == str_views(unsupported_if_missing@),
            strings_view(unsupported@) == filter_in(
                strings_view(degraded@).take(i as int),
                list,
                true,
            ),
            strings_view(rest@) == filter_in(strings_view(degraded@).take(i as int), list, false),
        decreases degraded.len() - i,
    {
        let ghost d = strings_view(degraded@).take(i + 1);
        assert(d.drop_last() =~= strings_view(degraded@).take(i as int));
        assert(d.last() == degraded@[i as int]@);
        let f = degraded[i].clone();
        if contains_str(unsupported_if_missing, &degraded[i]) {
            let ghost prev = strings_view(unsupported@);
            unsupported.push(f);
            assert(strings_view(unsupported@) =~= prev.push(degraded@[i as int]@));
        } else {
            let ghost prev = strings_view(rest@);
            rest.push(f);
            assert(strings_view(rest@) =~= prev.push(degraded@[i as int]@));
        }
        i = i + 1;
    }
    assert(strings_view(degraded@).take(i as int) =~= strings_view(degraded@));
    if rest.len() > 0 {
        CollectionStatus::Partial { degrading: rest }
    } else if unsupported.len() > 0 {
        let sep: [char; 2] = [',', ' '];
        let sep_s = string_of(sep.as_slice());
        assert(sep@ =~= seq![',', ' ']);
        CollectionStatus::Unsupported { reason: join_strings(&unsupported, sep_s.as_str()) }
    } else {
        CollectionStatus::Complete
    }
}

/// The outcome of a collection that did not run because its probe found it
/// unavailable: `Failed` with the probe's reason (empty when it gave none).
pub fn unavailable_outcome(probe: &ProbeOutcome, duration: Duration) -> (r: CollectionOutcome)
    ensures
        r@.status == StatusView::Failed(
            match probe.reason {
                Some(s) => s@,
                None => Seq::<char>::empty(),
            },
        ),
        r.duration == duration,
        r.file_size == 0,
        outcome_extras_empty(r),
{
    let reason = match &probe.reason {
        Some(s) => s.clone(),
        None => String::new(),
    };
    failed_outcome(reason, duration)
}

pub open spec fn outcome_extras_empty(r: CollectionOutcome) -> bool {
    &&& r.items_total is None
    &&& r.items_collected is None
    &&& r.mem_total_kb is None
    &&& r.mem_available_kb is None
    &&& r.hostname is None
    &&& r.kernel_version is None
    &&& r.boot_id is None
    &&& r.uptime_seconds is None
}

pub struct OutcomeView {
    pub status: StatusView,
    pub file_size: u64,
}

impl View for CollectionOutcome {
    type V = OutcomeView;

    open spec fn view(&self) -> OutcomeView {
        OutcomeView { status: self.status@, file_size: self.file_size }
    }
}

/// A failed collection with the given reason and nothing else known.
pub fn failed_outcome(reason: String, duration: Duration) -> (r: CollectionOutcome)
    ensures
        r@.status == StatusView::Failed(reason@),
        r.duration == duration,
        r.file_size == 0,
        outcome_extras_empty(r),
{
    plain_outcome(CollectionStatus::Failed { reason }, duration, 0)
}

/// An outcome with a status, a duration and a file size, and no summary values.
pub fn plain_outcome(status: CollectionStatus, duration: Duration, file_size: u64) -> (r:
    CollectionOutcome)
    ensures
        r.status == status,
        r.duration == duration,
        r.file_size == file_size,
        outcome_extras_empty(r),
{
    CollectionOutcome {
        status,
        duration,
        file_size,
        items_total: None,
        items_collected: None,
        mem_total_kb: None,
        mem_available_kb: None,
        hostname: None,
        kernel_version: None,
        boot_id: None,
        uptime_seconds: None,
    }
}

/// The outcome of a collection whose JSON document of `original_size`
/// bytes exceeded 64 MiB: the document is dropped and no file is made; the
/// item is truncated by the size limit and records the size the document
/// had.
pub fn size_limit_outcome(duration: Duration, original_size: u64) -> (r: CollectionOutcome)
    ensures
        r@.status == StatusView::Truncated("size_limit"@),
        r.duration == duration,
        r.file_size == original_size,
        outcome_extras_empty(r),
{
    plain_outcome(
        CollectionStatus::Truncated { reason: String::from_str("size_limit") },
        duration,
        original_size,
    )
}

/// The outcome recorded for a collection that its time limit cut off.
pub fn timed_out_outcome(zero: Duration) -> (r: CollectionOutcome)
    ensures
        r@.status == StatusView::TimedOut,
        r.duration == zero,
        r.file_size == 0,
        outcome_extras_empty(r),
{
    plain_outcome(CollectionStatus::TimedOut, zero, 0)
}

/// The manifest's word for a status: the manifest knows `ok`, `truncated`,
/// `degraded`, `failed` and `timed_out`; a collection that lacks some inputs
/// (missing, unsupported or unreadable) is `degraded`.
pub open spec fn status_label(s: StatusView) -> Seq<char> {
    match s {
        StatusView::Complete => seq!['o', 'k'],
        StatusView::Truncated(_) => seq!['t', 'r', 'u', 'n', 'c', 'a', 't', 'e', 'd'],
        StatusView::Degraded(_) => seq!['d', 'e', 'g', 'r', 'a', 'd', 'e', 'd'],
        StatusView::Partial(_) => seq!['d', 'e', 'g', 'r', 'a', 'd', 'e', 'd'],
        StatusView::Unsupported(_) => seq!['d', 'e', 'g', 'r', 'a', 'd', 'e', 'd'],
        StatusView::PermissionDenied => seq!['d', 'e', 'g', 'r', 'a', 'd', 'e', 'd'],
        StatusView::Failed(_) => seq!['f', 'a', 'i', 'l', 'e', 'd'],
        StatusView::TimedOut => seq!['t', 'i', 'm', 'e', 'd', '_', 'o', 'u', 't'],
    }
}

/// The manifest's word for a status.
pub fn outcome_status(status: &CollectionStatus) -> (r: &'static str)
    ensures
        r@ == status_label(status@),
{
    proof {
        reveal_strlit("ok");
        reveal_strlit("truncated");
        reveal_strlit("degraded");
        reveal_strlit("failed");
        reveal_strlit("timed_out");
    }
    match status {
        CollectionStatus::Complete => "ok",
        CollectionStatus::Truncated { .. } => "truncated",
        CollectionStatus::Degraded { .. } => "degraded",
        CollectionStatus::Partial { .. } => "degraded",
        CollectionStatus::Unsupported { .. } => "degraded",
        CollectionStatus::PermissionDenied => "degraded",
        CollectionStatus::Failed { .. } => "failed",
        CollectionStatus::TimedOut => "timed_out",
    }
}

/// A collector, by which the snapshot runs it: its identifier, the file it
/// writes and how long it may take.
pub enum CollectionTask {
    Boot(boot::Boot),
    Kernel(kernel::Kernel),
    Systemd(systemd::Systemd),
    Process(process::Process),
    Cpu(cpu::Cpu),
    Memory(memory::Memory),
    Fd(fd::Fd),
    Tmpfs(tmpfs::Tmpfs),
    Mount(mount::Mount),
    Block(block::Block),
    Netdev(netdev::Netdev),
    Socket(socket::Socket),
    Netfilter(netfilter::Netfilter),
    IpcNsCg(ipc_ns_cg::IpcNsCg),
    Session(session::Session),
    Security(security::Security),
    Device(device::Device),
    Power(power::Power),
    Time(time::Time),
    Events(events::Events),
    Filesystem(filesystem::Filesystem),
}

/// The number in a collector's `RT-NN` identifier.
pub open spec fn task_number(t: CollectionTask) -> nat {
    match t {
        CollectionTask::Boot(_) => 1,
        CollectionTask::Kernel(_) => 2,
        CollectionTask::Systemd(_) => 3,
        CollectionTask::Process(_) => 4,
        CollectionTask::Cpu(_) => 5,
        CollectionTask::Memory(_) => 6,
        CollectionTask::Fd(_) => 7,
        CollectionTask::Tmpfs(_) => 8,
        CollectionTask::Mount(_) => 9,
        CollectionTask::Block(_) => 10,
        CollectionTask::Netdev(_) => 11,
        CollectionTask::Socket(_) => 12,
        CollectionTask::Netfilter(_) => 13,
        CollectionTask::IpcNsCg(_) => 14,
        CollectionTask::Session(_) => 15,
        CollectionTask::Security(_) => 16,
        CollectionTask::Device(_) => 17,
        CollectionTask::Power(_) => 18,
        CollectionTask::Time(_) => 19,
        CollectionTask::Events(_) => 20,
        CollectionTask::Filesystem(_) => 22,
    }
}

/// The decimal digit of a number below ten.
pub open spec fn digit_char(d: nat) -> char {
    if d == 0 {
        '0'
    } else if d == 1 {
        '1'
    } else if d == 2 {
        '2'
    } else if d == 3 {
        '3'
    } else if d == 4 {
        '4'
    } else if d == 5 {
        '5'
    } else if d == 6 {
        '6'
    } else if d == 7 {
        '7'
    } else if d == 8 {
        '8'
    } else {
        '9'
    }
}

/// The two decimal digits of a number below 100.
pub open spec fn two_digits(n: nat) -> Seq<char> {
    seq![digit_char(n / 10), digit_char(n % 10)]
}

/// A collector's identifier: `RT-` and its number in two digits.
pub open spec fn task_id(t: CollectionTask) -> Seq<char> {
    "RT-"@ + two_digits(task_number(t))
}

/// The file that a collector writes.
pub open spec fn task_filename(t: CollectionTask) -> Seq<char> {
    match t {
        CollectionTask::Boot(_) => "boot.json"@,
        CollectionTask::Kernel(_) => "kernel.json"@,
        CollectionTask::Systemd(_) => "systemd.json"@,
        CollectionTask::Process(_) => "processes.jsonl"@,
        CollectionTask::Cpu(_) => "cpu.json"@,
        CollectionTask::Memory(_) => "memory.json"@,
        CollectionTask::Fd(_) => "fds.json"@,
        CollectionTask::Tmpfs(_) => "tmpfs.json"@,
        CollectionTask::Mount(_) => "mounts.json"@,
        CollectionTask::Block(_) => "block.json"@,
        CollectionTask::Netdev(_) => "netdev.json"@,
        CollectionTask::Socket(_) => "sockets.json"@,
        CollectionTask::Netfilter(_) => "netfilter.json"@,
        CollectionTask::IpcNsCg(_) => "ipc_ns_cg.json"@,
        CollectionTask::Session(_) => "sessions.json"@,
        CollectionTask::Security(_) => "security.json"@,
        CollectionTask::Device(_) => "devices.json"@,
        CollectionTask::Power(_) => "power.json"@,
        CollectionTask::Time(_) => "time.json"@,
        CollectionTask::Events(_) => "dmesg.json"@,
        CollectionTask::Filesystem(_) => "filesystem.json"@,
    }
}

/// Whether a collector reads many entries, so that it gets the longer time
/// limit.
pub open spec fn is_bulk(t: CollectionTask) -> bool {
    match t {
        CollectionTask::Process(_) => true,
        CollectionTask::Memory(_) => true,
        CollectionTask::Fd(_) => true,
        CollectionTask::Mount(_) => true,
        CollectionTask::Netdev(_) => true,
        CollectionTask::Socket(_) => true,
        _ => false,
    }
}

/// Whether a collector waits on system services over the bus or netlink,
/// so that it gets the middle time limit.
pub open spec fn is_service(t: CollectionTask) -> bool {
    match t {
        CollectionTask::Systemd(_) => true,
        CollectionTask::Netfilter(_) => true,
        _ => false,
    }
}

/// How many seconds a collector may take: `BULK_TIMEOUT_SECS` for those that
/// read many entries, `SERVICE_TIMEOUT_SECS` for those that wait on system
/// services, `ITEM_TIMEOUT_SECS` for the others.
pub open spec fn timeout_secs(t: CollectionTask) -> u64 {
    if is_bulk(t) {
        BULK_TIMEOUT_SECS
    } else if is_service(t) {
        SERVICE_TIMEOUT_SECS
    } else {
        ITEM_TIMEOUT_SECS
    }
}

/// The time limit of a collector that reads few entries.
pub const ITEM_TIMEOUT_SECS: u64 = 2;

/// The time limit of a collector that waits on system services.
pub const SERVICE_TIMEOUT_SECS: u64 = 5;

/// The time limit of a collector that reads many entries.
pub const BULK_TIMEOUT_SECS: u64 = 10;

/// The time limit of the whole collection.
pub const GLOBAL_TIMEOUT_SECS: u64 = 300;

/// What `Duration::from_secs` gives for a number of seconds.
pub uninterp spec fn duration_of_secs(secs: u64) -> Duration;

/// Calls `Duration::from_secs`; its result is taken to be the duration named
/// `duration_of_secs(secs)`, a function of the seconds alone.
#[verifier::external_body]
fn duration_from_secs(secs: u64) -> (r: Duration)
    ensures
        r == duration_of_secs(secs),
{
    Duration::from_secs(secs)
}

impl CollectionTask {
    /// The collector's `RT-NN` identifier.
    pub fn id(&self) -> (r: &'static str)
        ensures
            r@ == task_id(*self),
    {
        match self {
            CollectionTask::Boot(_) => {
                let r = "RT-01";
                proof {
                    reveal_strlit("RT-01");
                    reveal_strlit("RT-");
                }
                assert(r@ =~= task_id(*self));
                r
            },
            CollectionTask::Kernel(_) => {
                let r = "RT-02";
                proof {
                    reveal_strlit("RT-02");
                    reveal_strlit("RT-");
                }
                assert(r@ =~= task_id(*self));
                r
            },
            CollectionTask::Systemd(_) => {
                let r = "RT-03";
                proof {
                    reveal_strlit("RT-03");
                    reveal_strlit("RT-");
                }
                assert(r@ =~= task_id(*self));
                r
            },
            CollectionTask::Process(_) => {
                let r = "RT-04";
                proof {
                    reveal_strlit("RT-04");
                    reveal_strlit("RT-");
                }
                assert(r@ =~= task_id(*self));
                r
            },
            CollectionTask::Cpu(_) => {
                let r = "RT-05";
                proof {
                    reveal_strlit("RT-05");
                    reveal_strlit("RT-");
                }
                assert(r@ =~= task_id(*self));
                r
            },
            CollectionTask::Memory(_) => {
                let r = "RT-06";
                proof {
                    reveal_strlit("RT-06");
                    reveal_strlit("RT-");
                }
                assert(r@ =~= task_id(*self));
                r
            },
            CollectionTask::Fd(_) => {
                let r = "RT-07";
                proof {
                    reveal_strlit("RT-07");
                    reveal_strlit("RT-");
                }
                assert(r@ =~= task_id(*self));
                r
            },
            CollectionTask::Tmpfs(_) => {
                let r = "RT-08";
                proof {
                    reveal_strlit("RT-08");
                    reveal_strlit("RT-");
                }
                assert(r@ =~= task_id(*self));
                r
            },
            CollectionTask::Mount(_) => {
                let r = "RT-09";
                proof {
                    reveal_strlit("RT-09");
                    reveal_strlit("RT-");
                }
                assert(r@ =~= task_id(*self));
                r
            },
            CollectionTask::Block(_) => {
                let r = "RT-10";
                proof {
                    reveal_strlit("RT-10");
                    reveal_strlit("RT-");
                }
                assert(r@ =~= task_id(*self));
                r
            },
            CollectionTask::Netdev(_) => {
                let r = "RT-11";
                proof {
                    reveal_strlit("RT-11");
                    reveal_strlit("RT-");
                }
                assert(r@ =~= task_id(*self));
                r
            },
            CollectionTask::Socket(_) => {
                let r = "RT-12";
                proof {
                    reveal_strlit("RT-12");
                    reveal_strlit("RT-");
                }
                assert(r@ =~= task_id(*self));
                r
            },
            CollectionTask::Netfilter(_) => {
                let r = "RT-13";
                proof {
                    reveal_strlit("RT-13");
                    reveal_strlit("RT-");
                }
                assert(r@ =~= task_id(*self));
                r
            },
            CollectionTask::IpcNsCg(_) => {
                let r = "RT-14";
                proof {
                    reveal_strlit("RT-14");
                    reveal_strlit("RT-");
                }
                assert(r@ =~= task_id(*self));
                r
            },
            CollectionTask::Session(_) => {
                let r = "RT-15";
                proof {
                    reveal_strlit("RT-15");
                    reveal_strlit("RT-");
                }
                assert(r@ =~= task_id(*self));
                r
            },
            CollectionTask::Security(_) => {
                let r = "RT-16";
                proof {
                    reveal_strlit("RT-16");
                    reveal_strlit("RT-");
                }
                assert(r@ =~= task_id(*self));
                r
            },
            CollectionTask::Device(_) => {
                let r = "RT-17";
                proof {
                    reveal_strlit("RT-17");
                    reveal_strlit("RT-");
                }
                assert(r@ =~= task_id(*self));
                r
            },
            CollectionTask::Power(_) => {
                let r = "RT-18";
                proof {
                    reveal_strlit("RT-18");
                    reveal_strlit("RT-");
                }
                assert(r@ =~= task_id(*self));
                r
            },
            CollectionTask::Time(_) => {
                let r = "RT-19";
                proof {
                    reveal_strlit("RT-19");
                    reveal_strlit("RT-");
                }
                assert(r@ =~= task_id(*self));
                r
            },
            CollectionTask::Events(_) => {
                let r = "RT-20";
                proof {
                    reveal_strlit("RT-20");
                    reveal_strlit("RT-");
                }
                assert(r@ =~= task_id(*self));
                r
            },
            CollectionTask::Filesystem(_) => {
                let r = "RT-22";
                proof {
                    reveal_strlit("RT-22");
                    reveal_strlit("RT-");
                }
                assert(r@ =~= task_id(*self));
                r
            },
        }
    }

    /// The file the collector writes.
    pub fn filename(&self) -> (r: &'static str)
        ensures
            r@ == task_filename(*self),
    {
        match self {
            CollectionTask::Boot(_) => "boot.json",
            CollectionTask::Kernel(_) => "kernel.json",
            CollectionTask::Systemd(_) => "systemd.json",
            CollectionTask::Process(_) => "processes.jsonl",
            CollectionTask::Cpu(_) => "cpu.json",
            CollectionTask::Memory(_) => "memory.json",
            CollectionTask::Fd(_) => "fds.json",
            CollectionTask::Tmpfs(_) => "tmpfs.json",
            CollectionTask::Mount(_) => "mounts.json",
            CollectionTask::Block(_) => "block.json",
            CollectionTask::Netdev(_) => "netdev.json",
            CollectionTask::Socket(_) => "sockets.json",
            CollectionTask::Netfilter(_) => "netfilter.json",
            CollectionTask::IpcNsCg(_) => "ipc_ns_cg.json",
            CollectionTask::Session(_) => "sessions.json",
            CollectionTask::Security(_) => "security.json",
            CollectionTask::Device(_) => "devices.json",
            CollectionTask::Power(_) => "power.json",
            CollectionTask::Time(_) => "time.json",
            CollectionTask::Events(_) => "dmesg.json",
            CollectionTask::Filesystem(_) => "filesystem.json",
        }
    }

    /// How many seconds the collector may take.
    pub fn timeout_secs(&self) -> (r: u64)
        ensures
            r == timeout_secs(*self),
    {
        match self {
            CollectionTask::Process(_) => BULK_TIMEOUT_SECS,
            CollectionTask::Memory(_) => BULK_TIMEOUT_SECS,
            CollectionTask::Fd(_) => BULK_TIMEOUT_SECS,
            CollectionTask::Mount(_) => BULK_TIMEOUT_SECS,
            CollectionTask::Netdev(_) => BULK_TIMEOUT_SECS,
            CollectionTask::Socket(_) => BULK_TIMEOUT_SECS,
            CollectionTask::Systemd(_) => SERVICE_TIMEOUT_SECS,
            CollectionTask::Netfilter(_) => SERVICE_TIMEOUT_SECS,
            _ => ITEM_TIMEOUT_SECS,
        }
    }

    /// How long the collector may take.
    pub fn item_timeout(&self) -> (r: Duration)
        ensures
            r == duration_of_secs(timeout_secs(*self)),
    {
        duration_from_secs(self.timeout_secs())
    }
}

/// Different collectors have different identifiers and write different
/// files, so a snapshot's items and files can be told apart by them.
pub proof fn lemma_tasks_distinct(a: CollectionTask, b: CollectionTask)
    requires
        a != b,
    ensures
        task_id(a) != task_id(b),
        task_filename(a) != task_filename(b),
{
    assert(task_number(a) != task_number(b));
    if task_id(a) == task_id(b) {
        reveal_strlit("RT-");
        assert(task_id(a)[3] == task_id(b)[3]);
        assert(task_id(a)[4] == task_id(b)[4]);
        assert(task_number(a) / 10 == task_number(b) / 10);
        assert(task_number(a) % 10 == task_number(b) % 10);
    }
    if task_filename(a) == task_filename(b) {
    reveal_strlit("block.json");
    reveal_strlit("boot.json");
    reveal_strlit("cpu.json");
    reveal_strlit("devices.json");
    reveal_strlit("dmesg.json");
    reveal_strlit("fds.json");
    reveal_strlit("filesystem.json");
    reveal_strlit("ipc_ns_cg.json");
    reveal_strlit("kernel.json");
    reveal_strlit("memory.json");
    reveal_strlit("mounts.json");
    reveal_strlit("netdev.json");
    reveal_strlit("netfilter.json");
    reveal_strlit("power.json");
    reveal_strlit("processes.jsonl");
    reveal_strlit("security.json");
    reveal_strlit("sessions.json");
    reveal_strlit("sockets.json");
    reveal_strlit("systemd.json");
    reveal_strlit("time.json");
    reveal_strlit("tmpfs.json");
        assert(task_filename(a).len() == task_filename(b).len());
        assert(task_filename(a)[0] == task_filename(b)[0]);
        assert(task_filename(a)[2] == task_filename(b)[2]);
    }
}

/// Two collectors write the same file exactly when they are the same
/// collector.
pub proof fn lemma_filename_identifies(a: CollectionTask, b: CollectionTask)
    ensures
        task_filename(a) == task_filename(b) <==> a == b,
{
    if a != b {
        lemma_tasks_distinct(a, b);
    }
}

/// Whether `s` ends with `suffix`.
pub open spec fn has_suffix(s: Seq<char>, suffix: Seq<char>) -> bool {
    s.len() >= suffix.len() && s.subrange(s.len() - suffix.len(), s.len() as int) == suffix
}

/// Only the process collector writes a JSON Lines file (its name ends in
/// `.jsonl`); every other collector writes one JSON document (its name ends
/// in `.json`).
pub proof fn lemma_filename_suffix(t: CollectionTask)
    ensures
        has_suffix(task_filename(t), ".jsonl"@) <==> t is Process,
        !(t is Process) ==> has_suffix(task_filename(t), ".json"@),
{
    reveal_strlit(".jsonl");
    reveal_strlit(".json");
    match t {
        CollectionTask::Boot(_) => {
            reveal_strlit("boot.json");
        },
        CollectionTask::Kernel(_) => {
            reveal_strlit("kernel.json");
        },
        CollectionTask::Systemd(_) => {
            reveal_strlit("systemd.json");
        },
        CollectionTask::Process(_) => {
            reveal_strlit("processes.jsonl");
        },
        CollectionTask::Cpu(_) => {
            reveal_strlit("cpu.json");
        },
        CollectionTask::Memory(_) => {
            reveal_strlit("memory.json");
        },
        CollectionTask::Fd(_) => {
            reveal_strlit("fds.json");
        },
        CollectionTask::Tmpfs(_) => {
            reveal_strlit("tmpfs.json");
        },
        CollectionTask::Mount(_) => {
            reveal_strlit("mounts.json");
        },
        CollectionTask::Block(_) => {
            reveal_strlit("block.json");
        },
        CollectionTask::Netdev(_) => {
            reveal_strlit("netdev.json");
        },
        CollectionTask::Socket(_) => {
            reveal_strlit("sockets.json");
        },
        CollectionTask::Netfilter(_) => {
            reveal_strlit("netfilter.json");
        },
        CollectionTask::IpcNsCg(_) => {
            reveal_strlit("ipc_ns_cg.json");
        },
        CollectionTask::Session(_) => {
            reveal_strlit("sessions.json");
        },
        CollectionTask::Security(_) => {
            reveal_strlit("security.json");
        },
        CollectionTask::Device(_) => {
            reveal_strlit("devices.json");
        },
        CollectionTask::Power(_) => {
            reveal_strlit("power.json");
        },
        CollectionTask::Time(_) => {
            reveal_strlit("time.json");
        },
        CollectionTask::Events(_) => {
            reveal_strlit("dmesg.json");
        },
        CollectionTask::Filesystem(_) => {
            reveal_strlit("filesystem.json");
        },
    }
    let f = task_filename(t);
    if t is Process {
        assert(f.subrange(f.len() - 6, f.len() as int) =~= ".jsonl"@);
    } else {
        assert(f.subrange(f.len() - 5, f.len() as int) =~= ".json"@);
        if f.len() >= 6 {
            assert(f.subrange(f.len() - 6, f.len() as int)[5] == f[f.len() - 1]);
        }
    }
}

/// The collectors of a snapshot, in the order of their numbers.
pub fn all_tasks() -> (r: Vec<CollectionTask>)
    ensures
        r@.len() == ALL_TASKS,
        forall|i: int, j: int| 0 <= i < j < r@.len() ==> task_number(r@[i]) < task_number(r@[j]),
{
    let mut r: Vec<CollectionTask> = Vec::new();
    r.push(CollectionTask::Boot(boot::Boot));
    r.push(CollectionTask::Kernel(kernel::Kernel));
    r.push(CollectionTask::Systemd(systemd::Systemd));
    r.push(CollectionTask::Process(process::Process));
    r.push(CollectionTask::Cpu(cpu::Cpu));
    r.push(CollectionTask::Memory(memory::Memory));
    r.push(CollectionTask::Fd(fd::Fd));
    r.push(CollectionTask::Tmpfs(tmpfs::Tmpfs));
    r.push(CollectionTask::Mount(mount::Mount));
    r.push(CollectionTask::Block(block::Block));
    r.push(CollectionTask::Netdev(netdev::Netdev));
    r.push(CollectionTask::Socket(socket::Socket));
    r.push(CollectionTask::Netfilter(netfilter::Netfilter));
    r.push(CollectionTask::IpcNsCg(ipc_ns_cg::IpcNsCg));
    r.push(CollectionTask::Session(session::Session));
    r.push(CollectionTask::Security(security::Security));
    r.push(CollectionTask::Device(device::Device));
    r.push(CollectionTask::Power(power::Power));
    r.push(CollectionTask::Time(time::Time));
    r.push(CollectionTask::Events(events::Events));
    r.push(CollectionTask::Filesystem(filesystem::Filesystem));
    r
}

/// The number of collectors.
pub const ALL_TASKS: usize = 21;

} // verus!
