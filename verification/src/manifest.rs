//! The contents of a snapshot's manifest and summary files: one
//! manifest item per collector, in the collectors' order, and the host and
//! summary values taken from the outcomes of the boot, memory and process
//! collectors.
use std::time::Duration;
use vstd::prelude::*;

use crate::collector::{
    CollectionOutcome, CollectionStatus, CollectionTask, ProbeOutcome, StatusView, clone_strings,
    lemma_tasks_distinct, outcome_status, status_label, strings_view, task_filename, task_id,
    task_number,
};
use crate::text::{chars_eq, chars_of, string_of};

verus! {

/// What one collector's task gave back: its identifier, its file and its
/// outcome.
pub struct TaskResult {
    pub id: String,
    pub filename: String,
    pub outcome: CollectionOutcome,
}

/// What one probe found, with the identifier of its collector.
pub struct TaskProbe {
    pub id: String,
    pub probe: ProbeOutcome,
}

/// The manifest's entry for one collector.
pub struct ManifestItem {
    pub id: String,
    pub status: String,
    pub file: Option<String>,
    pub size_bytes: Option<u64>,
    pub duration_ms: Option<u64>,
    pub total_items: Option<u64>,
    pub collected_items: Option<u64>,
    pub truncation: Option<String>,
    pub missing: Option<Vec<String>>,
    pub error_reason: Option<String>,
}

pub struct ManifestItemView {
    pub id: Seq<char>,
    pub status: Seq<char>,
    pub file: Option<Seq<char>>,
    pub size_bytes: Option<u64>,
    pub duration_ms: Option<u64>,
    pub total_items: Option<u64>,
    pub collected_items: Option<u64>,
    pub truncation: Option<Seq<char>>,
    pub missing: Option<Seq<Seq<char>>>,
    pub error_reason: Option<Seq<char>>,
}

pub open spec fn opt_str(o: Option<String>) -> Option<Seq<char>> {
    match o {
        Some(s) => Some(s@),
        None => None,
    }
}

impl View for ManifestItem {
    type V = ManifestItemView;

    open spec fn view(&self) -> ManifestItemView {
        ManifestItemView {
            id: self.id@,
            status: self.status@,
            file: opt_str(self.file),
            size_bytes: self.size_bytes,
            duration_ms: self.duration_ms,
            total_items: self.total_items,
            collected_items: self.collected_items,
            truncation: opt_str(self.truncation),
            missing: match self.missing {
                Some(m) => Some(strings_view(m@)),
                None => None,
            },
            error_reason: opt_str(self.error_reason),
        }
    }
}

pub open spec fn items_view(v: Seq<ManifestItem>) -> Seq<ManifestItemView> {
    v.map_values(|i: ManifestItem| i@)
}

/// The whole milliseconds of a duration, as `Duration::as_millis` gives
/// them, cut to 64 bits.
pub uninterp spec fn millis_of(d: Duration) -> u64;

/// Calls `Duration::as_millis`; its result, cut to 64 bits, is taken to be
/// `millis_of(d)`, a function of the duration alone.
#[verifier::external_body]
fn duration_millis(d: &Duration) -> (r: u64)
    ensures
        r == millis_of(*d),
{
    d.as_millis() as u64
}

/// The manifest's entry for the collector `id` writing `file`: from its
/// outcome when it gave one, else the entry of a collector that did not
/// finish.
pub open spec fn item_spec(id: Seq<char>, file: Seq<char>, o: Option<CollectionOutcome>) -> ManifestItemView {
    match o {
        Some(o) => ManifestItemView {
            id,
            status: status_label(o.status@),
            file: Some(file),
            size_bytes: if o.file_size > 0 {
                Some(o.file_size)
            } else {
                None
            },
            duration_ms: Some(millis_of(o.duration)),
            total_items: o.items_total,
            collected_items: o.items_collected,
            truncation: match o.status@ {
                StatusView::Truncated(r) => Some(r),
                _ => None,
            },
            missing: match o.status@ {
                StatusView::Degraded(m) => Some(m),
                StatusView::Partial(m) => Some(m),
                _ => None,
            },
            error_reason: match o.status@ {
                StatusView::Failed(r) => Some(r),
                StatusView::Unsupported(r) => Some(r),
                _ => None,
            },
        },
        None => ManifestItemView {
            id,
            status: "timed_out"@,
            file: Some(file),
            size_bytes: None,
            duration_ms: None,
            total_items: None,
            collected_items: None,
            truncation: None,
            missing: None,
            error_reason: None,
        },
    }
}

/// The index of the first of `ids` equal to `id`, if any.
pub open spec fn first_match(ids: Seq<Seq<char>>, id: Seq<char>) -> Option<int>
    decreases ids.len(),
{
    if ids.len() == 0 {
        None
    } else if ids[0] == id {
        Some(0)
    } else {
        match first_match(ids.drop_first(), id) {
            Some(i) => Some(i + 1),
            None => None,
        }
    }
}

pub open spec fn result_ids(results: Seq<TaskResult>) -> Seq<Seq<char>> {
    results.map_values(|r: TaskResult| r.id@)
}

/// The index of the first result of the collector `id`, if any.
pub open spec fn first_index(results: Seq<TaskResult>, id: Seq<char>) -> Option<int> {
    first_match(result_ids(results), id)
}

/// The outcome of the first result of the collector `id`, if any.
pub open spec fn outcome_of(results: Seq<TaskResult>, id: Seq<char>) -> Option<CollectionOutcome> {
    match first_index(results, id) {
        Some(i) => Some(results[i].outcome),
        None => None,
    }
}

/// The manifest's entries: one per collector, in the collectors' order.
pub open spec fn items_spec(tasks: Seq<CollectionTask>, results: Seq<TaskResult>) -> Seq<
    ManifestItemView,
> {
    Seq::new(
        tasks.len(),
        |i: int|
            item_spec(task_id(tasks[i]), task_filename(tasks[i]), outcome_of(results, task_id(tasks[i]))),
    )
}

proof fn lemma_first_match(ids: Seq<Seq<char>>, id: Seq<char>)
    ensures
        match first_match(ids, id) {
            Some(i) => 0 <= i < ids.len() && ids[i] == id && forall|j: int|
                0 <= j < i ==> ids[j] != id,
            None => forall|j: int| 0 <= j < ids.len() ==> ids[j] != id,
        },
    decreases ids.len(),
{
    if ids.len() > 0 {
        lemma_first_match(ids.drop_first(), id);
        if ids[0] != id {
            assert forall|j: int| 1 <= j < ids.len() implies ids[j] == ids.drop_first()[j - 1] by {}
        }
    }
}

/// The position of the first of `ids` equal to `id`, given that none
/// before `from` is.
proof fn lemma_first_match_at(ids: Seq<Seq<char>>, id: Seq<char>, i: int)
    requires
        0 <= i < ids.len(),
        ids[i] == id,
        forall|j: int| 0 <= j < i ==> ids[j] != id,
    ensures
        first_match(ids, id) == Some(i),
{
    lemma_first_match(ids, id);
    match first_match(ids, id) {
        Some(k) => {
            if k < i {
                assert(ids[k] != id);
            } else if k > i {
                assert(ids[i] != id);
            }
        },
        None => {
            assert(ids[i] != id);
        },
    }
}

proof fn lemma_no_match(ids: Seq<Seq<char>>, id: Seq<char>)
    requires
        forall|j: int| 0 <= j < ids.len() ==> ids[j] != id,
    ensures
        first_match(ids, id) is None,
{
    lemma_first_match(ids, id);
    if first_match(ids, id) is Some {
        let k = first_match(ids, id)->0;
        assert(ids[k] != id);
    }
}

/// The index of the first result of the collector `id`, if any.
pub fn find_result(results: &Vec<TaskResult>, id: &str) -> (r: Option<usize>)
    ensures
        match r {
            Some(i) => first_index(results@, id@) == Some(i as int),
            None => first_index(results@, id@) is None,
        },
{
    let c = chars_of(id);
    let mut i: usize = 0;
    while i < results.len()
        invariant
            i <= results@.len(),
            c@ == id@,
            forall|j: int| 0 <= j < i ==> results@[j].id@ != id@,
        decreases results.len() - i,
    {
        let rc = chars_of(results[i].id.as_str());
        if chars_eq(rc.as_slice(), c.as_slice()) {
            proof {
                let ids = result_ids(results@);
                assert forall|j: int| 0 <= j < i implies ids[j] != id@ by {
                    assert(results@[j].id@ != id@);
                }
                lemma_first_match_at(ids, id@, i as int);
            }
            return Some(i);
        }
        i = i + 1;
    }
    proof {
        let ids = result_ids(results@);
        assert forall|j: int| 0 <= j < ids.len() implies ids[j] != id@ by {
            assert(results@[j].id@ != id@);
        }
        lemma_no_match(ids, id@);
    }
    None
}

/// The manifest's entry for the collector `id` writing `file`, from its
/// outcome when it gave one.
pub fn manifest_item(id: &str, file: &str, outcome: Option<&CollectionOutcome>) -> (r: ManifestItem)
    ensures
        r@ == item_spec(
            id@,
            file@,
            match outcome {
                Some(o) => Some(*o),
                None => None,
            },
        ),
{
    match outcome {
        None => ManifestItem {
            id: string_of(chars_of(id).as_slice()),
            status: String::from_str("timed_out"),
            file: Some(string_of(chars_of(file).as_slice())),
            size_bytes: None,
            duration_ms: None,
            total_items: None,
            collected_items: None,
            truncation: None,
            missing: None,
            error_reason: None,
        },
        Some(o) => {
            let truncation = match &o.status {
                CollectionStatus::Truncated { reason } => Some(reason.clone()),
                _ => None,
            };
            let missing = match &o.status {
                CollectionStatus::Degraded { missing } => Some(clone_strings(missing)),
                CollectionStatus::Partial { degrading } => Some(clone_strings(degrading)),
                _ => None,
            };
            let error_reason = match &o.status {
                CollectionStatus::Failed { reason } => Some(reason.clone()),
                CollectionStatus::Unsupported { reason } => Some(reason.clone()),
                _ => None,
            };
            let status = outcome_status(&o.status);
            ManifestItem {
                id: string_of(chars_of(id).as_slice()),
                status: String::from_str(status),
                file: Some(string_of(chars_of(file).as_slice())),
                size_bytes: if o.file_size > 0 {
                    Some(o.file_size)
                } else {
                    None
                },
                duration_ms: Some(duration_millis(&o.duration)),
                total_items: o.items_total,
                collected_items: o.items_collected,
                truncation,
                missing,
                error_reason,
            }
        },
    }
}

/// The manifest's entries for `tasks`, in their order, each from the first
/// result of its collector.
pub fn manifest_items(tasks: &Vec<CollectionTask>, results: &Vec<TaskResult>) -> (r: Vec<
    ManifestItem,
>)
    ensures
        items_view(r@) == items_spec(tasks@, results@),
{
    let mut items: Vec<ManifestItem> = Vec::new();
    let mut i: usize = 0;
    while i < tasks.len()
        invariant
            i <= tasks@.len(),
            items_view(items@) == items_spec(tasks@, results@).take(i as int),
        decreases tasks.len() - i,
    {
        let id = tasks[i].id();
        let file = tasks[i].filename();
        let found = find_result(results, id);
        let item = match found {
            Some(k) => {
                proof {
                    lemma_first_match(result_ids(results@), id@);
                }
                manifest_item(id, file, Some(&results[k].outcome))
            },
            None => manifest_item(id, file, None),
        };
        assert(id@ == task_id(tasks@[i as int]));
        assert(file@ == task_filename(tasks@[i as int]));
        assert(item@ == items_spec(tasks@, results@)[i as int]);
        let ghost prev = items_view(items@);
        let ghost iv = item@;
        items.push(item);
        assert(items_view(items@) =~= prev.push(iv));
        assert(items_view(items@) =~= items_spec(tasks@, results@).take(i + 1));
        i = i + 1;
    }
    assert(items_spec(tasks@, results@).take(i as int) =~= items_spec(tasks@, results@));
    items
}

/// The manifest lists each collector once: when the collectors are in
/// strictly increasing order of number, so are the entries, and no two
/// entries share an identifier or a file.
pub proof fn lemma_items_distinct(tasks: Seq<CollectionTask>, results: Seq<TaskResult>)
    requires
        forall|i: int, j: int| 0 <= i < j < tasks.len() ==> task_number(tasks[i]) < task_number(tasks[j]),
    ensures
        items_spec(tasks, results).len() == tasks.len(),
        forall|i: int|
            0 <= i < tasks.len() ==> #[trigger] items_spec(tasks, results)[i].id == task_id(tasks[i]),
        forall|i: int, j: int|
            0 <= i < j < tasks.len() ==> items_spec(tasks, results)[i].id != items_spec(tasks, results)[j].id
                && items_spec(tasks, results)[i].file != items_spec(tasks, results)[j].file,
{
    assert forall|i: int, j: int|
        0 <= i < j < tasks.len() implies items_spec(tasks, results)[i].id != items_spec(
            tasks,
            results,
        )[j].id && items_spec(tasks, results)[i].file != items_spec(tasks, results)[j].file by {
        assert(task_number(tasks[i]) < task_number(tasks[j]));
        lemma_tasks_distinct(tasks[i], tasks[j]);
    }
}

/// The collector whose outcome gives the host's name, kernel, boot and
/// uptime.
pub const BOOT_ID: &'static str = "RT-01";

/// The collector whose outcome gives the memory totals.
pub const MEMORY_ID: &'static str = "RT-06";

/// The collector whose manifest entry gives the process count.
pub const PROCESS_ID: &'static str = "RT-04";

/// The collectors whose probes the manifest reports, for the service
/// manager, netlink and connection tracking.
pub const SYSTEMD_ID: &'static str = "RT-03";
pub const NETLINK_ID: &'static str = "RT-11";
pub const CONNTRACK_ID: &'static str = "RT-13";

/// The host as the manifest and the summary describe it.
pub struct HostValues {
    pub hostname: String,
    pub kernel: String,
    pub boot_id: String,
    pub uptime_seconds: u64,
}

/// The summary's values that come from the collectors.
pub struct SummaryValues {
    pub procs_total: Option<u64>,
    pub procs_total_truncated: Option<bool>,
    pub mem_total_kb: Option<i64>,
    pub mem_available_kb: Option<i64>,
}

pub open spec fn or_empty(o: Option<String>) -> Seq<char> {
    match o {
        Some(s) => s@,
        None => seq![],
    }
}

/// The host values from the boot collector's outcome: empty texts and a
/// zero uptime for what it did not give.
pub open spec fn host_spec(boot: Option<CollectionOutcome>) -> (Seq<char>, Seq<char>, Seq<char>, u64) {
    match boot {
        Some(o) => (
            or_empty(o.hostname),
            or_empty(o.kernel_version),
            or_empty(o.boot_id),
            match o.uptime_seconds {
                Some(u) => u,
                None => 0,
            },
        ),
        None => (seq![], seq![], seq![], 0),
    }
}

/// Each host value is the same-named value of the boot collector's outcome:
/// the host name its host name, the kernel its kernel version, the boot id
/// its boot id and the uptime its uptime, each empty (or zero) when it gave
/// none; without an outcome all are empty.
pub proof fn lemma_host_fields(boot: Option<CollectionOutcome>)
    ensures
        match boot {
            Some(o) => {
                &&& (match o.hostname {
                    Some(t) => host_spec(boot).0 == t@,
                    None => host_spec(boot).0.len() == 0,
                })
                &&& (match o.kernel_version {
                    Some(t) => host_spec(boot).1 == t@,
                    None => host_spec(boot).1.len() == 0,
                })
                &&& (match o.boot_id {
                    Some(t) => host_spec(boot).2 == t@,
                    None => host_spec(boot).2.len() == 0,
                })
                &&& (match o.uptime_seconds {
                    Some(u) => host_spec(boot).3 == u,
                    None => host_spec(boot).3 == 0,
                })
            },
            None => host_spec(boot).0.len() == 0 && host_spec(boot).1.len() == 0
                && host_spec(boot).2.len() == 0 && host_spec(boot).3 == 0,
        },
{
}

fn text_or_empty(o: &Option<String>) -> (r: String)
    ensures
        r@ == or_empty(*o),
{
    match o {
        Some(s) => s.clone(),
        None => String::new(),
    }
}

/// The host values, from the first result of the boot collector.
pub fn host_values(results: &Vec<TaskResult>) -> (r: HostValues)
    ensures
        (r.hostname@, r.kernel@, r.boot_id@, r.uptime_seconds) == host_spec(
            outcome_of(results@, BOOT_ID@),
        ),
        match outcome_of(results@, BOOT_ID@) {
            Some(o) => match o.hostname {
                Some(t) => r.hostname@ == t@,
                None => r.hostname@.len() == 0,
            },
            None => r.hostname@.len() == 0,
        },
        match outcome_of(results@, BOOT_ID@) {
            Some(o) => match o.kernel_version {
                Some(t) => r.kernel@ == t@,
                None => r.kernel@.len() == 0,
            },
            None => r.kernel@.len() == 0,
        },
        match outcome_of(results@, BOOT_ID@) {
            Some(o) => match o.boot_id {
                Some(t) => r.boot_id@ == t@,
                None => r.boot_id@.len() == 0,
            },
            None => r.boot_id@.len() == 0,
        },
        r.uptime_seconds == match outcome_of(results@, BOOT_ID@) {
            Some(o) => match o.uptime_seconds {
                Some(u) => u,
                None => 0,
            },
            None => 0,
        },
{
    match find_result(results, BOOT_ID) {
        Some(k) => {
            proof {
                lemma_first_match(result_ids(results@), BOOT_ID@);
            }
            let o = &results[k].outcome;
            HostValues {
                hostname: text_or_empty(&o.hostname),
                kernel: text_or_empty(&o.kernel_version),
                boot_id: text_or_empty(&o.boot_id),
                uptime_seconds: match o.uptime_seconds {
                    Some(u) => u,
                    None => 0,
                },
            }
        },
        None => HostValues {
            hostname: String::new(),
            kernel: String::new(),
            boot_id: String::new(),
            uptime_seconds: 0,
        },
    }
}

pub open spec fn item_ids(items: Seq<ManifestItem>) -> Seq<Seq<char>> {
    items.map_values(|i: ManifestItem| i.id@)
}

/// The summary's values: the process count is what the first manifest
/// entry of the process collector says was collected, flagged when that
/// entry was truncated; the memory totals come from the first result of the
/// memory collector.
pub open spec fn summary_spec(
    results: Seq<TaskResult>,
    items: Seq<ManifestItem>,
) -> (Option<u64>, Option<bool>, Option<i64>, Option<i64>) {
    let procs = match first_match(item_ids(items), PROCESS_ID@) {
        Some(i) => Some(items[i]@),
        None => None,
    };
    let mem = outcome_of(results, MEMORY_ID@);
    (
        match procs {
            Some(p) => p.collected_items,
            None => None,
        },
        match procs {
            Some(p) => if p.status == "truncated"@ {
                Some(true)
            } else {
                None
            },
            None => None,
        },
        match mem {
            Some(o) => o.mem_total_kb,
            None => None,
        },
        match mem {
            Some(o) => o.mem_available_kb,
            None => None,
        },
    )
}

fn find_item(items: &Vec<ManifestItem>, id: &str) -> (r: Option<usize>)
    ensures
        match r {
            Some(i) => first_match(item_ids(items@), id@) == Some(i as int),
            None => first_match(item_ids(items@), id@) is None,
        },
{
    let c = chars_of(id);
    let mut i: usize = 0;
    while i < items.len()
        invariant
            i <= items@.len(),
            c@ == id@,
            forall|j: int| 0 <= j < i ==> items@[j].id@ != id@,
        decreases items.len() - i,
    {
        let ic = chars_of(items[i].id.as_str());
        if chars_eq(ic.as_slice(), c.as_slice()) {
            proof {
                let ids = item_ids(items@);
                assert forall|j: int| 0 <= j < i implies ids[j] != id@ by {
                    assert(items@[j].id@ != id@);
                }
                lemma_first_match_at(ids, id@, i as int);
            }
            return Some(i);
        }
        i = i + 1;
    }
    proof {
        let ids = item_ids(items@);
        assert forall|j: int| 0 <= j < ids.len() implies ids[j] != id@ by {
            assert(items@[j].id@ != id@);
        }
        lemma_no_match(ids, id@);
    }
    None
}

/// The summary's values from the collectors' results and the manifest's
/// entries.
pub fn summary_values(results: &Vec<TaskResult>, items: &Vec<ManifestItem>) -> (r: SummaryValues)
    ensures
        (r.procs_total, r.procs_total_truncated, r.mem_total_kb, r.mem_available_kb) == summary_spec(
            results@,
            items@,
        ),
{
    let (procs_total, procs_total_truncated) = match find_item(items, PROCESS_ID) {
        Some(k) => {
            proof {
                lemma_first_match(item_ids(items@), PROCESS_ID@);
            }
            let p = &items[k];
            let t = chars_of(p.status.as_str());
            let tr = chars_of("truncated");
            (p.collected_items, if chars_eq(t.as_slice(), tr.as_slice()) {
                Some(true)
            } else {
                None
            })
        },
        None => (None, None),
    };
    let (mem_total_kb, mem_available_kb) = match find_result(results, MEMORY_ID) {
        Some(k) => {
            proof {
                lemma_first_match(result_ids(results@), MEMORY_ID@);
            }
            (results[k].outcome.mem_total_kb, results[k].outcome.mem_available_kb)
        },
        None => (None, None),
    };
    SummaryValues { procs_total, procs_total_truncated, mem_total_kb, mem_available_kb }
}

pub open spec fn probe_ids(probes: Seq<TaskProbe>) -> Seq<Seq<char>> {
    probes.map_values(|p: TaskProbe| p.id@)
}

/// What the manifest says of a collector's probe: `available`, else the
/// probe's reason, else `unavailable`; `unavailable` too when the
/// collector was not probed.
pub open spec fn probe_label_spec(probes: Seq<TaskProbe>, id: Seq<char>) -> Seq<char> {
    match first_match(probe_ids(probes), id) {
        Some(i) => if probes[i].probe.available {
            "available"@
        } else {
            match probes[i].probe.reason {
                Some(r) => r@,
                None => "unavailable"@,
            }
        },
        None => "unavailable"@,
    }
}

/// What the manifest says of the probe of the collector `id`.
pub fn probe_label(probes: &Vec<TaskProbe>, id: &str) -> (r: String)
    ensures
        r@ == probe_label_spec(probes@, id@),
{
    let c = chars_of(id);
    let mut i: usize = 0;
    while i < probes.len()
        invariant
            i <= probes@.len(),
            c@ == id@,
            forall|j: int| 0 <= j < i ==> probes@[j].id@ != id@,
        decreases probes.len() - i,
    {
        let pc = chars_of(probes[i].id.as_str());
        if chars_eq(pc.as_slice(), c.as_slice()) {
            proof {
                let ids = probe_ids(probes@);
                assert forall|j: int| 0 <= j < i implies ids[j] != id@ by {
                    assert(probes@[j].id@ != id@);
                }
                lemma_first_match_at(ids, id@, i as int);
            }
            let p = &probes[i].probe;
            if p.available {
                return String::from_str("available");
            }
            return match &p.reason {
                Some(r) => r.clone(),
                None => String::from_str("unavailable"),
            };
        }
        i = i + 1;
    }
    proof {
        let ids = probe_ids(probes@);
        assert forall|j: int| 0 <= j < ids.len() implies ids[j] != id@ by {
            assert(probes@[j].id@ != id@);
        }
        lemma_no_match(ids, id@);
    }
    String::from_str("unavailable")
}

/// Why the collection ended: every collector finished, or the global time
/// limit cut it off.
pub fn exit_reason(completed: bool) -> (r: &'static str)
    ensures
        r@ == if completed {
            "completed"@
        } else {
            "global_timeout"@
        },
{
    if completed {
        "completed"
    } else {
        "global_timeout"
    }
}

} // verus!
