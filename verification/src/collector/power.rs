//! RT-18: power and hardware health.
use vstd::prelude::*;

use crate::collector::{
    CollectionStatus, ProbeOutcome, probe_files, probe_post, status_with_unsupported, status_with_unsupported_spec, str_views, strings_view,
};
use crate::collector::sections::{
    FieldText, Section, render_sections, sections_report, sections_view, SectionView,
};
use crate::fs::FsRoots;
use crate::text::{chars_of, decimal, decimal_chars, extend_chars, string_of, str_starts_with};

verus! {

/// The RT-18 collector.
pub struct Power;

/// The files that RT-18 reads, in the order its record uses them.
pub const FILES: [&'static str; 3] = [
    "/sys/power/state",
    "/sys/power/mem_sleep",
    "/proc/acpi/wakeup",
];

/// Inputs whose absence means the kernel lacks the feature.
pub const UNSUPPORTED_IF_MISSING: [&'static str; 0] = [];

/// Entries of `/sys/class/thermal` whose names begin with this are
/// thermal zones.
pub const THERMAL_ZONE_PREFIX: &'static str = "thermal_zone";

/// Entries of `/sys/class/thermal` whose names begin with this are cooling
/// devices.
pub const COOLING_DEVICE_PREFIX: &'static str = "cooling_device";

/// Entries of the EDAC directory whose names begin with this are memory
/// controllers.
pub const EDAC_PREFIX: &'static str = "mc";

/// Entries of a CPU's `cpuidle` directory whose names begin with this are
/// idle states.
pub const IDLE_STATE_PREFIX: &'static str = "state";

/// The throttle counters listed for each CPU.
pub const THROTTLE_FILES: [&'static str; 2] = ["core_throttle_count", "package_throttle_count"];

/// What an entry of `/sys/class/thermal` is.
#[derive(PartialEq, Eq, Structural)]
pub enum ThermalEntry {
    Zone,
    CoolingDevice,
    Other,
}

pub open spec fn has_prefix(name: Seq<char>, prefix: Seq<char>) -> bool {
    prefix.len() <= name.len() && name.take(prefix.len() as int) == prefix
}

/// Classifies an entry of `/sys/class/thermal` by its name.
pub fn thermal_entry(name: &str) -> (r: ThermalEntry)
    ensures
        r == if has_prefix(name@, THERMAL_ZONE_PREFIX@) {
            ThermalEntry::Zone
        } else if has_prefix(name@, COOLING_DEVICE_PREFIX@) {
            ThermalEntry::CoolingDevice
        } else {
            ThermalEntry::Other
        },
{
    if str_starts_with(name, THERMAL_ZONE_PREFIX) {
        ThermalEntry::Zone
    } else if str_starts_with(name, COOLING_DEVICE_PREFIX) {
        ThermalEntry::CoolingDevice
    } else {
        ThermalEntry::Other
    }
}

/// The throttle counters of one CPU, as read from its `thermal_throttle`
/// directory.
pub struct CpuThrottle {
    pub id: u32,
    pub core: Option<String>,
    pub package: Option<String>,
}

impl View for CpuThrottle {
    type V = (u32, Option<Seq<char>>, Option<Seq<char>>);

    open spec fn view(&self) -> (u32, Option<Seq<char>>, Option<Seq<char>>) {
        (
            self.id,
            crate::collector::process::opt_view(self.core),
            crate::collector::process::opt_view(self.package),
        )
    }
}

pub open spec fn throttles_view(v: Seq<CpuThrottle>) -> Seq<(u32, Option<Seq<char>>, Option<Seq<char>>)> {
    v.map_values(|t: CpuThrottle| t@)
}

/// `s` with `e` put before its first entry of a greater CPU number.
pub open spec fn insert_by_id(
    s: Seq<(u32, Option<Seq<char>>, Option<Seq<char>>)>,
    e: (u32, Option<Seq<char>>, Option<Seq<char>>),
) -> Seq<(u32, Option<Seq<char>>, Option<Seq<char>>)>
    decreases s.len(),
{
    if s.len() == 0 {
        seq![e]
    } else if e.0 < s[0].0 {
        seq![e] + s
    } else {
        seq![s[0]] + insert_by_id(s.drop_first(), e)
    }
}

/// The stable sort of the entries by CPU number.
pub open spec fn sort_by_id(s: Seq<(u32, Option<Seq<char>>, Option<Seq<char>>)>) -> Seq<
    (u32, Option<Seq<char>>, Option<Seq<char>>),
>
    decreases s.len(),
{
    if s.len() == 0 {
        seq![]
    } else {
        insert_by_id(sort_by_id(s.drop_last()), s.last())
    }
}

/// The block of one CPU: named `cpu<N>`, with its two counters.
pub open spec fn throttle_section(t: (u32, Option<Seq<char>>, Option<Seq<char>>)) -> SectionView {
    SectionView {
        name: "cpu"@ + decimal(t.0 as nat),
        fields: seq![("core_throttle_count"@, t.1), ("package_throttle_count"@, t.2)],
    }
}

/// The throttle report: the CPUs sorted by number, each with its counters
/// on its own lines; nothing when no CPU has throttle counters.
pub open spec fn throttle_spec(entries: Seq<(u32, Option<Seq<char>>, Option<Seq<char>>)>) -> Option<
    Seq<char>,
> {
    sections_report(sort_by_id(entries).map_values(|t| throttle_section(t)), true)
}

fn insert_throttle(v: &mut Vec<CpuThrottle>, e: CpuThrottle)
    ensures
        throttles_view(final(v)@) == insert_by_id(throttles_view(old(v)@), e@),
{
    let mut i: usize = 0;
    let ghost s = throttles_view(v@);
    assert(s.skip(0) =~= s);
    assert(s.take(0) + insert_by_id(s, e@) =~= insert_by_id(s, e@));
    while i < v.len()
        invariant
            i <= v@.len(),
            v@ == old(v)@,
            s == throttles_view(v@),
            insert_by_id(s, e@) == s.take(i as int) + insert_by_id(s.skip(i as int), e@),
        ensures
            i <= v@.len(),
            v@ == old(v)@,
            insert_by_id(s, e@) == s.take(i as int) + insert_by_id(s.skip(i as int), e@),
            i < v@.len() ==> e@.0 < s[i as int].0,
        decreases v.len() - i,
    {
        assert(s.skip(i as int)[0] == v@[i as int]@);
        if e.id < v[i].id {
            break;
        }
        proof {
            let t = s.skip(i as int);
            assert(t.drop_first() =~= s.skip(i + 1));
            assert(insert_by_id(t, e@) == seq![t[0]] + insert_by_id(t.drop_first(), e@));
            assert(s.take(i + 1) =~= s.take(i as int) + seq![t[0]]);
            assert(s.take(i as int) + insert_by_id(t, e@) =~= s.take(i + 1) + insert_by_id(
                s.skip(i + 1),
                e@,
            ));
        }
        i = i + 1;
    }
    proof {
        let t = s.skip(i as int);
        if i < v@.len() {
            assert(t[0] == s[i as int]);
            assert(insert_by_id(t, e@) == seq![e@] + t);
        } else {
            assert(t =~= seq![]);
        }
    }
    v.insert(i, e);
    assert(throttles_view(v@) =~= s.take(i as int) + (seq![throttles_view(v@)[i as int]]
        + s.skip(i as int)));
}

fn throttle_block(t: CpuThrottle) -> (r: Section)
    ensures
        r@ == throttle_section(t@),
{
    let mut name = chars_of("cpu");
    let d = decimal_chars(t.id as u64);
    extend_chars(&mut name, d.as_slice());
    let mut fields: Vec<FieldText> = Vec::new();
    fields.push(FieldText { file: String::from_str("core_throttle_count"), content: t.core });
    fields.push(FieldText { file: String::from_str("package_throttle_count"), content: t.package });
    let r = Section { name: string_of(name.as_slice()), fields };
    assert(r@.fields =~= throttle_section(t@).fields);
    r
}

/// The throttle report of the CPUs that have throttle counters.
pub fn throttle_report(entries: Vec<CpuThrottle>) -> (r: Option<String>)
    ensures
        match r {
            Some(t) => throttle_spec(throttles_view(entries@)) == Some(t@),
            None => entries@.len() == 0,
        },
{
    let ghost all = throttles_view(entries@);
    let mut rest = entries;
    let mut pending: Vec<CpuThrottle> = Vec::new();
    while rest.len() > 0
        invariant
            throttles_view(rest@) + throttles_view(pending@).reverse() == all,
        decreases rest.len(),
    {
        let ghost br = throttles_view(rest@);
        let ghost bp = throttles_view(pending@);
        let c = rest.pop().unwrap();
        pending.push(c);
        assert(throttles_view(rest@) =~= br.drop_last());
        assert(throttles_view(pending@) =~= bp.push(br.last()));
        assert(throttles_view(pending@).reverse() =~= seq![br.last()] + bp.reverse());
        assert(throttles_view(rest@) + throttles_view(pending@).reverse() =~= all);
    }
    assert(throttles_view(rest@) =~= seq![]);
    assert(throttles_view(pending@).reverse() =~= all);
    let mut sorted: Vec<CpuThrottle> = Vec::new();
    let ghost mut k: int = 0;
    while pending.len() > 0
        invariant
            0 <= k <= all.len(),
            throttles_view(pending@).reverse() == all.skip(k),
            throttles_view(sorted@) == sort_by_id(all.take(k)),
        decreases pending.len(),
    {
        let ghost before = throttles_view(pending@);
        assert(before.reverse().len() == before.len());
        assert(k < all.len());
        let s = pending.pop().unwrap();
        proof {
            assert(before.reverse()[0] == before.last());
            assert(all.skip(k)[0] == all[k]);
            assert(throttles_view(pending@) =~= before.drop_last());
            assert(before.drop_last().reverse() =~= before.reverse().drop_first());
            assert(all.skip(k).drop_first() =~= all.skip(k + 1));
            assert(all.take(k + 1).drop_last() =~= all.take(k));
        }
        insert_throttle(&mut sorted, s);
        proof {
            k = k + 1;
        }
    }
    assert(all.take(k) =~= all);
    let ghost ordered = throttles_view(sorted@);
    let mut blocks: Vec<Section> = Vec::new();
    let mut n: usize = 0;
    let len = sorted.len();
    // Turn each entry into its block, front to back.
    let mut back: Vec<CpuThrottle> = Vec::new();
    while sorted.len() > 0
        invariant
            throttles_view(sorted@) + throttles_view(back@).reverse() == ordered,
        decreases sorted.len(),
    {
        let ghost br = throttles_view(sorted@);
        let ghost bp = throttles_view(back@);
        let c = sorted.pop().unwrap();
        back.push(c);
        assert(throttles_view(sorted@) =~= br.drop_last());
        assert(throttles_view(back@) =~= bp.push(br.last()));
        assert(throttles_view(back@).reverse() =~= seq![br.last()] + bp.reverse());
        assert(throttles_view(sorted@) + throttles_view(back@).reverse() =~= ordered);
    }
    assert(throttles_view(sorted@) =~= seq![]);
    assert(throttles_view(back@).reverse() =~= ordered);
    while back.len() > 0
        invariant
            n <= ordered.len(),
            len == ordered.len(),
            throttles_view(back@).reverse() == ordered.skip(n as int),
            sections_view(blocks@) == ordered.take(n as int).map_values(|t| throttle_section(t)),
        decreases back.len(),
    {
        let ghost before = throttles_view(back@);
        assert(before.reverse().len() == before.len());
        assert(n < ordered.len());
        let t = back.pop().unwrap();
        proof {
            assert(before.reverse()[0] == before.last());
            assert(ordered.skip(n as int)[0] == ordered[n as int]);
            assert(throttles_view(back@) =~= before.drop_last());
            assert(before.drop_last().reverse() =~= before.reverse().drop_first());
            assert(ordered.skip(n as int).drop_first() =~= ordered.skip(n + 1));
        }
        assert(t@ == ordered[n as int]);
        let b = throttle_block(t);
        let ghost prev = sections_view(blocks@);
        blocks.push(b);
        assert(sections_view(blocks@) =~= prev.push(throttle_section(ordered[n as int])));
        assert(ordered.take(n + 1).map_values(|t| throttle_section(t)) =~= ordered.take(
            n as int,
        ).map_values(|t| throttle_section(t)).push(throttle_section(ordered[n as int])));
        n = n + 1;
    }
    assert(ordered.take(n as int) =~= ordered);
    render_sections(&blocks, true)
}

impl Power {
    /// Which of the RT-18 files exist under `roots`.
    pub fn probe(&self, roots: &FsRoots) -> (r: ProbeOutcome)
        ensures
            probe_post(r, *roots, str_views(FILES@), "all power files missing"@),
    {
        probe_files(roots, FILES.as_slice(), "all power files missing")
    }

    /// The status after the record was written, given what the probe found missing.
    pub fn status(&self, degraded: &Vec<String>) -> (r: CollectionStatus)
        ensures
            r@ == status_with_unsupported_spec(
                strings_view(degraded@),
                str_views(UNSUPPORTED_IF_MISSING@),
            ),
    {
        status_with_unsupported(degraded, UNSUPPORTED_IF_MISSING.as_slice())
    }
}

} // verus!
