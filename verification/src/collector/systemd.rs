//! RT-03: the service manager's units, jobs and inhibitors, read over the
//! system bus.
use vstd::prelude::*;

use crate::collector::{
    CollectionStatus, ProbeOutcome, StatusView, clone_strings, contains_string, join_strings, probe_view, seq_join,
    strings_view,
};
use crate::fs::FsRoots;
use crate::text::{chars_eq, chars_of};

verus! {

/// The RT-03 collector.
pub struct Systemd;

/// The bus name under which the service manager answers.
pub const SYSTEMD_BUS_NAME: &'static str = "org.freedesktop.systemd1";

/// The prefix of the reason given when the system bus cannot be reached.
pub const BUS_UNAVAILABLE: &'static str = "D-Bus system bus unavailable: ";

/// The prefix of the reason given when the bus does not list its names.
pub const LIST_NAMES_FAILED: &'static str = "D-Bus ListNames failed: ";

/// The reason given when the service manager is not on the bus.
pub const NOT_ON_BUS: &'static str = "org.freedesktop.systemd1 not on system bus";

/// The most failed units whose details the record holds.
pub const MAX_FAILED_DETAILS: usize = 20;

/// What asking the system bus for its names gave.
pub enum BusNames {
    /// The bus could not be reached, with the error's text.
    Unreachable { error: String },
    /// The bus did not answer the request, with the error's text.
    ListFailed { error: String },
    /// The bus answered, with its names when the answer could be read.
    Listed { names: Option<Vec<String>> },
}

/// Which of the three listing calls failed, with their errors' texts.
pub struct CallErrors {
    pub units: Option<String>,
    pub jobs: Option<String>,
    pub inhibitors: Option<String>,
}

/// Whether `names` holds the service manager's bus name.
pub open spec fn has_systemd(names: Option<Seq<Seq<char>>>) -> bool {
    match names {
        Some(n) => n.contains(SYSTEMD_BUS_NAME@),
        None => false,
    }
}

/// The probe verdict of RT-03 from what the bus answered.
pub open spec fn bus_verdict(bus: BusNames) -> (bool, Seq<Seq<char>>, Option<Seq<char>>) {
    match bus {
        BusNames::Unreachable { error } => (false, seq![], Some(BUS_UNAVAILABLE@ + error@)),
        BusNames::ListFailed { error } => (false, seq![], Some(LIST_NAMES_FAILED@ + error@)),
        BusNames::Listed { names } => if has_systemd(
            match names {
                Some(n) => Some(strings_view(n@)),
                None => None,
            },
        ) {
            (true, seq![], None)
        } else {
            (false, seq![], Some(NOT_ON_BUS@))
        },
    }
}

/// `prefix` followed by the error's text, when there was an error.
pub open spec fn note_error(prefix: Seq<char>, error: Option<String>) -> Seq<Seq<char>> {
    match error {
        Some(e) => seq![prefix + e@],
        None => seq![],
    }
}

/// The degraded list of a collection: what the probe found missing, then
/// one entry for each listing call that failed.
pub open spec fn systemd_degraded(degraded: Seq<Seq<char>>, errors: CallErrors) -> Seq<Seq<char>> {
    degraded + note_error("ListUnits: "@, errors.units) + note_error("ListJobs: "@, errors.jobs)
        + note_error("ListInhibitors: "@, errors.inhibitors)
}

/// The status of a collection: it failed when it read nothing at all and
/// something went wrong, with the problems joined by `"; "`; else it is
/// degraded by whatever went wrong, if anything did.
pub open spec fn systemd_status_spec(degraded: Seq<Seq<char>>, all_empty: bool) -> StatusView {
    if all_empty && degraded.len() > 0 {
        StatusView::Failed(seq_join(degraded, "; "@))
    } else if degraded.len() == 0 {
        StatusView::Complete
    } else {
        StatusView::Degraded(degraded)
    }
}

/// Whether a unit in this active state is one whose details the record
/// keeps.
pub open spec fn is_failed_state_spec(active: Seq<char>) -> bool {
    active == "failed"@ || active == "auto-restart"@
}

fn prefixed(prefix: &str, text: &str) -> (r: String)
    ensures
        r@ == prefix@ + text@,
{
    let mut s = String::from_str(prefix);
    s.append(text);
    s
}

fn push_error(list: &mut Vec<String>, prefix: &str, error: &Option<String>)
    ensures
        strings_view(final(list)@) == strings_view(old(list)@) + note_error(prefix@, *error),
{
    match error {
        Some(e) => {
            let ghost before = strings_view(list@);
            list.push(prefixed(prefix, e.as_str()));
            assert(strings_view(list@) =~= before + note_error(prefix@, *error));
        },
        None => {
            assert(strings_view(list@) =~= strings_view(list@) + note_error(prefix@, *error));
        },
    }
}

/// Whether a unit in the active state `active` has failed or is being
/// restarted after a failure.
pub fn is_failed_state(active: &str) -> (r: bool)
    ensures
        r == is_failed_state_spec(active@),
{
    let a = chars_of(active);
    let f = chars_of("failed");
    let r = chars_of("auto-restart");
    chars_eq(a.as_slice(), f.as_slice()) || chars_eq(a.as_slice(), r.as_slice())
}

impl Systemd {
    /// Decides the probe from what the system bus answered.
    pub fn probe_from_bus(&self, bus: &BusNames, roots: &FsRoots) -> (r: ProbeOutcome)
        ensures
            probe_view(r) == bus_verdict(*bus),
            r.roots@ == roots@,
    {
        match bus {
            BusNames::Unreachable { error } => ProbeOutcome {
                available: false,
                degraded: Vec::new(),
                reason: Some(prefixed(BUS_UNAVAILABLE, error.as_str())),
                roots: roots.clone(),
            },
            BusNames::ListFailed { error } => ProbeOutcome {
                available: false,
                degraded: Vec::new(),
                reason: Some(prefixed(LIST_NAMES_FAILED, error.as_str())),
                roots: roots.clone(),
            },
            BusNames::Listed { names } => {
                let found = match names {
                    Some(n) => contains_string(n, SYSTEMD_BUS_NAME),
                    None => false,
                };
                if found {
                    ProbeOutcome {
                        available: true,
                        degraded: Vec::new(),
                        reason: None,
                        roots: roots.clone(),
                    }
                } else {
                    ProbeOutcome {
                        available: false,
                        degraded: Vec::new(),
                        reason: Some(String::from_str(NOT_ON_BUS)),
                        roots: roots.clone(),
                    }
                }
            },
        }
    }

    /// What degrades a collection: what the probe found missing, then the
    /// listing calls that failed.
    pub fn degraded_after(&self, degraded: &Vec<String>, errors: &CallErrors) -> (r: Vec<String>)
        ensures
            strings_view(r@) == systemd_degraded(strings_view(degraded@), *errors),
    {
        let mut list = clone_strings(degraded);
        push_error(&mut list, "ListUnits: ", &errors.units);
        push_error(&mut list, "ListJobs: ", &errors.jobs);
        push_error(&mut list, "ListInhibitors: ", &errors.inhibitors);
        list
    }

    /// The status of a collection, given what degraded it and whether it
    /// read no unit, no job and no inhibitor.
    pub fn status(&self, degraded: &Vec<String>, all_empty: bool) -> (r: CollectionStatus)
        ensures
            r@ == systemd_status_spec(strings_view(degraded@), all_empty),
    {
        if all_empty && degraded.len() > 0 {
            CollectionStatus::Failed { reason: join_strings(degraded, "; ") }
        } else if degraded.len() == 0 {
            CollectionStatus::Complete
        } else {
            CollectionStatus::Degraded { missing: clone_strings(degraded) }
        }
    }
}

} // verus!
