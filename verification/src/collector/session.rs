//! RT-15: login records of `utmp`, `wtmp` and `btmp`, decoded from their
//! fixed-size binary records.
use vstd::prelude::*;

use crate::collector::{probe_files, probe_post, partial_status, str_views, strings_view, CollectionStatus, ProbeOutcome, StatusView};
use crate::fs::FsRoots;
use crate::text::chars_of;

verus! {

/// The RT-15 collector.
pub struct Session;

/// The record files that RT-15 reads.
pub const FILES: [&'static str; 3] = ["/var/run/utmp", "/var/log/wtmp", "/var/log/btmp"];

/// The size of one utmp record.
pub const UTMP_RECORD_SIZE: usize = 384;

/// The most records kept from one file.
pub const MAX_UTMP_ENTRIES: usize = 1000;

/// The most logind sessions that the record lists.
pub const MAX_LOGIND_SESSIONS: usize = 50;

/// The most logind seats that the record lists.
pub const MAX_LOGIND_SEATS: usize = 20;

/// One login record.
pub struct UtmpEntry {
    pub ut_type: i16,
    pub ut_pid: i32,
    pub ut_line: String,
    pub ut_user: String,
    pub ut_host: String,
    pub ut_tv_sec: i32,
    pub ut_tv_usec: i32,
}

/// The text that `String::from_utf8_lossy` makes of some bytes.
pub uninterp spec fn lossy_utf8(bytes: Seq<u8>) -> Seq<char>;

/// Calls `String::from_utf8_lossy`. Claimed: the result is `lossy_utf8` of
/// the bytes (a function of the bytes alone), and for valid UTF-8 it is
/// their decoding; what replaces invalid sequences is left unsaid.
#[verifier::external_body]
fn string_from_utf8_lossy(bytes: &[u8]) -> (r: String)
    ensures
        r@ == lossy_utf8(bytes@),
        vstd::utf8::valid_utf8(bytes@) ==> r@ == vstd::utf8::decode_utf8(bytes@),
{
    String::from_utf8_lossy(bytes).into_owned()
}

/// The little-endian value of four bytes.
pub open spec fn le_i32(b: Seq<u8>) -> i32 {
    (b[0] as u32 + b[1] as u32 * 256 + b[2] as u32 * 65536 + b[3] as u32 * 16777216) as u32 as i32
}

/// The big-endian value of four bytes.
pub open spec fn be_i32(b: Seq<u8>) -> i32 {
    (b[3] as u32 + b[2] as u32 * 256 + b[1] as u32 * 65536 + b[0] as u32 * 16777216) as u32 as i32
}

/// Calls `i32::from_ne_bytes`. Claimed: the result is the little-endian or
/// the big-endian reading of the four bytes; which one is left unsaid, as
/// it depends on the machine.
#[verifier::external_body]
fn i32_from_ne_bytes(b: [u8; 4]) -> (r: i32)
    ensures
        r == le_i32(b@) || r == be_i32(b@),
{
    i32::from_ne_bytes(b)
}

/// `s` without trailing NUL characters.
pub open spec fn trim_nul_end(s: Seq<char>) -> Seq<char>
    decreases s.len(),
{
    if s.len() > 0 && s.last() == '\0' {
        trim_nul_end(s.drop_last())
    } else {
        s
    }
}

/// A text field of a record: the bytes decoded, trailing NULs removed.
pub open spec fn utmp_text(data: Seq<u8>, from: int, to: int) -> Seq<char> {
    trim_nul_end(lossy_utf8(data.subrange(from, to)))
}

/// Whether `e` is what the record `data` (at least 348 bytes) holds: the
/// numbers read in the machine's byte order, the texts decoded.
pub open spec fn utmp_renders(e: UtmpEntry, data: Seq<u8>) -> bool {
    &&& (e.ut_type == le_i32(data.subrange(0, 4)) as i16 || e.ut_type == be_i32(
        data.subrange(0, 4),
    ) as i16)
    &&& (e.ut_pid == le_i32(data.subrange(4, 8)) || e.ut_pid == be_i32(data.subrange(4, 8)))
    &&& e.ut_line@ == utmp_text(data, 8, 40)
    &&& e.ut_user@ == utmp_text(data, 44, 76)
    &&& e.ut_host@ == utmp_text(data, 76, 332)
    &&& (e.ut_tv_sec == le_i32(data.subrange(340, 344)) || e.ut_tv_sec == be_i32(
        data.subrange(340, 344),
    ))
    &&& (e.ut_tv_usec == le_i32(data.subrange(344, 348)) || e.ut_tv_usec == be_i32(
        data.subrange(344, 348),
    ))
}

fn trim_nul(s: String) -> (r: String)
    ensures
        r@ == trim_nul_end(s@),
{
    let c = chars_of(s.as_str());
    let mut end = c.len();
    assert(c@.take(end as int) =~= c@);
    while end > 0 && c[end - 1] == '\0'
        invariant
            end <= c@.len(),
            c@ == s@,
            trim_nul_end(s@) == trim_nul_end(c@.take(end as int)),
        decreases end,
    {
        assert(c@.take(end as int).drop_last() =~= c@.take(end - 1));
        end = end - 1;
    }
    let t = crate::text::sub_chars(c.as_slice(), 0, end);
    assert(t@ =~= c@.take(end as int));
    crate::text::string_of(t.as_slice())
}

fn four(data: &[u8], at: usize) -> (r: [u8; 4])
    requires
        at + 4 <= data@.len(),
    ensures
        r@ == data@.subrange(at as int, at + 4),
{
    let r = [data[at], data[at + 1], data[at + 2], data[at + 3]];
    assert(r@ =~= data@.subrange(at as int, at + 4));
    r
}

fn text_field(data: &[u8], from: usize, to: usize) -> (r: String)
    requires
        from <= to <= data@.len(),
    ensures
        r@ == utmp_text(data@, from as int, to as int),
        vstd::utf8::valid_utf8(data@.subrange(from as int, to as int)) ==> r@ == trim_nul_end(
            vstd::utf8::decode_utf8(data@.subrange(from as int, to as int)),
        ),
{
    let v = crate::text::sub_bytes(data, from, to);
    trim_nul(string_from_utf8_lossy(v.as_slice()))
}

/// Decodes one utmp record. A text field that holds valid UTF-8 is its
/// characters, trailing NULs removed.
pub fn parse_utmp_record(data: &[u8]) -> (r: UtmpEntry)
    requires
        data@.len() >= 348,
    ensures
        utmp_renders(r, data@),
        vstd::utf8::valid_utf8(data@.subrange(8, 40)) ==> r.ut_line@ == trim_nul_end(
            vstd::utf8::decode_utf8(data@.subrange(8, 40)),
        ),
        vstd::utf8::valid_utf8(data@.subrange(44, 76)) ==> r.ut_user@ == trim_nul_end(
            vstd::utf8::decode_utf8(data@.subrange(44, 76)),
        ),
        vstd::utf8::valid_utf8(data@.subrange(76, 332)) ==> r.ut_host@ == trim_nul_end(
            vstd::utf8::decode_utf8(data@.subrange(76, 332)),
        ),
{
    let t = i32_from_ne_bytes(four(data, 0));
    UtmpEntry {
        ut_type: t as i16,
        ut_pid: i32_from_ne_bytes(four(data, 4)),
        ut_line: text_field(data, 8, 40),
        ut_user: text_field(data, 44, 76),
        ut_host: text_field(data, 76, 332),
        ut_tv_sec: i32_from_ne_bytes(four(data, 340)),
        ut_tv_usec: i32_from_ne_bytes(four(data, 344)),
    }
}

/// Whether a record has neither a user nor a line.
pub open spec fn utmp_blank(data: Seq<u8>) -> bool {
    utmp_text(data, 44, 76).len() == 0 && utmp_text(data, 8, 40).len() == 0
}

/// The records kept from `data` from offset `off` on, after those already
/// kept (their offsets in `acc`): each 384-byte record (the last may be
/// shorter) that is not blank, stopping at a final piece too short to hold
/// a record (under 348 bytes), which is skipped, or once 1000 are kept.
pub open spec fn utmp_offsets(data: Seq<u8>, off: nat, acc: Seq<nat>) -> Seq<nat>
    decreases data.len() - off,
{
    if off >= data.len() {
        acc
    } else {
        let end = if off + UTMP_RECORD_SIZE <= data.len() {
            off + UTMP_RECORD_SIZE
        } else {
            data.len() as int
        };
        if end - off < 348 {
            acc
        } else {
            let rec = data.subrange(off as int, end);
            let acc2 = if utmp_blank(rec) {
                acc
            } else {
                acc.push(off)
            };
            if acc2.len() >= MAX_UTMP_ENTRIES {
                acc2
            } else {
                utmp_offsets(data, end as nat, acc2)
            }
        }
    }
}

/// The record that starts at `off`.
pub open spec fn utmp_record_at(data: Seq<u8>, off: nat) -> Seq<u8> {
    data.subrange(
        off as int,
        if off + UTMP_RECORD_SIZE <= data.len() {
            off + UTMP_RECORD_SIZE
        } else {
            data.len() as int
        },
    )
}

/// The login records of a utmp-format file; `None` when none is kept. A
/// final piece too short to hold a record is skipped.
pub fn utmp_entries(data: &[u8]) -> (r: Option<Vec<UtmpEntry>>)
    ensures
        ({
            let offs = utmp_offsets(data@, 0, seq![]);
            &&& (r is None <==> offs.len() == 0)
            &&& r matches Some(v) ==> v@.len() == offs.len() && forall|i: int|
                0 <= i < offs.len() ==> utmp_renders(#[trigger] v@[i], utmp_record_at(data@, offs[i]))
        }),
{
    let mut entries: Vec<UtmpEntry> = Vec::new();
    let ghost mut acc: Seq<nat> = seq![];
    let mut off: usize = 0;
    let mut done = false;
    while off < data.len() && !done
        invariant
            off <= data@.len(),
            entries@.len() == acc.len(),
            acc.len() <= MAX_UTMP_ENTRIES,
            forall|i: int|
                0 <= i < acc.len() ==> utmp_renders(#[trigger] entries@[i], utmp_record_at(data@, acc[i])),
            !done ==> utmp_offsets(data@, off as nat, acc) == utmp_offsets(data@, 0, seq![]),
            !done ==> acc.len() < MAX_UTMP_ENTRIES,
            done ==> acc == utmp_offsets(data@, 0, seq![]),
        decreases data.len() - off + (if done { 0int } else { 1int }),
    {
        let end = if data.len() - off >= UTMP_RECORD_SIZE {
            off + UTMP_RECORD_SIZE
        } else {
            data.len()
        };
        if end - off < 348 {
            done = true;
        } else {
            let ghost old_acc = acc;
            let rec = crate::text::sub_bytes(data, off, end);
            assert(rec@ == utmp_record_at(data@, off as nat));
            let e = parse_utmp_record(rec.as_slice());
            let blank = e.ut_user.as_str().is_empty() && e.ut_line.as_str().is_empty();
            if !blank {
                entries.push(e);
                proof {
                    acc = acc.push(off as nat);
                }
            }
            assert(acc == (if utmp_blank(rec@) {
                old_acc
            } else {
                old_acc.push(off as nat)
            }));
            if entries.len() >= MAX_UTMP_ENTRIES {
                done = true;
            } else {
                off = end;
            }
        }
    }
    if entries.len() == 0 {
        None
    } else {
        Some(entries)
    }
}

impl Session {
    /// Which of the record files exist under `roots`.
    pub fn probe(&self, roots: &FsRoots) -> (r: ProbeOutcome)
        ensures
            probe_post(r, *roots, str_views(FILES@), "all session files missing"@),
    {
        probe_files(roots, FILES.as_slice(), "all session files missing")
    }

    /// How many records were kept from the three files.
    pub fn items_collected(
        &self,
        utmp: &Option<Vec<UtmpEntry>>,
        wtmp: &Option<Vec<UtmpEntry>>,
        btmp: &Option<Vec<UtmpEntry>>,
    ) -> (r: u64)
        requires
            (match utmp {
                Some(v) => v@.len(),
                None => 0,
            }) + (match wtmp {
                Some(v) => v@.len(),
                None => 0,
            }) + (match btmp {
                Some(v) => v@.len(),
                None => 0,
            }) <= u64::MAX,
        ensures
            r == (match utmp {
                Some(v) => v@.len(),
                None => 0,
            }) + (match wtmp {
                Some(v) => v@.len(),
                None => 0,
            }) + (match btmp {
                Some(v) => v@.len(),
                None => 0,
            }),
    {
        let a: u64 = match utmp {
            Some(v) => v.len() as u64,
            None => 0,
        };
        let b: u64 = match wtmp {
            Some(v) => v.len() as u64,
            None => 0,
        };
        let c: u64 = match btmp {
            Some(v) => v.len() as u64,
            None => 0,
        };
        a + b + c
    }

    /// The status after the record was written.
    pub fn status(&self, degraded: &Vec<String>) -> (r: CollectionStatus)
        ensures
            r@ == if degraded@.len() == 0 {
                StatusView::Complete
            } else {
                StatusView::Partial(strings_view(degraded@))
            },
    {
        partial_status(degraded)
    }
}

} // verus!
