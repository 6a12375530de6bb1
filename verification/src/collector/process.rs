//! RT-04: one record per process. The values that `/proc/<pid>/*` gives are
//! read elsewhere; here they are decoded: namespace links, cgroup lines,
//! capability masks, and the texts that the record keeps.
use vstd::prelude::*;

use crate::collector::{
    join_strings, partial_status, seq_join, strings_view, CollectionStatus, ProbeOutcome,
    StatusView,
};
use crate::fs::FsRoots;
use crate::text::{
    chars_of, decimal, decimal_chars, lines, lines_of, parse_i64, parse_signed, parse_uint,
    parse_unsigned, seqs_of, string_of, sub_chars, trim, trim_chars,
};

verus! {

/// The RT-04 collector.
pub struct Process;

/// One line of `/proc/<pid>/cgroup`.
pub struct CgroupEntry {
    pub hierarchy: Option<u32>,
    pub controllers: Option<String>,
    pub path: Option<String>,
}

/// The inode numbers of a process's namespaces.
pub struct NsInodes {
    pub mnt: Option<u64>,
    pub net: Option<u64>,
    pub pid: Option<u64>,
    pub ipc: Option<u64>,
    pub uts: Option<u64>,
    pub user: Option<u64>,
    pub cgroup: Option<u64>,
    pub time: Option<u64>,
}

pub open spec fn opt_view(o: Option<String>) -> Option<Seq<char>> {
    match o {
        Some(s) => Some(s@),
        None => None,
    }
}

pub open spec fn is_ascii_digit(c: char) -> bool {
    '0' <= c && c <= '9'
}

pub open spec fn trim_nondigits_start(s: Seq<char>) -> Seq<char>
    decreases s.len(),
{
    if s.len() > 0 && !is_ascii_digit(s[0]) {
        trim_nondigits_start(s.drop_first())
    } else {
        s
    }
}

pub open spec fn trim_nondigits_end(s: Seq<char>) -> Seq<char>
    decreases s.len(),
{
    if s.len() > 0 && !is_ascii_digit(s.last()) {
        trim_nondigits_end(s.drop_last())
    } else {
        s
    }
}

/// The second `:`-separated piece of a namespace link such as
/// `net:[4026531840]`, stripped of non-digits at both ends, as a number.
pub open spec fn ns_inode_spec(raw: Seq<char>) -> Option<int> {
    let pieces = crate::text::split_of(raw, ':');
    if pieces.len() < 2 {
        None
    } else {
        parse_unsigned(trim_nondigits_end(trim_nondigits_start(pieces[1])), 10, u64::MAX as int)
    }
}

proof fn lemma_trim_nd_start_skip(s: Seq<char>, i: int)
    requires
        0 <= i <= s.len(),
        forall|j: int| 0 <= j < i ==> !is_ascii_digit(#[trigger] s[j]),
    ensures
        trim_nondigits_start(s) == trim_nondigits_start(s.skip(i)),
    decreases i,
{
    if i > 0 {
        assert(s.drop_first().skip(i - 1) =~= s.skip(i));
        lemma_trim_nd_start_skip(s.drop_first(), i - 1);
    } else {
        assert(s.skip(0) =~= s);
    }
}

proof fn lemma_trim_nd_end_take(s: Seq<char>, k: int)
    requires
        0 <= k <= s.len(),
        forall|j: int| k <= j < s.len() ==> !is_ascii_digit(#[trigger] s[j]),
    ensures
        trim_nondigits_end(s) == trim_nondigits_end(s.take(k)),
    decreases s.len() - k,
{
    if k < s.len() {
        assert(s.drop_last().take(k) =~= s.take(k));
        lemma_trim_nd_end_take(s.drop_last(), k);
    } else {
        assert(s.take(k) =~= s);
    }
}

fn trim_nondigits(s: &[char]) -> (r: Vec<char>)
    ensures
        r@ == trim_nondigits_end(trim_nondigits_start(s@)),
{
    let mut start: usize = 0;
    while start < s.len() && !('0' <= s[start] && s[start] <= '9')
        invariant
            start <= s@.len(),
            forall|j: int| 0 <= j < start ==> !is_ascii_digit(#[trigger] s@[j]),
        decreases s.len() - start,
    {
        start = start + 1;
    }
    proof {
        lemma_trim_nd_start_skip(s@, start as int);
    }
    let mut end: usize = s.len();
    while end > start && !('0' <= s[end - 1] && s[end - 1] <= '9')
        invariant
            start <= end <= s@.len(),
            forall|j: int| end <= j < s@.len() ==> !is_ascii_digit(#[trigger] s@[j]),
        decreases end - start,
    {
        end = end - 1;
    }
    let ghost t = s@.skip(start as int);
    proof {
        assert forall|j: int| end - start <= j < t.len() implies !is_ascii_digit(#[trigger] t[j]) by {
            assert(t[j] == s@[j + start]);
        }
        lemma_trim_nd_end_take(t, end - start);
        assert(t.take(end - start) =~= s@.subrange(start as int, end as int));
        if start == end && t.len() > 0 {
            assert(is_ascii_digit(t[0]) || start == s@.len());
        }
    }
    let r = sub_chars(s, start, end);
    proof {
        let u = s@.subrange(start as int, end as int);
        if u.len() > 0 {
            assert(is_ascii_digit(u.last()));
        }
        assert(trim_nondigits_end(u) == u);
    }
    r
}

/// The inode number in a namespace link such as `net:[4026531840]`.
pub fn parse_ns_inode(raw: &str) -> (r: Option<u64>)
    ensures
        r is Some <==> ns_inode_spec(raw@) is Some,
        r matches Some(v) ==> v as int == ns_inode_spec(raw@)->0,
{
    let c = chars_of(raw);
    let pieces = crate::text::split_char(c.as_slice(), ':');
    assert(seqs_of(pieces@).len() == pieces@.len());
    if pieces.len() < 2 {
        return None;
    }
    assert(seqs_of(pieces@)[1] == pieces@[1]@);
    let t = trim_nondigits(pieces[1].as_slice());
    parse_uint(t.as_slice(), 10, u64::MAX)
}

/// The index of the first `c` in `s`, if any.
pub open spec fn find_char(s: Seq<char>, c: char) -> Option<int>
    decreases s.len(),
{
    if s.len() == 0 {
        None
    } else if s[0] == c {
        Some(0)
    } else {
        match find_char(s.drop_first(), c) {
            Some(i) => Some(i + 1),
            None => None,
        }
    }
}

proof fn lemma_find_char(s: Seq<char>, c: char, i: int)
    requires
        0 <= i <= s.len(),
        forall|j: int| 0 <= j < i ==> #[trigger] s[j] != c,
    ensures
        i < s.len() && s[i] == c ==> find_char(s, c) == Some(i),
        i == s.len() ==> find_char(s, c) is None,
    decreases i,
{
    if i > 0 {
        lemma_find_char(s.drop_first(), c, i - 1);
    }
}

pub proof fn lemma_find_char_pub(s: Seq<char>, c: char, i: int)
    requires
        0 <= i <= s.len(),
        forall|j: int| 0 <= j < i ==> #[trigger] s[j] != c,
    ensures
        i < s.len() && s[i] == c ==> find_char(s, c) == Some(i),
        i == s.len() ==> find_char(s, c) is None,
{
    lemma_find_char(s, c, i);
}

fn find_from(s: &[char], c: char, from: usize) -> (r: Option<usize>)
    requires
        from <= s@.len(),
    ensures
        r matches Some(i) ==> from <= i < s@.len() && find_char(s@.skip(from as int), c) == Some(
            i - from,
        ),
        r is None ==> find_char(s@.skip(from as int), c) is None,
{
    let mut i = from;
    while i < s.len() && s[i] != c
        invariant
            from <= i <= s@.len(),
            forall|j: int| from <= j < i ==> s@[j] != c,
        decreases s.len() - i,
    {
        i = i + 1;
    }
    proof {
        let t = s@.skip(from as int);
        assert forall|j: int| 0 <= j < i - from implies #[trigger] t[j] != c by {
            assert(t[j] == s@[j + from]);
        }
        lemma_find_char(t, c, i - from);
    }
    if i < s.len() {
        Some(i)
    } else {
        None
    }
}

/// A text kept only when non-empty.
pub open spec fn nonempty(s: Seq<char>) -> Option<Seq<char>> {
    if s.len() == 0 {
        None
    } else {
        Some(s)
    }
}

/// The three `:`-separated fields of a `/proc/<pid>/cgroup` line: the
/// hierarchy number, the controllers and the path, the last taking the rest
/// of the line; `None` when the line has fewer than two colons.
pub open spec fn cgroup_line_spec(line: Seq<char>) -> Option<
    (Option<int>, Option<Seq<char>>, Option<Seq<char>>),
> {
    match find_char(line, ':') {
        None => None,
        Some(i) => match find_char(line.skip(i + 1), ':') {
            None => None,
            Some(j) => Some(
                (
                    parse_unsigned(line.take(i), 10, u32::MAX as int),
                    nonempty(line.subrange(i + 1, i + 1 + j)),
                    nonempty(line.skip(i + 1 + j + 1)),
                ),
            ),
        },
    }
}

pub open spec fn cgroup_entry_view(e: CgroupEntry) -> (
    Option<int>,
    Option<Seq<char>>,
    Option<Seq<char>>,
) {
    (
        match e.hierarchy {
            Some(h) => Some(h as int),
            None => None,
        },
        opt_view(e.controllers),
        opt_view(e.path),
    )
}

fn nonempty_string(s: &[char]) -> (r: Option<String>)
    ensures
        opt_view(r) == nonempty(s@),
{
    if s.len() == 0 {
        None
    } else {
        Some(string_of(s))
    }
}

fn parse_cgroup_chars(c: &[char]) -> (r: Option<CgroupEntry>)
    ensures
        r is Some <==> cgroup_line_spec(c@) is Some,
        r matches Some(e) ==> cgroup_entry_view(e) == cgroup_line_spec(c@)->0,
{
    let i = match find_from(c, ':', 0) {
        Some(i) => i,
        None => {
            assert(c@.skip(0) =~= c@);
            return None;
        },
    };
    assert(c@.skip(0) =~= c@);
    assert(i < c.len());
    let j = match find_from(c, ':', i + 1) {
        Some(j) => j,
        None => return None,
    };
    assert(j < c.len());
    let first = sub_chars(c, 0, i);
    let second = sub_chars(c, i + 1, j);
    let third = sub_chars(c, j + 1, c.len());
    assert(first@ =~= c@.take(i as int));
    assert(third@ =~= c@.skip(j + 1));
    let hierarchy = match parse_uint(first.as_slice(), 10, u32::MAX as u64) {
        Some(v) => Some(v as u32),
        None => None,
    };
    Some(
        CgroupEntry {
            hierarchy,
            controllers: nonempty_string(second.as_slice()),
            path: nonempty_string(third.as_slice()),
        },
    )
}

/// Parses one line of `/proc/<pid>/cgroup`.
pub fn parse_cgroup_line(line: &str) -> (r: Option<CgroupEntry>)
    ensures
        r is Some <==> cgroup_line_spec(line@) is Some,
        r matches Some(e) ==> cgroup_entry_view(e) == cgroup_line_spec(line@)->0,
{
    let c = chars_of(line);
    parse_cgroup_chars(c.as_slice())
}

/// The entries of a whole `/proc/<pid>/cgroup` file: its lines that parse, in order.
pub open spec fn cgroup_file_spec(ls: Seq<Seq<char>>) -> Seq<
    (Option<int>, Option<Seq<char>>, Option<Seq<char>>),
>
    decreases ls.len(),
{
    if ls.len() == 0 {
        seq![]
    } else {
        let prev = cgroup_file_spec(ls.drop_last());
        match cgroup_line_spec(ls.last()) {
            Some(e) => prev.push(e),
            None => prev,
        }
    }
}

pub open spec fn cgroup_entries_view(v: Seq<CgroupEntry>) -> Seq<
    (Option<int>, Option<Seq<char>>, Option<Seq<char>>),
> {
    v.map_values(|e: CgroupEntry| cgroup_entry_view(e))
}

/// The entries of a `/proc/<pid>/cgroup` file.
pub fn parse_cgroup_file(raw: &str) -> (r: Vec<CgroupEntry>)
    ensures
        cgroup_entries_view(r@) == cgroup_file_spec(lines_of(raw@)),
{
    let c = chars_of(raw);
    let ls = lines(c.as_slice());
    let mut out: Vec<CgroupEntry> = Vec::new();
    let mut i: usize = 0;
    while i < ls.len()
        invariant
            i <= ls@.len(),
            seqs_of(ls@) == lines_of(raw@),
            cgroup_entries_view(out@) == cgroup_file_spec(seqs_of(ls@).take(i as int)),
        decreases ls.len() - i,
    {
        let ghost t = seqs_of(ls@).take(i + 1);
        assert(t.drop_last() =~= seqs_of(ls@).take(i as int));
        assert(t.last() == ls@[i as int]@);
        let ghost prev = cgroup_entries_view(out@);
        match parse_cgroup_chars(ls[i].as_slice()) {
            Some(e) => {
                out.push(e);
                assert(cgroup_entries_view(out@) =~= prev.push(cgroup_line_spec(ls@[i as int]@)->0));
            },
            None => {},
        }
        i = i + 1;
    }
    assert(seqs_of(ls@).take(i as int) =~= seqs_of(ls@));
    out
}

/// Whether bit `b` of `x` is set.
pub open spec fn bit_set(x: u64, b: u64) -> bool {
    x & (1u64 << b) != 0
}

/// The name of capability bit `b`: `cap_` and its number.
pub open spec fn cap_name(b: nat) -> Seq<char> {
    seq!['c', 'a', 'p', '_'] + decimal(b)
}

/// The names of the set bits of `x` below `n`, lowest first.
pub open spec fn cap_names_below(x: u64, n: nat) -> Seq<Seq<char>>
    decreases n,
{
    if n == 0 {
        seq![]
    } else {
        let prev = cap_names_below(x, (n - 1) as nat);
        if bit_set(x, (n - 1) as u64) {
            prev.push(cap_name((n - 1) as nat))
        } else {
            prev
        }
    }
}

/// The capability names of a mask: bits 0 to 40 that are set; `None` when
/// there is no mask or no such bit is set.
pub open spec fn caps_spec(cap: Option<u64>) -> Option<Seq<Seq<char>>> {
    match cap {
        None => None,
        Some(x) => if cap_names_below(x, 41).len() == 0 {
            None
        } else {
            Some(cap_names_below(x, 41))
        },
    }
}

proof fn lemma_cap_names_empty(x: u64, n: nat)
    ensures
        cap_names_below(x, n).len() == 0 <==> forall|b: u64| b < n ==> !#[trigger] bit_set(x, b),
    decreases n,
{
    if n > 0 {
        lemma_cap_names_empty(x, (n - 1) as nat);
        if cap_names_below(x, n).len() == 0 {
            assert forall|b: u64| b < n implies !#[trigger] bit_set(x, b) by {
                if b < n - 1 {
                    assert(!bit_set(x, b));
                }
            }
        }
    }
}

/// A mask yields no capability names exactly when none of its bits 0 to 40
/// is set (or there is no mask).
pub proof fn lemma_caps_none_iff_clear(cap: Option<u64>)
    ensures
        caps_spec(cap) is None <==> match cap {
            None => true,
            Some(x) => forall|b: u64| b < 41 ==> !#[trigger] bit_set(x, b),
        },
{
    if let Some(x) = cap {
        lemma_cap_names_empty(x, 41);
    }
}

/// The names of the capabilities in a mask.
pub fn decode_caps(cap: Option<u64>) -> (r: Option<Vec<String>>)
    ensures
        match r {
            None => caps_spec(cap) is None,
            Some(v) => caps_spec(cap) == Some(strings_view(v@)),
        },
{
    let bits = match cap {
        Some(b) => b,
        None => return None,
    };
    let mut names: Vec<String> = Vec::new();
    let mut bit: u64 = 0;
    let prefix: [char; 4] = ['c', 'a', 'p', '_'];
    while bit < 41
        invariant
            bit <= 41,
            prefix@ == seq!['c', 'a', 'p', '_'],
            strings_view(names@) == cap_names_below(bits, bit as nat),
        decreases 41 - bit,
    {
        if bits & (1u64 << bit) != 0 {
            let mut n: Vec<char> = Vec::new();
            crate::text::extend_chars(&mut n, prefix.as_slice());
            let d = decimal_chars(bit);
            crate::text::extend_chars(&mut n, d.as_slice());
            let ghost prev = strings_view(names@);
            names.push(string_of(n.as_slice()));
            assert(strings_view(names@) =~= prev.push(cap_name(bit as nat)));
        }
        bit = bit + 1;
    }
    assert(strings_view(names@).len() == names@.len());
    if names.len() == 0 {
        None
    } else {
        Some(names)
    }
}

/// The status of a process collection: `Failed` when a line could not be
/// written, `Truncated` when a limit cut the stream, with `size_limit` when it
/// was the 64 MiB limit (`size_stop`) and `item_count_limit` when it was the
/// line limit, else complete or `Partial` as the probe found.
pub open spec fn process_status_spec(
    write_error: Option<Seq<char>>,
    truncated: bool,
    size_stop: bool,
    degraded: Seq<Seq<char>>,
) -> StatusView {
    match write_error {
        Some(e) => StatusView::Failed(e),
        None => if truncated {
            StatusView::Truncated(
                if size_stop {
                    seq!['s', 'i', 'z', 'e', '_', 'l', 'i', 'm', 'i', 't']
                } else {
                    seq!['i', 't', 'e', 'm', '_', 'c', 'o', 'u', 'n', 't', '_', 'l', 'i', 'm', 'i', 't']
                },
            )
        } else if degraded.len() == 0 {
            StatusView::Complete
        } else {
            StatusView::Partial(degraded)
        },
    }
}

impl Process {
    /// The process collector can run when `/proc/1/status` exists on this
    /// machine (the roots do not redirect this check).
    pub fn probe(&self, roots: &FsRoots) -> (r: ProbeOutcome)
        ensures
            r.roots@ == roots@,
            r.degraded@.len() == 0,
            r.available ==> r.reason is None,
            !r.available ==> opt_view(r.reason) == Some(
                seq!['/', 'p', 'r', 'o', 'c', ' ', 'n', 'o', 't', ' ', 'a', 'c', 'c', 'e', 's', 's', 'i', 'b', 'l', 'e'],
            ),
    {
        let path: [char; 14] = ['/', 'p', 'r', 'o', 'c', '/', '1', '/', 's', 't', 'a', 't', 'u', 's'];
        if crate::fs::path_exists(&string_of(path.as_slice())) {
            ProbeOutcome { available: true, degraded: Vec::new(), reason: None, roots: roots.clone() }
        } else {
            let reason: [char; 20] = [
                '/', 'p', 'r', 'o', 'c', ' ', 'n', 'o', 't', ' ', 'a', 'c', 'c', 'e', 's', 's', 'i',
                'b', 'l', 'e',
            ];
            assert(reason@ =~= seq![
                '/', 'p', 'r', 'o', 'c', ' ', 'n', 'o', 't', ' ', 'a', 'c', 'c', 'e', 's', 's', 'i', 'b', 'l', 'e'
            ]);
            ProbeOutcome {
                available: false,
                degraded: Vec::new(),
                reason: Some(string_of(reason.as_slice())),
                roots: roots.clone(),
            }
        }
    }

    /// The status of a finished process collection.
    pub fn status(
        &self,
        write_error: &Option<String>,
        truncated: bool,
        size_stop: bool,
        degraded: &Vec<String>,
    ) -> (r: CollectionStatus)
        ensures
            r@ == process_status_spec(opt_view(*write_error), truncated, size_stop, strings_view(degraded@)),
    {
        match write_error {
            Some(e) => CollectionStatus::Failed { reason: e.clone() },
            None => if truncated {
                if size_stop {
                    let t: [char; 10] = ['s', 'i', 'z', 'e', '_', 'l', 'i', 'm', 'i', 't'];
                    assert(t@ =~= seq!['s', 'i', 'z', 'e', '_', 'l', 'i', 'm', 'i', 't']);
                    CollectionStatus::Truncated { reason: string_of(t.as_slice()) }
                } else {
                    let t: [char; 16] = [
                        'i', 't', 'e', 'm', '_', 'c', 'o', 'u', 'n', 't', '_', 'l', 'i', 'm', 'i', 't',
                    ];
                    assert(t@ =~= seq![
                        'i', 't', 'e', 'm', '_', 'c', 'o', 'u', 'n', 't', '_', 'l', 'i', 'm', 'i', 't'
                    ]);
                    CollectionStatus::Truncated { reason: string_of(t.as_slice()) }
                }
            } else {
                partial_status(degraded)
            },
        }
    }
}

/// A number written in decimal, with a minus sign when it is negative.
pub open spec fn signed_decimal(x: int) -> Seq<char> {
    if x < 0 {
        seq!['-'] + crate::text::decimal((-x) as nat)
    } else {
        crate::text::decimal(x as nat)
    }
}

/// The path of the file `leaf` of the process `pid` under `/proc`.
pub open spec fn pid_path_spec(pid: int, leaf: Seq<char>) -> Seq<char> {
    "/proc/"@ + signed_decimal(pid) + seq!['/'] + leaf
}

/// The path of the file `leaf` of the process `pid`, `/proc/<pid>/<leaf>`.
pub fn pid_path(pid: i32, leaf: &str) -> (r: String)
    ensures
        r@ == pid_path_spec(pid as int, leaf@),
{
    let mut v = chars_of("/proc/");
    if pid < 0 {
        v.push('-');
        let m: i64 = -(pid as i64);
        let d = crate::text::decimal_chars(m as u64);
        crate::text::extend_chars(&mut v, d.as_slice());
    } else {
        let d = crate::text::decimal_chars(pid as u64);
        crate::text::extend_chars(&mut v, d.as_slice());
    }
    v.push('/');
    let l = chars_of(leaf);
    crate::text::extend_chars(&mut v, l.as_slice());
    assert(v@ =~= pid_path_spec(pid as int, leaf@));
    string_of(v.as_slice())
}

/// The first `n` characters of `s`.
pub fn take_chars(s: &str, n: usize) -> (r: String)
    ensures
        r@ == s@.take(if n <= s@.len() { n as int } else { s@.len() as int }),
{
    let c = chars_of(s);
    let end = if n <= c.len() {
        n
    } else {
        c.len()
    };
    let t = sub_chars(c.as_slice(), 0, end);
    assert(t@ =~= s@.take(end as int));
    string_of(t.as_slice())
}

/// The wait channel kept from `/proc/<pid>/wchan`: trimmed, and only when
/// neither empty nor `0`.
pub open spec fn wchan_spec(raw: Option<Seq<char>>) -> Option<Seq<char>> {
    match raw {
        None => None,
        Some(s) => if trim(s).len() == 0 || trim(s) == seq!['0'] {
            None
        } else {
            Some(trim(s))
        },
    }
}

/// The wait channel of a process, from the contents of its `wchan` file.
pub fn wchan_value(raw: &Option<String>) -> (r: Option<String>)
    ensures
        opt_view(r) == wchan_spec(opt_view(*raw)),
{
    match raw {
        None => None,
        Some(s) => {
            let c = chars_of(s.as_str());
            let t = trim_chars(c.as_slice());
            if t.len() == 0 || (t.len() == 1 && t[0] == '0') {
                proof {
                    if t@.len() == 1 {
                        assert(t@ =~= seq!['0']);
                    }
                }
                None
            } else {
                proof {
                    if t@.len() == 1 {
                        assert(t@[0] != seq!['0'][0]);
                    }
                }
                Some(string_of(t.as_slice()))
            }
        },
    }
}

/// A signed number read from a file such as `oom_score`: the trimmed
/// contents parsed as `i64`.
pub fn parse_trimmed_i64(raw: &Option<String>) -> (r: Option<i64>)
    ensures
        match opt_view(*raw) {
            None => r is None,
            Some(s) => match parse_signed(trim(s), i64::MIN as int, i64::MAX as int) {
                None => r is None,
                Some(v) => r == Some(v as i64),
            },
        },
{
    match raw {
        None => None,
        Some(s) => {
            let c = chars_of(s.as_str());
            let t = trim_chars(c.as_slice());
            parse_i64(t.as_slice())
        },
    }
}

/// The command line of a process: its arguments joined by spaces, kept
/// only when that is not empty.
pub fn cmdline_text(args: &Option<Vec<String>>) -> (r: Option<String>)
    ensures
        match *args {
            None => r is None,
            Some(a) => opt_view(r) == nonempty(seq_join(strings_view(a@), seq![' '])),
        },
{
    match args {
        None => None,
        Some(a) => {
            let sp: [char; 1] = [' '];
            assert(sp@ =~= seq![' ']);
            let sep = string_of(sp.as_slice());
            let j = join_strings(a, sep.as_str());
            let c = chars_of(j.as_str());
            nonempty_string(c.as_slice())
        },
    }
}

/// The name of a process, kept only when not empty.
pub fn name_text(comm: &Option<String>) -> (r: Option<String>)
    ensures
        match *comm {
            None => r is None,
            Some(c) => opt_view(r) == nonempty(c@),
        },
{
    match comm {
        None => None,
        Some(c) => {
            let v = chars_of(c.as_str());
            nonempty_string(v.as_slice())
        },
    }
}

pub open spec fn ns_opt(raw: Option<String>) -> Option<int> {
    match raw {
        None => None,
        Some(s) => ns_inode_spec(s@),
    }
}

fn ns_of(raw: &Option<String>) -> (r: Option<u64>)
    ensures
        match r {
            Some(v) => ns_opt(*raw) == Some(v as int),
            None => ns_opt(*raw) is None,
        },
{
    match raw {
        None => None,
        Some(s) => parse_ns_inode(s.as_str()),
    }
}

/// The namespace links read for a process, in the order mnt, net, pid,
/// ipc, uts, user, cgroup, time.
pub struct NsLinks {
    pub mnt: Option<String>,
    pub net: Option<String>,
    pub pid: Option<String>,
    pub ipc: Option<String>,
    pub uts: Option<String>,
    pub user: Option<String>,
    pub cgroup: Option<String>,
    pub time: Option<String>,
}

pub open spec fn ns_matches(r: Option<u64>, raw: Option<String>) -> bool {
    match r {
        Some(v) => ns_opt(raw) == Some(v as int),
        None => ns_opt(raw) is None,
    }
}

/// The inode numbers of a process's namespaces: present when its mount or
/// network namespace link could be read.
pub fn ns_inodes(links: &NsLinks) -> (r: Option<NsInodes>)
    ensures
        r is Some <==> (links.mnt is Some || links.net is Some),
        r matches Some(n) ==> {
            &&& ns_matches(n.mnt, links.mnt)
            &&& ns_matches(n.net, links.net)
            &&& ns_matches(n.pid, links.pid)
            &&& ns_matches(n.ipc, links.ipc)
            &&& ns_matches(n.uts, links.uts)
            &&& ns_matches(n.user, links.user)
            &&& ns_matches(n.cgroup, links.cgroup)
            &&& ns_matches(n.time, links.time)
        },
{
    if links.mnt.is_some() || links.net.is_some() {
        Some(
            NsInodes {
                mnt: ns_of(&links.mnt),
                net: ns_of(&links.net),
                pid: ns_of(&links.pid),
                ipc: ns_of(&links.ipc),
                uts: ns_of(&links.uts),
                user: ns_of(&links.user),
                cgroup: ns_of(&links.cgroup),
                time: ns_of(&links.time),
            },
        )
    } else {
        None
    }
}

} // verus!
