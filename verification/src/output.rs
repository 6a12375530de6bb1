//! The output directory and the rules of the two writers: a JSON document is
//! refused above 64 MiB; a JSONL stream stops at 64 MiB or 50000 lines and
//! then ends with one truncation marker when it fits.
use vstd::prelude::*;

use crate::error::OutputError;
use crate::text::{chars_of, split_char, split_of, seqs_of, starts_with, string_of};

verus! {

/// The most bytes one output file may hold.
pub const SIZE_LIMIT: u64 = 67108864;

/// The most lines one JSONL file may hold.
pub const ITEM_COUNT_LIMIT: u64 = 50000;

/// The directory that one snapshot is written into.
pub struct OutputDir {
    pub root: String,
}

/// The components of a path that name something: the pieces between
/// slashes, without empty ones and `.`.
pub open spec fn named_components(p: Seq<char>) -> Seq<Seq<char>> {
    split_of(p, '/').filter(names_something())
}

/// Whether a path piece names something: it is neither empty nor `.`.
pub open spec fn names_something() -> spec_fn(Seq<char>) -> bool {
    |c: Seq<char>| c.len() > 0 && c != seq!['.']
}

/// What `Path::file_name` gives: the last component, unless the path has
/// none or ends in `..`.
pub open spec fn file_name_spec(p: Seq<char>) -> Option<Seq<char>> {
    let comps = named_components(p);
    if comps.len() == 0 || comps.last() == seq!['.', '.'] {
        None
    } else {
        Some(comps.last())
    }
}

pub open spec fn rebootsnap_prefix() -> Seq<char> {
    seq!['r', 'e', 'b', 'o', 'o', 't', 's', 'n', 'a', 'p', '-']
}

impl OutputDir {
    /// An output directory at `root`, which already exists.
    pub fn from_existing(root: String) -> (r: Self)
        ensures
            r.root@ == root@,
    {
        OutputDir { root }
    }

    /// The directory's path.
    pub fn root(&self) -> (r: &str)
        ensures
            r@ == self.root@,
    {
        self.root.as_str()
    }

    /// The directory's own name, the last component of its path.
    pub fn directory_name(&self) -> (r: Option<String>)
        ensures
            r is Some <==> file_name_spec(self.root@) is Some,
            r matches Some(n) ==> n@ == file_name_spec(self.root@)->0,
    {
        let c = chars_of(self.root.as_str());
        let pieces = split_char(c.as_slice(), '/');
        let ghost all = seqs_of(pieces@);
        let mut last: Option<usize> = None;
        let mut i: usize = 0;
        while i < pieces.len()
            invariant
                i <= pieces@.len(),
                all == seqs_of(pieces@),
                all == split_of(self.root@, '/'),
                last matches Some(k) ==> k < i && all.take(i as int).filter(names_something()).last() == all[k as int] && all.take(i as int).filter(names_something()).len() > 0,
                last is None ==> all.take(i as int).filter(names_something()).len() == 0,
            decreases pieces.len() - i,
        {
            let ghost pre = all.take(i as int);
            let ghost nxt = all.take(i + 1);
            assert(nxt.drop_last() =~= pre);
            assert(nxt.last() == pieces@[i as int]@);
            let p = &pieces[i];
            let is_dot = p.len() == 1 && p[0] == '.';
            proof {
                if p@.len() == 1 && p@[0] == '.' {
                    assert(p@ =~= seq!['.']);
                } else if p@.len() == 1 {
                    assert(p@[0] != seq!['.'][0]);
                } else {
                    assert(p@.len() != seq!['.'].len());
                }
                assert(is_dot == (p@ == seq!['.']));
                reveal(Seq::filter);
                assert(nxt.filter(names_something()) == if (names_something())(nxt.last()) {
                    pre.filter(names_something()).push(nxt.last())
                } else {
                    pre.filter(names_something())
                });
            }
            if p.len() > 0 && !is_dot {
                last = Some(i);
            }
            i = i + 1;
        }
        assert(all.take(i as int) =~= all);
        proof {
            reveal(Seq::filter);
        }
        match last {
            None => None,
            Some(k) => {
                let p = &pieces[k];
                if p.len() == 2 && p[0] == '.' && p[1] == '.' {
                    assert(p@ =~= seq!['.', '.']);
                    None
                } else {
                    assert(p@ != seq!['.', '.']);
                    Some(string_of(p.as_slice()))
                }
            },
        }
    }
}

/// The name of the directory of a snapshot taken at `timestamp`.
pub fn snapshot_dir_name(timestamp: &str) -> (r: String)
    ensures
        r@ == rebootsnap_prefix() + timestamp@,
{
    let prefix: [char; 11] = ['r', 'e', 'b', 'o', 'o', 't', 's', 'n', 'a', 'p', '-'];
    assert(prefix@ =~= rebootsnap_prefix());
    let s = string_of(prefix.as_slice());
    s.concat(timestamp)
}

/// The name of the archive of the directory `dir_name`, falling back to
/// `rebootsnap-unknown` when the directory has no name.
pub fn archive_name(dir_name: &Option<String>) -> (r: String)
    ensures
        dir_name matches Some(d) ==> r@ == d@ + seq!['.', 't', 'a', 'r', '.', 'g', 'z'],
        dir_name is None ==> r@ == rebootsnap_prefix() + seq!['u', 'n', 'k', 'n', 'o', 'w', 'n']
            + seq!['.', 't', 'a', 'r', '.', 'g', 'z'],
{
    let suffix: [char; 7] = ['.', 't', 'a', 'r', '.', 'g', 'z'];
    assert(suffix@ =~= seq!['.', 't', 'a', 'r', '.', 'g', 'z']);
    let suffix_s = string_of(suffix.as_slice());
    let base = match dir_name {
        Some(d) => d.clone(),
        None => {
            let u: [char; 7] = ['u', 'n', 'k', 'n', 'o', 'w', 'n'];
            assert(u@ =~= seq!['u', 'n', 'k', 'n', 'o', 'w', 'n']);
            let us = string_of(u.as_slice());
            snapshot_dir_name(us.as_str())
        },
    };
    base.concat(suffix_s.as_str())
}

/// Whether a file in the output directory is a leftover temporary file:
/// its name begins with `.tmp`.
pub fn is_temp_name(name: &str) -> (r: bool)
    ensures
        r == (name@.len() >= 4 && name@.take(4) == seq!['.', 't', 'm', 'p']),
{
    let c = chars_of(name);
    let t: [char; 4] = ['.', 't', 'm', 'p'];
    assert(t@ =~= seq!['.', 't', 'm', 'p']);
    starts_with(c.as_slice(), t.as_slice())
}

/// The size that a JSON document of `len` bytes is committed with; `None`
/// when it exceeds 64 MiB, in which case the document is dropped, no file is
/// made, and the collection is recorded as truncated by the size limit.
pub fn json_commit_size(len: u64) -> (r: Option<u64>)
    ensures
        len > SIZE_LIMIT ==> r is None,
        len <= SIZE_LIMIT ==> r == Some(len),
{
    if len > SIZE_LIMIT {
        None
    } else {
        Some(len)
    }
}

/// The progress of a JSONL stream.
pub struct JsonlState {
    pub byte_count: u64,
    pub item_count: u64,
    pub truncated: bool,
    /// Whether it was the size limit (rather than the line limit) that
    /// truncated the stream.
    pub size_stop: bool,
}

/// What to do with the next line of a JSONL stream.
#[derive(PartialEq, Eq, Structural)]
pub enum JsonlAction {
    /// The stream is already truncated: drop the line.
    Ignore,
    /// Append the line.
    Write,
    /// The size limit is reached: append the size-limit marker, then stop.
    WriteSizeMarker,
    /// The line limit is reached: append the line-limit marker, then stop.
    WriteItemMarker,
    /// A limit is reached and no marker fits: stop.
    Stop,
}

impl JsonlState {
    /// The invariant of every stream: within both limits.
    pub open spec fn wf(&self) -> bool {
        self.byte_count <= SIZE_LIMIT && self.item_count <= ITEM_COUNT_LIMIT && (self.size_stop
            ==> self.truncated)
    }

    /// What to do with a line of `line_len` bytes (its newline included),
    /// given the lengths of the two truncation markers.
    pub open spec fn decide_spec(
        self,
        line_len: u64,
        size_marker_len: u64,
        item_marker_len: u64,
    ) -> JsonlAction {
        if self.truncated {
            JsonlAction::Ignore
        } else if self.byte_count + line_len > SIZE_LIMIT {
            if self.byte_count < SIZE_LIMIT && self.byte_count + size_marker_len <= SIZE_LIMIT {
                JsonlAction::WriteSizeMarker
            } else {
                JsonlAction::Stop
            }
        } else if self.item_count >= ITEM_COUNT_LIMIT {
            if self.byte_count < SIZE_LIMIT && self.byte_count + item_marker_len <= SIZE_LIMIT {
                JsonlAction::WriteItemMarker
            } else {
                JsonlAction::Stop
            }
        } else {
            JsonlAction::Write
        }
    }

    /// The state after `action` was carried out for a line of `line_len` bytes.
    pub open spec fn after_spec(self, action: JsonlAction, line_len: u64) -> JsonlState {
        match action {
            JsonlAction::Ignore => self,
            JsonlAction::Write => JsonlState {
                byte_count: (self.byte_count + line_len) as u64,
                item_count: (self.item_count + 1) as u64,
                truncated: false,
                size_stop: self.size_stop,
            },
            _ => JsonlState {
                byte_count: self.byte_count,
                item_count: self.item_count,
                truncated: true,
                size_stop: self.byte_count + line_len > SIZE_LIMIT,
            },
        }
    }

    /// A new stream: nothing written.
    pub fn new() -> (r: Self)
        ensures
            r.byte_count == 0,
            r.item_count == 0,
            !r.truncated,
            !r.size_stop,
            r.wf(),
    {
        JsonlState { byte_count: 0, item_count: 0, truncated: false, size_stop: false }
    }

    /// What to do with the next line.
    pub fn decide(&self, line_len: u64, size_marker_len: u64, item_marker_len: u64) -> (r:
        JsonlAction)
        requires
            self.wf(),
        ensures
            r == self.decide_spec(line_len, size_marker_len, item_marker_len),
    {
        if self.truncated {
            JsonlAction::Ignore
        } else if line_len > SIZE_LIMIT - self.byte_count {
            if self.byte_count < SIZE_LIMIT && size_marker_len <= SIZE_LIMIT - self.byte_count {
                JsonlAction::WriteSizeMarker
            } else {
                JsonlAction::Stop
            }
        } else if self.item_count >= ITEM_COUNT_LIMIT {
            if self.byte_count < SIZE_LIMIT && item_marker_len <= SIZE_LIMIT - self.byte_count {
                JsonlAction::WriteItemMarker
            } else {
                JsonlAction::Stop
            }
        } else {
            JsonlAction::Write
        }
    }

    /// Records that `action`, decided for a line of `line_len` bytes, was
    /// carried out.
    pub fn record(&mut self, action: JsonlAction, line_len: u64, size_marker_len: u64, item_marker_len: u64)
        requires
            old(self).wf(),
            action == old(self).decide_spec(line_len, size_marker_len, item_marker_len),
        ensures
            *final(self) == old(self).after_spec(action, line_len),
            final(self).wf(),
    {
        match action {
            JsonlAction::Ignore => {},
            JsonlAction::Write => {
                self.byte_count = self.byte_count + line_len;
                self.item_count = self.item_count + 1;
            },
            _ => {
                self.size_stop = line_len > SIZE_LIMIT - self.byte_count;
                self.truncated = true;
            },
        }
    }

    /// Whether the stream's file is kept when it is finished: only when
    /// some line was written.
    pub fn keeps_file(&self) -> (r: bool)
        ensures
            r == (self.byte_count > 0),
    {
        self.byte_count > 0
    }

    /// Whether the size limit truncated the stream.
    pub fn stopped_by_size(&self) -> (r: bool)
        ensures
            r == self.size_stop,
    {
        self.size_stop
    }

    /// Whether the stream is truncated.
    pub fn is_truncated(&self) -> (r: bool)
        ensures
            r == self.truncated,
    {
        self.truncated
    }

    pub fn byte_count(&self) -> (r: u64)
        ensures
            r == self.byte_count,
    {
        self.byte_count
    }

    pub fn item_count(&self) -> (r: u64)
        ensures
            r == self.item_count,
    {
        self.item_count
    }
}

/// Once a stream is truncated it takes no more lines: every later line is
/// ignored and the state stays as it is.
pub proof fn lemma_truncation_is_final(s: JsonlState, line_len: u64, size_marker_len: u64, item_marker_len: u64)
    requires
        s.truncated,
    ensures
        s.decide_spec(line_len, size_marker_len, item_marker_len) == JsonlAction::Ignore,
        s.after_spec(s.decide_spec(line_len, size_marker_len, item_marker_len), line_len) == s,
{
}

/// A stream never holds more than 64 MiB: the bytes of its lines stay within
/// the limit, and a marker is written only where it fits after them.
pub proof fn lemma_stream_within_limit(s: JsonlState, line_len: u64, size_marker_len: u64, item_marker_len: u64)
    requires
        s.wf(),
    ensures
        ({
            let a = s.decide_spec(line_len, size_marker_len, item_marker_len);
            &&& s.after_spec(a, line_len).wf()
            &&& a == JsonlAction::Write ==> s.byte_count + line_len <= SIZE_LIMIT
                && s.item_count < ITEM_COUNT_LIMIT
            &&& a == JsonlAction::WriteSizeMarker ==> s.byte_count + size_marker_len <= SIZE_LIMIT
            &&& a == JsonlAction::WriteItemMarker ==> s.byte_count + item_marker_len <= SIZE_LIMIT
            &&& a != JsonlAction::Write ==> s.after_spec(a, line_len).byte_count == s.byte_count
                && s.after_spec(a, line_len).item_count == s.item_count
        }),
{
}

/// A line that fits both limits is written in full: the byte count grows by
/// its length and the line count by one.
pub proof fn lemma_line_accepted(s: JsonlState, line_len: u64, size_marker_len: u64, item_marker_len: u64)
    requires
        s.wf(),
        !s.truncated,
        s.byte_count + line_len <= SIZE_LIMIT,
        s.item_count < ITEM_COUNT_LIMIT,
    ensures
        s.decide_spec(line_len, size_marker_len, item_marker_len) == JsonlAction::Write,
        s.after_spec(JsonlAction::Write, line_len).byte_count == s.byte_count + line_len,
        s.after_spec(JsonlAction::Write, line_len).item_count == s.item_count + 1,
{
}

/// The state after a stream is offered the lines of lengths `lens`, in
/// order, each decided and carried out as `JsonlState` does.
pub open spec fn run_stream(s: JsonlState, lens: Seq<u64>, size_marker_len: u64, item_marker_len: u64) -> JsonlState
    decreases lens.len(),
{
    if lens.len() == 0 {
        s
    } else {
        let prev = run_stream(s, lens.drop_last(), size_marker_len, item_marker_len);
        prev.after_spec(prev.decide_spec(lens.last(), size_marker_len, item_marker_len), lens.last())
    }
}

/// Whatever lines a stream is offered, it stays within 64 MiB and 50 000
/// lines, its counts never go down, and once truncated it stays so.
pub proof fn lemma_stream_run_within_limits(
    s: JsonlState,
    lens: Seq<u64>,
    size_marker_len: u64,
    item_marker_len: u64,
)
    requires
        s.wf(),
    ensures
        run_stream(s, lens, size_marker_len, item_marker_len).wf(),
        run_stream(s, lens, size_marker_len, item_marker_len).byte_count >= s.byte_count,
        run_stream(s, lens, size_marker_len, item_marker_len).item_count >= s.item_count,
        s.truncated ==> run_stream(s, lens, size_marker_len, item_marker_len) == s,
    decreases lens.len(),
{
    if lens.len() > 0 {
        lemma_stream_run_within_limits(s, lens.drop_last(), size_marker_len, item_marker_len);
        let prev = run_stream(s, lens.drop_last(), size_marker_len, item_marker_len);
        lemma_stream_within_limit(prev, lens.last(), size_marker_len, item_marker_len);
    }
}

/// Whether a line of `len` bytes stops a stream in state `t` that is not
/// yet truncated: it would pass 64 MiB, or 50 000 lines are already written.
pub open spec fn stops(t: JsonlState, len: u64) -> bool {
    t.byte_count + len > SIZE_LIMIT || t.item_count >= ITEM_COUNT_LIMIT
}

/// The index of the line that truncates a stream offered the lines of
/// lengths `lens`: the first one that stops it, if any.
pub open spec fn stop_index(s: JsonlState, lens: Seq<u64>, size_marker_len: u64, item_marker_len: u64) -> Option<int>
    decreases lens.len(),
{
    if lens.len() == 0 {
        None
    } else {
        match stop_index(s, lens.drop_last(), size_marker_len, item_marker_len) {
            Some(i) => Some(i),
            None => {
                let t = run_stream(s, lens.drop_last(), size_marker_len, item_marker_len);
                if !t.truncated && stops(t, lens.last()) {
                    Some(lens.len() - 1)
                } else {
                    None
                }
            },
        }
    }
}

/// The sum of the first `n` lengths.
pub open spec fn sum_prefix(lens: Seq<u64>, n: int) -> int
    decreases n,
{
    if n <= 0 {
        0
    } else {
        sum_prefix(lens, n - 1) + lens[n - 1]
    }
}

/// A stream that is not yet truncated, offered some lines, writes every line
/// before the first one that stops it and none after: it ends truncated
/// exactly when some line stops it; its line count grows by the number of
/// lines before that one (all of them when none does) and its byte count by
/// their lengths; and the size limit is named as the cause exactly when that
/// line would have passed 64 MiB.
pub proof fn lemma_stream_stops_at_first_overflow(
    s: JsonlState,
    lens: Seq<u64>,
    size_marker_len: u64,
    item_marker_len: u64,
)
    requires
        s.wf(),
        !s.truncated,
    ensures
        ({
            let r = run_stream(s, lens, size_marker_len, item_marker_len);
            let k = match stop_index(s, lens, size_marker_len, item_marker_len) {
                Some(i) => i,
                None => lens.len() as int,
            };
            &&& 0 <= k <= lens.len()
            &&& stop_index(s, lens, size_marker_len, item_marker_len) is Some ==> k < lens.len()
            &&& r.truncated <==> stop_index(s, lens, size_marker_len, item_marker_len) is Some
            &&& r.item_count == s.item_count + k
            &&& r.byte_count == s.byte_count + sum_prefix(lens, k)
            &&& stop_index(s, lens, size_marker_len, item_marker_len) is Some ==> (r.size_stop
                <==> run_stream(s, lens.take(k), size_marker_len, item_marker_len).byte_count
                + lens[k] > SIZE_LIMIT)
        }),
    decreases lens.len(),
{
    if lens.len() > 0 {
        let init = lens.drop_last();
        lemma_stream_stops_at_first_overflow(s, init, size_marker_len, item_marker_len);
        lemma_stream_run_within_limits(s, init, size_marker_len, item_marker_len);
        let t = run_stream(s, init, size_marker_len, item_marker_len);
        lemma_stream_within_limit(t, lens.last(), size_marker_len, item_marker_len);
        match stop_index(s, init, size_marker_len, item_marker_len) {
            Some(i) => {
                assert(lens.take(i) =~= init.take(i));
                assert(lens[i] == init[i]);
                assert(sum_prefix(lens, i) == sum_prefix(init, i)) by {
                    lemma_sum_prefix_same(lens, init, i);
                }
            },
            None => {
                assert(init.take(init.len() as int) =~= init);
                assert(lens.take(init.len() as int) =~= init);
                assert(sum_prefix(lens, init.len() as int) == sum_prefix(init, init.len() as int)) by {
                    lemma_sum_prefix_same(lens, init, init.len() as int);
                }
            },
        }
    }
}

proof fn lemma_sum_prefix_same(a: Seq<u64>, b: Seq<u64>, n: int)
    requires
        0 <= n <= a.len(),
        n <= b.len(),
        forall|j: int| 0 <= j < n ==> a[j] == b[j],
    ensures
        sum_prefix(a, n) == sum_prefix(b, n),
    decreases n,
{
    if n > 0 {
        lemma_sum_prefix_same(a, b, n - 1);
    }
}

} // verus!
