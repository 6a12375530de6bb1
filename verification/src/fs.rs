//! Where the pseudo-filesystems live: paths under `/proc`, `/sys`, `/dev`,
//! `/etc` and `/run` are redirected to configurable roots, so that a
//! collector can run against a directory of fixtures.
use vstd::prelude::*;

use crate::text::{chars_of, starts_with, string_of, sub_chars};

verus! {

/// The five roots that absolute paths are mapped onto.
pub struct FsRoots {
    pub proc: String,
    pub sys: String,
    pub dev: String,
    pub etc: String,
    pub run: String,
}

impl View for FsRoots {
    type V = (Seq<char>, Seq<char>, Seq<char>, Seq<char>, Seq<char>);

    open spec fn view(&self) -> Self::V {
        (self.proc@, self.sys@, self.dev@, self.etc@, self.run@)
    }
}

impl Clone for FsRoots {
    fn clone(&self) -> (r: Self)
        ensures
            r@ == self@,
    {
        FsRoots {
            proc: self.proc.clone(),
            sys: self.sys.clone(),
            dev: self.dev.clone(),
            etc: self.etc.clone(),
            run: self.run.clone(),
        }
    }
}

pub open spec fn slash_proc() -> Seq<char> {
    seq!['/', 'p', 'r', 'o', 'c']
}

pub open spec fn slash_sys() -> Seq<char> {
    seq!['/', 's', 'y', 's']
}

pub open spec fn slash_dev() -> Seq<char> {
    seq!['/', 'd', 'e', 'v']
}

pub open spec fn slash_etc() -> Seq<char> {
    seq!['/', 'e', 't', 'c']
}

pub open spec fn slash_run() -> Seq<char> {
    seq!['/', 'r', 'u', 'n']
}

impl Default for FsRoots {
    /// The real system: `/proc`, `/sys`, `/dev`, `/etc` and `/run`.
    fn default() -> (r: Self)
        ensures
            r.proc@ == slash_proc(),
            r.sys@ == slash_sys(),
            r.dev@ == slash_dev(),
            r.etc@ == slash_etc(),
            r.run@ == slash_run(),
    {
        let p: [char; 5] = ['/', 'p', 'r', 'o', 'c'];
        let s: [char; 4] = ['/', 's', 'y', 's'];
        let d: [char; 4] = ['/', 'd', 'e', 'v'];
        let e: [char; 4] = ['/', 'e', 't', 'c'];
        let r: [char; 4] = ['/', 'r', 'u', 'n'];
        assert(p@ =~= slash_proc());
        assert(s@ =~= slash_sys());
        assert(d@ =~= slash_dev());
        assert(e@ =~= slash_etc());
        assert(r@ =~= slash_run());
        FsRoots {
            proc: string_of(p.as_slice()),
            sys: string_of(s.as_slice()),
            dev: string_of(d.as_slice()),
            etc: string_of(e.as_slice()),
            run: string_of(r.as_slice()),
        }
    }
}

/// What follows `pre` in `path`, when `path` begins with it.
pub open spec fn strip_prefix(path: Seq<char>, pre: Seq<char>) -> Option<Seq<char>> {
    if pre.len() <= path.len() && path.take(pre.len() as int) == pre {
        Some(path.skip(pre.len() as int))
    } else {
        None
    }
}

/// `s` without its leading slashes.
pub open spec fn trim_leading_slashes(s: Seq<char>) -> Seq<char>
    decreases s.len(),
{
    if s.len() > 0 && s[0] == '/' {
        trim_leading_slashes(s.drop_first())
    } else {
        s
    }
}

/// `base` joined with a relative `rest`, as `PathBuf::join` does: a
/// separator goes between them unless `base` is empty or already ends in one.
pub open spec fn join_path(base: Seq<char>, rest: Seq<char>) -> Seq<char> {
    if base.len() > 0 && base.last() != '/' {
        base + seq!['/'] + rest
    } else {
        base + rest
    }
}

/// Where an absolute path is read from: its part after the first matching
/// of `/proc`, `/sys`, `/dev`, `/etc` and `/run`, without leading slashes,
/// under the corresponding root; any other path unchanged.
pub open spec fn resolve_spec(
    roots: (Seq<char>, Seq<char>, Seq<char>, Seq<char>, Seq<char>),
    path: Seq<char>,
) -> Seq<char> {
    if let Some(rest) = strip_prefix(path, slash_proc()) {
        join_path(roots.0, trim_leading_slashes(rest))
    } else if let Some(rest) = strip_prefix(path, slash_sys()) {
        join_path(roots.1, trim_leading_slashes(rest))
    } else if let Some(rest) = strip_prefix(path, slash_dev()) {
        join_path(roots.2, trim_leading_slashes(rest))
    } else if let Some(rest) = strip_prefix(path, slash_etc()) {
        join_path(roots.3, trim_leading_slashes(rest))
    } else if let Some(rest) = strip_prefix(path, slash_run()) {
        join_path(roots.4, trim_leading_slashes(rest))
    } else {
        path
    }
}

/// Calls `Path::exists` on `p`. Nothing is claimed of the result: what is on
/// disk decides it.
#[verifier::external_body]
pub(crate) fn path_exists(p: &String) -> bool {
    std::path::Path::new(p.as_str()).exists()
}

proof fn lemma_trim_slashes_skip(s: Seq<char>, i: int)
    requires
        0 <= i <= s.len(),
        forall|j: int| 0 <= j < i ==> #[trigger] s[j] == '/',
    ensures
        trim_leading_slashes(s) == trim_leading_slashes(s.skip(i)),
    decreases i,
{
    if i > 0 {
        assert(s.drop_first().skip(i - 1) =~= s.skip(i));
        lemma_trim_slashes_skip(s.drop_first(), i - 1);
    } else {
        assert(s.skip(0) =~= s);
    }
}

/// `base` joined with the part of `path` after `skip` characters, its
/// leading slashes removed.
fn join_rest(base: &String, path: &[char], skip: usize) -> (r: String)
    requires
        skip <= path@.len(),
    ensures
        r@ == join_path(base@, trim_leading_slashes(path@.skip(skip as int))),
{
    let mut i = skip;
    while i < path.len() && path[i] == '/'
        invariant
            skip <= i <= path@.len(),
            forall|j: int| skip <= j < i ==> path@[j] == '/',
        decreases path.len() - i,
    {
        i = i + 1;
    }
    proof {
        let t = path@.skip(skip as int);
        assert forall|j: int| 0 <= j < i - skip implies #[trigger] t[j] == '/' by {
            assert(t[j] == path@[j + skip]);
        }
        lemma_trim_slashes_skip(t, i - skip);
        assert(t.skip(i - skip) =~= path@.skip(i as int));
        let u = path@.skip(i as int);
        if u.len() > 0 {
            assert(u[0] == path@[i as int]);
        }
    }
    let mut out = chars_of(base.as_str());
    if out.len() > 0 && out[out.len() - 1] != '/' {
        out.push('/');
    }
    let ghost before = out@;
    let rest = sub_chars(path, i, path.len());
    crate::text::extend_chars(&mut out, rest.as_slice());
    assert(rest@ =~= path@.skip(i as int));
    string_of(out.as_slice())
}

impl FsRoots {
    /// The place that an absolute path is read from under these roots.
    pub fn resolve(&self, path: &str) -> (r: String)
        ensures
            r@ == resolve_spec(self@, path@),
    {
        let p = chars_of(path);
        let proc_p: [char; 5] = ['/', 'p', 'r', 'o', 'c'];
        let sys_p: [char; 4] = ['/', 's', 'y', 's'];
        let dev_p: [char; 4] = ['/', 'd', 'e', 'v'];
        let etc_p: [char; 4] = ['/', 'e', 't', 'c'];
        let run_p: [char; 4] = ['/', 'r', 'u', 'n'];
        assert(proc_p@ =~= slash_proc());
        assert(sys_p@ =~= slash_sys());
        assert(dev_p@ =~= slash_dev());
        assert(etc_p@ =~= slash_etc());
        assert(run_p@ =~= slash_run());
        if starts_with(p.as_slice(), proc_p.as_slice()) {
            join_rest(&self.proc, p.as_slice(), 5)
        } else if starts_with(p.as_slice(), sys_p.as_slice()) {
            join_rest(&self.sys, p.as_slice(), 4)
        } else if starts_with(p.as_slice(), dev_p.as_slice()) {
            join_rest(&self.dev, p.as_slice(), 4)
        } else if starts_with(p.as_slice(), etc_p.as_slice()) {
            join_rest(&self.etc, p.as_slice(), 4)
        } else if starts_with(p.as_slice(), run_p.as_slice()) {
            join_rest(&self.run, p.as_slice(), 4)
        } else {
            string_of(p.as_slice())
        }
    }

    /// Whether the resolved path exists. What is on disk decides; the path
    /// checked is `self.resolve(path)`.
    pub fn exists_at(&self, path: &str) -> bool {
        let resolved = self.resolve(path);
        path_exists(&resolved)
    }
}

} // verus!
