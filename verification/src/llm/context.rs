//! System context snapshot used to construct prompts.
//!
//! Reading the environment happens outside the library; the library turns
//! the raw values into a [`SystemContextSnapshot`].

use vstd::prelude::*;
use crate::text::{chars_of, find_char, lemma_find_char, string_of_range, string_views};

verus! {

/// Maximum number of PATH directories included in the snapshot.
pub const MAX_PATH_DIRS: usize = 10;

/// A point-in-time snapshot of OS and shell context.
#[derive(Debug, Clone, PartialEq)]
pub struct SystemContextSnapshot {
    /// OS family, e.g. `"linux"`.
    pub os_family: String,
    /// CPU architecture, e.g. `"x86_64"`.
    pub arch: String,
    /// Current working directory at snapshot time.
    pub cwd: String,
    /// At most `MAX_PATH_DIRS` entries of `PATH`.
    pub path_dirs: Vec<String>,
}

/// Produces snapshots from raw OS values.
#[derive(Debug, Default)]
pub struct SystemContextProvider;

/// The non-empty `':'`-separated segments of `s`, in order.
pub open spec fn path_entries(s: Seq<char>) -> Seq<Seq<char>>
    decreases s.len(),
{
    match find_char(s, ':') {
        None => if s.len() > 0 {
            seq![s]
        } else {
            seq![]
        },
        Some(k) => if 0 <= k < s.len() {
            (if k > 0 {
                seq![s.take(k)]
            } else {
                seq![]
            }) + path_entries(s.skip(k + 1))
        } else {
            seq![]
        },
    }
}

/// At most `MAX_PATH_DIRS` non-empty entries of a colon-separated PATH.
pub open spec fn spec_split_path(s: Seq<char>) -> Seq<Seq<char>> {
    let e = path_entries(s);
    if e.len() > MAX_PATH_DIRS {
        e.take(MAX_PATH_DIRS as int)
    } else {
        e
    }
}

/// Splits a colon-separated PATH into at most `MAX_PATH_DIRS` non-empty entries.
pub fn split_path_str(path_str: &str) -> (v: Vec<String>)
    ensures
        string_views(v@) == spec_split_path(path_str@),
{
    let c = chars_of(path_str);
    let n = c.len();
    let mut out: Vec<String> = Vec::new();
    let mut pos: usize = 0;
    assert(c@.subrange(0, n as int) =~= c@);
    while pos < n && out.len() < MAX_PATH_DIRS
        invariant
            pos <= n == c@.len(),
            c@ == path_str@,
            out@.len() <= MAX_PATH_DIRS,
            string_views(out@) + path_entries(c@.subrange(pos as int, n as int)) == path_entries(
                c@,
            ),
        decreases n - pos,
    {
        let ghost s = c@.subrange(pos as int, n as int);
        let mut k = pos;
        while k < n && c[k] != ':'
            invariant
                pos <= k <= n == c@.len(),
                s == c@.subrange(pos as int, n as int),
                forall|j: int| 0 <= j < k - pos ==> s[j] != ':',
            decreases n - k,
        {
            k += 1;
        }
        proof {
            lemma_find_char(s, ':', k - pos);
        }
        let ghost before = string_views(out@);
        if k > pos {
            out.push(string_of_range(&c, pos, k));
            assert(string_views(out@) =~= before.push(c@.subrange(pos as int, k as int)));
        }
        if k == n {
            if k > pos {
                assert(s =~= c@.subrange(pos as int, k as int));
            }
            assert(path_entries(c@.subrange(n as int, n as int)) =~= seq![]) by {
                assert(c@.subrange(n as int, n as int) =~= seq![]);
            }
            assert(string_views(out@) + path_entries(c@.subrange(n as int, n as int)) =~= before
                + path_entries(s));
            pos = n;
        } else {
            assert(s.take(k - pos) =~= c@.subrange(pos as int, k as int));
            assert(s.skip(k - pos + 1) =~= c@.subrange(k + 1, n as int));
            assert(string_views(out@) + path_entries(c@.subrange(k + 1, n as int)) =~= before
                + path_entries(s));
            pos = k + 1;
        }
    }
    let ghost rest = path_entries(c@.subrange(pos as int, n as int));
    if out.len() < MAX_PATH_DIRS {
        assert(pos == n);
        assert(c@.subrange(n as int, n as int) =~= seq![]);
        assert(string_views(out@) =~= path_entries(c@));
    } else {
        assert(path_entries(c@).take(MAX_PATH_DIRS as int) =~= string_views(out@));
    }
    out
}

impl SystemContextProvider {
    /// Creates a provider.
    pub fn new() -> Self {
        SystemContextProvider
    }

    /// Builds a snapshot from the raw OS family, architecture, working
    /// directory and `PATH` value.
    pub fn snapshot_from(&self, os_family: &str, arch: &str, cwd: &str, path_var: &str) -> (s:
        SystemContextSnapshot)
        ensures
            s.os_family@ == os_family@,
            s.arch@ == arch@,
            s.cwd@ == cwd@,
            string_views(s.path_dirs@) == spec_split_path(path_var@),
    {
        SystemContextSnapshot {
            os_family: crate::text::owned(os_family),
            arch: crate::text::owned(arch),
            cwd: crate::text::owned(cwd),
            path_dirs: split_path_str(path_var),
        }
    }
}

} // verus!
