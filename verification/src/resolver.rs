//! The path resolver: splits a search-path variable into an ordered list of
//! directories and picks, for a command name, the candidate path of the
//! first directory that holds a matching executable.  Whether a candidate
//! exists as an executable file is a question for the filesystem; the caller
//! answers it per directory and hands the answers in as flags.

use vstd::prelude::*;
use vstd::string::StrSliceExecFns;
use vstd::string::StringExecFns;
use crate::strutil::concat2;
use crate::strutil::concat3;

verus! {

/// Splitting state: `cur` is the segment gathered so far, `out` the segments
/// already finished, in order.
pub open spec fn split_go(s: Seq<char>, cur: Seq<char>, out: Seq<Seq<char>>) -> Seq<Seq<char>>
    decreases s.len(),
{
    if s.len() == 0 {
        out.push(cur)
    } else if s[0] == ':' {
        split_go(s.skip(1), Seq::empty(), out.push(cur))
    } else {
        split_go(s.skip(1), cur.push(s[0]), out)
    }
}

/// The directories of a search-path value: the value split on `:`, in the
/// declared order, empty segments kept; an empty value holds no directory.
pub open spec fn search_dirs(s: Seq<char>) -> Seq<Seq<char>> {
    if s.len() == 0 {
        Seq::empty()
    } else {
        split_go(s, Seq::empty(), Seq::empty())
    }
}

/// Splits a search-path value into its directories.
pub fn split_search_path(s: &str) -> (dirs: Vec<String>)
    ensures
        dirs.deep_view() == search_dirs(s@),
{
    let n = s.unicode_len();
    let mut out: Vec<String> = Vec::new();
    proof {
        assert(out.deep_view() =~= Seq::<Seq<char>>::empty());
    }
    if n == 0 {
        return out;
    }
    let mut cur = String::new();
    let mut i: usize = 0;
    proof {
        assert(s@.skip(0) =~= s@);
    }
    while i < n
        invariant
            n == s@.len(),
            i <= n,
            search_dirs(s@) == split_go(s@.skip(i as int), cur@, out.deep_view()),
        decreases n - i,
    {
        proof {
            let pre = s@.skip(i as int);
            assert(pre[0] == s@[i as int]);
            assert(pre.skip(1) =~= s@.skip(i as int + 1));
        }
        let c = s.get_char(i);
        if c == ':' {
            let ghost before = out.deep_view();
            let ghost done = cur@;
            out.push(cur);
            cur = String::new();
            proof {
                assert(out.deep_view() =~= before.push(done));
            }
        } else {
            cur.push(c);
        }
        i += 1;
    }
    let ghost before = out.deep_view();
    let ghost done = cur@;
    out.push(cur);
    proof {
        assert(s@.skip(n as int).len() == 0);
        assert(out.deep_view() =~= before.push(done));
    }
    out
}

/// A directory joined with an entry name: one `/` between them, none added
/// after an empty directory or one already ending in `/`.
pub open spec fn join_path(base: Seq<char>, rel: Seq<char>) -> Seq<char> {
    if base.len() == 0 {
        rel
    } else if base[base.len() - 1] == '/' {
        base + rel
    } else {
        base + "/"@ + rel
    }
}

/// Joins a directory and an entry name.
pub fn path_join(base: &str, rel: &str) -> (r: String)
    ensures
        r@ == join_path(base@, rel@),
{
    let n = base.unicode_len();
    if n == 0 {
        String::from_str(rel)
    } else if base.get_char(n - 1) == '/' {
        concat2(base, rel)
    } else {
        concat3(base, "/", rel)
    }
}

/// The position of the first set flag, if any.
pub open spec fn first_hit(found: Seq<bool>) -> Option<int>
    decreases found.len(),
{
    if found.len() == 0 {
        None
    } else if found[0] {
        Some(0)
    } else {
        match first_hit(found.skip(1)) {
            Some(i) => Some(i + 1),
            None => None,
        }
    }
}

/// What resolution returns: the candidate path in the first directory whose
/// flag is set, or nothing when no flag is set.
pub open spec fn resolve_spec(name: Seq<char>, dirs: Seq<Seq<char>>, found: Seq<bool>) -> Option<
    Seq<char>,
> {
    match first_hit(found) {
        Some(i) => Some(join_path(dirs[i], name)),
        None => None,
    }
}

proof fn lemma_first_hit_at(found: Seq<bool>, k: int)
    requires
        0 <= k < found.len(),
        found[k],
        forall|j: int| 0 <= j < k ==> !found[j],
    ensures
        first_hit(found) == Some(k),
    decreases k,
{
    if k > 0 {
        assert(forall|j: int| 0 <= j < k - 1 ==> found.skip(1)[j] == found[j + 1]);
        assert(found.skip(1)[k - 1] == found[k]);
        lemma_first_hit_at(found.skip(1), k - 1);
    }
}

proof fn lemma_first_hit_none(found: Seq<bool>)
    requires
        forall|j: int| 0 <= j < found.len() ==> !found[j],
    ensures
        first_hit(found) is None,
    decreases found.len(),
{
    if found.len() > 0 {
        assert(forall|j: int| 0 <= j < found.len() - 1 ==> found.skip(1)[j] == found[j + 1]);
        lemma_first_hit_none(found.skip(1));
    }
}

/// Resolution: `found[i]` answers whether directory `i` holds the command
/// as an executable file; the candidate path of the first such directory is
/// returned.  Directories are tried in the declared order, first match wins.
pub fn resolve_command(name: &str, dirs: &Vec<String>, found: &Vec<bool>) -> (r: Option<String>)
    requires
        dirs@.len() == found@.len(),
    ensures
        r.deep_view() == resolve_spec(name@, dirs.deep_view(), found@),
{
    let mut i: usize = 0;
    while i < dirs.len()
        invariant
            dirs@.len() == found@.len(),
            i <= dirs@.len(),
            forall|j: int| 0 <= j < i ==> !found@[j],
        decreases dirs@.len() - i,
    {
        if found[i] {
            let p = path_join(dirs[i].as_str(), name);
            proof {
                lemma_first_hit_at(found@, i as int);
                assert(dirs.deep_view()[i as int] == dirs@[i as int]@);
            }
            return Some(p);
        }
        i += 1;
    }
    proof {
        lemma_first_hit_none(found@);
    }
    None
}

/// First match wins: when exactly the directories at positions `i` and `j`
/// hold the command, `i` the earlier, resolution returns the candidate from
/// the directory at `i`.
pub proof fn lemma_earlier_dir_wins(
    name: Seq<char>,
    dirs: Seq<Seq<char>>,
    found: Seq<bool>,
    i: int,
    j: int,
)
    requires
        found.len() == dirs.len(),
        0 <= i < j < dirs.len(),
        forall|m: int| 0 <= m < found.len() ==> ((#[trigger] found[m]) <==> (m == i || m == j)),
    ensures
        resolve_spec(name, dirs, found) == Some(join_path(dirs[i], name)),
{
    lemma_first_hit_at(found, i);
}

} // verus!
