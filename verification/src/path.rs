//! A small model of `/`-separated paths held as strings.
//!
//! A path is its sequence of characters. The functions below cut a path at its
//! last separator, find its extension, join two paths and express one path
//! relative to another. Every result that is part of an input is handed back
//! as a slice of that input.

use vstd::prelude::*;
use vstd::string::*;
use crate::text::{
    chars_of, last_index_of, lemma_last_index_of, lemma_last_index_of_unique, matches_at,
    occurs_at, rfind,
};

verus! {

/// The part of `path` after its last `/`; the whole path where it has none.
pub open spec fn file_name_of(path: Seq<char>) -> Seq<char> {
    path.subrange(last_index_of(path, '/') + 1, path.len() as int)
}

/// The part of the file name after its last `.`, unless the file name has no
/// `.` or only a leading one.
pub open spec fn extension_of(path: Seq<char>) -> Option<Seq<char>> {
    let name = file_name_of(path);
    let dot = last_index_of(name, '.');
    if dot <= 0 {
        None
    } else {
        Some(name.subrange(dot + 1, name.len() as int))
    }
}

/// The directory that holds the last component of `path`: what precedes the
/// last `/`. A path without `/` has the empty parent, and a path whose only
/// `/` is the leading one has the parent `/`.
pub open spec fn parent_of(path: Seq<char>) -> Seq<char> {
    let slash = last_index_of(path, '/');
    if slash < 0 {
        Seq::empty()
    } else if slash == 0 {
        path.subrange(0, 1)
    } else {
        path.subrange(0, slash)
    }
}

/// `rel` appended to `base` with exactly one separator between them where
/// `base` needs one. An absolute `rel` replaces `base`.
pub open spec fn join_of(base: Seq<char>, rel: Seq<char>) -> Seq<char> {
    if rel.len() > 0 && rel[0] == '/' {
        rel
    } else if base.len() == 0 || base.last() == '/' {
        base + rel
    } else {
        base + seq!['/'] + rel
    }
}

/// `s` without its trailing `/` characters.
pub open spec fn trim_slashes(s: Seq<char>) -> Seq<char>
    decreases s.len(),
{
    if s.len() > 0 && s.last() == '/' {
        trim_slashes(s.drop_last())
    } else {
        s
    }
}

/// `path` expressed relative to `base`, where `path` lies at or under `base`.
///
/// Trailing separators of `base` do not count. An empty `base` leaves `path`
/// as it is. Otherwise `path` must be `base` itself or continue with a `/`
/// right after it; what follows that `/` is the result.
pub open spec fn relative_to(path: Seq<char>, base: Seq<char>) -> Option<Seq<char>> {
    let b = trim_slashes(base);
    if base.len() == 0 {
        Some(path)
    } else if b.len() > 0 && path == b {
        Some(Seq::empty())
    } else if occurs_at(path, 0, b) && path.len() > b.len() && path[b.len() as int] == '/' {
        Some(path.subrange(b.len() as int + 1, path.len() as int))
    } else {
        None
    }
}

/// Whether `path` is `base` or lies under it.
pub open spec fn is_under(path: Seq<char>, base: Seq<char>) -> bool {
    relative_to(path, base) is Some
}

/// `trim_slashes` yields a prefix that does not end in `/`.
pub proof fn lemma_trim_slashes(s: Seq<char>)
    ensures
        trim_slashes(s).len() <= s.len(),
        trim_slashes(s) == s.subrange(0, trim_slashes(s).len() as int),
        trim_slashes(s).len() > 0 ==> trim_slashes(s).last() != '/',
        forall|j: int| trim_slashes(s).len() <= j < s.len() ==> s[j] == '/',
    decreases s.len(),
{
    if s.len() > 0 && s.last() == '/' {
        let t = s.drop_last();
        lemma_trim_slashes(t);
        let n = trim_slashes(t).len() as int;
        assert(t.subrange(0, n) =~= s.subrange(0, n));
        assert forall|j: int| n <= j < s.len() implies s[j] == '/' by {
            if j < t.len() {
                assert(t[j] == s[j]);
            }
        }
    } else {
        assert(s.subrange(0, s.len() as int) =~= s);
    }
}

/// A path keeps its file name when it is expressed relative to a base, unless
/// it is the base itself, which leaves nothing.
pub proof fn lemma_relative_keeps_file_name(path: Seq<char>, base: Seq<char>)
    requires
        relative_to(path, base) is Some,
    ensures
        relative_to(path, base)->0.len() == 0 || file_name_of(relative_to(path, base)->0)
            == file_name_of(path),
{
    let rel = relative_to(path, base)->0;
    let b = trim_slashes(base);
    if base.len() > 0 && rel.len() > 0 {
        let cut = b.len() as int + 1;
        let k = last_index_of(rel, '/');
        lemma_last_index_of(rel, '/');
        assert forall|j: int| cut + k < j < path.len() implies path[j] != '/' by {
            assert(path[j] == rel[j - cut]);
        }
        if k >= 0 {
            assert(path[cut + k] == rel[k]);
            lemma_last_index_of_unique(path, '/', cut + k);
        } else {
            lemma_last_index_of_unique(path, '/', cut - 1);
        }
        assert(file_name_of(rel) =~= file_name_of(path));
    }
}

/// A path below a base is the base, a `/` and the relative path again,
/// where the base is not empty and does not end in `/`.
pub proof fn lemma_relative_then_rejoined(path: Seq<char>, base: Seq<char>)
    requires
        base.len() > 0,
        base.last() != '/',
        path != base,
        relative_to(path, base) is Some,
    ensures
        base + seq!['/'] + relative_to(path, base)->0 == path,
{
    let rel = relative_to(path, base)->0;
    assert((base + seq!['/'] + rel).len() == path.len());
    assert(base + seq!['/'] + rel =~= path) by {
        assert forall|j: int| 0 <= j < path.len() implies (base + seq!['/'] + rel)[j]
            == path[j] by {
            if j < base.len() {
                assert(path.subrange(0, base.len() as int)[j] == path[j]);
            }
        }
    }
}

/// The file name of `path`.
pub fn file_name(path: &str) -> (name: &str)
    ensures
        name@ == file_name_of(path@),
{
    let v = chars_of(path);
    let start: usize = match rfind(&v, '/') {
        Some(i) => i + 1,
        None => 0,
    };
    path.substring_char(start, v.len())
}

/// The extension of `path`, if it has one.
pub fn extension(path: &str) -> (ext: Option<&str>)
    ensures
        match ext {
            Some(e) => extension_of(path@) == Some(e@),
            None => extension_of(path@) is None,
        },
{
    let name = file_name(path);
    let v = chars_of(name);
    match rfind(&v, '.') {
        Some(dot) => {
            if dot == 0 {
                None
            } else {
                Some(name.substring_char(dot + 1, v.len()))
            }
        },
        None => None,
    }
}

/// The parent directory of `path`.
pub fn parent(path: &str) -> (dir: &str)
    ensures
        dir@ == parent_of(path@),
{
    let v = chars_of(path);
    match rfind(&v, '/') {
        Some(slash) => {
            if slash == 0 {
                path.substring_char(0, 1)
            } else {
                path.substring_char(0, slash)
            }
        },
        None => {
            let dir = path.substring_char(0, 0);
            assert(dir@ =~= Seq::<char>::empty());
            dir
        },
    }
}

/// Joins `rel` onto `base`.
pub fn join(base: &str, rel: &str) -> (joined: String)
    ensures
        joined@ == join_of(base@, rel@),
{
    let vb = chars_of(base);
    let vr = chars_of(rel);
    if vr.len() > 0 && vr[0] == '/' {
        return rel.to_owned();
    }
    let mut joined = base.to_owned();
    if vb.len() > 0 && vb[vb.len() - 1] != '/' {
        joined.append("/");
        proof {
            reveal_strlit("/");
            assert("/"@ =~= seq!['/']);
        }
    }
    joined.append(rel);
    joined
}

/// Number of characters of `v` that remain once trailing `/` are dropped.
fn trimmed_len(v: &Vec<char>) -> (n: usize)
    ensures
        n <= v.len(),
        n as nat == trim_slashes(v@).len(),
{
    let mut n: usize = v.len();
    proof {
        assert(v@.subrange(0, v@.len() as int) =~= v@);
    }
    while n > 0 && v[n - 1] == '/'
        invariant
            n <= v.len(),
            trim_slashes(v@) == trim_slashes(v@.subrange(0, n as int)),
        decreases n,
    {
        proof {
            let s = v@.subrange(0, n as int);
            assert(s.drop_last() =~= v@.subrange(0, n - 1));
        }
        n = n - 1;
    }
    n
}

/// `path` relative to `base`, or `None` where `path` does not lie at or under
/// `base`.
pub fn strip_prefix<'a>(path: &'a str, base: &str) -> (rel: Option<&'a str>)
    ensures
        match rel {
            Some(r) => relative_to(path@, base@) == Some(r@),
            None => relative_to(path@, base@) is None,
        },
{
    let vp = chars_of(path);
    let mut vb = chars_of(base);
    if vb.len() == 0 {
        return Some(path);
    }
    let n = trimmed_len(&vb);
    proof {
        lemma_trim_slashes(vb@);
    }
    vb.truncate(n);
    assert(vb@ == trim_slashes(base@));
    if !matches_at(&vp, 0, &vb) {
        assert(vp@ != vb@) by {
            assert(vp@.subrange(0, vp@.len() as int) =~= vp@);
        }
        return None;
    }
    if vp.len() == n {
        if n == 0 {
            return None;
        }
        assert(vp@.subrange(0, n as int) =~= vp@);
        let none = path.substring_char(0, 0);
        assert(none@ =~= Seq::<char>::empty());
        return Some(none);
    }
    if vp[n] != '/' {
        return None;
    }
    Some(path.substring_char(n + 1, vp.len()))
}

/// Whether `path` is `base` or lies under it.
pub fn starts_with(path: &str, base: &str) -> (r: bool)
    ensures
        r == is_under(path@, base@),
{
    strip_prefix(path, base).is_some()
}

} // verus!
