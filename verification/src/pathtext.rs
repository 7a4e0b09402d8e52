//! Paths as plain character strings.
//!
//! The pipeline never touches the filesystem; paths run through it as
//! strings. Both `/` and `\` count as separators, and an absolute path is
//! one that starts with a separator or with a drive letter followed by `:`
//! and a separator.

use vstd::prelude::*;

verus! {

broadcast use vstd::string::group_string_axioms;

/// A path separator.
pub open spec fn is_sep(c: char) -> bool {
    c == '/' || c == '\\'
}

/// `base` joined with the relative path `rel`, inserting `/` unless `base`
/// is empty or already ends in a separator.
pub open spec fn join_path(base: Seq<char>, rel: Seq<char>) -> Seq<char> {
    if base.len() == 0 {
        rel
    } else if is_sep(base[base.len() - 1]) {
        base + rel
    } else {
        base + seq!['/'] + rel
    }
}

/// Whether the path stands on its own rather than relative to a directory.
pub open spec fn is_absolute(p: Seq<char>) -> bool {
    ||| (p.len() > 0 && is_sep(p[0]))
    ||| (p.len() >= 3 && p[1] == ':' && is_sep(p[2]))
}

/// `p` itself when absolute, else `p` resolved against `cwd`.
pub open spec fn resolve_against(cwd: Seq<char>, p: Seq<char>) -> Seq<char> {
    if is_absolute(p) {
        p
    } else {
        join_path(cwd, p)
    }
}

/// Index of the last separator in `p`, if any.
pub open spec fn last_sep(p: Seq<char>) -> Option<int>
    decreases p.len(),
{
    if p.len() == 0 {
        None
    } else if is_sep(p[p.len() - 1]) {
        Some(p.len() - 1)
    } else {
        last_sep(p.drop_last())
    }
}

/// Index of the last `.` in `p`, if any.
pub open spec fn last_dot(p: Seq<char>) -> Option<int>
    decreases p.len(),
{
    if p.len() == 0 {
        None
    } else if p[p.len() - 1] == '.' {
        Some(p.len() - 1)
    } else {
        last_dot(p.drop_last())
    }
}

/// The component after the last separator: the whole path when it has none.
pub open spec fn file_name_of(p: Seq<char>) -> Seq<char> {
    match last_sep(p) {
        None => p,
        Some(i) => p.subrange(i + 1, p.len() as int),
    }
}

/// The file name without its extension: everything before the last `.`,
/// unless that dot starts the name.
pub open spec fn stem_of(p: Seq<char>) -> Seq<char> {
    let f = file_name_of(p);
    match last_dot(f) {
        None => f,
        Some(d) => if d > 0 {
            f.subrange(0, d)
        } else {
            f
        },
    }
}

/// The path without its last component; `None` for the empty path.
pub open spec fn parent_of(p: Seq<char>) -> Option<Seq<char>> {
    match last_sep(p) {
        None => if p.len() == 0 {
            None
        } else {
            Some(Seq::empty())
        },
        Some(i) => Some(p.subrange(0, i)),
    }
}

/// Decides `is_sep`.
pub fn is_sep_exec(c: char) -> (r: bool)
    ensures
        r == is_sep(c),
{
    c == '/' || c == '\\'
}

/// Join `base` and `rel` as `join_path` says.
pub fn join_chars(base: &Vec<char>, rel: &Vec<char>) -> (r: Vec<char>)
    ensures
        r@ == join_path(base@, rel@),
{
    let mut r: Vec<char> = Vec::new();
    r.extend_from_slice(base.as_slice());
    proof {
        assert(r@ =~= base@);
    }
    if base.len() > 0 && !is_sep_exec(base[base.len() - 1]) {
        r.push('/');
        proof {
            assert(r@ =~= base@ + seq!['/']);
        }
    }
    r.extend_from_slice(rel.as_slice());
    proof {
        if base@.len() == 0 {
            assert(r@ =~= rel@);
        } else if is_sep(base@[base@.len() - 1]) {
            assert(r@ =~= base@ + rel@);
        } else {
            assert(r@ =~= base@ + seq!['/'] + rel@);
        }
    }
    r
}

/// Decides `is_absolute`.
pub fn is_absolute_chars(p: &Vec<char>) -> (r: bool)
    ensures
        r == is_absolute(p@),
{
    if p.len() > 0 && is_sep_exec(p[0]) {
        true
    } else {
        p.len() >= 3 && p[1] == ':' && is_sep_exec(p[2])
    }
}

/// `p` itself when absolute, else `p` resolved against `cwd`.
pub fn resolve_chars(cwd: &Vec<char>, p: &Vec<char>) -> (r: Vec<char>)
    ensures
        r@ == resolve_against(cwd@, p@),
{
    if is_absolute_chars(p) {
        crate::text::subvec(p, 0, p.len())
    } else {
        proof {
            assert(p@.subrange(0, p@.len() as int) =~= p@);
        }
        join_chars(cwd, p)
    }
}

/// Index of the last separator in `p`, if any.
pub fn last_sep_exec(p: &Vec<char>) -> (r: Option<usize>)
    ensures
        match r {
            Some(i) => i < p@.len() && last_sep(p@) == Some(i as int),
            None => last_sep(p@) is None,
        },
{
    let mut i: usize = p.len();
    proof {
        assert(p@.subrange(0, i as int) =~= p@);
    }
    while i > 0
        invariant
            i <= p@.len(),
            last_sep(p@) == last_sep(p@.subrange(0, i as int)),
        decreases i,
    {
        if is_sep_exec(p[i - 1]) {
            proof {
                assert(p@.subrange(0, i as int)[i - 1] == p@[i - 1]);
            }
            return Some(i - 1);
        }
        proof {
            assert(p@.subrange(0, i as int).drop_last() =~= p@.subrange(0, i - 1));
        }
        i = i - 1;
    }
    proof {
        assert(p@.subrange(0, 0) =~= Seq::<char>::empty());
    }
    None
}

/// Index of the last `.` in `p`, if any.
pub fn last_dot_exec(p: &Vec<char>) -> (r: Option<usize>)
    ensures
        match r {
            Some(i) => i < p@.len() && last_dot(p@) == Some(i as int),
            None => last_dot(p@) is None,
        },
{
    let mut i: usize = p.len();
    proof {
        assert(p@.subrange(0, i as int) =~= p@);
    }
    while i > 0
        invariant
            i <= p@.len(),
            last_dot(p@) == last_dot(p@.subrange(0, i as int)),
        decreases i,
    {
        if p[i - 1] == '.' {
            proof {
                assert(p@.subrange(0, i as int)[i - 1] == p@[i - 1]);
            }
            return Some(i - 1);
        }
        proof {
            assert(p@.subrange(0, i as int).drop_last() =~= p@.subrange(0, i - 1));
        }
        i = i - 1;
    }
    proof {
        assert(p@.subrange(0, 0) =~= Seq::<char>::empty());
    }
    None
}

/// The component after the last separator.
pub fn file_name_chars(p: &Vec<char>) -> (r: Vec<char>)
    ensures
        r@ == file_name_of(p@),
{
    let n = p.len();
    match last_sep_exec(p) {
        None => crate::text::subvec(p, 0, n),
        Some(i) => crate::text::subvec(p, i + 1, n),
    }
}

/// The file name without its extension.
pub fn stem_chars(p: &Vec<char>) -> (r: Vec<char>)
    ensures
        r@ == stem_of(p@),
{
    let f = file_name_chars(p);
    match last_dot_exec(&f) {
        None => f,
        Some(d) => {
            if d > 0 {
                crate::text::subvec(&f, 0, d)
            } else {
                f
            }
        },
    }
}

/// The path without its last component; `None` for the empty path.
pub fn parent_chars(p: &Vec<char>) -> (r: Option<Vec<char>>)
    ensures
        match r {
            Some(q) => parent_of(p@) == Some(q@),
            None => parent_of(p@) is None,
        },
{
    match last_sep_exec(p) {
        None => {
            if p.len() == 0 {
                None
            } else {
                let q: Vec<char> = Vec::new();
                Some(q)
            }
        },
        Some(i) => Some(crate::text::subvec(p, 0, i)),
    }
}

/// The parent directory of a path string; `None` for the empty path.
pub fn parent_dir(p: &str) -> (r: Option<String>)
    ensures
        match r {
            Some(q) => parent_of(p@) == Some(q@),
            None => parent_of(p@) is None,
        },
{
    let cs = crate::text::str_to_chars(p);
    match parent_chars(&cs) {
        Some(q) => Some(crate::text::chars_to_string(&q)),
        None => None,
    }
}

} // verus!
