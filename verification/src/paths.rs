//! File-name handling for `/`-separated relative paths, following the rules
//! of `std::path::Path::file_name` and `Path::extension`.
use vstd::prelude::*;
use crate::text::{
    ascii_lower, chars_of, last_keep_end, lemma_last_keep_end_bounds, string_of_range,
    to_ascii_lower,
};

verus! {

/// `p` with trailing `/` separators and trailing `.` components removed; a
/// lone `.` becomes empty.
pub open spec fn strip_trailing(p: Seq<char>) -> Seq<char>
    decreases p.len(),
{
    if p.len() > 0 && p.last() == '/' {
        strip_trailing(p.drop_last())
    } else if p.len() >= 2 && p.last() == '.' && p[p.len() - 2] == '/' {
        strip_trailing(p.drop_last())
    } else if p.len() == 1 && p[0] == '.' {
        Seq::empty()
    } else {
        p
    }
}

pub open spec fn slash_at(q: Seq<char>) -> spec_fn(int) -> bool {
    |k: int| q[k] == '/'
}

pub open spec fn dot_at(q: Seq<char>) -> spec_fn(int) -> bool {
    |k: int| q[k] == '.'
}

/// The last component of a path, unless it is empty or `..`.
pub open spec fn file_name(p: Seq<char>) -> Option<Seq<char>> {
    let q = strip_trailing(p);
    let seg = q.subrange(last_keep_end(0, q.len() as int, slash_at(q)), q.len() as int);
    if seg.len() == 0 || seg == seq!['.', '.'] {
        None
    } else {
        Some(seg)
    }
}

/// The text after the last `.` of the file name, when that `.` is not its first character.
pub open spec fn extension(p: Seq<char>) -> Option<Seq<char>> {
    match file_name(p) {
        None => None,
        Some(f) => {
            let d = last_keep_end(0, f.len() as int, dot_at(f));
            if d <= 1 {
                None
            } else {
                Some(f.subrange(d, f.len() as int))
            }
        },
    }
}

/// The extension of the path is `lua`, in any ASCII casing.
pub open spec fn is_lua_path(p: Seq<char>) -> bool {
    extension(p) matches Some(e) && e.len() == 3 && ascii_lower(e[0]) == 'l' && ascii_lower(e[1])
        == 'u' && ascii_lower(e[2]) == 'a'
}

/// Bounds of the file name inside the characters of a path.
fn file_name_bounds(cs: &Vec<char>) -> (r: Option<(usize, usize)>)
    ensures
        r is Some <==> file_name(cs@) is Some,
        r matches Some((a, b)) ==> a <= b <= cs.len() && file_name(cs@) == Some(
            cs@.subrange(a as int, b as int),
        ),
{
    let mut end = cs.len();
    assert(cs@.subrange(0, end as int) =~= cs@);
    loop
        invariant
            end <= cs.len(),
            strip_trailing(cs@) == strip_trailing(cs@.subrange(0, end as int)),
        ensures
            end <= cs.len(),
            strip_trailing(cs@) == cs@.subrange(0, end as int),
        decreases end,
    {
        let ghost p = cs@.subrange(0, end as int);
        if end > 0 && cs[end - 1] == '/' {
            assert(p.drop_last() =~= cs@.subrange(0, end - 1));
            end = end - 1;
        } else if end >= 2 && cs[end - 1] == '.' && cs[end - 2] == '/' {
            assert(p.drop_last() =~= cs@.subrange(0, end - 1));
            end = end - 1;
        } else if end == 1 && cs[0] == '.' {
            assert(strip_trailing(p) == Seq::<char>::empty());
            assert(cs@.subrange(0, 0) =~= Seq::<char>::empty());
            end = 0;
            break;
        } else {
            break;
        }
    }
    let ghost q = cs@.subrange(0, end as int);
    let mut start = end;
    while start > 0 && cs[start - 1] != '/'
        invariant
            start <= end <= cs.len(),
            q == cs@.subrange(0, end as int),
            last_keep_end(0, q.len() as int, slash_at(q)) == last_keep_end(
                0,
                start as int,
                slash_at(q),
            ),
        decreases start,
    {
        assert(!slash_at(q)(start - 1));
        start = start - 1;
    }
    proof {
        lemma_last_keep_end_bounds(0, start as int, slash_at(q));
        assert(q.subrange(start as int, q.len() as int) =~= cs@.subrange(start as int, end as int));
    }
    if end - start == 0 || (end - start == 2 && cs[start] == '.' && cs[start + 1] == '.') {
        proof {
            let seg = cs@.subrange(start as int, end as int);
            if end - start == 2 {
                assert(seg =~= seq!['.', '.']);
            }
        }
        None
    } else {
        proof {
            let seg = cs@.subrange(start as int, end as int);
            if seg.len() == 2 {
                assert(seg != seq!['.', '.']) by {
                    if seg == seq!['.', '.'] {
                        assert(seg[0] == cs@[start as int]);
                        assert(seg[1] == cs@[start + 1]);
                    }
                }
            }
        }
        Some((start, end))
    }
}

/// The extension of a path (see [`extension`]).
pub fn path_extension(path: &str) -> (r: Option<String>)
    ensures
        r is Some <==> extension(path@) is Some,
        r matches Some(e) ==> extension(path@) == Some(e@),
{
    let cs = chars_of(path);
    match file_name_bounds(&cs) {
        None => None,
        Some((a, b)) => {
            let ghost f = cs@.subrange(a as int, b as int);
            let mut d = b;
            while d > a && cs[d - 1] != '.'
                invariant
                    a <= d <= b <= cs.len(),
                    f == cs@.subrange(a as int, b as int),
                    last_keep_end(0, f.len() as int, dot_at(f)) == last_keep_end(
                        0,
                        d - a,
                        dot_at(f),
                    ),
                decreases d,
            {
                assert(f[d - a - 1] == cs@[d - 1]);
                assert(!dot_at(f)(d - a - 1));
                d = d - 1;
            }
            proof {
                if d > a {
                    assert(f[d - a - 1] == cs@[d - 1]);
                    assert(dot_at(f)(d - a - 1));
                }
                assert(last_keep_end(0, d - a, dot_at(f)) == d - a);
            }
            if d - a <= 1 {
                None
            } else {
                proof {
                    assert(f.subrange(d - a, f.len() as int) =~= cs@.subrange(d as int, b as int));
                }
                Some(string_of_range(&cs, d, b))
            }
        },
    }
}

/// The path names a `.lua` file (extension compared without regard to ASCII case).
pub fn has_lua_extension(path: &str) -> (r: bool)
    ensures
        r == is_lua_path(path@),
{
    match path_extension(path) {
        None => false,
        Some(e) => {
            let ec = chars_of(e.as_str());
            ec.len() == 3 && to_ascii_lower(ec[0]) == 'l' && to_ascii_lower(ec[1]) == 'u'
                && to_ascii_lower(ec[2]) == 'a'
        },
    }
}

} // verus!
