//! Strictly ordered, duplicate-free lists of character strings: the sorted
//! and de-duplicated name lists of the builtin catalog, and the membership
//! test that searches them.

use vstd::prelude::*;
use crate::eu4_builtin::string_views;
use crate::text::{chars_eq, chars_lt, lemma_seq_lt_trichotomy, seq_lt, string_from_chars};

verus! {

/// The character sequences held by a vector of character vectors.
pub open spec fn views(v: Seq<Vec<char>>) -> Seq<Seq<char>> {
    v.map_values(|x: Vec<char>| x@)
}

/// Every element is smaller than every later one: sorted, with no element
/// occurring twice.
pub open spec fn strictly_sorted(s: Seq<Seq<char>>) -> bool {
    forall|i: int, j: int| 0 <= i < j < s.len() ==> seq_lt(#[trigger] s[i], #[trigger] s[j])
}

pub proof fn lemma_seq_lt_transitive(a: Seq<char>, b: Seq<char>, c: Seq<char>)
    requires
        seq_lt(a, b),
        seq_lt(b, c),
    ensures
        seq_lt(a, c),
    decreases a.len(),
{
    if a.len() > 0 && b.len() > 0 && c.len() > 0 {
        vstd::utf8::char_is_scalar(a[0]);
        vstd::utf8::char_is_scalar(b[0]);
        vstd::utf8::char_is_scalar(c[0]);
        if a[0] == b[0] && b[0] == c[0] {
            lemma_seq_lt_transitive(a.drop_first(), b.drop_first(), c.drop_first());
        }
    }
}

/// Binary search in a strictly sorted list: the number of elements smaller
/// than `x`, and whether the element at that position is `x` itself.
pub fn find_position(v: &Vec<Vec<char>>, x: &Vec<char>) -> (r: (usize, bool))
    requires
        strictly_sorted(views(v@)),
    ensures
        r.0 <= v.len(),
        forall|k: int| 0 <= k < r.0 ==> seq_lt(#[trigger] views(v@)[k], x@),
        r.1 ==> r.0 < v.len() && views(v@)[r.0 as int] == x@,
        !r.1 ==> forall|k: int| r.0 <= k < v.len() ==> seq_lt(x@, #[trigger] views(v@)[k]),
{
    let mut lo: usize = 0;
    let mut hi: usize = v.len();
    while lo < hi
        invariant
            lo <= hi <= v.len(),
            strictly_sorted(views(v@)),
            forall|k: int| 0 <= k < lo ==> seq_lt(#[trigger] views(v@)[k], x@),
            forall|k: int| hi <= k < v.len() ==> seq_lt(x@, #[trigger] views(v@)[k]),
        decreases hi - lo,
    {
        let mid = lo + (hi - lo) / 2;
        let ghost s = views(v@);
        assert(s[mid as int] == v@[mid as int]@);
        if chars_eq(&v[mid], x) {
            return (mid, true);
        }
        if chars_lt(&v[mid], x) {
            assert forall|k: int| 0 <= k < mid + 1 implies seq_lt(#[trigger] s[k], x@) by {
                if k < mid {
                    lemma_seq_lt_transitive(s[k], s[mid as int], x@);
                }
            }
            lo = mid + 1;
        } else {
            proof {
                lemma_seq_lt_trichotomy(v[mid as int]@, x@);
            }
            assert forall|k: int| mid <= k < v.len() implies seq_lt(x@, #[trigger] s[k]) by {
                if k > mid {
                    lemma_seq_lt_transitive(x@, s[mid as int], s[k]);
                }
            }
            hi = mid;
        }
    }
    (lo, false)
}

/// Whether a strictly sorted list holds `x`.
pub fn contains_sorted(v: &Vec<Vec<char>>, x: &Vec<char>) -> (r: bool)
    requires
        strictly_sorted(views(v@)),
    ensures
        r == views(v@).contains(x@),
{
    let (pos, found) = find_position(v, x);
    if found {
        assert(views(v@)[pos as int] == x@);
        true
    } else {
        assert forall|k: int| 0 <= k < views(v@).len() implies views(v@)[k] != x@ by {
            lemma_seq_lt_trichotomy(x@, x@);
            if k < pos {
                assert(seq_lt(views(v@)[k], x@));
            } else {
                assert(seq_lt(x@, views(v@)[k]));
            }
        }
        false
    }
}

/// Adds `x` to a strictly sorted list at its place, unless it is already there.
pub fn insert_unique(v: &mut Vec<Vec<char>>, x: Vec<char>)
    requires
        strictly_sorted(views(old(v)@)),
    ensures
        strictly_sorted(views(final(v)@)),
        forall|e: Seq<char>|
            views(final(v)@).contains(e) <==> (views(old(v)@).contains(e) || e == x@),
{
    let ghost s = views(v@);
    let (pos, found) = find_position(v, &x);
    if found {
        assert(s[pos as int] == x@);
    } else {
        let ghost xv = x@;
        v.insert(pos, x);
        let ghost t = views(v@);
        assert(t =~= s.insert(pos as int, xv));
        assert forall|i: int, j: int| 0 <= i < j < t.len() implies seq_lt(
            #[trigger] t[i],
            #[trigger] t[j],
        ) by {
            if j < pos {
                assert(seq_lt(s[i], s[j]));
            } else if j == pos {
                assert(seq_lt(s[i], xv));
            } else if i < pos {
                assert(seq_lt(s[i], s[j - 1]));
            } else if i == pos {
                assert(seq_lt(xv, s[j - 1]));
            } else {
                assert(seq_lt(s[i - 1], s[j - 1]));
            }
        }
        assert forall|e: Seq<char>| t.contains(e) <==> (s.contains(e) || e == xv) by {
            if t.contains(e) {
                let k = choose|k: int| 0 <= k < t.len() && t[k] == e;
                if k < pos {
                    assert(s[k] == e);
                } else if k > pos {
                    assert(s[k - 1] == e);
                }
            }
            if s.contains(e) {
                let k = choose|k: int| 0 <= k < s.len() && s[k] == e;
                if k < pos {
                    assert(t[k] == e);
                } else {
                    assert(t[k + 1] == e);
                }
            }
            if e == xv {
                assert(t[pos as int] == e);
            }
        }
    }
}

/// The distinct elements of `items`, in increasing order.
pub fn sorted_unique(items: &Vec<Vec<char>>) -> (r: Vec<Vec<char>>)
    ensures
        strictly_sorted(views(r@)),
        forall|e: Seq<char>| views(r@).contains(e) <==> views(items@).contains(e),
{
    let mut r: Vec<Vec<char>> = Vec::new();
    let mut i: usize = 0;
    while i < items.len()
        invariant
            i <= items.len(),
            strictly_sorted(views(r@)),
            forall|e: Seq<char>|
                views(r@).contains(e) <==> views(items@.subrange(0, i as int)).contains(e),
        decreases items.len() - i,
    {
        let x = items[i].clone();
        let ghost before = views(items@.subrange(0, i as int));
        let ghost after = views(items@.subrange(0, i + 1));
        assert(after =~= before.push(items@[i as int]@));
        insert_unique(&mut r, x);
        assert forall|e: Seq<char>| after.contains(e) <==> (before.contains(e) || e
            == items@[i as int]@) by {
            if after.contains(e) {
                let k = choose|k: int| 0 <= k < after.len() && after[k] == e;
                if k < i {
                    assert(before[k] == e);
                }
            }
            if before.contains(e) {
                let k = choose|k: int| 0 <= k < before.len() && before[k] == e;
                assert(after[k] == e);
            }
            if e == items@[i as int]@ {
                assert(after[i as int] == e);
            }
        }
        i = i + 1;
    }
    assert(items@.subrange(0, items.len() as int) =~= items@);
    r
}

/// The strings of a list of character vectors, in the same order.
pub fn to_strings(v: &Vec<Vec<char>>) -> (r: Vec<String>)
    ensures
        string_views(r@) == views(v@),
{
    let mut r: Vec<String> = Vec::new();
    let mut i: usize = 0;
    while i < v.len()
        invariant
            i <= v.len(),
            r@.len() == i,
            string_views(r@) == views(v@).subrange(0, i as int),
        decreases v.len() - i,
    {
        let t = string_from_chars(v[i].as_slice());
        assert(t@ == views(v@)[i as int]);
        let ghost before = r@;
        r.push(t);
        assert(r@ == before.push(t));
        assert(string_views(r@).len() == i + 1);
        assert(views(v@).subrange(0, i + 1).len() == i + 1);
        assert forall|k: int| 0 <= k <= i implies #[trigger] string_views(r@)[k] == views(
            v@,
        ).subrange(0, i + 1)[k] by {
            assert(string_views(r@)[k] == r@[k]@);
            if k < i {
                assert(r@[k] == before[k]);
                assert(string_views(before)[k] == before[k]@);
                assert(views(v@).subrange(0, i as int)[k] == views(v@)[k]);
            } else {
                assert(r@[k] == t);
            }
        }
        assert(string_views(r@) =~= views(v@).subrange(0, i + 1));
        i = i + 1;
    }
    assert(views(v@).subrange(0, v.len() as int) =~= views(v@));
    r
}

} // verus!
