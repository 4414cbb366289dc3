//! Which files of a mod hold localisation, and the order in which their
//! definitions are listed: by path, line, column, key and mod, each listed
//! once.

use vstd::prelude::*;
use crate::documents::{components_of, extension_of, forward_slashes, path_components, path_extension};
use crate::model::LocalisationDefinition;
use crate::ordered::{lemma_seq_lt_transitive, views};
use crate::parse_cache::{components_lt, lemma_components_transitive, lemma_components_trichotomy};
use crate::text::{
    chars_lt, chars_of, has_prefix, lemma_seq_lt_trichotomy, lower_chars, lower_seq, seq_lt, str_eq,
    string_from_chars,
};

verus! {

/// A file below `localisation/` or `common/localisation/` whose extension
/// is `yml` or `yaml` in any case.
pub open spec fn is_localisation_source_path(p: Seq<char>) -> bool {
    let n = forward_slashes(p);
    &&& (has_prefix(n, "localisation/"@) || has_prefix(n, "common/localisation/"@))
    &&& (extension_of(p) matches Some(e) && (lower_seq(e) == "yml"@ || lower_seq(e) == "yaml"@))
}

pub fn is_localisation_source(relative_path: &str) -> (r: bool)
    ensures
        r == is_localisation_source_path(relative_path@),
{
    let n = string_from_chars(crate::documents::forward_slash_chars(relative_path).as_slice());
    if !(crate::text::str_starts_with(n.as_str(), "localisation/") || crate::text::str_starts_with(
        n.as_str(),
        "common/localisation/",
    )) {
        return false;
    }
    match path_extension(relative_path) {
        Some(e) => {
            let lowered = string_from_chars(lower_chars(&e).as_slice());
            str_eq(lowered.as_str(), "yml") || str_eq(lowered.as_str(), "yaml")
        },
        None => false,
    }
}

/// The same definition: same path (by components), line, column, key and mod.
#[verifier::opaque]
pub open spec fn same_definition(a: LocalisationDefinition, b: LocalisationDefinition) -> bool {
    &&& path_components(a.path@) == path_components(b.path@)
    &&& a.line == b.line
    &&& a.column == b.column
    &&& a.key@ == b.key@
    &&& a.mod_id@ == b.mod_id@
}

/// The order of definitions: by path, then line, column, key and mod.
#[verifier::opaque]
pub open spec fn definition_before(a: LocalisationDefinition, b: LocalisationDefinition) -> bool {
    let pa = path_components(a.path@);
    let pb = path_components(b.path@);
    if pa != pb {
        components_lt(pa, pb)
    } else if a.line != b.line {
        a.line < b.line
    } else if a.column != b.column {
        a.column < b.column
    } else if a.key@ != b.key@ {
        seq_lt(a.key@, b.key@)
    } else {
        seq_lt(a.mod_id@, b.mod_id@)
    }
}

pub proof fn lemma_definition_order_total(a: LocalisationDefinition, b: LocalisationDefinition)
    ensures
        definition_before(a, b) || definition_before(b, a) || same_definition(a, b),
        !(definition_before(a, b) && definition_before(b, a)),
        !(definition_before(a, b) && same_definition(a, b)),
{
    reveal(definition_before);
    reveal(same_definition);
    lemma_components_trichotomy(path_components(a.path@), path_components(b.path@));
    lemma_seq_lt_trichotomy(a.key@, b.key@);
    lemma_seq_lt_trichotomy(a.mod_id@, b.mod_id@);
    lemma_seq_lt_trichotomy(a.mod_id@, a.mod_id@);
}

pub proof fn lemma_definition_order_transitive(
    a: LocalisationDefinition,
    b: LocalisationDefinition,
    c: LocalisationDefinition,
)
    requires
        definition_before(a, b),
        definition_before(b, c),
    ensures
        definition_before(a, c),
{
    reveal(definition_before);
    let (pa, pb, pc) = (path_components(a.path@), path_components(b.path@), path_components(c.path@));
    lemma_components_trichotomy(pa, pb);
    lemma_components_trichotomy(pb, pc);
    lemma_components_trichotomy(pa, pc);
    if pa != pb && pb != pc {
        lemma_components_transitive(pa, pb, pc);
    }
    if pa == pb && pb == pc && a.line == b.line && b.line == c.line && a.column == b.column
        && b.column == c.column {
        lemma_seq_lt_trichotomy(a.key@, b.key@);
        lemma_seq_lt_trichotomy(b.key@, c.key@);
        lemma_seq_lt_trichotomy(a.key@, c.key@);
        if a.key@ != b.key@ && b.key@ != c.key@ {
            lemma_seq_lt_transitive(a.key@, b.key@, c.key@);
        }
        if a.key@ == b.key@ && b.key@ == c.key@ {
            lemma_seq_lt_transitive(a.mod_id@, b.mod_id@, c.mod_id@);
        }
    }
}

fn components_less(x: &Vec<Vec<char>>, y: &Vec<Vec<char>>) -> (r: bool)
    ensures
        r == components_lt(views(x@), views(y@)),
{
    let ghost sx = views(x@);
    let ghost sy = views(y@);
    let mut i: usize = 0;
    assert(sx.skip(0) =~= sx);
    assert(sy.skip(0) =~= sy);
    while i < x.len() && i < y.len()
        invariant
            i <= x.len(),
            i <= y.len(),
            sx == views(x@),
            sy == views(y@),
            components_lt(sx, sy) == components_lt(sx.skip(i as int), sy.skip(i as int)),
        decreases x.len() - i,
    {
        assert(sx.skip(i as int)[0] == x@[i as int]@);
        assert(sy.skip(i as int)[0] == y@[i as int]@);
        if !crate::text::chars_eq(&x[i], &y[i]) {
            return chars_lt(&x[i], &y[i]);
        }
        assert(sx.skip(i as int).drop_first() =~= sx.skip(i + 1));
        assert(sy.skip(i as int).drop_first() =~= sy.skip(i + 1));
        i = i + 1;
    }
    i == x.len() && i < y.len()
}

pub fn components_equal(x: &Vec<Vec<char>>, y: &Vec<Vec<char>>) -> (r: bool)
    ensures
        r == (views(x@) == views(y@)),
{
    if x.len() != y.len() {
        assert(views(x@).len() != views(y@).len());
        return false;
    }
    let mut i: usize = 0;
    while i < x.len()
        invariant
            i <= x.len() == y.len(),
            forall|k: int| 0 <= k < i ==> x@[k]@ == y@[k]@,
        decreases x.len() - i,
    {
        if !crate::text::chars_eq(&x[i], &y[i]) {
            assert(views(x@)[i as int] != views(y@)[i as int]);
            return false;
        }
        i = i + 1;
    }
    assert(views(x@) =~= views(y@));
    true
}

pub fn path_parts_of(path: &str) -> (r: Vec<Vec<char>>)
    ensures
        views(r@) == path_components(path@),
{
    let cs = chars_of(path);
    let r = components_of(&cs, cs.len());
    assert(cs@.subrange(0, cs.len() as int) =~= path@);
    r
}

fn compare_definitions(a: &LocalisationDefinition, b: &LocalisationDefinition) -> (r: (bool, bool))
    ensures
        r.0 == definition_before(*a, *b),
        r.1 == same_definition(*a, *b),
{
    proof {
        reveal(definition_before);
        reveal(same_definition);
    }
    let pa = path_parts_of(a.path.as_str());
    let pb = path_parts_of(b.path.as_str());
    let same_path = components_equal(&pa, &pb);
    let same_key = str_eq(a.key.as_str(), b.key.as_str());
    let same_mod = str_eq(a.mod_id.as_str(), b.mod_id.as_str());
    let same = same_path && a.line == b.line && a.column == b.column && same_key && same_mod;
    let before = if !same_path {
        components_less(&pa, &pb)
    } else if a.line != b.line {
        a.line < b.line
    } else if a.column != b.column {
        a.column < b.column
    } else if !same_key {
        chars_lt(&chars_of(a.key.as_str()), &chars_of(b.key.as_str()))
    } else {
        chars_lt(&chars_of(a.mod_id.as_str()), &chars_of(b.mod_id.as_str()))
    };
    (before, same)
}

fn copy_definition(d: &LocalisationDefinition) -> (r: LocalisationDefinition)
    ensures
        r == *d,
{
    LocalisationDefinition {
        key: d.key.clone(),
        mod_id: d.mod_id.clone(),
        path: d.path.clone(),
        line: d.line,
        column: d.column,
    }
}

/// The list is in the order of [`definition_before`], holds only entries
/// of the first `n` given definitions, holds one same definition for each
/// of them, and of several same ones the first given.
pub open spec fn dedup_state(defs: Seq<LocalisationDefinition>, n: int, out: Seq<LocalisationDefinition>) -> bool {
    &&& forall|i: int, j: int|
        0 <= i < j < out.len() ==> definition_before(#[trigger] out[i], #[trigger] out[j])
    &&& forall|k: int| 0 <= k < out.len() ==> exists|j: int| 0 <= j < n && defs[j] == #[trigger] out[k]
    &&& forall|i: int| 0 <= i < n ==> #[trigger] listed_in(out, defs[i])
    &&& forall|k: int, i: int|
        0 <= k < out.len() && 0 <= i < n && #[trigger] same_definition(out[k], defs[i]) ==> exists|j: int|
            0 <= j <= i && defs[j] == out[k]
}

proof fn lemma_same_symmetric(a: LocalisationDefinition, b: LocalisationDefinition)
    ensures
        same_definition(a, b) == same_definition(b, a),
{
    reveal(same_definition);
}

proof fn lemma_same_transitive(a: LocalisationDefinition, b: LocalisationDefinition, c: LocalisationDefinition)
    requires
        same_definition(a, b),
        same_definition(b, c),
    ensures
        same_definition(a, c),
{
    reveal(same_definition);
}

/// Some entry of the list is the same definition as `x`.
pub open spec fn listed_in(out: Seq<LocalisationDefinition>, x: LocalisationDefinition) -> bool {
    exists|k: int| 0 <= k < out.len() && #[trigger] same_definition(out[k], x)
}

proof fn lemma_same_reflexive(a: LocalisationDefinition)
    ensures
        same_definition(a, a),
{
    reveal(same_definition);
}

proof fn lemma_none_same(
    out: Seq<LocalisationDefinition>,
    p: int,
    x: LocalisationDefinition,
)
    requires
        0 <= p <= out.len(),
        forall|i: int, j: int|
            0 <= i < j < out.len() ==> definition_before(#[trigger] out[i], #[trigger] out[j]),
        forall|q: int| 0 <= q < p ==> definition_before(#[trigger] out[q], x),
        p == out.len() || definition_before(x, out[p]),
    ensures
        forall|k: int| 0 <= k < out.len() ==> !same_definition(#[trigger] out[k], x),
{
    assert forall|k: int| 0 <= k < out.len() implies !same_definition(#[trigger] out[k], x) by {
        if k < p {
            lemma_definition_order_total(out[k], x);
        } else {
            if k > p {
                lemma_definition_order_transitive(x, out[p], out[k]);
            }
            lemma_definition_order_total(x, out[k]);
            lemma_same_symmetric(x, out[k]);
        }
    }
}

proof fn lemma_skip_step(defs: Seq<LocalisationDefinition>, n: int, out: Seq<LocalisationDefinition>, p: int)
    requires
        0 <= n < defs.len(),
        dedup_state(defs, n, out),
        0 <= p < out.len(),
        same_definition(out[p], defs[n]),
    ensures
        dedup_state(defs, n + 1, out),
{
    assert forall|i: int| 0 <= i < n + 1 implies #[trigger] listed_in(out, defs[i]) by {
        if i == n {
            assert(same_definition(out[p], defs[i]));
        }
    }
    assert forall|k: int, i: int|
        0 <= k < out.len() && 0 <= i < n + 1 && #[trigger] same_definition(out[k], defs[i])
        implies exists|j: int| 0 <= j <= i && defs[j] == out[k] by {
        if i == n {
            let j0 = choose|j: int| 0 <= j < n && defs[j] == #[trigger] out[k];
            assert(0 <= j0 <= i && defs[j0] == out[k]);
        }
    }
    assert forall|k: int| 0 <= k < out.len() implies exists|j: int|
        0 <= j < n + 1 && defs[j] == #[trigger] out[k] by {
        let j0 = choose|j: int| 0 <= j < n && defs[j] == #[trigger] out[k];
        assert(0 <= j0 < n + 1 && defs[j0] == out[k]);
    }
}

proof fn lemma_insert_step(defs: Seq<LocalisationDefinition>, n: int, old_out: Seq<LocalisationDefinition>, p: int)
    requires
        0 <= n < defs.len(),
        dedup_state(defs, n, old_out),
        0 <= p <= old_out.len(),
        forall|q: int| 0 <= q < p ==> definition_before(#[trigger] old_out[q], defs[n]),
        p == old_out.len() || definition_before(defs[n], old_out[p]),
    ensures
        dedup_state(defs, n + 1, old_out.insert(p, defs[n])),
{
    let x = defs[n];
    let out = old_out.insert(p, x);
    lemma_none_same(old_out, p, x);
    lemma_same_reflexive(x);
    assert(out[p] == x);
    assert forall|a: int, b: int|
        0 <= a < b < out.len() implies definition_before(#[trigger] out[a], #[trigger] out[b]) by {
        if a < p && b < p {
            assert(out[a] == old_out[a] && out[b] == old_out[b]);
        } else if a < p && b == p {
            assert(out[a] == old_out[a]);
        } else if a < p {
            assert(out[a] == old_out[a] && out[b] == old_out[b - 1]);
            if b - 1 > p {
                lemma_definition_order_transitive(x, old_out[p], old_out[b - 1]);
            }
            lemma_definition_order_transitive(old_out[a], x, old_out[b - 1]);
        } else if a == p {
            assert(out[b] == old_out[b - 1]);
            if b - 1 > p {
                lemma_definition_order_transitive(x, old_out[p], old_out[b - 1]);
            }
        } else {
            assert(out[a] == old_out[a - 1] && out[b] == old_out[b - 1]);
        }
    }
    assert forall|k: int| 0 <= k < out.len() implies exists|j: int|
        0 <= j < n + 1 && defs[j] == #[trigger] out[k] by {
        if k == p {
            assert(defs[n] == out[k]);
        } else {
            let k0 = if k < p {
                k
            } else {
                k - 1
            };
            assert(out[k] == old_out[k0]);
            let j0 = choose|j: int| 0 <= j < n && defs[j] == #[trigger] old_out[k0];
            assert(0 <= j0 < n + 1 && defs[j0] == out[k]);
        }
    }
    assert forall|i: int| 0 <= i < n + 1 implies #[trigger] listed_in(out, defs[i]) by {
        if i == n {
            assert(same_definition(out[p], defs[i]));
        } else {
            assert(listed_in(old_out, defs[i]));
            let k0 = choose|k: int| 0 <= k < old_out.len() && #[trigger] same_definition(old_out[k], defs[i]);
            let k1 = if k0 < p {
                k0
            } else {
                k0 + 1
            };
            assert(out[k1] == old_out[k0]);
        }
    }
    assert forall|k: int, i: int|
        0 <= k < out.len() && 0 <= i < n + 1 && #[trigger] same_definition(out[k], defs[i])
        implies exists|j: int| 0 <= j <= i && defs[j] == out[k] by {
        if k == p {
            if i == n {
                assert(defs[n] == out[k]);
            } else {
                assert(listed_in(old_out, defs[i]));
                let k0 = choose|kk: int| 0 <= kk < old_out.len() && #[trigger] same_definition(old_out[kk], defs[i]);
                lemma_same_symmetric(x, defs[i]);
                lemma_same_transitive(old_out[k0], defs[i], x);
                assert(same_definition(old_out[k0], x));
                assert(!same_definition(old_out[k0], x));
            }
        } else {
            let k0 = if k < p {
                k
            } else {
                k - 1
            };
            assert(out[k] == old_out[k0]);
            if i == n {
                assert(!same_definition(old_out[k0], x));
            } else {
                assert(same_definition(old_out[k0], defs[i]));
            }
        }
    }
}

/// The definitions in the order of [`definition_before`], each listed once:
/// of several same definitions the first given stays.
pub fn sort_and_dedup_definitions(defs: &Vec<LocalisationDefinition>) -> (r: Vec<LocalisationDefinition>)
    ensures
        dedup_state(defs@, defs@.len() as int, r@),
{
    let mut out: Vec<LocalisationDefinition> = Vec::new();
    let mut n: usize = 0;
    while n < defs.len()
        invariant
            n <= defs.len(),
            dedup_state(defs@, n as int, out@),
        decreases defs.len() - n,
    {
        let x = &defs[n];
        let mut p: usize = 0;
        let mut same_found = false;
        loop
            invariant_except_break
                !same_found,
            invariant
                p <= out@.len(),
                n < defs.len(),
                *x == defs@[n as int],
                forall|q: int| 0 <= q < p ==> definition_before(#[trigger] out@[q], *x),
            ensures
                p <= out@.len(),
                forall|q: int| 0 <= q < p ==> definition_before(#[trigger] out@[q], *x),
                same_found ==> p < out@.len() && same_definition(out@[p as int], *x),
                !same_found ==> (p == out@.len() || definition_before(*x, out@[p as int])),
            decreases out@.len() - p,
        {
            if p >= out.len() {
                break;
            }
            let (before, same) = compare_definitions(&out[p], x);
            if same {
                same_found = true;
                break;
            }
            if !before {
                proof {
                    lemma_definition_order_total(out@[p as int], *x);
                }
                break;
            }
            p = p + 1;
        }
        if same_found {
            proof {
                lemma_skip_step(defs@, n as int, out@, p as int);
            }
        } else {
            let ghost old_out = out@;
            let c = copy_definition(x);
            out.insert(p, c);
            proof {
                lemma_insert_step(defs@, n as int, old_out, p as int);
            }
        }
        n = n + 1;
    }
    out
}

} // verus!
