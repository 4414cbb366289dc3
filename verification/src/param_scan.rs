//! The parameters of scripted callables as script writes them: `$name$`
//! placeholders, the optional-block and default-value markers that make a
//! parameter optional, the `ROOT`/`FROM`/`THIS`/`PREV` tokens in values, and
//! the parameters a call gives.

use vstd::prelude::*;
use crate::eu4_builtin::string_views;
use crate::ordered::{insert_unique, strictly_sorted, to_strings, views};
use crate::analysis::is_param_char;
use crate::param_contracts::{explicit_contract_param_names, mentioned, registered_contract, string_list};
use crate::parser::{byte_len, scalar_text, AstStatement, AstValue};
use crate::scope_inference::ParamBinding;
use crate::semantic_index::{scalar_text_of, value_text};
use crate::ordered::{contains_sorted, lemma_seq_lt_transitive};
use crate::text::{chars_eq, chars_lt, chars_of, char_width, lemma_seq_lt_trichotomy, seq_lt, str_eq, utf8_width};

verus! {

/// The first groups that `\$([A-Za-z_][A-Za-z0-9_]*)\$` captures in `text`,
/// match by match from the left.
pub uninterp spec fn param_token_captures(text: Seq<char>) -> Seq<Seq<char>>;

/// The first groups that `\b(ROOT|FROM|THIS|PREV)\b` captures in `text`,
/// match by match from the left.
pub uninterp spec fn alias_token_captures(text: Seq<char>) -> Seq<Seq<char>>;

/// The first groups that `\[\[\s*([A-Za-z_][A-Za-z0-9_]*)\s*\]` captures in
/// `text`, match by match from the left.
pub uninterp spec fn optional_block_captures(text: Seq<char>) -> Seq<Seq<char>>;

/// The first groups that `\$([A-Za-z_][A-Za-z0-9_]*)\s*\|` captures in
/// `text`, match by match from the left.
pub uninterp spec fn default_fallback_captures(text: Seq<char>) -> Seq<Seq<char>>;

/// `regex::Regex::captures_iter` with the pattern `\$([A-Za-z_][A-Za-z0-9_]*)\$`
/// on `text`: the claim is only that the result is the text of group 1 of
/// each match, in order; which matches the pattern finds is left to the
/// `regex` crate. Group 1 takes part in every match of this pattern.
#[verifier::external_body]
fn param_tokens(text: &str) -> (r: Vec<String>)
    ensures
        string_views(r@) == param_token_captures(text@),
{
    let re = regex::Regex::new(r"\$([A-Za-z_][A-Za-z0-9_]*)\$").unwrap();
    re.captures_iter(text).map(|c| c[1].to_string()).collect()
}

/// `regex::Regex::captures_iter` with the pattern `\b(ROOT|FROM|THIS|PREV)\b`
/// on `text`: the text of group 1 of each match, in order.
#[verifier::external_body]
fn alias_tokens(text: &str) -> (r: Vec<String>)
    ensures
        string_views(r@) == alias_token_captures(text@),
{
    let re = regex::Regex::new(r"\b(ROOT|FROM|THIS|PREV)\b").unwrap();
    re.captures_iter(text).map(|c| c[1].to_string()).collect()
}

/// `regex::Regex::captures_iter` with the pattern
/// `\[\[\s*([A-Za-z_][A-Za-z0-9_]*)\s*\]` on `text`: the text of group 1 of
/// each match, in order.
#[verifier::external_body]
fn optional_block_names(text: &str) -> (r: Vec<String>)
    ensures
        string_views(r@) == optional_block_captures(text@),
{
    let re = regex::Regex::new(r"\[\[\s*([A-Za-z_][A-Za-z0-9_]*)\s*\]").unwrap();
    re.captures_iter(text).map(|c| c[1].to_string()).collect()
}

/// `regex::Regex::captures_iter` with the pattern `\$([A-Za-z_][A-Za-z0-9_]*)\s*\|`
/// on `text`: the text of group 1 of each match, in order.
#[verifier::external_body]
fn default_fallback_names(text: &str) -> (r: Vec<String>)
    ensures
        string_views(r@) == default_fallback_captures(text@),
{
    let re = regex::Regex::new(r"\$([A-Za-z_][A-Za-z0-9_]*)\s*\|").unwrap();
    re.captures_iter(text).map(|c| c[1].to_string()).collect()
}

/// The aliases written in the text of `value`; none for a block.
pub fn alias_tokens_of_value(value: &AstValue) -> (r: Vec<String>)
    ensures
        string_views(r@) == match *value {
            AstValue::Scalar { value: s, .. } => alias_token_captures(scalar_text(s@)),
            AstValue::Block { .. } => Seq::<Seq<char>>::empty(),
        },
{
    match value {
        AstValue::Scalar { value: s, .. } => alias_tokens(s.as_text().as_str()),
        AstValue::Block { .. } => {
            let r: Vec<String> = Vec::new();
            assert(string_views(r@) =~= Seq::<Seq<char>>::empty());
            r
        },
    }
}

/// The `$name$` placeholders of the scalars among `items`, at any depth,
/// in the order they are written.
pub open spec fn params_in_items(items: Seq<AstStatement>) -> Seq<Seq<char>>
    decreases items,
{
    if items.len() == 0 {
        Seq::empty()
    } else {
        params_in_stmt(items[0]) + params_in_items(items.drop_first())
    }
}

pub open spec fn params_in_stmt(s: AstStatement) -> Seq<Seq<char>>
    decreases s,
{
    match s {
        AstStatement::Assignment { value, .. } => params_in_value(value),
        AstStatement::Item { value, .. } => params_in_value(value),
        AstStatement::Comment { .. } => Seq::empty(),
    }
}

/// The `$name$` placeholders of `v`: those of its text, or of the scalars of
/// its block.
pub open spec fn params_in_value(v: AstValue) -> Seq<Seq<char>>
    decreases v,
{
    match v {
        AstValue::Scalar { value, .. } => param_token_captures(scalar_text(value@)),
        AstValue::Block { items, .. } => params_in_items(items@),
    }
}

proof fn lemma_params_split(items: Seq<AstStatement>, i: int)
    requires
        0 <= i < items.len(),
    ensures
        params_in_items(items.take(i + 1)) == params_in_items(items.take(i)) + params_in_stmt(
            items[i],
        ),
    decreases i,
{
    let a = items.take(i + 1);
    assert(a[0] == items[0]);
    if i == 0 {
        assert(a.drop_first() =~= Seq::<AstStatement>::empty());
        assert(items.take(0) =~= Seq::<AstStatement>::empty());
        assert(params_in_items(a) =~= params_in_items(items.take(i)) + params_in_stmt(items[i]));
    } else {
        let d = items.drop_first();
        lemma_params_split(d, i - 1);
        assert(a.drop_first() =~= d.take(i));
        assert(items.take(i).drop_first() =~= d.take(i - 1));
        assert(items.take(i)[0] == items[0]);
        assert(d[i - 1] == items[i]);
        assert(params_in_items(a) =~= params_in_items(items.take(i)) + params_in_stmt(items[i]));
    }
}

fn push_all(out: &mut Vec<String>, more: Vec<String>)
    ensures
        string_views(final(out)@) == string_views(old(out)@) + string_views(more@),
{
    let mut i: usize = 0;
    while i < more.len()
        invariant
            i <= more.len(),
            string_views(out@) == string_views(old(out)@) + string_views(more@).subrange(0, i as int),
        decreases more.len() - i,
    {
        let ghost before = string_views(out@);
        out.push(more[i].clone());
        assert(string_views(out@) =~= before.push(string_views(more@)[i as int]));
        assert(string_views(more@).subrange(0, i + 1) =~= string_views(more@).subrange(0, i as int).push(
            string_views(more@)[i as int],
        ));
        i = i + 1;
    }
    assert(string_views(more@).subrange(0, more.len() as int) =~= string_views(more@));
}

/// Appends the `$name$` placeholders of `value` to `out`.
pub fn collect_params_from_value(value: &AstValue, out: &mut Vec<String>)
    ensures
        string_views(final(out)@) == string_views(old(out)@) + params_in_value(*value),
    decreases value,
{
    match value {
        AstValue::Scalar { value: s, .. } => {
            let found = param_tokens(s.as_text().as_str());
            push_all(out, found);
        },
        AstValue::Block { items, .. } => {
            assert(decreases_to!(value => items));
            collect_params_from_statements(items, out);
        },
    }
}

fn collect_params_from_statements(items: &Vec<AstStatement>, out: &mut Vec<String>)
    ensures
        string_views(final(out)@) == string_views(old(out)@) + params_in_items(items@),
    decreases items,
{
    let ghost start = string_views(out@);
    let mut i: usize = 0;
    assert(items@.take(0) =~= Seq::<AstStatement>::empty());
    assert(start + params_in_items(items@.take(0)) =~= start);
    while i < items.len()
        invariant
            i <= items.len(),
            string_views(out@) == start + params_in_items(items@.take(i as int)),
        decreases items.len() - i,
    {
        assert(decreases_to!(items => items@[i as int]));
        proof {
            lemma_params_split(items@, i as int);
        }
        let ghost before = string_views(out@);
        match &items[i] {
            AstStatement::Assignment { value, .. } => {
                assert(decreases_to!(items => value));
                collect_params_from_value(value, out);
            },
            AstStatement::Item { value, .. } => {
                assert(decreases_to!(items => value));
                collect_params_from_value(value, out);
            },
            AstStatement::Comment { .. } => {},
        }
        assert(string_views(out@) =~= before + params_in_stmt(items@[i as int]));
        i = i + 1;
        assert(string_views(out@) =~= start + params_in_items(items@.take(i as int)));
    }
    assert(items@.take(items.len() as int) =~= items@);
}

/// The `$name$` placeholders of the scalars among `items`, at any depth, in
/// the order they are written.
pub fn collect_required_params(items: &Vec<AstStatement>) -> (r: Vec<String>)
    ensures
        string_views(r@) == params_in_items(items@),
{
    let mut r: Vec<String> = Vec::new();
    assert(string_views(r@) =~= Seq::<Seq<char>>::empty());
    collect_params_from_statements(items, &mut r);
    assert(string_views(r@) =~= params_in_items(items@));
    r
}


/// The characters of `cs` whose first byte lies in the byte range
/// `[start, end)`, when the first character of `cs` starts at byte `pos`.
pub open spec fn chars_in_bytes(cs: Seq<char>, pos: int, start: int, end: int) -> Seq<char>
    decreases cs.len(),
{
    if cs.len() == 0 {
        Seq::empty()
    } else {
        let rest = chars_in_bytes(cs.drop_first(), pos + utf8_width(cs[0]), start, end);
        if start <= pos && pos < end {
            seq![cs[0]] + rest
        } else {
            rest
        }
    }
}

proof fn lemma_nothing_past_end(cs: Seq<char>, pos: int, start: int, end: int)
    requires
        pos >= end,
    ensures
        chars_in_bytes(cs, pos, start, end) == Seq::<char>::empty(),
    decreases cs.len(),
{
    if cs.len() > 0 {
        vstd::utf8::char_is_scalar(cs[0]);
        lemma_nothing_past_end(cs.drop_first(), pos + utf8_width(cs[0]), start, end);
    }
}

proof fn lemma_width_positive(c: char)
    ensures
        1 <= utf8_width(c) <= 4,
{
    vstd::utf8::char_is_scalar(c);
}

/// The text of `source` whose characters start in the byte range
/// `[start, end)`, and whether `source` is at least `end` bytes long.
fn byte_range_text(source: &str, start: usize, end: usize) -> (r: (String, bool))
    ensures
        r.0@ == chars_in_bytes(source@, 0, start as int, end as int),
        r.1 == (end <= byte_len(source@)),
{
    let cs = chars_of(source);
    let mut out: Vec<char> = Vec::new();
    let mut i: usize = 0;
    let mut pos: usize = 0;
    let ghost mut gp: int = 0;
    assert(cs@.skip(0) =~= cs@);
    assert(cs@.subrange(0, 0) =~= Seq::<char>::empty());
    assert(vstd::utf8::encode_utf8(Seq::<char>::empty()) =~= Seq::<u8>::empty());
    while i < cs.len() && pos < end
        invariant
            i <= cs.len(),
            cs@ == source@,
            gp == byte_len(cs@.subrange(0, i as int)),
            pos as int == if gp < end { gp } else { end as int },
            out@ + chars_in_bytes(cs@.skip(i as int), gp, start as int, end as int) == chars_in_bytes(
                cs@,
                0,
                start as int,
                end as int,
            ),
        decreases cs.len() - i,
    {
        let c = cs[i];
        let w = char_width(c);
        let ghost tail = cs@.skip(i as int);
        assert(tail[0] == c);
        assert(tail.drop_first() =~= cs@.skip(i + 1));
        proof {
            crate::text::lemma_encoded_prefix_step(cs@, i as int);
        }
        if start <= pos {
            out.push(c);
        }
        if w >= end - pos {
            pos = end;
        } else {
            pos = pos + w;
        }
        proof {
            gp = gp + utf8_width(c);
        }
        i = i + 1;
    }
    let reached = pos >= end;
    proof {
        if reached {
            lemma_nothing_past_end(cs@.skip(i as int), gp, start as int, end as int);
            crate::text::lemma_encoded_prefix_le(cs@, i as int);
            assert(out@ =~= chars_in_bytes(cs@, 0, start as int, end as int));
        } else {
            assert(i == cs.len());
            assert(cs@.subrange(0, i as int) =~= cs@);
            assert(cs@.skip(i as int) =~= Seq::<char>::empty());
            assert(out@ =~= chars_in_bytes(cs@, 0, start as int, end as int));
        }
    }
    (crate::text::string_from_chars(out.as_slice()), reached)
}

/// The names that `[[name]` blocks and `$name|default$` placeholders mark
/// optional in the part of `source` between the byte offsets `start` and
/// `end`; none for an empty source, an empty range or one that reaches
/// past the end of `source`.
pub open spec fn optional_params_in(source: Seq<char>, start: int, end: int) -> Set<Seq<char>> {
    if source.len() == 0 || end <= start || end > byte_len(source) {
        Set::empty()
    } else {
        let slice = chars_in_bytes(source, 0, start, end);
        optional_block_captures(slice).to_set() + default_fallback_captures(slice).to_set()
    }
}

fn insert_all(set: &mut Vec<Vec<char>>, items: &Vec<String>)
    requires
        strictly_sorted(views(old(set)@)),
    ensures
        strictly_sorted(views(final(set)@)),
        views(final(set)@).to_set() == views(old(set)@).to_set() + string_views(items@).to_set(),
{
    let mut i: usize = 0;
    while i < items.len()
        invariant
            i <= items.len(),
            strictly_sorted(views(set@)),
            views(set@).to_set() == views(old(set)@).to_set() + string_views(items@).subrange(
                0,
                i as int,
            ).to_set(),
        decreases items.len() - i,
    {
        let ghost before = views(set@).to_set();
        insert_unique(set, chars_of(items[i].as_str()));
        assert(string_views(items@).subrange(0, i + 1) =~= string_views(items@).subrange(0, i as int).push(
            items@[i as int]@,
        ));
        let ghost prev = string_views(items@).subrange(0, i as int);
        let ghost next = string_views(items@).subrange(0, i + 1);
        assert forall|e: Seq<char>| #[trigger] views(set@).to_set().contains(e) <==> (views(
            old(set)@,
        ).to_set() + next.to_set()).contains(e) by {
            assert(views(set@).to_set().contains(e) == views(set@).contains(e));
            assert(next.to_set().contains(e) == next.contains(e));
            assert(prev.to_set().contains(e) == prev.contains(e));
            assert(before.contains(e) == (views(old(set)@).to_set() + prev.to_set()).contains(e));
            if next.contains(e) && e != items@[i as int]@ {
                let k = choose|k: int| 0 <= k < next.len() && next[k] == e;
                assert(prev[k] == e);
            }
            if prev.contains(e) {
                let k = choose|k: int| 0 <= k < prev.len() && prev[k] == e;
                assert(next[k] == e);
            }
            if e == items@[i as int]@ {
                assert(next[i as int] == e);
            }
        }
        i = i + 1;
        assert(views(set@).to_set() =~= views(old(set)@).to_set() + string_views(items@).subrange(
            0,
            i as int,
        ).to_set());
    }
    assert(string_views(items@).subrange(0, items.len() as int) =~= string_views(items@));
}

/// The parameters that a callable body between the byte offsets `start`
/// and `end` of `source` marks optional, sorted and without repeats.
pub fn collect_optional_params_from_source(source: &str, start: usize, end: usize) -> (r: Vec<String>)
    ensures
        strictly_sorted(string_views(r@)),
        string_views(r@).to_set() == optional_params_in(source@, start as int, end as int),
{
    let mut names: Vec<Vec<char>> = Vec::new();
    assert(views(names@).to_set() =~= Set::<Seq<char>>::empty());
    let empty_source = chars_of(source).len() == 0;
    if !empty_source && start < end {
        let (slice, reached) = byte_range_text(source, start, end);
        if reached {
            let a = optional_block_names(slice.as_str());
            let b = default_fallback_names(slice.as_str());
            insert_all(&mut names, &a);
            insert_all(&mut names, &b);
            assert(views(names@).to_set() =~= optional_params_in(source@, start as int, end as int));
        }
    }
    assert(views(names@).to_set() =~= optional_params_in(source@, start as int, end as int));
    let r = to_strings(&names);
    r
}


/// Whether `x` is one of the strings of `v`.
pub fn contains_string(v: &Vec<String>, x: &str) -> (r: bool)
    ensures
        r == string_views(v@).contains(x@),
{
    let mut i: usize = 0;
    while i < v.len()
        invariant
            i <= v.len(),
            forall|k: int| 0 <= k < i ==> string_views(v@)[k] != x@,
        decreases v.len() - i,
    {
        if str_eq(v[i].as_str(), x) {
            assert(string_views(v@)[i as int] == x@);
            return true;
        }
        i = i + 1;
    }
    false
}

/// `req` with each of `toks` that neither `req` nor `opt` holds yet
/// appended, in order.
pub open spec fn add_missing_params(req: Seq<Seq<char>>, opt: Seq<Seq<char>>, toks: Seq<Seq<char>>) -> Seq<
    Seq<char>,
>
    decreases toks.len(),
{
    if toks.len() == 0 {
        req
    } else {
        let t = toks[0];
        let next = if req.contains(t) || opt.contains(t) {
            req
        } else {
            req.push(t)
        };
        add_missing_params(next, opt, toks.drop_first())
    }
}

/// Appends to `required` each placeholder `$name$` of `value` that neither
/// `required` nor `optional` names yet, in the order they are written.
pub fn record_param_tokens(required: &mut Vec<String>, optional: &Vec<String>, value: &AstValue)
    ensures
        string_views(final(required)@) == add_missing_params(
            string_views(old(required)@),
            string_views(optional@),
            params_in_value(*value),
        ),
{
    let mut toks: Vec<String> = Vec::new();
    assert(string_views(toks@) =~= Seq::<Seq<char>>::empty());
    collect_params_from_value(value, &mut toks);
    assert(string_views(toks@) =~= params_in_value(*value));
    let ghost goal = add_missing_params(string_views(required@), string_views(optional@), string_views(toks@));
    let mut i: usize = 0;
    assert(string_views(toks@).skip(0) =~= string_views(toks@));
    while i < toks.len()
        invariant
            i <= toks.len(),
            add_missing_params(string_views(required@), string_views(optional@), string_views(toks@).skip(i as int))
                == goal,
        decreases toks.len() - i,
    {
        let t = toks[i].as_str();
        let ghost rest = string_views(toks@).skip(i as int);
        assert(rest[0] == t@);
        assert(rest.drop_first() =~= string_views(toks@).skip(i + 1));
        if !contains_string(required, t) && !contains_string(optional, t) {
            let ghost before = string_views(required@);
            required.push(toks[i].clone());
            assert(string_views(required@) =~= before.push(t@));
        }
        i = i + 1;
    }
    assert(string_views(toks@).skip(toks.len() as int) =~= Seq::<Seq<char>>::empty());
}

/// A key made only of upper-case ASCII letters, digits and `_`.
pub open spec fn upper_param_chars(k: Seq<char>) -> bool {
    forall|i: int| 0 <= i < k.len() ==> ('A' <= #[trigger] k[i] <= 'Z') || k[i] == '_' || ('0' <= k[i] <= '9')
}

/// A key that can bind a named parameter: one or more ASCII letters, digits
/// and `_`.
pub open spec fn binding_name(k: Seq<char>) -> bool {
    k.len() > 0 && forall|i: int| 0 <= i < k.len() ==> is_param_char(#[trigger] k[i])
}

/// The contract registered for `local` mentions the parameter `k`.
pub open spec fn contract_mentions(local: Seq<char>, k: Seq<char>) -> bool {
    registered_contract(local) matches Some(c) && mentioned(c).contains(k)
}

/// A key that a call of `local` gives as a parameter.
pub open spec fn names_param(local: Seq<char>, k: Seq<char>) -> bool {
    upper_param_chars(k) || contract_mentions(local, k) || binding_name(k)
}

/// The key of an assignment.
pub open spec fn stmt_key(s: AstStatement) -> Option<Seq<char>> {
    match s {
        AstStatement::Assignment { key, .. } => Some(key@),
        _ => None,
    }
}

/// The key and scalar text of an assignment of a scalar.
pub open spec fn stmt_key_text(s: AstStatement) -> Option<(Seq<char>, Seq<char>)> {
    match s {
        AstStatement::Assignment { key, value, .. } => match value_text(value) {
            Some(t) => Some((key@, t)),
            None => None,
        },
        _ => None,
    }
}

/// Among the first `n` of `items`, some assignment has the key `k`.
pub open spec fn assigns_key(items: Seq<AstStatement>, n: int, k: Seq<char>) -> bool {
    exists|j: int| 0 <= j < n && stmt_key(#[trigger] items[j]) == Some(k)
}

/// Among the first `n` of `items`, some assignment gives `p.0` the scalar
/// text `p.1`.
pub open spec fn assigns_text(items: Seq<AstStatement>, n: int, p: (Seq<char>, Seq<char>)) -> bool {
    exists|j: int| 0 <= j < n && stmt_key_text(#[trigger] items[j]) == Some(p)
}

proof fn lemma_assigns_step(items: Seq<AstStatement>, i: int)
    requires
        0 <= i < items.len(),
    ensures
        forall|k: Seq<char>| #[trigger] assigns_key(items, i + 1, k) == (assigns_key(items, i, k) || stmt_key(items[i]) == Some(k)),
        forall|p: (Seq<char>, Seq<char>)| #[trigger] assigns_text(items, i + 1, p) == (assigns_text(items, i, p) || stmt_key_text(items[i]) == Some(p)),
{
    assert forall|k: Seq<char>| #[trigger] assigns_key(items, i + 1, k) == (assigns_key(items, i, k) || stmt_key(items[i]) == Some(k)) by {
        if assigns_key(items, i + 1, k) {
            let j = choose|j: int| 0 <= j < i + 1 && stmt_key(#[trigger] items[j]) == Some(k);
            if j < i {
                assert(assigns_key(items, i, k));
            }
        }
        if assigns_key(items, i, k) {
            let j = choose|j: int| 0 <= j < i && stmt_key(#[trigger] items[j]) == Some(k);
            assert(assigns_key(items, i + 1, k));
        }
        if stmt_key(items[i]) == Some(k) {
            assert(assigns_key(items, i + 1, k));
        }
    }
    assert forall|p: (Seq<char>, Seq<char>)| #[trigger] assigns_text(items, i + 1, p) == (assigns_text(items, i, p) || stmt_key_text(items[i]) == Some(p)) by {
        if assigns_text(items, i + 1, p) {
            let j = choose|j: int| 0 <= j < i + 1 && stmt_key_text(#[trigger] items[j]) == Some(p);
            if j < i {
                assert(assigns_text(items, i, p));
            }
        }
        if assigns_text(items, i, p) {
            let j = choose|j: int| 0 <= j < i && stmt_key_text(#[trigger] items[j]) == Some(p);
            assert(assigns_text(items, i + 1, p));
        }
        if stmt_key_text(items[i]) == Some(p) {
            assert(assigns_text(items, i + 1, p));
        }
    }
}

/// The parameters that a call of `local` with the body `items` gives: the
/// keys of its assignments that name a parameter.
pub open spec fn provided_names(local: Seq<char>, items: Seq<AstStatement>, n: int) -> Set<Seq<char>> {
    Set::new(|k: Seq<char>| names_param(local, k) && assigns_key(items, n, k))
}

/// The named parameters that the body `items` binds to scalar texts.
pub open spec fn provided_bindings(items: Seq<AstStatement>, n: int) -> Set<(Seq<char>, Seq<char>)> {
    Set::new(|p: (Seq<char>, Seq<char>)| binding_name(p.0) && assigns_text(items, n, p))
}

/// The order of bindings: by name, then by value.
pub open spec fn binding_lt(a: (Seq<char>, Seq<char>), b: (Seq<char>, Seq<char>)) -> bool {
    seq_lt(a.0, b.0) || (a.0 == b.0 && seq_lt(a.1, b.1))
}

pub open spec fn binding_pairs(bs: Seq<ParamBinding>) -> Seq<(Seq<char>, Seq<char>)> {
    bs.map_values(|b: ParamBinding| (b.name@, b.value@))
}

pub open spec fn bindings_sorted(s: Seq<(Seq<char>, Seq<char>)>) -> bool {
    forall|i: int, j: int| 0 <= i < j < s.len() ==> binding_lt(#[trigger] s[i], #[trigger] s[j])
}

proof fn lemma_binding_order(a: (Seq<char>, Seq<char>), b: (Seq<char>, Seq<char>), c: (Seq<char>, Seq<char>))
    ensures
        a == b || binding_lt(a, b) || binding_lt(b, a),
        !(binding_lt(a, b) && binding_lt(b, a)),
        !binding_lt(a, a),
        binding_lt(a, b) && binding_lt(b, c) ==> binding_lt(a, c),
{
    lemma_seq_lt_trichotomy(a.0, b.0);
    lemma_seq_lt_trichotomy(a.1, b.1);
    lemma_seq_lt_trichotomy(a.0, a.0);
    lemma_seq_lt_trichotomy(a.1, a.1);
    lemma_seq_lt_trichotomy(b.0, c.0);
    lemma_seq_lt_trichotomy(a.0, c.0);
    if binding_lt(a, b) && binding_lt(b, c) {
        if seq_lt(a.0, b.0) && seq_lt(b.0, c.0) {
            lemma_seq_lt_transitive(a.0, b.0, c.0);
        }
        if a.0 == b.0 && b.0 == c.0 {
            lemma_seq_lt_transitive(a.1, b.1, c.1);
        }
    }
}

/// Adds a binding to a list sorted by [`binding_lt`], unless it is there.
fn insert_binding(v: &mut Vec<ParamBinding>, name: &str, value: String)
    requires
        bindings_sorted(binding_pairs(old(v)@)),
    ensures
        bindings_sorted(binding_pairs(final(v)@)),
        binding_pairs(final(v)@).to_set() == binding_pairs(old(v)@).to_set().insert((name@, value@)),
{
    let ghost x = (name@, value@);
    let ghost s = binding_pairs(v@);
    let n = chars_of(name);
    let val = chars_of(value.as_str());
    let mut p: usize = 0;
    while p < v.len()
        invariant
            p <= v.len(),
            v@ == old(v)@,
            s == binding_pairs(v@),
            s == binding_pairs(old(v)@),
            x == (name@, value@),
            bindings_sorted(s),
            n@ == x.0,
            val@ == x.1,
            forall|q: int| 0 <= q < p ==> binding_lt(#[trigger] s[q], x),
        ensures
            p <= v.len(),
            v@ == old(v)@,
            forall|q: int| 0 <= q < p ==> binding_lt(#[trigger] s[q], x),
            p < v.len() ==> binding_lt(x, s[p as int]),
        decreases v.len() - p,
    {
        let bn = chars_of(v[p].name.as_str());
        let bv = chars_of(v[p].value.as_str());
        assert(s[p as int] == (bn@, bv@));
        let same_name = chars_eq(&bn, &n);
        let before = chars_lt(&bn, &n) || (same_name && chars_lt(&bv, &val));
        if !before {
            if same_name && chars_eq(&bv, &val) {
                assert(s[p as int] == x);
                assert(s.contains(x));
                assert(binding_pairs(v@) == binding_pairs(old(v)@));
                assert(s.to_set().contains(x));
                assert(binding_pairs(v@).to_set() =~= s.to_set().insert(x));
                return;
            }
            proof {
                lemma_binding_order(s[p as int], x, x);
            }
            break;
        }
        p = p + 1;
    }
    v.insert(p, ParamBinding { name: name.to_owned(), value });
    let ghost t = binding_pairs(v@);
    assert(t =~= s.insert(p as int, x));
    assert forall|i: int, j: int| 0 <= i < j < t.len() implies binding_lt(#[trigger] t[i], #[trigger] t[j]) by {
        if j < p {
            assert(t[i] == s[i] && t[j] == s[j]);
            assert(binding_lt(s[i], s[j]));
        } else if j == p {
            assert(t[i] == s[i] && t[j] == x);
            assert(binding_lt(s[i], x));
        } else if i < p {
            assert(t[i] == s[i] && t[j] == s[j - 1]);
            assert(binding_lt(s[i], x));
            if j - 1 > p {
                lemma_binding_order(x, s[p as int], s[j - 1]);
            }
            lemma_binding_order(s[i], x, s[j - 1]);
        } else if i == p {
            assert(t[i] == x && t[j] == s[j - 1]);
            if j - 1 > p {
                lemma_binding_order(x, s[p as int], s[j - 1]);
            }
        } else {
            assert(t[i] == s[i - 1] && t[j] == s[j - 1]);
            assert(binding_lt(s[i - 1], s[j - 1]));
        }
    }
    assert forall|e: (Seq<char>, Seq<char>)| #[trigger] t.to_set().contains(e) <==> s.to_set().insert(x).contains(e) by {
        assert(t.to_set().contains(e) == t.contains(e));
        assert(s.to_set().contains(e) == s.contains(e));
        if t.contains(e) {
            let k = choose|k: int| 0 <= k < t.len() && t[k] == e;
            if k < p {
                assert(s[k] == e);
            } else if k > p {
                assert(s[k - 1] == e);
            }
        }
        if s.contains(e) {
            let k = choose|k: int| 0 <= k < s.len() && s[k] == e;
            if k < p {
                assert(t[k] == e);
            } else {
                assert(t[k + 1] == e);
            }
        }
        if e == x {
            assert(t[p as int] == e);
        }
    }
    assert(t.to_set() =~= s.to_set().insert(x));
}

fn upper_param_key(k: &Vec<char>) -> (r: bool)
    ensures
        r == upper_param_chars(k@),
{
    let mut i: usize = 0;
    while i < k.len()
        invariant
            i <= k.len(),
            forall|j: int| 0 <= j < i ==> ('A' <= #[trigger] k@[j] <= 'Z') || k@[j] == '_' || ('0' <= k@[j] <= '9'),
        decreases k.len() - i,
    {
        let c = k[i];
        if !(('A' <= c && c <= 'Z') || c == '_' || ('0' <= c && c <= '9')) {
            return false;
        }
        i = i + 1;
    }
    true
}

fn binding_key(k: &Vec<char>) -> (r: bool)
    ensures
        r == binding_name(k@),
{
    if k.len() == 0 {
        return false;
    }
    let mut i: usize = 0;
    while i < k.len()
        invariant
            i <= k.len(),
            forall|j: int| 0 <= j < i ==> is_param_char(#[trigger] k@[j]),
        decreases k.len() - i,
    {
        let c = k[i];
        if !(('A' <= c && c <= 'Z') || ('a' <= c && c <= 'z') || ('0' <= c && c <= '9') || c == '_') {
            return false;
        }
        i = i + 1;
    }
    true
}

/// The parameters a call gives: their names, sorted and without repeats,
/// and the scalar values it binds to named parameters, sorted by name and
/// value and without repeats.
pub struct ProvidedParams {
    pub names: Vec<String>,
    pub bindings: Vec<ParamBinding>,
}

/// The parameters that a call of `local_name` with the body `items` gives:
/// the keys of its assignments that are all upper case, digits and `_`,
/// that the contract registered for `local_name` mentions, or that are
/// made of letters, digits and `_`; and the scalar values assigned to keys
/// of the last sort.
pub fn collect_provided_params(local_name: &str, items: &Vec<AstStatement>) -> (r: ProvidedParams)
    ensures
        strictly_sorted(string_views(r.names@)),
        string_views(r.names@).to_set() == provided_names(local_name@, items@, items@.len() as int),
        bindings_sorted(binding_pairs(r.bindings@)),
        binding_pairs(r.bindings@).to_set() == provided_bindings(items@, items@.len() as int),
{
    let contract_names = explicit_contract_param_names(local_name);
    let mut contract_keys: Vec<Vec<char>> = Vec::new();
    let mut c: usize = 0;
    assert(string_list(contract_names@) =~= string_views(contract_names@));
    while c < contract_names.len()
        invariant
            c <= contract_names.len(),
            views(contract_keys@) == string_views(contract_names@).subrange(0, c as int),
        decreases contract_names.len() - c,
    {
        let ghost before = views(contract_keys@);
        contract_keys.push(chars_of(contract_names[c].as_str()));
        assert(views(contract_keys@) =~= before.push(string_views(contract_names@)[c as int]));
        assert(string_views(contract_names@).subrange(0, c + 1) =~= string_views(contract_names@).subrange(0, c as int).push(
            string_views(contract_names@)[c as int],
        ));
        c = c + 1;
    }
    assert(string_views(contract_names@).subrange(0, contract_names.len() as int) =~= string_views(contract_names@));
    let mut names: Vec<Vec<char>> = Vec::new();
    let mut bindings: Vec<ParamBinding> = Vec::new();
    assert(views(names@).to_set() =~= provided_names(local_name@, items@, 0));
    assert(binding_pairs(bindings@).to_set() =~= provided_bindings(items@, 0));
    let mut i: usize = 0;
    while i < items.len()
        invariant
            i <= items.len(),
            strictly_sorted(views(contract_keys@)),
            forall|p: Seq<char>| views(contract_keys@).contains(p) <==> contract_mentions(local_name@, p),
            strictly_sorted(views(names@)),
            views(names@).to_set() == provided_names(local_name@, items@, i as int),
            bindings_sorted(binding_pairs(bindings@)),
            binding_pairs(bindings@).to_set() == provided_bindings(items@, i as int),
        decreases items.len() - i,
    {
        let ghost before_names = views(names@);
        let ghost before_bindings = binding_pairs(bindings@);
        proof {
            lemma_assigns_step(items@, i as int);
        }
        let stmt = &items[i];
        match stmt {
            AstStatement::Assignment { key, value, .. } => {
                let k = chars_of(key.as_str());
                let named = binding_key(&k);
                let explicit = upper_param_key(&k) || contains_sorted(&contract_keys, &k);
                assert((explicit || named) == names_param(local_name@, key@));
                if explicit || named {
                    insert_unique(&mut names, k);
                }
                if named {
                    match scalar_text_of(value) {
                        Some(text) => {
                            insert_binding(&mut bindings, key.as_str(), text);
                        },
                        None => {},
                    }
                }
                assert(stmt_key(items@[i as int]) == Some(key@));
                assert forall|e: Seq<char>| #[trigger] views(names@).to_set().contains(e) <==> provided_names(
                    local_name@,
                    items@,
                    i + 1,
                ).contains(e) by {
                    assert(views(names@).to_set().contains(e) == views(names@).contains(e));
                    assert(before_names.to_set().contains(e) == before_names.contains(e));
                    assert(provided_names(local_name@, items@, i as int).contains(e) == (names_param(local_name@, e) && assigns_key(items@, i as int, e)));
                    assert(provided_names(local_name@, items@, i + 1).contains(e) == (names_param(local_name@, e) && assigns_key(items@, i + 1, e)));
                }
                assert(views(names@).to_set() =~= provided_names(local_name@, items@, i + 1));
                assert forall|e: (Seq<char>, Seq<char>)| #[trigger] binding_pairs(bindings@).to_set().contains(e)
                    <==> provided_bindings(items@, i + 1).contains(e) by {
                    assert(provided_bindings(items@, i as int).contains(e) == (binding_name(e.0) && assigns_text(items@, i as int, e)));
                    assert(provided_bindings(items@, i + 1).contains(e) == (binding_name(e.0) && assigns_text(items@, i + 1, e)));
                    if named {
                        match value_text(*value) {
                            Some(t) => {
                                assert(stmt_key_text(items@[i as int]) == Some((key@, t)));
                            },
                            None => {
                                assert(stmt_key_text(items@[i as int]) is None);
                            },
                        }
                    } else {
                        if stmt_key_text(items@[i as int]) == Some(e) {
                            assert(e.0 == key@);
                        }
                    }
                }
                assert(binding_pairs(bindings@).to_set() =~= provided_bindings(items@, i + 1));
            },
            _ => {
                assert(stmt_key(items@[i as int]) is None);
                assert(stmt_key_text(items@[i as int]) is None);
                assert(views(names@).to_set() =~= provided_names(local_name@, items@, i + 1));
                assert(binding_pairs(bindings@).to_set() =~= provided_bindings(items@, i + 1));
            },
        }
        i = i + 1;
    }
    let r = ProvidedParams { names: to_strings(&names), bindings };
    r
}

} // verus!
