//! Helpers of the analyses: flag operations and flag name templates, static
//! symbols, and the keys and values that refer to localisation.

use vstd::prelude::*;
use crate::content_family::{normalize_slashes, slash_normalized, split_chars, split_on};
use crate::model::{Finding, FindingChannel, ScopeType, Severity};
use crate::documents::{decimal_chars, decimal_text};
use crate::eu4_builtin::string_views;
use crate::param_contracts::{contract_messages, contract_view, evaluate_param_contract, str_list};
use crate::param_scan::contains_string;
use crate::scope_inference::{resolve_scripted_effect_reference_targets, resolved_targets, SymbolDefinition, SymbolIndex, SymbolKind, SymbolReference};
use crate::paths::{extension, path_extension};
use crate::text::{
    ascii_lower, chars_eq, chars_of, chars_start_with, has_prefix, has_suffix, str_ends_with,
    str_eq, string_of_range, trim_bounds, trimmed,
};

verus! {

#[derive(Clone, Copy, Debug, PartialEq, Eq, Structural)]
pub enum FlagUsageKind {
    Definition,
    Reference,
}

/// What a flag operation acts on (`global`, `country`, ...) and whether it
/// sets the flag or reads it.
#[derive(Clone, Copy, Debug, PartialEq, Eq)]
pub struct FlagOpSpec {
    pub kind: &'static str,
    pub usage: FlagUsageKind,
}

/// The flag operations: setters define a flag, readers and clearers refer
/// to one.
pub open spec fn flag_op(k: Seq<char>) -> Option<(&'static str, FlagUsageKind)> {
    if k == "set_global_flag"@ {
        Some(("global", FlagUsageKind::Definition))
    } else if k == "set_country_flag"@ {
        Some(("country", FlagUsageKind::Definition))
    } else if k == "set_province_flag"@ || k == "set_permanent_province_flag"@ {
        Some(("province", FlagUsageKind::Definition))
    } else if k == "set_ruler_flag"@ {
        Some(("ruler", FlagUsageKind::Definition))
    } else if k == "set_heir_flag"@ {
        Some(("heir", FlagUsageKind::Definition))
    } else if k == "set_consort_flag"@ {
        Some(("consort", FlagUsageKind::Definition))
    } else if k == "has_global_flag"@ || k == "clr_global_flag"@ || k == "had_global_flag"@ {
        Some(("global", FlagUsageKind::Reference))
    } else if k == "has_country_flag"@ || k == "clr_country_flag"@ || k == "had_country_flag"@ {
        Some(("country", FlagUsageKind::Reference))
    } else if k == "has_province_flag"@ || k == "clr_province_flag"@ || k == "had_province_flag"@ {
        Some(("province", FlagUsageKind::Reference))
    } else if k == "has_ruler_flag"@ || k == "clr_ruler_flag"@ || k == "had_ruler_flag"@ {
        Some(("ruler", FlagUsageKind::Reference))
    } else if k == "has_heir_flag"@ || k == "clr_heir_flag"@ || k == "had_heir_flag"@ {
        Some(("heir", FlagUsageKind::Reference))
    } else if k == "has_consort_flag"@ || k == "clr_consort_flag"@ || k == "had_consort_flag"@ {
        Some(("consort", FlagUsageKind::Reference))
    } else {
        None
    }
}

pub fn flag_op_spec(key: &str) -> (r: Option<FlagOpSpec>)
    ensures
        match flag_op(key@) {
            Some((kind, usage)) => r == Some(FlagOpSpec { kind, usage }),
            None => r is None,
        },
{
    let (kind, usage) = if str_eq(key, "set_global_flag") {
        ("global", FlagUsageKind::Definition)
    } else if str_eq(key, "set_country_flag") {
        ("country", FlagUsageKind::Definition)
    } else if str_eq(key, "set_province_flag") || str_eq(key, "set_permanent_province_flag") {
        ("province", FlagUsageKind::Definition)
    } else if str_eq(key, "set_ruler_flag") {
        ("ruler", FlagUsageKind::Definition)
    } else if str_eq(key, "set_heir_flag") {
        ("heir", FlagUsageKind::Definition)
    } else if str_eq(key, "set_consort_flag") {
        ("consort", FlagUsageKind::Definition)
    } else if str_eq(key, "has_global_flag") || str_eq(key, "clr_global_flag") || str_eq(
        key,
        "had_global_flag",
    ) {
        ("global", FlagUsageKind::Reference)
    } else if str_eq(key, "has_country_flag") || str_eq(key, "clr_country_flag") || str_eq(
        key,
        "had_country_flag",
    ) {
        ("country", FlagUsageKind::Reference)
    } else if str_eq(key, "has_province_flag") || str_eq(key, "clr_province_flag") || str_eq(
        key,
        "had_province_flag",
    ) {
        ("province", FlagUsageKind::Reference)
    } else if str_eq(key, "has_ruler_flag") || str_eq(key, "clr_ruler_flag") || str_eq(
        key,
        "had_ruler_flag",
    ) {
        ("ruler", FlagUsageKind::Reference)
    } else if str_eq(key, "has_heir_flag") || str_eq(key, "clr_heir_flag") || str_eq(
        key,
        "had_heir_flag",
    ) {
        ("heir", FlagUsageKind::Reference)
    } else if str_eq(key, "has_consort_flag") || str_eq(key, "clr_consort_flag") || str_eq(
        key,
        "had_consort_flag",
    ) {
        ("consort", FlagUsageKind::Reference)
    } else {
        return None;
    };
    Some(FlagOpSpec { kind, usage })
}

/// The bit of a scope type in a scope mask: country 1, province 2, none
/// for an unknown scope.
pub fn scope_type_mask(scope_type: ScopeType) -> (r: u8)
    ensures
        r == match scope_type {
            ScopeType::Country => 1u8,
            ScopeType::Province => 2u8,
            ScopeType::Unknown => 0u8,
        },
{
    match scope_type {
        ScopeType::Country => 0b01,
        ScopeType::Province => 0b10,
        ScopeType::Unknown => 0,
    }
}

/// A character that may stand in a flag name.
pub open spec fn is_flag_char(c: char) -> bool {
    ('A' <= c <= 'Z') || ('a' <= c <= 'z') || ('0' <= c <= '9') || c == '_' || c == '.' || c
        == '-' || c == ':'
}

pub open spec fn is_flag_literal(s: Seq<char>) -> bool {
    forall|i: int| 0 <= i < s.len() ==> is_flag_char(#[trigger] s[i])
}

fn flag_char(c: char) -> (r: bool)
    ensures
        r == is_flag_char(c),
{
    ('A' <= c && c <= 'Z') || ('a' <= c && c <= 'z') || ('0' <= c && c <= '9') || c == '_' || c
        == '.' || c == '-' || c == ':'
}

fn flag_literal_chars(s: &Vec<char>, lo: usize, hi: usize) -> (r: bool)
    requires
        lo <= hi <= s.len(),
    ensures
        r == is_flag_literal(s@.subrange(lo as int, hi as int)),
{
    let mut i: usize = lo;
    while i < hi
        invariant
            lo <= i <= hi <= s.len(),
            forall|k: int| lo <= k < i ==> is_flag_char(#[trigger] s@[k]),
        decreases hi - i,
    {
        if !flag_char(s[i]) {
            assert(s@.subrange(lo as int, hi as int)[i - lo] == s@[i as int]);
            return false;
        }
        i = i + 1;
    }
    assert forall|k: int| 0 <= k < hi - lo implies is_flag_char(
        #[trigger] s@.subrange(lo as int, hi as int)[k],
    ) by {
        assert(s@.subrange(lo as int, hi as int)[k] == s@[lo + k]);
    }
    true
}

pub fn is_valid_flag_literal(part: &str) -> (r: bool)
    ensures
        r == is_flag_literal(part@),
{
    let cs = chars_of(part);
    assert(cs@.subrange(0, cs.len() as int) =~= cs@);
    flag_literal_chars(&cs, 0, cs.len())
}

/// The characters of `value` without leading and trailing whitespace.
pub fn trim_chars(value: &str) -> (r: Vec<char>)
    ensures
        r@ == trimmed(value@, 0, value@.len() as int),
{
    let cs = chars_of(value);
    let (a, b) = trim_bounds(&cs, 0, cs.len());
    let mut r: Vec<char> = Vec::new();
    let mut i: usize = a;
    while i < b
        invariant
            a <= i <= b <= cs.len(),
            r@ == cs@.subrange(a as int, i as int),
        decreases b - i,
    {
        r.push(cs[i]);
        i = i + 1;
        assert(r@ =~= cs@.subrange(a as int, i as int));
    }
    r
}

/// A character of a template parameter's name.
pub open spec fn is_param_char(c: char) -> bool {
    ('A' <= c <= 'Z') || ('a' <= c <= 'z') || ('0' <= c <= '9') || c == '_'
}

/// The index of the first `$` at or after `from`, or `s.len()`.
pub open spec fn next_dollar(s: Seq<char>, from: int) -> int
    decreases s.len() - from,
{
    if from >= s.len() || from < 0 {
        s.len() as int
    } else if s[from] == '$' {
        from
    } else {
        next_dollar(s, from + 1)
    }
}

/// The end of the run of parameter-name characters that starts at `from`.
pub open spec fn name_end(s: Seq<char>, from: int) -> int
    decreases s.len() - from,
{
    if from >= s.len() || from < 0 || !is_param_char(s[from]) {
        from
    } else {
        name_end(s, from + 1)
    }
}

proof fn lemma_next_dollar(s: Seq<char>, from: int)
    requires
        0 <= from <= s.len(),
    ensures
        from <= next_dollar(s, from) <= s.len(),
        next_dollar(s, from) < s.len() ==> s[next_dollar(s, from)] == '$',
        forall|k: int| from <= k < next_dollar(s, from) ==> s[k] != '$',
    decreases s.len() - from,
{
    if from < s.len() && s[from] != '$' {
        lemma_next_dollar(s, from + 1);
    }
}

proof fn lemma_name_end(s: Seq<char>, from: int)
    requires
        0 <= from <= s.len(),
    ensures
        from <= name_end(s, from) <= s.len(),
        name_end(s, from) < s.len() ==> !is_param_char(s[name_end(s, from)]),
        forall|k: int| from <= k < name_end(s, from) ==> is_param_char(#[trigger] s[k]),
    decreases s.len() - from,
{
    if from < s.len() && is_param_char(s[from]) {
        lemma_name_end(s, from + 1);
    }
}

/// The template of a flag name `prefix$name$suffix`: the trimmed value
/// holds exactly one `$`-delimited parameter, whose name is one or more
/// letters, digits or `_`, and the text around it consists of flag-name
/// characters. The parts are `(name, prefix, suffix)`.
pub open spec fn param_template(value: Seq<char>) -> Option<(Seq<char>, Seq<char>, Seq<char>)> {
    let t = trimmed(value, 0, value.len() as int);
    let i = next_dollar(t, 0);
    let j = name_end(t, i + 1);
    if i < t.len() && j < t.len() && t[j] == '$' && j > i + 1 && next_dollar(t, j + 1) == t.len()
        && is_flag_literal(t.subrange(0, i)) && is_flag_literal(t.subrange(j + 1, t.len() as int)) {
        Some((t.subrange(i + 1, j), t.subrange(0, i), t.subrange(j + 1, t.len() as int)))
    } else {
        None
    }
}

pub fn extract_param_template(value: &str) -> (r: Option<(String, String, String)>)
    ensures
        match param_template(value@) {
            Some((n, p, s)) => r matches Some(t) && t.0@ == n && t.1@ == p && t.2@ == s,
            None => r is None,
        },
{
    let t = trim_chars(value);
    let ghost tv = t@;
    let mut i: usize = 0;
    while i < t.len() && t[i] != '$'
        invariant
            i <= t.len(),
            next_dollar(tv, 0) == next_dollar(tv, i as int),
            tv == t@,
        decreases t.len() - i,
    {
        i = i + 1;
    }
    proof {
        lemma_next_dollar(tv, 0);
    }
    if i == t.len() {
        return None;
    }
    let mut j: usize = i + 1;
    while j < t.len() && (('A' <= t[j] && t[j] <= 'Z') || ('a' <= t[j] && t[j] <= 'z') || ('0'
        <= t[j] && t[j] <= '9') || t[j] == '_')
        invariant
            i < j <= t.len(),
            name_end(tv, i + 1) == name_end(tv, j as int),
            tv == t@,
        decreases t.len() - j,
    {
        j = j + 1;
    }
    if j == t.len() || t[j] != '$' || j == i + 1 {
        return None;
    }
    let mut k: usize = j + 1;
    while k < t.len() && t[k] != '$'
        invariant
            j < k <= t.len(),
            next_dollar(tv, j + 1) == next_dollar(tv, k as int),
            tv == t@,
        decreases t.len() - k,
    {
        k = k + 1;
    }
    if k < t.len() {
        return None;
    }
    if !flag_literal_chars(&t, 0, i) || !flag_literal_chars(&t, j + 1, t.len()) {
        return None;
    }
    Some((string_of_range(&t, i + 1, j), string_of_range(&t, 0, i), string_of_range(&t, j + 1, t.len())))
}

/// `s` contains `pat` as a run of consecutive characters.
pub open spec fn contains_run(s: Seq<char>, pat: Seq<char>) -> bool {
    exists|i: int| 0 <= i && i + pat.len() <= s.len() && #[trigger] s.subrange(i, i + pat.len()) == pat
}

fn chars_contain(s: &Vec<char>, pat: &Vec<char>) -> (r: bool)
    ensures
        r == contains_run(s@, pat@),
{
    if pat.len() > s.len() {
        return false;
    }
    let last = s.len() - pat.len();
    let mut i: usize = 0;
    while i <= last
        invariant
            last == s.len() - pat.len(),
            i <= last + 1,
            forall|k: int| 0 <= k < i ==> #[trigger] s@.subrange(k, k + pat.len()) != pat@,
        decreases last + 1 - i,
    {
        let mut j: usize = 0;
        let mut same = true;
        while same && j < pat.len()
            invariant
                j <= pat.len(),
                i + pat.len() <= s.len(),
                forall|q: int| 0 <= q < j ==> s@[i + q] == pat@[q],
                !same ==> j < pat.len() && s@[i + j] != pat@[j as int],
            decreases pat.len() - j + (if same { 1int } else { 0int }),
        {
            if s[i + j] != pat[j] {
                same = false;
            } else {
                j = j + 1;
            }
        }
        if same {
            assert(s@.subrange(i as int, i + pat.len()) =~= pat@);
            return true;
        }
        assert(s@.subrange(i as int, i + pat.len())[j as int] != pat@[j as int]);
        i = i + 1;
    }
    false
}

/// A static symbol: the trimmed value, where it is non-empty, consists of
/// flag-name characters and names no event target or trigger value
/// (whitespace, `$`, `[`, `]` and `@` are not flag-name characters).
pub open spec fn static_symbol(value: Seq<char>) -> Option<Seq<char>> {
    let t = trimmed(value, 0, value.len() as int);
    if t.len() > 0 && is_flag_literal(t) && !contains_run(t, "event_target:"@) && !contains_run(
        t,
        "trigger_value:"@,
    ) {
        Some(t)
    } else {
        None
    }
}

pub fn normalized_static_symbol(value: &str) -> (r: Option<String>)
    ensures
        match static_symbol(value@) {
            Some(t) => r matches Some(s) && s@ == t,
            None => r is None,
        },
{
    let t = trim_chars(value);
    if t.len() == 0 {
        return None;
    }
    assert(t@.subrange(0, t.len() as int) =~= t@);
    if !flag_literal_chars(&t, 0, t.len()) {
        return None;
    }
    if chars_contain(&t, &chars_of("event_target:")) || chars_contain(&t, &chars_of("trigger_value:")) {
        return None;
    }
    Some(string_of_range(&t, 0, t.len()))
}

/// A flag template found in a scripted effect: `prefix$param$suffix` set or
/// read by a flag operation.
pub struct FlagTemplateUsage {
    pub kind: &'static str,
    pub op_key: String,
    pub param_name: String,
    pub prefix: String,
    pub suffix: String,
    pub path: String,
    pub line: usize,
    pub column: usize,
}

/// The flag that a template names once its parameter is bound: both the
/// bound value and the result must be static symbols.
pub open spec fn applied_template(prefix: Seq<char>, suffix: Seq<char>, bound: Seq<char>) -> Option<Seq<char>> {
    match static_symbol(bound) {
        Some(b) => static_symbol(prefix + b + suffix),
        None => None,
    }
}

pub fn apply_flag_template(template: &FlagTemplateUsage, bound_value: &str) -> (r: Option<String>)
    ensures
        match applied_template(template.prefix@, template.suffix@, bound_value@) {
            Some(t) => r matches Some(s) && s@ == t,
            None => r is None,
        },
{
    let bound = match normalized_static_symbol(bound_value) {
        Some(b) => b,
        None => {
            return None;
        },
    };
    let mut cs = chars_of(template.prefix.as_str());
    cs.append(&mut chars_of(bound.as_str()));
    cs.append(&mut chars_of(template.suffix.as_str()));
    let candidate = crate::text::string_from_chars(cs.as_slice());
    normalized_static_symbol(candidate.as_str())
}

/// A pattern of flag names derived from a templated setter: any flag of the
/// same kind that is `prefix`, one or more flag-name characters, `suffix`.
pub struct TemplatedFlagPattern {
    pub kind: &'static str,
    pub prefix: String,
    pub suffix: String,
}

pub open spec fn pattern_matches(prefix: Seq<char>, suffix: Seq<char>, flag: Seq<char>) -> bool {
    let rest = flag.subrange(prefix.len() as int, flag.len() as int);
    let middle = rest.subrange(0, rest.len() - suffix.len());
    &&& has_prefix(flag, prefix)
    &&& has_suffix(rest, suffix)
    &&& middle.len() > 0
    &&& is_flag_literal(middle)
}

impl TemplatedFlagPattern {
    #[verifier::loop_isolation(false)]
    pub fn matches(&self, kind: &str, flag: &str) -> (r: bool)
        ensures
            r == (self.kind@ == kind@ && pattern_matches(self.prefix@, self.suffix@, flag@)),
    {
        if !str_eq(self.kind, kind) {
            return false;
        }
        let f = chars_of(flag);
        let p = chars_of(self.prefix.as_str());
        let s = chars_of(self.suffix.as_str());
        if !chars_start_with(&f, &p) {
            return false;
        }
        let ghost rest = f@.subrange(p.len() as int, f.len() as int);
        if f.len() - p.len() < s.len() {
            return false;
        }
        let mut k: usize = 0;
        let off = f.len() - s.len();
        while k < s.len()
            invariant
                k <= s.len(),
                p.len() + s.len() <= f.len(),
                off == f.len() - s.len(),
                forall|q: int| 0 <= q < k ==> f@[off + q] == s@[q],
            decreases s.len() - k,
        {
            if f[off + k] != s[k] {
                assert(rest.subrange(rest.len() - s.len(), rest.len() as int)[k as int] != s@[k as int]);
                return false;
            }
            k = k + 1;
        }
        assert(rest.subrange(rest.len() - s.len(), rest.len() as int) =~= s@);
        if off == p.len() {
            return false;
        }
        let ok = flag_literal_chars(&f, p.len(), off);
        assert(rest.subrange(0, rest.len() - s.len()) =~= f@.subrange(p.len() as int, off as int));
        ok
    }
}

pub open spec fn ascii_alpha_count(s: Seq<char>) -> nat
    decreases s.len(),
{
    if s.len() == 0 {
        0
    } else {
        ascii_alpha_count(s.drop_last()) + if ('A' <= s.last() <= 'Z') || ('a' <= s.last() <= 'z') {
            1nat
        } else {
            0nat
        }
    }
}

fn count_ascii_alpha(s: &str) -> (r: usize)
    ensures
        r == ascii_alpha_count(s@),
{
    let cs = chars_of(s);
    let mut n: usize = 0;
    let mut i: usize = 0;
    while i < cs.len()
        invariant
            i <= cs.len(),
            n == ascii_alpha_count(cs@.subrange(0, i as int)),
            n <= i,
        decreases cs.len() - i,
    {
        assert(cs@.subrange(0, i + 1).drop_last() =~= cs@.subrange(0, i as int));
        if ('A' <= cs[i] && cs[i] <= 'Z') || ('a' <= cs[i] && cs[i] <= 'z') {
            n = n + 1;
        }
        i = i + 1;
    }
    assert(cs@.subrange(0, cs.len() as int) =~= cs@);
    n
}

/// A template is specific enough to stand for its flags where its literal
/// text has at least four bytes and at least three ASCII letters; without
/// this a setter like `set_country_flag = $param$` would match every flag.
pub fn templated_pattern_is_specific(prefix: &str, suffix: &str) -> (r: bool)
    ensures
        r == (vstd::utf8::encode_utf8(prefix@).len() + vstd::utf8::encode_utf8(suffix@).len() >= 4
            && ascii_alpha_count(prefix@) + ascii_alpha_count(suffix@) >= 3),
{
    let a = prefix.as_bytes().len();
    let b = suffix.as_bytes().len();
    if a < 4 && b < 4 && a + b < 4 {
        return false;
    }
    let alpha = count_ascii_alpha(prefix);
    let beta = count_ascii_alpha(suffix);
    if alpha >= 3 || beta >= 3 {
        return true;
    }
    alpha + beta >= 3
}

/// A `name` value that looks like a localisation key: it holds a `.` or an
/// ASCII capital, or ends in `_title`, `_desc`, `_tt`, `_tooltip` or
/// `_localization`.
pub open spec fn is_localisation_like_name(v: Seq<char>) -> bool {
    ||| v.contains('.')
    ||| exists|i: int| 0 <= i < v.len() && 'A' <= #[trigger] v[i] <= 'Z'
    ||| has_suffix(v, "_title"@)
    ||| has_suffix(v, "_desc"@)
    ||| has_suffix(v, "_tt"@)
    ||| has_suffix(v, "_tooltip"@)
    ||| has_suffix(v, "_localization"@)
}

pub fn looks_like_localisation_name(value: &str) -> (r: bool)
    ensures
        r == is_localisation_like_name(value@),
{
    let cs = chars_of(value);
    let mut i: usize = 0;
    while i < cs.len()
        invariant
            i <= cs.len(),
            cs@ == value@,
            forall|k: int| 0 <= k < i ==> cs@[k] != '.' && !('A' <= #[trigger] cs@[k] <= 'Z'),
        decreases cs.len() - i,
    {
        if cs[i] == '.' {
            assert(value@[i as int] == '.');
            return true;
        }
        if 'A' <= cs[i] && cs[i] <= 'Z' {
            return true;
        }
        i = i + 1;
    }
    str_ends_with(value, "_title") || str_ends_with(value, "_desc") || str_ends_with(value, "_tt")
        || str_ends_with(value, "_tooltip") || str_ends_with(value, "_localization")
}

/// The keys whose value names a localisation key; `name` only where its
/// value looks like one.
pub open spec fn is_localisation_reference(key: Seq<char>, value: Seq<char>) -> bool {
    if key == "tooltip"@ || key == "custom_tooltip"@ || key == "localisation_key"@ || key == "title"@
        || key == "desc"@ {
        true
    } else if key == "name"@ {
        is_localisation_like_name(value)
    } else {
        false
    }
}

pub fn is_localisation_reference_key(key: &str, value: &str) -> (r: bool)
    ensures
        r == is_localisation_reference(key@, value@),
{
    if str_eq(key, "tooltip") || str_eq(key, "custom_tooltip") || str_eq(key, "localisation_key")
        || str_eq(key, "title") || str_eq(key, "desc") {
        true
    } else if str_eq(key, "name") {
        looks_like_localisation_name(value)
    } else {
        false
    }
}

/// Values of such keys that are no localisation key: `yes`, `no`, and
/// numbers (template indices).
pub open spec fn is_non_localisation(v: Seq<char>) -> bool {
    v == "yes"@ || v == "no"@ || (v.len() > 0 && forall|i: int| 0 <= i < v.len() ==> '0' <= #[trigger] v[i] <= '9')
}

#[verifier::loop_isolation(false)]
pub fn is_non_localisation_literal(value: &str) -> (r: bool)
    ensures
        r == is_non_localisation(value@),
{
    if str_eq(value, "yes") || str_eq(value, "no") {
        return true;
    }
    let cs = chars_of(value);
    if cs.len() == 0 {
        return false;
    }
    let mut i: usize = 0;
    while i < cs.len()
        invariant
            i <= cs.len(),
            cs@ == value@,
            forall|k: int| 0 <= k < i ==> '0' <= #[trigger] cs@[k] <= '9',
        decreases cs.len() - i,
    {
        if !('0' <= cs[i] && cs[i] <= '9') {
            return false;
        }
        i = i + 1;
    }
    true
}

/// Files whose `name`, `tooltip`, `title` and `desc` fields are structural
/// identifiers (GUI element and sprite names, customizable localisation
/// macros, map names), not localisation keys: `.gui` and `.gfx` files, the
/// top directories `interface`, `gfx`, `map`, `tweakergui_assets` and
/// `customizable_localization`, and `common/custom_gui/`.
pub open spec fn disables_localisation_check(path: Seq<char>) -> bool {
    let top = split_on(slash_normalized(path), '/')[0];
    ||| (extension(path) matches Some(e) && (crate::text::lower_seq(e) == "gui"@
        || crate::text::lower_seq(e) == "gfx"@))
    ||| top == "interface"@
    ||| top == "gfx"@
    ||| top == "map"@
    ||| top == "tweakergui_assets"@
    ||| top == "customizable_localization"@
    ||| has_prefix(slash_normalized(path), "common/custom_gui/"@)
}

pub fn path_disables_localisation_reference_check(path: &str) -> (r: bool)
    ensures
        r == disables_localisation_check(path@),
{
    proof {
        crate::content_family::lemma_split_on_nonempty(slash_normalized(path@), '/');
    }
    let ext_hit = match path_extension(path) {
        Some(ext) => {
            let lower = crate::text::lower_chars(&chars_of(ext.as_str()));
            chars_eq(&lower, &chars_of("gui")) || chars_eq(&lower, &chars_of("gfx"))
        },
        None => false,
    };
    if ext_hit {
        return true;
    }
    let normalized = normalize_slashes(path);
    let parts = split_chars(&normalized, '/');
    let top = &parts[0];
    if chars_eq(top, &chars_of("interface")) || chars_eq(top, &chars_of("gfx")) || chars_eq(
        top,
        &chars_of("map"),
    ) || chars_eq(top, &chars_of("tweakergui_assets")) || chars_eq(
        top,
        &chars_of("customizable_localization"),
    ) {
        return true;
    }
    chars_start_with(&normalized, &chars_of("common/custom_gui/"))
}


/// The message for a parameter `req` that a call of `name` leaves unbound.
pub open spec fn unbound_message(name: Seq<char>, req: Seq<char>) -> Seq<char> {
    "unbound parameter: "@ + name + " missing "@ + req
}

/// The messages for the required parameters that a call of `name` neither
/// gives nor may omit, in the order they are required.
pub open spec fn fallback_messages(
    required: Seq<Seq<char>>,
    optional: Seq<Seq<char>>,
    name: Seq<char>,
    provided: Seq<Seq<char>>,
) -> Seq<Seq<char>>
    decreases required.len(),
{
    if required.len() == 0 {
        Seq::empty()
    } else {
        let rest = fallback_messages(required.drop_last(), optional, name, provided);
        let r = required.last();
        if !provided.contains(r) && !optional.contains(r) {
            rest.push(unbound_message(name, r))
        } else {
            rest
        }
    }
}

/// The messages for a call: for a call of a scripted effect that resolves
/// to a definition, what the first definition's contract finds missing, or,
/// where it has none, each of its required parameters that the call does
/// not give and that is not optional.
pub open spec fn reference_messages(defs: Seq<SymbolDefinition>, r: SymbolReference) -> Seq<Seq<char>> {
    let t = resolved_targets(defs, r, SymbolKind::ScriptedEffect);
    if r.kind != SymbolKind::ScriptedEffect || t.len() == 0 || t[0] >= defs.len() {
        Seq::empty()
    } else {
        let d = defs[t[0] as int];
        match d.param_contract {
            Some(c) => contract_messages(contract_view(c), r.name@, string_views(r.provided_params@)),
            None => fallback_messages(
                string_views(d.required_params@),
                string_views(d.optional_params@),
                r.name@,
                string_views(r.provided_params@),
            ),
        }
    }
}

/// The messages of the calls `refs`, each with the position of its call.
pub open spec fn candidate_messages(defs: Seq<SymbolDefinition>, refs: Seq<SymbolReference>) -> Seq<(int, Seq<char>)>
    decreases refs.len(),
{
    if refs.len() == 0 {
        Seq::empty()
    } else {
        candidate_messages(defs, refs.drop_last()) + reference_messages(defs, refs.last()).map_values(
            |m: Seq<char>| ((refs.len() - 1) as int, m),
        )
    }
}

/// What tells two findings apart: the path, line and column of the call
/// and the message.
pub open spec fn message_key(refs: Seq<SymbolReference>, c: (int, Seq<char>)) -> (Seq<char>, usize, usize, Seq<char>) {
    (refs[c.0].path@, refs[c.0].line, refs[c.0].column, c.1)
}

/// The first of the messages with each key, in order.
pub open spec fn first_of_each(refs: Seq<SymbolReference>, c: Seq<(int, Seq<char>)>) -> Seq<(int, Seq<char>)>
    decreases c.len(),
{
    if c.len() == 0 {
        Seq::empty()
    } else {
        let prev = first_of_each(refs, c.drop_last());
        if exists|k: int| 0 <= k < prev.len() && message_key(refs, #[trigger] prev[k]) == message_key(refs, c.last()) {
            prev
        } else {
            prev.push(c.last())
        }
    }
}

/// The finding `f` reports the message `c.1` about the call `refs[c.0]`: a
/// strict error of the rule `S004`, at the call, with the place of the
/// definition as evidence.
pub open spec fn reports_missing(defs: Seq<SymbolDefinition>, refs: Seq<SymbolReference>, c: (int, Seq<char>), f: Finding) -> bool {
    let r = refs[c.0];
    let d = defs[resolved_targets(defs, r, SymbolKind::ScriptedEffect)[0] as int];
    &&& f.rule_id@ == "S004"@
    &&& f.severity == Severity::Error
    &&& f.channel == FindingChannel::Strict
    &&& f.message@ == c.1
    &&& f.mod_id matches Some(m) && m@ == r.mod_id@
    &&& f.path matches Some(p) && p@ == r.path@
    &&& f.evidence matches Some(e) && e@ == "definition location "@ + d.path@ + ":"@ + decimal_text(d.line as nat)
    &&& f.line == Some(r.line)
    &&& f.column == Some(r.column)
    &&& f.confidence_percent == Some(88u8)
}

fn fallback_missing(d: &SymbolDefinition, r: &SymbolReference) -> (m: Vec<String>)
    ensures
        string_views(m@) == fallback_messages(
            string_views(d.required_params@),
            string_views(d.optional_params@),
            r.name@,
            string_views(r.provided_params@),
        ),
{
    let mut out: Vec<String> = Vec::new();
    let mut i: usize = 0;
    let ghost req = string_views(d.required_params@);
    assert(req.subrange(0, 0) =~= Seq::<Seq<char>>::empty());
    while i < d.required_params.len()
        invariant
            i <= d.required_params.len(),
            req == string_views(d.required_params@),
            string_views(out@) == fallback_messages(
                req.subrange(0, i as int),
                string_views(d.optional_params@),
                r.name@,
                string_views(r.provided_params@),
            ),
        decreases d.required_params.len() - i,
    {
        let q = d.required_params[i].as_str();
        let ghost pre = req.subrange(0, i + 1);
        assert(pre.drop_last() =~= req.subrange(0, i as int));
        assert(pre.last() == q@);
        if !contains_string(&r.provided_params, q) && !contains_string(&d.optional_params, q) {
            let mut msg = chars_of("unbound parameter: ");
            msg.append(&mut chars_of(r.name.as_str()));
            msg.append(&mut chars_of(" missing "));
            msg.append(&mut chars_of(q));
            let text = crate::text::string_from_chars(msg.as_slice());
            assert(text@ =~= unbound_message(r.name@, q@));
            let ghost before = string_views(out@);
            out.push(text);
            assert(string_views(out@) =~= before.push(unbound_message(r.name@, q@)));
        }
        i = i + 1;
    }
    assert(req.subrange(0, d.required_params.len() as int) =~= req);
    out
}

fn provided_strs(v: &Vec<String>) -> (r: Vec<&str>)
    ensures
        str_list(r@) == string_views(v@),
{
    let mut out: Vec<&str> = Vec::new();
    let mut i: usize = 0;
    while i < v.len()
        invariant
            i <= v.len(),
            str_list(out@) == string_views(v@).subrange(0, i as int),
        decreases v.len() - i,
    {
        let ghost before = str_list(out@);
        out.push(v[i].as_str());
        assert(str_list(out@) =~= before.push(string_views(v@)[i as int]));
        assert(string_views(v@).subrange(0, i + 1) =~= string_views(v@).subrange(0, i as int).push(
            string_views(v@)[i as int],
        ));
        i = i + 1;
    }
    assert(string_views(v@).subrange(0, v.len() as int) =~= string_views(v@));
    out
}

/// The messages for one call, and the definition it resolves to.
fn reference_missing(index: &SymbolIndex, r: &SymbolReference) -> (m: (Vec<String>, usize))
    ensures
        string_views(m.0@) == reference_messages(index.definitions@, *r),
        m.0@.len() > 0 ==> m.1 == resolved_targets(index.definitions@, *r, SymbolKind::ScriptedEffect)[0]
            && m.1 < index.definitions@.len(),
{
    if r.kind != SymbolKind::ScriptedEffect {
        let e: Vec<String> = Vec::new();
        assert(string_views(e@) =~= Seq::<Seq<char>>::empty());
        return (e, 0);
    }
    let targets = resolve_scripted_effect_reference_targets(index, r);
    if targets.len() == 0 || targets[0] >= index.definitions.len() {
        let e: Vec<String> = Vec::new();
        assert(string_views(e@) =~= Seq::<Seq<char>>::empty());
        return (e, 0);
    }
    let t = targets[0];
    let d = &index.definitions[t];
    match &d.param_contract {
        Some(c) => {
            let provided = provided_strs(&r.provided_params);
            let msgs = evaluate_param_contract(c, r.name.as_str(), provided.as_slice());
            assert(crate::param_contracts::string_list(msgs@) =~= string_views(msgs@));
            (msgs, t)
        },
        None => (fallback_missing(d, r), t),
    }
}

fn same_text(a: &Option<String>, b: &str) -> (r: bool)
    ensures
        r == (a matches Some(x) && x@ == b@),
{
    match a {
        Some(x) => str_eq(x.as_str(), b),
        None => false,
    }
}

proof fn lemma_candidates_step(defs: Seq<SymbolDefinition>, refs: Seq<SymbolReference>, i: int)
    requires
        0 <= i < refs.len(),
    ensures
        candidate_messages(defs, refs.take(i + 1)) == candidate_messages(defs, refs.take(i))
            + reference_messages(defs, refs[i]).map_values(|m: Seq<char>| (i, m)),
{
    let t = refs.take(i + 1);
    assert(t.drop_last() =~= refs.take(i));
    assert(t.last() == refs[i]);
}

/// The calls of scripted effects that leave parameters unbound: for each
/// call, in order, each message of what its definition's contract finds
/// missing (or, without a contract, of each required parameter neither
/// given nor optional), reported once per call place and message.
pub fn check_missing_effect_parameters(index: &SymbolIndex) -> (r: Vec<Finding>)
    ensures
        r@.len() == first_of_each(
            index.references@,
            candidate_messages(index.definitions@, index.references@),
        ).len(),
        forall|j: int|
            0 <= j < r@.len() ==> reports_missing(
                index.definitions@,
                index.references@,
                first_of_each(index.references@, candidate_messages(index.definitions@, index.references@))[j],
                #[trigger] r@[j],
            ),
{
    let ghost defs = index.definitions@;
    let ghost refs = index.references@;
    let mut findings: Vec<Finding> = Vec::new();
    let mut i: usize = 0;
    assert(refs.take(0) =~= Seq::<SymbolReference>::empty());
    while i < index.references.len()
        invariant
            i <= index.references.len(),
            defs == index.definitions@,
            refs == index.references@,
            findings@.len() == first_of_each(refs, candidate_messages(defs, refs.take(i as int))).len(),
            forall|j: int|
                0 <= j < findings@.len() ==> reports_missing(
                    defs,
                    refs,
                    first_of_each(refs, candidate_messages(defs, refs.take(i as int)))[j],
                    #[trigger] findings@[j],
                ),
            forall|j: int|
                0 <= j < findings@.len() ==> 0 <= (#[trigger] first_of_each(refs, candidate_messages(defs, refs.take(i as int)))[j]).0 < i,
        decreases index.references.len() - i,
    {
        let r = &index.references[i];
        let (msgs, t) = reference_missing(index, r);
        let ghost base = candidate_messages(defs, refs.take(i as int));
        let ghost mapped = reference_messages(defs, refs[i as int]).map_values(|m: Seq<char>| (i as int, m));
        proof {
            lemma_candidates_step(defs, refs, i as int);
        }
        let mut k: usize = 0;
        assert(base + mapped.take(0) =~= base);
        while k < msgs.len()
            invariant
                k <= msgs.len(),
                i < index.references.len(),
                defs == index.definitions@,
                refs == index.references@,
                *r == refs[i as int],
                string_views(msgs@) == reference_messages(defs, refs[i as int]),
                msgs@.len() > 0 ==> t == resolved_targets(defs, refs[i as int], SymbolKind::ScriptedEffect)[0] && t < defs.len(),
                mapped == reference_messages(defs, refs[i as int]).map_values(|m: Seq<char>| (i as int, m)),
                findings@.len() == first_of_each(refs, base + mapped.take(k as int)).len(),
                forall|j: int|
                    0 <= j < findings@.len() ==> reports_missing(
                        defs,
                        refs,
                        first_of_each(refs, base + mapped.take(k as int))[j],
                        #[trigger] findings@[j],
                    ),
                forall|j: int|
                    0 <= j < findings@.len() ==> 0 <= (#[trigger] first_of_each(refs, base + mapped.take(k as int))[j]).0 <= i,
            decreases msgs.len() - k,
        {
            let ghost kept = first_of_each(refs, base + mapped.take(k as int));
            let ghost c = base + mapped.take(k + 1);
            assert(c.drop_last() =~= base + mapped.take(k as int));
            assert(c.last() == (i as int, msgs@[k as int]@));
            let message = msgs[k].as_str();
            let mut found = false;
            let mut q: usize = 0;
            while q < findings.len()
                invariant
                    q <= findings.len(),
                    findings@.len() == kept.len(),
                    forall|j: int| 0 <= j < findings@.len() ==> reports_missing(defs, refs, kept[j], #[trigger] findings@[j]),
                    forall|j: int| 0 <= j < findings@.len() ==> 0 <= (#[trigger] kept[j]).0 <= i,
                    *r == refs[i as int],
                    found == exists|j: int| 0 <= j < q && message_key(refs, #[trigger] kept[j]) == message_key(refs, (i as int, message@)),
                decreases findings.len() - q,
            {
                let fq = &findings[q];
                assert(reports_missing(defs, refs, kept[q as int], findings@[q as int]));
                let same = same_text(&fq.path, r.path.as_str()) && fq.line == Some(r.line) && fq.column
                    == Some(r.column) && str_eq(fq.message.as_str(), message);
                assert(same == (message_key(refs, kept[q as int]) == message_key(refs, (i as int, message@))));
                if same {
                    found = true;
                }
                q = q + 1;
            }
            if !found {
                let d = &index.definitions[t];
                let mut evidence = chars_of("definition location ");
                evidence.append(&mut chars_of(d.path.as_str()));
                evidence.push(':');
                evidence.append(&mut decimal_chars(d.line));
                let evidence_text = crate::text::string_from_chars(evidence.as_slice());
                proof {
                    reveal_strlit(":");
                }
                assert(evidence_text@ =~= "definition location "@ + d.path@ + ":"@ + decimal_text(d.line as nat));
                let finding = Finding {
                    rule_id: "S004".to_owned(),
                    severity: Severity::Error,
                    channel: FindingChannel::Strict,
                    message: msgs[k].clone(),
                    mod_id: Some(r.mod_id.clone()),
                    path: Some(r.path.clone()),
                    evidence: Some(evidence_text),
                    line: Some(r.line),
                    column: Some(r.column),
                    confidence_percent: Some(88u8),
                };
                findings.push(finding);
            }
            k = k + 1;
        }
        assert(mapped.take(msgs.len() as int) =~= mapped);
        i = i + 1;
    }
    assert(refs.take(refs.len() as int) =~= refs);
    findings
}


/// `k` ends with `suffix`.
pub open spec fn ends_with(k: Seq<char>, suffix: Seq<char>) -> bool {
    k.len() >= suffix.len() && k.subrange(k.len() - suffix.len(), k.len() as int) == suffix
}

/// A setter and the readers of one flag family share its kind: every flag
/// key names its kind just before `_flag`; a key that
/// reads flags of some kind has the setter `set_<kind>_flag`, which sets
/// flags of that kind; a key that sets flags of some kind has the readers
/// `has_<kind>_flag`, `clr_<kind>_flag` and `had_<kind>_flag`, which read
/// flags of that kind.
pub proof fn lemma_flag_setters_and_readers_share_kinds(k: Seq<char>)
    ensures
        flag_op(k) matches Some((kind, _u)) ==> ends_with(k, kind@ + "_flag"@),
        flag_op(k) matches Some((kind, FlagUsageKind::Reference)) ==> flag_op("set_"@ + kind@ + "_flag"@) == Some(
            (kind, FlagUsageKind::Definition),
        ),
        flag_op(k) matches Some((kind, FlagUsageKind::Definition)) ==> {
            &&& flag_op("has_"@ + kind@ + "_flag"@) == Some((kind, FlagUsageKind::Reference))
            &&& flag_op("clr_"@ + kind@ + "_flag"@) == Some((kind, FlagUsageKind::Reference))
            &&& flag_op("had_"@ + kind@ + "_flag"@) == Some((kind, FlagUsageKind::Reference))
        },
{
    reveal_strlit("set_");
    reveal_strlit("has_");
    reveal_strlit("clr_");
    reveal_strlit("had_");
    reveal_strlit("_flag");
    reveal_strlit("global");
    reveal_strlit("country");
    reveal_strlit("province");
    reveal_strlit("ruler");
    reveal_strlit("heir");
    reveal_strlit("consort");
    reveal_strlit("set_global_flag");
    reveal_strlit("set_country_flag");
    reveal_strlit("set_province_flag");
    reveal_strlit("set_permanent_province_flag");
    reveal_strlit("set_ruler_flag");
    reveal_strlit("set_heir_flag");
    reveal_strlit("set_consort_flag");
    reveal_strlit("has_global_flag");
    reveal_strlit("clr_global_flag");
    reveal_strlit("had_global_flag");
    reveal_strlit("has_country_flag");
    reveal_strlit("clr_country_flag");
    reveal_strlit("had_country_flag");
    reveal_strlit("has_province_flag");
    reveal_strlit("clr_province_flag");
    reveal_strlit("had_province_flag");
    reveal_strlit("has_ruler_flag");
    reveal_strlit("clr_ruler_flag");
    reveal_strlit("had_ruler_flag");
    reveal_strlit("has_heir_flag");
    reveal_strlit("clr_heir_flag");
    reveal_strlit("had_heir_flag");
    reveal_strlit("has_consort_flag");
    reveal_strlit("clr_consort_flag");
    reveal_strlit("had_consort_flag");
    assert("set_global_flag"@[0] == 's' && "set_global_flag"@[2] == 't' && "set_global_flag"@[4] == 'g' && "set_global_flag"@[5] == 'l' && "set_global_flag"@[6] == 'o');
    assert("set_country_flag"@[0] == 's' && "set_country_flag"@[2] == 't' && "set_country_flag"@[4] == 'c' && "set_country_flag"@[5] == 'o' && "set_country_flag"@[6] == 'u');
    assert("set_province_flag"@[0] == 's' && "set_province_flag"@[2] == 't' && "set_province_flag"@[4] == 'p' && "set_province_flag"@[5] == 'r' && "set_province_flag"@[6] == 'o');
    assert("set_permanent_province_flag"@[0] == 's' && "set_permanent_province_flag"@[2] == 't' && "set_permanent_province_flag"@[4] == 'p' && "set_permanent_province_flag"@[5] == 'e' && "set_permanent_province_flag"@[6] == 'r');
    assert("set_ruler_flag"@[0] == 's' && "set_ruler_flag"@[2] == 't' && "set_ruler_flag"@[4] == 'r' && "set_ruler_flag"@[5] == 'u' && "set_ruler_flag"@[6] == 'l');
    assert("set_heir_flag"@[0] == 's' && "set_heir_flag"@[2] == 't' && "set_heir_flag"@[4] == 'h' && "set_heir_flag"@[5] == 'e' && "set_heir_flag"@[6] == 'i');
    assert("set_consort_flag"@[0] == 's' && "set_consort_flag"@[2] == 't' && "set_consort_flag"@[4] == 'c' && "set_consort_flag"@[5] == 'o' && "set_consort_flag"@[6] == 'n');
    assert("has_global_flag"@[0] == 'h' && "has_global_flag"@[2] == 's' && "has_global_flag"@[4] == 'g' && "has_global_flag"@[5] == 'l' && "has_global_flag"@[6] == 'o');
    assert("clr_global_flag"@[0] == 'c' && "clr_global_flag"@[2] == 'r' && "clr_global_flag"@[4] == 'g' && "clr_global_flag"@[5] == 'l' && "clr_global_flag"@[6] == 'o');
    assert("had_global_flag"@[0] == 'h' && "had_global_flag"@[2] == 'd' && "had_global_flag"@[4] == 'g' && "had_global_flag"@[5] == 'l' && "had_global_flag"@[6] == 'o');
    assert("has_country_flag"@[0] == 'h' && "has_country_flag"@[2] == 's' && "has_country_flag"@[4] == 'c' && "has_country_flag"@[5] == 'o' && "has_country_flag"@[6] == 'u');
    assert("clr_country_flag"@[0] == 'c' && "clr_country_flag"@[2] == 'r' && "clr_country_flag"@[4] == 'c' && "clr_country_flag"@[5] == 'o' && "clr_country_flag"@[6] == 'u');
    assert("had_country_flag"@[0] == 'h' && "had_country_flag"@[2] == 'd' && "had_country_flag"@[4] == 'c' && "had_country_flag"@[5] == 'o' && "had_country_flag"@[6] == 'u');
    assert("has_province_flag"@[0] == 'h' && "has_province_flag"@[2] == 's' && "has_province_flag"@[4] == 'p' && "has_province_flag"@[5] == 'r' && "has_province_flag"@[6] == 'o');
    assert("clr_province_flag"@[0] == 'c' && "clr_province_flag"@[2] == 'r' && "clr_province_flag"@[4] == 'p' && "clr_province_flag"@[5] == 'r' && "clr_province_flag"@[6] == 'o');
    assert("had_province_flag"@[0] == 'h' && "had_province_flag"@[2] == 'd' && "had_province_flag"@[4] == 'p' && "had_province_flag"@[5] == 'r' && "had_province_flag"@[6] == 'o');
    assert("has_ruler_flag"@[0] == 'h' && "has_ruler_flag"@[2] == 's' && "has_ruler_flag"@[4] == 'r' && "has_ruler_flag"@[5] == 'u' && "has_ruler_flag"@[6] == 'l');
    assert("clr_ruler_flag"@[0] == 'c' && "clr_ruler_flag"@[2] == 'r' && "clr_ruler_flag"@[4] == 'r' && "clr_ruler_flag"@[5] == 'u' && "clr_ruler_flag"@[6] == 'l');
    assert("had_ruler_flag"@[0] == 'h' && "had_ruler_flag"@[2] == 'd' && "had_ruler_flag"@[4] == 'r' && "had_ruler_flag"@[5] == 'u' && "had_ruler_flag"@[6] == 'l');
    assert("has_heir_flag"@[0] == 'h' && "has_heir_flag"@[2] == 's' && "has_heir_flag"@[4] == 'h' && "has_heir_flag"@[5] == 'e' && "has_heir_flag"@[6] == 'i');
    assert("clr_heir_flag"@[0] == 'c' && "clr_heir_flag"@[2] == 'r' && "clr_heir_flag"@[4] == 'h' && "clr_heir_flag"@[5] == 'e' && "clr_heir_flag"@[6] == 'i');
    assert("had_heir_flag"@[0] == 'h' && "had_heir_flag"@[2] == 'd' && "had_heir_flag"@[4] == 'h' && "had_heir_flag"@[5] == 'e' && "had_heir_flag"@[6] == 'i');
    assert("has_consort_flag"@[0] == 'h' && "has_consort_flag"@[2] == 's' && "has_consort_flag"@[4] == 'c' && "has_consort_flag"@[5] == 'o' && "has_consort_flag"@[6] == 'n');
    assert("clr_consort_flag"@[0] == 'c' && "clr_consort_flag"@[2] == 'r' && "clr_consort_flag"@[4] == 'c' && "clr_consort_flag"@[5] == 'o' && "clr_consort_flag"@[6] == 'n');
    assert("had_consort_flag"@[0] == 'h' && "had_consort_flag"@[2] == 'd' && "had_consort_flag"@[4] == 'c' && "had_consort_flag"@[5] == 'o' && "had_consort_flag"@[6] == 'n');
    match flag_op(k) {
        Some((kind, usage)) => {
            let kv = kind@;
            assert(kind == "global" || kind == "country" || kind == "province" || kind == "ruler" || kind == "heir" || kind == "consort");
            if k == "set_global_flag"@ {
                assert(k.subrange(k.len() - (kv.len() + 5), k.len() as int) =~= kv + "_flag"@);
            }             else if k == "set_country_flag"@ {
                assert(k.subrange(k.len() - (kv.len() + 5), k.len() as int) =~= kv + "_flag"@);
            }             else if k == "set_province_flag"@ {
                assert(k.subrange(k.len() - (kv.len() + 5), k.len() as int) =~= kv + "_flag"@);
            }             else if k == "set_permanent_province_flag"@ {
                assert(k.subrange(k.len() - (kv.len() + 5), k.len() as int) =~= kv + "_flag"@);
            }             else if k == "set_ruler_flag"@ {
                assert(k.subrange(k.len() - (kv.len() + 5), k.len() as int) =~= kv + "_flag"@);
            }             else if k == "set_heir_flag"@ {
                assert(k.subrange(k.len() - (kv.len() + 5), k.len() as int) =~= kv + "_flag"@);
            }             else if k == "set_consort_flag"@ {
                assert(k.subrange(k.len() - (kv.len() + 5), k.len() as int) =~= kv + "_flag"@);
            }             else if k == "has_global_flag"@ {
                assert(k.subrange(k.len() - (kv.len() + 5), k.len() as int) =~= kv + "_flag"@);
            }             else if k == "clr_global_flag"@ {
                assert(k.subrange(k.len() - (kv.len() + 5), k.len() as int) =~= kv + "_flag"@);
            }             else if k == "had_global_flag"@ {
                assert(k.subrange(k.len() - (kv.len() + 5), k.len() as int) =~= kv + "_flag"@);
            }             else if k == "has_country_flag"@ {
                assert(k.subrange(k.len() - (kv.len() + 5), k.len() as int) =~= kv + "_flag"@);
            }             else if k == "clr_country_flag"@ {
                assert(k.subrange(k.len() - (kv.len() + 5), k.len() as int) =~= kv + "_flag"@);
            }             else if k == "had_country_flag"@ {
                assert(k.subrange(k.len() - (kv.len() + 5), k.len() as int) =~= kv + "_flag"@);
            }             else if k == "has_province_flag"@ {
                assert(k.subrange(k.len() - (kv.len() + 5), k.len() as int) =~= kv + "_flag"@);
            }             else if k == "clr_province_flag"@ {
                assert(k.subrange(k.len() - (kv.len() + 5), k.len() as int) =~= kv + "_flag"@);
            }             else if k == "had_province_flag"@ {
                assert(k.subrange(k.len() - (kv.len() + 5), k.len() as int) =~= kv + "_flag"@);
            }             else if k == "has_ruler_flag"@ {
                assert(k.subrange(k.len() - (kv.len() + 5), k.len() as int) =~= kv + "_flag"@);
            }             else if k == "clr_ruler_flag"@ {
                assert(k.subrange(k.len() - (kv.len() + 5), k.len() as int) =~= kv + "_flag"@);
            }             else if k == "had_ruler_flag"@ {
                assert(k.subrange(k.len() - (kv.len() + 5), k.len() as int) =~= kv + "_flag"@);
            }             else if k == "has_heir_flag"@ {
                assert(k.subrange(k.len() - (kv.len() + 5), k.len() as int) =~= kv + "_flag"@);
            }             else if k == "clr_heir_flag"@ {
                assert(k.subrange(k.len() - (kv.len() + 5), k.len() as int) =~= kv + "_flag"@);
            }             else if k == "had_heir_flag"@ {
                assert(k.subrange(k.len() - (kv.len() + 5), k.len() as int) =~= kv + "_flag"@);
            }             else if k == "has_consort_flag"@ {
                assert(k.subrange(k.len() - (kv.len() + 5), k.len() as int) =~= kv + "_flag"@);
            }             else if k == "clr_consort_flag"@ {
                assert(k.subrange(k.len() - (kv.len() + 5), k.len() as int) =~= kv + "_flag"@);
            }             else if k == "had_consort_flag"@ {
                assert(k.subrange(k.len() - (kv.len() + 5), k.len() as int) =~= kv + "_flag"@);
            }
            let s = "set_"@ + kv + "_flag"@;
            let h = "has_"@ + kv + "_flag"@;
            let c = "clr_"@ + kv + "_flag"@;
            let d = "had_"@ + kv + "_flag"@;
            if kind == "global" {
                assert(s =~= "set_global_flag"@);
                assert(h =~= "has_global_flag"@);
                assert(c =~= "clr_global_flag"@);
                assert(d =~= "had_global_flag"@);
            } else if kind == "country" {
                assert(s =~= "set_country_flag"@);
                assert(h =~= "has_country_flag"@);
                assert(c =~= "clr_country_flag"@);
                assert(d =~= "had_country_flag"@);
            } else if kind == "province" {
                assert(s =~= "set_province_flag"@);
                assert(h =~= "has_province_flag"@);
                assert(c =~= "clr_province_flag"@);
                assert(d =~= "had_province_flag"@);
            } else if kind == "ruler" {
                assert(s =~= "set_ruler_flag"@);
                assert(h =~= "has_ruler_flag"@);
                assert(c =~= "clr_ruler_flag"@);
                assert(d =~= "had_ruler_flag"@);
            } else if kind == "heir" {
                assert(s =~= "set_heir_flag"@);
                assert(h =~= "has_heir_flag"@);
                assert(c =~= "clr_heir_flag"@);
                assert(d =~= "had_heir_flag"@);
            } else {
                assert(s =~= "set_consort_flag"@);
                assert(h =~= "has_consort_flag"@);
                assert(c =~= "clr_consort_flag"@);
                assert(d =~= "had_consort_flag"@);
            }
        },
        None => {},
    }
}

} // verus!
