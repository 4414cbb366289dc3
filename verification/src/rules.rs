//! Helpers of the mod-set rules: game versions as descriptors write them,
//! and the paths whose files can be merged structurally.

use vstd::prelude::*;
use std::cmp::Ordering;
use crate::content_family::{char_views, normalize_slashes, slash_normalized, split_chars, split_on};
use crate::scope_rules::{all_digits, parse_u32, parse_u32_text};
use crate::text::{
    chars_eq, chars_of, chars_start_with, chars_end_with, first_stop, has_prefix, has_suffix,
    last_keep_end, lemma_first_stop_bounds, lemma_last_keep_end_bounds, lower_chars, lower_seq,
    string_of_range, trim_bounds, trimmed,
};

verus! {

/// The major and minor number of a game version.
#[derive(Clone, Copy, Debug, PartialEq, Eq, Structural)]
pub struct ParsedGameVersion {
    pub major: u32,
    pub minor: u32,
}

impl ParsedGameVersion {
    /// Versions ordered by major, then minor number.
    pub fn cmp_major_minor(&self, other: &Self) -> (r: Ordering)
        ensures
            r == (if self.major < other.major {
                Ordering::Less
            } else if self.major > other.major {
                Ordering::Greater
            } else if self.minor < other.minor {
                Ordering::Less
            } else if self.minor > other.minor {
                Ordering::Greater
            } else {
                Ordering::Equal
            }),
    {
        if self.major < other.major {
            Ordering::Less
        } else if self.major > other.major {
            Ordering::Greater
        } else if self.minor < other.minor {
            Ordering::Less
        } else if self.minor > other.minor {
            Ordering::Greater
        } else {
            Ordering::Equal
        }
    }
}

/// The trimmed characters of `s`.
fn trimmed_chars(s: &Vec<char>) -> (r: Vec<char>)
    ensures
        r@ == trimmed(s@, 0, s@.len() as int),
{
    let (a, b) = trim_bounds(s, 0, s.len());
    let mut r: Vec<char> = Vec::new();
    let mut i: usize = a;
    while i < b
        invariant
            a <= i <= b <= s.len(),
            r@ == s@.subrange(a as int, i as int),
        decreases b - i,
    {
        r.push(s[i]);
        i = i + 1;
        assert(r@ =~= s@.subrange(a as int, i as int));
    }
    r
}

/// One number of a version: after trimming, one or more ASCII digits whose
/// value fits in 32 bits.
pub open spec fn version_component(v: Seq<char>) -> Option<u32> {
    let t = trimmed(v, 0, v.len() as int);
    if t.len() > 0 && all_digits(t) {
        parse_u32(t)
    } else {
        None
    }
}

#[verifier::loop_isolation(false)]
fn component_of(v: &Vec<char>) -> (r: Option<u32>)
    ensures
        r == version_component(v@),
{
    let t = trimmed_chars(v);
    if t.len() == 0 {
        return None;
    }
    let mut i: usize = 0;
    while i < t.len()
        invariant
            i <= t.len(),
            forall|k: int| 0 <= k < i ==> '0' <= #[trigger] t@[k] <= '9',
        decreases t.len() - i,
    {
        if !('0' <= t[i] && t[i] <= '9') {
            return None;
        }
        i = i + 1;
    }
    let s = crate::text::string_from_chars(t.as_slice());
    parse_u32_text(s.as_str())
}

pub fn parse_version_component(value: &str) -> (r: Option<u32>)
    ensures
        r == version_component(value@),
{
    component_of(&chars_of(value))
}

/// Holds where `s` carries something other than a double quote.
pub open spec fn not_quote_at(s: Seq<char>) -> spec_fn(int) -> bool {
    |k: int| s[k] != '"'
}

/// `s` without its leading and trailing double quotes, as
/// `str::trim_matches('"')` gives.
pub open spec fn strip_quotes(s: Seq<char>) -> Seq<char> {
    let lo = first_stop(0, s.len() as int, not_quote_at(s));
    s.subrange(lo, last_keep_end(lo, s.len() as int, not_quote_at(s)))
}

fn strip_quote_chars(s: &Vec<char>) -> (r: Vec<char>)
    ensures
        r@ == strip_quotes(s@),
{
    let ghost keep = not_quote_at(s@);
    let mut a: usize = 0;
    while a < s.len() && s[a] == '"'
        invariant
            a <= s.len(),
            keep == not_quote_at(s@),
            first_stop(0, s.len() as int, keep) == first_stop(a as int, s.len() as int, keep),
        decreases s.len() - a,
    {
        assert(!keep(a as int));
        a = a + 1;
    }
    let mut b: usize = s.len();
    while b > a && s[b - 1] == '"'
        invariant
            a <= b <= s.len(),
            keep == not_quote_at(s@),
            last_keep_end(a as int, s.len() as int, keep) == last_keep_end(a as int, b as int, keep),
        decreases b - a,
    {
        assert(!keep(b - 1));
        b = b - 1;
    }
    proof {
        lemma_first_stop_bounds(0, s.len() as int, keep);
        if b > a {
            assert(keep(b - 1));
        }
    }
    string_chars_range(s, a, b)
}

fn string_chars_range(s: &Vec<char>, a: usize, b: usize) -> (r: Vec<char>)
    requires
        a <= b <= s.len(),
    ensures
        r@ == s@.subrange(a as int, b as int),
{
    let mut r: Vec<char> = Vec::new();
    let mut i: usize = a;
    while i < b
        invariant
            a <= i <= b <= s.len(),
            r@ == s@.subrange(a as int, i as int),
        decreases b - i,
    {
        r.push(s[i]);
        i = i + 1;
        assert(r@ =~= s@.subrange(a as int, i as int));
    }
    r
}

/// The version text without surrounding whitespace and quotes, and without
/// a leading `v` or `V`.
pub open spec fn version_body(value: Seq<char>) -> Seq<char> {
    let a = trimmed(value, 0, value.len() as int);
    let b = strip_quotes(a);
    let c = trimmed(b, 0, b.len() as int);
    if c.len() > 0 && (c[0] == 'v' || c[0] == 'V') {
        c.drop_first()
    } else {
        c
    }
}

/// A game version `major.minor` or `major.minor.patch` (the patch may be
/// `*`), quoted or not, with an optional `v` before it; empty text and `*`
/// name no version.
pub open spec fn game_version(value: Seq<char>) -> Option<ParsedGameVersion> {
    let a = trimmed(value, 0, value.len() as int);
    let b = strip_quotes(a);
    let c = trimmed(b, 0, b.len() as int);
    let parts = split_on(version_body(value), '.');
    if c.len() == 0 || c == "*"@ {
        None
    } else if (parts.len() == 2 || parts.len() == 3) && version_component(parts[0]) is Some
        && version_component(parts[1]) is Some && (parts.len() == 3 ==> (trimmed(
        parts[2],
        0,
        parts[2].len() as int,
    ) == "*"@ || version_component(parts[2]) is Some)) {
        Some(
            ParsedGameVersion {
                major: version_component(parts[0])->0,
                minor: version_component(parts[1])->0,
            },
        )
    } else {
        None
    }
}

pub fn parse_game_version(value: &str) -> (r: Option<ParsedGameVersion>)
    ensures
        r == game_version(value@),
{
    let a = trimmed_chars(&chars_of(value));
    let b = strip_quote_chars(&a);
    let c = trimmed_chars(&b);
    if c.len() == 0 || chars_eq(&c, &chars_of("*")) {
        return None;
    }
    let d = if c[0] == 'v' || c[0] == 'V' {
        string_chars_range(&c, 1, c.len())
    } else {
        string_chars_range(&c, 0, c.len())
    };
    assert(c@.drop_first() =~= c@.subrange(1, c.len() as int));
    assert(c@.subrange(0, c.len() as int) =~= c@);
    let parts = split_chars(&d, '.');
    if parts.len() != 2 && parts.len() != 3 {
        return None;
    }
    assert(char_views(parts@)[0] == parts@[0]@);
    assert(char_views(parts@)[1] == parts@[1]@);
    let major = match component_of(&parts[0]) {
        Some(m) => m,
        None => {
            return None;
        },
    };
    let minor = match component_of(&parts[1]) {
        Some(m) => m,
        None => {
            return None;
        },
    };
    if parts.len() == 3 {
        assert(char_views(parts@)[2] == parts@[2]@);
        let patch = trimmed_chars(&parts[2]);
        if !chars_eq(&patch, &chars_of("*")) {
            if component_of(&parts[2]).is_none() {
                return None;
            }
        }
    }
    Some(ParsedGameVersion { major, minor })
}

/// The paths whose files the merge engine can merge structurally: GUI and
/// GFX files under `interface/`, `common/interface/` or `gfx/`, and text
/// and Lua files under the script directories listed here; compared without
/// regard to ASCII case and with backslashes read as slashes.
pub open spec fn structurally_mergeable(path: Seq<char>) -> bool {
    let n = lower_seq(slash_normalized(path));
    if has_suffix(n, ".gui"@) || has_suffix(n, ".gfx"@) {
        has_prefix(n, "interface/"@) || has_prefix(n, "common/interface/"@) || has_prefix(n, "gfx/"@)
    } else if has_suffix(n, ".txt"@) || has_suffix(n, ".lua"@) {
        has_prefix(n, "events/"@) || has_prefix(n, "decisions/"@) || has_prefix(
            n,
            "common/scripted_effects/"@,
        ) || has_prefix(n, "common/diplomatic_actions/"@) || has_prefix(
            n,
            "common/triggered_modifiers/"@,
        ) || has_prefix(n, "common/defines/"@) || has_prefix(n, "interface/"@) || has_prefix(
            n,
            "common/interface/"@,
        )
    } else {
        false
    }
}

pub fn is_structurally_mergeable_path(path: &str) -> (r: bool)
    ensures
        r == structurally_mergeable(path@),
{
    let n = lower_chars(&normalize_slashes(path));
    if chars_end_with(&n, &chars_of(".gui")) || chars_end_with(&n, &chars_of(".gfx")) {
        return chars_start_with(&n, &chars_of("interface/")) || chars_start_with(
            &n,
            &chars_of("common/interface/"),
        ) || chars_start_with(&n, &chars_of("gfx/"));
    }
    if chars_end_with(&n, &chars_of(".txt")) || chars_end_with(&n, &chars_of(".lua")) {
        return chars_start_with(&n, &chars_of("events/")) || chars_start_with(
            &n,
            &chars_of("decisions/"),
        ) || chars_start_with(&n, &chars_of("common/scripted_effects/")) || chars_start_with(
            &n,
            &chars_of("common/diplomatic_actions/"),
        ) || chars_start_with(&n, &chars_of("common/triggered_modifiers/")) || chars_start_with(
            &n,
            &chars_of("common/defines/"),
        ) || chars_start_with(&n, &chars_of("interface/")) || chars_start_with(
            &n,
            &chars_of("common/interface/"),
        );
    }
    false
}

/// `"value"`, with each double quote inside escaped by a backslash.
pub open spec fn escaped_quotes(v: Seq<char>) -> Seq<char>
    decreases v.len(),
{
    if v.len() == 0 {
        Seq::empty()
    } else {
        escaped_quotes(v.drop_last()) + if v.last() == '"' {
            seq!['\\', '"']
        } else {
            seq![v.last()]
        }
    }
}

pub fn quote(value: &str) -> (r: String)
    ensures
        r@ == seq!['"'] + escaped_quotes(value@) + seq!['"'],
{
    let cs = chars_of(value);
    let mut out: Vec<char> = Vec::new();
    out.push('"');
    let mut i: usize = 0;
    assert(cs@.subrange(0, 0) =~= Seq::<char>::empty());
    while i < cs.len()
        invariant
            i <= cs.len(),
            out@ == seq!['"'] + escaped_quotes(cs@.subrange(0, i as int)),
        decreases cs.len() - i,
    {
        assert(cs@.subrange(0, i + 1).drop_last() =~= cs@.subrange(0, i as int));
        if cs[i] == '"' {
            out.push('\\');
            out.push('"');
        } else {
            out.push(cs[i]);
        }
        i = i + 1;
        assert(out@ =~= seq!['"'] + escaped_quotes(cs@.subrange(0, i as int)));
    }
    assert(cs@.subrange(0, cs.len() as int) =~= cs@);
    out.push('"');
    crate::text::string_from_chars(out.as_slice())
}

} // verus!
