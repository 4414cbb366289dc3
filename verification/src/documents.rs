//! The text documents of a mod other than script: which files are read at
//! all and by which parser family, how their bytes become text, and the CSV
//! format (delimiter, quoting, fixed column counts of the map tables, and the
//! identity of each row).

use vstd::prelude::*;
use crate::model::ParseIssue;
use crate::text::{
    ascii_lower, chars_eq, chars_lt, chars_of, has_prefix, is_unicode_ws, lower_chars, lower_seq, str_eq,
    string_from_chars, trim_bounds, trimmed,
};

verus! {

/// The parser families of text documents.
#[derive(Clone, Copy, Debug, PartialEq, Eq, Structural)]
pub enum DocumentFamily {
    Clausewitz,
    Localisation,
    Csv,
    Json,
}

/// The column layout that a CSV file is held to.
#[derive(Clone, Copy, Debug, PartialEq, Eq, Structural)]
pub enum CsvSchema {
    Generic,
    Eu4Adjacencies,
    Eu4Definition,
}

/// A row of a CSV file: its first non-empty field (or `row_<line>`), and
/// where it stands.
#[derive(Clone, Debug, PartialEq, Eq)]
pub struct CsvRow {
    pub identity: String,
    pub mod_id: String,
    pub path: String,
    pub line: usize,
    pub column: usize,
}

/// The rows of a CSV file and the problems found in it.
#[derive(Clone, Debug, PartialEq, Eq)]
pub struct ParsedCsvDocument {
    pub mod_id: String,
    pub path: String,
    pub rows: Vec<CsvRow>,
    pub parse_issues: Vec<ParseIssue>,
}

// ---------------------------------------------------------------------------
// Paths
// ---------------------------------------------------------------------------

/// The components of a relative path: the parts between `/`, without empty
/// parts and without `.` (a path's components normalise both away).
pub open spec fn path_components(p: Seq<char>) -> Seq<Seq<char>>
    decreases p.len(),
{
    if p.len() == 0 {
        Seq::empty()
    } else {
        proof {
            lemma_last_slash(p);
        }
        let i = last_slash(p);
        let head = if i < 0 {
            Seq::empty()
        } else {
            path_components(p.subrange(0, i))
        };
        let part = p.subrange(i + 1, p.len() as int);
        if part.len() == 0 || part == "."@ {
            head
        } else {
            head.push(part)
        }
    }
}

/// The position of the last `/` in `p`, or -1.
pub open spec fn last_slash(p: Seq<char>) -> int
    decreases p.len(),
{
    if p.len() == 0 {
        -1
    } else if p.last() == '/' {
        p.len() - 1
    } else {
        last_slash(p.drop_last())
    }
}

/// The file name of a path: its last component, unless that is `..`.
pub open spec fn file_name_of(p: Seq<char>) -> Option<Seq<char>> {
    let c = path_components(p);
    if c.len() == 0 || c.last() == ".."@ {
        None
    } else {
        Some(c.last())
    }
}

/// The position of the last `.` in `s`, or -1.
pub open spec fn last_dot(s: Seq<char>) -> int
    decreases s.len(),
{
    if s.len() == 0 {
        -1
    } else if s.last() == '.' {
        s.len() - 1
    } else {
        last_dot(s.drop_last())
    }
}

/// The extension of a path: what follows the last `.` of its file name,
/// where that `.` is not the name's first character.
pub open spec fn extension_of(p: Seq<char>) -> Option<Seq<char>> {
    match file_name_of(p) {
        Some(name) => if last_dot(name) > 0 {
            Some(name.subrange(last_dot(name) + 1, name.len() as int))
        } else {
            None
        },
        None => None,
    }
}

pub proof fn lemma_last_slash(p: Seq<char>)
    ensures
        -1 <= last_slash(p) < p.len(),
        last_slash(p) >= 0 ==> p[last_slash(p)] == '/',
        forall|k: int| last_slash(p) < k < p.len() ==> p[k] != '/',
    decreases p.len(),
{
    if p.len() > 0 && p.last() != '/' {
        lemma_last_slash(p.drop_last());
        assert forall|k: int| last_slash(p) < k < p.len() implies p[k] != '/' by {
            if k < p.len() - 1 {
                assert(p[k] == p.drop_last()[k]);
            }
        }
    }
}

pub proof fn lemma_last_dot(s: Seq<char>)
    ensures
        -1 <= last_dot(s) < s.len(),
        last_dot(s) >= 0 ==> s[last_dot(s)] == '.',
        forall|k: int| last_dot(s) < k < s.len() ==> s[k] != '.',
    decreases s.len(),
{
    if s.len() > 0 && s.last() != '.' {
        lemma_last_dot(s.drop_last());
        assert forall|k: int| last_dot(s) < k < s.len() implies s[k] != '.' by {
            if k < s.len() - 1 {
                assert(s[k] == s.drop_last()[k]);
            }
        }
    }
}

fn find_last(cs: &Vec<char>, end: usize, c: char) -> (r: Option<usize>)
    requires
        end <= cs.len(),
    ensures
        match r {
            Some(i) => i < end && cs@[i as int] == c && forall|k: int| i < k < end ==> cs@[k] != c,
            None => forall|k: int| 0 <= k < end ==> cs@[k] != c,
        },
{
    let mut i = end;
    while i > 0
        invariant
            i <= end <= cs.len(),
            forall|k: int| i <= k < end ==> cs@[k] != c,
        decreases i,
    {
        if cs[i - 1] == c {
            return Some(i - 1);
        }
        i = i - 1;
    }
    None
}

proof fn lemma_last_slash_is(p: Seq<char>, i: int)
    requires
        -1 <= i < p.len(),
        i >= 0 ==> p[i] == '/',
        forall|k: int| i < k < p.len() ==> p[k] != '/',
    ensures
        last_slash(p) == i,
    decreases p.len(),
{
    lemma_last_slash(p);
    if last_slash(p) != i {
        if last_slash(p) > i {
        } else {
            assert(p[i] == '/');
        }
    }
}

proof fn lemma_last_dot_is(s: Seq<char>, i: int)
    requires
        -1 <= i < s.len(),
        i >= 0 ==> s[i] == '.',
        forall|k: int| i < k < s.len() ==> s[k] != '.',
    ensures
        last_dot(s) == i,
{
    lemma_last_dot(s);
    if last_dot(s) != i {
        if last_dot(s) < i {
            assert(s[i] == '.');
        }
    }
}

/// The components of the first `end` characters, as `path_components`
/// gives them.
pub fn components_of(cs: &Vec<char>, end: usize) -> (r: Vec<Vec<char>>)
    requires
        end <= cs.len(),
    ensures
        crate::ordered::views(r@) == path_components(cs@.subrange(0, end as int)),
    decreases end,
{
    let ghost p = cs@.subrange(0, end as int);
    if end == 0 {
        let r: Vec<Vec<char>> = Vec::new();
        assert(crate::ordered::views(r@) =~= Seq::<Seq<char>>::empty());
        return r;
    }
    let slash = find_last(cs, end, '/');
    let start: usize = match slash {
        Some(i) => i + 1,
        None => 0,
    };
    proof {
        let i: int = match slash {
            Some(j) => j as int,
            None => -1,
        };
        lemma_last_slash_is(p, i);
    }
    let mut head: Vec<Vec<char>> = match slash {
        Some(i) => {
            let h = components_of(cs, i);
            assert(p.subrange(0, i as int) =~= cs@.subrange(0, i as int));
            h
        },
        None => {
            let h: Vec<Vec<char>> = Vec::new();
            assert(crate::ordered::views(h@) =~= Seq::<Seq<char>>::empty());
            h
        },
    };
    let mut part: Vec<char> = Vec::new();
    let mut k = start;
    while k < end
        invariant
            start <= k <= end <= cs.len(),
            part@ == cs@.subrange(start as int, k as int),
        decreases end - k,
    {
        part.push(cs[k]);
        k = k + 1;
        assert(part@ =~= cs@.subrange(start as int, k as int));
    }
    assert(p.subrange(start as int, p.len() as int) =~= part@);
    let is_dot = crate::text::eq_lit(&part, ".");
    if part.len() == 0 || is_dot {
        return head;
    }
    let ghost before = crate::ordered::views(head@);
    head.push(part);
    assert(crate::ordered::views(head@) =~= before.push(p.subrange(start as int, p.len() as int)));
    head
}

/// The extension of a relative path, as `Path::extension` gives it.
pub fn path_extension(relative: &str) -> (r: Option<Vec<char>>)
    ensures
        match extension_of(relative@) {
            Some(e) => r matches Some(x) && x@ == e,
            None => r is None,
        },
{
    let cs = chars_of(relative);
    let comps = components_of(&cs, cs.len());
    assert(cs@.subrange(0, cs.len() as int) =~= relative@);
    if comps.len() == 0 {
        return None;
    }
    let name = &comps[comps.len() - 1];
    assert(crate::ordered::views(comps@).last() == name@);
    let dotdot = crate::text::eq_lit(name, "..");
    if dotdot {
        return None;
    }
    let dot = find_last(name, name.len(), '.');
    proof {
        let i: int = match dot {
            Some(j) => j as int,
            None => -1,
        };
        lemma_last_dot_is(name@, i);
    }
    match dot {
        Some(i) => {
            if i == 0 {
                return None;
            }
            let mut ext: Vec<char> = Vec::new();
            let mut k = i + 1;
            while k < name.len()
                invariant
                    i + 1 <= k <= name.len(),
                    ext@ == name@.subrange(i + 1, k as int),
                decreases name.len() - k,
            {
                ext.push(name[k]);
                k = k + 1;
                assert(ext@ =~= name@.subrange(i + 1, k as int));
            }
            Some(ext)
        },
        None => None,
    }
}

/// `p` with `\` written `/`.
pub open spec fn forward_slashes(p: Seq<char>) -> Seq<char> {
    p.map_values(|c: char| if c == '\\' { '/' } else { c })
}

pub fn forward_slash_chars(p: &str) -> (r: Vec<char>)
    ensures
        r@ == forward_slashes(p@),
{
    let cs = chars_of(p);
    let mut out: Vec<char> = Vec::new();
    let mut i: usize = 0;
    while i < cs.len()
        invariant
            i <= cs.len(),
            cs@ == p@,
            out@ == forward_slashes(p@).subrange(0, i as int),
        decreases cs.len() - i,
    {
        let c = cs[i];
        out.push(if c == '\\' { '/' } else { c });
        i = i + 1;
        assert(out@ =~= forward_slashes(p@).subrange(0, i as int));
    }
    assert(forward_slashes(p@).subrange(0, cs.len() as int) =~= forward_slashes(p@));
    out
}

/// A Lua file of the game's defines.
pub open spec fn is_defines_path(p: Seq<char>) -> bool {
    let n = lower_seq(forward_slashes(p));
    n == "common/defines.lua"@ || has_prefix(n, "common/defines/"@)
}

pub fn is_clausewitz_defines_path(relative_path: &str) -> (r: bool)
    ensures
        r == is_defines_path(relative_path@),
{
    let n = lower_chars(&forward_slash_chars(relative_path));
    let s = string_from_chars(n.as_slice());
    str_eq(s.as_str(), "common/defines.lua") || crate::text::str_starts_with(s.as_str(), "common/defines/")
}

/// The parser family of a file, by its extension in any case: script for
/// `txt`, `gui`, `gfx`, `asset`, `mod` and the defines in Lua; localisation
/// for `yml` and `yaml`; `csv`; `json`; none for anything else.
pub open spec fn document_family_of(p: Seq<char>) -> Option<DocumentFamily> {
    match extension_of(p) {
        Some(e) => {
            let x = lower_seq(e);
            if x == "txt"@ || x == "gui"@ || x == "gfx"@ || x == "asset"@ || x == "mod"@ {
                Some(DocumentFamily::Clausewitz)
            } else if x == "lua"@ && is_defines_path(p) {
                Some(DocumentFamily::Clausewitz)
            } else if x == "yml"@ || x == "yaml"@ {
                Some(DocumentFamily::Localisation)
            } else if x == "csv"@ {
                Some(DocumentFamily::Csv)
            } else if x == "json"@ {
                Some(DocumentFamily::Json)
            } else {
                None
            }
        },
        None => None,
    }
}

/// Classify one relative path into a supported text-document parser family.
pub fn classify_document_family(relative_path: &str) -> (r: Option<DocumentFamily>)
    ensures
        r == document_family_of(relative_path@),
{
    let ext = match path_extension(relative_path) {
        Some(e) => e,
        None => {
            return None;
        },
    };
    let lowered = string_from_chars(lower_chars(&ext).as_slice());
    let x = lowered.as_str();
    if str_eq(x, "txt") || str_eq(x, "gui") || str_eq(x, "gfx") || str_eq(x, "asset") || str_eq(
        x,
        "mod",
    ) {
        Some(DocumentFamily::Clausewitz)
    } else if str_eq(x, "lua") && is_clausewitz_defines_path(relative_path) {
        Some(DocumentFamily::Clausewitz)
    } else if str_eq(x, "yml") || str_eq(x, "yaml") {
        Some(DocumentFamily::Localisation)
    } else if str_eq(x, "csv") {
        Some(DocumentFamily::Csv)
    } else if str_eq(x, "json") {
        Some(DocumentFamily::Json)
    } else {
        None
    }
}

/// The file name of a relative path, as `Path::file_name` gives it.
pub fn path_file_name(relative: &str) -> (r: Option<Vec<char>>)
    ensures
        match file_name_of(relative@) {
            Some(n) => r matches Some(x) && x@ == n,
            None => r is None,
        },
{
    let cs = chars_of(relative);
    let comps = components_of(&cs, cs.len());
    assert(cs@.subrange(0, cs.len() as int) =~= relative@);
    if comps.len() == 0 {
        return None;
    }
    let last = comps.len() - 1;
    assert(crate::ordered::views(comps@).last() == comps@[last as int]@);
    if crate::text::eq_lit(&comps[last], "..") {
        return None;
    }
    let mut name: Vec<char> = Vec::new();
    let mut k: usize = 0;
    while k < comps[last].len()
        invariant
            last < comps.len(),
            k <= comps@[last as int]@.len(),
            name@ == comps@[last as int]@.subrange(0, k as int),
        decreases comps@[last as int]@.len() - k,
    {
        name.push(comps[last][k]);
        k = k + 1;
        assert(name@ =~= comps@[last as int]@.subrange(0, k as int));
    }
    assert(name@ =~= comps@[last as int]@);
    Some(name)
}

/// Directories whose files are not read: licences, patch notes, e-book,
/// legal notes, bundled DLC, DLC metadata and hints.
pub open spec fn is_excluded_prefix(n: Seq<char>) -> bool {
    has_prefix(n, "licenses/"@) || has_prefix(n, "patchnotes/"@) || has_prefix(n, "ebook/"@)
        || has_prefix(n, "legal_notes/"@) || has_prefix(n, "builtin_dlc/"@) || has_prefix(
        n,
        "dlc_metadata/"@,
    ) || has_prefix(n, "hints/"@)
}

/// Files of the game's distribution that are not mod content, by name in
/// any ASCII case.
pub open spec fn is_excluded_name(n: Seq<char>) -> bool {
    n == "steam.txt"@ || n == "描述.txt"@ || n == "thirdpartylicenses.txt"@ || n
        == "checksum_manifest.txt"@ || n == "clausewitz_branch.txt"@ || n == "clausewitz_rev.txt"@
        || n == "eu4_branch.txt"@ || n == "eu4_rev.txt"@ || n == "launcher-settings.json"@ || n
        == "settings-layout.json"@
}

/// A file that is not read as a text document.
pub open spec fn is_excluded_path(p: Seq<char>) -> bool {
    is_excluded_prefix(forward_slashes(p)) || (file_name_of(p) matches Some(n)
        && is_excluded_name(lower_seq(n)))
}

pub fn is_excluded_text_path(relative_path: &str) -> (r: bool)
    ensures
        r == is_excluded_path(relative_path@),
{
    let n = string_from_chars(forward_slash_chars(relative_path).as_slice());
    let ns = n.as_str();
    if crate::text::str_starts_with(ns, "licenses/") || crate::text::str_starts_with(ns, "patchnotes/")
        || crate::text::str_starts_with(ns, "ebook/") || crate::text::str_starts_with(
        ns,
        "legal_notes/",
    ) || crate::text::str_starts_with(ns, "builtin_dlc/") || crate::text::str_starts_with(
        ns,
        "dlc_metadata/",
    ) || crate::text::str_starts_with(ns, "hints/") {
        return true;
    }
    match path_file_name(relative_path) {
        Some(name) => {
            let lowered = string_from_chars(lower_chars(&name).as_slice());
            let x = lowered.as_str();
            str_eq(x, "steam.txt") || str_eq(x, "描述.txt") || str_eq(x, "thirdpartylicenses.txt")
                || str_eq(x, "checksum_manifest.txt") || str_eq(x, "clausewitz_branch.txt") || str_eq(
                x,
                "clausewitz_rev.txt",
            ) || str_eq(x, "eu4_branch.txt") || str_eq(x, "eu4_rev.txt") || str_eq(
                x,
                "launcher-settings.json",
            ) || str_eq(x, "settings-layout.json")
        },
        None => false,
    }
}

/// The column layout of the map's adjacency and definition tables; any
/// other CSV file is generic.
pub open spec fn csv_schema_of(p: Seq<char>) -> CsvSchema {
    let n = forward_slashes(p);
    if n == "map/adjacencies.csv"@ {
        CsvSchema::Eu4Adjacencies
    } else if n == "map/definition.csv"@ {
        CsvSchema::Eu4Definition
    } else {
        CsvSchema::Generic
    }
}

pub fn csv_schema_for(relative_path: &str) -> (r: CsvSchema)
    ensures
        r == csv_schema_of(relative_path@),
{
    let n = string_from_chars(forward_slash_chars(relative_path).as_slice());
    if str_eq(n.as_str(), "map/adjacencies.csv") {
        CsvSchema::Eu4Adjacencies
    } else if str_eq(n.as_str(), "map/definition.csv") {
        CsvSchema::Eu4Definition
    } else {
        CsvSchema::Generic
    }
}

// ---------------------------------------------------------------------------
// CSV lines
// ---------------------------------------------------------------------------

/// The fields of `line` from position `i` on, with the fields `out` already
/// closed, the open field `cur`, and whether a quote is open: a `"` opens or
/// closes a quote (`""` inside one stands for `"`), the delimiter outside a
/// quote closes the field, and each field is trimmed.
pub open spec fn csv_fields(
    line: Seq<char>,
    d: char,
    i: int,
    out: Seq<Seq<char>>,
    cur: Seq<char>,
    q: bool,
) -> Seq<Seq<char>>
    decreases line.len() - i,
{
    if i >= line.len() || i < 0 {
        out.push(trimmed(cur, 0, cur.len() as int))
    } else {
        let c = line[i];
        if c == '"' {
            if q && i + 1 < line.len() && line[i + 1] == '"' {
                csv_fields(line, d, i + 2, out, cur.push('"'), q)
            } else {
                csv_fields(line, d, i + 1, out, cur, !q)
            }
        } else if c == d && !q {
            csv_fields(line, d, i + 1, out.push(trimmed(cur, 0, cur.len() as int)), Seq::empty(), q)
        } else {
            csv_fields(line, d, i + 1, out, cur.push(c), q)
        }
    }
}

/// The fields of a CSV line; a line that ends (before trailing whitespace)
/// with the delimiter has no empty last field.
pub open spec fn split_csv(line: Seq<char>, d: char) -> Seq<Seq<char>> {
    let f = csv_fields(line, d, 0, Seq::empty(), Seq::empty(), false);
    let t = trimmed(line, 0, line.len() as int);
    if t.len() > 0 && t.last() == d && f.last().len() == 0 {
        f.drop_last()
    } else {
        f
    }
}

fn trim_vec(cs: &Vec<char>) -> (r: Vec<char>)
    ensures
        r@ == trimmed(cs@, 0, cs@.len() as int),
{
    let (a, b) = trim_bounds(cs, 0, cs.len());
    let mut r: Vec<char> = Vec::new();
    let mut i = a;
    while i < b
        invariant
            a <= i <= b <= cs.len(),
            r@ == cs@.subrange(a as int, i as int),
        decreases b - i,
    {
        r.push(cs[i]);
        i = i + 1;
        assert(r@ =~= cs@.subrange(a as int, i as int));
    }
    r
}

/// The fields of a CSV line, trimmed.
pub fn split_csv_line(line: &str, delimiter: char) -> (r: Vec<String>)
    ensures
        crate::eu4_builtin::string_views(r@) == split_csv(line@, delimiter),
{
    let cs = chars_of(line);
    let mut out: Vec<Vec<char>> = Vec::new();
    let mut cur: Vec<char> = Vec::new();
    let mut q = false;
    let mut i: usize = 0;
    assert(crate::ordered::views(out@) =~= Seq::<Seq<char>>::empty());
    while i < cs.len()
        invariant
            i <= cs.len(),
            cs@ == line@,
            csv_fields(line@, delimiter, i as int, crate::ordered::views(out@), cur@, q)
                == csv_fields(line@, delimiter, 0, Seq::empty(), Seq::empty(), false),
        decreases cs.len() - i,
    {
        let c = cs[i];
        if c == '"' {
            if q && i + 1 < cs.len() && cs[i + 1] == '"' {
                cur.push('"');
                i = i + 2;
            } else {
                q = !q;
                i = i + 1;
            }
        } else if c == delimiter && !q {
            let field = trim_vec(&cur);
            let ghost before = crate::ordered::views(out@);
            out.push(field);
            assert(crate::ordered::views(out@) =~= before.push(trimmed(cur@, 0, cur@.len() as int)));
            cur = Vec::new();
            assert(cur@ =~= Seq::<char>::empty());
            i = i + 1;
        } else {
            cur.push(c);
            i = i + 1;
        }
    }
    let field = trim_vec(&cur);
    let ghost before = crate::ordered::views(out@);
    out.push(field);
    assert(crate::ordered::views(out@) =~= before.push(trimmed(cur@, 0, cur@.len() as int)));
    let t = trim_vec(&cs);
    let n = out.len();
    if t.len() > 0 && t[t.len() - 1] == delimiter && out[n - 1].len() == 0 {
        let ghost full = crate::ordered::views(out@);
        out.pop();
        assert(crate::ordered::views(out@) =~= full.drop_last());
    }
    crate::ordered::to_strings(&out)
}

/// What checking the column count of a row gives: the expected and actual
/// counts where they differ, the count expected from then on, and whether
/// the row is padded with an empty last field. Generic files expect the
/// count of their first row; adjacencies have nine columns; definitions six,
/// where a data row of five is padded.
pub open spec fn csv_check(schema: CsvSchema, line_no: int, n: int, expected: Option<usize>) -> (
    Option<(usize, usize)>,
    Option<usize>,
    bool,
) {
    match schema {
        CsvSchema::Generic => match expected {
            Some(e) => if n != e {
                (Some((e, n as usize)), expected, false)
            } else {
                (None, expected, false)
            },
            None => (None, Some(n as usize), false),
        },
        CsvSchema::Eu4Adjacencies => (
            if n != 9 {
                Some((9usize, n as usize))
            } else {
                None
            },
            Some(9usize),
            false,
        ),
        CsvSchema::Eu4Definition => if line_no == 1 {
            (
                if n != 6 {
                    Some((6usize, n as usize))
                } else {
                    None
                },
                Some(6usize),
                false,
            )
        } else if n == 5 {
            (None, Some(6usize), true)
        } else if n == 6 {
            (None, Some(6usize), false)
        } else {
            (Some((6usize, n as usize)), Some(6usize), false)
        },
    }
}

pub fn validate_csv_columns(
    schema: CsvSchema,
    line_no: usize,
    cols: &mut Vec<String>,
    expected_columns: &mut Option<usize>,
) -> (r: Option<(usize, usize)>)
    ensures
        r == csv_check(schema, line_no as int, old(cols)@.len() as int, *old(expected_columns)).0,
        *final(expected_columns) == csv_check(
            schema,
            line_no as int,
            old(cols)@.len() as int,
            *old(expected_columns),
        ).1,
        crate::eu4_builtin::string_views(final(cols)@) == (if csv_check(
            schema,
            line_no as int,
            old(cols)@.len() as int,
            *old(expected_columns),
        ).2 {
            crate::eu4_builtin::string_views(old(cols)@).push(Seq::empty())
        } else {
            crate::eu4_builtin::string_views(old(cols)@)
        }),
{
    let n = cols.len();
    match schema {
        CsvSchema::Generic => match *expected_columns {
            Some(e) => if n != e {
                Some((e, n))
            } else {
                None
            },
            None => {
                *expected_columns = Some(n);
                None
            },
        },
        CsvSchema::Eu4Adjacencies => {
            *expected_columns = Some(9);
            if n != 9 {
                Some((9, n))
            } else {
                None
            }
        },
        CsvSchema::Eu4Definition => {
            *expected_columns = Some(6);
            if line_no == 1 {
                return if n != 6 {
                    Some((6, n))
                } else {
                    None
                };
            }
            if n == 5 {
                let ghost before = cols@;
                cols.push(String::new());
                assert(crate::eu4_builtin::string_views(cols@) =~= crate::eu4_builtin::string_views(
                    before,
                ).push(Seq::empty()));
                None
            } else if n == 6 {
                None
            } else {
                Some((6, n))
            }
        },
    }
}

// ---------------------------------------------------------------------------
// Text
// ---------------------------------------------------------------------------

/// `std::str::from_utf8`: the text that bytes encode in UTF-8, or `None`
/// where they are not valid UTF-8.
#[verifier::external_body]
fn utf8_text(bytes: &[u8]) -> (r: Option<String>)
    ensures
        r is Some <==> vstd::utf8::valid_utf8(bytes@),
        r matches Some(s) ==> s@ == vstd::utf8::decode_utf8(bytes@),
{
    match std::str::from_utf8(bytes) {
        Ok(s) => Some(s.to_owned()),
        Err(_) => None,
    }
}

/// The character that a byte stands for in Windows-1252; the five bytes
/// that code page leaves undefined stand for the control character of the
/// same number, as in ISO-8859-1.
pub open spec fn cp1252_char(b: u8) -> char {
    if b == 0x80 {
        '\u{20AC}'
    } else if b == 0x82 {
        '\u{201A}'
    } else if b == 0x83 {
        '\u{0192}'
    } else if b == 0x84 {
        '\u{201E}'
    } else if b == 0x85 {
        '\u{2026}'
    } else if b == 0x86 {
        '\u{2020}'
    } else if b == 0x87 {
        '\u{2021}'
    } else if b == 0x88 {
        '\u{02C6}'
    } else if b == 0x89 {
        '\u{2030}'
    } else if b == 0x8A {
        '\u{0160}'
    } else if b == 0x8B {
        '\u{2039}'
    } else if b == 0x8C {
        '\u{0152}'
    } else if b == 0x8E {
        '\u{017D}'
    } else if b == 0x91 {
        '\u{2018}'
    } else if b == 0x92 {
        '\u{2019}'
    } else if b == 0x93 {
        '\u{201C}'
    } else if b == 0x94 {
        '\u{201D}'
    } else if b == 0x95 {
        '\u{2022}'
    } else if b == 0x96 {
        '\u{2013}'
    } else if b == 0x97 {
        '\u{2014}'
    } else if b == 0x98 {
        '\u{02DC}'
    } else if b == 0x99 {
        '\u{2122}'
    } else if b == 0x9A {
        '\u{0161}'
    } else if b == 0x9B {
        '\u{203A}'
    } else if b == 0x9C {
        '\u{0153}'
    } else if b == 0x9E {
        '\u{017E}'
    } else if b == 0x9F {
        '\u{0178}'
    } else {
        b as char
    }
}

fn cp1252(b: u8) -> (c: char)
    ensures
        c == cp1252_char(b),
{
    if b == 0x80 {
        '\u{20AC}'
    } else if b == 0x82 {
        '\u{201A}'
    } else if b == 0x83 {
        '\u{0192}'
    } else if b == 0x84 {
        '\u{201E}'
    } else if b == 0x85 {
        '\u{2026}'
    } else if b == 0x86 {
        '\u{2020}'
    } else if b == 0x87 {
        '\u{2021}'
    } else if b == 0x88 {
        '\u{02C6}'
    } else if b == 0x89 {
        '\u{2030}'
    } else if b == 0x8A {
        '\u{0160}'
    } else if b == 0x8B {
        '\u{2039}'
    } else if b == 0x8C {
        '\u{0152}'
    } else if b == 0x8E {
        '\u{017D}'
    } else if b == 0x91 {
        '\u{2018}'
    } else if b == 0x92 {
        '\u{2019}'
    } else if b == 0x93 {
        '\u{201C}'
    } else if b == 0x94 {
        '\u{201D}'
    } else if b == 0x95 {
        '\u{2022}'
    } else if b == 0x96 {
        '\u{2013}'
    } else if b == 0x97 {
        '\u{2014}'
    } else if b == 0x98 {
        '\u{02DC}'
    } else if b == 0x99 {
        '\u{2122}'
    } else if b == 0x9A {
        '\u{0161}'
    } else if b == 0x9B {
        '\u{203A}'
    } else if b == 0x9C {
        '\u{0153}'
    } else if b == 0x9E {
        '\u{017E}'
    } else if b == 0x9F {
        '\u{0178}'
    } else {
        b as char
    }
}

/// The text of a game file: its UTF-8 text where the bytes are valid UTF-8,
/// else each byte read as Windows-1252.
pub open spec fn paradox_text(raw: Seq<u8>) -> Seq<char> {
    if vstd::utf8::valid_utf8(raw) {
        vstd::utf8::decode_utf8(raw)
    } else {
        raw.map_values(|b: u8| cp1252_char(b))
    }
}

pub fn decode_paradox_bytes(raw: &[u8]) -> (r: String)
    ensures
        r@ == paradox_text(raw@),
{
    match utf8_text(raw) {
        Some(s) => s,
        None => {
            let mut out: Vec<char> = Vec::new();
            let mut i: usize = 0;
            while i < raw.len()
                invariant
                    i <= raw@.len(),
                    out@ == raw@.subrange(0, i as int).map_values(|b: u8| cp1252_char(b)),
                decreases raw@.len() - i,
            {
                out.push(cp1252(raw[i]));
                i = i + 1;
                assert(out@ =~= raw@.subrange(0, i as int).map_values(|b: u8| cp1252_char(b)));
            }
            assert(raw@.subrange(0, raw@.len() as int) =~= raw@);
            string_from_chars(out.as_slice())
        },
    }
}

/// The decimal digits of `n`.
pub open spec fn decimal_text(n: nat) -> Seq<char>
    decreases n,
{
    if n < 10 {
        seq![digit_char(n)]
    } else {
        decimal_text(n / 10).push(digit_char(n % 10))
    }
}

pub open spec fn digit_char(d: nat) -> char {
    if d == 0 {
        '0'
    } else if d == 1 {
        '1'
    } else if d == 2 {
        '2'
    } else if d == 3 {
        '3'
    } else if d == 4 {
        '4'
    } else if d == 5 {
        '5'
    } else if d == 6 {
        '6'
    } else if d == 7 {
        '7'
    } else if d == 8 {
        '8'
    } else {
        '9'
    }
}

fn digit(d: usize) -> (c: char)
    requires
        d < 10,
    ensures
        c == digit_char(d as nat),
{
    if d == 0 {
        '0'
    } else if d == 1 {
        '1'
    } else if d == 2 {
        '2'
    } else if d == 3 {
        '3'
    } else if d == 4 {
        '4'
    } else if d == 5 {
        '5'
    } else if d == 6 {
        '6'
    } else if d == 7 {
        '7'
    } else if d == 8 {
        '8'
    } else {
        '9'
    }
}

/// `n` written in decimal.
pub fn decimal_chars(n: usize) -> (r: Vec<char>)
    ensures
        r@ == decimal_text(n as nat),
{
    let mut m = n;
    let mut suffix: Vec<char> = Vec::new();
    loop
        invariant
            decimal_text(n as nat) == decimal_text(m as nat) + suffix@,
        decreases m,
    {
        if m < 10 {
            let ghost tail = suffix@;
            let mut r: Vec<char> = Vec::new();
            r.push(digit(m));
            r.append(&mut suffix);
            assert(r@ =~= decimal_text(m as nat) + tail);
            return r;
        }
        let d = digit(m % 10);
        let ghost old_suffix = suffix@;
        suffix.insert(0, d);
        assert(decimal_text(m as nat) == decimal_text((m / 10) as nat).push(digit_char((m % 10) as nat)));
        assert(decimal_text(m as nat) + old_suffix =~= decimal_text((m / 10) as nat) + suffix@);
        m = m / 10;
    }
}

/// `l` without a carriage return at its end.
pub open spec fn strip_trailing_cr(l: Seq<char>) -> Seq<char> {
    if l.len() > 0 && l.last() == '\r' {
        l.drop_last()
    } else {
        l
    }
}

/// The lines of `s` from position `i` on, the current line holding `cur`:
/// lines end at `\n`, where a `\r` before it is dropped too; a last line
/// with no `\n` counts where it is not empty. This is `str::lines`.
pub open spec fn lines_from(s: Seq<char>, i: int, cur: Seq<char>) -> Seq<Seq<char>>
    decreases s.len() - i,
{
    if i >= s.len() || i < 0 {
        if cur.len() > 0 {
            seq![cur]
        } else {
            Seq::empty()
        }
    } else if s[i] == '\n' {
        seq![strip_trailing_cr(cur)] + lines_from(s, i + 1, Seq::empty())
    } else {
        lines_from(s, i + 1, cur.push(s[i]))
    }
}

pub open spec fn text_lines(s: Seq<char>) -> Seq<Seq<char>> {
    lines_from(s, 0, Seq::empty())
}

/// The lines of a text, as `str::lines` gives them.
pub fn split_text_lines(text: &str) -> (r: Vec<Vec<char>>)
    ensures
        crate::ordered::views(r@) == text_lines(text@),
{
    let cs = chars_of(text);
    let mut done: Vec<Vec<char>> = Vec::new();
    let mut cur: Vec<char> = Vec::new();
    let mut i: usize = 0;
    assert(crate::ordered::views(done@) =~= Seq::<Seq<char>>::empty());
    assert(Seq::<Seq<char>>::empty() + text_lines(text@) =~= text_lines(text@));
    while i < cs.len()
        invariant
            i <= cs.len(),
            cs@ == text@,
            crate::ordered::views(done@) + lines_from(text@, i as int, cur@) == text_lines(text@),
        decreases cs.len() - i,
    {
        let c = cs[i];
        if c == '\n' {
            let mut line = cur;
            if line.len() > 0 && line[line.len() - 1] == '\r' {
                line.pop();
            }
            assert(line@ == strip_trailing_cr(cur@));
            let ghost before = crate::ordered::views(done@);
            done.push(line);
            assert(crate::ordered::views(done@) =~= before.push(strip_trailing_cr(cur@)));
            assert(before + (seq![strip_trailing_cr(cur@)] + lines_from(text@, i + 1, Seq::empty()))
                =~= before.push(strip_trailing_cr(cur@)) + lines_from(text@, i + 1, Seq::empty()));
            cur = Vec::new();
            assert(cur@ =~= Seq::<char>::empty());
        } else {
            cur.push(c);
        }
        i = i + 1;
    }
    if cur.len() > 0 {
        let ghost before = crate::ordered::views(done@);
        done.push(cur);
        assert(crate::ordered::views(done@) =~= before + seq![done@[done@.len() - 1]@]);
    } else {
        assert(crate::ordered::views(done@) + Seq::<Seq<char>>::empty() =~= crate::ordered::views(
            done@,
        ));
    }
    done
}

// ---------------------------------------------------------------------------
// CSV documents
// ---------------------------------------------------------------------------

/// `l` without the byte order marks at its start.
pub open spec fn strip_boms(l: Seq<char>) -> Seq<char>
    decreases l.len(),
{
    if l.len() > 0 && l[0] == '\u{feff}' {
        strip_boms(l.drop_first())
    } else {
        l
    }
}

/// How often `c` occurs in `l`.
pub open spec fn count_char(l: Seq<char>, c: char) -> nat
    decreases l.len(),
{
    if l.len() == 0 {
        0
    } else {
        count_char(l.drop_last(), c) + if l.last() == c {
            1nat
        } else {
            0nat
        }
    }
}

/// The delimiter of a CSV text: `;` where its first line holds more of them
/// than commas, `,` otherwise.
pub open spec fn csv_delimiter(lines: Seq<Seq<char>>) -> char {
    if lines.len() > 0 && count_char(lines[0], ';') > count_char(lines[0], ',') {
        ';'
    } else {
        ','
    }
}

/// The first field that is not blank.
pub open spec fn first_nonblank(cols: Seq<Seq<char>>) -> Option<Seq<char>>
    decreases cols.len(),
{
    if cols.len() == 0 {
        None
    } else if trimmed(cols[0], 0, cols[0].len() as int).len() > 0 {
        Some(cols[0])
    } else {
        first_nonblank(cols.drop_first())
    }
}

/// The message of a row whose column count is off.
pub open spec fn column_count_message(expected: nat, actual: nat) -> Seq<char> {
    "inconsistent csv column count: expected "@ + decimal_text(expected) + ", got "@ + decimal_text(
        actual,
    )
}

/// The first `k` lines of a CSV text read with delimiter `d`: the rows
/// (identity and line number), the column count problems (line number and
/// message), and the count expected after them. Blank lines are skipped,
/// and byte order marks are dropped from the first line.
pub open spec fn csv_scan(lines: Seq<Seq<char>>, d: char, schema: CsvSchema, k: int) -> (
    Seq<(Seq<char>, int)>,
    Seq<(int, Seq<char>)>,
    Option<usize>,
)
    decreases k,
{
    if k <= 0 {
        (Seq::empty(), Seq::empty(), None)
    } else {
        let prev = csv_scan(lines, d, schema, k - 1);
        let l = if k == 1 {
            strip_boms(lines[0])
        } else {
            lines[k - 1]
        };
        if trimmed(l, 0, l.len() as int).len() == 0 {
            prev
        } else {
            let cols = split_csv(l, d);
            let chk = csv_check(schema, k, cols.len() as int, prev.2);
            let cols2 = if chk.2 {
                cols.push(Seq::empty())
            } else {
                cols
            };
            let issues = match chk.0 {
                Some(ea) => prev.1.push((k, column_count_message(ea.0 as nat, ea.1 as nat))),
                None => prev.1,
            };
            let identity = match first_nonblank(cols2) {
                Some(f) => f,
                None => "row_"@ + decimal_text(k as nat),
            };
            (prev.0.push((identity, k)), issues, chk.1)
        }
    }
}

/// The rows and problems of a whole CSV text.
pub open spec fn csv_document(text: Seq<char>, schema: CsvSchema) -> (Seq<(Seq<char>, int)>, Seq<(int, Seq<char>)>) {
    let lines = text_lines(text);
    let scan = csv_scan(lines, csv_delimiter(lines), schema, lines.len() as int);
    (scan.0, scan.1)
}

fn count_in(l: &Vec<char>, c: char) -> (r: usize)
    ensures
        r == count_char(l@, c),
{
    let mut n: usize = 0;
    let mut i: usize = 0;
    while i < l.len()
        invariant
            i <= l.len(),
            n == count_char(l@.subrange(0, i as int), c),
            n <= i,
        decreases l.len() - i,
    {
        assert(l@.subrange(0, i + 1).drop_last() =~= l@.subrange(0, i as int));
        if l[i] == c {
            n = n + 1;
        }
        i = i + 1;
    }
    assert(l@.subrange(0, l.len() as int) =~= l@);
    n
}

fn without_boms(l: &Vec<char>) -> (r: Vec<char>)
    ensures
        r@ == strip_boms(l@),
{
    let mut start: usize = 0;
    assert(l@.subrange(0, l.len() as int) =~= l@);
    while start < l.len() && l[start] == '\u{feff}'
        invariant
            start <= l.len(),
            strip_boms(l@) == strip_boms(l@.subrange(start as int, l.len() as int)),
        decreases l.len() - start,
    {
        assert(l@.subrange(start as int, l.len() as int).drop_first() =~= l@.subrange(
            start + 1,
            l.len() as int,
        ));
        start = start + 1;
    }
    let mut r: Vec<char> = Vec::new();
    let mut i = start;
    while i < l.len()
        invariant
            start <= i <= l.len(),
            r@ == l@.subrange(start as int, i as int),
        decreases l.len() - i,
    {
        r.push(l[i]);
        i = i + 1;
        assert(r@ =~= l@.subrange(start as int, i as int));
    }
    r
}

fn first_nonblank_field(cols: &Vec<String>) -> (r: Option<String>)
    ensures
        match first_nonblank(crate::eu4_builtin::string_views(cols@)) {
            Some(f) => r matches Some(x) && x@ == f,
            None => r is None,
        },
{
    let ghost views = crate::eu4_builtin::string_views(cols@);
    let mut i: usize = 0;
    assert(views.skip(0) =~= views);
    while i < cols.len()
        invariant
            i <= cols.len(),
            views == crate::eu4_builtin::string_views(cols@),
            first_nonblank(views.skip(i as int)) == first_nonblank(views),
        decreases cols.len() - i,
    {
        assert(views.skip(i as int)[0] == cols@[i as int]@);
        assert(views.skip(i as int).drop_first() =~= views.skip(i + 1));
        let t = crate::analysis::trim_chars(cols[i].as_str());
        if t.len() > 0 {
            return Some(cols[i].clone());
        }
        i = i + 1;
    }
    assert(views.skip(i as int).len() == 0);
    None
}

fn chars_text(a: &str, b: &Vec<char>) -> (r: String)
    ensures
        r@ == a@ + b@,
{
    let mut cs = chars_of(a);
    let mut tail = b.clone();
    let ghost t = b@;
    cs.append(&mut tail);
    string_from_chars(cs.as_slice())
}

/// The rows of a CSV text at `relative_path` of mod `mod_id`, and the
/// problems found in it.
pub fn parse_csv_content(mod_id: &str, relative_path: &str, content: &str) -> (r: ParsedCsvDocument)
    requires
        content@.len() < usize::MAX,
    ensures
        r.mod_id@ == mod_id@,
        r.path@ == relative_path@,
        r.rows@.len() == csv_document(content@, csv_schema_of(relative_path@)).0.len(),
        forall|i: int|
            0 <= i < r.rows@.len() ==> {
                let m = csv_document(content@, csv_schema_of(relative_path@)).0[i];
                &&& (#[trigger] r.rows@[i]).identity@ == m.0
                &&& r.rows@[i].line == m.1
                &&& r.rows@[i].column == 1
                &&& r.rows@[i].mod_id@ == mod_id@
                &&& r.rows@[i].path@ == relative_path@
            },
        r.parse_issues@.len() == csv_document(content@, csv_schema_of(relative_path@)).1.len(),
        forall|i: int|
            0 <= i < r.parse_issues@.len() ==> {
                let m = csv_document(content@, csv_schema_of(relative_path@)).1[i];
                &&& (#[trigger] r.parse_issues@[i]).line == m.0
                &&& r.parse_issues@[i].message@ == m.1
                &&& r.parse_issues@[i].column == 1
                &&& r.parse_issues@[i].mod_id@ == mod_id@
                &&& r.parse_issues@[i].path@ == relative_path@
            },
{
    let schema = csv_schema_for(relative_path);
    let lines = split_text_lines(content);
    let ghost ls = crate::ordered::views(lines@);
    let mut delimiter = ',';
    if lines.len() > 0 && count_in(&lines[0], ';') > count_in(&lines[0], ',') {
        delimiter = ';';
    }
    assert(delimiter == csv_delimiter(ls));
    proof {
        lemma_lines_bound(content@);
    }
    let mut rows: Vec<CsvRow> = Vec::new();
    let mut parse_issues: Vec<ParseIssue> = Vec::new();
    let mut expected_columns: Option<usize> = None;
    let mut idx: usize = 0;
    while idx < lines.len()
        invariant
            idx <= lines.len(),
            ls == crate::ordered::views(lines@),
            ls.len() <= content@.len() + 1,
            content@.len() < usize::MAX,
            delimiter == csv_delimiter(ls),
            schema == csv_schema_of(relative_path@),
            expected_columns == csv_scan(ls, delimiter, schema, idx as int).2,
            rows@.len() == csv_scan(ls, delimiter, schema, idx as int).0.len(),
            forall|i: int|
                0 <= i < rows@.len() ==> {
                    let m = csv_scan(ls, delimiter, schema, idx as int).0[i];
                    &&& (#[trigger] rows@[i]).identity@ == m.0
                    &&& rows@[i].line == m.1
                    &&& rows@[i].column == 1
                    &&& rows@[i].mod_id@ == mod_id@
                    &&& rows@[i].path@ == relative_path@
                },
            parse_issues@.len() == csv_scan(ls, delimiter, schema, idx as int).1.len(),
            forall|i: int|
                0 <= i < parse_issues@.len() ==> {
                    let m = csv_scan(ls, delimiter, schema, idx as int).1[i];
                    &&& (#[trigger] parse_issues@[i]).line == m.0
                    &&& parse_issues@[i].message@ == m.1
                    &&& parse_issues@[i].column == 1
                    &&& parse_issues@[i].mod_id@ == mod_id@
                    &&& parse_issues@[i].path@ == relative_path@
                },
        decreases lines.len() - idx,
    {
        let line_no = idx + 1;
        let line: Vec<char> = if idx == 0 {
            without_boms(&lines[0])
        } else {
            lines[idx].clone()
        };
        let ghost prev = csv_scan(ls, delimiter, schema, idx as int);
        let t = trim_vec(&line);
        if t.len() == 0 {
            idx = idx + 1;
            continue;
        }
        let text = string_from_chars(line.as_slice());
        let mut cols = split_csv_line(text.as_str(), delimiter);
        let ghost cols_before = crate::eu4_builtin::string_views(cols@);
        let check = validate_csv_columns(schema, line_no, &mut cols, &mut expected_columns);
        match check {
            Some((expected, actual)) => {
                let mut msg = chars_of("inconsistent csv column count: expected ");
                msg.append(&mut decimal_chars(expected));
                msg.append(&mut chars_of(", got "));
                msg.append(&mut decimal_chars(actual));
                let ghost before = parse_issues@;
                parse_issues.push(
                    ParseIssue {
                        mod_id: mod_id.to_owned(),
                        path: relative_path.to_owned(),
                        line: line_no,
                        column: 1,
                        message: string_from_chars(msg.as_slice()),
                    },
                );
                assert(parse_issues@[parse_issues@.len() - 1].message@ =~= column_count_message(
                    expected as nat,
                    actual as nat,
                ));
            },
            None => {},
        }
        let identity = match first_nonblank_field(&cols) {
            Some(f) => f,
            None => chars_text("row_", &decimal_chars(line_no)),
        };
        rows.push(
            CsvRow {
                identity,
                mod_id: mod_id.to_owned(),
                path: relative_path.to_owned(),
                line: line_no,
                column: 1,
            },
        );
        idx = idx + 1;
    }
    ParsedCsvDocument {
        mod_id: mod_id.to_owned(),
        path: relative_path.to_owned(),
        rows,
        parse_issues,
    }
}

proof fn lemma_lines_from_bound(s: Seq<char>, i: int, cur: Seq<char>)
    requires
        0 <= i <= s.len(),
    ensures
        lines_from(s, i, cur).len() <= s.len() - i + 1,
    decreases s.len() - i,
{
    if i < s.len() {
        lemma_lines_from_bound(s, i + 1, if s[i] == '\n' {
            Seq::empty()
        } else {
            cur.push(s[i])
        });
    }
}

proof fn lemma_lines_bound(s: Seq<char>)
    ensures
        text_lines(s).len() <= s.len() + 1,
{
    lemma_lines_from_bound(s, 0, Seq::empty());
}

// ---------------------------------------------------------------------------
// JSON documents
// ---------------------------------------------------------------------------

/// The shape of a JSON value that the index reads: objects with their
/// members in order, arrays with their elements, and anything else.
pub enum JsonValue {
    Object(Vec<(String, JsonValue)>),
    Array(Vec<JsonValue>),
    Scalar,
}

/// A property of a JSON document: its path from the root (`$`, then `.key`
/// for a member and `[index]` for an element), and where it stands.
#[derive(Clone, Debug, PartialEq, Eq)]
pub struct JsonProperty {
    pub key_path: String,
    pub mod_id: String,
    pub path: String,
    pub line: usize,
    pub column: usize,
}

/// The paths of the members below a value at path `base`, in document
/// order: each member's own path, then those below it.
pub open spec fn json_paths(v: JsonValue, base: Seq<char>) -> Seq<Seq<char>>
    decreases v,
{
    match v {
        JsonValue::Object(members) => member_paths(members@, base),
        JsonValue::Array(items) => element_paths(items@, base, items@.len() as int),
        JsonValue::Scalar => Seq::empty(),
    }
}

pub open spec fn member_paths(ms: Seq<(String, JsonValue)>, base: Seq<char>) -> Seq<Seq<char>>
    decreases ms,
{
    if ms.len() == 0 {
        Seq::empty()
    } else {
        let next = base + "."@ + ms.last().0@;
        member_paths(ms.drop_last(), base) + seq![next] + json_paths(ms.last().1, next)
    }
}

pub open spec fn element_paths(items: Seq<JsonValue>, base: Seq<char>, n: int) -> Seq<Seq<char>>
    decreases items, n,
{
    if n <= 0 || n > items.len() {
        Seq::empty()
    } else {
        element_paths(items, base, n - 1) + json_paths(
            items[n - 1],
            base + "["@ + decimal_text((n - 1) as nat) + "]"@,
        )
    }
}

fn concat3(a: &Vec<char>, b: &str, c: &Vec<char>) -> (r: Vec<char>)
    ensures
        r@ == a@ + b@ + c@,
{
    let mut out = a.clone();
    assert(out@ == a@);
    let mut mid = chars_of(b);
    out.append(&mut mid);
    let mut tail = c.clone();
    out.append(&mut tail);
    out
}

fn collect_paths(v: &JsonValue, base: &Vec<char>, out: &mut Vec<Vec<char>>)
    ensures
        crate::ordered::views(final(out)@) == crate::ordered::views(old(out)@) + json_paths(*v, base@),
    decreases v,
{
    match v {
        JsonValue::Object(members) => {
            collect_member_paths(members, base, out);
        },
        JsonValue::Array(items) => {
            collect_element_paths(items, base, out);
        },
        JsonValue::Scalar => {
            assert(crate::ordered::views(out@) =~= crate::ordered::views(old(out)@) + Seq::<
                Seq<char>,
            >::empty());
        },
    }
}

fn collect_member_paths(members: &Vec<(String, JsonValue)>, base: &Vec<char>, out: &mut Vec<Vec<char>>)
    ensures
        crate::ordered::views(final(out)@) == crate::ordered::views(old(out)@) + member_paths(
            members@,
            base@,
        ),
    decreases members,
{
    let ghost start = crate::ordered::views(out@);
    let mut i: usize = 0;
    assert(members@.take(0) =~= Seq::<(String, JsonValue)>::empty());
    assert(start + member_paths(members@.take(0), base@) =~= start);
    while i < members.len()
        invariant
            i <= members.len(),
            crate::ordered::views(out@) == start + member_paths(members@.take(i as int), base@),
        decreases members.len() - i,
    {
        assert(decreases_to!(members => members@[i as int]));
        assert(decreases_to!(members@[i as int] => members@[i as int].1));
        let (key, child) = &members[i];
        let next = concat3(base, ".", &chars_of(key.as_str()));
        let ghost before = crate::ordered::views(out@);
        out.push(next.clone());
        assert(crate::ordered::views(out@) =~= before.push(next@));
        collect_paths(child, &next, out);
        proof {
            let t = members@.take(i + 1);
            assert(t.drop_last() =~= members@.take(i as int));
            assert(t.last() == members@[i as int]);
            assert(base@ + "."@ + key@ == next@);
            assert(crate::ordered::views(out@) =~= start + member_paths(t, base@));
        }
        i = i + 1;
    }
    assert(members@.take(members.len() as int) =~= members@);
}

fn collect_element_paths(items: &Vec<JsonValue>, base: &Vec<char>, out: &mut Vec<Vec<char>>)
    ensures
        crate::ordered::views(final(out)@) == crate::ordered::views(old(out)@) + element_paths(
            items@,
            base@,
            items@.len() as int,
        ),
    decreases items,
{
    let ghost start = crate::ordered::views(out@);
    let mut i: usize = 0;
    assert(start + element_paths(items@, base@, 0) =~= start);
    while i < items.len()
        invariant
            i <= items.len(),
            crate::ordered::views(out@) == start + element_paths(items@, base@, i as int),
        decreases items.len() - i,
    {
        assert(decreases_to!(items => items@[i as int]));
        let mut label = chars_of("[");
        label.append(&mut decimal_chars(i));
        label.append(&mut chars_of("]"));
        let mut next = base.clone();
        assert(next@ == base@);
        next.append(&mut label);
        assert(next@ == base@ + "["@ + decimal_text(i as nat) + "]"@);
        collect_paths(&items[i], &next, out);
        assert(crate::ordered::views(out@) =~= start + element_paths(items@, base@, i + 1));
        i = i + 1;
    }
}

/// The properties of a JSON document at `relative_path` of mod `mod_id`,
/// each at line and column 1.
pub fn collect_json_properties(value: &JsonValue, mod_id: &str, relative_path: &str) -> (r: Vec<
    JsonProperty,
>)
    ensures
        r@.len() == json_paths(*value, "$"@).len(),
        forall|i: int|
            0 <= i < r@.len() ==> {
                &&& (#[trigger] r@[i]).key_path@ == json_paths(*value, "$"@)[i]
                &&& r@[i].mod_id@ == mod_id@
                &&& r@[i].path@ == relative_path@
                &&& r@[i].line == 1
                &&& r@[i].column == 1
            },
{
    let mut paths: Vec<Vec<char>> = Vec::new();
    assert(crate::ordered::views(paths@) =~= Seq::<Seq<char>>::empty());
    collect_paths(value, &chars_of("$"), &mut paths);
    assert(crate::ordered::views(paths@) =~= json_paths(*value, "$"@));
    let mut r: Vec<JsonProperty> = Vec::new();
    let mut i: usize = 0;
    while i < paths.len()
        invariant
            i <= paths.len(),
            crate::ordered::views(paths@) == json_paths(*value, "$"@),
            r@.len() == i,
            forall|k: int|
                0 <= k < i ==> {
                    &&& (#[trigger] r@[k]).key_path@ == json_paths(*value, "$"@)[k]
                    &&& r@[k].mod_id@ == mod_id@
                    &&& r@[k].path@ == relative_path@
                    &&& r@[k].line == 1
                    &&& r@[k].column == 1
                },
        decreases paths.len() - i,
    {
        r.push(
            JsonProperty {
                key_path: string_from_chars(paths[i].as_slice()),
                mod_id: mod_id.to_owned(),
                path: relative_path.to_owned(),
                line: 1,
                column: 1,
            },
        );
        i = i + 1;
    }
    r
}


/// The plain content of a JSON value: objects with their members' names
/// and values in order, arrays with their elements, and anything else.
pub enum JsonModel {
    Object(Seq<(Seq<char>, JsonModel)>),
    Array(Seq<JsonModel>),
    Scalar,
}

pub open spec fn json_model(v: JsonValue) -> JsonModel
    decreases v,
{
    match v {
        JsonValue::Object(members) => JsonModel::Object(members_model(members@)),
        JsonValue::Array(items) => JsonModel::Array(items_model(items@)),
        JsonValue::Scalar => JsonModel::Scalar,
    }
}

pub open spec fn members_model(ms: Seq<(String, JsonValue)>) -> Seq<(Seq<char>, JsonModel)>
    decreases ms,
{
    if ms.len() == 0 {
        Seq::empty()
    } else {
        members_model(ms.drop_last()).push((ms.last().0@, json_model(ms.last().1)))
    }
}

pub open spec fn items_model(items: Seq<JsonValue>) -> Seq<JsonModel>
    decreases items,
{
    if items.len() == 0 {
        Seq::empty()
    } else {
        items_model(items.drop_last()).push(json_model(items.last()))
    }
}

/// The paths below a JSON value at path `base`, as `json_paths` gives them,
/// read from its plain content.
pub open spec fn model_paths(v: JsonModel, base: Seq<char>) -> Seq<Seq<char>>
    decreases v,
{
    match v {
        JsonModel::Object(members) => model_member_paths(members, base),
        JsonModel::Array(items) => model_element_paths(items, base, items.len() as int),
        JsonModel::Scalar => Seq::empty(),
    }
}

pub open spec fn model_member_paths(ms: Seq<(Seq<char>, JsonModel)>, base: Seq<char>) -> Seq<Seq<char>>
    decreases ms,
{
    if ms.len() == 0 {
        Seq::empty()
    } else {
        let next = base + "."@ + ms.last().0;
        model_member_paths(ms.drop_last(), base) + seq![next] + model_paths(ms.last().1, next)
    }
}

pub open spec fn model_element_paths(items: Seq<JsonModel>, base: Seq<char>, n: int) -> Seq<Seq<char>>
    decreases items, n,
{
    if n <= 0 || n > items.len() {
        Seq::empty()
    } else {
        model_element_paths(items, base, n - 1) + model_paths(
            items[n - 1],
            base + "["@ + decimal_text((n - 1) as nat) + "]"@,
        )
    }
}

proof fn lemma_items_model(items: Seq<JsonValue>)
    ensures
        items_model(items).len() == items.len(),
        forall|k: int| 0 <= k < items.len() ==> #[trigger] items_model(items)[k] == json_model(items[k]),
    decreases items.len(),
{
    if items.len() > 0 {
        lemma_items_model(items.drop_last());
    }
}

proof fn lemma_paths_by_model(v: JsonValue, base: Seq<char>)
    ensures
        json_paths(v, base) == model_paths(json_model(v), base),
    decreases v,
{
    match v {
        JsonValue::Object(members) => {
            lemma_member_paths_by_model(members@, base);
        },
        JsonValue::Array(items) => {
            lemma_items_model(items@);
            lemma_element_paths_by_model(items@, base, items@.len() as int);
        },
        JsonValue::Scalar => {},
    }
}

proof fn lemma_member_paths_by_model(ms: Seq<(String, JsonValue)>, base: Seq<char>)
    ensures
        member_paths(ms, base) == model_member_paths(members_model(ms), base),
    decreases ms,
{
    if ms.len() > 0 {
        let mm = members_model(ms);
        assert(mm.drop_last() =~= members_model(ms.drop_last()));
        assert(mm.last() == (ms.last().0@, json_model(ms.last().1)));
        lemma_member_paths_by_model(ms.drop_last(), base);
        lemma_paths_by_model(ms.last().1, base + "."@ + ms.last().0@);
    }
}

proof fn lemma_element_paths_by_model(items: Seq<JsonValue>, base: Seq<char>, n: int)
    requires
        items_model(items).len() == items.len(),
        forall|k: int| 0 <= k < items.len() ==> #[trigger] items_model(items)[k] == json_model(items[k]),
    ensures
        element_paths(items, base, n) == model_element_paths(items_model(items), base, n),
    decreases items, n,
{
    if 0 < n <= items.len() {
        lemma_element_paths_by_model(items, base, n - 1);
        lemma_paths_by_model(items[n - 1], base + "["@ + decimal_text((n - 1) as nat) + "]"@);
    }
}

#[verifier::external_type_specification]
#[verifier::external_body]
pub struct ExSerdeJsonValue(serde_json::Value);

/// What `serde_json::from_str` gives for a text: the parsed value's plain
/// content, or the line, column and message of the error. A function of
/// the text alone.
pub uninterp spec fn json_parse_outcome(text: Seq<char>) -> Result<JsonModel, (nat, nat, Seq<char>)>;

/// The shape of a `serde_json::Value`, variant by variant; any value that
/// is neither an object nor an array becomes a scalar. Members keep the
/// order in which the value lists them.
#[verifier::external_body]
fn json_shape(value: &serde_json::Value) -> JsonValue {
    match value {
        serde_json::Value::Object(map) => JsonValue::Object(map.iter().map(|(k, c)| (k.clone(), json_shape(c))).collect()),
        serde_json::Value::Array(items) => JsonValue::Array(items.iter().map(|c| json_shape(c)).collect()),
        serde_json::Value::Null => JsonValue::Scalar,
        serde_json::Value::Bool(_) => JsonValue::Scalar,
        serde_json::Value::Number(_) => JsonValue::Scalar,
        serde_json::Value::String(_) => JsonValue::Scalar,
    }
}

/// Parses a text as JSON with `serde_json::from_str::<serde_json::Value>`:
/// the value's shape, or the error's line, column and message. The
/// contract claims only that the outcome is a function of the text
/// (`json_parse_outcome`); what serde_json accepts is not restated.
#[verifier::external_body]
pub fn parse_json_text(text: &str) -> (r: Result<JsonValue, (usize, usize, String)>)
    ensures
        json_parse_outcome(text@) == match r {
            Ok(v) => Ok(json_model(v)),
            Err((l, c, m)) => Err((l as nat, c as nat, m@)),
        },
{
    match serde_json::from_str::<serde_json::Value>(text) {
        Ok(v) => Ok(json_shape(&v)),
        Err(e) => Err((e.line(), e.column(), e.to_string())),
    }
}

/// The properties of a JSON document and the problems found in it.
pub struct ParsedJsonDocument {
    pub mod_id: String,
    pub path: String,
    pub properties: Vec<JsonProperty>,
    pub parse_issues: Vec<ParseIssue>,
}

/// Parses the text of a JSON file of mod `mod_id` at `relative_path`: a
/// property for every member and element path, at line 1 and column 1, or,
/// where the text is no JSON, one issue at the error's position with its
/// message.
pub fn parse_json_content(mod_id: &str, relative_path: &str, content: &str) -> (r: ParsedJsonDocument)
    ensures
        r.mod_id@ == mod_id@,
        r.path@ == relative_path@,
        match json_parse_outcome(content@) {
            Ok(m) => {
                &&& r.parse_issues@.len() == 0
                &&& r.properties@.len() == model_paths(m, "$"@).len()
                &&& forall|i: int|
                    0 <= i < r.properties@.len() ==> {
                        &&& (#[trigger] r.properties@[i]).key_path@ == model_paths(m, "$"@)[i]
                        &&& r.properties@[i].mod_id@ == mod_id@
                        &&& r.properties@[i].path@ == relative_path@
                        &&& r.properties@[i].line == 1
                        &&& r.properties@[i].column == 1
                    }
            },
            Err((line, column, message)) => {
                &&& r.properties@.len() == 0
                &&& r.parse_issues@.len() == 1
                &&& r.parse_issues@[0].mod_id@ == mod_id@
                &&& r.parse_issues@[0].path@ == relative_path@
                &&& r.parse_issues@[0].line == line
                &&& r.parse_issues@[0].column == column
                &&& r.parse_issues@[0].message@ == message
            },
        },
{
    match parse_json_text(content) {
        Ok(v) => {
            let properties = collect_json_properties(&v, mod_id, relative_path);
            proof {
                lemma_paths_by_model(v, "$"@);
            }
            ParsedJsonDocument {
                mod_id: mod_id.to_owned(),
                path: relative_path.to_owned(),
                properties,
                parse_issues: Vec::new(),
            }
        },
        Err((line, column, message)) => {
            let mut parse_issues: Vec<ParseIssue> = Vec::new();
            parse_issues.push(
                ParseIssue {
                    mod_id: mod_id.to_owned(),
                    path: relative_path.to_owned(),
                    line,
                    column,
                    message,
                },
            );
            ParsedJsonDocument {
                mod_id: mod_id.to_owned(),
                path: relative_path.to_owned(),
                properties: Vec::new(),
                parse_issues,
            }
        },
    }
}


/// Position `x` of `paths` comes before position `y` when its path's
/// components come first, or when both have the same components and `x`
/// is the earlier position.
pub open spec fn path_precedes(paths: Seq<Seq<char>>, x: int, y: int) -> bool {
    crate::parse_cache::components_lt(path_components(paths[x]), path_components(paths[y])) || (
    path_components(paths[x]) == path_components(paths[y]) && x < y)
}

proof fn lemma_path_precedes_transitive(paths: Seq<Seq<char>>, x: int, y: int, z: int)
    requires
        path_precedes(paths, x, y),
        path_precedes(paths, y, z),
    ensures
        path_precedes(paths, x, z),
{
    let (a, b, c) = (path_components(paths[x]), path_components(paths[y]), path_components(paths[z]));
    if crate::parse_cache::components_lt(a, b) && crate::parse_cache::components_lt(b, c) {
        crate::parse_cache::lemma_components_transitive(a, b, c);
    }
}

fn parts_before(x: &Vec<Vec<char>>, y: &Vec<Vec<char>>) -> (r: bool)
    ensures
        r == crate::parse_cache::components_lt(crate::ordered::views(x@), crate::ordered::views(y@)),
{
    let ghost sx = crate::ordered::views(x@);
    let ghost sy = crate::ordered::views(y@);
    let mut i: usize = 0;
    assert(sx.skip(0) =~= sx);
    assert(sy.skip(0) =~= sy);
    while i < x.len() && i < y.len()
        invariant
            i <= x.len(),
            i <= y.len(),
            sx == crate::ordered::views(x@),
            sy == crate::ordered::views(y@),
            sx.len() == x.len(),
            sy.len() == y.len(),
            crate::parse_cache::components_lt(sx, sy) == crate::parse_cache::components_lt(sx.skip(i as int), sy.skip(i as int)),
        decreases x.len() - i,
    {
        let ghost tx = sx.skip(i as int);
        let ghost ty = sy.skip(i as int);
        assert(tx[0] == x@[i as int]@);
        assert(ty[0] == y@[i as int]@);
        if !chars_eq(&x[i], &y[i]) {
            return chars_lt(&x[i], &y[i]);
        }
        assert(tx.drop_first() =~= sx.skip(i + 1));
        assert(ty.drop_first() =~= sy.skip(i + 1));
        i = i + 1;
    }
    i == x.len() && i < y.len()
}

/// The positions of `paths` in path order: by their components, and
/// equal paths in the order given. Every position appears once.
pub fn order_by_path(paths: &Vec<String>) -> (order: Vec<usize>)
    ensures
        order@.len() == paths@.len(),
        forall|k: int| 0 <= k < order@.len() ==> #[trigger] order@[k] < paths@.len(),
        forall|x: int| 0 <= x < paths@.len() ==> #[trigger] order@.contains(x as usize),
        forall|a: int, b: int|
            0 <= a < b < order@.len() ==> path_precedes(
                crate::eu4_builtin::string_views(paths@),
                #[trigger] order@[a] as int,
                #[trigger] order@[b] as int,
            ),
{
    let ghost ps = crate::eu4_builtin::string_views(paths@);
    let mut parts: Vec<Vec<Vec<char>>> = Vec::new();
    let mut j: usize = 0;
    while j < paths.len()
        invariant
            j <= paths.len(),
            parts@.len() == j,
            ps == crate::eu4_builtin::string_views(paths@),
            forall|k: int| 0 <= k < j ==> crate::ordered::views(#[trigger] parts@[k]@) == path_components(ps[k]),
        decreases paths.len() - j,
    {
        parts.push(crate::localisation_sources::path_parts_of(paths[j].as_str()));
        j = j + 1;
    }
    let mut order: Vec<usize> = Vec::new();
    let mut i: usize = 0;
    while i < paths.len()
        invariant
            i <= paths.len(),
            parts@.len() == paths@.len(),
            ps == crate::eu4_builtin::string_views(paths@),
            forall|k: int| 0 <= k < paths@.len() ==> crate::ordered::views(#[trigger] parts@[k]@) == path_components(ps[k]),
            order@.len() == i,
            forall|k: int| 0 <= k < order@.len() ==> #[trigger] order@[k] < i,
            forall|x: int| 0 <= x < i ==> #[trigger] order@.contains(x as usize),
            forall|a: int, b: int|
                0 <= a < b < order@.len() ==> path_precedes(ps, #[trigger] order@[a] as int, #[trigger] order@[b] as int),
        decreases paths.len() - i,
    {
        let mut p: usize = 0;
        while p < order.len() && !parts_before(&parts[i], &parts[order[p]])
            invariant
                p <= order@.len(),
                i < paths@.len(),
                parts@.len() == paths@.len(),
                forall|k: int| 0 <= k < paths@.len() ==> crate::ordered::views(#[trigger] parts@[k]@) == path_components(ps[k]),
                forall|k: int| 0 <= k < order@.len() ==> #[trigger] order@[k] < i,
                forall|q: int| 0 <= q < p ==> path_precedes(ps, #[trigger] order@[q] as int, i as int),
            decreases order@.len() - p,
        {
            proof {
                let o = order@[p as int] as int;
                crate::parse_cache::lemma_components_trichotomy(path_components(ps[i as int]), path_components(ps[o]));
            }
            p = p + 1;
        }
        let ghost old_order = order@;
        order.insert(p, i);
        proof {
            assert forall|a: int, b: int| 0 <= a < b < order@.len() implies path_precedes(
                ps,
                #[trigger] order@[a] as int,
                #[trigger] order@[b] as int,
            ) by {
                if a < p as int && b < p as int {
                    assert(order@[a] == old_order[a] && order@[b] == old_order[b]);
                } else if a < p as int && b == p as int {
                    assert(order@[a] == old_order[a]);
                } else if a < p as int {
                    assert(order@[a] == old_order[a] && order@[b] == old_order[b - 1]);
                } else if a == p as int {
                    assert(order@[b] == old_order[b - 1]);
                    let o = old_order[p as int] as int;
                    assert(path_precedes(ps, i as int, o));
                    if b - 1 > p {
                        lemma_path_precedes_transitive(ps, i as int, o, old_order[b - 1] as int);
                    }
                } else {
                    assert(order@[a] == old_order[a - 1] && order@[b] == old_order[b - 1]);
                }
            }
            assert forall|x: int| 0 <= x < i + 1 implies #[trigger] order@.contains(x as usize) by {
                if x == i {
                    assert(order@[p as int] == i);
                } else {
                    assert(old_order.contains(x as usize));
                    let k = choose|k: int| 0 <= k < old_order.len() && old_order[k] == x as usize;
                    if k < p {
                        assert(order@[k] == x as usize);
                    } else {
                        assert(order@[k + 1] == x as usize);
                    }
                }
            }
            assert forall|k: int| 0 <= k < order@.len() implies #[trigger] order@[k] < i + 1 by {
                if k < p {
                    assert(order@[k] == old_order[k]);
                } else if k > p {
                    assert(order@[k] == old_order[k - 1]);
                }
            }
        }
        i = i + 1;
    }
    order
}


/// A file is read as Clausewitz script when its extension is `txt`, `gui`,
/// `gfx`, `asset` or `mod` in any casing; as localisation for `yml` and
/// `yaml`; as CSV for `csv`; as JSON for `json`. Whatever else the path
/// holds does not matter.
pub proof fn lemma_document_family_by_extension(p: Seq<char>, e: Seq<char>)
    requires
        extension_of(p) == Some(e),
    ensures
        lower_seq(e) == "txt"@ || lower_seq(e) == "gui"@ || lower_seq(e) == "gfx"@ || lower_seq(e) == "asset"@
            || lower_seq(e) == "mod"@ ==> document_family_of(p) == Some(DocumentFamily::Clausewitz),
        lower_seq(e) == "yml"@ || lower_seq(e) == "yaml"@ ==> document_family_of(p) == Some(DocumentFamily::Localisation),
        lower_seq(e) == "csv"@ ==> document_family_of(p) == Some(DocumentFamily::Csv),
        lower_seq(e) == "json"@ ==> document_family_of(p) == Some(DocumentFamily::Json),
{
    reveal_strlit("txt");
    reveal_strlit("gui");
    reveal_strlit("gfx");
    reveal_strlit("asset");
    reveal_strlit("mod");
    reveal_strlit("lua");
    reveal_strlit("yml");
    reveal_strlit("yaml");
    reveal_strlit("csv");
    reveal_strlit("json");
    let x = lower_seq(e);
    if x.len() > 0 {
        assert(x[0] == "txt"@[0] ==> x[0] == 't');
    }
    if x == "yml"@ || x == "yaml"@ {
        assert(x[0] == 'y');
        assert(x != "txt"@ && x != "gui"@ && x != "gfx"@ && x != "asset"@ && x != "mod"@ && x != "lua"@) by {
            assert("txt"@[0] == 't' && "gui"@[0] == 'g' && "gfx"@[0] == 'g' && "asset"@[0] == 'a' && "mod"@[0] == 'm'
                && "lua"@[0] == 'l');
        }
    }
    if x == "csv"@ {
        assert(x[0] == 'c');
        assert(x != "txt"@ && x != "gui"@ && x != "gfx"@ && x != "asset"@ && x != "mod"@ && x != "lua"@ && x != "yml"@
            && x != "yaml"@) by {
            assert("txt"@[0] == 't' && "gui"@[0] == 'g' && "gfx"@[0] == 'g' && "asset"@[0] == 'a' && "mod"@[0] == 'm'
                && "lua"@[0] == 'l' && "yml"@[0] == 'y' && "yaml"@[0] == 'y');
        }
    }
    if x == "json"@ {
        assert(x[0] == 'j');
        assert(x != "txt"@ && x != "gui"@ && x != "gfx"@ && x != "asset"@ && x != "mod"@ && x != "lua"@ && x != "yml"@
            && x != "yaml"@ && x != "csv"@) by {
            assert("txt"@[0] == 't' && "gui"@[0] == 'g' && "gfx"@[0] == 'g' && "asset"@[0] == 'a' && "mod"@[0] == 'm'
                && "lua"@[0] == 'l' && "yml"@[0] == 'y' && "yaml"@[0] == 'y' && "csv"@[0] == 'c');
        }
    }
}

} // verus!

