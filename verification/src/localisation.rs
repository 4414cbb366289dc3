//! Localisation files: `l_<language>:` section headers followed by
//! `KEY:0 "text"` entries, read at the byte level so that values in legacy
//! code pages are accepted as they are. Keys are collected with their line
//! and column, and a key repeated within one language section is reported
//! as a duplicate.

use vstd::prelude::*;
use crate::model::{LocalisationDefinition, LocalisationDuplicate, ParseIssue};

verus! {

/// `u8::is_ascii_whitespace`: space, tab, line feed, form feed, carriage return.
pub open spec fn is_ascii_ws(b: u8) -> bool {
    b == 32 || b == 9 || b == 10 || b == 12 || b == 13
}

pub open spec fn is_ascii_alnum(b: u8) -> bool {
    (48 <= b <= 57) || (65 <= b <= 90) || (97 <= b <= 122)
}

/// `s` without its leading ASCII whitespace.
pub open spec fn trim_start(s: Seq<u8>) -> Seq<u8>
    decreases s.len(),
{
    if s.len() > 0 && is_ascii_ws(s[0]) {
        trim_start(s.drop_first())
    } else {
        s
    }
}

/// `s` without its trailing ASCII whitespace.
pub open spec fn trim_end(s: Seq<u8>) -> Seq<u8>
    decreases s.len(),
{
    if s.len() > 0 && is_ascii_ws(s.last()) {
        trim_end(s.drop_last())
    } else {
        s
    }
}

/// The index of the first `b` in `s`, or `s.len()` where there is none.
pub open spec fn first_index(s: Seq<u8>, b: u8) -> int
    decreases s.len(),
{
    if s.len() == 0 {
        0
    } else if s[0] == b {
        0
    } else {
        1 + first_index(s.drop_first(), b)
    }
}

pub proof fn lemma_first_index(s: Seq<u8>, b: u8)
    ensures
        0 <= first_index(s, b) <= s.len(),
        forall|i: int| 0 <= i < first_index(s, b) ==> s[i] != b,
        first_index(s, b) < s.len() ==> s[first_index(s, b)] == b,
    decreases s.len(),
{
    if s.len() > 0 && s[0] != b {
        lemma_first_index(s.drop_first(), b);
        assert forall|i: int| 0 <= i < first_index(s, b) implies s[i] != b by {
            if i > 0 {
                assert(s[i] == s.drop_first()[i - 1]);
            }
        }
    }
}

pub proof fn lemma_trim_start(s: Seq<u8>)
    ensures
        trim_start(s).len() <= s.len(),
        trim_start(s) == s.subrange(s.len() - trim_start(s).len(), s.len() as int),
        trim_start(s).len() > 0 ==> !is_ascii_ws(trim_start(s)[0]),
        forall|i: int| 0 <= i < s.len() - trim_start(s).len() ==> is_ascii_ws(#[trigger] s[i]),
    decreases s.len(),
{
    if s.len() > 0 && is_ascii_ws(s[0]) {
        lemma_trim_start(s.drop_first());
        assert forall|i: int| 0 <= i < s.len() - trim_start(s).len() implies is_ascii_ws(
            #[trigger] s[i],
        ) by {
            if i > 0 {
                assert(s[i] == s.drop_first()[i - 1]);
            }
        }
        assert(s.drop_first().subrange(
            s.drop_first().len() - trim_start(s).len(),
            s.drop_first().len() as int,
        ) =~= s.subrange(s.len() - trim_start(s).len(), s.len() as int));
    } else {
        assert(s.subrange(0, s.len() as int) =~= s);
    }
}

pub proof fn lemma_trim_end(s: Seq<u8>)
    ensures
        trim_end(s).len() <= s.len(),
        trim_end(s) == s.subrange(0, trim_end(s).len() as int),
        trim_end(s).len() > 0 ==> !is_ascii_ws(trim_end(s).last()),
        forall|i: int| trim_end(s).len() <= i < s.len() ==> is_ascii_ws(#[trigger] s[i]),
    decreases s.len(),
{
    if s.len() > 0 && is_ascii_ws(s.last()) {
        lemma_trim_end(s.drop_last());
        assert forall|i: int| trim_end(s).len() <= i < s.len() implies is_ascii_ws(
            #[trigger] s[i],
        ) by {
            if i < s.len() - 1 {
                assert(s[i] == s.drop_last()[i]);
            }
        }
        assert(s.drop_last().subrange(0, trim_end(s).len() as int) =~= s.subrange(
            0,
            trim_end(s).len() as int,
        ));
    } else {
        assert(s.subrange(0, s.len() as int) =~= s);
    }
}

/// `slice::trim_ascii_start`, on a line.
pub fn trim_ascii_start(bytes: &Vec<u8>) -> (r: Vec<u8>)
    ensures
        r@ == trim_start(bytes@),
{
    let mut i: usize = 0;
    assert(bytes@.subrange(0, bytes.len() as int) =~= bytes@);
    while i < bytes.len() && (bytes[i] == 32 || bytes[i] == 9 || bytes[i] == 10 || bytes[i] == 12
        || bytes[i] == 13)
        invariant
            i <= bytes.len(),
            trim_start(bytes@) == trim_start(bytes@.subrange(i as int, bytes.len() as int)),
        decreases bytes.len() - i,
    {
        assert(bytes@.subrange(i as int, bytes.len() as int).drop_first() =~= bytes@.subrange(
            i + 1,
            bytes.len() as int,
        ));
        i = i + 1;
    }
    let mut r: Vec<u8> = Vec::new();
    let start = i;
    while i < bytes.len()
        invariant
            start <= i <= bytes.len(),
            r@ == bytes@.subrange(start as int, i as int),
        decreases bytes.len() - i,
    {
        r.push(bytes[i]);
        i = i + 1;
        assert(r@ =~= bytes@.subrange(start as int, i as int));
    }
    r
}

/// `slice::trim_ascii_end`, on a line.
pub fn trim_ascii_end(bytes: &Vec<u8>) -> (r: Vec<u8>)
    ensures
        r@ == trim_end(bytes@),
{
    let mut n: usize = bytes.len();
    assert(bytes@.subrange(0, n as int) =~= bytes@);
    while n > 0 && (bytes[n - 1] == 32 || bytes[n - 1] == 9 || bytes[n - 1] == 10 || bytes[n - 1]
        == 12 || bytes[n - 1] == 13)
        invariant
            n <= bytes.len(),
            trim_end(bytes@) == trim_end(bytes@.subrange(0, n as int)),
        decreases n,
    {
        assert(bytes@.subrange(0, n as int).drop_last() =~= bytes@.subrange(0, n - 1));
        n = n - 1;
    }
    let mut r: Vec<u8> = Vec::new();
    let mut i: usize = 0;
    while i < n
        invariant
            i <= n <= bytes.len(),
            r@ == bytes@.subrange(0, i as int),
        decreases n - i,
    {
        r.push(bytes[i]);
        i = i + 1;
        assert(r@ =~= bytes@.subrange(0, i as int));
    }
    r
}

/// The bytes `s[lo..hi]`.
fn copy_range(s: &Vec<u8>, lo: usize, hi: usize) -> (r: Vec<u8>)
    requires
        lo <= hi <= s.len(),
    ensures
        r@ == s@.subrange(lo as int, hi as int),
{
    let mut r: Vec<u8> = Vec::new();
    let mut i: usize = lo;
    while i < hi
        invariant
            lo <= i <= hi <= s.len(),
            r@ == s@.subrange(lo as int, i as int),
        decreases hi - i,
    {
        r.push(s[i]);
        i = i + 1;
        assert(r@ =~= s@.subrange(lo as int, i as int));
    }
    r
}

/// The position of the first `b` in `s`, or `s.len()`.
fn position_of(s: &Vec<u8>, b: u8) -> (r: usize)
    ensures
        r == first_index(s@, b),
{
    proof {
        lemma_first_index(s@, b);
    }
    let mut i: usize = 0;
    while i < s.len()
        invariant
            i <= s.len(),
            forall|k: int| 0 <= k < i ==> s@[k] != b,
            0 <= first_index(s@, b) <= s@.len(),
            forall|k: int| 0 <= k < first_index(s@, b) ==> s@[k] != b,
            first_index(s@, b) < s@.len() ==> s@[first_index(s@, b)] == b,
        decreases s.len() - i,
    {
        if s[i] == b {
            return i;
        }
        i = i + 1;
    }
    i
}

/// `bytes` without `prefix` where it begins with it, else unchanged.
pub fn trim_prefix(bytes: &Vec<u8>, prefix: &[u8]) -> (r: Vec<u8>)
    ensures
        r@ == (if prefix@.len() <= bytes@.len() && bytes@.subrange(0, prefix@.len() as int)
            == prefix@ {
            bytes@.subrange(prefix@.len() as int, bytes@.len() as int)
        } else {
            bytes@
        }),
{
    if prefix.len() > bytes.len() {
        return copy_range(bytes, 0, bytes.len());
    }
    let mut i: usize = 0;
    while i < prefix.len()
        invariant
            i <= prefix.len() <= bytes.len(),
            forall|k: int| 0 <= k < i ==> bytes@[k] == prefix@[k],
        decreases prefix.len() - i,
    {
        if bytes[i] != prefix[i] {
            assert(bytes@.subrange(0, prefix@.len() as int)[i as int] != prefix@[i as int]);
            return copy_range(bytes, 0, bytes.len());
        }
        i = i + 1;
    }
    assert(bytes@.subrange(0, prefix@.len() as int) =~= prefix@);
    copy_range(bytes, prefix.len(), bytes.len())
}

/// The language of a section header line `l_<language>:`, where `<language>`
/// is one or more ASCII letters, digits or underscores; a `#` starts a
/// trailing comment.
pub open spec fn header_body(line: Seq<u8>) -> Seq<u8> {
    let t = trim_end(line);
    let idx = first_index(t, 35);
    if idx < t.len() {
        trim_end(t.subrange(0, idx))
    } else {
        t
    }
}

pub open spec fn header_language(line: Seq<u8>) -> Option<Seq<u8>> {
    let body = header_body(line);
    if body.len() >= 4 && body[0] == 108 && body[1] == 95 && body.last() == 58 && forall|i: int|
        2 <= i < body.len() - 1 ==> is_ascii_alnum(#[trigger] body[i]) || body[i] == 95 {
        Some(body.subrange(2, body.len() - 1))
    } else {
        None
    }
}

/// The characters of a run of ASCII bytes.
pub open spec fn ascii_text(s: Seq<u8>) -> Seq<char> {
    s.map_values(|b: u8| b as char)
}

fn ascii_string(s: &Vec<u8>) -> (r: String)
    requires
        forall|i: int| 0 <= i < s.len() ==> #[trigger] s@[i] < 128,
    ensures
        r@ == ascii_text(s@),
{
    let mut r = String::new();
    let mut i: usize = 0;
    while i < s.len()
        invariant
            i <= s.len(),
            r@ == ascii_text(s@.subrange(0, i as int)),
        decreases s.len() - i,
    {
        crate::text::push(&mut r, s[i] as char);
        i = i + 1;
        assert(r@ =~= ascii_text(s@.subrange(0, i as int)));
    }
    assert(s@.subrange(0, s.len() as int) =~= s@);
    r
}

pub fn parse_localisation_header_bytes(line: &Vec<u8>) -> (r: Option<String>)
    ensures
        match header_language(line@) {
            Some(lang) => r matches Some(s) && s@ == ascii_text(lang),
            None => r is None,
        },
{
    let trimmed = trim_ascii_end(line);
    let idx = position_of(&trimmed, 35);
    let body = if idx < trimmed.len() {
        let head = copy_range(&trimmed, 0, idx);
        trim_ascii_end(&head)
    } else {
        trimmed
    };
    assert(body@ == header_body(line@));
    let n = body.len();
    if n < 4 || body[0] != 108 || body[1] != 95 || body[n - 1] != 58 {
        return None;
    }
    let mut i: usize = 2;
    while i < n - 1
        invariant
            2 <= i <= n - 1,
            n == body.len(),
            n >= 4,
            body@ == header_body(line@),
            forall|k: int| 2 <= k < i ==> is_ascii_alnum(#[trigger] body@[k]) || body@[k] == 95,
        decreases n - 1 - i,
    {
        let b = body[i];
        if !((48 <= b && b <= 57) || (65 <= b && b <= 90) || (97 <= b && b <= 122) || b == 95) {
            return None;
        }
        i = i + 1;
    }
    let lang = copy_range(&body, 2, n - 1);
    assert forall|k: int| 0 <= k < lang.len() implies #[trigger] lang@[k] < 128 by {
        assert(lang@[k] == body@[k + 2]);
    }
    Some(ascii_string(&lang))
}

/// A byte that may stand in a localisation key.
pub open spec fn is_key_byte(b: u8) -> bool {
    is_ascii_alnum(b) || b == 95 || b == 46 || b == 45
}

/// The key of an entry line `KEY:<version> "<value>`: the bytes before the
/// first colon, one or more letters, digits, `_`, `.` or `-`, followed later
/// on the line by a quote that opens the value. A missing closing quote and
/// text after the closing quote are accepted, as the game's loader does.
pub open spec fn entry_key(line: Seq<u8>) -> Option<Seq<u8>> {
    let t = trim_start(line);
    let colon = first_index(t, 58);
    let key = t.subrange(0, colon);
    let rest = t.subrange(colon + 1, t.len() as int);
    if colon < t.len() && key.len() > 0 && (forall|i: int|
        0 <= i < key.len() ==> is_key_byte(#[trigger] key[i])) && first_index(rest, 34)
        < rest.len() {
        Some(key)
    } else {
        None
    }
}

/// A parsed entry line.
pub struct ParsedLocalisationEntry {
    pub key: String,
    pub key_bytes: Vec<u8>,
}

pub fn parse_localisation_entry_bytes(line: &Vec<u8>) -> (r: Option<ParsedLocalisationEntry>)
    ensures
        match entry_key(line@) {
            Some(key) => r matches Some(e) && e.key@ == ascii_text(key) && e.key_bytes@ == key,
            None => r is None,
        },
{
    let trimmed = trim_ascii_start(line);
    let colon = position_of(&trimmed, 58);
    if colon >= trimmed.len() || colon == 0 {
        return None;
    }
    let mut i: usize = 0;
    while i < colon
        invariant
            i <= colon < trimmed.len(),
            trimmed@ == trim_start(line@),
            colon == first_index(trimmed@, 58),
            forall|k: int| 0 <= k < i ==> is_key_byte(#[trigger] trimmed@[k]),
        decreases colon - i,
    {
        let b = trimmed[i];
        if !((48 <= b && b <= 57) || (65 <= b && b <= 90) || (97 <= b && b <= 122) || b == 95 || b
            == 46 || b == 45) {
            assert(trimmed@.subrange(0, colon as int)[i as int] == b);
            return None;
        }
        i = i + 1;
    }
    let key_bytes = copy_range(&trimmed, 0, colon);
    let rest = copy_range(&trimmed, colon + 1, trimmed.len());
    if position_of(&rest, 34) >= rest.len() {
        return None;
    }
    assert forall|k: int| 0 <= k < key_bytes.len() implies #[trigger] key_bytes@[k] < 128 by {
        assert(key_bytes@[k] == trimmed@[k]);
    }
    let key = ascii_string(&key_bytes);
    Some(ParsedLocalisationEntry { key, key_bytes })
}

/// The first position at which `needle` occurs in `haystack`, searching
/// from `from`.
pub open spec fn find_from(haystack: Seq<u8>, needle: Seq<u8>, from: int) -> Option<int>
    decreases haystack.len() + 1 - from,
{
    if from < 0 || from + needle.len() > haystack.len() {
        None
    } else if haystack.subrange(from, from + needle.len()) == needle {
        Some(from)
    } else {
        find_from(haystack, needle, from + 1)
    }
}

pub proof fn lemma_find_from_bounds(haystack: Seq<u8>, needle: Seq<u8>, from: int)
    ensures
        find_from(haystack, needle, from) matches Some(i) ==> from <= i && i + needle.len()
            <= haystack.len() && haystack.subrange(i, i + needle.len()) == needle,
    decreases haystack.len() + 1 - from,
{
    if !(from < 0 || from + needle.len() > haystack.len()) && haystack.subrange(
        from,
        from + needle.len(),
    ) != needle {
        lemma_find_from_bounds(haystack, needle, from + 1);
    }
}

pub fn find_subslice(haystack: &Vec<u8>, needle: &Vec<u8>) -> (r: Option<usize>)
    ensures
        r == (match find_from(haystack@, needle@, 0) {
            Some(i) => Some(i as usize),
            None => None::<usize>,
        }),
        r matches Some(i) ==> i + needle.len() <= haystack.len(),
{
    if needle.len() == 0 {
        assert(haystack@.subrange(0, 0) =~= needle@);
        return Some(0);
    }
    if needle.len() > haystack.len() {
        return None;
    }
    let last = haystack.len() - needle.len();
    let mut from: usize = 0;
    while from <= last
        invariant
            last == haystack.len() - needle.len(),
            from <= last + 1,
            find_from(haystack@, needle@, 0) == find_from(haystack@, needle@, from as int),
        decreases last + 1 - from,
    {
        let mut j: usize = 0;
        let mut same = true;
        while same && j < needle.len()
            invariant
                j <= needle.len(),
                from + needle.len() <= haystack.len(),
                forall|k: int| 0 <= k < j ==> haystack@[from + k] == needle@[k],
                !same ==> j < needle.len() && haystack@[from + j] != needle@[j as int],
            decreases needle.len() - j + (if same { 1int } else { 0int }),
        {
            if haystack[from + j] != needle[j] {
                same = false;
            } else {
                j = j + 1;
            }
        }
        if same {
            assert(haystack@.subrange(from as int, from + needle.len()) =~= needle@);
            return Some(from);
        }
        assert(haystack@.subrange(from as int, from + needle.len())[j as int] != needle@[j as int]);
        from = from + 1;
    }
    None
}

/// The segments of `b` between line feeds, from first to last.
pub open spec fn split_newlines(b: Seq<u8>) -> Seq<Seq<u8>>
    decreases b.len(),
{
    if b.len() == 0 {
        seq![Seq::<u8>::empty()]
    } else {
        let r = split_newlines(b.drop_last());
        if b.last() == 10 {
            r.push(Seq::empty())
        } else {
            r.update(r.len() - 1, r.last().push(b.last()))
        }
    }
}

pub proof fn lemma_split_newlines_nonempty(b: Seq<u8>)
    ensures
        split_newlines(b).len() >= 1,
    decreases b.len(),
{
    if b.len() > 0 {
        lemma_split_newlines_nonempty(b.drop_last());
    }
}

/// A line without the carriage return that ends it, if any.
pub open spec fn strip_cr(l: Seq<u8>) -> Seq<u8> {
    if l.len() > 0 && l.last() == 13 {
        l.drop_last()
    } else {
        l
    }
}

/// The lines of a file: split at line feeds, each without a trailing
/// carriage return; an empty last line is dropped, except that an empty file
/// has one empty line. Line `n` is element `n - 1`.
pub open spec fn lines_of(b: Seq<u8>) -> Seq<Seq<u8>> {
    let segs = split_newlines(b);
    let body = segs.drop_last().map_values(|l: Seq<u8>| strip_cr(l));
    let last = strip_cr(segs.last());
    if last.len() > 0 || b.len() == 0 {
        body.push(last)
    } else {
        body
    }
}

pub open spec fn byte_views(v: Seq<Vec<u8>>) -> Seq<Seq<u8>> {
    v.map_values(|x: Vec<u8>| x@)
}

fn strip_cr_vec(v: Vec<u8>) -> (r: Vec<u8>)
    ensures
        r@ == strip_cr(v@),
{
    let mut v = v;
    if v.len() > 0 && v[v.len() - 1] == 13 {
        v.pop();
    }
    v
}

/// The lines of `bytes`, as `lines_of` gives them.
pub fn line_slices(bytes: &[u8]) -> (r: Vec<Vec<u8>>)
    ensures
        byte_views(r@) == lines_of(bytes@),
{
    let mut lines: Vec<Vec<u8>> = Vec::new();
    let mut cur: Vec<u8> = Vec::new();
    let mut i: usize = 0;
    assert(bytes@.subrange(0, 0) =~= Seq::<u8>::empty());
    while i < bytes.len()
        invariant
            i <= bytes.len(),
            byte_views(lines@) == split_newlines(bytes@.subrange(0, i as int)).drop_last().map_values(
                |l: Seq<u8>| strip_cr(l),
            ),
            cur@ == split_newlines(bytes@.subrange(0, i as int)).last(),
        decreases bytes.len() - i,
    {
        let ghost prev = split_newlines(bytes@.subrange(0, i as int));
        proof {
            lemma_split_newlines_nonempty(bytes@.subrange(0, i as int));
        }
        assert(bytes@.subrange(0, i + 1).drop_last() =~= bytes@.subrange(0, i as int));
        if bytes[i] == 10 {
            let done = strip_cr_vec(cur);
            let ghost old_lines = lines@;
            lines.push(done);
            cur = Vec::new();
            assert(byte_views(lines@) =~= byte_views(old_lines).push(strip_cr(prev.last())));
            assert(byte_views(lines@) =~= prev.map_values(|l: Seq<u8>| strip_cr(l)));
            assert(prev.map_values(|l: Seq<u8>| strip_cr(l)) =~= prev.push(
                Seq::<u8>::empty(),
            ).drop_last().map_values(|l: Seq<u8>| strip_cr(l)));
        } else {
            cur.push(bytes[i]);
            assert(prev.update(prev.len() - 1, prev.last().push(bytes@[i as int])).drop_last()
                =~= prev.drop_last());
        }
        i = i + 1;
    }
    proof {
        lemma_split_newlines_nonempty(bytes@);
    }
    assert(bytes@.subrange(0, bytes.len() as int) =~= bytes@);
    let last = strip_cr_vec(cur);
    if last.len() > 0 || bytes.len() == 0 {
        lines.push(last);
    }
    lines
}

/// The 16-bit units of UTF-16 text, two bytes each, in the given byte order.
pub open spec fn utf16_units(raw: Seq<u8>, little_endian: bool) -> Seq<u16> {
    Seq::new(
        (raw.len() / 2) as nat,
        |i: int|
            if little_endian {
                (raw[2 * i] + 256 * raw[2 * i + 1]) as u16
            } else {
                (256 * raw[2 * i] + raw[2 * i + 1]) as u16
            },
    )
}

/// UTF-16 decoding, as `String::from_utf16` does it: a unit outside the
/// surrogate range is a character; a high surrogate followed by a low one is
/// the character they encode together; any other surrogate is an error.
pub open spec fn decode_utf16(u: Seq<u16>) -> Option<Seq<char>>
    decreases u.len(),
{
    if u.len() == 0 {
        Some(Seq::empty())
    } else if u[0] < 0xD800 || u[0] > 0xDFFF {
        prefixed(seq![u[0] as char], decode_utf16(u.drop_first()))
    } else if u[0] <= 0xDBFF && u.len() >= 2 && 0xDC00 <= u[1] <= 0xDFFF {
        prefixed(
            seq![(0x10000 + (u[0] - 0xD800) * 0x400 + (u[1] - 0xDC00)) as char],
            decode_utf16(u.subrange(2, u.len() as int)),
        )
    } else {
        None
    }
}

pub open spec fn prefixed(p: Seq<char>, o: Option<Seq<char>>) -> Option<Seq<char>> {
    match o {
        Some(r) => Some(p + r),
        None => None,
    }
}

proof fn lemma_prefixed_push(s: Seq<char>, c: char, x: Option<Seq<char>>)
    ensures
        prefixed(s, prefixed(seq![c], x)) == prefixed(s.push(c), x),
{
    if let Some(r) = x {
        assert(s + (seq![c] + r) =~= s.push(c) + r);
    }
}

/// `char::from_u32`: the character with the given code point, or `None`
/// where the value is above `0x10FFFF` or a surrogate.
#[verifier::external_body]
fn char_from_u32(v: u32) -> (r: Option<char>)
    ensures
        r is Some <==> (v <= 0x10FFFF && !(0xD800 <= v <= 0xDFFF)),
        r matches Some(c) ==> c as u32 == v,
{
    char::from_u32(v)
}

/// Decodes UTF-16 text in the given byte order and re-encodes it as UTF-8.
pub fn decode_utf16_with_bom(raw: &[u8], little_endian: bool) -> (r: Result<Vec<u8>, String>)
    ensures
        match r {
            Ok(bytes) => raw@.len() % 2 == 0 && (decode_utf16(utf16_units(raw@, little_endian))
                matches Some(cs) && bytes@ == vstd::utf8::encode_utf8(cs)),
            Err(msg) => (raw@.len() % 2 != 0 || decode_utf16(utf16_units(raw@, little_endian))
                is None) && msg@ == "invalid utf-16 localisation file"@,
        },
{
    if raw.len() % 2 != 0 {
        return Err("invalid utf-16 localisation file".to_owned());
    }
    let mut units: Vec<u16> = Vec::new();
    let mut k: usize = 0;
    while k < raw.len() / 2
        invariant
            k <= raw.len() / 2,
            raw.len() % 2 == 0,
            units@ == utf16_units(raw@, little_endian).subrange(0, k as int),
        decreases raw.len() / 2 - k,
    {
        let a = raw[2 * k] as u16;
        let b = raw[2 * k + 1] as u16;
        let unit = if little_endian {
            a + 256 * b
        } else {
            256 * a + b
        };
        units.push(unit);
        k = k + 1;
        assert(units@ =~= utf16_units(raw@, little_endian).subrange(0, k as int));
    }
    let ghost u = utf16_units(raw@, little_endian);
    assert(units@ =~= u);
    let mut s = String::new();
    let mut i: usize = 0;
    assert(u.subrange(0, u.len() as int) =~= u);
    while i < units.len()
        invariant
            i <= units.len(),
            units@ == u,
            u == utf16_units(raw@, little_endian),
            decode_utf16(u) == prefixed(s@, decode_utf16(u.subrange(i as int, u.len() as int))),
        decreases units.len() - i,
    {
        let w = units[i];
        let ghost rest = u.subrange(i as int, u.len() as int);
        if w < 0xD800 || w > 0xDFFF {
            let c = char_from_u32(w as u32);
            match c {
                Some(c) => {
                    proof {
                        vstd::utf8::char_u32_cast(c, w as u32);
                        assert(rest.drop_first() =~= u.subrange(i + 1, u.len() as int));
                        lemma_prefixed_push(s@, c, decode_utf16(rest.drop_first()));
                    }
                    crate::text::push(&mut s, c);
                    i = i + 1;
                },
                None => {
                    return Err("invalid utf-16 localisation file".to_owned());
                },
            }
        } else if w <= 0xDBFF && i + 1 < units.len() && 0xDC00 <= units[i + 1] && units[i + 1]
            <= 0xDFFF {
            let lo = units[i + 1];
            let v: u32 = 0x10000 + (w as u32 - 0xD800) * 0x400 + (lo as u32 - 0xDC00);
            let c = char_from_u32(v);
            match c {
                Some(c) => {
                    proof {
                        vstd::utf8::char_u32_cast(c, v);
                        assert(rest.subrange(2, rest.len() as int) =~= u.subrange(
                            i + 2,
                            u.len() as int,
                        ));
                        lemma_prefixed_push(s@, c, decode_utf16(rest.subrange(2, rest.len() as int)));
                    }
                    crate::text::push(&mut s, c);
                    i = i + 2;
                },
                None => {
                    return Err("invalid utf-16 localisation file".to_owned());
                },
            }
        } else {
            assert(rest[0] == w);
            assert(i + 1 < units.len() ==> rest[1] == units@[i + 1]);
            assert(decode_utf16(rest) is None);
            return Err("invalid utf-16 localisation file".to_owned());
        }
    }
    assert(u.subrange(i as int, u.len() as int) =~= Seq::<u16>::empty());
    assert(s@ + Seq::<char>::empty() =~= s@);
    let bytes = vstd::slice::slice_to_vec(s.as_str().as_bytes());
    Ok(bytes)
}

/// The text of a localisation file as UTF-8 bytes: UTF-16 with a byte order
/// mark is decoded; anything else is taken as it is.
pub open spec fn normalized_source(raw: Seq<u8>) -> Option<Seq<u8>> {
    if raw.len() >= 2 && raw[0] == 0xFF && raw[1] == 0xFE {
        let rest = raw.subrange(2, raw.len() as int);
        if rest.len() % 2 == 0 && decode_utf16(utf16_units(rest, true)) is Some {
            Some(vstd::utf8::encode_utf8(decode_utf16(utf16_units(rest, true))->0))
        } else {
            None
        }
    } else if raw.len() >= 2 && raw[0] == 0xFE && raw[1] == 0xFF {
        let rest = raw.subrange(2, raw.len() as int);
        if rest.len() % 2 == 0 && decode_utf16(utf16_units(rest, false)) is Some {
            Some(vstd::utf8::encode_utf8(decode_utf16(utf16_units(rest, false))->0))
        } else {
            None
        }
    } else {
        Some(raw)
    }
}

pub fn normalize_localisation_source(raw: &[u8]) -> (r: Result<Vec<u8>, String>)
    ensures
        match normalized_source(raw@) {
            Some(b) => r matches Ok(v) && v@ == b,
            None => r matches Err(m) && m@ == "invalid utf-16 localisation file"@,
        },
{
    if raw.len() >= 2 && raw[0] == 0xFF && raw[1] == 0xFE {
        let rest = vstd::slice::slice_subrange(raw, 2, raw.len());
        return decode_utf16_with_bom(rest, true);
    }
    if raw.len() >= 2 && raw[0] == 0xFE && raw[1] == 0xFF {
        let rest = vstd::slice::slice_subrange(raw, 2, raw.len());
        return decode_utf16_with_bom(rest, false);
    }
    Ok(vstd::slice::slice_to_vec(raw))
}

/// The keys seen so far in the current language section, with the line of
/// their latest definition.
pub open spec fn assoc_map(s: Seq<(Seq<u8>, nat)>) -> Map<Seq<u8>, nat>
    decreases s.len(),
{
    if s.len() == 0 {
        Map::empty()
    } else {
        assoc_map(s.drop_last()).insert(s.last().0, s.last().1)
    }
}

pub open spec fn keys_unique(s: Seq<(Seq<u8>, nat)>) -> bool {
    forall|i: int, j: int| 0 <= i < j < s.len() ==> #[trigger] s[i].0 != #[trigger] s[j].0
}

proof fn lemma_assoc_find(s: Seq<(Seq<u8>, nat)>, k: int)
    requires
        keys_unique(s),
        0 <= k < s.len(),
    ensures
        assoc_map(s).contains_key(s[k].0),
        assoc_map(s)[s[k].0] == s[k].1,
    decreases s.len(),
{
    if k < s.len() - 1 {
        assert(s[k].0 != s[s.len() - 1].0);
        lemma_assoc_find(s.drop_last(), k);
    }
}

proof fn lemma_assoc_absent(s: Seq<(Seq<u8>, nat)>, key: Seq<u8>)
    requires
        forall|i: int| 0 <= i < s.len() ==> #[trigger] s[i].0 != key,
    ensures
        !assoc_map(s).contains_key(key),
    decreases s.len(),
{
    if s.len() > 0 {
        lemma_assoc_absent(s.drop_last(), key);
    }
}

proof fn lemma_assoc_update(s: Seq<(Seq<u8>, nat)>, k: int, v: nat)
    requires
        keys_unique(s),
        0 <= k < s.len(),
    ensures
        assoc_map(s.update(k, (s[k].0, v))) =~= assoc_map(s).insert(s[k].0, v),
    decreases s.len(),
{
    let t = s.update(k, (s[k].0, v));
    if k == s.len() - 1 {
        assert(t.drop_last() =~= s.drop_last());
    } else {
        assert(t.drop_last() =~= s.drop_last().update(k, (s[k].0, v)));
        lemma_assoc_update(s.drop_last(), k, v);
        assert(s[k].0 != s.last().0);
    }
}

/// One issue: its line and message; the column is always 1.
pub struct LocIssueModel {
    pub line: nat,
    pub message: Seq<char>,
}

pub struct LocEntryModel {
    pub key: Seq<u8>,
    pub line: nat,
    pub column: nat,
}

pub struct LocDuplicateModel {
    pub key: Seq<u8>,
    pub first_line: nat,
    pub duplicate_line: nat,
}

/// The state of a scan through the lines of a file.
pub struct LocScan {
    pub header_seen: bool,
    pub saw_active_line: bool,
    pub header_issue_emitted: bool,
    pub seen: Map<Seq<u8>, nat>,
    pub entries: Seq<LocEntryModel>,
    pub duplicates: Seq<LocDuplicateModel>,
    pub issues: Seq<LocIssueModel>,
}

pub open spec fn initial_scan() -> LocScan {
    LocScan {
        header_seen: false,
        saw_active_line: false,
        header_issue_emitted: false,
        seen: Map::empty(),
        entries: Seq::empty(),
        duplicates: Seq::empty(),
        issues: Seq::empty(),
    }
}

/// A line without the UTF-8 byte order mark that starts it, if any.
pub open spec fn strip_bom(l: Seq<u8>) -> Seq<u8> {
    if l.len() >= 3 && l[0] == 0xEF && l[1] == 0xBB && l[2] == 0xBF {
        l.subrange(3, l.len() as int)
    } else {
        l
    }
}

/// The 1-based column of `key` in `line`: where it first occurs, else 1.
pub open spec fn key_column(line: Seq<u8>, key: Seq<u8>) -> nat {
    match find_from(line, key, 0) {
        Some(i) => (i + 1) as nat,
        None => 1,
    }
}

/// One line of the scan. Blank lines and comments are skipped; a header opens
/// a language section and forgets the keys seen so far; before the first
/// header the first active line is reported once; after it each line is an
/// entry, and a key seen before in the section is reported with the line of
/// its latest definition.
pub open spec fn scan_step(st: LocScan, n: nat, raw_line: Seq<u8>) -> LocScan {
    let line = if n == 1 {
        strip_bom(raw_line)
    } else {
        raw_line
    };
    let t = trim_start(line);
    if t.len() == 0 || t[0] == 35 {
        st
    } else if header_language(t) is Some {
        LocScan { saw_active_line: true, header_seen: true, seen: Map::empty(), ..st }
    } else if !st.header_seen {
        if !st.header_issue_emitted {
            LocScan {
                saw_active_line: true,
                header_issue_emitted: true,
                issues: st.issues.push(
                    LocIssueModel { line: n, message: "missing or invalid localisation header"@ },
                ),
                ..st
            }
        } else {
            LocScan { saw_active_line: true, ..st }
        }
    } else {
        match entry_key(t) {
            None => LocScan {
                saw_active_line: true,
                issues: st.issues.push(
                    LocIssueModel { line: n, message: "invalid localisation entry"@ },
                ),
                ..st
            },
            Some(key) => LocScan {
                saw_active_line: true,
                seen: st.seen.insert(key, n),
                entries: st.entries.push(
                    LocEntryModel { key, line: n, column: key_column(line, key) },
                ),
                duplicates: if st.seen.contains_key(key) {
                    st.duplicates.push(
                        LocDuplicateModel { key, first_line: st.seen[key], duplicate_line: n },
                    )
                } else {
                    st.duplicates
                },
                ..st
            },
        }
    }
}

/// The scan over lines `1..=lines.len()`.
pub open spec fn scan(lines: Seq<Seq<u8>>) -> LocScan
    decreases lines.len(),
{
    if lines.len() == 0 {
        initial_scan()
    } else {
        scan_step(scan(lines.drop_last()), lines.len(), lines.last())
    }
}

/// The scan's issues, with a closing report where active lines were seen
/// but no header was, and none was reported yet.
pub open spec fn final_issues(st: LocScan) -> Seq<LocIssueModel> {
    if st.saw_active_line && !st.header_seen && !st.header_issue_emitted {
        st.issues.push(LocIssueModel { line: 1, message: "missing localisation header"@ })
    } else {
        st.issues
    }
}

/// What parsing a file gives: its entries, duplicates and issues.
pub open spec fn localisation_outcome(raw: Seq<u8>) -> (
    Seq<LocEntryModel>,
    Seq<LocDuplicateModel>,
    Seq<LocIssueModel>,
) {
    match normalized_source(raw) {
        None => (
            Seq::empty(),
            Seq::empty(),
            seq![LocIssueModel { line: 1, message: "invalid utf-16 localisation file"@ }],
        ),
        Some(b) => {
            let st = scan(lines_of(b));
            (st.entries, st.duplicates, final_issues(st))
        },
    }
}

/// Line `m` (1-based) as the scan reads it: without the byte order mark on
/// the first line, and without leading whitespace.
pub open spec fn scanned_line(lines: Seq<Seq<u8>>, m: int) -> Seq<u8> {
    let raw = lines[m - 1];
    trim_start(
        if m == 1 {
            strip_bom(raw)
        } else {
            raw
        },
    )
}

/// Line `m` opens a language section.
pub open spec fn is_header_line(lines: Seq<Seq<u8>>, m: int) -> bool {
    let t = scanned_line(lines, m);
    t.len() > 0 && t[0] != 35 && header_language(t) is Some
}

/// The key that line `m` would define as an entry.
pub open spec fn line_key(lines: Seq<Seq<u8>>, m: int) -> Option<Seq<u8>> {
    entry_key(scanned_line(lines, m))
}

/// A reported duplicate: both lines define its key, the first comes before
/// the second, and no section header stands between them.
pub open spec fn duplicate_within_section(lines: Seq<Seq<u8>>, d: LocDuplicateModel) -> bool {
    &&& 1 <= d.first_line < d.duplicate_line <= lines.len()
    &&& line_key(lines, d.first_line as int) == Some(d.key)
    &&& line_key(lines, d.duplicate_line as int) == Some(d.key)
    &&& forall|m: int| d.first_line < m < d.duplicate_line ==> !#[trigger] is_header_line(lines, m)
}

spec fn sections_ok(lines: Seq<Seq<u8>>, st: LocScan) -> bool {
    &&& forall|key: Seq<u8>| #[trigger]
        st.seen.contains_key(key) ==> {
            &&& 1 <= st.seen[key] <= lines.len()
            &&& line_key(lines, st.seen[key] as int) == Some(key)
            &&& forall|m: int|
                st.seen[key] < m <= lines.len() ==> !#[trigger] is_header_line(lines, m)
        }
    &&& forall|j: int|
        0 <= j < st.duplicates.len() ==> duplicate_within_section(lines, #[trigger] st.duplicates[j])
}

proof fn lemma_scan_sections(lines: Seq<Seq<u8>>)
    ensures
        sections_ok(lines, scan(lines)),
    decreases lines.len(),
{
    if lines.len() > 0 {
        let prev = lines.drop_last();
        let n = lines.len() as int;
        lemma_scan_sections(prev);
        let st0 = scan(prev);
        let st = scan(lines);
        assert forall|m: int| 1 <= m <= prev.len() implies #[trigger] scanned_line(lines, m)
            == scanned_line(prev, m) by {
            assert(lines[m - 1] == prev[m - 1]);
        }
        assert forall|m: int| 1 <= m <= prev.len() implies #[trigger] is_header_line(lines, m)
            == is_header_line(prev, m) && line_key(lines, m) == line_key(prev, m) by {
            assert(scanned_line(lines, m) == scanned_line(prev, m));
        }
        let t = scanned_line(lines, n);
        assert(t == trim_start(
            if n == 1 {
                strip_bom(lines.last())
            } else {
                lines.last()
            },
        ));
        assert forall|key: Seq<u8>| #[trigger] st.seen.contains_key(key) implies {
            &&& 1 <= st.seen[key] <= lines.len()
            &&& line_key(lines, st.seen[key] as int) == Some(key)
            &&& forall|m: int|
                st.seen[key] < m <= lines.len() ==> !#[trigger] is_header_line(lines, m)
        } by {
            if st0.seen.contains_key(key) && st.seen[key] == st0.seen[key] {
                assert forall|m: int| st.seen[key] < m <= lines.len() implies !#[trigger] is_header_line(
                    lines,
                    m,
                ) by {
                    if m < n {
                        assert(!is_header_line(prev, m));
                    }
                }
            }
        }
        assert forall|j: int| 0 <= j < st.duplicates.len() implies duplicate_within_section(
            lines,
            #[trigger] st.duplicates[j],
        ) by {
            let d = st.duplicates[j];
            if j < st0.duplicates.len() {
                assert(d == st0.duplicates[j]);
                assert(duplicate_within_section(prev, d));
                assert forall|m: int| d.first_line < m < d.duplicate_line implies !#[trigger] is_header_line(
                    lines,
                    m,
                ) by {
                    assert(!is_header_line(prev, m));
                }
            } else {
                let key = d.key;
                assert(st0.seen.contains_key(key));
                assert forall|m: int| d.first_line < m < d.duplicate_line implies !#[trigger] is_header_line(
                    lines,
                    m,
                ) by {
                    assert(!is_header_line(prev, m));
                }
            }
        }
    }
}

/// Keys are scoped per language section: every duplicate that a scan reports
/// names two lines that define the same key, the first before the second,
/// with no section header between them. A key reused under another header
/// (as `l_english` and `l_german` blocks of one file do) is not reported.
pub proof fn lemma_duplicates_stay_within_a_section(lines: Seq<Seq<u8>>, j: int)
    requires
        0 <= j < scan(lines).duplicates.len(),
    ensures
        duplicate_within_section(lines, scan(lines).duplicates[j]),
{
    lemma_scan_sections(lines);
}

/// One entry of a parsed localisation file.
pub struct ParsedLocalisationEntryData {
    pub definition: LocalisationDefinition,
}

/// The entries, duplicates and issues of one localisation file.
pub struct ParsedLocalisationFile {
    pub entries: Vec<ParsedLocalisationEntryData>,
    pub duplicates: Vec<LocalisationDuplicate>,
    pub parse_issues: Vec<ParseIssue>,
}

pub open spec fn entries_match(
    v: Seq<ParsedLocalisationEntryData>,
    m: Seq<LocEntryModel>,
    mod_id: Seq<char>,
    path: Seq<char>,
) -> bool {
    &&& v.len() == m.len()
    &&& forall|i: int|
        0 <= i < v.len() ==> {
            let d = #[trigger] v[i].definition;
            &&& d.key@ == ascii_text(m[i].key)
            &&& d.mod_id@ == mod_id
            &&& d.path@ == path
            &&& d.line == m[i].line
            &&& d.column == m[i].column
        }
}

pub open spec fn duplicates_match(
    v: Seq<LocalisationDuplicate>,
    m: Seq<LocDuplicateModel>,
    mod_id: Seq<char>,
    path: Seq<char>,
) -> bool {
    &&& v.len() == m.len()
    &&& forall|i: int|
        0 <= i < v.len() ==> {
            let d = #[trigger] v[i];
            &&& d.key@ == ascii_text(m[i].key)
            &&& d.mod_id@ == mod_id
            &&& d.path@ == path
            &&& d.first_line == m[i].first_line
            &&& d.duplicate_line == m[i].duplicate_line
        }
}

pub open spec fn issues_match(
    v: Seq<ParseIssue>,
    m: Seq<LocIssueModel>,
    mod_id: Seq<char>,
    path: Seq<char>,
) -> bool {
    &&& v.len() == m.len()
    &&& forall|i: int|
        0 <= i < v.len() ==> {
            let d = #[trigger] v[i];
            &&& d.mod_id@ == mod_id
            &&& d.path@ == path
            &&& d.line == m[i].line
            &&& d.column == 1
            &&& d.message@ == m[i].message
        }
}

/// The scanner's own state, one field for each of `LocScan`'s.
struct LocScanner {
    header_seen: bool,
    saw_active_line: bool,
    header_issue_emitted: bool,
    seen: Vec<(Vec<u8>, usize)>,
    entries: Vec<ParsedLocalisationEntryData>,
    duplicates: Vec<LocalisationDuplicate>,
    issues: Vec<ParseIssue>,
}

pub open spec fn seen_view(s: Seq<(Vec<u8>, usize)>) -> Seq<(Seq<u8>, nat)> {
    s.map_values(|p: (Vec<u8>, usize)| (p.0@, p.1 as nat))
}

impl LocScanner {
    spec fn matches(&self, st: LocScan, mod_id: Seq<char>, path: Seq<char>) -> bool {
        &&& self.header_seen == st.header_seen
        &&& self.saw_active_line == st.saw_active_line
        &&& self.header_issue_emitted == st.header_issue_emitted
        &&& keys_unique(seen_view(self.seen@))
        &&& assoc_map(seen_view(self.seen@)) == st.seen
        &&& entries_match(self.entries@, st.entries, mod_id, path)
        &&& duplicates_match(self.duplicates@, st.duplicates, mod_id, path)
        &&& issues_match(self.issues@, st.issues, mod_id, path)
    }

    fn push_issue(&mut self, mod_id: &str, path: &str, line: usize, message: &str)
        ensures
            final(self).header_seen == old(self).header_seen,
            final(self).saw_active_line == old(self).saw_active_line,
            final(self).header_issue_emitted == old(self).header_issue_emitted,
            final(self).seen == old(self).seen,
            final(self).entries == old(self).entries,
            final(self).duplicates == old(self).duplicates,
            final(self).issues@ == old(self).issues@.push(final(self).issues@.last()),
            final(self).issues@.last().mod_id@ == mod_id@,
            final(self).issues@.last().path@ == path@,
            final(self).issues@.last().line == line,
            final(self).issues@.last().column == 1,
            final(self).issues@.last().message@ == message@,
    {
        self.issues.push(
            ParseIssue {
                mod_id: mod_id.to_owned(),
                path: path.to_owned(),
                line,
                column: 1,
                message: message.to_owned(),
            },
        );
    }

    /// The position in `seen` of `key`.
    fn find_seen(&self, key: &Vec<u8>) -> (r: Option<usize>)
        ensures
            match r {
                Some(k) => k < self.seen.len() && seen_view(self.seen@)[k as int].0 == key@,
                None => forall|i: int|
                    0 <= i < self.seen.len() ==> #[trigger] seen_view(self.seen@)[i].0 != key@,
            },
    {
        let mut i: usize = 0;
        while i < self.seen.len()
            invariant
                i <= self.seen.len(),
                forall|j: int| 0 <= j < i ==> #[trigger] seen_view(self.seen@)[j].0 != key@,
            decreases self.seen.len() - i,
        {
            if crate::text::bytes_eq(&self.seen[i].0, key) {
                return Some(i);
            }
            i = i + 1;
        }
        None
    }

    fn step(
        &mut self,
        Ghost(st): Ghost<LocScan>,
        mod_id: &str,
        path: &str,
        n: usize,
        raw_line: &Vec<u8>,
    )
        requires
            old(self).matches(st, mod_id@, path@),
        ensures
            final(self).matches(scan_step(st, n as nat, raw_line@), mod_id@, path@),
    {
        let line = if n == 1 {
            let mut bom: Vec<u8> = Vec::new();
            bom.push(0xEF);
            bom.push(0xBB);
            bom.push(0xBF);
            assert(bom@ =~= seq![0xEFu8, 0xBBu8, 0xBFu8]);
            proof {
                let l = raw_line@;
                if l.len() >= 3 && l[0] == 0xEF && l[1] == 0xBB && l[2] == 0xBF {
                    assert(l.subrange(0, 3) =~= bom@);
                }
                if l.len() >= 3 && l.subrange(0, 3) == bom@ {
                    assert(l[0] == l.subrange(0, 3)[0]);
                    assert(l[1] == l.subrange(0, 3)[1]);
                    assert(l[2] == l.subrange(0, 3)[2]);
                }
            }
            trim_prefix(raw_line, bom.as_slice())
        } else {
            copy_range(raw_line, 0, raw_line.len())
        };
        assert(raw_line@.subrange(0, raw_line@.len() as int) =~= raw_line@);
        assert(line@ == if n == 1 {
            strip_bom(raw_line@)
        } else {
            raw_line@
        });
        let t = trim_ascii_start(&line);
        if t.len() == 0 || t[0] == 35 {
            return;
        }
        self.saw_active_line = true;
        if parse_localisation_header_bytes(&t).is_some() {
            self.header_seen = true;
            self.seen = Vec::new();
            assert(seen_view(self.seen@) =~= Seq::<(Seq<u8>, nat)>::empty());
            return;
        }
        if !self.header_seen {
            if !self.header_issue_emitted {
                self.push_issue(mod_id, path, n, "missing or invalid localisation header");
                self.header_issue_emitted = true;
            }
            return;
        }
        match parse_localisation_entry_bytes(&t) {
            None => {
                self.push_issue(mod_id, path, n, "invalid localisation entry");
            },
            Some(entry) => {
                let ParsedLocalisationEntry { key, key_bytes } = entry;
                proof {
                    lemma_find_from_bounds(line@, key_bytes@, 0);
                }
                let column = match find_subslice(&line, &key_bytes) {
                    Some(i) => i + 1,
                    None => 1,
                };
                assert(column == key_column(line@, key_bytes@));
                let definition = LocalisationDefinition {
                    key: key.clone(),
                    mod_id: mod_id.to_owned(),
                    path: path.to_owned(),
                    line: n,
                    column,
                };
                let ghost sv = seen_view(self.seen@);
                match self.find_seen(&key_bytes) {
                    Some(k) => {
                        let first_line = self.seen[k].1;
                        proof {
                            lemma_assoc_find(sv, k as int);
                            lemma_assoc_update(sv, k as int, n as nat);
                        }
                        self.duplicates.push(
                            LocalisationDuplicate {
                                key,
                                mod_id: mod_id.to_owned(),
                                path: path.to_owned(),
                                first_line,
                                duplicate_line: n,
                            },
                        );
                        self.seen.set(k, (key_bytes, n));
                        assert(seen_view(self.seen@) =~= sv.update(k as int, (sv[k as int].0, n as nat)));
                    },
                    None => {
                        proof {
                            lemma_assoc_absent(sv, key_bytes@);
                        }
                        self.seen.push((key_bytes, n));
                        assert(seen_view(self.seen@) =~= sv.push((key_bytes@, n as nat)));
                        assert(seen_view(self.seen@).drop_last() =~= sv);
                    },
                }
                self.entries.push(ParsedLocalisationEntryData { definition });
            },
        }
    }
}

/// Parses the bytes of a localisation file: its text is normalised (UTF-16
/// with a byte order mark is decoded), split into lines and scanned.
pub fn parse_localisation_bytes(mod_id: &str, relative_path: &str, raw: &[u8]) -> (r:
    ParsedLocalisationFile)
    ensures
        entries_match(r.entries@, localisation_outcome(raw@).0, mod_id@, relative_path@),
        duplicates_match(r.duplicates@, localisation_outcome(raw@).1, mod_id@, relative_path@),
        issues_match(r.parse_issues@, localisation_outcome(raw@).2, mod_id@, relative_path@),
{
    let mut sc = LocScanner {
        header_seen: false,
        saw_active_line: false,
        header_issue_emitted: false,
        seen: Vec::new(),
        entries: Vec::new(),
        duplicates: Vec::new(),
        issues: Vec::new(),
    };
    assert(seen_view(sc.seen@) =~= Seq::<(Seq<u8>, nat)>::empty());
    let normalized = match normalize_localisation_source(raw) {
        Ok(bytes) => bytes,
        Err(message) => {
            sc.issues.push(
                ParseIssue {
                    mod_id: mod_id.to_owned(),
                    path: relative_path.to_owned(),
                    line: 1,
                    column: 1,
                    message,
                },
            );
            return ParsedLocalisationFile {
                entries: sc.entries,
                duplicates: sc.duplicates,
                parse_issues: sc.issues,
            };
        },
    };
    let lines = line_slices(normalized.as_slice());
    let ghost ls = lines_of(normalized@);
    let mut i: usize = 0;
    assert(ls.subrange(0, 0) =~= Seq::<Seq<u8>>::empty());
    while i < lines.len()
        invariant
            i <= lines.len(),
            byte_views(lines@) == ls,
            sc.matches(scan(ls.subrange(0, i as int)), mod_id@, relative_path@),
        decreases lines.len() - i,
    {
        assert(ls.subrange(0, i + 1).drop_last() =~= ls.subrange(0, i as int));
        sc.step(Ghost(scan(ls.subrange(0, i as int))), mod_id, relative_path, i + 1, &lines[i]);
        i = i + 1;
    }
    assert(ls.subrange(0, lines.len() as int) =~= ls);
    if sc.saw_active_line && !sc.header_seen && !sc.header_issue_emitted {
        sc.push_issue(mod_id, relative_path, 1, "missing localisation header");
    }
    ParsedLocalisationFile { entries: sc.entries, duplicates: sc.duplicates, parse_issues: sc.issues }
}

} // verus!
