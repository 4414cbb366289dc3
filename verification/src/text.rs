//! Character-level helpers shared by the parser and the classifiers.
use vstd::prelude::*;
use vstd::std_specs::iter::IteratorSpec;

verus! {

/// `String::push`: appends one character to the end of the string.
#[verifier::external_body]
fn push_char(s: &mut String, c: char)
    ensures
        final(s)@ == old(s)@.push(c),
{
    s.push(c);
}

/// The characters of a string slice, in order.
pub fn chars_of(s: &str) -> (v: Vec<char>)
    ensures
        v@ == s@,
{
    let mut it = s.chars();
    let mut v: Vec<char> = Vec::new();
    loop
        invariant
            v@ + it.remaining() == s@,
            it.decrease() is Some,
        ensures
            v@ == s@,
        decreases it.decrease()->0,
    {
        match it.next() {
            Some(c) => {
                v.push(c);
            }
            None => {
                break;
            }
        }
    }
    v
}

/// Builds a string from a sequence of characters.
pub fn string_from_chars(cs: &[char]) -> (s: String)
    ensures
        s@ == cs@,
{
    let mut s = String::new();
    let mut i: usize = 0;
    while i < cs.len()
        invariant
            i <= cs.len(),
            s@ == cs@.subrange(0, i as int),
        decreases cs.len() - i,
    {
        push_char(&mut s, cs[i]);
        i = i + 1;
    }
    s
}


/// The first index in `[lo, hi)` at which `stop` holds, or `hi` when there is none.
pub open spec fn first_stop(lo: int, hi: int, stop: spec_fn(int) -> bool) -> int
    decreases hi - lo,
{
    if lo >= hi || stop(lo) {
        lo
    } else {
        first_stop(lo + 1, hi, stop)
    }
}

/// The end of the longest run `[r, hi)` inside `[lo, hi)` on which `keep` fails:
/// `r` is `lo` or the index just after the last position where `keep` holds.
pub open spec fn last_keep_end(lo: int, hi: int, keep: spec_fn(int) -> bool) -> int
    decreases hi - lo,
{
    if hi <= lo || keep(hi - 1) {
        hi
    } else {
        last_keep_end(lo, hi - 1, keep)
    }
}

pub proof fn lemma_first_stop_bounds(lo: int, hi: int, stop: spec_fn(int) -> bool)
    requires
        lo <= hi,
    ensures
        lo <= first_stop(lo, hi, stop) <= hi,
        first_stop(lo, hi, stop) < hi ==> stop(first_stop(lo, hi, stop)),
        forall|k: int| lo <= k < first_stop(lo, hi, stop) ==> !#[trigger] stop(k),
    decreases hi - lo,
{
    if lo < hi && !stop(lo) {
        lemma_first_stop_bounds(lo + 1, hi, stop);
    }
}

pub proof fn lemma_last_keep_end_bounds(lo: int, hi: int, keep: spec_fn(int) -> bool)
    requires
        lo <= hi,
    ensures
        lo <= last_keep_end(lo, hi, keep) <= hi,
        last_keep_end(lo, hi, keep) > lo ==> keep(last_keep_end(lo, hi, keep) - 1),
        forall|k: int| last_keep_end(lo, hi, keep) <= k < hi ==> !#[trigger] keep(k),
    decreases hi - lo,
{
    if lo < hi && !keep(hi - 1) {
        lemma_last_keep_end_bounds(lo, hi - 1, keep);
    }
}

/// Unicode `White_Space`, the set that `char::is_whitespace` and `str::trim` use.
pub open spec fn is_unicode_ws(c: char) -> bool {
    let u = c as u32;
    ||| 0x9 <= u <= 0xD
    ||| u == 0x20
    ||| u == 0x85
    ||| u == 0xA0
    ||| u == 0x1680
    ||| 0x2000 <= u <= 0x200A
    ||| u == 0x2028
    ||| u == 0x2029
    ||| u == 0x202F
    ||| u == 0x205F
    ||| u == 0x3000
}

pub fn is_unicode_whitespace(c: char) -> (r: bool)
    ensures
        r == is_unicode_ws(c),
{
    let u = c as u32;
    (0x9 <= u && u <= 0xD) || u == 0x20 || u == 0x85 || u == 0xA0 || u == 0x1680 || (0x2000
        <= u && u <= 0x200A) || u == 0x2028 || u == 0x2029 || u == 0x202F || u == 0x205F || u
        == 0x3000
}

/// Holds at the positions of `s` that carry a non-whitespace character.
pub open spec fn not_ws_at(s: Seq<char>) -> spec_fn(int) -> bool {
    |k: int| !is_unicode_ws(s[k])
}

/// Index of the first character of `s[lo..hi]` that is not Unicode whitespace.
pub open spec fn trim_lo(s: Seq<char>, lo: int, hi: int) -> int {
    first_stop(lo, hi, not_ws_at(s))
}

/// End of `s[lo..hi]` once trailing Unicode whitespace is removed.
pub open spec fn trim_hi(s: Seq<char>, lo: int, hi: int) -> int {
    last_keep_end(trim_lo(s, lo, hi), hi, not_ws_at(s))
}

/// `s[lo..hi]` with leading and trailing Unicode whitespace removed, as `str::trim` does.
pub open spec fn trimmed(s: Seq<char>, lo: int, hi: int) -> Seq<char> {
    s.subrange(trim_lo(s, lo, hi), trim_hi(s, lo, hi))
}

/// Bounds of `s[lo..hi]` without its leading and trailing Unicode whitespace.
pub fn trim_bounds(s: &Vec<char>, lo: usize, hi: usize) -> (r: (usize, usize))
    requires
        lo <= hi <= s.len(),
    ensures
        r.0 == trim_lo(s@, lo as int, hi as int),
        r.1 == trim_hi(s@, lo as int, hi as int),
        lo <= r.0 <= r.1 <= hi,
{
    let ghost keep = not_ws_at(s@);
    let mut a = lo;
    while a < hi && is_unicode_whitespace(s[a])
        invariant
            lo <= a <= hi <= s.len(),
            keep == not_ws_at(s@),
            first_stop(lo as int, hi as int, keep) == first_stop(a as int, hi as int, keep),
        decreases hi - a,
    {
        assert(!keep(a as int));
        a = a + 1;
    }
    let mut b = hi;
    while b > a && is_unicode_whitespace(s[b - 1])
        invariant
            a <= b <= hi <= s.len(),
            keep == not_ws_at(s@),
            last_keep_end(a as int, hi as int, keep) == last_keep_end(a as int, b as int, keep),
        decreases b - a,
    {
        assert(!keep(b - 1));
        b = b - 1;
    }
    proof {
        lemma_last_keep_end_bounds(a as int, b as int, keep);
    }
    (a, b)
}

/// ASCII lower-casing of one character, as `u8::to_ascii_lowercase` does.
pub open spec fn ascii_lower(c: char) -> char {
    if 'A' <= c <= 'Z' {
        (((c as u32) + 32) as u8) as char
    } else {
        c
    }
}

pub fn to_ascii_lower(c: char) -> (r: char)
    ensures
        r == ascii_lower(c),
{
    if 'A' <= c && c <= 'Z' {
        (((c as u32) + 32) as u8) as char
    } else {
        c
    }
}

/// The number of bytes in the UTF-8 encoding of `c`.
pub open spec fn utf8_width(c: char) -> int {
    vstd::utf8::encode_scalar(c as u32).len() as int
}

pub fn char_width(c: char) -> (w: usize)
    ensures
        w == utf8_width(c),
        1 <= w <= 4,
{
    proof {
        vstd::utf8::char_is_scalar(c);
    }
    let u = c as u32;
    if u <= 0x7F {
        1
    } else if u <= 0x7FF {
        2
    } else if u <= 0xFFFF {
        3
    } else {
        4
    }
}

/// Builds a string from `cs[lo..hi]`.
pub fn string_of_range(cs: &Vec<char>, lo: usize, hi: usize) -> (s: String)
    requires
        lo <= hi <= cs.len(),
    ensures
        s@ == cs@.subrange(lo as int, hi as int),
{
    let mut s = String::new();
    let mut i: usize = lo;
    while i < hi
        invariant
            lo <= i <= hi <= cs.len(),
            s@ == cs@.subrange(lo as int, i as int),
        decreases hi - i,
    {
        push_char(&mut s, cs[i]);
        i = i + 1;
    }
    s
}

/// Appends `c` to `s` `count` times.
pub fn push_repeated(s: &mut String, c: char, count: usize)
    ensures
        final(s)@ == old(s)@ + Seq::new(count as nat, |_k: int| c),
{
    let mut i: usize = 0;
    while i < count
        invariant
            i <= count,
            s@ == old(s)@ + Seq::new(i as nat, |_k: int| c),
        decreases count - i,
    {
        push_char(s, c);
        i = i + 1;
        assert(s@ =~= old(s)@ + Seq::new(i as nat, |_k: int| c));
    }
}

/// Appends one character.
pub fn push(s: &mut String, c: char)
    ensures
        final(s)@ == old(s)@.push(c),
{
    push_char(s, c);
}

/// UTF-8 encoding distributes over concatenation.
pub proof fn lemma_encode_utf8_concat(a: Seq<char>, b: Seq<char>)
    ensures
        vstd::utf8::encode_utf8(a + b) == vstd::utf8::encode_utf8(a) + vstd::utf8::encode_utf8(b),
    decreases a.len(),
{
    if a.len() == 0 {
        assert(a + b =~= b);
        assert(vstd::utf8::encode_utf8(a) =~= Seq::<u8>::empty());
        assert(vstd::utf8::encode_utf8(a) + vstd::utf8::encode_utf8(b) =~= vstd::utf8::encode_utf8(b));
    } else {
        assert((a + b).drop_first() =~= a.drop_first() + b);
        assert((a + b)[0] == a[0]);
        lemma_encode_utf8_concat(a.drop_first(), b);
        assert(vstd::utf8::encode_utf8(a + b) =~= vstd::utf8::encode_scalar(a[0] as u32)
            + vstd::utf8::encode_utf8(a.drop_first() + b));
    }
}

/// The byte length of a prefix grows by the width of the next character.
pub proof fn lemma_encoded_prefix_step(cs: Seq<char>, i: int)
    requires
        0 <= i < cs.len(),
    ensures
        vstd::utf8::encode_utf8(cs.subrange(0, i + 1)).len() == vstd::utf8::encode_utf8(
            cs.subrange(0, i),
        ).len() + utf8_width(cs[i]),
{
    assert(cs.subrange(0, i + 1) =~= cs.subrange(0, i) + seq![cs[i]]);
    lemma_encode_utf8_concat(cs.subrange(0, i), seq![cs[i]]);
    let one = seq![cs[i]];
    assert(one.drop_first() =~= Seq::<char>::empty());
    assert(vstd::utf8::encode_utf8(one.drop_first()) =~= Seq::<u8>::empty());
    assert(vstd::utf8::encode_utf8(one) == vstd::utf8::encode_scalar(one[0] as u32)
        + vstd::utf8::encode_utf8(one.drop_first()));
    assert(vstd::utf8::encode_utf8(one) =~= vstd::utf8::encode_scalar(cs[i] as u32));
}

/// A prefix never encodes to more bytes than the whole sequence.
pub proof fn lemma_encoded_prefix_le(cs: Seq<char>, i: int)
    requires
        0 <= i <= cs.len(),
    ensures
        vstd::utf8::encode_utf8(cs.subrange(0, i)).len() <= vstd::utf8::encode_utf8(cs).len(),
{
    assert(cs =~= cs.subrange(0, i) + cs.subrange(i, cs.len() as int));
    lemma_encode_utf8_concat(cs.subrange(0, i), cs.subrange(i, cs.len() as int));
}


/// ASCII lower-casing of every character, as `str::to_ascii_lowercase` does.
pub open spec fn lower_seq(s: Seq<char>) -> Seq<char> {
    s.map_values(|c: char| ascii_lower(c))
}

pub fn lower_chars(s: &Vec<char>) -> (r: Vec<char>)
    ensures
        r@ == lower_seq(s@),
{
    let mut r: Vec<char> = Vec::new();
    let mut i: usize = 0;
    while i < s.len()
        invariant
            i <= s.len(),
            r@ == lower_seq(s@.subrange(0, i as int)),
        decreases s.len() - i,
    {
        let c = to_ascii_lower(s[i]);
        r.push(c);
        i = i + 1;
        assert(r@ =~= lower_seq(s@.subrange(0, i as int)));
    }
    assert(s@.subrange(0, s.len() as int) =~= s@);
    r
}

/// Whether `s` holds an ASCII upper-case letter.
pub open spec fn has_ascii_upper(s: Seq<char>) -> bool {
    exists|i: int| 0 <= i < s.len() && 'A' <= #[trigger] s[i] <= 'Z'
}

pub fn contains_ascii_upper(s: &Vec<char>) -> (r: bool)
    ensures
        r == has_ascii_upper(s@),
{
    let mut i: usize = 0;
    while i < s.len()
        invariant
            i <= s.len(),
            forall|k: int| 0 <= k < i ==> !('A' <= #[trigger] s@[k] <= 'Z'),
        decreases s.len() - i,
    {
        if 'A' <= s[i] && s[i] <= 'Z' {
            return true;
        }
        i = i + 1;
    }
    false
}

/// Lower-casing leaves a character that is not an ASCII capital unchanged,
/// and a second lower-casing changes nothing.
pub proof fn lemma_ascii_lower_char(c: char)
    ensures
        !('A' <= c <= 'Z') ==> ascii_lower(c) == c,
        ascii_lower(ascii_lower(c)) == ascii_lower(c),
        !('A' <= ascii_lower(c) <= 'Z'),
{
    if 'A' <= c <= 'Z' {
        let u = c as u32;
        assert(65 <= u <= 90);
        let v = ((u + 32) as u8) as char;
        assert(97 <= v as u32 <= 122);
    }
}

pub proof fn lemma_lower_seq_props(s: Seq<char>)
    ensures
        !has_ascii_upper(s) ==> lower_seq(s) == s,
        lower_seq(lower_seq(s)) == lower_seq(s),
        !has_ascii_upper(lower_seq(s)),
{
    assert forall|i: int| 0 <= i < s.len() implies ascii_lower(ascii_lower(#[trigger] s[i]))
        == ascii_lower(s[i]) && !('A' <= ascii_lower(s[i]) <= 'Z') && (!('A' <= s[i] <= 'Z')
        ==> ascii_lower(s[i]) == s[i]) by {
        lemma_ascii_lower_char(s[i]);
    }
    assert(lower_seq(lower_seq(s)) =~= lower_seq(s));
    if !has_ascii_upper(s) {
        assert(lower_seq(s) =~= s);
    }
}

/// String equality, decided on the UTF-8 bytes.
pub fn str_eq(a: &str, b: &str) -> (r: bool)
    ensures
        r == (a@ == b@),
{
    let x = a.as_bytes();
    let y = b.as_bytes();
    proof {
        vstd::utf8::encode_utf8_decode_utf8(a@);
        vstd::utf8::encode_utf8_decode_utf8(b@);
    }
    if x.len() != y.len() {
        return false;
    }
    let mut i: usize = 0;
    while i < x.len()
        invariant
            i <= x.len() == y.len(),
            x@ == vstd::utf8::encode_utf8(a@),
            y@ == vstd::utf8::encode_utf8(b@),
            forall|k: int| 0 <= k < i ==> x@[k] == y@[k],
        decreases x.len() - i,
    {
        if x[i] != y[i] {
            return false;
        }
        i = i + 1;
    }
    assert(x@ =~= y@);
    true
}

/// `s` begins with `p`.
pub open spec fn has_prefix(s: Seq<char>, p: Seq<char>) -> bool {
    p.len() <= s.len() && s.subrange(0, p.len() as int) == p
}

/// `s` ends with `p`.
pub open spec fn has_suffix(s: Seq<char>, p: Seq<char>) -> bool {
    p.len() <= s.len() && s.subrange(s.len() - p.len(), s.len() as int) == p
}

pub fn chars_start_with(s: &Vec<char>, p: &Vec<char>) -> (r: bool)
    ensures
        r == has_prefix(s@, p@),
{
    if p.len() > s.len() {
        return false;
    }
    let mut i: usize = 0;
    while i < p.len()
        invariant
            i <= p.len() <= s.len(),
            forall|k: int| 0 <= k < i ==> s@[k] == p@[k],
        decreases p.len() - i,
    {
        if s[i] != p[i] {
            assert(s@.subrange(0, p.len() as int)[i as int] != p@[i as int]);
            return false;
        }
        i = i + 1;
    }
    assert(s@.subrange(0, p.len() as int) =~= p@);
    true
}

pub fn chars_end_with(s: &Vec<char>, p: &Vec<char>) -> (r: bool)
    ensures
        r == has_suffix(s@, p@),
{
    if p.len() > s.len() {
        return false;
    }
    let off = s.len() - p.len();
    let mut i: usize = 0;
    while i < p.len()
        invariant
            i <= p.len() <= s.len(),
            off == s.len() - p.len(),
            forall|k: int| 0 <= k < i ==> s@[off + k] == p@[k],
        decreases p.len() - i,
    {
        if s[off + i] != p[i] {
            assert(s@.subrange(off as int, s.len() as int)[i as int] != p@[i as int]);
            return false;
        }
        i = i + 1;
    }
    assert(s@.subrange(off as int, s.len() as int) =~= p@);
    true
}

/// `str::starts_with` with a string pattern.
pub fn str_starts_with(s: &str, p: &str) -> (r: bool)
    ensures
        r == has_prefix(s@, p@),
{
    chars_start_with(&chars_of(s), &chars_of(p))
}

/// `str::ends_with` with a string pattern.
pub fn str_ends_with(s: &str, p: &str) -> (r: bool)
    ensures
        r == has_suffix(s@, p@),
{
    chars_end_with(&chars_of(s), &chars_of(p))
}

/// Byte-wise equality.
pub fn bytes_eq(a: &Vec<u8>, b: &Vec<u8>) -> (r: bool)
    ensures
        r == (a@ == b@),
{
    if a.len() != b.len() {
        return false;
    }
    let mut i: usize = 0;
    while i < a.len()
        invariant
            i <= a.len() == b.len(),
            forall|k: int| 0 <= k < i ==> a@[k] == b@[k],
        decreases a.len() - i,
    {
        if a[i] != b[i] {
            return false;
        }
        i = i + 1;
    }
    assert(a@ =~= b@);
    true
}

/// Character-wise equality.
pub fn chars_eq(a: &Vec<char>, b: &Vec<char>) -> (r: bool)
    ensures
        r == (a@ == b@),
{
    if a.len() != b.len() {
        return false;
    }
    let mut i: usize = 0;
    while i < a.len()
        invariant
            i <= a.len() == b.len(),
            a@.subrange(0, i as int) == b@.subrange(0, i as int),
        decreases a.len() - i,
    {
        if a[i] != b[i] {
            assert(a@[i as int] != b@[i as int]);
            return false;
        }
        i = i + 1;
        assert(a@.subrange(0, i as int) =~= b@.subrange(0, i as int));
    }
    assert(a@ =~= a@.subrange(0, a.len() as int));
    assert(b@ =~= b@.subrange(0, b.len() as int));
    true
}

/// The characters of `s` equal those of the literal `lit`.
pub fn eq_lit(s: &Vec<char>, lit: &str) -> (r: bool)
    ensures
        r == (s@ == lit@),
{
    let l = chars_of(lit);
    chars_eq(s, &l)
}

/// Lexicographic order on character sequences by code point, the order of
/// `String`'s `Ord` (byte order of UTF-8 is code point order).
pub open spec fn seq_lt(a: Seq<char>, b: Seq<char>) -> bool
    decreases a.len(),
{
    if a.len() == 0 {
        b.len() > 0
    } else if b.len() == 0 {
        false
    } else if a[0] != b[0] {
        (a[0] as u32) < (b[0] as u32)
    } else {
        seq_lt(a.drop_first(), b.drop_first())
    }
}

pub proof fn lemma_seq_lt_trichotomy(a: Seq<char>, b: Seq<char>)
    ensures
        a == b || seq_lt(a, b) || seq_lt(b, a),
        !(seq_lt(a, b) && seq_lt(b, a)),
        !seq_lt(a, a),
    decreases a.len(),
{
    if a.len() > 0 && b.len() > 0 && a[0] == b[0] {
        lemma_seq_lt_trichotomy(a.drop_first(), b.drop_first());
        if a.drop_first() == b.drop_first() {
            assert(a =~= seq![a[0]] + a.drop_first());
            assert(b =~= seq![b[0]] + b.drop_first());
        }
    }
    if a.len() > 0 {
        lemma_seq_lt_trichotomy(a.drop_first(), a.drop_first());
    }
    if a.len() > 0 && b.len() > 0 && a[0] != b[0] {
        vstd::utf8::char_is_scalar(a[0]);
        vstd::utf8::char_is_scalar(b[0]);
        if (a[0] as u32) == (b[0] as u32) {
            vstd::utf8::char_u32_cast(a[0], a[0] as u32);
            vstd::utf8::char_u32_cast(b[0], b[0] as u32);
        }
    }
    if a.len() == 0 && b.len() == 0 {
        assert(a =~= b);
    }
}

pub fn chars_lt(a: &Vec<char>, b: &Vec<char>) -> (r: bool)
    ensures
        r == seq_lt(a@, b@),
{
    let mut i: usize = 0;
    assert(a@.subrange(0, a.len() as int) =~= a@);
    assert(b@.subrange(0, b.len() as int) =~= b@);
    while i < a.len() && i < b.len() && a[i] == b[i]
        invariant
            i <= a.len(),
            i <= b.len(),
            seq_lt(a@, b@) == seq_lt(a@.subrange(i as int, a.len() as int), b@.subrange(
                i as int,
                b.len() as int,
            )),
        decreases a.len() - i,
    {
        let ghost sa = a@.subrange(i as int, a.len() as int);
        let ghost sb = b@.subrange(i as int, b.len() as int);
        assert(sa.drop_first() =~= a@.subrange(i + 1, a.len() as int));
        assert(sb.drop_first() =~= b@.subrange(i + 1, b.len() as int));
        i = i + 1;
    }
    if i == a.len() {
        i < b.len()
    } else if i == b.len() {
        false
    } else {
        (a[i] as u32) < (b[i] as u32)
    }
}

} // verus!
