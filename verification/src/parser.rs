//! Lexer and recursive-descent parser for Clausewitz (Paradox) script text.
//!
//! The lexer works on the characters of the source and keeps, for every
//! position, the line, the column (counted in bytes) and the byte offset of a
//! cursor that advances one character at a time.  Files whose extension is
//! `lua` (in any casing) are lexed in Lua mode, where `--` starts a comment.
use vstd::prelude::*;
use crate::paths::{has_lua_extension, is_lua_path};
use crate::text::{
    char_width, chars_of, first_stop, is_unicode_ws, lemma_encoded_prefix_le,
    lemma_encoded_prefix_step, lemma_first_stop_bounds, push, push_repeated, string_of_range,
    to_ascii_lower, ascii_lower, trim_bounds, trim_hi, trim_lo, trimmed, utf8_width,
};

verus! {

/// A position in a source file.  `column` counts bytes from the start of the
/// line (starting at 1) and `offset` counts bytes from the start of the file.
#[derive(Clone, Copy, Debug, PartialEq, Eq, Structural)]
pub struct Span {
    pub line: usize,
    pub column: usize,
    pub offset: usize,
}

#[derive(Clone, Copy, Debug, PartialEq, Eq, Structural)]
pub struct SpanRange {
    pub start: Span,
    pub end: Span,
}

#[derive(Clone, Debug, PartialEq, Eq)]
pub enum ScalarValue {
    Identifier(String),
    String(String),
    Number(String),
    Bool(bool),
}

/// Mathematical content of a [`ScalarValue`].
pub enum ScalarModel {
    Identifier(Seq<char>),
    Str(Seq<char>),
    Number(Seq<char>),
    Bool(bool),
}

impl View for ScalarValue {
    type V = ScalarModel;

    open spec fn view(&self) -> ScalarModel {
        match self {
            ScalarValue::Identifier(s) => ScalarModel::Identifier(s@),
            ScalarValue::String(s) => ScalarModel::Str(s@),
            ScalarValue::Number(s) => ScalarModel::Number(s@),
            ScalarValue::Bool(b) => ScalarModel::Bool(*b),
        }
    }
}

/// The text of a scalar as written in script: booleans read `yes` / `no`.
pub open spec fn scalar_text(v: ScalarModel) -> Seq<char> {
    match v {
        ScalarModel::Identifier(s) => s,
        ScalarModel::Str(s) => s,
        ScalarModel::Number(s) => s,
        ScalarModel::Bool(b) => if b {
            seq!['y', 'e', 's']
        } else {
            seq!['n', 'o']
        },
    }
}

/// Builds `yes` or `no`.
fn bool_text(b: bool) -> (s: String)
    ensures
        s@ == scalar_text(ScalarModel::Bool(b)),
{
    let mut s = String::new();
    if b {
        push(&mut s, 'y');
        push(&mut s, 'e');
        push(&mut s, 's');
    } else {
        push(&mut s, 'n');
        push(&mut s, 'o');
    }
    s
}

impl ScalarValue {
    pub fn as_text(&self) -> (s: String)
        ensures
            s@ == scalar_text(self@),
    {
        match self {
            ScalarValue::Identifier(value) => value.clone(),
            ScalarValue::String(value) => value.clone(),
            ScalarValue::Number(value) => value.clone(),
            ScalarValue::Bool(value) => bool_text(*value),
        }
    }

    /// A copy with the same content.
    pub fn duplicate(&self) -> (r: ScalarValue)
        ensures
            r@ == self@,
    {
        match self {
            ScalarValue::Identifier(value) => ScalarValue::Identifier(value.clone()),
            ScalarValue::String(value) => ScalarValue::String(value.clone()),
            ScalarValue::Number(value) => ScalarValue::Number(value.clone()),
            ScalarValue::Bool(value) => ScalarValue::Bool(*value),
        }
    }
}

#[derive(Debug)]
pub enum AstValue {
    Scalar { value: ScalarValue, span: SpanRange },
    Block { items: Vec<AstStatement>, span: SpanRange },
}

#[derive(Debug)]
pub enum AstStatement {
    Assignment { key: String, key_span: SpanRange, value: AstValue, span: SpanRange },
    Item { value: AstValue, span: SpanRange },
    Comment { text: String, span: SpanRange },
}

/// Mathematical content of an [`AstValue`].
pub enum ValueModel {
    Scalar { value: ScalarModel, span: SpanRange },
    Block { items: Seq<StmtModel>, span: SpanRange },
}

/// Mathematical content of an [`AstStatement`].
pub enum StmtModel {
    Assignment { key: Seq<char>, key_span: SpanRange, value: ValueModel, span: SpanRange },
    Item { value: ValueModel, span: SpanRange },
    Comment { text: Seq<char>, span: SpanRange },
}

pub open spec fn value_model(v: AstValue) -> ValueModel
    decreases v,
{
    match v {
        AstValue::Scalar { value, span } => ValueModel::Scalar { value: value@, span },
        AstValue::Block { items, span } => ValueModel::Block {
            items: stmts_model(items@),
            span,
        },
    }
}

pub open spec fn stmt_model(s: AstStatement) -> StmtModel
    decreases s,
{
    match s {
        AstStatement::Assignment { key, key_span, value, span } => StmtModel::Assignment {
            key: key@,
            key_span,
            value: value_model(value),
            span,
        },
        AstStatement::Item { value, span } => StmtModel::Item { value: value_model(value), span },
        AstStatement::Comment { text, span } => StmtModel::Comment { text: text@, span },
    }
}

pub open spec fn stmts_model(s: Seq<AstStatement>) -> Seq<StmtModel>
    decreases s,
{
    if s.len() == 0 {
        Seq::empty()
    } else {
        seq![stmt_model(s[0])] + stmts_model(s.drop_first())
    }
}

impl View for AstValue {
    type V = ValueModel;

    open spec fn view(&self) -> ValueModel {
        value_model(*self)
    }
}

impl View for AstStatement {
    type V = StmtModel;

    open spec fn view(&self) -> StmtModel {
        stmt_model(*self)
    }
}

pub open spec fn value_model_span(v: ValueModel) -> SpanRange {
    match v {
        ValueModel::Scalar { span, .. } => span,
        ValueModel::Block { span, .. } => span,
    }
}

impl AstValue {
    pub fn span(&self) -> (r: &SpanRange)
        ensures
            *r == value_model_span(self@),
    {
        match self {
            AstValue::Scalar { span, .. } => span,
            AstValue::Block { span, .. } => span,
        }
    }
}

#[derive(Debug)]
pub struct AstFile {
    pub path: String,
    pub statements: Vec<AstStatement>,
}

#[derive(Clone, Debug, PartialEq, Eq)]
pub struct ParseDiagnostic {
    pub message: String,
    pub span: SpanRange,
}

/// Mathematical content of a [`ParseDiagnostic`].
pub struct DiagModel {
    pub message: Seq<char>,
    pub span: SpanRange,
}

impl View for ParseDiagnostic {
    type V = DiagModel;

    open spec fn view(&self) -> DiagModel {
        DiagModel { message: self.message@, span: self.span }
    }
}

pub open spec fn diags_model(d: Seq<ParseDiagnostic>) -> Seq<DiagModel> {
    d.map_values(|x: ParseDiagnostic| x@)
}

#[derive(Debug)]
pub struct ParseResult {
    pub ast: AstFile,
    pub diagnostics: Vec<ParseDiagnostic>,
}

// ---------------------------------------------------------------------------
// Positions
// ---------------------------------------------------------------------------

/// Line, byte column and byte offset of a cursor, as mathematical integers.
pub struct Pos {
    pub line: int,
    pub column: int,
    pub offset: int,
}

/// The cursor position reached after the first `i` characters of `cs`: a
/// newline moves to column 1 of the next line, any other character moves the
/// column and the offset forward by its UTF-8 width.
pub open spec fn pos_at(cs: Seq<char>, i: int) -> Pos
    decreases i,
{
    if i <= 0 {
        Pos { line: 1, column: 1, offset: 0 }
    } else {
        let p = pos_at(cs, i - 1);
        if cs[i - 1] == '\n' {
            Pos { line: p.line + 1, column: 1, offset: p.offset + 1 }
        } else {
            Pos {
                line: p.line,
                column: p.column + utf8_width(cs[i - 1]),
                offset: p.offset + utf8_width(cs[i - 1]),
            }
        }
    }
}

pub open spec fn span_at(cs: Seq<char>, i: int) -> Span {
    let p = pos_at(cs, i);
    Span { line: p.line as usize, column: p.column as usize, offset: p.offset as usize }
}

/// Number of bytes in the UTF-8 encoding of `cs`.
pub open spec fn byte_len(cs: Seq<char>) -> int {
    vstd::utf8::encode_utf8(cs).len() as int
}

/// The offset of a position is the UTF-8 byte length of the text before it;
/// lines and columns stay between 1 and that offset plus one.
pub proof fn lemma_pos_at(cs: Seq<char>, i: int)
    requires
        0 <= i <= cs.len(),
    ensures
        pos_at(cs, i).offset == byte_len(cs.subrange(0, i)),
        1 <= pos_at(cs, i).line <= i + 1,
        1 <= pos_at(cs, i).column <= pos_at(cs, i).offset + 1,
        i <= pos_at(cs, i).offset <= byte_len(cs),
    decreases i,
{
    lemma_encoded_prefix_le(cs, i);
    if i == 0 {
        assert(cs.subrange(0, 0) =~= Seq::<char>::empty());
    } else {
        lemma_pos_at(cs, i - 1);
        lemma_encoded_prefix_step(cs, i - 1);
        vstd::utf8::char_is_scalar(cs[i - 1]);
    }
}

// ---------------------------------------------------------------------------
// Tokens
// ---------------------------------------------------------------------------

#[derive(Clone, Debug, PartialEq, Eq)]
enum TokenKind {
    Identifier(String),
    String(String),
    Number(String),
    Bool(bool),
    Eq,
    LBrace,
    RBrace,
    Comment(String),
    Newline,
    Eof,
}

/// Mathematical content of a token kind.
pub enum KindModel {
    Identifier(Seq<char>),
    Str(Seq<char>),
    Number(Seq<char>),
    Bool(bool),
    Eq,
    LBrace,
    RBrace,
    Comment(Seq<char>),
    Newline,
    Eof,
}

impl View for TokenKind {
    type V = KindModel;

    closed spec fn view(&self) -> KindModel {
        match self {
            TokenKind::Identifier(s) => KindModel::Identifier(s@),
            TokenKind::String(s) => KindModel::Str(s@),
            TokenKind::Number(s) => KindModel::Number(s@),
            TokenKind::Bool(b) => KindModel::Bool(*b),
            TokenKind::Eq => KindModel::Eq,
            TokenKind::LBrace => KindModel::LBrace,
            TokenKind::RBrace => KindModel::RBrace,
            TokenKind::Comment(s) => KindModel::Comment(s@),
            TokenKind::Newline => KindModel::Newline,
            TokenKind::Eof => KindModel::Eof,
        }
    }
}

#[derive(Clone, Debug, PartialEq, Eq)]
struct Token {
    kind: TokenKind,
    span: SpanRange,
}

/// Mathematical content of a token.
pub struct TokenModel {
    pub kind: KindModel,
    pub span: SpanRange,
}

impl View for Token {
    type V = TokenModel;

    closed spec fn view(&self) -> TokenModel {
        TokenModel { kind: self.kind@, span: self.span }
    }
}

// ---------------------------------------------------------------------------
// Lexical structure
// ---------------------------------------------------------------------------

pub open spec fn is_inline_ws(c: char) -> bool {
    c == ' ' || c == '\t' || c == '\r'
}

pub open spec fn is_ascii_digit(c: char) -> bool {
    '0' <= c <= '9'
}

/// Characters that end an identifier.
pub open spec fn is_delimiter(c: char) -> bool {
    c == ' ' || c == '\t' || c == '\r' || c == '\n' || c == '=' || c == '{' || c == '}' || c
        == '#'
}

/// `--` starts at position `k`.
pub open spec fn dash_pair_at(cs: Seq<char>, k: int) -> bool {
    0 <= k && k + 1 < cs.len() && cs[k] == '-' && cs[k + 1] == '-'
}

pub open spec fn ws_stop(cs: Seq<char>) -> spec_fn(int) -> bool {
    |k: int| !is_inline_ws(cs[k])
}

pub open spec fn newline_stop(cs: Seq<char>) -> spec_fn(int) -> bool {
    |k: int| cs[k] == '\n'
}

pub open spec fn quote_stop(cs: Seq<char>) -> spec_fn(int) -> bool {
    |k: int| cs[k] == '"'
}

pub open spec fn number_stop(cs: Seq<char>) -> spec_fn(int) -> bool {
    |k: int| !(is_ascii_digit(cs[k]) || cs[k] == '.')
}

pub open spec fn ident_stop(cs: Seq<char>, lua: bool) -> spec_fn(int) -> bool {
    |k: int| is_delimiter(cs[k]) || (lua && dash_pair_at(cs, k))
}

pub open spec fn eq_stop(cs: Seq<char>) -> spec_fn(int) -> bool {
    |k: int| cs[k] != '='
}

/// Where the run of `=` that starts at `i` ends.
pub open spec fn eq_run_end(cs: Seq<char>, i: int) -> int {
    first_stop(i, cs.len() as int, eq_stop(cs))
}

/// Position `b` opens a Lua long bracket `[`, `=`*level, `[`; its level.
pub open spec fn long_bracket_level(cs: Seq<char>, b: int) -> Option<int> {
    if 0 <= b < cs.len() && cs[b] == '[' {
        let r = eq_run_end(cs, b + 1);
        if r < cs.len() && cs[r] == '[' {
            Some(r - (b + 1))
        } else {
            None
        }
    } else {
        None
    }
}

/// A closing bracket `]`, `=`*level, `]` starts at `j`.
pub open spec fn closes_at(cs: Seq<char>, j: int, level: int) -> bool {
    let r = eq_run_end(cs, j + 1);
    &&& 0 <= j < cs.len()
    &&& cs[j] == ']'
    &&& r - (j + 1) == level
    &&& r < cs.len()
    &&& cs[r] == ']'
}

pub open spec fn close_stop(cs: Seq<char>, level: int) -> spec_fn(int) -> bool {
    |j: int| closes_at(cs, j, level)
}

/// End of a Lua comment whose body starts at `b` (just after `--`), and
/// whether it is an unterminated block comment.
pub open spec fn lua_comment_end(cs: Seq<char>, b: int) -> (int, bool) {
    match long_bracket_level(cs, b) {
        Some(level) => {
            let c = first_stop(b + level + 2, cs.len() as int, close_stop(cs, level));
            if c < cs.len() {
                (c + level + 2, false)
            } else {
                (cs.len() as int, true)
            }
        },
        None => (first_stop(b, cs.len() as int, newline_stop(cs)), false),
    }
}

pub open spec fn is_yes(t: Seq<char>) -> bool {
    t.len() == 3 && ascii_lower(t[0]) == 'y' && ascii_lower(t[1]) == 'e' && ascii_lower(t[2])
        == 's'
}

pub open spec fn is_no(t: Seq<char>) -> bool {
    t.len() == 2 && ascii_lower(t[0]) == 'n' && ascii_lower(t[1]) == 'o'
}

pub open spec fn unterminated_message(level: int) -> Seq<char> {
    "unterminated Lua block comment --["@ + Seq::new(level as nat, |_k: int| '=') + seq!['[']
}

/// What the lexer produces from a token that starts at `s` (after blanks):
/// its kind, the index just after it, and a diagnostic if any.
pub open spec fn lex_token_at(cs: Seq<char>, s: int, lua: bool) -> (KindModel, int, Option<
    Seq<char>,
>) {
    let n = cs.len() as int;
    if s >= n {
        (KindModel::Eof, s, None)
    } else {
        let c = cs[s];
        if c == '\n' {
            (KindModel::Newline, s + 1, None)
        } else if c == '=' {
            (KindModel::Eq, s + 1, None)
        } else if c == '{' {
            (KindModel::LBrace, s + 1, None)
        } else if c == '}' {
            (KindModel::RBrace, s + 1, None)
        } else if c == '#' {
            let e = first_stop(s + 1, n, newline_stop(cs));
            (KindModel::Comment(trimmed(cs, s + 1, e)), e, None)
        } else if c == '-' && lua && dash_pair_at(cs, s) {
            let (e, open) = lua_comment_end(cs, s + 2);
            (
                KindModel::Comment(trimmed(cs, s + 2, e)),
                e,
                if open {
                    Some(unterminated_message(long_bracket_level(cs, s + 2)->0))
                } else {
                    None
                },
            )
        } else if c == '"' {
            let q = first_stop(s + 1, n, quote_stop(cs));
            (KindModel::Str(cs.subrange(s + 1, q)), if q < n {
                q + 1
            } else {
                q
            }, None)
        } else if c == '-' || is_ascii_digit(c) {
            let e = first_stop(s + 1, n, number_stop(cs));
            (KindModel::Number(cs.subrange(s, e)), e, None)
        } else {
            let e = first_stop(s + 1, n, ident_stop(cs, lua));
            let t = trimmed(cs, s, e);
            (
                if is_yes(t) {
                    KindModel::Bool(true)
                } else if is_no(t) {
                    KindModel::Bool(false)
                } else {
                    KindModel::Identifier(t)
                },
                e,
                None,
            )
        }
    }
}

/// The token read from position `i`: inline blanks are skipped first.
pub open spec fn next_token_spec(cs: Seq<char>, i: int, lua: bool) -> (TokenModel, int, Seq<
    DiagModel,
>) {
    let s = first_stop(i, cs.len() as int, ws_stop(cs));
    let (kind, e, d) = lex_token_at(cs, s, lua);
    let span = SpanRange { start: span_at(cs, s), end: span_at(cs, e) };
    (
        TokenModel { kind, span },
        e,
        match d {
            Some(m) => seq![
                DiagModel {
                    message: m,
                    span: SpanRange { start: span_at(cs, s), end: span_at(cs, cs.len() as int) },
                },
            ],
            None => Seq::empty(),
        },
    )
}

pub proof fn lemma_first_stop_le(lo: int, hi: int, f: spec_fn(int) -> bool)
    requires
        lo <= hi,
    ensures
        lo <= first_stop(lo, hi, f) <= hi,
{
    lemma_first_stop_bounds(lo, hi, f);
}

/// Every token but the end of input moves past at least one character and
/// stays inside the source.
pub proof fn lemma_next_token_progress(cs: Seq<char>, i: int, lua: bool)
    requires
        0 <= i <= cs.len(),
    ensures
        ({
            let (t, e, d) = next_token_spec(cs, i, lua);
            &&& i <= e <= cs.len()
            &&& i <= first_stop(i, cs.len() as int, ws_stop(cs)) <= e
            &&& (t.kind is Eof <==> first_stop(i, cs.len() as int, ws_stop(cs)) == cs.len())
            &&& (t.kind is Eof ==> e == cs.len())
            &&& (!(t.kind is Eof) ==> i < e)
        }),
{
    let n = cs.len() as int;
    lemma_first_stop_bounds(i, n, ws_stop(cs));
    let s = first_stop(i, n, ws_stop(cs));
    if s < n {
        lemma_first_stop_bounds(s + 1, n, newline_stop(cs));
        lemma_first_stop_bounds(s + 1, n, quote_stop(cs));
        lemma_first_stop_bounds(s + 1, n, number_stop(cs));
        lemma_first_stop_bounds(s + 1, n, ident_stop(cs, lua));
        if s + 2 <= n {
            lemma_first_stop_bounds(s + 2, n, newline_stop(cs));
            let lb = long_bracket_level(cs, s + 2);
            if lb is Some {
                let level = lb->0;
                lemma_first_stop_bounds(s + 3, n, eq_stop(cs));
                let c = first_stop(s + 2 + level + 2, n, close_stop(cs, level));
                lemma_first_stop_bounds(s + 2 + level + 2, n, close_stop(cs, level));
                if c < n {
                    assert(close_stop(cs, level)(c));
                    lemma_first_stop_bounds(c + 1, n, eq_stop(cs));
                }
            }
        }
    }
}

/// All tokens from position `i` to the end of input, with the lexer's
/// diagnostics; the last token is always the end-of-input token.
pub open spec fn lex_from(cs: Seq<char>, i: int, lua: bool) -> (Seq<TokenModel>, Seq<DiagModel>)
    decreases cs.len() - i,
{
    if i < 0 || i > cs.len() {
        (Seq::empty(), Seq::empty())
    } else {
        let (t, e, d) = next_token_spec(cs, i, lua);
        if t.kind is Eof {
            (seq![t], d)
        } else {
            proof {
                lemma_next_token_progress(cs, i, lua);
            }
            let (ts, ds) = lex_from(cs, e, lua);
            (seq![t] + ts, d + ds)
        }
    }
}

spec fn toks_model(s: Seq<Token>) -> Seq<TokenModel> {
    s.map_values(|t: Token| t@)
}

// ---------------------------------------------------------------------------
// Lexer
// ---------------------------------------------------------------------------

struct Lexer {
    chars: Vec<char>,
    index: usize,
    line: usize,
    column: usize,
    offset: usize,
    lua_mode: bool,
    diagnostics: Vec<ParseDiagnostic>,
}

impl Lexer {
    spec fn wf(&self) -> bool {
        &&& self.index <= self.chars.len()
        &&& byte_len(self.chars@) < usize::MAX
        &&& self.line == pos_at(self.chars@, self.index as int).line
        &&& self.column == pos_at(self.chars@, self.index as int).column
        &&& self.offset == pos_at(self.chars@, self.index as int).offset
    }

    /// `self` and `other` lex the same source in the same mode.
    spec fn same_source(&self, other: &Lexer) -> bool {
        &&& self.chars@ == other.chars@
        &&& self.lua_mode == other.lua_mode
    }

    fn new(source: &str, lua_mode: bool) -> (r: Lexer)
        requires
            byte_len(source@) < usize::MAX,
        ensures
            r.wf(),
            r.chars@ == source@,
            r.index == 0,
            r.lua_mode == lua_mode,
            r.diagnostics@.len() == 0,
    {
        let chars = chars_of(source);
        assert(pos_at(chars@, 0) == Pos { line: 1, column: 1, offset: 0 });
        Lexer { chars, index: 0, line: 1, column: 1, offset: 0, lua_mode, diagnostics: Vec::new() }
    }

    fn take_diagnostics(&mut self) -> (d: Vec<ParseDiagnostic>)
        ensures
            d@ == old(self).diagnostics@,
            final(self).diagnostics@.len() == 0,
    {
        let mut d = Vec::new();
        std::mem::swap(&mut d, &mut self.diagnostics);
        d
    }

    fn current_span(&self) -> (s: Span)
        requires
            self.wf(),
        ensures
            s == span_at(self.chars@, self.index as int),
    {
        proof {
            lemma_pos_at(self.chars@, self.index as int);
        }
        Span { line: self.line, column: self.column, offset: self.offset }
    }

    fn peek_char(&self) -> (r: Option<char>)
        requires
            self.wf(),
        ensures
            r == (if self.index < self.chars.len() {
                Some(self.chars@[self.index as int])
            } else {
                None::<char>
            }),
    {
        if self.index < self.chars.len() {
            Some(self.chars[self.index])
        } else {
            None
        }
    }

    fn peek_char_at(&self, k: usize) -> (r: Option<char>)
        requires
            self.wf(),
        ensures
            r == (if self.index + k < self.chars.len() {
                Some(self.chars@[self.index + k])
            } else {
                None::<char>
            }),
    {
        if k < self.chars.len() - self.index {
            Some(self.chars[self.index + k])
        } else {
            None
        }
    }

    fn advance_char(&mut self)
        requires
            old(self).wf(),
            old(self).index < old(self).chars.len(),
        ensures
            final(self).wf(),
            final(self).same_source(old(self)),
            final(self).diagnostics@ == old(self).diagnostics@,
            final(self).index == old(self).index + 1,
    {
        let c = self.chars[self.index];
        proof {
            lemma_pos_at(self.chars@, self.index + 1);
        }
        self.index = self.index + 1;
        if c == '\n' {
            self.line = self.line + 1;
            self.column = 1;
            self.offset = self.offset + 1;
        } else {
            let w = char_width(c);
            self.column = self.column + w;
            self.offset = self.offset + w;
        }
    }

    fn advance_to(&mut self, target: usize)
        requires
            old(self).wf(),
            old(self).index <= target <= old(self).chars.len(),
        ensures
            final(self).wf(),
            final(self).same_source(old(self)),
            final(self).diagnostics@ == old(self).diagnostics@,
            final(self).index == target,
    {
        while self.index < target
            invariant
                self.wf(),
                self.same_source(old(self)),
                self.diagnostics@ == old(self).diagnostics@,
                self.index <= target <= self.chars.len(),
            decreases target - self.index,
        {
            self.advance_char();
        }
    }

    fn skip_inline_whitespace(&mut self)
        requires
            old(self).wf(),
        ensures
            final(self).wf(),
            final(self).same_source(old(self)),
            final(self).diagnostics@ == old(self).diagnostics@,
            final(self).index == first_stop(
                old(self).index as int,
                old(self).chars.len() as int,
                ws_stop(old(self).chars@),
            ),
    {
        let ghost cs = self.chars@;
        let ghost i0 = self.index as int;
        let ghost n = cs.len() as int;
        while self.index < self.chars.len() && (self.chars[self.index] == ' '
            || self.chars[self.index] == '\t' || self.chars[self.index] == '\r')
            invariant
                self.wf(),
                self.same_source(old(self)),
                self.diagnostics@ == old(self).diagnostics@,
                cs == self.chars@,
                n == cs.len(),
                i0 <= self.index <= n,
                first_stop(i0, n, ws_stop(cs)) == first_stop(self.index as int, n, ws_stop(cs)),
            decreases self.chars.len() - self.index,
        {
            assert(!ws_stop(cs)(self.index as int));
            self.advance_char();
        }
    }

    /// Advances to the next newline or to the end of input.
    fn skip_to_newline(&mut self)
        requires
            old(self).wf(),
        ensures
            final(self).wf(),
            final(self).same_source(old(self)),
            final(self).diagnostics@ == old(self).diagnostics@,
            final(self).index == first_stop(
                old(self).index as int,
                old(self).chars.len() as int,
                newline_stop(old(self).chars@),
            ),
    {
        let ghost cs = self.chars@;
        let ghost i0 = self.index as int;
        let ghost n = cs.len() as int;
        while self.index < self.chars.len() && self.chars[self.index] != '\n'
            invariant
                self.wf(),
                self.same_source(old(self)),
                self.diagnostics@ == old(self).diagnostics@,
                cs == self.chars@,
                n == cs.len(),
                i0 <= self.index <= n,
                first_stop(i0, n, newline_stop(cs)) == first_stop(
                    self.index as int,
                    n,
                    newline_stop(cs),
                ),
            decreases self.chars.len() - self.index,
        {
            assert(!newline_stop(cs)(self.index as int));
            self.advance_char();
        }
    }

    /// End of the run of `=` that starts at `from`.
    fn eq_run_end_from(&self, from: usize) -> (r: usize)
        requires
            self.wf(),
            from <= self.chars.len(),
        ensures
            r == eq_run_end(self.chars@, from as int),
            from <= r <= self.chars.len(),
    {
        let ghost cs = self.chars@;
        let ghost n = cs.len() as int;
        let mut j = from;
        while j < self.chars.len() && self.chars[j] == '='
            invariant
                from <= j <= n,
                cs == self.chars@,
                n == cs.len(),
                first_stop(from as int, n, eq_stop(cs)) == first_stop(j as int, n, eq_stop(cs)),
            decreases self.chars.len() - j,
        {
            assert(!eq_stop(cs)(j as int));
            j = j + 1;
        }
        j
    }

    /// Consumes the body of a Lua comment (the `--` is already consumed).
    fn consume_lua_comment_body(&mut self, start: Span)
        requires
            old(self).wf(),
        ensures
            final(self).wf(),
            final(self).same_source(old(self)),
            final(self).index == lua_comment_end(old(self).chars@, old(self).index as int).0,
            diags_model(final(self).diagnostics@) == diags_model(old(self).diagnostics@) + (
            if lua_comment_end(old(self).chars@, old(self).index as int).1 {
                seq![
                    DiagModel {
                        message: unterminated_message(
                            long_bracket_level(old(self).chars@, old(self).index as int)->0,
                        ),
                        span: SpanRange {
                            start,
                            end: span_at(old(self).chars@, old(self).chars.len() as int),
                        },
                    },
                ]
            } else {
                Seq::<DiagModel>::empty()
            }),
    {
        let ghost cs = self.chars@;
        let ghost b = self.index as int;
        let ghost n = cs.len() as int;
        let n_exec = self.chars.len();
        if self.index < n_exec && self.chars[self.index] == '[' {
            let probe = self.eq_run_end_from(self.index + 1);
            if probe < n_exec && self.chars[probe] == '[' {
                let level = probe - (self.index + 1);
                assert(long_bracket_level(cs, b) == Some(level as int));
                self.advance_to(probe + 1);
                let ghost body = self.index as int;
                proof {
                    lemma_first_stop_bounds(body, n, close_stop(cs, level as int));
                }
                loop
                    invariant
                        self.wf(),
                        self.same_source(old(self)),
                        self.diagnostics@ == old(self).diagnostics@,
                        cs == self.chars@,
                        n == cs.len(),
                        n_exec == n,
                        body == b + level + 2,
                        b == old(self).index as int,
                        body <= self.index <= n,
                        long_bracket_level(cs, b) == Some(level as int),
                        first_stop(body, n, close_stop(cs, level as int)) == first_stop(
                            self.index as int,
                            n,
                            close_stop(cs, level as int),
                        ),
                    decreases n_exec - self.index,
                {
                    if self.index >= n_exec {
                        assert(first_stop(self.index as int, n, close_stop(cs, level as int))
                            == n);
                        assert(lua_comment_end(cs, b) == (n, true));
                        let mut message = "unterminated Lua block comment --[".to_owned();
                        push_repeated(&mut message, '=', level);
                        push(&mut message, '[');
                        assert(message@ =~= unterminated_message(level as int));
                        let end = self.current_span();
                        let ghost before = self.diagnostics@;
                        self.diagnostics.push(
                            ParseDiagnostic { message, span: SpanRange { start, end } },
                        );
                        proof {
                            assert(self.diagnostics@ == before.push(
                                ParseDiagnostic { message, span: SpanRange { start, end } },
                            ));
                            assert(diags_model(self.diagnostics@) =~= diags_model(before) + seq![
                                DiagModel {
                                    message: unterminated_message(level as int),
                                    span: SpanRange { start, end },
                                },
                            ]);
                        }
                        return;
                    }
                    if self.chars[self.index] == ']' {
                        let close_probe = self.eq_run_end_from(self.index + 1);
                        let close_level = close_probe - (self.index + 1);
                        if close_level == level && close_probe < n_exec && self.chars[close_probe]
                            == ']' {
                            assert(closes_at(cs, self.index as int, level as int));
                            assert(close_stop(cs, level as int)(self.index as int));
                            assert(first_stop(self.index as int, n, close_stop(cs, level as int))
                                == self.index);
                            assert(lua_comment_end(cs, b) == (close_probe + 1, false));
                            self.advance_to(close_probe + 1);
                            proof {
                                assert(diags_model(self.diagnostics@) =~= diags_model(
                                    old(self).diagnostics@,
                                ) + Seq::<DiagModel>::empty());
                            }
                            return;
                        }
                        assert(!close_stop(cs, level as int)(self.index as int));
                        self.advance_char();
                    } else {
                        assert(!close_stop(cs, level as int)(self.index as int));
                        self.advance_char();
                    }
                }
            }
        }
        self.skip_to_newline();
        proof {
            assert(diags_model(self.diagnostics@) =~= diags_model(old(self).diagnostics@)
                + Seq::<DiagModel>::empty());
        }
    }

    /// Reads the next token.
    fn next_token(&mut self) -> (t: Token)
        requires
            old(self).wf(),
        ensures
            final(self).wf(),
            final(self).same_source(old(self)),
            ({
                let (tm, e, d) = next_token_spec(
                    old(self).chars@,
                    old(self).index as int,
                    old(self).lua_mode,
                );
                &&& t@ == tm
                &&& final(self).index == e
                &&& diags_model(final(self).diagnostics@) == diags_model(old(self).diagnostics@)
                    + d
            }),
    {
        let ghost cs = self.chars@;
        let ghost n = cs.len() as int;
        let ghost lua = self.lua_mode;
        self.skip_inline_whitespace();
        let ghost s = self.index as int;
        let start = self.current_span();
        let n_exec = self.chars.len();
        proof {
            lemma_first_stop_bounds(old(self).index as int, n, ws_stop(cs));
        }
        if self.index >= n_exec {
            proof {
                assert(diags_model(self.diagnostics@) =~= diags_model(old(self).diagnostics@)
                    + Seq::<DiagModel>::empty());
            }
            return Token { kind: TokenKind::Eof, span: SpanRange { start, end: start } };
        }
        let c = self.chars[self.index];
        let kind;
        if c == '\n' {
            self.advance_char();
            kind = TokenKind::Newline;
        } else if c == '=' {
            self.advance_char();
            kind = TokenKind::Eq;
        } else if c == '{' {
            self.advance_char();
            kind = TokenKind::LBrace;
        } else if c == '}' {
            self.advance_char();
            kind = TokenKind::RBrace;
        } else if c == '#' {
            self.advance_char();
            let text_start = self.index;
            self.skip_to_newline();
            proof {
                lemma_first_stop_bounds(text_start as int, n, newline_stop(cs));
            }
            let (a, b) = trim_bounds(&self.chars, text_start, self.index);
            kind = TokenKind::Comment(string_of_range(&self.chars, a, b));
        } else if c == '-' && self.lua_mode && self.peek_char_at(1) == Some('-') {
            self.advance_char();
            self.advance_char();
            let text_start = self.index;
            self.consume_lua_comment_body(start);
            proof {
                let (e, open) = lua_comment_end(cs, s + 2);
                assert(e == self.index);
                assert(text_start <= self.index) by {
                    lemma_first_stop_bounds(s + 2, n, newline_stop(cs));
                    let lb = long_bracket_level(cs, s + 2);
                    if lb is Some {
                        let level = lb->0;
                        lemma_first_stop_bounds(s + 3, n, eq_stop(cs));
                        lemma_first_stop_bounds(s + 2 + level + 2, n, close_stop(cs, level));
                    }
                }
            }
            let (a, b) = trim_bounds(&self.chars, text_start, self.index);
            let text = string_of_range(&self.chars, a, b);
            kind = TokenKind::Comment(text);
            let end = self.current_span();
            return Token { kind, span: SpanRange { start, end } };
        } else if c == '"' {
            self.advance_char();
            let text_start = self.index;
            let ghost i0 = self.index as int;
            while self.index < self.chars.len() && self.chars[self.index] != '"'
                invariant
                    self.wf(),
                    self.same_source(old(self)),
                    self.diagnostics@ == old(self).diagnostics@,
                    cs == self.chars@,
                    n == cs.len(),
                    n_exec == n,
                    i0 == text_start,
                    i0 <= self.index <= n,
                    first_stop(i0, n, quote_stop(cs)) == first_stop(
                        self.index as int,
                        n,
                        quote_stop(cs),
                    ),
                decreases self.chars.len() - self.index,
            {
                assert(!quote_stop(cs)(self.index as int));
                self.advance_char();
            }
            let text = string_of_range(&self.chars, text_start, self.index);
            if self.index < self.chars.len() {
                self.advance_char();
            }
            kind = TokenKind::String(text);
        } else if c == '-' || ('0' <= c && c <= '9') {
            let text_start = self.index;
            self.advance_char();
            let ghost i0 = self.index as int;
            while self.index < self.chars.len() && (('0' <= self.chars[self.index]
                && self.chars[self.index] <= '9') || self.chars[self.index] == '.')
                invariant
                    self.wf(),
                    self.same_source(old(self)),
                    self.diagnostics@ == old(self).diagnostics@,
                    cs == self.chars@,
                    n == cs.len(),
                    n_exec == n,
                    i0 == text_start + 1,
                    i0 <= self.index <= n,
                    first_stop(i0, n, number_stop(cs)) == first_stop(
                        self.index as int,
                        n,
                        number_stop(cs),
                    ),
                decreases self.chars.len() - self.index,
            {
                assert(!number_stop(cs)(self.index as int));
                self.advance_char();
            }
            kind = TokenKind::Number(string_of_range(&self.chars, text_start, self.index));
        } else {
            let text_start = self.index;
            self.advance_char();
            let ghost i0 = self.index as int;
            loop
                invariant
                    self.wf(),
                    self.same_source(old(self)),
                    self.diagnostics@ == old(self).diagnostics@,
                    cs == self.chars@,
                    n == cs.len(),
                    n_exec == n,
                    lua == self.lua_mode,
                    i0 == text_start + 1,
                    i0 <= self.index <= n,
                    first_stop(i0, n, ident_stop(cs, lua)) == first_stop(
                        self.index as int,
                        n,
                        ident_stop(cs, lua),
                    ),
                ensures
                    self.wf(),
                    self.same_source(old(self)),
                    self.diagnostics@ == old(self).diagnostics@,
                    cs == self.chars@,
                    i0 <= self.index <= n,
                    first_stop(i0, n, ident_stop(cs, lua)) == self.index,
                decreases self.chars.len() - self.index,
            {
                if self.index >= self.chars.len() {
                    break;
                }
                let next = self.chars[self.index];
                if next == ' ' || next == '\t' || next == '\r' || next == '\n' || next == '='
                    || next == '{' || next == '}' || next == '#' {
                    assert(ident_stop(cs, lua)(self.index as int));
                    break;
                }
                if self.lua_mode && next == '-' && self.peek_char_at(1) == Some('-') {
                    assert(ident_stop(cs, lua)(self.index as int));
                    break;
                }
                assert(!ident_stop(cs, lua)(self.index as int));
                self.advance_char();
            }
            let (a, b) = trim_bounds(&self.chars, text_start, self.index);
            if b - a == 3 && to_ascii_lower(self.chars[a]) == 'y' && to_ascii_lower(
                self.chars[a + 1],
            ) == 'e' && to_ascii_lower(self.chars[a + 2]) == 's' {
                kind = TokenKind::Bool(true);
            } else if b - a == 2 && to_ascii_lower(self.chars[a]) == 'n' && to_ascii_lower(
                self.chars[a + 1],
            ) == 'o' {
                kind = TokenKind::Bool(false);
            } else {
                kind = TokenKind::Identifier(string_of_range(&self.chars, a, b));
            }
        }
        proof {
            assert(diags_model(self.diagnostics@) =~= diags_model(old(self).diagnostics@)
                + Seq::<DiagModel>::empty());
        }
        let end = self.current_span();
        Token { kind, span: SpanRange { start, end } }
    }
}


/// The whole token stream of the source read from position `i`, and the
/// lexer's diagnostics, as produced by repeated calls of the lexer.
fn tokenize(lexer: &mut Lexer) -> (toks: Vec<Token>)
    requires
        old(lexer).wf(),
    ensures
        final(lexer).wf(),
        final(lexer).same_source(old(lexer)),
        toks_model(toks@) == lex_from(old(lexer).chars@, old(lexer).index as int, old(lexer).lua_mode).0,
        diags_model(final(lexer).diagnostics@) == diags_model(old(lexer).diagnostics@) + lex_from(
            old(lexer).chars@,
            old(lexer).index as int,
            old(lexer).lua_mode,
        ).1,
{
    let ghost cs = lexer.chars@;
    let ghost lua = lexer.lua_mode;
    let ghost i0 = lexer.index as int;
    let mut tokens: Vec<Token> = Vec::new();
    loop
        invariant_except_break
            toks_model(tokens@) + lex_from(cs, lexer.index as int, lua).0 == lex_from(cs, i0, lua).0,
            diags_model(lexer.diagnostics@) + lex_from(cs, lexer.index as int, lua).1
                == diags_model(old(lexer).diagnostics@) + lex_from(cs, i0, lua).1,
        invariant
            lexer.wf(),
            lexer.same_source(old(lexer)),
            cs == lexer.chars@,
            lua == lexer.lua_mode,
            i0 == old(lexer).index as int,
        ensures
            lexer.wf(),
            lexer.same_source(old(lexer)),
            toks_model(tokens@) == lex_from(cs, i0, lua).0,
            diags_model(lexer.diagnostics@) == diags_model(old(lexer).diagnostics@) + lex_from(
                cs,
                i0,
                lua,
            ).1,
        decreases lexer.chars.len() - lexer.index,
    {
        let ghost i = lexer.index as int;
        let ghost old_diags = diags_model(lexer.diagnostics@);
        let ghost old_toks = toks_model(tokens@);
        proof {
            lemma_next_token_progress(cs, i, lua);
        }
        let t = lexer.next_token();
        let is_eof = matches!(t.kind, TokenKind::Eof);
        let ghost tm = t@;
        tokens.push(t);
        proof {
            assert(toks_model(tokens@) =~= old_toks.push(tm));
            let (ntm, e, d) = next_token_spec(cs, i, lua);
            if is_eof {
                assert(lex_from(cs, i, lua) == (seq![ntm], d));
            } else {
                let (ts, ds) = lex_from(cs, e, lua);
                assert(lex_from(cs, i, lua) == (seq![ntm] + ts, d + ds));
                assert(old_toks.push(tm) + ts =~= old_toks + (seq![ntm] + ts));
                assert(diags_model(lexer.diagnostics@) + ds =~= old_diags + (d + ds));
            }
        }
        if is_eof {
            proof {
                let (ntm, e, d) = next_token_spec(cs, i, lua);
                assert(toks_model(tokens@) =~= lex_from(cs, i0, lua).0);
            }
            break;
        }
    }
    tokens
}

// ---------------------------------------------------------------------------
// Parser specification
// ---------------------------------------------------------------------------

/// A token stream ends with exactly one end-of-input token.
pub open spec fn well_terminated(ts: Seq<TokenModel>) -> bool {
    &&& ts.len() > 0
    &&& ts.last().kind is Eof
    &&& forall|k: int| 0 <= k < ts.len() - 1 ==> !(#[trigger] ts[k].kind is Eof)
}

pub proof fn lemma_lex_from_well_terminated(cs: Seq<char>, i: int, lua: bool)
    requires
        0 <= i <= cs.len(),
    ensures
        well_terminated(lex_from(cs, i, lua).0),
    decreases cs.len() - i,
{
    let (t, e, d) = next_token_spec(cs, i, lua);
    lemma_next_token_progress(cs, i, lua);
    if !(t.kind is Eof) {
        lemma_lex_from_well_terminated(cs, e, lua);
        let ts = lex_from(cs, e, lua).0;
        let all = seq![t] + ts;
        assert forall|k: int| 0 <= k < all.len() - 1 implies !(#[trigger] all[k].kind is Eof) by {
            if k > 0 {
                assert(all[k] == ts[k - 1]);
            }
        }
        assert(all.last() == ts.last());
    }
}

/// A span starts on a line, does not end before it starts, and ends within
/// `bound` bytes.
pub open spec fn span_ok(sp: SpanRange, bound: int) -> bool {
    &&& 1 <= sp.start.line
    &&& sp.start.offset <= sp.end.offset
    &&& sp.end.offset <= bound
}

/// Every token span is sound and no token ends after a later one starts.
pub open spec fn tokens_ok(ts: Seq<TokenModel>, bound: int) -> bool {
    &&& forall|m: int| 0 <= m < ts.len() ==> span_ok(#[trigger] ts[m].span, bound)
    &&& forall|a: int, b: int| 0 <= a < b < ts.len() ==> (#[trigger] ts[a]).span.end.offset <= (#[trigger] ts[b]).span.start.offset
}

proof fn lemma_pos_offset_mono(cs: Seq<char>, i: int, j: int)
    requires
        0 <= i <= j <= cs.len(),
    ensures
        pos_at(cs, i).offset <= pos_at(cs, j).offset,
    decreases j,
{
    if i < j {
        lemma_pos_offset_mono(cs, i, j - 1);
        lemma_pos_at(cs, j - 1);
        lemma_pos_at(cs, j);
    }
}

proof fn lemma_span_at(cs: Seq<char>, i: int)
    requires
        0 <= i <= cs.len(),
        byte_len(cs) < usize::MAX,
    ensures
        span_at(cs, i).offset == pos_at(cs, i).offset,
        1 <= span_at(cs, i).line,
        span_at(cs, i).offset <= byte_len(cs),
{
    lemma_pos_at(cs, i);
}

proof fn lemma_lex_tokens_ok(cs: Seq<char>, i: int, lua: bool)
    requires
        0 <= i <= cs.len(),
        byte_len(cs) < usize::MAX,
    ensures
        tokens_ok(lex_from(cs, i, lua).0, byte_len(cs)),
        forall|m: int|
            0 <= m < lex_from(cs, i, lua).0.len() ==> pos_at(cs, i).offset <= (#[trigger] lex_from(cs, i, lua).0[m]).span.start.offset,
    decreases cs.len() - i,
{
    let (t, e, d) = next_token_spec(cs, i, lua);
    lemma_next_token_progress(cs, i, lua);
    let st = first_stop(i, cs.len() as int, ws_stop(cs));
    lemma_span_at(cs, st);
    lemma_span_at(cs, e);
    lemma_pos_offset_mono(cs, i, st);
    lemma_pos_offset_mono(cs, st, e);
    if !(t.kind is Eof) {
        lemma_lex_tokens_ok(cs, e, lua);
        let ts = lex_from(cs, e, lua).0;
        let all = seq![t] + ts;
        assert(lex_from(cs, i, lua).0 == all);
        assert forall|m: int| 0 <= m < all.len() implies span_ok(#[trigger] all[m].span, byte_len(cs)) by {
            if m > 0 {
                assert(all[m] == ts[m - 1]);
            }
        }
        assert forall|a: int, b: int| 0 <= a < b < all.len() implies (#[trigger] all[a]).span.end.offset
            <= (#[trigger] all[b]).span.start.offset by {
            assert(all[b] == ts[b - 1]);
            if a > 0 {
                assert(all[a] == ts[a - 1]);
            }
        }
        assert forall|m: int| 0 <= m < all.len() implies pos_at(cs, i).offset <= (#[trigger] all[m]).span.start.offset by {
            if m > 0 {
                assert(all[m] == ts[m - 1]);
            }
        }
    }
}

/// Newlines, comments and `=` that the parser skips before a value.
pub open spec fn filler_stop(ts: Seq<TokenModel>) -> spec_fn(int) -> bool {
    |k: int|
        !(ts[k].kind is Newline || ts[k].kind is Comment || ts[k].kind is Eq)
}

/// The token before index `j`: the token at `j - 1`, or the first one.
pub open spec fn prev_tok(ts: Seq<TokenModel>, j: int) -> TokenModel {
    if j <= 0 {
        ts[0]
    } else {
        ts[j - 1]
    }
}

/// The index after consuming the token at `i` (the end-of-input token is never consumed).
pub open spec fn bump_index(ts: Seq<TokenModel>, i: int) -> int {
    if ts[i].kind is Eof {
        i
    } else {
        i + 1
    }
}

pub open spec fn opt_seq(s: Option<StmtModel>) -> Seq<StmtModel> {
    match s {
        Some(x) => seq![x],
        None => Seq::empty(),
    }
}

pub open spec fn one_diag(message: Seq<char>, span: SpanRange) -> Seq<DiagModel> {
    seq![DiagModel { message, span }]
}

pub open spec fn dummy_value() -> ValueModel {
    ValueModel::Scalar {
        value: ScalarModel::Bool(false),
        span: SpanRange {
            start: Span { line: 0, column: 0, offset: 0 },
            end: Span { line: 0, column: 0, offset: 0 },
        },
    }
}

/// The scalar a key-like token stands for, when it is one.
pub open spec fn token_scalar(k: KindModel) -> Option<ScalarModel> {
    match k {
        KindModel::Identifier(v) => Some(ScalarModel::Identifier(v)),
        KindModel::Str(v) => Some(ScalarModel::Str(v)),
        KindModel::Number(v) => Some(ScalarModel::Number(v)),
        KindModel::Bool(b) => Some(ScalarModel::Bool(b)),
        _ => None,
    }
}

/// A value starting at token `i`: newlines, comments and `=` are skipped,
/// `{` opens a block, and a scalar followed by `=` chains to the next value.
pub open spec fn p_value(ts: Seq<TokenModel>, i: int) -> (ValueModel, int, Seq<DiagModel>)
    decreases ts.len() - i, 0int,
{
    if !(0 <= i < ts.len()) {
        (dummy_value(), i, Seq::empty())
    } else {
        let k = first_stop(i, ts.len() - 1, filler_stop(ts));
        proof {
            lemma_first_stop_bounds(i, ts.len() - 1, filler_stop(ts));
        }
        let t = ts[k];
        if t.kind is LBrace {
            if k + 1 < ts.len() {
                let (items, j, d) = p_stmts(ts, k + 1, true);
                (
                    ValueModel::Block {
                        items,
                        span: SpanRange { start: t.span.start, end: prev_tok(ts, j).span.end },
                    },
                    j,
                    d,
                )
            } else {
                (dummy_value(), i, Seq::empty())
            }
        } else if token_scalar(t.kind) is Some {
            if k + 2 < ts.len() && ts[k + 1].kind is Eq {
                p_value(ts, k + 2)
            } else {
                (
                    ValueModel::Scalar { value: token_scalar(t.kind)->0, span: t.span },
                    k + 1,
                    Seq::empty(),
                )
            }
        } else if t.kind is Comment {
            (
                ValueModel::Scalar {
                    value: ScalarModel::Identifier(t.kind->Comment_0),
                    span: t.span,
                },
                k + 1,
                Seq::empty(),
            )
        } else {
            (
                ValueModel::Scalar {
                    value: ScalarModel::Identifier("<parse-error>"@),
                    span: t.span,
                },
                bump_index(ts, k),
                one_diag("value parse failed; downgraded to empty identifier"@, t.span),
            )
        }
    }
}

/// The text a key token stands for: booleans become `yes` / `no`.
pub open spec fn key_text(s: ScalarModel) -> Seq<char> {
    scalar_text(s)
}

/// One statement starting at token `i` (not a newline, comment or end of input).
pub open spec fn p_stmt(ts: Seq<TokenModel>, i: int) -> (Option<StmtModel>, int, Seq<DiagModel>)
    decreases ts.len() - i, 1int,
{
    if !(0 <= i < ts.len() - 1) {
        (None, i, Seq::empty())
    } else {
        let first = ts[i];
        if token_scalar(first.kind) is Some {
            let sc = token_scalar(first.kind)->0;
            if ts[i + 1].kind is Eq && i + 2 < ts.len() {
                let (v, j, d) = p_value(ts, i + 2);
                (
                    Some(
                        StmtModel::Assignment {
                            key: key_text(sc),
                            key_span: first.span,
                            value: v,
                            span: SpanRange {
                                start: first.span.start,
                                end: value_model_span(v).end,
                            },
                        },
                    ),
                    j,
                    d,
                )
            } else if ts[i + 1].kind is LBrace {
                let (v, j, d) = p_value(ts, i + 1);
                (
                    Some(
                        StmtModel::Assignment {
                            key: key_text(sc),
                            key_span: first.span,
                            value: v,
                            span: SpanRange {
                                start: first.span.start,
                                end: value_model_span(v).end,
                            },
                        },
                    ),
                    j,
                    d,
                )
            } else {
                (
                    Some(
                        StmtModel::Item {
                            value: ValueModel::Scalar { value: sc, span: first.span },
                            span: first.span,
                        },
                    ),
                    i + 1,
                    Seq::empty(),
                )
            }
        } else if first.kind is LBrace {
            let (items, j, d) = p_stmts(ts, i + 1, true);
            let sp = SpanRange { start: first.span.start, end: prev_tok(ts, j).span.end };
            (Some(StmtModel::Item { value: ValueModel::Block { items, span: sp }, span: sp }), j, d)
        } else if first.kind is RBrace || first.kind is Eof {
            (None, bump_index(ts, i), Seq::empty())
        } else {
            (None, i + 1, one_diag("could not parse statement start token"@, first.span))
        }
    }
}

/// Statements from token `i` up to the end of input, or up to and including
/// the closing `}` when `stop` is set.
pub open spec fn p_stmts(ts: Seq<TokenModel>, i: int, stop: bool) -> (Seq<StmtModel>, int, Seq<
    DiagModel,
>)
    decreases ts.len() - i, 2int,
{
    if !(0 <= i < ts.len()) {
        (Seq::empty(), i, Seq::empty())
    } else {
        let t = ts[i];
        if t.kind is Eof {
            (Seq::empty(), i, Seq::empty())
        } else if t.kind is RBrace && stop {
            (Seq::empty(), i + 1, Seq::empty())
        } else if t.kind is Newline {
            p_stmts(ts, i + 1, stop)
        } else if t.kind is Comment {
            let (rest, j, d) = p_stmts(ts, i + 1, stop);
            (seq![StmtModel::Comment { text: t.kind->Comment_0, span: t.span }] + rest, j, d)
        } else {
            let (s, j, d) = p_stmt(ts, i);
            if i < j <= ts.len() {
                let (rest, k, d2) = p_stmts(ts, j, stop);
                (opt_seq(s) + rest, k, d + d2)
            } else {
                (opt_seq(s), j, d)
            }
        }
    }
}


// ---------------------------------------------------------------------------
// Parser
// ---------------------------------------------------------------------------

pub proof fn lemma_stmts_model_push(a: Seq<AstStatement>, x: AstStatement)
    ensures
        stmts_model(a.push(x)) == stmts_model(a).push(stmt_model(x)),
    decreases a.len(),
{
    if a.len() == 0 {
        assert(a.push(x).drop_first() =~= Seq::<AstStatement>::empty());
        assert(stmts_model(Seq::<AstStatement>::empty()) == Seq::<StmtModel>::empty());
        assert(a.push(x)[0] == x);
        assert(stmts_model(a) == Seq::<StmtModel>::empty());
        assert(stmts_model(a.push(x)) =~= seq![stmt_model(x)]);
    } else {
        assert(a.push(x).drop_first() =~= a.drop_first().push(x));
        assert(a.push(x)[0] == a[0]);
        lemma_stmts_model_push(a.drop_first(), x);
        assert(stmts_model(a.push(x)) =~= stmts_model(a).push(stmt_model(x)));
    }
}

/// A copy of a value with the same content.
pub fn clone_value(v: &AstValue) -> (r: AstValue)
    ensures
        r@ == v@,
    decreases v,
{
    match v {
        AstValue::Scalar { value, span } => AstValue::Scalar { value: value.duplicate(), span: *span },
        AstValue::Block { items, span } => {
            let copied = clone_statements(items);
            AstValue::Block { items: copied, span: *span }
        },
    }
}

/// A copy of a statement with the same content.
pub fn clone_statement(s: &AstStatement) -> (r: AstStatement)
    ensures
        r@ == s@,
    decreases s,
{
    match s {
        AstStatement::Assignment { key, key_span, value, span } => AstStatement::Assignment {
            key: key.clone(),
            key_span: *key_span,
            value: clone_value(value),
            span: *span,
        },
        AstStatement::Item { value, span } => AstStatement::Item {
            value: clone_value(value),
            span: *span,
        },
        AstStatement::Comment { text, span } => AstStatement::Comment {
            text: text.clone(),
            span: *span,
        },
    }
}

/// A copy of a list of statements with the same content.
pub fn clone_statements(items: &Vec<AstStatement>) -> (r: Vec<AstStatement>)
    ensures
        stmts_model(r@) == stmts_model(items@),
    decreases items,
{
    let mut r: Vec<AstStatement> = Vec::new();
    let mut i: usize = 0;
    while i < items.len()
        invariant
            i <= items.len(),
            stmts_model(r@) == stmts_model(items@.subrange(0, i as int)),
        decreases items.len() - i,
    {
        assert(decreases_to!(items => items@[i as int]));
        let c = clone_statement(&items[i]);
        proof {
            lemma_stmts_model_push(r@, c);
            lemma_stmts_model_push(items@.subrange(0, i as int), items@[i as int]);
            assert(items@.subrange(0, i + 1) =~= items@.subrange(0, i as int).push(items@[i as int]));
        }
        r.push(c);
        i = i + 1;
    }
    assert(items@.subrange(0, items.len() as int) =~= items@);
    r
}

pub open spec fn opt_stmt_model(o: Option<AstStatement>) -> Option<StmtModel> {
    match o {
        Some(s) => Some(stmt_model(s)),
        None => None,
    }
}

/// Key text and scalar of a key-like token.
fn token_key(kind: &TokenKind) -> (r: Option<(String, ScalarValue)>)
    ensures
        r is Some <==> token_scalar(kind@) is Some,
        r matches Some((key, sc)) ==> {
            &&& sc@ == token_scalar(kind@)->0
            &&& key@ == key_text(sc@)
        },
{
    match kind {
        TokenKind::Identifier(v) => Some((v.clone(), ScalarValue::Identifier(v.clone()))),
        TokenKind::String(v) => Some((v.clone(), ScalarValue::String(v.clone()))),
        TokenKind::Number(v) => Some((v.clone(), ScalarValue::Number(v.clone()))),
        TokenKind::Bool(b) => Some((bool_text(*b), ScalarValue::Bool(*b))),
        _ => None,
    }
}

fn push_diag(diags: &mut Vec<ParseDiagnostic>, message: String, span: SpanRange)
    ensures
        diags_model(final(diags)@) == diags_model(old(diags)@) + one_diag(message@, span),
{
    let ghost before = diags@;
    let d = ParseDiagnostic { message, span };
    diags.push(d);
    proof {
        assert(diags_model(diags@) =~= diags_model(before) + one_diag(message@, span));
    }
}

fn parse_value(ts: &Vec<Token>, i: usize, diags: &mut Vec<ParseDiagnostic>) -> (r: (AstValue, usize))
    requires
        well_terminated(toks_model(ts@)),
        i < ts.len(),
    ensures
        ({
            let (v, j, d) = p_value(toks_model(ts@), i as int);
            &&& r.0@ == v
            &&& r.1 == j
            &&& diags_model(final(diags)@) == diags_model(old(diags)@) + d
        }),
        i <= r.1 < ts.len(),
    decreases ts.len() - i, 0int,
{
    let ghost tm = toks_model(ts@);
    let last = ts.len() - 1;
    let mut k = i;
    while k < last && (matches!(ts[k].kind, TokenKind::Newline) || matches!(
        ts[k].kind,
        TokenKind::Comment(_),
    ) || matches!(ts[k].kind, TokenKind::Eq))
        invariant
            i <= k <= last,
            last == ts.len() - 1,
            tm == toks_model(ts@),
            first_stop(i as int, last as int, filler_stop(tm)) == first_stop(
                k as int,
                last as int,
                filler_stop(tm),
            ),
        decreases last - k,
    {
        assert(tm[k as int] == ts@[k as int]@);
        assert(!filler_stop(tm)(k as int));
        k = k + 1;
    }
    proof {
        assert(tm[k as int] == ts@[k as int]@);
        if k < last {
            assert(filler_stop(tm)(k as int));
        }
        lemma_first_stop_bounds(i as int, last as int, filler_stop(tm));
        assert(first_stop(k as int, last as int, filler_stop(tm)) == k);
    }
    let span = ts[k].span;
    match &ts[k].kind {
        TokenKind::LBrace => {
            let (items, j) = parse_statements(ts, k + 1, true, diags);
            let end = ts[j - 1].span.end;
            proof {
                assert(tm[j - 1] == ts@[j - 1]@);
            }
            (AstValue::Block { items, span: SpanRange { start: span.start, end } }, j)
        },
        TokenKind::Comment(text) => (
            AstValue::Scalar { value: ScalarValue::Identifier(text.clone()), span },
            k + 1,
        ),
        TokenKind::Identifier(_) | TokenKind::String(_) | TokenKind::Number(_) | TokenKind::Bool(
            _,
        ) => {
            let key = token_key(&ts[k].kind);
            proof {
                assert(tm[k + 1] == ts@[k + 1]@);
            }
            if k + 2 < ts.len() && matches!(ts[k + 1].kind, TokenKind::Eq) {
                parse_value(ts, k + 2, diags)
            } else {
                match key {
                    Some((_, sc)) => (AstValue::Scalar { value: sc, span }, k + 1),
                    None => (AstValue::Scalar { value: ScalarValue::Bool(false), span }, k + 1),
                }
            }
        },
        _ => {
            push_diag(diags, "value parse failed; downgraded to empty identifier".to_owned(), span);
            let j = if matches!(ts[k].kind, TokenKind::Eof) {
                k
            } else {
                k + 1
            };
            (
                AstValue::Scalar {
                    value: ScalarValue::Identifier("<parse-error>".to_owned()),
                    span,
                },
                j,
            )
        },
    }
}

fn parse_statement(ts: &Vec<Token>, i: usize, diags: &mut Vec<ParseDiagnostic>) -> (r: (
    Option<AstStatement>,
    usize,
))
    requires
        well_terminated(toks_model(ts@)),
        i + 1 < ts.len(),
    ensures
        ({
            let (s, j, d) = p_stmt(toks_model(ts@), i as int);
            &&& opt_stmt_model(r.0) == s
            &&& r.1 == j
            &&& diags_model(final(diags)@) == diags_model(old(diags)@) + d
        }),
        i < r.1 < ts.len(),
    decreases ts.len() - i, 1int,
{
    let ghost tm = toks_model(ts@);
    proof {
        assert(tm[i as int] == ts@[i as int]@);
        assert(tm[i + 1] == ts@[i + 1]@);
        assert(!(tm[i as int].kind is Eof));
    }
    let first_span = ts[i].span;
    match token_key(&ts[i].kind) {
        Some((key, sc)) => {
            if matches!(ts[i + 1].kind, TokenKind::Eq) && i + 2 < ts.len() {
                let (value, j) = parse_value(ts, i + 2, diags);
                let end = value.span().end;
                (
                    Some(
                        AstStatement::Assignment {
                            key,
                            key_span: first_span,
                            value,
                            span: SpanRange { start: first_span.start, end },
                        },
                    ),
                    j,
                )
            } else if matches!(ts[i + 1].kind, TokenKind::LBrace) {
                let (value, j) = parse_value(ts, i + 1, diags);
                let end = value.span().end;
                (
                    Some(
                        AstStatement::Assignment {
                            key,
                            key_span: first_span,
                            value,
                            span: SpanRange { start: first_span.start, end },
                        },
                    ),
                    j,
                )
            } else {
                (
                    Some(
                        AstStatement::Item {
                            value: AstValue::Scalar { value: sc, span: first_span },
                            span: first_span,
                        },
                    ),
                    i + 1,
                )
            }
        },
        None => {
            if matches!(ts[i].kind, TokenKind::LBrace) {
                let (items, j) = parse_statements(ts, i + 1, true, diags);
                let end = ts[j - 1].span.end;
                proof {
                    assert(tm[j - 1] == ts@[j - 1]@);
                }
                let sp = SpanRange { start: first_span.start, end };
                (Some(AstStatement::Item { value: AstValue::Block { items, span: sp }, span: sp }), j)
            } else if matches!(ts[i].kind, TokenKind::RBrace) {
                (None, i + 1)
            } else {
                push_diag(diags, "could not parse statement start token".to_owned(), first_span);
                (None, i + 1)
            }
        },
    }
}

fn parse_statements(ts: &Vec<Token>, i: usize, stop: bool, diags: &mut Vec<ParseDiagnostic>) -> (r: (
    Vec<AstStatement>,
    usize,
))
    requires
        well_terminated(toks_model(ts@)),
        i < ts.len(),
    ensures
        ({
            let (m, j, d) = p_stmts(toks_model(ts@), i as int, stop);
            &&& stmts_model(r.0@) == m
            &&& r.1 == j
            &&& diags_model(final(diags)@) == diags_model(old(diags)@) + d
        }),
        i <= r.1 < ts.len(),
    decreases ts.len() - i, 2int,
{
    let ghost tm = toks_model(ts@);
    let ghost target = p_stmts(tm, i as int, stop);
    let mut out: Vec<AstStatement> = Vec::new();
    let mut idx = i;
    loop
        invariant_except_break
            stmts_model(out@) + p_stmts(tm, idx as int, stop).0 == target.0,
            p_stmts(tm, idx as int, stop).1 == target.1,
            diags_model(diags@) + p_stmts(tm, idx as int, stop).2 == diags_model(old(diags)@)
                + target.2,
        invariant
            i <= idx < ts.len(),
            tm == toks_model(ts@),
            well_terminated(tm),
            target == p_stmts(tm, i as int, stop),
        ensures
            stmts_model(out@) == target.0,
            idx == target.1,
            diags_model(diags@) == diags_model(old(diags)@) + target.2,
        decreases ts.len() - idx,
    {
        let ghost before_out = stmts_model(out@);
        let ghost before_diags = diags_model(diags@);
        proof {
            assert(tm[idx as int] == ts@[idx as int]@);
        }
        if matches!(ts[idx].kind, TokenKind::Eof) {
            proof {
                assert(out@.len() >= 0);
                assert(stmts_model(out@) =~= target.0);
                assert(diags_model(diags@) =~= diags_model(old(diags)@) + target.2);
            }
            break;
        }
        if stop && matches!(ts[idx].kind, TokenKind::RBrace) {
            idx = idx + 1;
            proof {
                assert(stmts_model(out@) =~= target.0);
                assert(diags_model(diags@) =~= diags_model(old(diags)@) + target.2);
            }
            break;
        }
        match &ts[idx].kind {
            TokenKind::Newline => {
                idx = idx + 1;
            },
            TokenKind::Comment(text) => {
                let c = AstStatement::Comment { text: text.clone(), span: ts[idx].span };
                proof {
                    lemma_stmts_model_push(out@, c);
                }
                out.push(c);
                idx = idx + 1;
                proof {
                    let (rest, j, d) = p_stmts(tm, idx as int, stop);
                    assert(stmts_model(out@) + rest =~= before_out + (seq![stmt_model(c)] + rest));
                }
            },
            _ => {
                let (st, j) = parse_statement(ts, idx, diags);
                let ghost sm = opt_stmt_model(st);
                match st {
                    Some(x) => {
                        proof {
                            lemma_stmts_model_push(out@, x);
                        }
                        out.push(x);
                    },
                    None => {},
                }
                proof {
                    let (rest, k, d2) = p_stmts(tm, j as int, stop);
                    let (s1, j1, d1) = p_stmt(tm, idx as int);
                    assert(stmts_model(out@) =~= before_out + opt_seq(sm));
                    assert(stmts_model(out@) + rest =~= before_out + (opt_seq(sm) + rest));
                    assert(diags_model(diags@) + d2 =~= before_diags + (d1 + d2));
                }
                idx = j;
            },
        }
    }
    (out, idx)
}


/// Statements and diagnostics of the parse of `content`: the lexer's
/// diagnostics follow the parser's.
pub open spec fn parse_model(lua: bool, content: Seq<char>) -> (Seq<StmtModel>, Seq<DiagModel>) {
    let (ts, lex_d) = lex_from(content, 0, lua);
    let (stmts, _j, parse_d) = p_stmts(ts, 0, false);
    (stmts, parse_d + lex_d)
}

/// The text holds `--` somewhere.
pub open spec fn has_dash_pair(cs: Seq<char>) -> bool {
    exists|k: int| dash_pair_at(cs, k)
}

proof fn lemma_lua_same_token(cs: Seq<char>, i: int)
    requires
        !has_dash_pair(cs),
    ensures
        next_token_spec(cs, i, true) == next_token_spec(cs, i, false),
{
    assert(ident_stop(cs, true) =~= ident_stop(cs, false));
}

proof fn lemma_lua_same_lex(cs: Seq<char>, i: int)
    requires
        !has_dash_pair(cs),
    ensures
        lex_from(cs, i, true) == lex_from(cs, i, false),
    decreases cs.len() - i,
{
    if 0 <= i <= cs.len() {
        lemma_lua_same_token(cs, i);
        let (t, e, d) = next_token_spec(cs, i, true);
        if !(t.kind is Eof) {
            lemma_next_token_progress(cs, i, true);
            lemma_lua_same_lex(cs, e);
        }
    }
}

/// Every span of a value (and of what its block holds) is sound within
/// `bound` bytes.
pub open spec fn value_spans_ok(v: ValueModel, bound: int) -> bool
    decreases v,
{
    match v {
        ValueModel::Scalar { span, .. } => span_ok(span, bound),
        ValueModel::Block { items, span } => span_ok(span, bound) && stmts_spans_ok(items, bound),
    }
}

/// Every span of a statement is sound within `bound` bytes.
pub open spec fn stmt_spans_ok(st: StmtModel, bound: int) -> bool
    decreases st,
{
    match st {
        StmtModel::Assignment { key_span, value, span, .. } => span_ok(key_span, bound) && span_ok(span, bound)
            && value_spans_ok(value, bound),
        StmtModel::Item { value, span } => span_ok(span, bound) && value_spans_ok(value, bound),
        StmtModel::Comment { span, .. } => span_ok(span, bound),
    }
}

/// Every span of the statements is sound within `bound` bytes.
pub open spec fn stmts_spans_ok(ss: Seq<StmtModel>, bound: int) -> bool
    decreases ss,
{
    if ss.len() == 0 {
        true
    } else {
        stmt_spans_ok(ss[0], bound) && stmts_spans_ok(ss.drop_first(), bound)
    }
}

proof fn lemma_stmts_spans_ok_concat(a: Seq<StmtModel>, b: Seq<StmtModel>, bound: int)
    requires
        stmts_spans_ok(a, bound),
        stmts_spans_ok(b, bound),
    ensures
        stmts_spans_ok(a + b, bound),
    decreases a.len(),
{
    if a.len() > 0 {
        lemma_stmts_spans_ok_concat(a.drop_first(), b, bound);
        assert((a + b).drop_first() =~= a.drop_first() + b);
        assert((a + b)[0] == a[0]);
    } else {
        assert(a + b =~= b);
    }
}

proof fn lemma_one_stmt_spans_ok(x: StmtModel, bound: int)
    requires
        stmt_spans_ok(x, bound),
    ensures
        stmts_spans_ok(seq![x], bound),
{
    assert(seq![x].drop_first() =~= Seq::<StmtModel>::empty());
    assert(seq![x][0] == x);
    assert(stmts_spans_ok(Seq::<StmtModel>::empty(), bound));
    reveal_with_fuel(stmts_spans_ok, 2);
}

/// A token at or after `a` neither starts nor ends before the start of `a`.
proof fn lemma_token_after(ts: Seq<TokenModel>, bound: int, a: int, b: int)
    requires
        tokens_ok(ts, bound),
        0 <= a <= b < ts.len(),
    ensures
        ts[a].span.start.offset <= ts[b].span.start.offset,
        ts[a].span.start.offset <= ts[b].span.end.offset,
        ts[a].span.end.offset <= ts[b].span.end.offset,
{
    assert(span_ok(ts[a].span, bound));
    assert(span_ok(ts[b].span, bound));
}

proof fn lemma_p_value_spans(ts: Seq<TokenModel>, i: int, bound: int)
    requires
        tokens_ok(ts, bound),
        well_terminated(ts),
        0 <= i < ts.len(),
    ensures
        ({
            let (v, j, d) = p_value(ts, i);
            &&& i <= j <= ts.len()
            &&& value_spans_ok(v, bound)
            &&& ts[i].span.start.offset <= value_model_span(v).start.offset
        }),
    decreases ts.len() - i, 0int,
{
    let k = first_stop(i, ts.len() - 1, filler_stop(ts));
    lemma_first_stop_bounds(i, ts.len() - 1, filler_stop(ts));
    let t = ts[k];
    lemma_token_after(ts, bound, i, k);
    if t.kind is LBrace {
        assert(k + 1 < ts.len());
        lemma_p_stmts_spans(ts, k + 1, true, bound);
        let (items, j, d) = p_stmts(ts, k + 1, true);
        lemma_token_after(ts, bound, k, j - 1);
    } else if token_scalar(t.kind) is Some {
        if k + 2 < ts.len() && ts[k + 1].kind is Eq {
            lemma_p_value_spans(ts, k + 2, bound);
            lemma_token_after(ts, bound, i, k + 2);
        }
    }
}

proof fn lemma_p_stmt_spans(ts: Seq<TokenModel>, i: int, bound: int)
    requires
        tokens_ok(ts, bound),
        well_terminated(ts),
        0 <= i < ts.len(),
    ensures
        ({
            let (st, j, d) = p_stmt(ts, i);
            &&& i <= j <= ts.len()
            &&& stmts_spans_ok(opt_seq(st), bound)
        }),
    decreases ts.len() - i, 1int,
{
    if 0 <= i < ts.len() - 1 {
        let first = ts[i];
        assert(span_ok(first.span, bound));
        if token_scalar(first.kind) is Some {
            if ts[i + 1].kind is Eq && i + 2 < ts.len() {
                lemma_p_value_spans(ts, i + 2, bound);
                lemma_token_after(ts, bound, i, i + 2);
                let (v, j, d) = p_value(ts, i + 2);
                assert(value_spans_ok(v, bound));
                assert(span_ok(value_model_span(v), bound)) by {
                    match v {
                        ValueModel::Scalar { .. } => {},
                        ValueModel::Block { .. } => {},
                    }
                }
                assert(stmt_spans_ok(p_stmt(ts, i).0->0, bound));
                lemma_one_stmt_spans_ok(p_stmt(ts, i).0->0, bound);
            } else if ts[i + 1].kind is LBrace {
                lemma_p_value_spans(ts, i + 1, bound);
                lemma_token_after(ts, bound, i, i + 1);
                let (v, j, d) = p_value(ts, i + 1);
                assert(span_ok(value_model_span(v), bound)) by {
                    match v {
                        ValueModel::Scalar { .. } => {},
                        ValueModel::Block { .. } => {},
                    }
                }
                assert(stmt_spans_ok(p_stmt(ts, i).0->0, bound));
                lemma_one_stmt_spans_ok(p_stmt(ts, i).0->0, bound);
            } else {
                assert(stmt_spans_ok(p_stmt(ts, i).0->0, bound));
                lemma_one_stmt_spans_ok(p_stmt(ts, i).0->0, bound);
            }
        } else if first.kind is LBrace {
            lemma_p_stmts_spans(ts, i + 1, true, bound);
            let (items, j, d) = p_stmts(ts, i + 1, true);
            lemma_token_after(ts, bound, i, j - 1);
            assert(stmt_spans_ok(p_stmt(ts, i).0->0, bound));
            lemma_one_stmt_spans_ok(p_stmt(ts, i).0->0, bound);
        }
    }
}

proof fn lemma_p_stmts_spans(ts: Seq<TokenModel>, i: int, stop: bool, bound: int)
    requires
        tokens_ok(ts, bound),
        well_terminated(ts),
        0 <= i < ts.len(),
    ensures
        ({
            let (ss, j, d) = p_stmts(ts, i, stop);
            &&& i <= j <= ts.len()
            &&& stmts_spans_ok(ss, bound)
        }),
    decreases ts.len() - i, 2int,
{
    let t = ts[i];
    assert(span_ok(t.span, bound));
    if t.kind is Eof {
    } else if t.kind is RBrace && stop {
    } else if t.kind is Newline {
        if i + 1 < ts.len() {
            lemma_p_stmts_spans(ts, i + 1, stop, bound);
        }
    } else if t.kind is Comment {
        if i + 1 < ts.len() {
            lemma_p_stmts_spans(ts, i + 1, stop, bound);
        }
        let (rest, j, d) = p_stmts(ts, i + 1, stop);
        let c = seq![StmtModel::Comment { text: t.kind->Comment_0, span: t.span }];
        lemma_one_stmt_spans_ok(c[0], bound);
        assert(c =~= seq![c[0]]);
        lemma_stmts_spans_ok_concat(c, rest, bound);
    } else {
        lemma_p_stmt_spans(ts, i, bound);
        let (st, j, d) = p_stmt(ts, i);
        if i < j <= ts.len() {
            if j < ts.len() {
                lemma_p_stmts_spans(ts, j, stop, bound);
            }
            let (rest, k, d2) = p_stmts(ts, j, stop);
            lemma_stmts_spans_ok_concat(opt_seq(st), rest, bound);
        }
    }
}

/// Every span of a parse result starts on a line, does not end before it
/// starts, and ends within the text.
pub proof fn lemma_parse_spans_within_text(lua: bool, content: Seq<char>)
    requires
        byte_len(content) < usize::MAX,
    ensures
        stmts_spans_ok(parse_model(lua, content).0, byte_len(content)),
{
    lemma_lex_tokens_ok(content, 0, lua);
    lemma_lex_from_well_terminated(content, 0, lua);
    lemma_p_stmts_spans(lex_from(content, 0, lua).0, 0, false, byte_len(content));
}

/// A character that ends a bare word: blanks, a line break, `=`, a brace
/// or the start of a comment.
pub open spec fn breaks_word(c: char) -> bool {
    c == ' ' || c == '\t' || c == '\r' || c == '\n' || c == '=' || c == '{' || c == '}' || c == '#'
}

/// A bare word never holds a blank, a line break, `=`, a brace or `#`: the
/// word ends there, so in `b = c}` the `}` closes the block instead of
/// joining `c`.
pub proof fn lemma_identifiers_hold_no_breaking_character(cs: Seq<char>, s: int, lua: bool)
    requires
        0 <= s <= cs.len(),
    ensures
        lex_token_at(cs, s, lua).0 matches KindModel::Identifier(t) ==> forall|k: int|
            0 <= k < t.len() ==> !breaks_word(#[trigger] t[k]),
{
    let n = cs.len() as int;
    if s < n {
        let c = cs[s];
        if !(c == '\n' || c == '=' || c == '{' || c == '}' || c == '#' || (c == '-' && lua && dash_pair_at(cs, s))
            || c == '"' || c == '-' || is_ascii_digit(c)) {
            let e = first_stop(s + 1, n, ident_stop(cs, lua));
            lemma_first_stop_bounds(s + 1, n, ident_stop(cs, lua));
            let lo = crate::text::trim_lo(cs, s, e);
            crate::text::lemma_first_stop_bounds(s, e, crate::text::not_ws_at(cs));
            crate::text::lemma_last_keep_end_bounds(lo, e, crate::text::not_ws_at(cs));
            let hi = crate::text::trim_hi(cs, s, e);
            let t = trimmed(cs, s, e);
            assert forall|k: int| 0 <= k < t.len() implies !breaks_word(#[trigger] t[k]) by {
                assert(t[k] == cs[lo + k]);
                if lo + k > s {
                    assert(!ident_stop(cs, lua)(lo + k));
                } else {
                    assert(lo == s);
                    assert(crate::text::not_ws_at(cs)(s));
                }
            }
        }
    }
}

/// Lua mode changes only how `--` is read: on a text without `--` the
/// parse in Lua mode and the parse in script mode give the same statements
/// and the same diagnostics.
pub proof fn lemma_lua_mode_matters_only_at_dashes(content: Seq<char>)
    requires
        !has_dash_pair(content),
    ensures
        parse_model(true, content) == parse_model(false, content),
{
    lemma_lua_same_lex(content, 0);
}

/// Parses a token stream into a file.
fn parse_file(tokens: Vec<Token>, path: String) -> (r: ParseResult)
    requires
        well_terminated(toks_model(tokens@)),
    ensures
        r.ast.path@ == path@,
        stmts_model(r.ast.statements@) == p_stmts(toks_model(tokens@), 0, false).0,
        diags_model(r.diagnostics@) == p_stmts(toks_model(tokens@), 0, false).2,
{
    let mut diagnostics: Vec<ParseDiagnostic> = Vec::new();
    let (statements, _end) = parse_statements(&tokens, 0, false, &mut diagnostics);
    proof {
        assert(diags_model(Seq::<ParseDiagnostic>::empty()) =~= Seq::<DiagModel>::empty());
        assert(diags_model(diagnostics@) =~= p_stmts(toks_model(tokens@), 0, false).2);
    }
    ParseResult { ast: AstFile { path, statements }, diagnostics }
}

/// Parses Clausewitz script text.  `path` only decides the mode: Lua mode
/// when its extension is `lua` in any casing.
pub fn parse_clausewitz_content(path: String, content: &str) -> (r: ParseResult)
    requires
        byte_len(content@) < usize::MAX,
    ensures
        r.ast.path@ == path@,
        stmts_model(r.ast.statements@) == parse_model(is_lua_path(path@), content@).0,
        diags_model(r.diagnostics@) == parse_model(is_lua_path(path@), content@).1,
{
    let lua_mode = has_lua_extension(path.as_str());
    let mut lexer = Lexer::new(content, lua_mode);
    let tokens = tokenize(&mut lexer);
    let lexer_diagnostics = lexer.take_diagnostics();
    proof {
        lemma_lex_from_well_terminated(content@, 0, lua_mode);
        assert(diags_model(lexer_diagnostics@) =~= lex_from(content@, 0, lua_mode).1);
    }
    let mut result = parse_file(tokens, path);
    let ghost parsed = result.diagnostics@;
    let mut extra = lexer_diagnostics;
    result.diagnostics.append(&mut extra);
    proof {
        assert(diags_model(result.diagnostics@) =~= diags_model(parsed) + diags_model(
            lexer_diagnostics@,
        ));
    }
    result
}

} // verus!
