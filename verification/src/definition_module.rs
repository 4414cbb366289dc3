//! Definition modules: the files of one runtime namespace (such as
//! `common/governments`) loaded in normalized path order into one canonical
//! list of top-level definitions, where a later definition of a key replaces
//! an earlier one and each replacement is recorded.

use vstd::prelude::*;
use crate::content_family::{char_views, normalize_slashes, slash_normalized, split_chars, split_on};
use crate::ordered::{find_position, lemma_seq_lt_transitive, strictly_sorted, views};
use crate::parser::{
    clone_statement, lemma_stmts_model_push, opt_stmt_model, stmt_model, stmts_model, AstFile,
    AstStatement, SpanRange, StmtModel,
};
use crate::text::{chars_eq, chars_of, is_unicode_whitespace, is_unicode_ws, seq_lt, string_from_chars};

verus! {

#[derive(Clone, Copy, Debug, PartialEq, Eq, Structural)]
pub enum DefinitionKeyPolicy {
    /// A top-level assignment's key names its definition.
    AssignmentKey,
}

#[derive(Clone, Copy, Debug, PartialEq, Eq, Structural)]
pub enum DefinitionFileOrder {
    /// Files load in ascending order of their normalized relative paths.
    NormalizedPathAscending,
}

#[derive(Clone, Copy, Debug, PartialEq, Eq, Structural)]
pub enum DuplicateDefinitionPolicy {
    /// A later definition of a key replaces the earlier one.
    LaterDefinitionWins,
    /// Every definition is kept, in load order.
    PreserveAll,
}

#[derive(Clone, Copy, Debug, PartialEq, Eq, Structural)]
pub enum DefinitionModuleOutput {
    /// The module replaces the whole namespace.
    ReplaceNamespace,
    /// The module is laid over the namespace.
    Overlay,
}

/// How a namespace is loaded as a definition module.
#[derive(Clone, Copy, Debug, PartialEq, Eq)]
pub struct DefinitionModulePolicy {
    pub definition_key: DefinitionKeyPolicy,
    pub file_order: DefinitionFileOrder,
    pub duplicate_definitions: DuplicateDefinitionPolicy,
    pub output_path: &'static str,
    pub namespace_prefix: &'static str,
    pub output_mode: DefinitionModuleOutput,
    pub policy_version: u32,
}

#[derive(Clone, Copy, Debug, PartialEq, Eq, Structural)]
pub enum TopLevelStatementKind {
    Item,
}

#[derive(Clone, Copy, Debug, PartialEq, Eq, Structural)]
pub enum InvalidDefinitionModulePathReason {
    Empty,
    ParentTraversal,
    Absolute,
    Prefix,
}

#[derive(Clone, Debug, PartialEq, Eq)]
pub enum DefinitionModuleLoadError {
    NonUtf8Path { path: String },
    InvalidRelativePath { path: String, reason: InvalidDefinitionModulePathReason },
    InputPathMismatch { input_path: String, file_relative_path: String },
    OutsideReplacementPrefix { path: String, replacement_prefix: String },
    DuplicateInputPath { path: String },
    ParseIssues { path: String, issue_count: usize },
    UnsupportedTopLevelStatement {
        path: String,
        statement_ordinal: usize,
        kind: TopLevelStatementKind,
    },
    MissingDefinitionKey { path: String, statement_ordinal: usize },
}

/// `DefinitionModuleLoadError` with its strings as character sequences.
pub enum LoadErrorView {
    NonUtf8Path { path: Seq<char> },
    InvalidRelativePath { path: Seq<char>, reason: InvalidDefinitionModulePathReason },
    InputPathMismatch { input_path: Seq<char>, file_relative_path: Seq<char> },
    OutsideReplacementPrefix { path: Seq<char>, replacement_prefix: Seq<char> },
    DuplicateInputPath { path: Seq<char> },
    ParseIssues { path: Seq<char>, issue_count: nat },
    UnsupportedTopLevelStatement {
        path: Seq<char>,
        statement_ordinal: nat,
        kind: TopLevelStatementKind,
    },
    MissingDefinitionKey { path: Seq<char>, statement_ordinal: nat },
}

impl View for DefinitionModuleLoadError {
    type V = LoadErrorView;

    open spec fn view(&self) -> LoadErrorView {
        match self {
            DefinitionModuleLoadError::NonUtf8Path { path } => LoadErrorView::NonUtf8Path {
                path: path@,
            },
            DefinitionModuleLoadError::InvalidRelativePath { path, reason } => {
                LoadErrorView::InvalidRelativePath { path: path@, reason: *reason }
            },
            DefinitionModuleLoadError::InputPathMismatch { input_path, file_relative_path } => {
                LoadErrorView::InputPathMismatch {
                    input_path: input_path@,
                    file_relative_path: file_relative_path@,
                }
            },
            DefinitionModuleLoadError::OutsideReplacementPrefix { path, replacement_prefix } => {
                LoadErrorView::OutsideReplacementPrefix {
                    path: path@,
                    replacement_prefix: replacement_prefix@,
                }
            },
            DefinitionModuleLoadError::DuplicateInputPath { path } => {
                LoadErrorView::DuplicateInputPath { path: path@ }
            },
            DefinitionModuleLoadError::ParseIssues { path, issue_count } => {
                LoadErrorView::ParseIssues { path: path@, issue_count: *issue_count as nat }
            },
            DefinitionModuleLoadError::UnsupportedTopLevelStatement {
                path,
                statement_ordinal,
                kind,
            } => LoadErrorView::UnsupportedTopLevelStatement {
                path: path@,
                statement_ordinal: *statement_ordinal as nat,
                kind: *kind,
            },
            DefinitionModuleLoadError::MissingDefinitionKey { path, statement_ordinal } => {
                LoadErrorView::MissingDefinitionKey {
                    path: path@,
                    statement_ordinal: *statement_ordinal as nat,
                }
            },
        }
    }
}

/// The parts of a path that name something: neither empty nor `.`.
pub open spec fn named_components(parts: Seq<Seq<char>>) -> Seq<Seq<char>>
    decreases parts.len(),
{
    if parts.len() == 0 {
        Seq::empty()
    } else {
        let r = named_components(parts.drop_last());
        if parts.last().len() == 0 || parts.last() == "."@ {
            r
        } else {
            r.push(parts.last())
        }
    }
}

/// `/` followed by each part in turn.
pub open spec fn slashed(parts: Seq<Seq<char>>) -> Seq<char>
    decreases parts.len(),
{
    if parts.len() == 0 {
        Seq::empty()
    } else {
        slashed(parts.drop_last()) + seq!['/'] + parts.last()
    }
}

/// The parts joined with `/` between them.
pub open spec fn join_slashes(parts: Seq<Seq<char>>) -> Seq<char> {
    if parts.len() == 0 {
        Seq::empty()
    } else {
        parts[0] + slashed(parts.drop_first())
    }
}

pub open spec fn is_ascii_alpha(c: char) -> bool {
    ('A' <= c <= 'Z') || ('a' <= c <= 'z')
}

/// A relative path in canonical form: backslashes become slashes; a drive
/// prefix, a leading slash and any `..` component are refused; empty and
/// `.` components are dropped, and the rest joined with `/`; a path with no
/// component left is refused as empty.
pub open spec fn normalized_relative_path(p: Seq<char>) -> Result<
    Seq<char>,
    InvalidDefinitionModulePathReason,
> {
    let s = slash_normalized(p);
    let parts = split_on(s, '/');
    if s.len() >= 2 && is_ascii_alpha(s[0]) && s[1] == ':' {
        Err(InvalidDefinitionModulePathReason::Prefix)
    } else if s.len() >= 1 && s[0] == '/' {
        Err(InvalidDefinitionModulePathReason::Absolute)
    } else if parts.contains(".."@) {
        Err(InvalidDefinitionModulePathReason::ParentTraversal)
    } else if named_components(parts).len() == 0 {
        Err(InvalidDefinitionModulePathReason::Empty)
    } else {
        Ok(join_slashes(named_components(parts)))
    }
}

/// A drive prefix such as `C:`.
pub fn has_platform_prefix(slash_normalized: &Vec<char>) -> (r: bool)
    ensures
        r == (slash_normalized@.len() >= 2 && is_ascii_alpha(slash_normalized@[0])
            && slash_normalized@[1] == ':'),
{
    slash_normalized.len() >= 2 && (('A' <= slash_normalized[0] && slash_normalized[0] <= 'Z') || (
    'a' <= slash_normalized[0] && slash_normalized[0] <= 'z')) && slash_normalized[1] == ':'
}

fn append_chars(out: &mut Vec<char>, part: &Vec<char>)
    ensures
        final(out)@ == old(out)@ + part@,
{
    let mut j: usize = 0;
    while j < part.len()
        invariant
            j <= part.len(),
            out@ == old(out)@ + part@.subrange(0, j as int),
        decreases part.len() - j,
    {
        out.push(part[j]);
        j = j + 1;
        assert(out@ =~= old(out)@ + part@.subrange(0, j as int));
    }
    assert(part@.subrange(0, part.len() as int) =~= part@);
}

pub fn normalize_relative_path(path: &str) -> (r: Result<String, DefinitionModuleLoadError>)
    ensures
        match normalized_relative_path(path@) {
            Ok(p) => r matches Ok(s) && s@ == p,
            Err(reason) => r matches Err(e) && e@ == (LoadErrorView::InvalidRelativePath {
                path: path@,
                reason,
            }),
        },
{
    let s = normalize_slashes(path);
    if has_platform_prefix(&s) {
        return Err(
            DefinitionModuleLoadError::InvalidRelativePath {
                path: path.to_owned(),
                reason: InvalidDefinitionModulePathReason::Prefix,
            },
        );
    }
    if s.len() >= 1 && s[0] == '/' {
        return Err(
            DefinitionModuleLoadError::InvalidRelativePath {
                path: path.to_owned(),
                reason: InvalidDefinitionModulePathReason::Absolute,
            },
        );
    }
    let parts = split_chars(&s, '/');
    let ghost ps = char_views(parts@);
    let dot = chars_of(".");
    let dotdot = chars_of("..");
    let mut out: Vec<char> = Vec::new();
    let mut count: usize = 0;
    let mut i: usize = 0;
    assert(ps.subrange(0, 0) =~= Seq::<Seq<char>>::empty());
    while i < parts.len()
        invariant
            i <= parts.len(),
            ps == char_views(parts@),
            ps == split_on(slash_normalized(path@), '/'),
            s@ == slash_normalized(path@),
            !(s@.len() >= 2 && is_ascii_alpha(s@[0]) && s@[1] == ':'),
            !(s@.len() >= 1 && s@[0] == '/'),
            dot@ == "."@,
            dotdot@ == ".."@,
            !ps.subrange(0, i as int).contains(".."@),
            count == named_components(ps.subrange(0, i as int)).len(),
            count <= i,
            out@ == (if count == 0 {
                Seq::<char>::empty()
            } else {
                join_slashes(named_components(ps.subrange(0, i as int)))
            }),
        decreases parts.len() - i,
    {
        let part = &parts[i];
        let ghost prev = ps.subrange(0, i as int);
        let ghost next = ps.subrange(0, i + 1);
        assert(next.drop_last() =~= prev);
        assert(next.last() == part@);
        if chars_eq(part, &dotdot) {
            assert(ps[i as int] == ".."@);
            assert(ps.contains(".."@));
            return Err(
                DefinitionModuleLoadError::InvalidRelativePath {
                    path: path.to_owned(),
                    reason: InvalidDefinitionModulePathReason::ParentTraversal,
                },
            );
        }
        assert forall|k: int| 0 <= k < next.len() implies next[k] != ".."@ by {
            if k < i {
                assert(next[k] == prev[k]);
            }
        }
        if part.len() != 0 && !chars_eq(part, &dot) {
            let ghost named = named_components(prev);
            if count > 0 {
                out.push('/');
            }
            append_chars(&mut out, part);
            proof {
                let nn = named.push(part@);
                assert(named_components(next) == nn);
                if count > 0 {
                    assert(nn.drop_first() =~= named.drop_first().push(part@));
                    assert(nn.drop_first().drop_last() =~= named.drop_first());
                    assert(out@ =~= join_slashes(nn));
                } else {
                    assert(nn.drop_first() =~= Seq::<Seq<char>>::empty());
                    assert(out@ =~= join_slashes(nn));
                }
            }
            count = count + 1;
        }
        i = i + 1;
    }
    assert(ps.subrange(0, parts.len() as int) =~= ps);
    if count == 0 {
        return Err(
            DefinitionModuleLoadError::InvalidRelativePath {
                path: path.to_owned(),
                reason: InvalidDefinitionModulePathReason::Empty,
            },
        );
    }
    Ok(string_from_chars(out.as_slice()))
}

/// `path` lies below the directory `prefix`.
pub open spec fn within_prefix(path: Seq<char>, prefix: Seq<char>) -> bool {
    path.len() > prefix.len() && path.subrange(0, prefix.len() as int) == prefix && path[prefix.len() as int] == '/'
}

pub fn path_is_within_prefix(path: &str, prefix: &str) -> (r: bool)
    ensures
        r == within_prefix(path@, prefix@),
{
    let p = chars_of(path);
    let q = chars_of(prefix);
    if p.len() <= q.len() {
        return false;
    }
    if !crate::text::chars_start_with(&p, &q) {
        return false;
    }
    p[q.len()] == '/'
}

/// What the loader reads of a parsed script file.
pub struct DefinitionFile {
    pub relative_path: String,
    pub statements: Vec<AstStatement>,
    pub parse_issue_count: usize,
}

/// One file of a module, with the path under which the caller offers it.
pub struct DefinitionModuleInput<'a> {
    pub path: &'a str,
    pub file: &'a DefinitionFile,
}

impl<'a> DefinitionModuleInput<'a> {
    pub fn new(path: &'a str, file: &'a DefinitionFile) -> (r: Self)
        ensures
            r.path == path,
            r.file == file,
    {
        DefinitionModuleInput { path, file }
    }
}

/// Where a definition comes from.
#[derive(Clone, Debug, PartialEq, Eq)]
pub struct DefinitionSource {
    pub path: String,
    /// Zero-based position in the source file's top-level statement list.
    pub statement_ordinal: usize,
    pub span: SpanRange,
}

impl CanonicalDefinitionModule {
    /// The source of the winning definition of `key`.
    pub fn source_for(&self, key: &str) -> (r: Option<&DefinitionSource>)
        ensures
            match r {
                Some(s) => exists|k: int|
                    0 <= k < self.definition_sources.len() && self.definition_sources@[k].0@ == key@
                        && self.definition_sources@[k].1 == *s,
                None => forall|k: int|
                    0 <= k < self.definition_sources.len() ==> self.definition_sources@[k].0@ != key@,
            },
    {
        let mut i: usize = 0;
        while i < self.definition_sources.len()
            invariant
                i <= self.definition_sources.len(),
                forall|k: int| 0 <= k < i ==> self.definition_sources@[k].0@ != key@,
            decreases self.definition_sources.len() - i,
        {
            if crate::text::str_eq(self.definition_sources[i].0.as_str(), key) {
                return Some(&self.definition_sources[i].1);
            }
            i = i + 1;
        }
        None
    }
}

/// One overwrite event in module load order: for three definitions `A`, `B`
/// and `C` of one key the events are `A -> B` and `B -> C`; `current_source`
/// is the winner at that step.
#[derive(Clone, Debug, PartialEq, Eq)]
pub struct DuplicateDefinitionDiagnostic {
    pub definition_key: String,
    pub previous_source: DefinitionSource,
    pub current_source: DefinitionSource,
}

/// A loaded module: its definitions in load order, the source of the
/// winning definition of each key (in ascending key order), and the
/// overwrite events.
pub struct CanonicalDefinitionModule {
    pub ast: AstFile,
    pub definition_sources: Vec<(String, DefinitionSource)>,
    pub duplicate_diagnostics: Vec<DuplicateDefinitionDiagnostic>,
}

pub struct SourceView {
    pub path: Seq<char>,
    pub ordinal: nat,
    pub span: SpanRange,
}

pub struct DiagnosticView {
    pub key: Seq<char>,
    pub previous: SourceView,
    pub current: SourceView,
}

pub open spec fn source_view(s: DefinitionSource) -> SourceView {
    SourceView { path: s.path@, ordinal: s.statement_ordinal as nat, span: s.span }
}

pub open spec fn diagnostic_view(d: DuplicateDefinitionDiagnostic) -> DiagnosticView {
    DiagnosticView {
        key: d.definition_key@,
        previous: source_view(d.previous_source),
        current: source_view(d.current_source),
    }
}

/// An input as plain values.
pub struct InputView {
    pub path: Seq<char>,
    pub relative_path: Seq<char>,
    pub statements: Seq<StmtModel>,
    pub issue_count: nat,
}

pub open spec fn input_view(i: DefinitionModuleInput) -> InputView {
    InputView {
        path: i.path@,
        relative_path: i.file.relative_path@,
        statements: stmts_model(i.file.statements@),
        issue_count: i.file.parse_issue_count as nat,
    }
}

pub open spec fn inputs_view(s: Seq<DefinitionModuleInput>) -> Seq<InputView> {
    s.map_values(|i: DefinitionModuleInput| input_view(i))
}

/// The check of one input: both its paths normalize, to the same path,
/// which lies below the namespace prefix.
pub open spec fn checked_input(inp: InputView, prefix: Seq<char>) -> Result<Seq<char>, LoadErrorView> {
    match normalized_relative_path(inp.path) {
        Err(reason) => Err(LoadErrorView::InvalidRelativePath { path: inp.path, reason }),
        Ok(ip) => match normalized_relative_path(inp.relative_path) {
            Err(reason) => Err(
                LoadErrorView::InvalidRelativePath { path: inp.relative_path, reason },
            ),
            Ok(fp) => if ip != fp {
                Err(LoadErrorView::InputPathMismatch { input_path: ip, file_relative_path: fp })
            } else if !within_prefix(ip, prefix) {
                Err(LoadErrorView::OutsideReplacementPrefix { path: ip, replacement_prefix: prefix })
            } else {
                Ok(ip)
            },
        },
    }
}

/// The normalized paths of the inputs, or the error of the first input
/// that fails its check.
pub open spec fn checked_inputs(ins: Seq<InputView>, prefix: Seq<char>) -> Result<Seq<Seq<char>>, LoadErrorView>
    decreases ins.len(),
{
    if ins.len() == 0 {
        Ok(Seq::empty())
    } else {
        match checked_inputs(ins.drop_last(), prefix) {
            Err(e) => Err(e),
            Ok(ps) => match checked_input(ins.last(), prefix) {
                Err(e) => Err(e),
                Ok(p) => Ok(ps.push(p)),
            },
        }
    }
}

/// `p` is the path of two different inputs.
pub open spec fn is_duplicated(ps: Seq<Seq<char>>, p: Seq<char>) -> bool {
    exists|i: int, j: int| 0 <= i < j < ps.len() && ps[i] == p && ps[j] == p
}

/// `ord` lists every input once, in ascending path order.
pub open spec fn path_order(ps: Seq<Seq<char>>, ord: Seq<int>) -> bool {
    &&& forall|k: int| 0 <= k < ord.len() ==> 0 <= #[trigger] ord[k] < ps.len()
    &&& forall|a: int, b: int|
        0 <= a < b < ord.len() ==> seq_lt(ps[#[trigger] ord[a]], ps[#[trigger] ord[b]])
    &&& forall|j: int| 0 <= j < ps.len() ==> #[trigger] ord.contains(j)
}

/// The state of loading: the definitions so far (`None` where a later one
/// replaced it), the winner of each key with its position, and the
/// overwrite events.
pub struct LoadState {
    pub out: Seq<Option<StmtModel>>,
    pub winners: Map<Seq<char>, (nat, SourceView)>,
    pub diags: Seq<DiagnosticView>,
}

pub open spec fn empty_load_state() -> LoadState {
    LoadState { out: Seq::empty(), winners: Map::empty(), diags: Seq::empty() }
}

pub open spec fn all_whitespace(s: Seq<char>) -> bool {
    forall|i: int| 0 <= i < s.len() ==> is_unicode_ws(#[trigger] s[i])
}

/// One top-level statement: comments are skipped, bare items refused, and
/// an assignment becomes the winning definition of its key, replacing the
/// earlier one where later definitions win.
pub open spec fn statement_step(
    st: LoadState,
    stmt: StmtModel,
    path: Seq<char>,
    ordinal: nat,
    policy: DefinitionModulePolicy,
) -> Result<LoadState, LoadErrorView> {
    match stmt {
        StmtModel::Comment { .. } => Ok(st),
        StmtModel::Item { .. } => Err(
            LoadErrorView::UnsupportedTopLevelStatement {
                path,
                statement_ordinal: ordinal,
                kind: TopLevelStatementKind::Item,
            },
        ),
        StmtModel::Assignment { key, span, .. } => if all_whitespace(key) {
            Err(LoadErrorView::MissingDefinitionKey { path, statement_ordinal: ordinal })
        } else {
            let src = SourceView { path, ordinal, span };
            let replaces = policy.duplicate_definitions
                == DuplicateDefinitionPolicy::LaterDefinitionWins && st.winners.contains_key(key);
            Ok(
                LoadState {
                    out: if replaces {
                        st.out.update(st.winners[key].0 as int, None)
                    } else {
                        st.out
                    }.push(Some(stmt)),
                    winners: st.winners.insert(key, (st.out.len(), src)),
                    diags: if replaces {
                        st.diags.push(
                            DiagnosticView { key, previous: st.winners[key].1, current: src },
                        )
                    } else {
                        st.diags
                    },
                },
            )
        },
    }
}

/// The statements of one file, in order, stopping at the first error.
pub open spec fn statements_step(
    st: LoadState,
    stmts: Seq<StmtModel>,
    path: Seq<char>,
    policy: DefinitionModulePolicy,
) -> Result<LoadState, LoadErrorView>
    decreases stmts.len(),
{
    if stmts.len() == 0 {
        Ok(st)
    } else {
        match statements_step(st, stmts.drop_last(), path, policy) {
            Err(e) => Err(e),
            Ok(s) => statement_step(s, stmts.last(), path, (stmts.len() - 1) as nat, policy),
        }
    }
}

/// One file: refused where its parse reported issues.
pub open spec fn input_step(
    st: LoadState,
    inp: InputView,
    path: Seq<char>,
    policy: DefinitionModulePolicy,
) -> Result<LoadState, LoadErrorView> {
    if inp.issue_count > 0 {
        Err(LoadErrorView::ParseIssues { path, issue_count: inp.issue_count })
    } else {
        statements_step(st, inp.statements, path, policy)
    }
}

/// The files in the order `ord`, stopping at the first error.
pub open spec fn inputs_step(
    ins: Seq<InputView>,
    ps: Seq<Seq<char>>,
    ord: Seq<int>,
    policy: DefinitionModulePolicy,
) -> Result<LoadState, LoadErrorView>
    decreases ord.len(),
{
    if ord.len() == 0 {
        Ok(empty_load_state())
    } else {
        match inputs_step(ins, ps, ord.drop_last(), policy) {
            Err(e) => Err(e),
            Ok(s) => input_step(s, ins[ord.last()], ps[ord.last()], policy),
        }
    }
}

/// The definitions that survived, in load order.
pub open spec fn surviving(out: Seq<Option<StmtModel>>) -> Seq<StmtModel>
    decreases out.len(),
{
    if out.len() == 0 {
        Seq::empty()
    } else {
        match out.last() {
            Some(s) => surviving(out.drop_last()).push(s),
            None => surviving(out.drop_last()),
        }
    }
}

/// A loaded module holds what a load state says: the surviving definitions,
/// the winners' sources in ascending key order, and the overwrite events.
pub open spec fn module_matches(
    m: CanonicalDefinitionModule,
    st: LoadState,
    output_path: Seq<char>,
) -> bool {
    let keys = m.definition_sources@.map_values(|e: (String, DefinitionSource)| e.0@);
    &&& m.ast.path@ == output_path
    &&& stmts_model(m.ast.statements@) == surviving(st.out)
    &&& strictly_sorted(keys)
    &&& forall|k: int|
        0 <= k < keys.len() ==> st.winners.contains_key(#[trigger] keys[k]) && source_view(
            m.definition_sources@[k].1,
        ) == st.winners[keys[k]].1
    &&& forall|key: Seq<char>| st.winners.contains_key(key) ==> keys.contains(key)
    &&& m.duplicate_diagnostics@.map_values(|d: DuplicateDefinitionDiagnostic| diagnostic_view(d))
        == st.diags
}

pub open spec fn string_views(v: Seq<String>) -> Seq<Seq<char>> {
    v.map_values(|s: String| s@)
}

fn check_input(input: &DefinitionModuleInput, prefix: &String) -> (r: Result<String, DefinitionModuleLoadError>)
    ensures
        match checked_input(input_view(*input), prefix@) {
            Ok(p) => r matches Ok(s) && s@ == p,
            Err(e) => r matches Err(x) && x@ == e,
        },
{
    let input_path = match normalize_relative_path(input.path) {
        Ok(p) => p,
        Err(e) => {
            return Err(e);
        },
    };
    let file_relative_path = match normalize_relative_path(input.file.relative_path.as_str()) {
        Ok(p) => p,
        Err(e) => {
            return Err(e);
        },
    };
    if !crate::text::str_eq(input_path.as_str(), file_relative_path.as_str()) {
        return Err(DefinitionModuleLoadError::InputPathMismatch { input_path, file_relative_path });
    }
    if !path_is_within_prefix(input_path.as_str(), prefix.as_str()) {
        return Err(
            DefinitionModuleLoadError::OutsideReplacementPrefix {
                path: input_path,
                replacement_prefix: prefix.clone(),
            },
        );
    }
    Ok(input_path)
}

proof fn lemma_checked_inputs_prefix(ins: Seq<InputView>, prefix: Seq<char>, m: int)
    requires
        0 <= m <= ins.len(),
        checked_inputs(ins.subrange(0, m), prefix) is Err,
    ensures
        checked_inputs(ins, prefix) == checked_inputs(ins.subrange(0, m), prefix),
    decreases ins.len() - m,
{
    if m < ins.len() {
        let next = ins.subrange(0, m + 1);
        assert(next.drop_last() =~= ins.subrange(0, m));
        lemma_checked_inputs_prefix(ins, prefix, m + 1);
    } else {
        assert(ins.subrange(0, m) =~= ins);
    }
}

/// The normalized paths of all inputs, or the first input's error.
fn check_inputs(inputs: &[DefinitionModuleInput], prefix: &String) -> (r: Result<Vec<String>, DefinitionModuleLoadError>)
    ensures
        match checked_inputs(inputs_view(inputs@), prefix@) {
            Ok(ps) => r matches Ok(v) && string_views(v@) == ps,
            Err(e) => r matches Err(x) && x@ == e,
        },
{
    let ghost ins = inputs_view(inputs@);
    let mut paths: Vec<String> = Vec::new();
    let mut i: usize = 0;
    assert(ins.subrange(0, 0) =~= Seq::<InputView>::empty());
    assert(string_views(paths@) =~= Seq::<Seq<char>>::empty());
    while i < inputs.len()
        invariant
            i <= inputs.len(),
            ins == inputs_view(inputs@),
            checked_inputs(ins.subrange(0, i as int), prefix@) == Ok::<Seq<Seq<char>>, LoadErrorView>(
                string_views(paths@),
            ),
        decreases inputs.len() - i,
    {
        let ghost next = ins.subrange(0, i + 1);
        assert(next.drop_last() =~= ins.subrange(0, i as int));
        assert(next.last() == input_view(inputs@[i as int]));
        let ghost old_views = string_views(paths@);
        match check_input(&inputs[i], prefix) {
            Ok(p) => {
                let ghost pv = p@;
                paths.push(p);
                assert(string_views(paths@) =~= old_views.push(pv));
            },
            Err(e) => {
                proof {
                    lemma_checked_inputs_prefix(ins, prefix@, i + 1);
                }
                return Err(e);
            },
        }
        i = i + 1;
    }
    assert(ins.subrange(0, inputs.len() as int) =~= ins);
    Ok(paths)
}

proof fn lemma_duplicated_push(ps: Seq<Seq<char>>, x: Seq<char>, q: Seq<char>)
    ensures
        is_duplicated(ps.push(x), q) <==> (is_duplicated(ps, q) || (q == x && ps.contains(x))),
{
    let t = ps.push(x);
    if is_duplicated(t, q) {
        let (i, j) = choose|i: int, j: int| 0 <= i < j < t.len() && t[i] == q && t[j] == q;
        if j < ps.len() {
            assert(ps[i] == q && ps[j] == q);
        } else {
            assert(ps[i] == q);
        }
    }
    if is_duplicated(ps, q) {
        let (i, j) = choose|i: int, j: int| 0 <= i < j < ps.len() && ps[i] == q && ps[j] == q;
        assert(t[i] == q && t[j] == q);
    }
    if q == x && ps.contains(x) {
        let i = choose|i: int| 0 <= i < ps.len() && ps[i] == x;
        assert(t[i] == q && t[ps.len() as int] == q);
    }
}

/// The inputs in ascending path order, or the least path that two inputs
/// share.
fn order_inputs(paths: &Vec<String>) -> (r: Result<Vec<usize>, Vec<char>>)
    ensures
        match r {
            Ok(ord) => path_order(
                string_views(paths@),
                ord@.map_values(|k: usize| k as int),
            ) && forall|q: Seq<char>| !is_duplicated(string_views(paths@), q),
            Err(d) => is_duplicated(string_views(paths@), d@) && forall|q: Seq<char>|
                is_duplicated(string_views(paths@), q) ==> !seq_lt(q, d@),
        },
{
    let ghost pv = string_views(paths@);
    let mut keys: Vec<Vec<char>> = Vec::new();
    let mut idx: Vec<usize> = Vec::new();
    let mut dup: Option<Vec<char>> = None;
    let mut i: usize = 0;
    while i < paths.len()
        invariant
            i <= paths.len(),
            pv == string_views(paths@),
            strictly_sorted(views(keys@)),
            keys.len() == idx.len(),
            forall|k: int| 0 <= k < idx.len() ==> #[trigger] idx@[k] < i && views(keys@)[k] == pv[idx@[k] as int],
            forall|j: int| 0 <= j < i ==> views(keys@).contains(#[trigger] pv[j]),
            match dup {
                None => forall|q: Seq<char>| !is_duplicated(pv.subrange(0, i as int), q),
                Some(d) => is_duplicated(pv.subrange(0, i as int), d@) && forall|q: Seq<char>|
                    is_duplicated(pv.subrange(0, i as int), q) ==> !seq_lt(q, d@),
            },
        decreases paths.len() - i,
    {
        let x = chars_of(paths[i].as_str());
        assert(x@ == pv[i as int]);
        let ghost pre = pv.subrange(0, i as int);
        assert(pv.subrange(0, i + 1) =~= pre.push(x@));
        let ghost ks = views(keys@);
        let (pos, found) = find_position(&keys, &x);
        if found {
            let ghost j = idx@[pos as int] as int;
            assert(pre[j] == x@);
            assert(pre.contains(x@));
            assert forall|q: Seq<char>| is_duplicated(pv.subrange(0, i + 1), q) <==> (is_duplicated(pre, q) || q == x@) by {
                lemma_duplicated_push(pre, x@, q);
            }
            let ghost old_dup = dup;
            let replace = match &dup {
                None => true,
                Some(d) => crate::text::chars_lt(&x, d),
            };
            if replace {
                proof {
                    assert forall|q: Seq<char>| is_duplicated(pv.subrange(0, i + 1), q) implies !seq_lt(q, x@) by {
                        crate::text::lemma_seq_lt_trichotomy(q, x@);
                        if q != x@ {
                            assert(is_duplicated(pre, q));
                            match old_dup {
                                None => {
                                    assert(!is_duplicated(pre, q));
                                },
                                Some(d) => {
                                    assert(seq_lt(x@, d@));
                                    assert(!seq_lt(q, d@));
                                    if seq_lt(q, x@) {
                                        lemma_seq_lt_transitive(q, x@, d@);
                                    }
                                },
                            }
                        }
                    }
                }
                dup = Some(x);
            } else {
                proof {
                    if let Some(d) = &dup {
                        crate::text::lemma_seq_lt_trichotomy(x@, d@);
                    }
                }
            }
        } else {
            let ghost xv = x@;
            assert(!pre.contains(xv)) by {
                if pre.contains(xv) {
                    let j = choose|j: int| 0 <= j < pre.len() && pre[j] == xv;
                    assert(pv[j] == xv);
                    assert(views(keys@).contains(pv[j]));
                    let k = choose|k: int| 0 <= k < ks.len() && ks[k] == xv;
                    crate::text::lemma_seq_lt_trichotomy(xv, xv);
                    if k < pos {
                        assert(seq_lt(ks[k], xv));
                    } else {
                        assert(seq_lt(xv, ks[k]));
                    }
                }
            }
            assert forall|q: Seq<char>| is_duplicated(pv.subrange(0, i + 1), q) <==> is_duplicated(pre, q) by {
                lemma_duplicated_push(pre, xv, q);
            }
            let ghost nxt = pv.subrange(0, i + 1);
            proof {
                assert(nxt =~= pre.push(xv));
                if dup is None {
                    assert forall|q: Seq<char>| !#[trigger] is_duplicated(nxt, q) by {
                        lemma_duplicated_push(pre, xv, q);
                        assert(!is_duplicated(pre, q));
                    }
                }
            }
            let ghost old_idx = idx@;
            keys.insert(pos, x);
            idx.insert(pos, i);
            let ghost t = views(keys@);
            assert(t =~= ks.insert(pos as int, xv));
            assert forall|a: int, b: int| 0 <= a < b < t.len() implies seq_lt(#[trigger] t[a], #[trigger] t[b]) by {
                if b < pos {
                    assert(seq_lt(ks[a], ks[b]));
                } else if b == pos {
                    assert(seq_lt(ks[a], xv));
                } else if a < pos {
                    assert(seq_lt(ks[a], ks[b - 1]));
                } else if a == pos {
                    assert(seq_lt(xv, ks[b - 1]));
                } else {
                    assert(seq_lt(ks[a - 1], ks[b - 1]));
                }
            }
            assert forall|k: int| 0 <= k < idx.len() implies #[trigger] idx@[k] < i + 1 && views(keys@)[k] == pv[idx@[k] as int] by {
                if k < pos {
                    assert(idx@[k] == old_idx[k]);
                } else if k > pos {
                    assert(idx@[k] == old_idx[k - 1]);
                }
            }
            assert forall|j: int| 0 <= j < i + 1 implies views(keys@).contains(#[trigger] pv[j]) by {
                if j < i {
                    let k = choose|k: int| 0 <= k < ks.len() && ks[k] == pv[j];
                    if k < pos {
                        assert(t[k] == pv[j]);
                    } else {
                        assert(t[k + 1] == pv[j]);
                    }
                } else {
                    assert(t[pos as int] == pv[j]);
                }
            }
        }
        i = i + 1;
    }
    assert(pv.subrange(0, paths.len() as int) =~= pv);
    match dup {
        Some(d) => Err(d),
        None => {
            let ghost ord = idx@.map_values(|k: usize| k as int);
            assert forall|j: int| 0 <= j < pv.len() implies #[trigger] ord.contains(j) by {
                let k = choose|k: int| 0 <= k < views(keys@).len() && views(keys@)[k] == pv[j];
                let m = idx@[k] as int;
                if m != j {
                    if m < j {
                        assert(is_duplicated(pv, pv[j]));
                    } else {
                        assert(is_duplicated(pv, pv[j]));
                    }
                }
                assert(ord[k] == j);
            }
            assert forall|a: int, b: int| 0 <= a < b < ord.len() implies seq_lt(pv[#[trigger] ord[a]], pv[#[trigger] ord[b]]) by {
                assert(views(keys@)[a] == pv[ord[a]]);
                assert(views(keys@)[b] == pv[ord[b]]);
            }
            Ok(idx)
        },
    }
}

fn copy_source(s: &DefinitionSource) -> (r: DefinitionSource)
    ensures
        r == *s,
{
    DefinitionSource { path: s.path.clone(), statement_ordinal: s.statement_ordinal, span: s.span }
}

/// `str::trim(s).is_empty()`: every character is whitespace.
fn is_blank(s: &str) -> (r: bool)
    ensures
        r == all_whitespace(s@),
{
    let cs = chars_of(s);
    let mut i: usize = 0;
    while i < cs.len()
        invariant
            i <= cs.len(),
            cs@ == s@,
            forall|k: int| 0 <= k < i ==> is_unicode_ws(#[trigger] cs@[k]),
        decreases cs.len() - i,
    {
        if !is_unicode_whitespace(cs[i]) {
            return false;
        }
        i = i + 1;
    }
    true
}

pub open spec fn out_view(v: Seq<Option<AstStatement>>) -> Seq<Option<StmtModel>> {
    v.map_values(|o: Option<AstStatement>| opt_stmt_model(o))
}

/// The loader's own state, one part for each of `LoadState`'s: the winners
/// are kept as a sorted list of keys with their values alongside.
struct ModuleBuilder {
    out: Vec<Option<AstStatement>>,
    wkeys: Vec<Vec<char>>,
    wvals: Vec<(usize, DefinitionSource)>,
    diags: Vec<DuplicateDefinitionDiagnostic>,
}

impl ModuleBuilder {
    spec fn matches(&self, st: LoadState) -> bool {
        &&& out_view(self.out@) == st.out
        &&& strictly_sorted(views(self.wkeys@))
        &&& self.wkeys.len() == self.wvals.len()
        &&& forall|k: int|
            0 <= k < self.wkeys.len() ==> {
                &&& st.winners.contains_key(#[trigger] views(self.wkeys@)[k])
                &&& st.winners[views(self.wkeys@)[k]] == (
                    self.wvals@[k].0 as nat,
                    source_view(self.wvals@[k].1),
                )
                &&& self.wvals@[k].0 < self.out.len()
            }
        &&& forall|key: Seq<char>| #[trigger] st.winners.contains_key(key) ==> views(self.wkeys@).contains(key)
        &&& self.diags@.map_values(|d: DuplicateDefinitionDiagnostic| diagnostic_view(d)) == st.diags
    }

    fn step(
        &mut self,
        Ghost(st): Ghost<LoadState>,
        stmt: &AstStatement,
        path: &String,
        ordinal: usize,
        policy: DefinitionModulePolicy,
    ) -> (r: Result<(), DefinitionModuleLoadError>)
        requires
            old(self).matches(st),
        ensures
            match statement_step(st, stmt@, path@, ordinal as nat, policy) {
                Ok(st2) => r is Ok && final(self).matches(st2),
                Err(e) => r matches Err(x) && x@ == e,
            },
            final(self).out.len() <= old(self).out.len() + 1,
    {
        match stmt {
            AstStatement::Comment { .. } => {
                assert(statement_step(st, stmt@, path@, ordinal as nat, policy) == Ok::<LoadState, LoadErrorView>(st));
                Ok(())
            },
            AstStatement::Item { .. } => Err(
                DefinitionModuleLoadError::UnsupportedTopLevelStatement {
                    path: path.clone(),
                    statement_ordinal: ordinal,
                    kind: TopLevelStatementKind::Item,
                },
            ),
            AstStatement::Assignment { key, span, .. } => {
                if is_blank(key.as_str()) {
                    return Err(
                        DefinitionModuleLoadError::MissingDefinitionKey {
                            path: path.clone(),
                            statement_ordinal: ordinal,
                        },
                    );
                }
                let source = DefinitionSource {
                    path: path.clone(),
                    statement_ordinal: ordinal,
                    span: *span,
                };
                let ghost src = source_view(source);
                let ghost ks = views(self.wkeys@);
                let ghost old_vals = self.wvals@;
                let ghost old_diags = self.diags@;
                let kc = chars_of(key.as_str());
                let (pos, found) = find_position(&self.wkeys, &kc);
                let new_index = self.out.len();
                let later_wins = match policy.duplicate_definitions {
                    DuplicateDefinitionPolicy::LaterDefinitionWins => true,
                    DuplicateDefinitionPolicy::PreserveAll => false,
                };
                if found {
                    assert(st.winners.contains_key(ks[pos as int]));
                    if later_wins {
                        let previous_index = self.wvals[pos].0;
                        let previous_source = copy_source(&self.wvals[pos].1);
                        self.out.set(previous_index, None);
                        self.diags.push(
                            DuplicateDefinitionDiagnostic {
                                definition_key: key.clone(),
                                previous_source,
                                current_source: copy_source(&source),
                            },
                        );
                        assert(self.diags@.map_values(|d: DuplicateDefinitionDiagnostic| diagnostic_view(d))
                            =~= st.diags.push(DiagnosticView { key: key@, previous: st.winners[key@].1, current: src }));
                    }
                    self.out.push(Some(clone_statement(stmt)));
                    self.wvals.set(pos, (new_index, source));
                    proof {
                        let st2 = statement_step(st, stmt@, path@, ordinal as nat, policy)->Ok_0;
                        assert(out_view(self.out@) =~= st2.out);
                        assert forall|k: int| 0 <= k < self.wkeys.len() implies {
                            &&& st2.winners.contains_key(#[trigger] views(self.wkeys@)[k])
                            &&& st2.winners[views(self.wkeys@)[k]] == (
                                self.wvals@[k].0 as nat,
                                source_view(self.wvals@[k].1),
                            )
                            &&& self.wvals@[k].0 < self.out.len()
                        } by {
                            if k != pos {
                                crate::text::lemma_seq_lt_trichotomy(ks[k], ks[pos as int]);
                                if k < pos {
                                    assert(seq_lt(ks[k], ks[pos as int]));
                                } else {
                                    assert(seq_lt(ks[pos as int], ks[k]));
                                }
                            }
                        }
                    }
                } else {
                    self.out.push(Some(clone_statement(stmt)));
                    self.wkeys.insert(pos, kc);
                    self.wvals.insert(pos, (new_index, source));
                    proof {
                        let st2 = statement_step(st, stmt@, path@, ordinal as nat, policy)->Ok_0;
                        let kv = key@;
                        assert(!st.winners.contains_key(kv)) by {
                            if st.winners.contains_key(kv) {
                                let k = choose|k: int| 0 <= k < ks.len() && ks[k] == kv;
                                crate::text::lemma_seq_lt_trichotomy(kv, kv);
                                if k < pos {
                                    assert(seq_lt(ks[k], kv));
                                } else {
                                    assert(seq_lt(kv, ks[k]));
                                }
                            }
                        }
                        assert(out_view(self.out@) =~= st2.out);
                        let t = views(self.wkeys@);
                        assert(t =~= ks.insert(pos as int, kv));
                        assert forall|a: int, b: int| 0 <= a < b < t.len() implies seq_lt(#[trigger] t[a], #[trigger] t[b]) by {
                            if b < pos {
                                assert(seq_lt(ks[a], ks[b]));
                            } else if b == pos {
                                assert(seq_lt(ks[a], kv));
                            } else if a < pos {
                                assert(seq_lt(ks[a], ks[b - 1]));
                            } else if a == pos {
                                assert(seq_lt(kv, ks[b - 1]));
                            } else {
                                assert(seq_lt(ks[a - 1], ks[b - 1]));
                            }
                        }
                        assert forall|k: int| 0 <= k < self.wkeys.len() implies {
                            &&& st2.winners.contains_key(#[trigger] views(self.wkeys@)[k])
                            &&& st2.winners[views(self.wkeys@)[k]] == (
                                self.wvals@[k].0 as nat,
                                source_view(self.wvals@[k].1),
                            )
                            &&& self.wvals@[k].0 < self.out.len()
                        } by {
                            if k < pos {
                                assert(t[k] == ks[k]);
                                assert(self.wvals@[k] == old_vals[k]);
                                assert(ks[k] != kv);
                            } else if k > pos {
                                assert(t[k] == ks[k - 1]);
                                assert(self.wvals@[k] == old_vals[k - 1]);
                                assert(ks[k - 1] != kv);
                            }
                        }
                        assert forall|key2: Seq<char>| #[trigger] st2.winners.contains_key(key2) implies t.contains(key2) by {
                            if key2 == kv {
                                assert(t[pos as int] == kv);
                            } else {
                                let k = choose|k: int| 0 <= k < ks.len() && ks[k] == key2;
                                if k < pos {
                                    assert(t[k] == key2);
                                } else {
                                    assert(t[k + 1] == key2);
                                }
                            }
                        }
                    }
                }
                Ok(())
            },
        }
    }
}

proof fn lemma_statements_err_prefix(
    st: LoadState,
    stmts: Seq<StmtModel>,
    path: Seq<char>,
    policy: DefinitionModulePolicy,
    m: int,
)
    requires
        0 <= m <= stmts.len(),
        statements_step(st, stmts.subrange(0, m), path, policy) is Err,
    ensures
        statements_step(st, stmts, path, policy) == statements_step(st, stmts.subrange(0, m), path, policy),
    decreases stmts.len() - m,
{
    if m < stmts.len() {
        assert(stmts.subrange(0, m + 1).drop_last() =~= stmts.subrange(0, m));
        lemma_statements_err_prefix(st, stmts, path, policy, m + 1);
    } else {
        assert(stmts.subrange(0, m) =~= stmts);
    }
}

proof fn lemma_inputs_err_prefix(
    ins: Seq<InputView>,
    ps: Seq<Seq<char>>,
    ord: Seq<int>,
    policy: DefinitionModulePolicy,
    m: int,
)
    requires
        0 <= m <= ord.len(),
        inputs_step(ins, ps, ord.subrange(0, m), policy) is Err,
    ensures
        inputs_step(ins, ps, ord, policy) == inputs_step(ins, ps, ord.subrange(0, m), policy),
    decreases ord.len() - m,
{
    if m < ord.len() {
        assert(ord.subrange(0, m + 1).drop_last() =~= ord.subrange(0, m));
        lemma_inputs_err_prefix(ins, ps, ord, policy, m + 1);
    } else {
        assert(ord.subrange(0, m) =~= ord);
    }
}

pub open spec fn ord_view(ord: Seq<usize>) -> Seq<int> {
    ord.map_values(|k: usize| k as int)
}

impl ModuleBuilder {
    /// One file: its parse issues, then its statements in order.
    fn add_input(
        &mut self,
        Ghost(st): Ghost<LoadState>,
        input: &DefinitionModuleInput,
        path: &String,
        policy: DefinitionModulePolicy,
    ) -> (r: Result<(), DefinitionModuleLoadError>)
        requires
            old(self).matches(st),
        ensures
            match input_step(st, input_view(*input), path@, policy) {
                Ok(st2) => r is Ok && final(self).matches(st2),
                Err(e) => r matches Err(x) && x@ == e,
            },
    {
        if input.file.parse_issue_count > 0 {
            return Err(
                DefinitionModuleLoadError::ParseIssues {
                    path: path.clone(),
                    issue_count: input.file.parse_issue_count,
                },
            );
        }
        let stmts = &input.file.statements;
        let ghost sm = stmts_model(stmts@);
        let mut j: usize = 0;
        assert(sm.subrange(0, 0) =~= Seq::<StmtModel>::empty());
        proof {
            lemma_stmts_model_len(stmts@);
        }
        while j < stmts.len()
            invariant
                j <= stmts.len(),
                sm == stmts_model(stmts@),
                stmts == &input.file.statements,
                input.file.parse_issue_count == 0,
                sm.len() == stmts.len(),
                statements_step(st, sm.subrange(0, j as int), path@, policy) is Ok,
                self.matches(statements_step(st, sm.subrange(0, j as int), path@, policy)->Ok_0),
            decreases stmts.len() - j,
        {
            let ghost cur = statements_step(st, sm.subrange(0, j as int), path@, policy)->Ok_0;
            let ghost next = sm.subrange(0, j + 1);
            assert(next.drop_last() =~= sm.subrange(0, j as int));
            proof {
                lemma_stmts_model_index(stmts@, j as int);
            }
            assert(next.last() == stmts@[j as int]@);
            match self.step(Ghost(cur), &stmts[j], path, j, policy) {
                Ok(()) => {},
                Err(e) => {
                    proof {
                        lemma_statements_err_prefix(st, sm, path@, policy, j + 1);
                    }
                    return Err(e);
                },
            }
            j = j + 1;
        }
        assert(sm.subrange(0, stmts.len() as int) =~= sm);
        Ok(())
    }
}

proof fn lemma_stmts_model_index(s: Seq<AstStatement>, j: int)
    requires
        0 <= j < s.len(),
    ensures
        stmts_model(s).len() == s.len(),
        stmts_model(s)[j] == stmt_model(s[j]),
    decreases s.len(),
{
    lemma_stmts_model_len(s);
    if j > 0 {
        lemma_stmts_model_index(s.drop_first(), j - 1);
    }
}

pub proof fn lemma_stmts_model_len(s: Seq<AstStatement>)
    ensures
        stmts_model(s).len() == s.len(),
    decreases s.len(),
{
    if s.len() > 0 {
        lemma_stmts_model_len(s.drop_first());
    }
}

/// The definitions that survived, as statements.
fn surviving_statements(out: &Vec<Option<AstStatement>>) -> (r: Vec<AstStatement>)
    ensures
        stmts_model(r@) == surviving(out_view(out@)),
{
    let mut r: Vec<AstStatement> = Vec::new();
    let mut i: usize = 0;
    assert(out_view(out@).subrange(0, 0) =~= Seq::<Option<StmtModel>>::empty());
    while i < out.len()
        invariant
            i <= out.len(),
            stmts_model(r@) == surviving(out_view(out@).subrange(0, i as int)),
        decreases out.len() - i,
    {
        let ghost next = out_view(out@).subrange(0, i + 1);
        assert(next.drop_last() =~= out_view(out@).subrange(0, i as int));
        match &out[i] {
            Some(s) => {
                let c = clone_statement(s);
                proof {
                    lemma_stmts_model_push(r@, c);
                }
                r.push(c);
            },
            None => {},
        }
        i = i + 1;
    }
    assert(out_view(out@).subrange(0, out.len() as int) =~= out_view(out@));
    r
}

/// Loads the inputs in the order `ord`.
fn load_in_order(
    inputs: &[DefinitionModuleInput],
    paths: &Vec<String>,
    ord: &Vec<usize>,
    policy: DefinitionModulePolicy,
) -> (r: Result<CanonicalDefinitionModule, DefinitionModuleLoadError>)
    requires
        paths.len() == inputs.len(),
        forall|k: int| 0 <= k < ord.len() ==> #[trigger] ord@[k] < inputs.len(),
    ensures
        match inputs_step(inputs_view(inputs@), string_views(paths@), ord_view(ord@), policy) {
            Ok(st) => r matches Ok(m) && module_matches(m, st, policy.output_path@),
            Err(e) => r matches Err(x) && x@ == e,
        },
{
    let ghost ins = inputs_view(inputs@);
    let ghost ps = string_views(paths@);
    let ghost oi = ord_view(ord@);
    let mut b = ModuleBuilder { out: Vec::new(), wkeys: Vec::new(), wvals: Vec::new(), diags: Vec::new() };
    assert(b.diags@.map_values(|d: DuplicateDefinitionDiagnostic| diagnostic_view(d)) =~= Seq::<DiagnosticView>::empty());
    assert(out_view(b.out@) =~= Seq::<Option<StmtModel>>::empty());
    let mut k: usize = 0;
    assert(oi.subrange(0, 0) =~= Seq::<int>::empty());
    while k < ord.len()
        invariant
            k <= ord.len(),
            paths.len() == inputs.len(),
            forall|k2: int| 0 <= k2 < ord.len() ==> #[trigger] ord@[k2] < inputs.len(),
            ins == inputs_view(inputs@),
            ps == string_views(paths@),
            oi == ord_view(ord@),
            inputs_step(ins, ps, oi.subrange(0, k as int), policy) is Ok,
            b.matches(inputs_step(ins, ps, oi.subrange(0, k as int), policy)->Ok_0),
        decreases ord.len() - k,
    {
        let ghost cur = inputs_step(ins, ps, oi.subrange(0, k as int), policy)->Ok_0;
        let ghost next = oi.subrange(0, k + 1);
        assert(next.drop_last() =~= oi.subrange(0, k as int));
        let i = ord[k];
        assert(next.last() == i as int);
        assert(ins[i as int] == input_view(inputs@[i as int]));
        assert(ps[i as int] == paths@[i as int]@);
        match b.add_input(Ghost(cur), &inputs[i], &paths[i], policy) {
            Ok(()) => {},
            Err(e) => {
                proof {
                    lemma_inputs_err_prefix(ins, ps, oi, policy, k + 1);
                }
                return Err(e);
            },
        }
        k = k + 1;
    }
    assert(oi.subrange(0, ord.len() as int) =~= oi);
    let ghost st = inputs_step(ins, ps, oi, policy)->Ok_0;
    let statements = surviving_statements(&b.out);
    let mut sources: Vec<(String, DefinitionSource)> = Vec::new();
    let mut j: usize = 0;
    while j < b.wkeys.len()
        invariant
            j <= b.wkeys.len(),
            b.matches(st),
            sources.len() == j,
            forall|k2: int|
                0 <= k2 < j ==> #[trigger] sources@[k2].0@ == views(b.wkeys@)[k2]
                    && sources@[k2].1 == b.wvals@[k2].1,
        decreases b.wkeys.len() - j,
    {
        let key = string_from_chars(b.wkeys[j].as_slice());
        let src = copy_source(&b.wvals[j].1);
        sources.push((key, src));
        j = j + 1;
    }
    let ghost keys = sources@.map_values(|e: (String, DefinitionSource)| e.0@);
    assert(keys =~= views(b.wkeys@));
    let m = CanonicalDefinitionModule {
        ast: AstFile { path: policy.output_path.to_owned(), statements },
        definition_sources: sources,
        duplicate_diagnostics: b.diags,
    };
    Ok(m)
}

/// The overwrite events form chains: an event's previous source is the
/// current source of the latest earlier event of the same key, and the
/// winner of a key is the current source of its latest event.
pub open spec fn overwrites_chain(st: LoadState) -> bool {
    let d = st.diags;
    &&& forall|i: int, j: int|
        0 <= i < j < d.len() && d[i].key == d[j].key && (forall|m: int|
            i < m < j ==> #[trigger] d[m].key != d[j].key) ==> #[trigger] d[j].previous
            == #[trigger] d[i].current
    &&& forall|i: int|
        0 <= i < d.len() && (forall|m: int| i < m < d.len() ==> #[trigger] d[m].key != d[i].key)
            ==> st.winners.contains_key(#[trigger] d[i].key) && st.winners[d[i].key].1 == d[i].current
}

spec fn chain_inv(st: LoadState, policy: DefinitionModulePolicy) -> bool {
    &&& overwrites_chain(st)
    &&& policy.duplicate_definitions == DuplicateDefinitionPolicy::PreserveAll ==> st.diags.len() == 0
}

proof fn lemma_statement_step_chain(
    st: LoadState,
    stmt: StmtModel,
    path: Seq<char>,
    ordinal: nat,
    policy: DefinitionModulePolicy,
)
    requires
        chain_inv(st, policy),
        statement_step(st, stmt, path, ordinal, policy) is Ok,
    ensures
        chain_inv(statement_step(st, stmt, path, ordinal, policy)->Ok_0, policy),
{
    let st2 = statement_step(st, stmt, path, ordinal, policy)->Ok_0;
    if let StmtModel::Assignment { key, span, .. } = stmt {
        let d = st.diags;
        let d2 = st2.diags;
        if d2.len() == d.len() + 1 {
            assert forall|i: int, j: int|
                0 <= i < j < d2.len() && d2[i].key == d2[j].key && (forall|m: int|
                    i < m < j ==> #[trigger] d2[m].key != d2[j].key) implies #[trigger] d2[j].previous
                == #[trigger] d2[i].current by {
                if j < d.len() {
                    assert(d2[i] == d[i] && d2[j] == d[j]);
                    assert forall|m: int| i < m < j implies #[trigger] d[m].key != d[j].key by {
                        assert(d2[m] == d[m]);
                    }
                } else {
                    assert(d2[i] == d[i]);
                    assert forall|m: int| i < m < d.len() implies #[trigger] d[m].key != d[i].key by {
                        assert(d2[m] == d[m]);
                    }
                }
            }
            assert forall|i: int|
                0 <= i < d2.len() && (forall|m: int| i < m < d2.len() ==> #[trigger] d2[m].key != d2[i].key)
                implies st2.winners.contains_key(#[trigger] d2[i].key) && st2.winners[d2[i].key].1 == d2[i].current by {
                if i < d.len() {
                    assert(d2[i] == d[i]);
                    assert(d2[d.len() as int].key == key);
                    assert forall|m: int| i < m < d.len() implies #[trigger] d[m].key != d[i].key by {
                        assert(d2[m] == d[m]);
                    }
                }
            }
        } else {
            assert(d2 == d);
            assert forall|i: int|
                0 <= i < d2.len() && (forall|m: int| i < m < d2.len() ==> #[trigger] d2[m].key != d2[i].key)
                implies st2.winners.contains_key(#[trigger] d2[i].key) && st2.winners[d2[i].key].1 == d2[i].current by {
                if d2[i].key == key {
                    assert(st.winners.contains_key(key));
                }
            }
        }
    }
}

proof fn lemma_statements_step_chain(
    st: LoadState,
    stmts: Seq<StmtModel>,
    path: Seq<char>,
    policy: DefinitionModulePolicy,
)
    requires
        chain_inv(st, policy),
        statements_step(st, stmts, path, policy) is Ok,
    ensures
        chain_inv(statements_step(st, stmts, path, policy)->Ok_0, policy),
    decreases stmts.len(),
{
    if stmts.len() > 0 {
        lemma_statements_step_chain(st, stmts.drop_last(), path, policy);
        lemma_statement_step_chain(
            statements_step(st, stmts.drop_last(), path, policy)->Ok_0,
            stmts.last(),
            path,
            (stmts.len() - 1) as nat,
            policy,
        );
    }
}

/// Overwrites chain: for definitions `A`, `B` and `C` of one key loaded in
/// that order under `LaterDefinitionWins`, the recorded events are `A -> B`
/// and then `B -> C`, and the winner is `C`. In general each event's
/// previous source is the current source of the latest earlier event of
/// its key, and each key's winning source is the current source of its
/// latest event.
pub proof fn lemma_overwrites_chain(
    ins: Seq<InputView>,
    ps: Seq<Seq<char>>,
    ord: Seq<int>,
    policy: DefinitionModulePolicy,
)
    requires
        inputs_step(ins, ps, ord, policy) is Ok,
    ensures
        overwrites_chain(inputs_step(ins, ps, ord, policy)->Ok_0),
    decreases ord.len(),
{
    lemma_inputs_step_chain(ins, ps, ord, policy);
}

proof fn lemma_inputs_step_chain(
    ins: Seq<InputView>,
    ps: Seq<Seq<char>>,
    ord: Seq<int>,
    policy: DefinitionModulePolicy,
)
    requires
        inputs_step(ins, ps, ord, policy) is Ok,
    ensures
        chain_inv(inputs_step(ins, ps, ord, policy)->Ok_0, policy),
    decreases ord.len(),
{
    if ord.len() > 0 {
        lemma_inputs_step_chain(ins, ps, ord.drop_last(), policy);
        let st = inputs_step(ins, ps, ord.drop_last(), policy)->Ok_0;
        let inp = ins[ord.last()];
        if inp.issue_count == 0 {
            lemma_statements_step_chain(st, inp.statements, ps[ord.last()], policy);
        }
    }
}

/// The outcome of loading a module, given the order in which its files load.
pub open spec fn load_outcome(
    ins: Seq<InputView>,
    policy: DefinitionModulePolicy,
    ord: Seq<int>,
) -> Result<LoadState, LoadErrorView> {
    match normalized_relative_path(policy.namespace_prefix@) {
        Err(reason) => Err(
            LoadErrorView::InvalidRelativePath { path: policy.namespace_prefix@, reason },
        ),
        Ok(prefix) => match checked_inputs(ins, prefix) {
            Err(e) => Err(e),
            Ok(ps) => inputs_step(ins, ps, ord, policy),
        },
    }
}

/// Loads the files of a namespace as one definition module. The namespace
/// prefix and each file's two paths must be valid relative paths, equal
/// after normalization and below the prefix; no two files may share a
/// path, and a file with parse issues, a bare top-level item or a blank key
/// is refused. The files then load in ascending path order: comments are
/// dropped and each assignment defines its key; under
/// `LaterDefinitionWins` a later definition replaces the earlier one in
/// place of it and each replacement is recorded.
pub fn load_definition_module(
    inputs: &[DefinitionModuleInput],
    policy: DefinitionModulePolicy,
) -> (r: Result<CanonicalDefinitionModule, DefinitionModuleLoadError>)
    ensures
        match normalized_relative_path(policy.namespace_prefix@) {
            Err(reason) => r matches Err(x) && x@ == (LoadErrorView::InvalidRelativePath {
                path: policy.namespace_prefix@,
                reason,
            }),
            Ok(prefix) => match checked_inputs(inputs_view(inputs@), prefix) {
                Err(e) => r matches Err(x) && x@ == e,
                Ok(ps) => if exists|q: Seq<char>| is_duplicated(ps, q) {
                    r matches Err(x) && (x@ matches LoadErrorView::DuplicateInputPath { path } && is_duplicated(ps, path)
                        && forall|q: Seq<char>| is_duplicated(ps, q) ==> !seq_lt(q, path))
                } else {
                    exists|ord: Seq<int>| path_order(ps, ord) && match inputs_step(inputs_view(inputs@), ps, ord, policy) {
                        Ok(st) => r matches Ok(m) && module_matches(m, st, policy.output_path@),
                        Err(e) => r matches Err(x) && x@ == e,
                    }
                },
            },
        },
{
    let prefix = match normalize_relative_path(policy.namespace_prefix) {
        Ok(p) => p,
        Err(e) => {
            return Err(e);
        },
    };
    let paths = match check_inputs(inputs, &prefix) {
        Ok(ps) => ps,
        Err(e) => {
            return Err(e);
        },
    };
    proof {
        lemma_checked_inputs_len(inputs_view(inputs@), prefix@);
    }
    let ord = match policy.file_order {
        DefinitionFileOrder::NormalizedPathAscending => match order_inputs(&paths) {
            Ok(ord) => ord,
            Err(d) => {
                let path = string_from_chars(d.as_slice());
                return Err(DefinitionModuleLoadError::DuplicateInputPath { path });
            },
        },
    };
    assert forall|k: int| 0 <= k < ord.len() implies #[trigger] ord@[k] < inputs.len() by {
        assert(0 <= ord_view(ord@)[k] < paths.len());
    }
    let r = load_in_order(inputs, &paths, &ord, policy);
    assert(path_order(string_views(paths@), ord_view(ord@)));
    r
}

proof fn lemma_checked_inputs_len(ins: Seq<InputView>, prefix: Seq<char>)
    ensures
        checked_inputs(ins, prefix) matches Ok(ps) ==> ps.len() == ins.len(),
    decreases ins.len(),
{
    if ins.len() > 0 {
        lemma_checked_inputs_len(ins.drop_last(), prefix);
    }
}

} // verus!
