//! Building the semantic index of a mod set: walking the syntax tree of each
//! script file, opening a scope for each block, and recording the symbols it
//! defines, the calls it makes, the keys, aliases and scalar values it
//! writes, and the UI elements it declares.

use vstd::prelude::*;
use crate::content_family::{ContentFamilyScopePolicy, ScriptFileKind};
use crate::documents::DocumentFamily;
use crate::eu4_builtin::{string_views, BuiltinLookup};
use crate::localisation_sources::{components_equal, path_parts_of};
use crate::documents::path_components;
use crate::model::{ParseIssue, ScopeKind, ScopeType};
use crate::ordered::{strictly_sorted, views};
use crate::param_scan::{
    alias_tokens_of_value, collect_optional_params_from_source, collect_provided_params,
    collect_required_params, contains_string, record_param_tokens,
};
use crate::parser::{AstStatement, AstValue, SpanRange};
use crate::scope_inference::{KeyUsage, SymbolDefinition, SymbolIndex, SymbolKind, SymbolReference};
use crate::scope_tree::{
    aliases_at, event_from_type, event_scope_type, kind_at, opened_kind, opened_scope, this_type_at,
    MapGroupLookup, ScopeAliases, ScopeContext, ScopeNode, ScopeTree,
};
use crate::semantic_index::{
    collect_map_groups, ParsedScriptFile,
    collect_scope_param_names, extract_assignment_scalar, extract_event_call_id, is_alias_key,
    is_event_call, is_mission_slot_definition, is_top_level_event_definition,
    is_ui_identifier_candidate, is_ui_resource_key, looks_like_ui_container_key,
    qualify_symbol_name, scalar_text_of,
};
use crate::call_candidates::{
    is_scripted_effect_call_candidate, is_scripted_trigger_call_candidate, symbol_definition_kind,
};
use crate::param_contracts::registered_param_contract;
use crate::analysis::scope_type_mask;
use crate::ordered::{insert_unique, to_strings};
use crate::text::{chars_of, str_eq, string_from_chars};

verus! {

/// A scalar value assigned to a key, where, and in which scope.
#[derive(Clone, Debug)]
pub struct ScalarAssignment {
    pub key: String,
    pub value: String,
    pub mod_id: String,
    pub path: String,
    pub line: usize,
    pub column: usize,
    pub scope_id: usize,
}

/// A scope alias (`ROOT`, `FROM`, `THIS`, `PREV`) written in a scope.
#[derive(Clone, Debug)]
pub struct AliasUsage {
    pub alias: String,
    pub mod_id: String,
    pub path: String,
    pub line: usize,
    pub column: usize,
    pub scope_id: usize,
}

/// A named element that an interface file declares.
#[derive(Clone, Debug)]
pub struct UiDefinition {
    pub name: String,
    pub mod_id: String,
    pub path: String,
    pub line: usize,
    pub column: usize,
}

/// A resource (a sprite and the like) that a key names.
#[derive(Clone, Debug)]
pub struct ResourceReference {
    pub key: String,
    pub value: String,
    pub mod_id: String,
    pub path: String,
    pub line: usize,
    pub column: usize,
}

/// A document of the mod set: its mod and path, its family, and whether it
/// parsed without problems.
#[derive(Clone, Debug)]
pub struct DocumentRecord {
    pub mod_id: String,
    pub path: String,
    pub family: DocumentFamily,
    pub parse_ok: bool,
}

/// What the index gathers: the scopes and symbols, and the scalar
/// assignments, aliases, UI elements and resources written, the documents
/// read, and the problems met while parsing them.
pub struct SemanticIndex {
    pub symbols: SymbolIndex,
    pub scalar_assignments: Vec<ScalarAssignment>,
    pub alias_usages: Vec<AliasUsage>,
    pub ui_definitions: Vec<UiDefinition>,
    pub resource_references: Vec<ResourceReference>,
    pub documents: Vec<DocumentRecord>,
    pub parse_issues: Vec<ParseIssue>,
}

impl SemanticIndex {
    pub fn new() -> (r: SemanticIndex)
        ensures
            index_wf(r),
            r.symbols.scopes@.len() == 0,
            r.symbols.definitions@.len() == 0,
            r.symbols.references@.len() == 0,
            r.symbols.key_usages@.len() == 0,
            r.scalar_assignments@.len() == 0,
            r.alias_usages@.len() == 0,
            r.ui_definitions@.len() == 0,
            r.resource_references@.len() == 0,
            r.documents@.len() == 0,
            r.parse_issues@.len() == 0,
    {
        SemanticIndex {
            symbols: SymbolIndex {
                scopes: ScopeTree::new(),
                definitions: Vec::new(),
                references: Vec::new(),
                key_usages: Vec::new(),
            },
            scalar_assignments: Vec::new(),
            alias_usages: Vec::new(),
            ui_definitions: Vec::new(),
            resource_references: Vec::new(),
            documents: Vec::new(),
            parse_issues: Vec::new(),
        }
    }
}

/// No required parameter of a definition is also one of its optional
/// parameters.
pub open spec fn params_disjoint(d: SymbolDefinition) -> bool {
    forall|k: Seq<char>|
        #[trigger] string_views(d.required_params@).contains(k) ==> !string_views(
            d.optional_params@,
        ).contains(k)
}

/// Every entry of the index stands in a scope that the index holds, and no
/// definition requires a parameter that it also takes as optional.
pub open spec fn index_wf(idx: SemanticIndex) -> bool {
    let n = idx.symbols.scopes@.len();
    &&& forall|i: int|
        0 <= i < idx.symbols.definitions@.len() ==> (#[trigger] idx.symbols.definitions@[i]).scope_id
            < n && params_disjoint(idx.symbols.definitions@[i])
    &&& forall|i: int|
        0 <= i < idx.symbols.references@.len() ==> (#[trigger] idx.symbols.references@[i]).scope_id < n
    &&& forall|i: int|
        0 <= i < idx.symbols.key_usages@.len() ==> (#[trigger] idx.symbols.key_usages@[i]).scope_id < n
    &&& forall|i: int|
        0 <= i < idx.alias_usages@.len() ==> (#[trigger] idx.alias_usages@[i]).scope_id < n
    &&& forall|i: int|
        0 <= i < idx.scalar_assignments@.len() ==> (#[trigger] idx.scalar_assignments@[i]).scope_id < n
}

/// `b` keeps the elements of `a` at their places, and may have more.
pub open spec fn grows<T>(a: Seq<T>, b: Seq<T>) -> bool {
    a.len() <= b.len() && forall|i: int| 0 <= i < a.len() ==> #[trigger] b[i] == a[i]
}

/// The file a walk reads: its mod, its path and its module.
pub struct FileSpec {
    pub mod_id: Seq<char>,
    pub path: Seq<char>,
    pub module: Seq<char>,
}

/// `b` is `a` with only its required parameters possibly extended.
pub open spec fn same_but_required(a: SymbolDefinition, b: SymbolDefinition) -> bool {
    &&& b.kind == a.kind
    &&& b.name == a.name
    &&& b.module == a.module
    &&& b.local_name == a.local_name
    &&& b.mod_id == a.mod_id
    &&& b.path == a.path
    &&& b.line == a.line
    &&& b.column == a.column
    &&& b.scope_id == a.scope_id
    &&& b.declared_this_type == a.declared_this_type
    &&& b.inferred_this_type == a.inferred_this_type
    &&& b.inferred_this_mask == a.inferred_this_mask
    &&& b.inferred_from_mask == a.inferred_from_mask
    &&& b.optional_params == a.optional_params
    &&& b.param_contract == a.param_contract
    &&& b.scope_param_names == a.scope_param_names
    &&& grows(string_views(a.required_params@), string_views(b.required_params@))
}

/// A definition recorded while walking the file `f`, whose scope is one of
/// those opened by the walk (from `first_scope` on) in `scopes`: an event
/// with the types of its event scope, or a symbol of the file's module
/// with the contract registered for its name and the type of `THIS` of
/// its scope.
pub open spec fn definition_in_file(d: SymbolDefinition, f: FileSpec, scopes: Seq<ScopeNode>, first_scope: int) -> bool {
    &&& d.mod_id@ == f.mod_id
    &&& d.path@ == f.path
    &&& d.module@ == f.module
    &&& first_scope <= d.scope_id < scopes.len()
    &&& d.declared_this_type == scopes[d.scope_id as int].this_type
    &&& d.inferred_from_mask == 0
    &&& strictly_sorted(string_views(d.optional_params@))
    &&& strictly_sorted(string_views(d.scope_param_names@))
    &&& if d.kind == SymbolKind::Event {
        &&& scopes[d.scope_id as int].kind == ScopeKind::Event
        &&& d.inferred_this_type == d.declared_this_type
        &&& d.param_contract is None
    } else {
        &&& d.name@ == "eu4::"@ + f.module + "::"@ + d.local_name@
        &&& d.inferred_this_type == ScopeType::Unknown
        &&& d.inferred_this_mask == 0
        &&& crate::param_contracts::registered_contract(d.local_name@) == match d.param_contract {
            Some(c) => Some(crate::param_contracts::contract_view(c)),
            None => None,
        }
    }
}

/// A call recorded while walking the file `f`, in a scope of `scopes`: a
/// call of a scripted effect gives its parameters sorted and without
/// repeats; other calls give none.
pub open spec fn reference_in_file(r: SymbolReference, f: FileSpec, scopes: Seq<ScopeNode>) -> bool {
    &&& r.mod_id@ == f.mod_id
    &&& r.path@ == f.path
    &&& r.module@ == f.module
    &&& r.scope_id < scopes.len()
    &&& if r.kind == SymbolKind::ScriptedEffect {
        &&& strictly_sorted(string_views(r.provided_params@))
        &&& crate::param_scan::bindings_sorted(crate::param_scan::binding_pairs(r.param_bindings@))
    } else {
        &&& r.kind == SymbolKind::Event || r.kind == SymbolKind::ScriptedTrigger
        &&& r.provided_params@.len() == 0
        &&& r.param_bindings@.len() == 0
    }
}

/// A key written in the file `f`, with the type of `THIS` of its scope.
pub open spec fn usage_in_file(u: KeyUsage, f: FileSpec, scopes: Seq<ScopeNode>) -> bool {
    &&& u.mod_id@ == f.mod_id
    &&& u.path@ == f.path
    &&& u.scope_id < scopes.len()
    &&& u.this_type == scopes[u.scope_id as int].this_type
}

/// A scalar assignment of the file `f`, in a scope of `scopes`.
pub open spec fn assignment_in_file(a: ScalarAssignment, f: FileSpec, scopes: Seq<ScopeNode>) -> bool {
    a.mod_id@ == f.mod_id && a.path@ == f.path && a.scope_id < scopes.len()
}

/// An alias written in the file `f`, one of the four scope names, in a
/// scope of `scopes`.
pub open spec fn alias_in_file(a: AliasUsage, f: FileSpec, scopes: Seq<ScopeNode>) -> bool {
    &&& a.mod_id@ == f.mod_id
    &&& a.path@ == f.path
    &&& a.scope_id < scopes.len()
}

/// What a walk over the file `f` does to the index: the scopes, symbols and
/// records of `a` stay, except that definitions may gain required
/// parameters; every scope, definition, call, key, assignment, alias, UI
/// element and resource that `b` holds beyond them belongs to `f`; the
/// documents and parse problems stay as they were.
pub open spec fn walk_extends(a: SemanticIndex, b: SemanticIndex, f: FileSpec) -> bool {
    let sa = a.symbols.scopes@;
    let sb = b.symbols.scopes@;
    let da = a.symbols.definitions@;
    let db = b.symbols.definitions@;
    &&& grows(sa, sb)
    &&& forall|i: int| sa.len() <= i < sb.len() ==> (#[trigger] sb[i]).mod_id@ == f.mod_id && sb[i].path@ == f.path
    &&& da.len() <= db.len()
    &&& forall|i: int| 0 <= i < da.len() ==> same_but_required(da[i], #[trigger] db[i])
    &&& forall|i: int| da.len() <= i < db.len() ==> definition_in_file(#[trigger] db[i], f, sb, sa.len() as int)
    &&& grows(a.symbols.references@, b.symbols.references@)
    &&& forall|i: int|
        a.symbols.references@.len() <= i < b.symbols.references@.len() ==> reference_in_file(
            #[trigger] b.symbols.references@[i],
            f,
            sb,
        )
    &&& grows(a.symbols.key_usages@, b.symbols.key_usages@)
    &&& forall|i: int|
        a.symbols.key_usages@.len() <= i < b.symbols.key_usages@.len() ==> usage_in_file(
            #[trigger] b.symbols.key_usages@[i],
            f,
            sb,
        )
    &&& grows(a.scalar_assignments@, b.scalar_assignments@)
    &&& forall|i: int|
        a.scalar_assignments@.len() <= i < b.scalar_assignments@.len() ==> assignment_in_file(
            #[trigger] b.scalar_assignments@[i],
            f,
            sb,
        )
    &&& grows(a.alias_usages@, b.alias_usages@)
    &&& forall|i: int|
        a.alias_usages@.len() <= i < b.alias_usages@.len() ==> alias_in_file(#[trigger] b.alias_usages@[i], f, sb)
    &&& grows(a.ui_definitions@, b.ui_definitions@)
    &&& forall|i: int|
        a.ui_definitions@.len() <= i < b.ui_definitions@.len() ==> (#[trigger] b.ui_definitions@[i]).mod_id@
            == f.mod_id && b.ui_definitions@[i].path@ == f.path
    &&& grows(a.resource_references@, b.resource_references@)
    &&& forall|i: int|
        a.resource_references@.len() <= i < b.resource_references@.len() ==> (#[trigger] b.resource_references@[i]).mod_id@
            == f.mod_id && b.resource_references@[i].path@ == f.path
    &&& b.documents@ == a.documents@
    &&& b.parse_issues@ == a.parse_issues@
}

pub proof fn lemma_walk_extends_refl(a: SemanticIndex, f: FileSpec)
    ensures
        walk_extends(a, a, f),
{
    assert forall|i: int| 0 <= i < a.symbols.definitions@.len() implies same_but_required(
        a.symbols.definitions@[i],
        #[trigger] a.symbols.definitions@[i],
    ) by {}
}

pub proof fn lemma_walk_extends_trans(a: SemanticIndex, b: SemanticIndex, c: SemanticIndex, f: FileSpec)
    requires
        walk_extends(a, b, f),
        walk_extends(b, c, f),
    ensures
        walk_extends(a, c, f),
{
    let sa = a.symbols.scopes@;
    let sb = b.symbols.scopes@;
    let sc = c.symbols.scopes@;
    let da = a.symbols.definitions@;
    let db = b.symbols.definitions@;
    let dc = c.symbols.definitions@;
    assert forall|i: int| 0 <= i < da.len() implies same_but_required(da[i], #[trigger] dc[i]) by {
        assert(same_but_required(da[i], db[i]));
        assert(same_but_required(db[i], dc[i]));
    }
    assert forall|i: int| da.len() <= i < dc.len() implies definition_in_file(#[trigger] dc[i], f, sc, sa.len() as int) by {
        if i < db.len() {
            assert(definition_in_file(db[i], f, sb, sa.len() as int));
            assert(same_but_required(db[i], dc[i]));
            assert(sc[db[i].scope_id as int] == sb[db[i].scope_id as int]);
        } else {
            assert(definition_in_file(dc[i], f, sc, sb.len() as int));
        }
    }
    assert forall|i: int| sa.len() <= i < sc.len() implies (#[trigger] sc[i]).mod_id@ == f.mod_id && sc[i].path@ == f.path by {
        if i < sb.len() {
            assert(sc[i] == sb[i]);
        }
    }
    let ra = a.symbols.references@;
    let rb = b.symbols.references@;
    let rc = c.symbols.references@;
    assert forall|i: int| ra.len() <= i < rc.len() implies reference_in_file(#[trigger] rc[i], f, sc) by {
        if i < rb.len() {
            assert(rc[i] == rb[i]);
            assert(reference_in_file(rb[i], f, sb));
        }
    }
    let ua = a.symbols.key_usages@;
    let ub = b.symbols.key_usages@;
    let uc = c.symbols.key_usages@;
    assert forall|i: int| ua.len() <= i < uc.len() implies usage_in_file(#[trigger] uc[i], f, sc) by {
        if i < ub.len() {
            assert(uc[i] == ub[i]);
            assert(usage_in_file(ub[i], f, sb));
            assert(sc[ub[i].scope_id as int] == sb[ub[i].scope_id as int]);
        }
    }
    assert forall|i: int|
        a.scalar_assignments@.len() <= i < c.scalar_assignments@.len() implies assignment_in_file(
        #[trigger] c.scalar_assignments@[i],
        f,
        sc,
    ) by {
        if i < b.scalar_assignments@.len() {
            assert(c.scalar_assignments@[i] == b.scalar_assignments@[i]);
            assert(assignment_in_file(b.scalar_assignments@[i], f, sb));
        }
    }
    assert forall|i: int| a.alias_usages@.len() <= i < c.alias_usages@.len() implies alias_in_file(
        #[trigger] c.alias_usages@[i],
        f,
        sc,
    ) by {
        if i < b.alias_usages@.len() {
            assert(c.alias_usages@[i] == b.alias_usages@[i]);
            assert(alias_in_file(b.alias_usages@[i], f, sb));
        }
    }
    assert forall|i: int|
        a.ui_definitions@.len() <= i < c.ui_definitions@.len() implies (#[trigger] c.ui_definitions@[i]).mod_id@
        == f.mod_id && c.ui_definitions@[i].path@ == f.path by {
        if i < b.ui_definitions@.len() {
            assert(c.ui_definitions@[i] == b.ui_definitions@[i]);
        }
    }
    assert forall|i: int|
        a.resource_references@.len() <= i < c.resource_references@.len() implies (#[trigger] c.resource_references@[i]).mod_id@
        == f.mod_id && c.resource_references@[i].path@ == f.path by {
        if i < b.resource_references@.len() {
            assert(c.resource_references@[i] == b.resource_references@[i]);
        }
    }
}


/// The file whose statements a walk reads, the kind of script it holds, the
/// province groups and builtin names it is read against, its module and its
/// source text.
pub struct BuildContext<'a> {
    pub scope: ScopeContext<'a>,
    pub module_name: &'a str,
    pub source: &'a str,
}

pub open spec fn file_spec(mod_id: Seq<char>, path: Seq<char>, module: Seq<char>) -> FileSpec {
    FileSpec { mod_id, path, module }
}

/// What every step of a walk promises: the index stays well formed, grows
/// by entries of the file only, and keeps the scope `scope_id` and the
/// definition `active`, where there is one.
pub open spec fn walk_step(
    a: SemanticIndex,
    b: SemanticIndex,
    f: FileSpec,
) -> bool {
    index_wf(b) && walk_extends(a, b, f)
}

/// `b` is `a` with one element more at its end.
pub open spec fn pushed<T>(a: Seq<T>, b: Seq<T>) -> bool {
    b.len() == a.len() + 1 && b.drop_last() == a
}

/// `b` is `a` with one element more at its end where `grow` holds, and is
/// `a` otherwise.
pub open spec fn pushed_if<T>(grow: bool, a: Seq<T>, b: Seq<T>) -> bool {
    if grow {
        pushed(a, b)
    } else {
        b == a
    }
}

/// Which parts of the index a step may change: the others stay as they
/// were (the scope tree always does here).
pub open spec fn changes_only(
    a: SemanticIndex,
    b: SemanticIndex,
    definitions: bool,
    references: bool,
    key_usages: bool,
    assignments: bool,
    aliases: bool,
    ui: bool,
) -> bool {
    &&& b.symbols.scopes@ == a.symbols.scopes@
    &&& !definitions ==> b.symbols.definitions@ == a.symbols.definitions@
    &&& !references ==> b.symbols.references@ == a.symbols.references@
    &&& !key_usages ==> b.symbols.key_usages@ == a.symbols.key_usages@
    &&& !assignments ==> b.scalar_assignments@ == a.scalar_assignments@
    &&& !aliases ==> b.alias_usages@ == a.alias_usages@
    &&& !ui ==> b.ui_definitions@ == a.ui_definitions@ && b.resource_references@ == a.resource_references@
    &&& b.documents@ == a.documents@
    &&& b.parse_issues@ == a.parse_issues@
}

/// The key `key` written at `line`:`column` of the file `f`, in the scope
/// `scope_id` whose `THIS` has the type `this_type`.
pub open spec fn key_usage_is(u: KeyUsage, f: FileSpec, key: Seq<char>, line: usize, column: usize, scope_id: usize, this_type: ScopeType) -> bool {
    &&& u.key@ == key
    &&& u.mod_id@ == f.mod_id
    &&& u.path@ == f.path
    &&& u.line == line
    &&& u.column == column
    &&& u.scope_id == scope_id
    &&& u.this_type == this_type
}

/// The scalar `value` assigned to `key` at `line`:`column` of the file `f`,
/// in the scope `scope_id`.
pub open spec fn assignment_is(a: ScalarAssignment, f: FileSpec, key: Seq<char>, value: Seq<char>, line: usize, column: usize, scope_id: usize) -> bool {
    &&& a.key@ == key
    &&& a.value@ == value
    &&& a.mod_id@ == f.mod_id
    &&& a.path@ == f.path
    &&& a.line == line
    &&& a.column == column
    &&& a.scope_id == scope_id
}

/// The alias `alias` written at `line`:`column` of the file `f`, in the
/// scope `scope_id`.
pub open spec fn alias_usage_is(u: AliasUsage, f: FileSpec, alias: Seq<char>, line: usize, column: usize, scope_id: usize) -> bool {
    &&& u.alias@ == alias
    &&& u.mod_id@ == f.mod_id
    &&& u.path@ == f.path
    &&& u.line == line
    &&& u.column == column
    &&& u.scope_id == scope_id
}

/// The UI element `name` declared at `line`:`column` of the file `f`.
pub open spec fn ui_definition_is(u: UiDefinition, f: FileSpec, name: Seq<char>, line: usize, column: usize) -> bool {
    &&& u.name@ == name
    &&& u.mod_id@ == f.mod_id
    &&& u.path@ == f.path
    &&& u.line == line
    &&& u.column == column
}

/// The resource `value` that `key` names at `line`:`column` of the file `f`.
pub open spec fn resource_is(r: ResourceReference, f: FileSpec, key: Seq<char>, value: Seq<char>, line: usize, column: usize) -> bool {
    &&& r.key@ == key
    &&& r.value@ == value
    &&& r.mod_id@ == f.mod_id
    &&& r.path@ == f.path
    &&& r.line == line
    &&& r.column == column
}

/// A call of `kind` named `name` of the module of the file `f`, made at
/// `line`:`column` in the scope `scope_id` with the parameters `provided`
/// and the bindings `bindings`.
pub open spec fn reference_is(
    r: SymbolReference,
    f: FileSpec,
    kind: SymbolKind,
    name: Seq<char>,
    line: usize,
    column: usize,
    scope_id: usize,
    provided: Seq<Seq<char>>,
    bindings: Seq<(Seq<char>, Seq<char>)>,
) -> bool {
    &&& r.kind == kind
    &&& r.name@ == name
    &&& r.module@ == f.module
    &&& r.mod_id@ == f.mod_id
    &&& r.path@ == f.path
    &&& r.line == line
    &&& r.column == column
    &&& r.scope_id == scope_id
    &&& string_views(r.provided_params@) == provided
    &&& crate::param_scan::binding_pairs(r.param_bindings@) == bindings
}

/// The UI element that `key = value` declares in an interface file: the
/// text of `value` where `key` is `name` and the text names an element.
pub open spec fn ui_scalar_name(kind: ScriptFileKind, key: Seq<char>, v: AstValue) -> Option<Seq<char>> {
    match crate::semantic_index::value_text(v) {
        Some(t) => if kind == ScriptFileKind::Ui && key == "name"@
            && crate::semantic_index::is_ui_identifier(t) {
            Some(t)
        } else {
            None
        },
        None => None,
    }
}

/// The resource that `key = value` names in an interface file: the text of
/// `value` where `key` is a resource key.
pub open spec fn ui_scalar_resource(kind: ScriptFileKind, key: Seq<char>, v: AstValue) -> Option<Seq<char>> {
    match crate::semantic_index::value_text(v) {
        Some(t) => if kind == ScriptFileKind::Ui && crate::semantic_index::is_ui_resource(key) {
            Some(t)
        } else {
            None
        },
        None => None,
    }
}

/// The UI element that the block `key = { items }` declares in an
/// interface file: the `name` its items give, where `key` is a container
/// key and the name names an element.
pub open spec fn ui_block_name(kind: ScriptFileKind, key: Seq<char>, items: Seq<AstStatement>) -> Option<Seq<char>> {
    match crate::semantic_index::first_assignment_text(items, "name"@) {
        Some(n) => if kind == ScriptFileKind::Ui && crate::semantic_index::is_ui_container(key)
            && crate::semantic_index::is_ui_identifier(n) {
            Some(n)
        } else {
            None
        },
        None => None,
    }
}

/// The aliases written in the text of a scalar value; none in a block.
pub open spec fn value_alias_tokens(v: AstValue) -> Seq<Seq<char>> {
    match v {
        AstValue::Scalar { value: s, .. } => crate::param_scan::alias_token_captures(crate::parser::scalar_text(s@)),
        AstValue::Block { .. } => Seq::empty(),
    }
}

/// The line and column where a value starts.
pub open spec fn value_start(v: AstValue) -> crate::parser::Span {
    match v {
        AstValue::Scalar { span, .. } => span.start,
        AstValue::Block { span, .. } => span.start,
    }
}

/// `b` is `a` followed by one usage of each alias of `names`, in order, all
/// written at `line`:`column` of the file `f` in the scope `scope_id`.
pub open spec fn aliases_appended(a: Seq<AliasUsage>, b: Seq<AliasUsage>, names: Seq<Seq<char>>, f: FileSpec, line: usize, column: usize, scope_id: usize) -> bool {
    &&& b.len() == a.len() + names.len()
    &&& b.subrange(0, a.len() as int) == a
    &&& forall|i: int| 0 <= i < names.len() ==> alias_usage_is(#[trigger] b[a.len() + i], f, names[i], line, column, scope_id)
}

/// The definitions `b` are `a` where the definition `active`, where there
/// is one, has gained the `$name$` placeholders of `v` that it neither
/// requires nor takes as optional, in the order they are met.
pub open spec fn placeholders_added(a: Seq<SymbolDefinition>, b: Seq<SymbolDefinition>, active: Option<usize>, v: AstValue) -> bool {
    match active {
        None => b == a,
        Some(d) => {
            &&& b.len() == a.len()
            &&& forall|i: int| 0 <= i < a.len() && i != d ==> #[trigger] b[i] == a[i]
            &&& same_but_required(a[d as int], b[d as int])
            &&& string_views(b[d as int].required_params@) == crate::param_scan::add_missing_params(
                string_views(a[d as int].required_params@),
                string_views(a[d as int].optional_params@),
                crate::param_scan::params_in_value(v),
            )
        },
    }
}

fn record_key_usage(index: &mut SemanticIndex, scope_id: usize, ctx: &BuildContext, key: &str, key_span: &SpanRange)
    requires
        index_wf(*old(index)),
        scope_id < old(index).symbols.scopes@.len(),
    ensures
        walk_step(*old(index), *final(index), file_spec(ctx.scope.mod_id@, ctx.scope.path@, ctx.module_name@)),
        changes_only(*old(index), *final(index), false, false, true, false, false, false),
        pushed(old(index).symbols.key_usages@, final(index).symbols.key_usages@),
        key_usage_is(
            final(index).symbols.key_usages@.last(),
            file_spec(ctx.scope.mod_id@, ctx.scope.path@, ctx.module_name@),
            key@,
            key_span.start.line,
            key_span.start.column,
            scope_id,
            old(index).symbols.scopes@[scope_id as int].this_type,
        ),
{
    let this_type = index.symbols.scopes.scope_this_type(scope_id);
    index.symbols.key_usages.push(
        KeyUsage {
            key: key.to_owned(),
            mod_id: ctx.scope.mod_id.to_owned(),
            path: ctx.scope.path.to_owned(),
            line: key_span.start.line,
            column: key_span.start.column,
            scope_id,
            this_type,
        },
    );
    assert(index.symbols.key_usages@.drop_last() =~= old(index).symbols.key_usages@);
    proof {
        lemma_walk_extends_refl(*old(index), file_spec(ctx.scope.mod_id@, ctx.scope.path@, ctx.module_name@));
    }
}

fn record_scalar_assignment(
    index: &mut SemanticIndex,
    scope_id: usize,
    ctx: &BuildContext,
    key: &str,
    key_span: &SpanRange,
    value: &AstValue,
)
    requires
        index_wf(*old(index)),
        scope_id < old(index).symbols.scopes@.len(),
    ensures
        walk_step(*old(index), *final(index), file_spec(ctx.scope.mod_id@, ctx.scope.path@, ctx.module_name@)),
        changes_only(*old(index), *final(index), false, false, false, true, false, false),
        match crate::semantic_index::value_text(*value) {
            Some(t) => pushed(old(index).scalar_assignments@, final(index).scalar_assignments@) && assignment_is(
                final(index).scalar_assignments@.last(),
                file_spec(ctx.scope.mod_id@, ctx.scope.path@, ctx.module_name@),
                key@,
                t,
                key_span.start.line,
                key_span.start.column,
                scope_id,
            ),
            None => final(index).scalar_assignments@ == old(index).scalar_assignments@,
        },
{
    proof {
        lemma_walk_extends_refl(*old(index), file_spec(ctx.scope.mod_id@, ctx.scope.path@, ctx.module_name@));
    }
    if let AstValue::Scalar { value: v, .. } = value {
        index.scalar_assignments.push(
            ScalarAssignment {
                key: key.to_owned(),
                value: v.as_text(),
                mod_id: ctx.scope.mod_id.to_owned(),
                path: ctx.scope.path.to_owned(),
                line: key_span.start.line,
                column: key_span.start.column,
                scope_id,
            },
        );
        assert(index.scalar_assignments@.drop_last() =~= old(index).scalar_assignments@);
    }
}

fn record_ui_scalar_semantics(
    index: &mut SemanticIndex,
    ctx: &BuildContext,
    key: &str,
    key_span: &SpanRange,
    value: &AstValue,
)
    requires
        index_wf(*old(index)),
    ensures
        walk_step(*old(index), *final(index), file_spec(ctx.scope.mod_id@, ctx.scope.path@, ctx.module_name@)),
        changes_only(*old(index), *final(index), false, false, false, false, false, true),
        match ui_scalar_name(ctx.scope.file_kind, key@, *value) {
            Some(n) => pushed(old(index).ui_definitions@, final(index).ui_definitions@) && ui_definition_is(
                final(index).ui_definitions@.last(),
                file_spec(ctx.scope.mod_id@, ctx.scope.path@, ctx.module_name@),
                n,
                key_span.start.line,
                key_span.start.column,
            ),
            None => final(index).ui_definitions@ == old(index).ui_definitions@,
        },
        match ui_scalar_resource(ctx.scope.file_kind, key@, *value) {
            Some(t) => pushed(old(index).resource_references@, final(index).resource_references@) && resource_is(
                final(index).resource_references@.last(),
                file_spec(ctx.scope.mod_id@, ctx.scope.path@, ctx.module_name@),
                key@,
                t,
                key_span.start.line,
                key_span.start.column,
            ),
            None => final(index).resource_references@ == old(index).resource_references@,
        },
{
    proof {
        lemma_walk_extends_refl(*old(index), file_spec(ctx.scope.mod_id@, ctx.scope.path@, ctx.module_name@));
    }
    if ctx.scope.file_kind != ScriptFileKind::Ui {
        return;
    }
    let text = match scalar_text_of(value) {
        Some(t) => t,
        None => {
            return;
        },
    };
    if str_eq(key, "name") && is_ui_identifier_candidate(text.as_str()) {
        index.ui_definitions.push(
            UiDefinition {
                name: text.clone(),
                mod_id: ctx.scope.mod_id.to_owned(),
                path: ctx.scope.path.to_owned(),
                line: key_span.start.line,
                column: key_span.start.column,
            },
        );
        assert(index.ui_definitions@.drop_last() =~= old(index).ui_definitions@);
    }
    if is_ui_resource_key(key) {
        index.resource_references.push(
            ResourceReference {
                key: key.to_owned(),
                value: text,
                mod_id: ctx.scope.mod_id.to_owned(),
                path: ctx.scope.path.to_owned(),
                line: key_span.start.line,
                column: key_span.start.column,
            },
        );
        assert(index.resource_references@.drop_last() =~= old(index).resource_references@);
    }
}

fn record_ui_block_semantics(
    index: &mut SemanticIndex,
    ctx: &BuildContext,
    key: &str,
    key_span: &SpanRange,
    items: &Vec<AstStatement>,
)
    requires
        index_wf(*old(index)),
    ensures
        walk_step(*old(index), *final(index), file_spec(ctx.scope.mod_id@, ctx.scope.path@, ctx.module_name@)),
        changes_only(*old(index), *final(index), false, false, false, false, false, true),
        final(index).resource_references@ == old(index).resource_references@,
        match ui_block_name(ctx.scope.file_kind, key@, items@) {
            Some(n) => pushed(old(index).ui_definitions@, final(index).ui_definitions@) && ui_definition_is(
                final(index).ui_definitions@.last(),
                file_spec(ctx.scope.mod_id@, ctx.scope.path@, ctx.module_name@),
                n,
                key_span.start.line,
                key_span.start.column,
            ),
            None => final(index).ui_definitions@ == old(index).ui_definitions@,
        },
{
    proof {
        lemma_walk_extends_refl(*old(index), file_spec(ctx.scope.mod_id@, ctx.scope.path@, ctx.module_name@));
    }
    if ctx.scope.file_kind != ScriptFileKind::Ui || !looks_like_ui_container_key(key) {
        return;
    }
    let name = match extract_assignment_scalar(items, "name") {
        Some(n) => n,
        None => {
            return;
        },
    };
    if !is_ui_identifier_candidate(name.as_str()) {
        return;
    }
    index.ui_definitions.push(
        UiDefinition {
            name,
            mod_id: ctx.scope.mod_id.to_owned(),
            path: ctx.scope.path.to_owned(),
            line: key_span.start.line,
            column: key_span.start.column,
        },
    );
    assert(index.ui_definitions@.drop_last() =~= old(index).ui_definitions@);
}

fn push_alias_usage(index: &mut SemanticIndex, scope_id: usize, ctx: &BuildContext, alias: String, line: usize, column: usize)
    requires
        index_wf(*old(index)),
        scope_id < old(index).symbols.scopes@.len(),
    ensures
        walk_step(*old(index), *final(index), file_spec(ctx.scope.mod_id@, ctx.scope.path@, ctx.module_name@)),
        changes_only(*old(index), *final(index), false, false, false, false, true, false),
        pushed(old(index).alias_usages@, final(index).alias_usages@),
        alias_usage_is(final(index).alias_usages@.last(), file_spec(ctx.scope.mod_id@, ctx.scope.path@, ctx.module_name@), alias@, line, column, scope_id),
{
    proof {
        lemma_walk_extends_refl(*old(index), file_spec(ctx.scope.mod_id@, ctx.scope.path@, ctx.module_name@));
    }
    index.alias_usages.push(
        AliasUsage {
            alias,
            mod_id: ctx.scope.mod_id.to_owned(),
            path: ctx.scope.path.to_owned(),
            line,
            column,
            scope_id,
        },
    );
    assert(index.alias_usages@.drop_last() =~= old(index).alias_usages@);
}

fn record_alias_tokens_from_value(index: &mut SemanticIndex, scope_id: usize, ctx: &BuildContext, value: &AstValue)
    requires
        index_wf(*old(index)),
        scope_id < old(index).symbols.scopes@.len(),
    ensures
        walk_step(*old(index), *final(index), file_spec(ctx.scope.mod_id@, ctx.scope.path@, ctx.module_name@)),
        changes_only(*old(index), *final(index), false, false, false, false, true, false),
        aliases_appended(
            old(index).alias_usages@,
            final(index).alias_usages@,
            value_alias_tokens(*value),
            file_spec(ctx.scope.mod_id@, ctx.scope.path@, ctx.module_name@),
            value_start(*value).line,
            value_start(*value).column,
            scope_id,
        ),
{
    let ghost f = file_spec(ctx.scope.mod_id@, ctx.scope.path@, ctx.module_name@);
    proof {
        lemma_walk_extends_refl(*old(index), f);
    }
    if let AstValue::Scalar { span, .. } = value {
        let aliases = alias_tokens_of_value(value);
        let mut i: usize = 0;
        assert(old(index).alias_usages@.subrange(0, old(index).alias_usages@.len() as int) =~= old(index).alias_usages@);
        while i < aliases.len()
            invariant
                i <= aliases.len(),
                index_wf(*index),
                walk_extends(*old(index), *index, f),
                f == file_spec(ctx.scope.mod_id@, ctx.scope.path@, ctx.module_name@),
                scope_id < index.symbols.scopes@.len(),
                string_views(aliases@) == value_alias_tokens(*value),
                value_start(*value) == span.start,
                changes_only(*old(index), *index, false, false, false, false, true, false),
                aliases_appended(
                    old(index).alias_usages@,
                    index.alias_usages@,
                    string_views(aliases@).subrange(0, i as int),
                    f,
                    span.start.line,
                    span.start.column,
                    scope_id,
                ),
            decreases aliases.len() - i,
        {
            let ghost before = *index;
            push_alias_usage(index, scope_id, ctx, aliases[i].clone(), span.start.line, span.start.column);
            proof {
                lemma_walk_extends_trans(*old(index), before, *index, f);
                let names = string_views(aliases@).subrange(0, i + 1);
                let n0 = old(index).alias_usages@.len();
                assert(index.alias_usages@.subrange(0, n0 as int) =~= before.alias_usages@.subrange(0, n0 as int));
                assert forall|k: int| 0 <= k < names.len() implies alias_usage_is(
                    #[trigger] index.alias_usages@[n0 + k],
                    f,
                    names[k],
                    span.start.line,
                    span.start.column,
                    scope_id,
                ) by {
                    if k < i {
                        assert(index.alias_usages@[n0 + k] == before.alias_usages@[n0 + k]);
                    }
                }
            }
            i = i + 1;
        }
        assert(string_views(aliases@).subrange(0, aliases@.len() as int) =~= string_views(aliases@));
    } else {
        assert(old(index).alias_usages@.subrange(0, old(index).alias_usages@.len() as int) =~= old(index).alias_usages@);
    }
}

/// The number of the first scripted effect of mod `mod_id` defined at the
/// path `path` under the name `name`.
pub open spec fn effect_definition_matches(d: SymbolDefinition, mod_id: Seq<char>, path: Seq<char>, name: Seq<char>) -> bool {
    d.kind == SymbolKind::ScriptedEffect && d.mod_id@ == mod_id && path_components(d.path@)
        == path_components(path) && d.local_name@ == name
}

pub fn find_scripted_effect_definition(defs: &Vec<SymbolDefinition>, mod_id: &str, path: &str, name: &str) -> (r:
    Option<usize>)
    ensures
        match r {
            Some(i) => i < defs@.len() && effect_definition_matches(defs@[i as int], mod_id@, path@, name@)
                && forall|j: int| 0 <= j < i ==> !effect_definition_matches(#[trigger] defs@[j], mod_id@, path@, name@),
            None => forall|j: int| 0 <= j < defs@.len() ==> !effect_definition_matches(#[trigger] defs@[j], mod_id@, path@, name@),
        },
{
    let target = path_parts_of(path);
    let mut i: usize = 0;
    while i < defs.len()
        invariant
            i <= defs.len(),
            views(target@) == path_components(path@),
            forall|j: int| 0 <= j < i ==> !effect_definition_matches(#[trigger] defs@[j], mod_id@, path@, name@),
        decreases defs.len() - i,
    {
        let d = &defs[i];
        if d.kind == SymbolKind::ScriptedEffect && str_eq(d.mod_id.as_str(), mod_id) && str_eq(
            d.local_name.as_str(),
            name,
        ) {
            let parts = path_parts_of(d.path.as_str());
            if components_equal(&parts, &target) {
                return Some(i);
            }
        }
        i = i + 1;
    }
    None
}


/// The required parameters that a body declares: its `$name$`
/// placeholders that the optional markers do not cover, sorted and without
/// repeats.
fn required_params_without(items: &Vec<AstStatement>, optional: &Vec<String>) -> (r: Vec<String>)
    ensures
        strictly_sorted(string_views(r@)),
        forall|k: Seq<char>|
            #[trigger] string_views(r@).contains(k) <==> (crate::param_scan::params_in_items(items@).contains(k)
                && !string_views(optional@).contains(k)),
{
    let tokens = collect_required_params(items);
    let mut set: Vec<Vec<char>> = Vec::new();
    let mut i: usize = 0;
    while i < tokens.len()
        invariant
            i <= tokens.len(),
            string_views(tokens@) == crate::param_scan::params_in_items(items@),
            strictly_sorted(views(set@)),
            forall|k: Seq<char>|
                #[trigger] views(set@).contains(k) <==> (string_views(tokens@).subrange(0, i as int).contains(k)
                    && !string_views(optional@).contains(k)),
        decreases tokens.len() - i,
    {
        let ghost prev = string_views(tokens@).subrange(0, i as int);
        let ghost next = string_views(tokens@).subrange(0, i + 1);
        assert(next =~= prev.push(tokens@[i as int]@));
        if !contains_string(optional, tokens[i].as_str()) {
            insert_unique(&mut set, chars_of(tokens[i].as_str()));
        }
        assert forall|k: Seq<char>| #[trigger] views(set@).contains(k) <==> (next.contains(k)
            && !string_views(optional@).contains(k)) by {
            if next.contains(k) && k != tokens@[i as int]@ {
                let j = choose|j: int| 0 <= j < next.len() && next[j] == k;
                assert(prev[j] == k);
            }
            if prev.contains(k) {
                let j = choose|j: int| 0 <= j < prev.len() && prev[j] == k;
                assert(next[j] == k);
            }
            if k == tokens@[i as int]@ {
                assert(next[i as int] == k);
            }
        }
        i = i + 1;
    }
    assert(string_views(tokens@).subrange(0, tokens.len() as int) =~= string_views(tokens@));
    to_strings(&set)
}

proof fn lemma_sorted_views_disjoint(r: Seq<Seq<char>>, o: Seq<Seq<char>>, p: Seq<Seq<char>>)
    requires
        forall|k: Seq<char>| #[trigger] r.contains(k) <==> (p.contains(k) && !o.contains(k)),
    ensures
        forall|k: Seq<char>| #[trigger] r.contains(k) ==> !o.contains(k),
{
}

/// Records the definition that the block `key = { items }` opens as the
/// scope `child`: a symbol of the file's module with the parameters its
/// body requires and those it marks optional, the contract registered for
/// its name and the parameter names of its `$name$` blocks.
fn push_definition(
    index: &mut SemanticIndex,
    ctx: &BuildContext,
    key: &str,
    key_span: &SpanRange,
    kind: SymbolKind,
    child: usize,
    span: &SpanRange,
    items: &Vec<AstStatement>,
    Ghost(start): Ghost<SemanticIndex>,
)
    requires
        index_wf(*old(index)),
        walk_extends(start, *old(index), file_spec(ctx.scope.mod_id@, ctx.scope.path@, ctx.module_name@)),
        start.symbols.scopes@.len() <= child < old(index).symbols.scopes@.len(),
        kind != SymbolKind::Event,
    ensures
        walk_step(start, *final(index), file_spec(ctx.scope.mod_id@, ctx.scope.path@, ctx.module_name@)),
        definition_pushed(*old(index), *final(index)),
        symbol_definition_is(
            final(index).symbols.definitions@.last(),
            env_of(ctx),
            final(index).symbols.scopes@,
            kind,
            key@,
            *key_span,
            child,
            *span,
            items@,
        ),
        final(index).symbols.scopes@ == old(index).symbols.scopes@,
        final(index).symbols.definitions@.len() == old(index).symbols.definitions@.len() + 1,
        final(index).symbols.definitions@.subrange(0, old(index).symbols.definitions@.len() as int)
            == old(index).symbols.definitions@,
        ({
            let d = final(index).symbols.definitions@.last();
            &&& d.kind == kind
            &&& d.local_name@ == key@
            &&& d.line == key_span.start.line
            &&& d.column == key_span.start.column
            &&& d.scope_id == child
            &&& forall|k: Seq<char>|
                #[trigger] string_views(d.required_params@).contains(k) <==> (crate::param_scan::params_in_items(items@).contains(k)
                    && !string_views(d.optional_params@).contains(k))
            &&& strictly_sorted(string_views(d.required_params@))
            &&& string_views(d.optional_params@).to_set() == crate::param_scan::optional_params_in(
                ctx.source@,
                span.start.offset as int,
                span.end.offset as int,
            )
            &&& string_views(d.scope_param_names@).to_set() == crate::semantic_index::scope_param_names_in(items@)
        }),
{
    let optional = collect_optional_params_from_source(ctx.source, span.start.offset, span.end.offset);
    let required = required_params_without(items, &optional);
    proof {
        lemma_sorted_views_disjoint(string_views(required@), string_views(optional@), crate::param_scan::params_in_items(items@));
    }
    let this_type = index.symbols.scopes.scope_this_type(child);
    let d = SymbolDefinition {
        kind,
        name: qualify_symbol_name(ctx.module_name, key),
        module: ctx.module_name.to_owned(),
        local_name: key.to_owned(),
        mod_id: ctx.scope.mod_id.to_owned(),
        path: ctx.scope.path.to_owned(),
        line: key_span.start.line,
        column: key_span.start.column,
        scope_id: child,
        declared_this_type: this_type,
        inferred_this_type: ScopeType::Unknown,
        inferred_this_mask: 0,
        inferred_from_mask: 0,
        required_params: required,
        optional_params: optional,
        param_contract: registered_param_contract(key),
        scope_param_names: collect_scope_param_names(items),
    };
    let ghost before = *index;
    index.symbols.definitions.push(d);
    proof {
        let f = file_spec(ctx.scope.mod_id@, ctx.scope.path@, ctx.module_name@);
        lemma_walk_extends_refl(before, f);
        assert(index.symbols.definitions@.subrange(0, before.symbols.definitions@.len() as int) =~= before.symbols.definitions@);
        assert(definition_in_file(index.symbols.definitions@.last(), f, index.symbols.scopes@, child as int));
        assert(index.symbols.definitions@.drop_last() =~= before.symbols.definitions@);
        assert(definition_in_file(index.symbols.definitions@.last(), f, index.symbols.scopes@, start.symbols.scopes@.len() as int));
        assert(walk_extends(before, *index, f) || true);
        let sd = start.symbols.definitions@;
        let dd = index.symbols.definitions@;
        assert forall|i: int| 0 <= i < sd.len() implies same_but_required(sd[i], #[trigger] dd[i]) by {
            assert(dd[i] == before.symbols.definitions@[i]);
        }
        assert forall|i: int| sd.len() <= i < dd.len() implies definition_in_file(#[trigger] dd[i], f, index.symbols.scopes@, start.symbols.scopes@.len() as int) by {
            if i < before.symbols.definitions@.len() {
                assert(dd[i] == before.symbols.definitions@[i]);
            }
        }
    }
}


fn push_reference(
    index: &mut SemanticIndex,
    ctx: &BuildContext,
    kind: SymbolKind,
    name: String,
    key_span: &SpanRange,
    scope_id: usize,
    provided_params: Vec<String>,
    param_bindings: Vec<crate::scope_inference::ParamBinding>,
)
    requires
        index_wf(*old(index)),
        scope_id < old(index).symbols.scopes@.len(),
        kind == SymbolKind::ScriptedEffect ==> strictly_sorted(string_views(provided_params@))
            && crate::param_scan::bindings_sorted(crate::param_scan::binding_pairs(param_bindings@)),
        kind != SymbolKind::ScriptedEffect ==> (kind == SymbolKind::Event || kind == SymbolKind::ScriptedTrigger)
            && provided_params@.len() == 0 && param_bindings@.len() == 0,
    ensures
        walk_step(*old(index), *final(index), file_spec(ctx.scope.mod_id@, ctx.scope.path@, ctx.module_name@)),
        changes_only(*old(index), *final(index), false, true, false, false, false, false),
        pushed(old(index).symbols.references@, final(index).symbols.references@),
        reference_is(
            final(index).symbols.references@.last(),
            file_spec(ctx.scope.mod_id@, ctx.scope.path@, ctx.module_name@),
            kind,
            name@,
            key_span.start.line,
            key_span.start.column,
            scope_id,
            string_views(provided_params@),
            crate::param_scan::binding_pairs(param_bindings@),
        ),
{
    proof {
        lemma_walk_extends_refl(*old(index), file_spec(ctx.scope.mod_id@, ctx.scope.path@, ctx.module_name@));
    }
    index.symbols.references.push(
        SymbolReference {
            kind,
            name,
            module: ctx.module_name.to_owned(),
            mod_id: ctx.scope.mod_id.to_owned(),
            path: ctx.scope.path.to_owned(),
            line: key_span.start.line,
            column: key_span.start.column,
            scope_id,
            provided_params,
            param_bindings,
        },
    );
    assert(index.symbols.references@.drop_last() =~= old(index).symbols.references@);
}

proof fn lemma_add_missing_grows(req: Seq<Seq<char>>, opt: Seq<Seq<char>>, toks: Seq<Seq<char>>)
    requires
        forall|k: Seq<char>| #[trigger] req.contains(k) ==> !opt.contains(k),
    ensures
        grows(req, crate::param_scan::add_missing_params(req, opt, toks)),
        forall|k: Seq<char>|
            #[trigger] crate::param_scan::add_missing_params(req, opt, toks).contains(k) ==> !opt.contains(k),
    decreases toks.len(),
{
    if toks.len() > 0 {
        let t = toks[0];
        let next = if req.contains(t) || opt.contains(t) {
            req
        } else {
            req.push(t)
        };
        assert forall|k: Seq<char>| #[trigger] next.contains(k) implies !opt.contains(k) by {
            if next.contains(k) && !req.contains(k) {
                let j = choose|j: int| 0 <= j < next.len() && next[j] == k;
                if j < req.len() {
                    assert(req[j] == k);
                }
            }
        }
        lemma_add_missing_grows(next, opt, toks.drop_first());
    }
}

/// Adds the `$name$` placeholders of `value` to the required parameters of
/// the definition `active`, where there is one.
fn record_param_tokens_for(index: &mut SemanticIndex, ctx: &BuildContext, active: Option<usize>, value: &AstValue)
    requires
        index_wf(*old(index)),
        active matches Some(d) ==> d < old(index).symbols.definitions@.len(),
    ensures
        walk_step(*old(index), *final(index), file_spec(ctx.scope.mod_id@, ctx.scope.path@, ctx.module_name@)),
        changes_only(*old(index), *final(index), true, false, false, false, false, false),
        placeholders_added(old(index).symbols.definitions@, final(index).symbols.definitions@, active, *value),
        final(index).symbols.definitions@.len() == old(index).symbols.definitions@.len(),
{
    let ghost f = file_spec(ctx.scope.mod_id@, ctx.scope.path@, ctx.module_name@);
    proof {
        lemma_walk_extends_refl(*old(index), f);
    }
    match active {
        None => {},
        Some(d) => {
            let ghost before = *index;
            let ghost old_def = index.symbols.definitions@[d as int];
            let mut def = index.symbols.definitions.remove(d);
            assert(def == old_def);
            record_param_tokens(&mut def.required_params, &def.optional_params, value);
            proof {
                assert(params_disjoint(old_def));
                lemma_add_missing_grows(
                    string_views(old_def.required_params@),
                    string_views(old_def.optional_params@),
                    crate::param_scan::params_in_value(*value),
                );
            }
            index.symbols.definitions.insert(d, def);
            proof {
                let db = before.symbols.definitions@;
                assert(index.symbols.definitions@ =~= db.update(d as int, def));
                assert(same_but_required(old_def, def));
                assert(params_disjoint(def));
                assert forall|i: int| 0 <= i < db.len() implies same_but_required(db[i], #[trigger] index.symbols.definitions@[i]) by {
                    if i != d {
                        assert(index.symbols.definitions@[i] == db[i]);
                    }
                }
            }
        },
    }
}

fn copy_namespace(ns: &Option<String>) -> (r: Option<String>)
    ensures
        r == *ns,
{
    match ns {
        Some(s) => Some(s.clone()),
        None => None,
    }
}

fn has_dot(s: &str) -> (r: bool)
    ensures
        r == s@.contains('.'),
{
    let cs = chars_of(s);
    let mut i: usize = 0;
    while i < cs.len()
        invariant
            i <= cs.len(),
            cs@ == s@,
            forall|j: int| 0 <= j < i ==> cs@[j] != '.',
        decreases cs.len() - i,
    {
        if cs[i] == '.' {
            assert(cs@[i as int] == '.');
            return true;
        }
        i = i + 1;
    }
    false
}

/// The full id of an event: the id as written where it holds a `.`, else
/// the namespace, a `.` and the id where a namespace was declared.
pub open spec fn full_event_id(id: Seq<char>, namespace: Option<Seq<char>>) -> Seq<char> {
    if id.contains('.') {
        id
    } else {
        match namespace {
            Some(ns) => ns + "."@ + id,
            None => id,
        }
    }
}

fn event_full_id(id: String, namespace: &Option<String>) -> (r: String)
    ensures
        r@ == full_event_id(id@, match *namespace {
            Some(ns) => Some(ns@),
            None => None,
        }),
{
    if has_dot(id.as_str()) {
        return id;
    }
    match namespace {
        Some(ns) => {
            let mut out = chars_of(ns.as_str());
            out.push('.');
            out.append(&mut chars_of(id.as_str()));
            proof {
                reveal_strlit(".");
            }
            let r = string_from_chars(out.as_slice());
            assert(r@ =~= ns@ + "."@ + id@);
            r
        },
        None => id,
    }
}


proof fn lemma_scope_pushed(a: SemanticIndex, b: SemanticIndex, f: FileSpec)
    requires
        index_wf(a),
        a.symbols.scopes@.len() <= b.symbols.scopes@.len(),
        b.symbols.scopes@.subrange(0, a.symbols.scopes@.len() as int) == a.symbols.scopes@,
        forall|i: int|
            a.symbols.scopes@.len() <= i < b.symbols.scopes@.len() ==> (#[trigger] b.symbols.scopes@[i]).mod_id@
                == f.mod_id && b.symbols.scopes@[i].path@ == f.path,
        b.symbols.definitions == a.symbols.definitions,
        b.symbols.references == a.symbols.references,
        b.symbols.key_usages == a.symbols.key_usages,
        b.scalar_assignments == a.scalar_assignments,
        b.alias_usages == a.alias_usages,
        b.ui_definitions == a.ui_definitions,
        b.resource_references == a.resource_references,
        b.documents == a.documents,
        b.parse_issues == a.parse_issues,
    ensures
        walk_step(a, b, f),
{
    let sa = a.symbols.scopes@;
    let sb = b.symbols.scopes@;
    assert forall|i: int| 0 <= i < sa.len() implies #[trigger] sb[i] == sa[i] by {
        assert(sb.subrange(0, sa.len() as int)[i] == sb[i]);
    }
    lemma_walk_extends_refl(a, f);
    let da = a.symbols.definitions@;
    assert forall|i: int| 0 <= i < da.len() implies same_but_required(da[i], #[trigger] b.symbols.definitions@[i]) by {}
    let ua = a.symbols.key_usages@;
    assert forall|i: int| 0 <= i < ua.len() implies (#[trigger] ua[i]).this_type == sb[ua[i].scope_id as int].this_type
        || true by {}
}

fn push_event_definition(
    index: &mut SemanticIndex,
    ctx: &BuildContext,
    key: &str,
    span: &SpanRange,
    name: String,
    event_scope: usize,
    this_type: ScopeType,
    Ghost(start): Ghost<SemanticIndex>,
)
    requires
        index_wf(*old(index)),
        walk_extends(start, *old(index), file_spec(ctx.scope.mod_id@, ctx.scope.path@, ctx.module_name@)),
        start.symbols.scopes@.len() <= event_scope < old(index).symbols.scopes@.len(),
        old(index).symbols.scopes@[event_scope as int].kind == ScopeKind::Event,
        old(index).symbols.scopes@[event_scope as int].this_type == this_type,
    ensures
        walk_step(start, *final(index), file_spec(ctx.scope.mod_id@, ctx.scope.path@, ctx.module_name@)),
        definition_pushed(*old(index), *final(index)),
        event_definition_is(
            final(index).symbols.definitions@.last(),
            file_spec(ctx.scope.mod_id@, ctx.scope.path@, ctx.module_name@),
            key@,
            *span,
            name@,
            event_scope,
            this_type,
        ),
        final(index).symbols.scopes@ == old(index).symbols.scopes@,
        final(index).symbols.definitions@ == old(index).symbols.definitions@.push(final(index).symbols.definitions@.last()),
        final(index).symbols.definitions@.last().kind == SymbolKind::Event,
        final(index).symbols.definitions@.last().name@ == name@,
{
    let d = SymbolDefinition {
        kind: SymbolKind::Event,
        name,
        module: ctx.module_name.to_owned(),
        local_name: key.to_owned(),
        mod_id: ctx.scope.mod_id.to_owned(),
        path: ctx.scope.path.to_owned(),
        line: span.start.line,
        column: span.start.column,
        scope_id: event_scope,
        declared_this_type: this_type,
        inferred_this_type: this_type,
        inferred_this_mask: scope_type_mask(this_type),
        inferred_from_mask: 0,
        required_params: Vec::new(),
        optional_params: Vec::new(),
        param_contract: None,
        scope_param_names: Vec::new(),
    };
    proof {
        assert(string_views(d.required_params@) =~= Seq::<Seq<char>>::empty());
        assert(string_views(d.optional_params@) =~= Seq::<Seq<char>>::empty());
        assert(string_views(d.scope_param_names@) =~= Seq::<Seq<char>>::empty());
    }
    let ghost before = *index;
    index.symbols.definitions.push(d);
    proof {
        let f = file_spec(ctx.scope.mod_id@, ctx.scope.path@, ctx.module_name@);
        let sd = start.symbols.definitions@;
        let dd = index.symbols.definitions@;
        assert(definition_in_file(dd.last(), f, index.symbols.scopes@, start.symbols.scopes@.len() as int));
        assert forall|i: int| 0 <= i < sd.len() implies same_but_required(sd[i], #[trigger] dd[i]) by {
            assert(dd[i] == before.symbols.definitions@[i]);
        }
        assert forall|i: int| sd.len() <= i < dd.len() implies definition_in_file(#[trigger] dd[i], f, index.symbols.scopes@, start.symbols.scopes@.len() as int) by {
            if i < before.symbols.definitions@.len() {
                assert(dd[i] == before.symbols.definitions@[i]);
            }
        }
        assert(index.symbols.definitions@.drop_last() =~= before.symbols.definitions@);
        assert(index.symbols.definitions@ =~= before.symbols.definitions@.push(dd.last()));
    }
}

/// Opens the scope of an event block `key = { items }` below `scope_id`,
/// records the event under its full id where the block gives an `id`, and
/// walks its statements.
pub fn handle_event_block(
    index: &mut SemanticIndex,
    scope_id: usize,
    ctx: &BuildContext,
    key: &str,
    value: &AstValue,
    namespace: &Option<String>,
)
    requires
        index_wf(*old(index)),
        scope_id < old(index).symbols.scopes@.len(),
    ensures
        walk_step(*old(index), *final(index), file_spec(ctx.scope.mod_id@, ctx.scope.path@, ctx.module_name@)),
        event_block_walked(*old(index), *final(index), env_of(ctx), scope_id, key@, *value, opt_text(*namespace)),
    decreases value,
{
    let ghost f = file_spec(ctx.scope.mod_id@, ctx.scope.path@, ctx.module_name@);
    let ghost env = env_of(ctx);
    proof {
        lemma_walk_extends_refl(*old(index), f);
    }
    let (items, span) = match value {
        AstValue::Block { items, span } => (items, span),
        AstValue::Scalar { .. } => {
            return;
        },
    };
    let this_type = match event_scope_type(key) {
        Some(t) => t,
        None => {
            return;
        },
    };
    let from_type = match event_from_type(key) {
        Some(t) => t,
        None => ScopeType::Unknown,
    };
    let parent_this = index.symbols.scopes.scope_this_type(scope_id);
    let mut aliases = index.symbols.scopes.scope_aliases(scope_id);
    aliases.this = Some(this_type);
    aliases.root = Some(this_type);
    aliases.from = Some(from_type);
    aliases.prev = Some(parent_this);
    let ghost b0 = *index;
    let event_scope = index.symbols.scopes.push_scope(
        ScopeKind::Event,
        Some(scope_id),
        this_type,
        aliases,
        ctx.scope.mod_id,
        ctx.scope.path,
        span.start.line,
        key,
    );
    let ghost m1 = *index;
    proof {
        lemma_scope_pushed(b0, *index, f);
        lemma_walk_extends_trans(*old(index), b0, *index, f);
        assert(m1.symbols.scopes@.drop_last() =~= b0.symbols.scopes@);
        assert(m1.symbols.scopes@.last() == m1.symbols.scopes@[event_scope as int]);
        assert(aliases == event_aliases(key@, this_type, this_type_at(b0.symbols.scopes@, scope_id as int)));
        assert(scope_opened(
            *old(index),
            m1,
            env.f,
            ScopeKind::Event,
            scope_id,
            this_type,
            event_aliases(key@, this_type, this_type_at(old(index).symbols.scopes@, scope_id as int)),
            span.start.line,
            key@,
        ));
    }
    match extract_assignment_scalar(items, "id") {
        Some(id) => {
            let full_id = event_full_id(id, namespace);
            push_event_definition(index, ctx, key, span, full_id, event_scope, this_type, Ghost(*old(index)));
        },
        None => {},
    }
    let ghost b1 = *index;
    proof {
        assert(event_recorded(m1, b1, env.f, key@, *span, items@, opt_text(*namespace), event_scope, this_type));
    }
    assert(decreases_to!(value => items));
    walk_statements(items, index, event_scope, ctx, None, namespace);
    proof {
        lemma_walk_extends_trans(*old(index), b1, *index, f);
        assert(walked(b1, *index, env, items@, event_scope, None, opt_text(*namespace)));
        assert(exists|m2: SemanticIndex|
            #[trigger] event_recorded(m1, m2, env.f, key@, *span, items@, opt_text(*namespace), event_scope, this_type)
                && walked(m2, *index, env, items@, event_scope, None, opt_text(*namespace)));
        assert(crate::scope_tree::event_scope(key@) == Some(this_type));
        assert(event_scope == old(index).symbols.scopes@.len() as usize);
        assert(*value == AstValue::Block { items: *items, span: *span });
        assert(scope_opened(
            *old(index),
            m1,
            env.f,
            ScopeKind::Event,
            scope_id,
            this_type,
            event_aliases(key@, this_type, this_type_at(old(index).symbols.scopes@, scope_id as int)),
            span.start.line,
            key@,
        ));
    }
}

/// The alias that the key of an assignment is, if it is one.
pub open spec fn key_alias(key: Seq<char>) -> Seq<Seq<char>> {
    if crate::semantic_index::is_alias(key) {
        seq![key]
    } else {
        Seq::empty()
    }
}

/// The event that `key = value` calls: the `id` of a `country_event` or
/// `province_event` block.
pub open spec fn event_call_id(key: Seq<char>, v: AstValue) -> Option<Seq<char>> {
    match v {
        AstValue::Block { items, .. } => if crate::scope_tree::event_scope(key) is Some {
            crate::semantic_index::first_assignment_text(items@, "id"@)
        } else {
            None
        },
        AstValue::Scalar { .. } => None,
    }
}

/// The calls an assignment `key = value` in the scope `sid` of `s` makes,
/// in the order they are recorded: the event it calls, then the scripted
/// trigger that `key` may name.
pub open spec fn assignment_calls(
    s: Seq<ScopeNode>,
    sid: int,
    file_kind: ScriptFileKind,
    groups: Set<Seq<char>>,
    builtins: BuiltinLookup,
    key: Seq<char>,
    v: AstValue,
) -> Seq<(SymbolKind, Seq<char>)> {
    (match event_call_id(key, v) {
        Some(id) => seq![(SymbolKind::Event, id)],
        None => Seq::empty(),
    }) + if crate::call_candidates::may_call_scripted_trigger(s, sid, file_kind, groups, builtins, key) {
        seq![(SymbolKind::ScriptedTrigger, key)]
    } else {
        Seq::empty()
    }
}

/// `b` is `a` followed by one reference for each call of `calls`, in order,
/// all made at `line`:`column` of the file `f` in the scope `scope_id`,
/// with no parameters.
pub open spec fn calls_appended(
    a: Seq<SymbolReference>,
    b: Seq<SymbolReference>,
    calls: Seq<(SymbolKind, Seq<char>)>,
    f: FileSpec,
    line: usize,
    column: usize,
    scope_id: usize,
) -> bool {
    &&& b.len() == a.len() + calls.len()
    &&& b.subrange(0, a.len() as int) == a
    &&& forall|i: int|
        0 <= i < calls.len() ==> reference_is(
            #[trigger] b[a.len() + i],
            f,
            calls[i].0,
            calls[i].1,
            line,
            column,
            scope_id,
            Seq::empty(),
            Seq::empty(),
        )
}

/// What a walk reads besides the statements: the file, the kind of script
/// it holds, the province groups and builtin names it is read against, and
/// its source text.
pub struct WalkEnv {
    pub f: FileSpec,
    pub file_kind: ScriptFileKind,
    pub groups: Set<Seq<char>>,
    pub builtins: BuiltinLookup,
    pub source: Seq<char>,
}

pub open spec fn env_of(ctx: &BuildContext) -> WalkEnv {
    WalkEnv {
        f: file_spec(ctx.scope.mod_id@, ctx.scope.path@, ctx.module_name@),
        file_kind: ctx.scope.file_kind,
        groups: ctx.scope.map_groups@,
        builtins: *ctx.scope.builtins,
        source: ctx.source@,
    }
}

pub open spec fn opt_text(o: Option<String>) -> Option<Seq<char>> {
    match o {
        Some(s) => Some(s@),
        None => None,
    }
}

/// Nothing of the index changes.
pub open spec fn index_same(a: SemanticIndex, b: SemanticIndex) -> bool {
    changes_only(a, b, false, false, false, false, false, false)
}

/// `b` is `a` with one scope more, opened below `parent` with the given
/// kind, type of `THIS`, aliases, line and key, in the file `f`; nothing
/// else changes.
pub open spec fn scope_opened(
    a: SemanticIndex,
    b: SemanticIndex,
    f: FileSpec,
    kind: ScopeKind,
    parent: usize,
    this_type: ScopeType,
    aliases: ScopeAliases,
    line: usize,
    key: Seq<char>,
) -> bool {
    let n = b.symbols.scopes@.last();
    &&& pushed(a.symbols.scopes@, b.symbols.scopes@)
    &&& n.id == a.symbols.scopes@.len()
    &&& n.kind == kind
    &&& n.parent == Some(parent)
    &&& n.this_type == this_type
    &&& n.aliases == aliases
    &&& n.mod_id@ == f.mod_id
    &&& n.path@ == f.path
    &&& n.line == line
    &&& n.column == 1
    &&& n.key@ == key
    &&& b.symbols.definitions@ == a.symbols.definitions@
    &&& b.symbols.references@ == a.symbols.references@
    &&& b.symbols.key_usages@ == a.symbols.key_usages@
    &&& b.scalar_assignments@ == a.scalar_assignments@
    &&& b.alias_usages@ == a.alias_usages@
    &&& b.ui_definitions@ == a.ui_definitions@
    &&& b.resource_references@ == a.resource_references@
    &&& b.documents@ == a.documents@
    &&& b.parse_issues@ == a.parse_issues@
}

/// `b` is `a` with the definition `d` added, and nothing else changed.
pub open spec fn definition_pushed(a: SemanticIndex, b: SemanticIndex) -> bool {
    changes_only(a, b, true, false, false, false, false, false) && pushed(
        a.symbols.definitions@,
        b.symbols.definitions@,
    )
}

/// The event `name` that the block `key = { .. }` at `span` defines, whose
/// body opens the scope `es` with `THIS` of type `t`.
pub open spec fn event_definition_is(d: SymbolDefinition, f: FileSpec, key: Seq<char>, span: SpanRange, name: Seq<char>, es: usize, t: ScopeType) -> bool {
    &&& d.kind == SymbolKind::Event
    &&& d.name@ == name
    &&& d.module@ == f.module
    &&& d.local_name@ == key
    &&& d.mod_id@ == f.mod_id
    &&& d.path@ == f.path
    &&& d.line == span.start.line
    &&& d.column == span.start.column
    &&& d.scope_id == es
    &&& d.declared_this_type == t
    &&& d.inferred_this_type == t
    &&& d.inferred_this_mask == crate::scope_inference::mask_of(t)
    &&& d.inferred_from_mask == 0
    &&& d.required_params@.len() == 0
    &&& d.optional_params@.len() == 0
    &&& d.param_contract is None
    &&& d.scope_param_names@.len() == 0
}

/// The symbol of kind `kind` that the block `key = { items }` at `span`
/// defines, whose body opens the scope `child`: a symbol of the module of
/// `env`, with the parameters its body requires and marks optional, the
/// contract registered for its name and the names of its `$name$` blocks.
pub open spec fn symbol_definition_is(
    d: SymbolDefinition,
    env: WalkEnv,
    scopes: Seq<ScopeNode>,
    kind: SymbolKind,
    key: Seq<char>,
    key_span: SpanRange,
    child: usize,
    span: SpanRange,
    items: Seq<AstStatement>,
) -> bool {
    &&& definition_in_file(d, env.f, scopes, child as int)
    &&& d.kind == kind
    &&& d.local_name@ == key
    &&& d.line == key_span.start.line
    &&& d.column == key_span.start.column
    &&& d.scope_id == child
    &&& forall|k: Seq<char>|
        #[trigger] string_views(d.required_params@).contains(k) <==> (crate::param_scan::params_in_items(items).contains(k)
            && !string_views(d.optional_params@).contains(k))
    &&& strictly_sorted(string_views(d.required_params@))
    &&& string_views(d.optional_params@).to_set() == crate::param_scan::optional_params_in(
        env.source,
        span.start.offset as int,
        span.end.offset as int,
    )
    &&& string_views(d.scope_param_names@).to_set() == crate::semantic_index::scope_param_names_in(items)
}

/// What the `id` of an event block records: nothing without one, else the
/// event under its full id.
pub open spec fn event_recorded(
    a: SemanticIndex,
    b: SemanticIndex,
    f: FileSpec,
    key: Seq<char>,
    span: SpanRange,
    items: Seq<AstStatement>,
    ns: Option<Seq<char>>,
    es: usize,
    t: ScopeType,
) -> bool {
    match crate::semantic_index::first_assignment_text(items, "id"@) {
        None => index_same(a, b),
        Some(id) => definition_pushed(a, b) && event_definition_is(
            b.symbols.definitions@.last(),
            f,
            key,
            span,
            full_event_id(id, ns),
            es,
            t,
        ),
    }
}

/// The aliases of an event scope opened below a scope with `THIS` of type
/// `parent_this`: `THIS` and `ROOT` of the event's type, `FROM` of the type
/// of its sender, `PREV` of the parent's type.
pub open spec fn event_aliases(key: Seq<char>, t: ScopeType, parent_this: ScopeType) -> ScopeAliases {
    ScopeAliases {
        this: Some(t),
        root: Some(t),
        from: Some(
            match crate::scope_tree::event_from(key) {
                Some(x) => x,
                None => ScopeType::Unknown,
            },
        ),
        prev: Some(parent_this),
    }
}

/// The items of a block that counts as a mission slot.
pub open spec fn mission_slot(kind: ScriptFileKind, items: Seq<AstStatement>) -> bool {
    kind == ScriptFileKind::Missions && exists|i: int|
        0 <= i < items.len() && (#[trigger] items[i] matches AstStatement::Assignment { key, .. }
            && crate::semantic_index::is_mission_structure_key(key@))
}

/// `r` is the first scripted effect of the file of `env` defined under
/// `name` in `defs`, where there is one.
pub open spec fn first_effect_definition(defs: Seq<SymbolDefinition>, env: WalkEnv, name: Seq<char>, r: Option<usize>) -> bool {
    match r {
        Some(i) => i < defs.len() && effect_definition_matches(defs[i as int], env.f.mod_id, env.f.path, name)
            && forall|j: int| 0 <= j < i ==> !effect_definition_matches(#[trigger] defs[j], env.f.mod_id, env.f.path, name),
        None => forall|j: int| 0 <= j < defs.len() ==> !effect_definition_matches(#[trigger] defs[j], env.f.mod_id, env.f.path, name),
    }
}

/// The scripted effect whose body the items of `key = { .. }` belong to:
/// none inside an event; the effect defined under `key` where the block
/// stands at the top of a scripted effects file; else the one around it.
pub open spec fn next_active(
    defs: Seq<SymbolDefinition>,
    scopes: Seq<ScopeNode>,
    env: WalkEnv,
    scope_id: usize,
    key: Seq<char>,
    active: Option<usize>,
    next: Option<usize>,
) -> bool {
    if crate::scope_tree::event_scope(key) is Some {
        next is None
    } else if env.file_kind == ScriptFileKind::ScriptedEffects && kind_at(scopes, scope_id as int) == ScopeKind::File {
        first_effect_definition(defs, env, key, next)
    } else {
        next == active
    }
}

/// What the call of a scripted effect by `key = { items }` records, where
/// `calls` says the block is one: the call, with the parameters and the
/// bindings the block provides, sorted.
pub open spec fn effect_call_recorded(
    a: SemanticIndex,
    b: SemanticIndex,
    f: FileSpec,
    calls: bool,
    key: Seq<char>,
    key_span: SpanRange,
    scope_id: usize,
    items: Seq<AstStatement>,
) -> bool {
    if calls {
        let r = b.symbols.references@.last();
        &&& changes_only(a, b, false, true, false, false, false, false)
        &&& pushed(a.symbols.references@, b.symbols.references@)
        &&& r.kind == SymbolKind::ScriptedEffect
        &&& r.name@ == key
        &&& r.module@ == f.module
        &&& r.mod_id@ == f.mod_id
        &&& r.path@ == f.path
        &&& r.line == key_span.start.line
        &&& r.column == key_span.start.column
        &&& r.scope_id == scope_id
        &&& strictly_sorted(string_views(r.provided_params@))
        &&& string_views(r.provided_params@).to_set() == crate::param_scan::provided_names(key, items, items.len() as int)
        &&& crate::param_scan::bindings_sorted(crate::param_scan::binding_pairs(r.param_bindings@))
        &&& crate::param_scan::binding_pairs(r.param_bindings@).to_set() == crate::param_scan::provided_bindings(
            items,
            items.len() as int,
        )
    } else {
        index_same(a, b)
    }
}

/// The namespace after a statement: an assignment `namespace = text` that
/// does not open an event sets it.
pub open spec fn namespace_step(stmt: AstStatement, ns: Option<Seq<char>>, file_scope: bool) -> Option<Seq<char>> {
    match stmt {
        AstStatement::Assignment { key, value, .. } => if file_scope && crate::scope_tree::event_scope(key@) is Some
            && value is Block {
            ns
        } else if key@ == "namespace"@ {
            match crate::semantic_index::value_text(value) {
                Some(t) => Some(t),
                None => ns,
            }
        } else {
            ns
        },
        _ => ns,
    }
}

/// The namespace after the statements `stmts`.
pub open spec fn namespace_after(stmts: Seq<AstStatement>, ns: Option<Seq<char>>, file_scope: bool) -> Option<Seq<char>>
    decreases stmts.len(),
{
    if stmts.len() == 0 {
        ns
    } else {
        namespace_step(stmts.last(), namespace_after(stmts.drop_last(), ns, file_scope), file_scope)
    }
}

/// Names an index that a walk passes through between two of its steps;
/// every index is one. It is what the relations below quantify the
/// intermediate index by.
pub open spec fn between_steps(m: SemanticIndex) -> bool {
    true
}

/// The walk of the statements `stmts` of the scope `scope_id`, with the
/// active scripted effect `active` and the namespace `ns`, takes the index
/// from `a` to `b`: statement by statement, each from where the ones before
/// it left the index.
pub open spec fn walked(
    a: SemanticIndex,
    b: SemanticIndex,
    env: WalkEnv,
    stmts: Seq<AstStatement>,
    scope_id: usize,
    active: Option<usize>,
    ns: Option<Seq<char>>,
) -> bool
    decreases stmts, 2int,
{
    if stmts.len() == 0 {
        index_same(a, b)
    } else {
        let init = stmts.subrange(0, stmts.len() - 1);
        exists|m: SemanticIndex|
            #[trigger] between_steps(m) && walked(a, m, env, init, scope_id, active, ns) && statement_walked(
                m,
                b,
                env,
                stmts[stmts.len() - 1],
                scope_id,
                active,
                namespace_after(init, ns, kind_at(a.symbols.scopes@, scope_id as int) == ScopeKind::File),
            )
    }
}

/// The walk of one statement of the scope `scope_id` takes the index from
/// `a` to `b`: an event block at the top of a file opens its event; another
/// assignment records what it writes and walks the block it may open
/// (with the namespace it may set); a bare block records the aliases and
/// placeholders of its value and is walked in a scope of its own; a
/// comment changes nothing.
pub open spec fn statement_walked(
    a: SemanticIndex,
    b: SemanticIndex,
    env: WalkEnv,
    stmt: AstStatement,
    scope_id: usize,
    active: Option<usize>,
    ns: Option<Seq<char>>,
) -> bool
    decreases stmt, 1int,
{
    match stmt {
        AstStatement::Assignment { key, key_span, value, .. } => if kind_at(a.symbols.scopes@, scope_id as int)
            == ScopeKind::File && crate::scope_tree::event_scope(key@) is Some && value is Block {
            event_block_walked(a, b, env, scope_id, key@, value, ns)
        } else {
            exists|m: SemanticIndex|
                #[trigger] assignment_recorded(a, m, env, scope_id, key@, key_span, value, active)
                    && named_block_walked(
                    m,
                    b,
                    env,
                    scope_id,
                    key@,
                    key_span,
                    value,
                    active,
                    namespace_step(stmt, ns, kind_at(a.symbols.scopes@, scope_id as int) == ScopeKind::File),
                )
        },
        AstStatement::Item { value, .. } => exists|m1: SemanticIndex|
            #[trigger] item_recorded(a, m1, env, scope_id, value, active) && match value {
                AstValue::Block { items, span } => exists|m2: SemanticIndex|
                    #[trigger] scope_opened(
                        m1,
                        m2,
                        env.f,
                        ScopeKind::Block,
                        scope_id,
                        this_type_at(m1.symbols.scopes@, scope_id as int),
                        aliases_at(m1.symbols.scopes@, scope_id as int),
                        span.start.line,
                        ""@,
                    ) && walked(m2, b, env, items@, m1.symbols.scopes@.len() as usize, active, ns),
                AstValue::Scalar { .. } => index_same(m1, b),
            },
        AstStatement::Comment { .. } => index_same(a, b),
    }
}

/// What a bare value records in the scope `scope_id`: the aliases written
/// in its text, then the placeholders the active scripted effect gains.
pub open spec fn item_recorded(a: SemanticIndex, b: SemanticIndex, env: WalkEnv, scope_id: usize, value: AstValue, active: Option<usize>) -> bool {
    &&& changes_only(a, b, true, false, false, false, true, false)
    &&& aliases_appended(
        a.alias_usages@,
        b.alias_usages@,
        value_alias_tokens(value),
        env.f,
        value_start(value).line,
        value_start(value).column,
        scope_id,
    )
    &&& placeholders_added(a.symbols.definitions@, b.symbols.definitions@, active, value)
}

/// The walk of an event block `key = value` at the top of a file: its
/// scope opens below `scope_id`, with `THIS` of the event's type; the event
/// is recorded under its full id where it has an `id`; its statements are
/// walked with no active scripted effect.
pub open spec fn event_block_walked(
    a: SemanticIndex,
    b: SemanticIndex,
    env: WalkEnv,
    scope_id: usize,
    key: Seq<char>,
    value: AstValue,
    ns: Option<Seq<char>>,
) -> bool
    decreases value, 0int,
{
    match value {
        AstValue::Block { items, span } => match crate::scope_tree::event_scope(key) {
            Some(t) => {
                let es = a.symbols.scopes@.len() as usize;
                exists|m1: SemanticIndex|
                    #[trigger] scope_opened(
                        a,
                        m1,
                        env.f,
                        ScopeKind::Event,
                        scope_id,
                        t,
                        event_aliases(key, t, this_type_at(a.symbols.scopes@, scope_id as int)),
                        span.start.line,
                        key,
                    ) && exists|m2: SemanticIndex|
                        #[trigger] event_recorded(m1, m2, env.f, key, span, items@, ns, es, t) && walked(
                            m2,
                            b,
                            env,
                            items@,
                            es,
                            None,
                            ns,
                        )
            },
            None => index_same(a, b),
        },
        AstValue::Scalar { .. } => index_same(a, b),
    }
}

/// The kind of the scope that the block `key = { items }` opens below
/// `scope_id`.
pub open spec fn block_scope_kind(s: Seq<ScopeNode>, env: WalkEnv, scope_id: usize, key: Seq<char>, items: Seq<AstStatement>) -> ScopeKind {
    opened_kind(s, scope_id as int, env.file_kind, env.groups, env.builtins, key, items.len() > 0)
}

/// Whether the block `key = { items }` below `scope_id` calls a scripted
/// effect: it defines no symbol (`dk`), is no mission slot, and `key` may
/// name a scripted effect there.
pub open spec fn calls_effect(s: Seq<ScopeNode>, env: WalkEnv, scope_id: usize, dk: Option<SymbolKind>, key: Seq<char>, items: Seq<AstStatement>) -> bool {
    dk is None && !mission_slot(env.file_kind, items) && crate::call_candidates::may_call_scripted_effect(
        s,
        scope_id as int,
        env.file_kind,
        env.groups,
        env.builtins,
        key,
    )
}

/// The walk of the block that an assignment `key = value` may open below
/// `scope_id`: the UI element it may declare; its scope; the symbol it
/// defines or the scripted effect it calls; then its statements, with the
/// scripted effect whose body they belong to.
pub open spec fn named_block_walked(
    a: SemanticIndex,
    b: SemanticIndex,
    env: WalkEnv,
    scope_id: usize,
    key: Seq<char>,
    key_span: SpanRange,
    value: AstValue,
    active: Option<usize>,
    ns: Option<Seq<char>>,
) -> bool
    decreases value, 0int,
{
    match value {
        AstValue::Block { items, span } => exists|m1: SemanticIndex|
            #[trigger] ui_block_recorded(a, m1, env, key, key_span, items@) && {
                let s1 = m1.symbols.scopes@;
                let opened = opened_scope(s1, scope_id as int, env.file_kind, env.groups, env.builtins, key);
                let child = s1.len() as usize;
                let dk = crate::call_candidates::defined_symbol(s1, scope_id as int, env.file_kind, env.builtins, key);
                let kind = block_scope_kind(s1, env, scope_id, key, items@);
                exists|m2: SemanticIndex|
                    #[trigger] scope_opened(
                        m1,
                        m2,
                        env.f,
                        kind,
                        scope_id,
                        opened.1,
                        opened.2,
                        span.start.line,
                        key,
                    ) && exists|m3: SemanticIndex|
                        #[trigger] definition_recorded(m2, m3, env, dk, key, key_span, child, span, items@) && {
                            let calls = calls_effect(m3.symbols.scopes@, env, scope_id, dk, key, items@);
                            exists|m4: SemanticIndex|
                                #[trigger] effect_call_recorded(m3, m4, env.f, calls, key, key_span, scope_id, items@)
                                    && exists|next: Option<usize>|
                                    #[trigger] next_active(
                                        m4.symbols.definitions@,
                                        m4.symbols.scopes@,
                                        env,
                                        scope_id,
                                        key,
                                        active,
                                        next,
                                    ) && walked(m4, b, env, items@, child, next, ns)
                        }
            },
        AstValue::Scalar { .. } => index_same(a, b),
    }
}

/// What the block `key = { items }` declares in an interface file.
pub open spec fn ui_block_recorded(a: SemanticIndex, b: SemanticIndex, env: WalkEnv, key: Seq<char>, key_span: SpanRange, items: Seq<AstStatement>) -> bool {
    &&& changes_only(a, b, false, false, false, false, false, true)
    &&& b.resource_references@ == a.resource_references@
    &&& match ui_block_name(env.file_kind, key, items) {
        Some(n) => pushed(a.ui_definitions@, b.ui_definitions@) && ui_definition_is(
            b.ui_definitions@.last(),
            env.f,
            n,
            key_span.start.line,
            key_span.start.column,
        ),
        None => b.ui_definitions@ == a.ui_definitions@,
    }
}

/// What the block `key = { items }` records of the symbol `dk` it defines,
/// if any.
pub open spec fn definition_recorded(
    a: SemanticIndex,
    b: SemanticIndex,
    env: WalkEnv,
    dk: Option<SymbolKind>,
    key: Seq<char>,
    key_span: SpanRange,
    child: usize,
    span: SpanRange,
    items: Seq<AstStatement>,
) -> bool {
    match dk {
        Some(k) => definition_pushed(a, b) && symbol_definition_is(
            b.symbols.definitions@.last(),
            env,
            b.symbols.scopes@,
            k,
            key,
            key_span,
            child,
            span,
            items,
        ),
        None => index_same(a, b),
    }
}

/// What an assignment `key = value` records in the scope `scope_id`, apart
/// from the block it may open.
pub open spec fn assignment_recorded(
    a: SemanticIndex,
    b: SemanticIndex,
    env: WalkEnv,
    scope_id: usize,
    key: Seq<char>,
    key_span: SpanRange,
    value: AstValue,
    active: Option<usize>,
) -> bool {
    let f = env.f;
    &&& b.symbols.scopes@ == a.symbols.scopes@
    &&& b.documents@ == a.documents@
    &&& b.parse_issues@ == a.parse_issues@
    &&& pushed(a.symbols.key_usages@, b.symbols.key_usages@)
    &&& key_usage_is(
        b.symbols.key_usages@.last(),
        f,
        key,
        key_span.start.line,
        key_span.start.column,
        scope_id,
        a.symbols.scopes@[scope_id as int].this_type,
    )
    &&& match crate::semantic_index::value_text(value) {
        Some(t) => pushed(a.scalar_assignments@, b.scalar_assignments@) && assignment_is(
            b.scalar_assignments@.last(),
            f,
            key,
            t,
            key_span.start.line,
            key_span.start.column,
            scope_id,
        ),
        None => b.scalar_assignments@ == a.scalar_assignments@,
    }
    &&& match ui_scalar_name(env.file_kind, key, value) {
        Some(n) => pushed(a.ui_definitions@, b.ui_definitions@) && ui_definition_is(
            b.ui_definitions@.last(),
            f,
            n,
            key_span.start.line,
            key_span.start.column,
        ),
        None => b.ui_definitions@ == a.ui_definitions@,
    }
    &&& match ui_scalar_resource(env.file_kind, key, value) {
        Some(t) => pushed(a.resource_references@, b.resource_references@) && resource_is(
            b.resource_references@.last(),
            f,
            key,
            t,
            key_span.start.line,
            key_span.start.column,
        ),
        None => b.resource_references@ == a.resource_references@,
    }
    &&& {
        let n = (a.alias_usages@.len() + key_alias(key).len()) as int;
        &&& n <= b.alias_usages@.len()
        &&& aliases_appended(
            a.alias_usages@,
            b.alias_usages@.subrange(0, n),
            key_alias(key),
            f,
            key_span.start.line,
            key_span.start.column,
            scope_id,
        )
        &&& aliases_appended(
            b.alias_usages@.subrange(0, n),
            b.alias_usages@,
            value_alias_tokens(value),
            f,
            value_start(value).line,
            value_start(value).column,
            scope_id,
        )
    }
    &&& placeholders_added(a.symbols.definitions@, b.symbols.definitions@, active, value)
    &&& calls_appended(
        a.symbols.references@,
        b.symbols.references@,
        assignment_calls(a.symbols.scopes@, scope_id as int, env.file_kind, env.groups, env.builtins, key, value),
        f,
        key_span.start.line,
        key_span.start.column,
        scope_id,
    )
}

/// Records what an assignment `key = value` writes in the scope `scope_id`,
/// apart from the block it may open: the key, a scalar value, UI elements,
/// an alias key and the aliases in its text, the placeholders that the
/// active scripted effect requires, and the events and scripted triggers it
/// calls.
fn record_assignment(
    index: &mut SemanticIndex,
    scope_id: usize,
    ctx: &BuildContext,
    key: &String,
    key_span: &SpanRange,
    value: &AstValue,
    active: Option<usize>,
)
    requires
        index_wf(*old(index)),
        scope_id < old(index).symbols.scopes@.len(),
        active matches Some(d) ==> d < old(index).symbols.definitions@.len(),
    ensures
        walk_step(*old(index), *final(index), file_spec(ctx.scope.mod_id@, ctx.scope.path@, ctx.module_name@)),
        assignment_recorded(*old(index), *final(index), env_of(ctx), scope_id, key@, *key_span, *value, active),
{
    let ghost f = file_spec(ctx.scope.mod_id@, ctx.scope.path@, ctx.module_name@);
    let ghost s0 = *index;
    record_key_usage(index, scope_id, ctx, key.as_str(), key_span);
    let ghost s1 = *index;
    record_scalar_assignment(index, scope_id, ctx, key.as_str(), key_span, value);
    proof {
        lemma_walk_extends_trans(s0, s1, *index, f);
    }
    let ghost s2 = *index;
    record_ui_scalar_semantics(index, ctx, key.as_str(), key_span, value);
    proof {
        lemma_walk_extends_trans(s0, s2, *index, f);
    }
    let ghost s3 = *index;
    if is_alias_key(key.as_str()) {
        push_alias_usage(index, scope_id, ctx, key.clone(), key_span.start.line, key_span.start.column);
        proof {
            lemma_walk_extends_trans(s0, s3, *index, f);
        }
    }
    let ghost s4 = *index;
    proof {
        let n = (s3.alias_usages@.len() + key_alias(key@).len()) as int;
        assert(s4.alias_usages@.subrange(0, n) =~= s4.alias_usages@);
        assert(s4.alias_usages@.subrange(0, s3.alias_usages@.len() as int) =~= s3.alias_usages@);
        if crate::semantic_index::is_alias(key@) {
            assert(s4.alias_usages@[s3.alias_usages@.len() as int] == s4.alias_usages@.last());
        }
    }
    record_alias_tokens_from_value(index, scope_id, ctx, value);
    proof {
        lemma_walk_extends_trans(s0, s4, *index, f);
    }
    let ghost s5 = *index;
    record_param_tokens_for(index, ctx, active, value);
    proof {
        lemma_walk_extends_trans(s0, s5, *index, f);
    }
    let ghost s6 = *index;
    if is_event_call(key.as_str(), value) {
        match extract_event_call_id(value) {
            Some(event_id) => {
                push_reference(index, ctx, SymbolKind::Event, event_id, key_span, scope_id, Vec::new(), Vec::new());
                proof {
                    lemma_walk_extends_trans(s0, s6, *index, f);
                }
            },
            None => {},
        }
    }
    let ghost s7 = *index;
    if is_scripted_trigger_call_candidate(&index.symbols.scopes, &ctx.scope, key.as_str(), scope_id) {
        push_reference(index, ctx, SymbolKind::ScriptedTrigger, key.clone(), key_span, scope_id, Vec::new(), Vec::new());
        proof {
            lemma_walk_extends_trans(s0, s7, *index, f);
        }
    }
    proof {
        let calls = assignment_calls(
            s0.symbols.scopes@,
            scope_id as int,
            ctx.scope.file_kind,
            ctx.scope.map_groups@,
            *ctx.scope.builtins,
            key@,
            *value,
        );
        let r0 = s0.symbols.references@;
        let rf = index.symbols.references@;
        assert(string_views(Seq::<String>::empty()) =~= Seq::<Seq<char>>::empty());
        assert(crate::param_scan::binding_pairs(Seq::<crate::scope_inference::ParamBinding>::empty()) =~= Seq::empty());
        assert(s7.symbols.references@.subrange(0, r0.len() as int) =~= r0);
        assert(rf.subrange(0, s7.symbols.references@.len() as int) =~= s7.symbols.references@);
        assert(rf.subrange(0, r0.len() as int) =~= r0);
        assert forall|i: int| 0 <= i < calls.len() implies reference_is(
            #[trigger] rf[r0.len() + i],
            f,
            calls[i].0,
            calls[i].1,
            key_span.start.line,
            key_span.start.column,
            scope_id,
            Seq::empty(),
            Seq::empty(),
        ) by {
            if r0.len() + i < s7.symbols.references@.len() {
                assert(rf[r0.len() + i] == s7.symbols.references@[r0.len() + i]);
                assert(s7.symbols.references@[r0.len() + i] == s7.symbols.references@.last());
            } else {
                assert(rf[r0.len() + i] == rf.last());
            }
        }
    }
}

/// Opens the scope of the block `key = { items }` below `scope_id`, records
/// the symbol it defines or the scripted effect it calls, and walks it.
fn walk_named_block(
    index: &mut SemanticIndex,
    scope_id: usize,
    ctx: &BuildContext,
    key: &String,
    key_span: &SpanRange,
    value: &AstValue,
    active: Option<usize>,
    namespace: &Option<String>,
)
    requires
        index_wf(*old(index)),
        scope_id < old(index).symbols.scopes@.len(),
        active matches Some(d) ==> d < old(index).symbols.definitions@.len(),
    ensures
        walk_step(*old(index), *final(index), file_spec(ctx.scope.mod_id@, ctx.scope.path@, ctx.module_name@)),
        named_block_walked(*old(index), *final(index), env_of(ctx), scope_id, key@, *key_span, *value, active, opt_text(*namespace)),
    decreases value,
{
    let ghost f = file_spec(ctx.scope.mod_id@, ctx.scope.path@, ctx.module_name@);
    let ghost env = env_of(ctx);
    let ghost ns = opt_text(*namespace);
    proof {
        lemma_walk_extends_refl(*old(index), f);
    }
    let (items, span) = match value {
        AstValue::Block { items, span } => (items, span),
        AstValue::Scalar { .. } => {
            return;
        },
    };
    record_ui_block_semantics(index, ctx, key.as_str(), key_span, items);
    let ghost m1 = *index;
    let definition_kind = symbol_definition_kind(
        &index.symbols.scopes,
        ctx.scope.builtins,
        ctx.scope.file_kind,
        key.as_str(),
        scope_id,
    );
    let child = index.symbols.scopes.create_child_scope(
        scope_id,
        &ctx.scope,
        key.as_str(),
        span.start.line,
        items.len() > 0,
    );
    let ghost m2 = *index;
    proof {
        lemma_scope_pushed(m1, *index, f);
        lemma_walk_extends_trans(*old(index), m1, *index, f);
        assert(m2.symbols.scopes@.drop_last() =~= m1.symbols.scopes@);
        assert(m2.symbols.scopes@.last() == m2.symbols.scopes@[child as int]);
        let s1 = m1.symbols.scopes@;
        let opened = opened_scope(s1, scope_id as int, env.file_kind, env.groups, env.builtins, key@);
        assert(scope_opened(
            m1,
            m2,
            env.f,
            opened_kind(s1, scope_id as int, env.file_kind, env.groups, env.builtins, key@, items@.len() > 0),
            scope_id,
            opened.1,
            opened.2,
            span.start.line,
            key@,
        ));
    }
    match definition_kind {
        Some(def_kind) => {
            push_definition(index, ctx, key.as_str(), key_span, def_kind, child, span, items, Ghost(*old(index)));
        },
        None => {},
    }
    let ghost m3 = *index;
    proof {
        assert(definition_recorded(m2, m3, env, definition_kind, key@, *key_span, child, *span, items@));
    }
    let calls = definition_kind.is_none() && !is_mission_slot_definition(ctx.scope.file_kind, items)
        && is_scripted_effect_call_candidate(&index.symbols.scopes, &ctx.scope, key.as_str(), scope_id);
    if calls {
        let provided = collect_provided_params(key.as_str(), items);
        let ghost b = *index;
        push_reference(
            index,
            ctx,
            SymbolKind::ScriptedEffect,
            key.clone(),
            key_span,
            scope_id,
            provided.names,
            provided.bindings,
        );
        proof {
            lemma_walk_extends_trans(*old(index), b, *index, f);
        }
    }
    let ghost m4 = *index;
    proof {
        assert(effect_call_recorded(m3, m4, env.f, calls, key@, *key_span, scope_id, items@));
    }
    let next = if event_scope_type(key.as_str()).is_some() {
        None
    } else if ctx.scope.file_kind == ScriptFileKind::ScriptedEffects && index.symbols.scopes.scope_kind(scope_id)
        == ScopeKind::File {
        find_scripted_effect_definition(&index.symbols.definitions, ctx.scope.mod_id, ctx.scope.path, key.as_str())
    } else {
        active
    };
    proof {
        assert(next_active(m4.symbols.definitions@, m4.symbols.scopes@, env, scope_id, key@, active, next));
    }
    assert(decreases_to!(value => items));
    walk_statements(items, index, child, ctx, next, namespace);
    proof {
        lemma_walk_extends_trans(*old(index), m4, *index, f);
        assert(walked(m4, *index, env, items@, child, next, ns));
        let s1 = m1.symbols.scopes@;
        let opened = opened_scope(s1, scope_id as int, env.file_kind, env.groups, env.builtins, key@);
        let dk = crate::call_candidates::defined_symbol(s1, scope_id as int, env.file_kind, env.builtins, key@);
        let kind = block_scope_kind(s1, env, scope_id, key@, items@);
        assert(dk == definition_kind);
        assert(child == s1.len() as usize);
        let calls_s = calls_effect(m3.symbols.scopes@, env, scope_id, dk, key@, items@);
        assert(calls_s == calls);
        assert(exists|nx: Option<usize>|
            #[trigger] next_active(m4.symbols.definitions@, m4.symbols.scopes@, env, scope_id, key@, active, nx)
                && walked(m4, *index, env, items@, child, nx, ns));
        assert(exists|mm4: SemanticIndex|
            #[trigger] effect_call_recorded(m3, mm4, env.f, calls_s, key@, *key_span, scope_id, items@)
                && exists|nx: Option<usize>|
                #[trigger] next_active(mm4.symbols.definitions@, mm4.symbols.scopes@, env, scope_id, key@, active, nx)
                    && walked(mm4, *index, env, items@, child, nx, ns));
        assert(scope_opened(m1, m2, env.f, kind, scope_id, opened.1, opened.2, span.start.line, key@));
        assert(definition_recorded(m2, m3, env, dk, key@, *key_span, child, *span, items@));
        assert(ui_block_recorded(*old(index), m1, env, key@, *key_span, items@));
        assert(*value == AstValue::Block { items: *items, span: *span });
    }
}

/// Walks one statement of the block that opened `scope_id`; a
/// `namespace = ...` assignment sets the event namespace for the statements
/// that follow.
fn walk_statement(
    stmt: &AstStatement,
    index: &mut SemanticIndex,
    scope_id: usize,
    ctx: &BuildContext,
    active: Option<usize>,
    namespace: &mut Option<String>,
)
    requires
        index_wf(*old(index)),
        scope_id < old(index).symbols.scopes@.len(),
        active matches Some(d) ==> d < old(index).symbols.definitions@.len(),
    ensures
        walk_step(*old(index), *final(index), file_spec(ctx.scope.mod_id@, ctx.scope.path@, ctx.module_name@)),
        statement_walked(*old(index), *final(index), env_of(ctx), *stmt, scope_id, active, opt_text(*old(namespace))),
        opt_text(*final(namespace)) == namespace_step(
            *stmt,
            opt_text(*old(namespace)),
            kind_at(old(index).symbols.scopes@, scope_id as int) == ScopeKind::File,
        ),
    decreases stmt,
{
    let ghost f = file_spec(ctx.scope.mod_id@, ctx.scope.path@, ctx.module_name@);
    let ghost env = env_of(ctx);
    let ghost ns0 = opt_text(*namespace);
    proof {
        lemma_walk_extends_refl(*old(index), f);
    }
    match stmt {
        AstStatement::Assignment { key, key_span, value, .. } => {
            assert(decreases_to!(stmt => value));
            if is_top_level_event_definition(&index.symbols.scopes, scope_id, key.as_str(), value) {
                handle_event_block(index, scope_id, ctx, key.as_str(), value, namespace);
            } else {
                record_assignment(index, scope_id, ctx, key, key_span, value, active);
                let ghost m = *index;
                if str_eq(key.as_str(), "namespace") {
                    match scalar_text_of(value) {
                        Some(t) => {
                            *namespace = Some(t);
                        },
                        None => {},
                    }
                }
                proof {
                    reveal_strlit("namespace");
                    assert(opt_text(*namespace) == namespace_step(
                        *stmt,
                        ns0,
                        kind_at(old(index).symbols.scopes@, scope_id as int) == ScopeKind::File,
                    ));
                }
                walk_named_block(index, scope_id, ctx, key, key_span, value, active, namespace);
                proof {
                    lemma_walk_extends_trans(*old(index), m, *index, f);
                    assert(assignment_recorded(*old(index), m, env, scope_id, key@, *key_span, *value, active));
                }
            }
        },
        AstStatement::Item { value, .. } => {
            assert(decreases_to!(stmt => value));
            record_alias_tokens_from_value(index, scope_id, ctx, value);
            let ghost m0 = *index;
            record_param_tokens_for(index, ctx, active, value);
            let ghost m1 = *index;
            proof {
                lemma_walk_extends_trans(*old(index), m0, *index, f);
                assert(item_recorded(*old(index), m1, env, scope_id, *value, active));
            }
            if let AstValue::Block { items, span } = value {
                let this_type = index.symbols.scopes.scope_this_type(scope_id);
                let aliases = index.symbols.scopes.scope_aliases(scope_id);
                let ghost b = *index;
                let child = index.symbols.scopes.push_scope(
                    ScopeKind::Block,
                    Some(scope_id),
                    this_type,
                    aliases,
                    ctx.scope.mod_id,
                    ctx.scope.path,
                    span.start.line,
                    "",
                );
                let ghost m2 = *index;
                proof {
                    lemma_scope_pushed(b, *index, f);
                    lemma_walk_extends_trans(*old(index), b, *index, f);
                    reveal_strlit("");
                    assert(m2.symbols.scopes@.drop_last() =~= m1.symbols.scopes@);
                    assert(m2.symbols.scopes@.last() == m2.symbols.scopes@[child as int]);
                    assert(scope_opened(
                        m1,
                        m2,
                        env.f,
                        ScopeKind::Block,
                        scope_id,
                        this_type_at(m1.symbols.scopes@, scope_id as int),
                        aliases_at(m1.symbols.scopes@, scope_id as int),
                        span.start.line,
                        ""@,
                    ));
                }
                assert(decreases_to!(value => items));
                walk_statements(items, index, child, ctx, active, namespace);
                proof {
                    lemma_walk_extends_trans(*old(index), m2, *index, f);
                    assert(walked(m2, *index, env, items@, m1.symbols.scopes@.len() as usize, active, ns0));
                }
            }
        },
        AstStatement::Comment { .. } => {},
    }
}

/// Walks the statements of a block that opened the scope `scope_id`: records
/// the keys, scalar assignments, aliases and UI elements written, the events
/// and scripted triggers and effects called, and the symbols defined;
/// opens a scope for each block and walks it in turn. `active` is the
/// scripted effect whose body is walked, whose required parameters gain
/// the placeholders met; `namespace` is the event namespace declared so far.
pub fn walk_statements(
    statements: &Vec<AstStatement>,
    index: &mut SemanticIndex,
    scope_id: usize,
    ctx: &BuildContext,
    active: Option<usize>,
    namespace: &Option<String>,
)
    requires
        index_wf(*old(index)),
        scope_id < old(index).symbols.scopes@.len(),
        active matches Some(d) ==> d < old(index).symbols.definitions@.len(),
    ensures
        walk_step(*old(index), *final(index), file_spec(ctx.scope.mod_id@, ctx.scope.path@, ctx.module_name@)),
        walked(*old(index), *final(index), env_of(ctx), statements@, scope_id, active, opt_text(*namespace)),
    decreases statements,
{
    let ghost f = file_spec(ctx.scope.mod_id@, ctx.scope.path@, ctx.module_name@);
    let ghost env = env_of(ctx);
    let ghost ns0 = opt_text(*namespace);
    let ghost file_scope = kind_at(old(index).symbols.scopes@, scope_id as int) == ScopeKind::File;
    proof {
        lemma_walk_extends_refl(*old(index), f);
        assert(statements@.subrange(0, 0) =~= Seq::<AstStatement>::empty());
    }
    let mut current = copy_namespace(namespace);
    let mut i: usize = 0;
    while i < statements.len()
        invariant
            i <= statements.len(),
            f == file_spec(ctx.scope.mod_id@, ctx.scope.path@, ctx.module_name@),
            env == env_of(ctx),
            file_scope == (kind_at(old(index).symbols.scopes@, scope_id as int) == ScopeKind::File),
            index_wf(*index),
            walk_extends(*old(index), *index, f),
            scope_id < old(index).symbols.scopes@.len(),
            scope_id < index.symbols.scopes@.len(),
            active matches Some(d) ==> d < index.symbols.definitions@.len(),
            walked(*old(index), *index, env, statements@.subrange(0, i as int), scope_id, active, ns0),
            opt_text(current) == namespace_after(statements@.subrange(0, i as int), ns0, file_scope),
        decreases statements.len() - i,
    {
        assert(decreases_to!(statements => statements@[i as int]));
        let ghost b = *index;
        let ghost nb = opt_text(current);
        walk_statement(&statements[i], index, scope_id, ctx, active, &mut current);
        proof {
            lemma_walk_extends_trans(*old(index), b, *index, f);
            assert(b.symbols.scopes@[scope_id as int] == old(index).symbols.scopes@[scope_id as int]);
            let pre = statements@.subrange(0, i as int);
            let post = statements@.subrange(0, i + 1);
            assert(post.subrange(0, post.len() - 1) =~= pre);
            assert(post.drop_last() =~= pre);
            assert(post[post.len() - 1] == statements@[i as int]);
            assert(walked(*old(index), b, env, post.subrange(0, post.len() - 1), scope_id, active, ns0));
            assert(statement_walked(b, *index, env, post[post.len() - 1], scope_id, active, namespace_after(post.subrange(0, post.len() - 1), ns0, file_scope)));
            assert(between_steps(b));
            assert(post.len() != 0);
            assert(walked(*old(index), *index, env, post, scope_id, active, ns0));
        }
        i = i + 1;
    }
    proof {
        assert(statements@.subrange(0, statements@.len() as int) =~= statements@);
    }
}


/// The line of the first statement of a file, or 1 for an empty file.
pub open spec fn first_line_of(stmts: Seq<AstStatement>) -> usize {
    if stmts.len() == 0 {
        1
    } else {
        match stmts[0] {
            AstStatement::Assignment { span, .. } => span.start.line,
            AstStatement::Item { span, .. } => span.start.line,
            AstStatement::Comment { span, .. } => span.start.line,
        }
    }
}

/// The scope policy a file is read under: that of its content family, or
/// an unknown root type without one.
pub open spec fn file_policy(file: ParsedScriptFile) -> ContentFamilyScopePolicy {
    match file.content_family {
        Some(d) => d.scope_policy,
        None => ContentFamilyScopePolicy { root_scope: ScopeType::Unknown, from_alias: None, dynamic_scope: false },
    }
}

/// `b` is `a` with the root scope of the file `f` added, of the policy's
/// root type and `FROM`, opened at `line`; nothing else changes.
pub open spec fn root_opened(a: SemanticIndex, b: SemanticIndex, f: FileSpec, policy: ContentFamilyScopePolicy, line: usize) -> bool {
    let n = b.symbols.scopes@.last();
    &&& pushed(a.symbols.scopes@, b.symbols.scopes@)
    &&& n.id == a.symbols.scopes@.len()
    &&& n.kind == ScopeKind::File
    &&& n.parent is None
    &&& n.this_type == policy.root_scope
    &&& n.aliases == (ScopeAliases {
        this: Some(policy.root_scope),
        root: Some(policy.root_scope),
        from: policy.from_alias,
        prev: None,
    })
    &&& n.mod_id@ == f.mod_id
    &&& n.path@ == f.path
    &&& n.line == line
    &&& n.key@ == Seq::<char>::empty()
    &&& changes_only_scopes(a, b)
}

/// Only the scope tree changes.
pub open spec fn changes_only_scopes(a: SemanticIndex, b: SemanticIndex) -> bool {
    &&& b.symbols.definitions@ == a.symbols.definitions@
    &&& b.symbols.references@ == a.symbols.references@
    &&& b.symbols.key_usages@ == a.symbols.key_usages@
    &&& b.scalar_assignments@ == a.scalar_assignments@
    &&& b.alias_usages@ == a.alias_usages@
    &&& b.ui_definitions@ == a.ui_definitions@
    &&& b.resource_references@ == a.resource_references@
    &&& b.documents@ == a.documents@
    &&& b.parse_issues@ == a.parse_issues@
}

/// The walk of a parsed file takes the index from `a` to `b`: its root
/// scope opens, then its statements are walked there, with no active
/// scripted effect and no namespace.
pub open spec fn file_walked(a: SemanticIndex, b: SemanticIndex, file: ParsedScriptFile, groups: Set<Seq<char>>, builtins: BuiltinLookup) -> bool {
    let env = WalkEnv {
        f: file_spec(file.mod_id@, file.relative_path@, file.module_name@),
        file_kind: file.file_kind,
        groups,
        builtins,
        source: file.source@,
    };
    exists|m: SemanticIndex|
        #[trigger] root_opened(a, m, env.f, file_policy(file), first_line_of(file.ast.statements@)) && walked(
            m,
            b,
            env,
            file.ast.statements@,
            a.symbols.scopes@.len() as usize,
            None,
            None,
        )
}

fn first_line(statements: &Vec<AstStatement>) -> (r: usize)
    ensures
        r == first_line_of(statements@),
{
    if statements.len() == 0 {
        return 1;
    }
    match &statements[0] {
        AstStatement::Assignment { span, .. } => span.start.line,
        AstStatement::Item { span, .. } => span.start.line,
        AstStatement::Comment { span, .. } => span.start.line,
    }
}

/// Opens the root scope of a parsed file, with the scope policy of its
/// content family (an unknown root type without one), and walks its
/// statements.
pub fn build_file_index(
    file: &ParsedScriptFile,
    map_groups: &MapGroupLookup,
    builtins: &BuiltinLookup,
    index: &mut SemanticIndex,
)
    requires
        index_wf(*old(index)),
    ensures
        walk_step(*old(index), *final(index), file_spec(file.mod_id@, file.relative_path@, file.module_name@)),
        final(index).symbols.scopes@.len() > old(index).symbols.scopes@.len(),
        final(index).symbols.scopes@[old(index).symbols.scopes@.len() as int].kind == ScopeKind::File,
        final(index).symbols.scopes@[old(index).symbols.scopes@.len() as int].this_type == match file.content_family {
            Some(d) => d.scope_policy.root_scope,
            None => ScopeType::Unknown,
        },
        file_walked(*old(index), *final(index), *file, map_groups@, *builtins),
{
    let ghost f = file_spec(file.mod_id@, file.relative_path@, file.module_name@);
    let policy = match &file.content_family {
        Some(d) => d.scope_policy,
        None => ContentFamilyScopePolicy { root_scope: ScopeType::Unknown, from_alias: None, dynamic_scope: false },
    };
    let line = first_line(&file.ast.statements);
    let ghost b0 = *index;
    let root = index.symbols.scopes.open_file_scope(policy, file.mod_id.as_str(), file.relative_path.as_str(), line);
    proof {
        lemma_scope_pushed(b0, *index, f);
    }
    let ctx = BuildContext {
        scope: ScopeContext {
            mod_id: file.mod_id.as_str(),
            path: file.relative_path.as_str(),
            file_kind: file.file_kind,
            map_groups,
            builtins,
        },
        module_name: file.module_name.as_str(),
        source: file.source.as_str(),
    };
    let ghost b1 = *index;
    let no_namespace: Option<String> = None;
    walk_statements(&file.ast.statements, index, root, &ctx, None, &no_namespace);
    proof {
        lemma_walk_extends_trans(b0, b1, *index, f);
        assert(index.symbols.scopes@[root as int] == b1.symbols.scopes@[root as int]);
        assert(b1.symbols.scopes@.drop_last() =~= b0.symbols.scopes@);
        assert(b1.symbols.scopes@.last() == b1.symbols.scopes@[root as int]);
        assert(policy == file_policy(*file));
        assert(root_opened(b0, b1, f, file_policy(*file), first_line_of(file.ast.statements@)));
        let env = WalkEnv {
            f: file_spec(file.mod_id@, file.relative_path@, file.module_name@),
            file_kind: file.file_kind,
            groups: map_groups@,
            builtins: *builtins,
            source: file.source@,
        };
        assert(env_of(&ctx) == env);
        assert(walked(b1, *index, env, file.ast.statements@, root, None, None));
        assert(root == old(index).symbols.scopes@.len() as usize);
        assert(b0 == *old(index));
        assert(root_opened(*old(index), b1, env.f, file_policy(*file), first_line_of(file.ast.statements@)));
    }
}

/// Some file among the first `n` of `files` is of mod `m` at the path `p`.
pub open spec fn from_file(m: Seq<char>, p: Seq<char>, files: Seq<ParsedScriptFile>, n: int) -> bool {
    exists|k: int| 0 <= k < n && #[trigger] files[k].mod_id@ == m && files[k].relative_path@ == p
}

/// Every scope, definition, call, key, assignment, alias, UI element and
/// resource of the index belongs to one of the first `n` files.
pub open spec fn entries_from_files(idx: SemanticIndex, files: Seq<ParsedScriptFile>, n: int) -> bool {
    &&& forall|i: int| 0 <= i < idx.symbols.scopes@.len() ==> from_file(
        (#[trigger] idx.symbols.scopes@[i]).mod_id@,
        idx.symbols.scopes@[i].path@,
        files,
        n,
    )
    &&& forall|i: int| 0 <= i < idx.symbols.definitions@.len() ==> from_file(
        (#[trigger] idx.symbols.definitions@[i]).mod_id@,
        idx.symbols.definitions@[i].path@,
        files,
        n,
    )
    &&& forall|i: int| 0 <= i < idx.symbols.references@.len() ==> from_file(
        (#[trigger] idx.symbols.references@[i]).mod_id@,
        idx.symbols.references@[i].path@,
        files,
        n,
    )
    &&& forall|i: int| 0 <= i < idx.symbols.key_usages@.len() ==> from_file(
        (#[trigger] idx.symbols.key_usages@[i]).mod_id@,
        idx.symbols.key_usages@[i].path@,
        files,
        n,
    )
    &&& forall|i: int| 0 <= i < idx.scalar_assignments@.len() ==> from_file(
        (#[trigger] idx.scalar_assignments@[i]).mod_id@,
        idx.scalar_assignments@[i].path@,
        files,
        n,
    )
    &&& forall|i: int| 0 <= i < idx.alias_usages@.len() ==> from_file(
        (#[trigger] idx.alias_usages@[i]).mod_id@,
        idx.alias_usages@[i].path@,
        files,
        n,
    )
    &&& forall|i: int| 0 <= i < idx.ui_definitions@.len() ==> from_file(
        (#[trigger] idx.ui_definitions@[i]).mod_id@,
        idx.ui_definitions@[i].path@,
        files,
        n,
    )
    &&& forall|i: int| 0 <= i < idx.resource_references@.len() ==> from_file(
        (#[trigger] idx.resource_references@[i]).mod_id@,
        idx.resource_references@[i].path@,
        files,
        n,
    )
}

proof fn lemma_from_file_more(m: Seq<char>, p: Seq<char>, files: Seq<ParsedScriptFile>, n: int)
    requires
        from_file(m, p, files, n),
    ensures
        from_file(m, p, files, n + 1),
{
    let k = choose|k: int| 0 <= k < n && #[trigger] files[k].mod_id@ == m && files[k].relative_path@ == p;
    assert(files[k].mod_id@ == m && files[k].relative_path@ == p);
}

proof fn lemma_entries_after_walk(a: SemanticIndex, b: SemanticIndex, files: Seq<ParsedScriptFile>, n: int)
    requires
        0 <= n < files.len(),
        entries_from_files(a, files, n),
        walk_extends(a, b, file_spec(files[n].mod_id@, files[n].relative_path@, files[n].module_name@)),
    ensures
        entries_from_files(b, files, n + 1),
{
    let f = file_spec(files[n].mod_id@, files[n].relative_path@, files[n].module_name@);
    let sb = b.symbols.scopes@;
    assert forall|i: int| 0 <= i < sb.len() implies from_file((#[trigger] sb[i]).mod_id@, sb[i].path@, files, n + 1) by {
        if i < a.symbols.scopes@.len() {
            assert(sb[i] == a.symbols.scopes@[i]);
            lemma_from_file_more(sb[i].mod_id@, sb[i].path@, files, n);
        } else {
            assert(files[n].mod_id@ == sb[i].mod_id@);
        }
    }
    let db = b.symbols.definitions@;
    assert forall|i: int| 0 <= i < db.len() implies from_file((#[trigger] db[i]).mod_id@, db[i].path@, files, n + 1) by {
        if i < a.symbols.definitions@.len() {
            assert(same_but_required(a.symbols.definitions@[i], db[i]));
            lemma_from_file_more(db[i].mod_id@, db[i].path@, files, n);
        } else {
            assert(definition_in_file(db[i], f, sb, a.symbols.scopes@.len() as int));
            assert(files[n].mod_id@ == db[i].mod_id@);
        }
    }
    let rb = b.symbols.references@;
    assert forall|i: int| 0 <= i < rb.len() implies from_file((#[trigger] rb[i]).mod_id@, rb[i].path@, files, n + 1) by {
        if i < a.symbols.references@.len() {
            assert(rb[i] == a.symbols.references@[i]);
            lemma_from_file_more(rb[i].mod_id@, rb[i].path@, files, n);
        } else {
            assert(reference_in_file(rb[i], f, sb));
            assert(files[n].mod_id@ == rb[i].mod_id@);
        }
    }
    let ub = b.symbols.key_usages@;
    assert forall|i: int| 0 <= i < ub.len() implies from_file((#[trigger] ub[i]).mod_id@, ub[i].path@, files, n + 1) by {
        if i < a.symbols.key_usages@.len() {
            assert(ub[i] == a.symbols.key_usages@[i]);
            lemma_from_file_more(ub[i].mod_id@, ub[i].path@, files, n);
        } else {
            assert(usage_in_file(ub[i], f, sb));
            assert(files[n].mod_id@ == ub[i].mod_id@);
        }
    }
    let xb = b.scalar_assignments@;
    assert forall|i: int| 0 <= i < xb.len() implies from_file((#[trigger] xb[i]).mod_id@, xb[i].path@, files, n + 1) by {
        if i < a.scalar_assignments@.len() {
            assert(xb[i] == a.scalar_assignments@[i]);
            lemma_from_file_more(xb[i].mod_id@, xb[i].path@, files, n);
        } else {
            assert(assignment_in_file(xb[i], f, sb));
            assert(files[n].mod_id@ == xb[i].mod_id@);
        }
    }
    let ab = b.alias_usages@;
    assert forall|i: int| 0 <= i < ab.len() implies from_file((#[trigger] ab[i]).mod_id@, ab[i].path@, files, n + 1) by {
        if i < a.alias_usages@.len() {
            assert(ab[i] == a.alias_usages@[i]);
            lemma_from_file_more(ab[i].mod_id@, ab[i].path@, files, n);
        } else {
            assert(alias_in_file(ab[i], f, sb));
            assert(files[n].mod_id@ == ab[i].mod_id@);
        }
    }
    let vb = b.ui_definitions@;
    assert forall|i: int| 0 <= i < vb.len() implies from_file((#[trigger] vb[i]).mod_id@, vb[i].path@, files, n + 1) by {
        if i < a.ui_definitions@.len() {
            assert(vb[i] == a.ui_definitions@[i]);
            lemma_from_file_more(vb[i].mod_id@, vb[i].path@, files, n);
        } else {
            assert(files[n].mod_id@ == vb[i].mod_id@);
        }
    }
    let wb = b.resource_references@;
    assert forall|i: int| 0 <= i < wb.len() implies from_file((#[trigger] wb[i]).mod_id@, wb[i].path@, files, n + 1) by {
        if i < a.resource_references@.len() {
            assert(wb[i] == a.resource_references@[i]);
            lemma_from_file_more(wb[i].mod_id@, wb[i].path@, files, n);
        } else {
            assert(files[n].mod_id@ == wb[i].mod_id@);
        }
    }
}

/// The document record of a parsed file.
pub open spec fn records_file(d: DocumentRecord, file: ParsedScriptFile) -> bool {
    &&& d.mod_id@ == file.mod_id@
    &&& d.path@ == file.relative_path@
    &&& d.family == DocumentFamily::Clausewitz
    &&& d.parse_ok == (file.parse_issues@.len() == 0)
}

/// The parse problems of the first `n` files, in order.
pub open spec fn issues_of(files: Seq<ParsedScriptFile>, n: int) -> Seq<ParseIssue>
    decreases n,
{
    if n <= 0 {
        Seq::empty()
    } else {
        issues_of(files, n - 1) + files[n - 1].parse_issues@
    }
}

fn copy_issue(x: &ParseIssue) -> (r: ParseIssue)
    ensures
        r == *x,
{
    ParseIssue {
        mod_id: x.mod_id.clone(),
        path: x.path.clone(),
        line: x.line,
        column: x.column,
        message: x.message.clone(),
    }
}

/// Records each file as a document with its parse problems, and walks the
/// statements of each in turn.
/// Nothing is recorded in the index.
pub open spec fn index_empty(b: SemanticIndex) -> bool {
    &&& b.symbols.scopes@.len() == 0
    &&& b.symbols.definitions@.len() == 0
    &&& b.symbols.references@.len() == 0
    &&& b.symbols.key_usages@.len() == 0
    &&& b.scalar_assignments@.len() == 0
    &&& b.alias_usages@.len() == 0
    &&& b.ui_definitions@.len() == 0
    &&& b.resource_references@.len() == 0
    &&& b.documents@.len() == 0
    &&& b.parse_issues@.len() == 0
}

/// `b` is `a` with the document of `file` and its parse problems recorded,
/// and nothing else changed.
pub open spec fn document_recorded(a: SemanticIndex, b: SemanticIndex, file: ParsedScriptFile) -> bool {
    &&& pushed(a.documents@, b.documents@)
    &&& records_file(b.documents@.last(), file)
    &&& b.parse_issues@ == a.parse_issues@ + file.parse_issues@
    &&& b.symbols.scopes@ == a.symbols.scopes@
    &&& b.symbols.definitions@ == a.symbols.definitions@
    &&& b.symbols.references@ == a.symbols.references@
    &&& b.symbols.key_usages@ == a.symbols.key_usages@
    &&& b.scalar_assignments@ == a.scalar_assignments@
    &&& b.alias_usages@ == a.alias_usages@
    &&& b.ui_definitions@ == a.ui_definitions@
    &&& b.resource_references@ == a.resource_references@
}

/// `b` is the index of the first `n` files, read in order against the
/// province groups `groups`: for each, its document and parse problems are
/// recorded, then the file is walked.
pub open spec fn indexed_files(b: SemanticIndex, files: Seq<ParsedScriptFile>, n: int, groups: Set<Seq<char>>, builtins: BuiltinLookup) -> bool
    decreases n,
{
    if n <= 0 {
        index_empty(b)
    } else {
        exists|m: SemanticIndex|
            #[trigger] between_steps(m) && indexed_files(m, files, n - 1, groups, builtins) && exists|d: SemanticIndex|
                #[trigger] document_recorded(m, d, files[n - 1]) && file_walked(d, b, files[n - 1], groups, builtins)
    }
}

pub fn index_files(files: &Vec<ParsedScriptFile>, builtins: &BuiltinLookup) -> (r: SemanticIndex)
    ensures
        index_wf(r),
        entries_from_files(r, files@, files@.len() as int),
        r.documents@.len() == files@.len(),
        forall|k: int| 0 <= k < files@.len() ==> records_file(#[trigger] r.documents@[k], files@[k]),
        r.parse_issues@ == issues_of(files@, files@.len() as int),
        indexed_files(r, files@, files@.len() as int, crate::semantic_index::map_group_keys(files@, *builtins), *builtins),
{
    let mut index = SemanticIndex::new();
    let map_groups = collect_map_groups(files, builtins);
    let mut i: usize = 0;
    while i < files.len()
        invariant
            i <= files.len(),
            index_wf(index),
            entries_from_files(index, files@, i as int),
            index.documents@.len() == i,
            forall|k: int| 0 <= k < i ==> records_file(#[trigger] index.documents@[k], files@[k]),
            index.parse_issues@ == issues_of(files@, i as int),
            map_groups@ == crate::semantic_index::map_group_keys(files@, *builtins),
            indexed_files(index, files@, i as int, map_groups@, *builtins),
        decreases files.len() - i,
    {
        let ghost m = index;
        let file = &files[i];
        index.documents.push(
            DocumentRecord {
                mod_id: file.mod_id.clone(),
                path: file.relative_path.clone(),
                family: DocumentFamily::Clausewitz,
                parse_ok: file.parse_issues.len() == 0,
            },
        );
        let mut q: usize = 0;
        let ghost start_issues = index.parse_issues@;
        let ghost docs = index.documents@;
        assert(records_file(docs[i as int], files@[i as int]));
        while q < file.parse_issues.len()
            invariant
                q <= file.parse_issues.len(),
                index.documents@ == docs,
                index.parse_issues@ == start_issues + file.parse_issues@.subrange(0, q as int),
                start_issues == m.parse_issues@,
                index.symbols.scopes@ == m.symbols.scopes@,
                index.symbols.definitions@ == m.symbols.definitions@,
                index.symbols.references@ == m.symbols.references@,
                index.symbols.key_usages@ == m.symbols.key_usages@,
                index.scalar_assignments@ == m.scalar_assignments@,
                index.alias_usages@ == m.alias_usages@,
                index.ui_definitions@ == m.ui_definitions@,
                index.resource_references@ == m.resource_references@,
                index_wf(index),
                entries_from_files(index, files@, i as int),
            decreases file.parse_issues.len() - q,
        {
            index.parse_issues.push(copy_issue(&file.parse_issues[q]));
            q = q + 1;
            assert(index.parse_issues@ =~= start_issues + file.parse_issues@.subrange(0, q as int));
        }
        assert(file.parse_issues@.subrange(0, file.parse_issues.len() as int) =~= file.parse_issues@);
        let ghost before = index;
        build_file_index(file, &map_groups, builtins, &mut index);
        proof {
            lemma_entries_after_walk(before, index, files@, i as int);
            assert(index.documents@ == before.documents@);
            assert(before.documents@.drop_last() =~= m.documents@);
            assert(document_recorded(m, before, files@[i as int]));
            assert(between_steps(m));
            assert(indexed_files(index, files@, i + 1, map_groups@, *builtins));
        }
        i = i + 1;
    }
    index
}

/// `b` is `a` with the type of `THIS` of each definition inferred from the
/// scopes, calls and keys of `a`.
pub open spec fn this_inferred(a: SymbolIndex, b: SymbolIndex) -> bool {
    &&& b.scopes@ == a.scopes@
    &&& b.references@ == a.references@
    &&& b.key_usages@ == a.key_usages@
    &&& b.definitions@.len() == a.definitions@.len()
    &&& forall|i: int|
        0 <= i < a.definitions@.len() ==> #[trigger] b.definitions@[i] == crate::scope_inference::with_inferred_this(
            a.definitions@[i],
            crate::scope_inference::inferred_masks(a.scopes@, a.definitions@, a.references@, a.key_usages@)[i],
        )
}

/// `b` is `a` with the type of `FROM` of each definition inferred from its
/// callers, and bound in the scopes of the bodies.
pub open spec fn from_inferred(a: SymbolIndex, b: SymbolIndex) -> bool {
    let masks = crate::scope_inference::inferred_from_masks(a.scopes@, a.definitions@, a.references@);
    &&& b.references@ == a.references@
    &&& b.key_usages@ == a.key_usages@
    &&& b.scopes@ == crate::scope_inference::bind_from_scopes(a.scopes@, a.definitions@, masks, a.definitions@.len() as int)
    &&& b.definitions@.len() == a.definitions@.len()
    &&& forall|i: int|
        0 <= i < a.definitions@.len() ==> #[trigger] b.definitions@[i] == crate::scope_inference::with_inferred_from(
            a.definitions@[i],
            masks[i],
        )
}

/// `b` is `a` with the registered parameter contract applied to each
/// definition.
pub open spec fn contracts_applied(a: SymbolIndex, b: SymbolIndex) -> bool {
    &&& b.scopes@ == a.scopes@
    &&& b.references@ == a.references@
    &&& b.key_usages@ == a.key_usages@
    &&& b.definitions@.len() == a.definitions@.len()
    &&& forall|i: int|
        0 <= i < a.definitions@.len() ==> crate::param_contracts::same_but_contract(a.definitions@[i], #[trigger] b.definitions@[i])
            && crate::param_contracts::applied_contract(a.definitions@[i]) == match b.definitions@[i].param_contract {
                Some(c) => Some(crate::param_contracts::contract_view(c)),
                None => None,
            }
}

/// `r` is the semantic index of `files`: they are indexed in order, then
/// the types of `THIS` and `FROM` of the definitions are inferred and the
/// registered parameter contracts applied.
pub open spec fn semantic_index_of(r: SemanticIndex, files: Seq<ParsedScriptFile>, builtins: BuiltinLookup) -> bool {
    exists|w: SemanticIndex|
        #[trigger] indexed_files(w, files, files.len() as int, crate::semantic_index::map_group_keys(files, builtins), builtins)
            && r.scalar_assignments@ == w.scalar_assignments@
            && r.alias_usages@ == w.alias_usages@
            && r.ui_definitions@ == w.ui_definitions@
            && r.resource_references@ == w.resource_references@
            && r.documents@ == w.documents@
            && r.parse_issues@ == w.parse_issues@
            && exists|i1: SymbolIndex|
            #[trigger] this_inferred(w.symbols, i1) && exists|i2: SymbolIndex|
                #[trigger] from_inferred(i1, i2) && contracts_applied(i2, r.symbols)
}

/// The semantic index of a set of parsed files: the documents and the
/// symbols, calls and records of their statements, with the scope types
/// of callers carried into the symbols they call, `FROM` inferred and
/// bound, and the registered parameter contracts applied.
pub fn build_semantic_index(files: &Vec<ParsedScriptFile>, builtins: &BuiltinLookup) -> (r: SemanticIndex)
    ensures
        r.documents@.len() == files@.len(),
        forall|k: int| 0 <= k < files@.len() ==> records_file(#[trigger] r.documents@[k], files@[k]),
        r.parse_issues@ == issues_of(files@, files@.len() as int),
        forall|i: int| 0 <= i < r.symbols.references@.len() ==> from_file(
            (#[trigger] r.symbols.references@[i]).mod_id@,
            r.symbols.references@[i].path@,
            files@,
            files@.len() as int,
        ),
        forall|i: int| 0 <= i < r.symbols.key_usages@.len() ==> from_file(
            (#[trigger] r.symbols.key_usages@[i]).mod_id@,
            r.symbols.key_usages@[i].path@,
            files@,
            files@.len() as int,
        ),
        forall|i: int| 0 <= i < r.symbols.definitions@.len() ==> from_file(
            (#[trigger] r.symbols.definitions@[i]).mod_id@,
            r.symbols.definitions@[i].path@,
            files@,
            files@.len() as int,
        ) && (r.symbols.definitions@[i].kind != SymbolKind::ScriptedEffect ==> r.symbols.definitions@[i].param_contract is None),
        semantic_index_of(r, files@, *builtins),
{
    let mut index = index_files(files, builtins);
    let ghost walked = index;
    crate::scope_inference::infer_definition_scope_from_references(&mut index.symbols);
    let ghost inferred = index;
    crate::scope_inference::infer_definition_from_mask_from_references(&mut index.symbols);
    let ghost with_from = index;
    crate::param_contracts::apply_registered_param_contracts(&mut index.symbols);
    proof {
        assert(this_inferred(walked.symbols, inferred.symbols));
        assert(from_inferred(inferred.symbols, with_from.symbols));
        assert(contracts_applied(with_from.symbols, index.symbols));
        assert(indexed_files(walked, files@, files@.len() as int, crate::semantic_index::map_group_keys(files@, *builtins), *builtins));
        assert(semantic_index_of(index, files@, *builtins));
        let n = walked.symbols.definitions@.len();
        assert forall|i: int| 0 <= i < index.symbols.definitions@.len() implies from_file(
            (#[trigger] index.symbols.definitions@[i]).mod_id@,
            index.symbols.definitions@[i].path@,
            files@,
            files@.len() as int,
        ) by {
            assert(inferred.symbols.definitions@[i] == crate::scope_inference::with_inferred_this(
                walked.symbols.definitions@[i],
                crate::scope_inference::inferred_masks(
                    walked.symbols.scopes@,
                    walked.symbols.definitions@,
                    walked.symbols.references@,
                    walked.symbols.key_usages@,
                )[i],
            ));
            assert(with_from.symbols.definitions@[i] == crate::scope_inference::with_inferred_from(
                inferred.symbols.definitions@[i],
                crate::scope_inference::inferred_from_masks(
                    inferred.symbols.scopes@,
                    inferred.symbols.definitions@,
                    inferred.symbols.references@,
                )[i],
            ));
            assert(crate::param_contracts::same_but_contract(with_from.symbols.definitions@[i], index.symbols.definitions@[i]));
            assert(from_file(walked.symbols.definitions@[i].mod_id@, walked.symbols.definitions@[i].path@, files@, files@.len() as int));
        }
        assert forall|i: int| 0 <= i < index.symbols.definitions@.len() implies (
            #[trigger] index.symbols.definitions@[i]).kind != SymbolKind::ScriptedEffect ==> index.symbols.definitions@[i].param_contract is None by {
            assert(crate::param_contracts::same_but_contract(with_from.symbols.definitions@[i], index.symbols.definitions@[i]));
        }
    }
    index
}

} // verus!
