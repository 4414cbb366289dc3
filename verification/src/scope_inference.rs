//! The symbols of a semantic index (definitions of scripted effects and
//! triggers, events and the like, and the references to them), how a
//! reference is resolved to its definitions, and the inference that carries
//! the scope types of callers into the definitions they call.

use vstd::prelude::*;
use crate::analysis::{scope_type_mask, trim_chars};
use crate::eu4_builtin::string_views;
use crate::model::{ParamContract, ScopeType};
use crate::scope_rules::{is_country_tag, is_country_tag_selector, is_province_id_selector, parse_u32};
use crate::scope_tree::{tree_wf, with_from_bound, ScopeAliases, ScopeNode, ScopeTree};
use crate::text::{chars_of, eq_lit, has_suffix, str_ends_with, str_eq, string_from_chars, trimmed};

verus! {

/// The kinds of symbols that script defines and references.
#[derive(Clone, Copy, Debug, PartialEq, Eq, Structural)]
pub enum SymbolKind {
    ScriptedEffect,
    ScriptedTrigger,
    Event,
    Decision,
    DiplomaticAction,
    TriggeredModifier,
}

/// A parameter given to a call, and the text of its value.
#[derive(Clone, Debug, PartialEq, Eq)]
pub struct ParamBinding {
    pub name: String,
    pub value: String,
}

/// A symbol defined in script: its kind and names, where it is defined, the
/// scope its body opens, the declared and inferred types of `THIS` there
/// (as a type and as a mask of scope bits), the inferred mask of `FROM`, and
/// its parameters.
#[derive(Clone, Debug)]
pub struct SymbolDefinition {
    pub kind: SymbolKind,
    pub name: String,
    pub module: String,
    pub local_name: String,
    pub mod_id: String,
    pub path: String,
    pub line: usize,
    pub column: usize,
    pub scope_id: usize,
    pub declared_this_type: ScopeType,
    pub inferred_this_type: ScopeType,
    pub inferred_this_mask: u8,
    pub inferred_from_mask: u8,
    pub required_params: Vec<String>,
    pub optional_params: Vec<String>,
    pub param_contract: Option<ParamContract>,
    pub scope_param_names: Vec<String>,
}

/// A use of a symbol: its kind and name, the module it is used from, where,
/// the scope it stands in, and the parameters it gives.
#[derive(Clone, Debug)]
pub struct SymbolReference {
    pub kind: SymbolKind,
    pub name: String,
    pub module: String,
    pub mod_id: String,
    pub path: String,
    pub line: usize,
    pub column: usize,
    pub scope_id: usize,
    pub provided_params: Vec<String>,
    pub param_bindings: Vec<ParamBinding>,
}

/// A key written in a scope.
#[derive(Clone, Debug)]
pub struct KeyUsage {
    pub key: String,
    pub mod_id: String,
    pub path: String,
    pub line: usize,
    pub column: usize,
    pub scope_id: usize,
    pub this_type: ScopeType,
}

/// The scopes, symbol definitions, symbol references and key usages that
/// the semantic index gathers from the script files of a mod set.
pub struct SymbolIndex {
    pub scopes: ScopeTree,
    pub definitions: Vec<SymbolDefinition>,
    pub references: Vec<SymbolReference>,
    pub key_usages: Vec<KeyUsage>,
}

/// The positions below `n` of the definitions that satisfy `p`, in order.
pub open spec fn indices_where(
    defs: Seq<SymbolDefinition>,
    n: int,
    p: spec_fn(SymbolDefinition) -> bool,
) -> Seq<usize>
    decreases n,
{
    if n <= 0 {
        Seq::empty()
    } else {
        let r = indices_where(defs, n - 1, p);
        if p(defs[n - 1]) {
            r.push((n - 1) as usize)
        } else {
            r
        }
    }
}

/// A definition of `kind` in the reference's module with the name used.
pub open spec fn same_module_match(kind: SymbolKind, r: SymbolReference) -> spec_fn(
    SymbolDefinition,
) -> bool {
    |d: SymbolDefinition| d.kind == kind && d.module@ == r.module@ && d.local_name@ == r.name@
}

/// A definition of `kind` with the name used, in any module.
pub open spec fn any_module_match(kind: SymbolKind, r: SymbolReference) -> spec_fn(
    SymbolDefinition,
) -> bool {
    |d: SymbolDefinition| d.kind == kind && d.local_name@ == r.name@
}

/// The definitions a reference of `kind` resolves to: those of its module
/// with its name, or, where there are none, those of any module with its name.
pub open spec fn resolved_targets(defs: Seq<SymbolDefinition>, r: SymbolReference, kind: SymbolKind) -> Seq<
    usize,
> {
    if r.kind != kind {
        Seq::empty()
    } else {
        let exact = indices_where(defs, defs.len() as int, same_module_match(kind, r));
        if exact.len() > 0 {
            exact
        } else {
            indices_where(defs, defs.len() as int, any_module_match(kind, r))
        }
    }
}

fn collect_matching(defs: &Vec<SymbolDefinition>, reference: &SymbolReference, kind: SymbolKind, same_module: bool) -> (r:
    Vec<usize>)
    ensures
        r@ == indices_where(
            defs@,
            defs@.len() as int,
            if same_module {
                same_module_match(kind, *reference)
            } else {
                any_module_match(kind, *reference)
            },
        ),
{
    let ghost p = if same_module {
        same_module_match(kind, *reference)
    } else {
        any_module_match(kind, *reference)
    };
    let mut out: Vec<usize> = Vec::new();
    let mut i: usize = 0;
    while i < defs.len()
        invariant
            i <= defs.len(),
            p == (if same_module {
                same_module_match(kind, *reference)
            } else {
                any_module_match(kind, *reference)
            }),
            out@ == indices_where(defs@, i as int, p),
        decreases defs.len() - i,
    {
        let def = &defs[i];
        let hit = def.kind == kind && (!same_module || str_eq(def.module.as_str(), reference.module.as_str()))
            && str_eq(def.local_name.as_str(), reference.name.as_str());
        assert(hit == p(defs@[i as int]));
        if hit {
            out.push(i);
        }
        i = i + 1;
    }
    out
}

pub fn resolve_reference_targets_for_kind(
    definitions: &Vec<SymbolDefinition>,
    reference: &SymbolReference,
    kind: SymbolKind,
) -> (r: Vec<usize>)
    ensures
        r@ == resolved_targets(definitions@, *reference, kind),
{
    if reference.kind != kind {
        return Vec::new();
    }
    let exact = collect_matching(definitions, reference, kind, true);
    if exact.len() > 0 {
        return exact;
    }
    collect_matching(definitions, reference, kind, false)
}

pub fn resolve_scripted_effect_reference_targets(index: &SymbolIndex, reference: &SymbolReference) -> (r:
    Vec<usize>)
    ensures
        r@ == resolved_targets(index.definitions@, *reference, SymbolKind::ScriptedEffect),
{
    resolve_reference_targets_for_kind(&index.definitions, reference, SymbolKind::ScriptedEffect)
}

pub fn resolve_scripted_trigger_reference_targets(index: &SymbolIndex, reference: &SymbolReference) -> (r:
    Vec<usize>)
    ensures
        r@ == resolved_targets(index.definitions@, *reference, SymbolKind::ScriptedTrigger),
{
    resolve_reference_targets_for_kind(&index.definitions, reference, SymbolKind::ScriptedTrigger)
}

/// The first position below `n` whose definition satisfies `p`.
pub open spec fn first_where(defs: Seq<SymbolDefinition>, n: int, p: spec_fn(SymbolDefinition) -> bool) -> Option<
    usize,
>
    decreases n,
{
    if n <= 0 {
        None
    } else {
        match first_where(defs, n - 1, p) {
            Some(i) => Some(i),
            None => if p(defs[n - 1]) {
                Some((n - 1) as usize)
            } else {
                None
            },
        }
    }
}

/// The definitions of `target_kind` that a reference names, whatever its own
/// kind: the first one in the reference's module, or else all with the name.
pub open spec fn cross_kind_targets(defs: Seq<SymbolDefinition>, r: SymbolReference, target_kind: SymbolKind) -> Seq<
    usize,
> {
    let probe = SymbolReference { kind: target_kind, ..r };
    match first_where(defs, defs.len() as int, same_module_match(target_kind, probe)) {
        Some(i) => seq![i],
        None => indices_where(defs, defs.len() as int, any_module_match(target_kind, probe)),
    }
}

pub fn resolve_cross_kind_reference_targets(
    index: &SymbolIndex,
    reference: &SymbolReference,
    target_kind: SymbolKind,
) -> (r: Vec<usize>)
    ensures
        r@ == cross_kind_targets(index.definitions@, *reference, target_kind),
{
    let defs = &index.definitions;
    let ghost probe = SymbolReference { kind: target_kind, ..*reference };
    let ghost exact = same_module_match(target_kind, probe);
    let ghost loose = any_module_match(target_kind, probe);
    let mut by_local: Vec<usize> = Vec::new();
    let mut i: usize = 0;
    while i < defs.len()
        invariant
            i <= defs.len(),
            defs@ == index.definitions@,
            exact == same_module_match(target_kind, probe),
            loose == any_module_match(target_kind, probe),
            probe == (SymbolReference { kind: target_kind, ..*reference }),
            first_where(defs@, i as int, exact) is None,
            by_local@ == indices_where(defs@, i as int, loose),
        decreases defs.len() - i,
    {
        let def = &defs[i];
        if def.kind == target_kind && str_eq(def.local_name.as_str(), reference.name.as_str()) {
            if str_eq(def.module.as_str(), reference.module.as_str()) {
                assert(exact(defs@[i as int]));
                let mut one: Vec<usize> = Vec::new();
                one.push(i);
                assert(one@ =~= seq![i]);
                assert(first_where(defs@, i + 1, exact) == Some(i));
                proof {
                    lemma_first_where_stable(defs@, i + 1, defs@.len() as int, exact);
                    assert(first_where(defs@, defs@.len() as int, exact) == Some(i));
                    assert(probe == (SymbolReference { kind: target_kind, ..*reference }));
                    assert(cross_kind_targets(defs@, *reference, target_kind) == seq![i]);
                }
                return one;
            }
            by_local.push(i);
        }
        assert(!exact(defs@[i as int]));
        i = i + 1;
    }
    by_local
}

proof fn lemma_first_where_stable(defs: Seq<SymbolDefinition>, m: int, n: int, p: spec_fn(SymbolDefinition) -> bool)
    requires
        0 <= m <= n,
        first_where(defs, m, p) is Some,
    ensures
        first_where(defs, n, p) == first_where(defs, m, p),
    decreases n - m,
{
    if m < n {
        lemma_first_where_stable(defs, m, n - 1, p);
    }
}

/// Two event names name the same event: they are equal, or one is the other
/// after a namespace and a dot.
pub open spec fn event_names_match(def: Seq<char>, r: Seq<char>) -> bool {
    ||| def == r
    ||| has_suffix(def, r) && def.len() > r.len() && def[def.len() - r.len() - 1] == '.'
    ||| has_suffix(r, def) && r.len() > def.len() && r[r.len() - def.len() - 1] == '.'
}

/// The event definitions that an event reference names.
pub open spec fn event_targets(defs: Seq<SymbolDefinition>, r: SymbolReference) -> Seq<usize> {
    if r.kind != SymbolKind::Event {
        Seq::empty()
    } else {
        indices_where(
            defs,
            defs.len() as int,
            |d: SymbolDefinition| d.kind == SymbolKind::Event && event_names_match(d.name@, r.name@),
        )
    }
}

/// Whether `whole` is `part` after a dot, e.g. `ns.7` and `7`.
fn qualified_by_dot(whole: &str, part: &str) -> (r: bool)
    ensures
        r == (has_suffix(whole@, part@) && whole@.len() > part@.len() && whole@[whole@.len()
            - part@.len() - 1] == '.'),
{
    if !str_ends_with(whole, part) {
        return false;
    }
    let w = crate::text::chars_of(whole);
    let p = crate::text::chars_of(part);
    if w.len() <= p.len() {
        return false;
    }
    w[w.len() - p.len() - 1] == '.'
}

pub fn resolve_event_reference_targets(index: &SymbolIndex, reference: &SymbolReference) -> (r:
    Vec<usize>)
    ensures
        r@ == event_targets(index.definitions@, *reference),
{
    if reference.kind != SymbolKind::Event {
        return Vec::new();
    }
    let defs = &index.definitions;
    let ghost p = |d: SymbolDefinition| d.kind == SymbolKind::Event && event_names_match(
        d.name@,
        reference.name@,
    );
    let mut matches: Vec<usize> = Vec::new();
    let mut i: usize = 0;
    while i < defs.len()
        invariant
            i <= defs.len(),
            p == (|d: SymbolDefinition| d.kind == SymbolKind::Event && event_names_match(
                d.name@,
                reference.name@,
            )),
            matches@ == indices_where(defs@, i as int, p),
        decreases defs.len() - i,
    {
        let def = &defs[i];
        if def.kind == SymbolKind::Event {
            let d = def.name.as_str();
            let n = reference.name.as_str();
            if str_eq(d, n) || qualified_by_dot(d, n) || qualified_by_dot(n, d) {
                matches.push(i);
            }
        }
        i = i + 1;
    }
    matches
}

/// Scripted effects and triggers: the symbols whose scope is inferred from
/// their callers.
pub open spec fn is_inferred_callable(k: SymbolKind) -> bool {
    k == SymbolKind::ScriptedEffect || k == SymbolKind::ScriptedTrigger
}

/// The last position below `n` whose definition satisfies `p`.
pub open spec fn last_where(defs: Seq<SymbolDefinition>, n: int, p: spec_fn(SymbolDefinition) -> bool) -> Option<
    usize,
>
    decreases n,
{
    if n <= 0 {
        None
    } else if p(defs[n - 1]) {
        Some((n - 1) as usize)
    } else {
        last_where(defs, n - 1, p)
    }
}

/// The scripted effect or trigger whose body is scope `sid`; the last one
/// where several claim it.
pub open spec fn callable_at(defs: Seq<SymbolDefinition>, sid: int) -> Option<usize> {
    last_where(
        defs,
        defs.len() as int,
        |d: SymbolDefinition| is_inferred_callable(d.kind) && d.scope_id == sid,
    )
}

/// The bit of a scope type in a mask.
pub open spec fn mask_of(t: ScopeType) -> u8 {
    match t {
        ScopeType::Country => 1u8,
        ScopeType::Province => 2u8,
        ScopeType::Unknown => 0u8,
    }
}

/// The scope type that a mask names: one bit alone names its type, any other
/// mask names none.
pub open spec fn type_of_mask(m: u8) -> ScopeType {
    if m == 1 {
        ScopeType::Country
    } else if m == 2 {
        ScopeType::Province
    } else {
        ScopeType::Unknown
    }
}

pub fn scope_type_from_mask(mask: u8) -> (r: ScopeType)
    ensures
        r == type_of_mask(mask),
{
    if mask == 1 {
        ScopeType::Country
    } else if mask == 2 {
        ScopeType::Province
    } else {
        ScopeType::Unknown
    }
}

/// The mask at position `d`, zero past the end.
pub open spec fn mask_at(masks: Seq<u8>, d: usize) -> u8 {
    if d < masks.len() {
        masks[d as int]
    } else {
        0
    }
}

/// The scripted effects and triggers by the scope of their body.
pub struct CallableScopeMap {
    by_scope: Vec<Option<usize>>,
}

impl CallableScopeMap {
    pub closed spec fn describes(&self, defs: Seq<SymbolDefinition>) -> bool {
        forall|sid: int| 0 <= sid < self.by_scope@.len() ==> #[trigger] self.by_scope@[sid] == callable_at(defs, sid)
    }

    /// The number of scopes the map answers for without a search.
    pub closed spec fn scope_count(&self) -> nat {
        self.by_scope@.len()
    }

    /// The map of the definitions, for the scopes below `scope_count`.
    pub fn build(defs: &Vec<SymbolDefinition>, scope_count: usize) -> (r: CallableScopeMap)
        ensures
            r.describes(defs@),
            r.scope_count() == scope_count,
    {
        let mut by_scope: Vec<Option<usize>> = Vec::new();
        let mut s: usize = 0;
        while s < scope_count
            invariant
                s <= scope_count,
                by_scope@.len() == s,
                forall|k: int| 0 <= k < s ==> #[trigger] by_scope@[k] == last_where(
                    defs@,
                    0,
                    |d: SymbolDefinition| is_inferred_callable(d.kind) && d.scope_id == k,
                ),
            decreases scope_count - s,
        {
            by_scope.push(None);
            s = s + 1;
        }
        let mut i: usize = 0;
        while i < defs.len()
            invariant
                i <= defs.len(),
                by_scope@.len() == scope_count,
                forall|k: int| 0 <= k < scope_count ==> #[trigger] by_scope@[k] == last_where(
                    defs@,
                    i as int,
                    |d: SymbolDefinition| is_inferred_callable(d.kind) && d.scope_id == k,
                ),
            decreases defs.len() - i,
        {
            let d = &defs[i];
            if (d.kind == SymbolKind::ScriptedEffect || d.kind == SymbolKind::ScriptedTrigger)
                && d.scope_id < by_scope.len() {
                by_scope.set(d.scope_id, Some(i));
            }
            i = i + 1;
        }
        CallableScopeMap { by_scope }
    }

    pub fn get(&self, defs: &Vec<SymbolDefinition>, sid: usize) -> (r: Option<usize>)
        requires
            self.describes(defs@),
        ensures
            r == callable_at(defs@, sid as int),
    {
        if sid < self.by_scope.len() {
            return self.by_scope[sid];
        }
        let mut i: usize = defs.len();
        while i > 0
            invariant
                i <= defs.len(),
                callable_at(defs@, sid as int) == last_where(
                    defs@,
                    i as int,
                    |d: SymbolDefinition| is_inferred_callable(d.kind) && d.scope_id == sid,
                ),
            decreases i,
        {
            let d = &defs[i - 1];
            if (d.kind == SymbolKind::ScriptedEffect || d.kind == SymbolKind::ScriptedTrigger)
                && d.scope_id == sid {
                return Some(i - 1);
            }
            i = i - 1;
        }
        None
    }
}

/// The mask of the type of `THIS` in scope `sid`: the first of the scope
/// and its ancestors whose type is known, or whose body belongs to a
/// scripted effect or trigger with a mask inferred so far.
pub open spec fn effective_mask(s: Seq<ScopeNode>, defs: Seq<SymbolDefinition>, masks: Seq<u8>, sid: int) -> u8
    decreases sid,
{
    if !(0 <= sid < s.len()) {
        0
    } else if s[sid].this_type != ScopeType::Unknown {
        mask_of(s[sid].this_type)
    } else if callable_at(defs, sid) is Some && mask_at(masks, callable_at(defs, sid)->0) != 0 {
        mask_at(masks, callable_at(defs, sid)->0)
    } else {
        match s[sid].parent {
            Some(p) => if p < sid {
                effective_mask(s, defs, masks, p as int)
            } else {
                0
            },
            None => 0,
        }
    }
}

pub fn effective_scope_mask_with_overrides(
    tree: &ScopeTree,
    defs: &Vec<SymbolDefinition>,
    map: &CallableScopeMap,
    masks: &Vec<u8>,
    scope_id: usize,
) -> (r: u8)
    requires
        map.describes(defs@),
    ensures
        r == effective_mask(tree@, defs@, masks@, scope_id as int),
{
    let scopes = tree.scopes();
    let mut current = scope_id;
    loop
        invariant
            scopes@ == tree@,
            tree_wf(tree@),
            map.describes(defs@),
            effective_mask(tree@, defs@, masks@, current as int) == effective_mask(
                tree@,
                defs@,
                masks@,
                scope_id as int,
            ),
        decreases current,
    {
        if current >= scopes.len() {
            return 0;
        }
        let node = &scopes[current];
        if node.this_type != ScopeType::Unknown {
            return scope_type_mask(node.this_type);
        }
        match map.get(defs, current) {
            Some(d) => {
                if d < masks.len() && masks[d] != 0 {
                    return masks[d];
                }
            },
            None => {},
        }
        match node.parent {
            Some(p) => {
                current = p;
            },
            None => {
                return 0;
            },
        }
    }
}

/// The mask that the scope name `alias` stands for in scope `sid`: for
/// `THIS` the scope's known type or its callable's mask; else the name's
/// bound type; else the same from the parent, falling back to the first
/// callable mask met on the way when nothing is bound.
pub open spec fn alias_mask(
    s: Seq<ScopeNode>,
    defs: Seq<SymbolDefinition>,
    masks: Seq<u8>,
    sid: int,
    alias: Seq<char>,
    fallback: u8,
) -> u8
    decreases sid,
{
    if !(0 <= sid < s.len()) {
        fallback
    } else {
        let node = s[sid];
        let callable_mask = if callable_at(defs, sid) is Some {
            mask_at(masks, callable_at(defs, sid)->0)
        } else {
            0u8
        };
        if alias == "THIS"@ && mask_of(node.this_type) != 0 {
            mask_of(node.this_type)
        } else if alias == "THIS"@ && callable_mask != 0 {
            callable_mask
        } else if node.aliases.lookup(alias) is Some && mask_of(node.aliases.lookup(alias)->0) != 0 {
            mask_of(node.aliases.lookup(alias)->0)
        } else {
            let fb = if fallback == 0 && callable_mask != 0 {
                callable_mask
            } else {
                fallback
            };
            match node.parent {
                Some(p) => if p < sid {
                    alias_mask(s, defs, masks, p as int, alias, fb)
                } else {
                    fb
                },
                None => fb,
            }
        }
    }
}

pub fn effective_alias_scope_mask_with_overrides(
    tree: &ScopeTree,
    defs: &Vec<SymbolDefinition>,
    map: &CallableScopeMap,
    masks: &Vec<u8>,
    scope_id: usize,
    alias: &str,
) -> (r: u8)
    requires
        map.describes(defs@),
    ensures
        r == alias_mask(tree@, defs@, masks@, scope_id as int, alias@, 0),
{
    let scopes = tree.scopes();
    let is_this = str_eq(alias, "THIS");
    let mut fallback: u8 = 0;
    let mut current = scope_id;
    loop
        invariant
            scopes@ == tree@,
            tree_wf(tree@),
            map.describes(defs@),
            is_this == (alias@ == "THIS"@),
            alias_mask(tree@, defs@, masks@, current as int, alias@, fallback) == alias_mask(
                tree@,
                defs@,
                masks@,
                scope_id as int,
                alias@,
                0,
            ),
        decreases current,
    {
        if current >= scopes.len() {
            return fallback;
        }
        let node = &scopes[current];
        let callable_mask: u8 = match map.get(defs, current) {
            Some(d) => if d < masks.len() {
                masks[d]
            } else {
                0
            },
            None => 0,
        };
        if is_this {
            let this_mask = scope_type_mask(node.this_type);
            if this_mask != 0 {
                return this_mask;
            }
            if callable_mask != 0 {
                return callable_mask;
            }
        }
        match node.aliases.get(alias) {
            Some(t) => {
                let m = scope_type_mask(t);
                if m != 0 {
                    return m;
                }
            },
            None => {},
        }
        if fallback == 0 && callable_mask != 0 {
            fallback = callable_mask;
        }
        match node.parent {
            Some(p) => {
                current = p;
            },
            None => {
                return fallback;
            },
        }
    }
}

/// The mask of a parameter's value text: a scope name, `owner` (a
/// country), `capital_scope` (a province), a country tag or a province id.
pub open spec fn binding_mask(
    s: Seq<ScopeNode>,
    defs: Seq<SymbolDefinition>,
    masks: Seq<u8>,
    sid: int,
    value: Seq<char>,
) -> u8 {
    let t = trimmed(value, 0, value.len() as int);
    if t.len() == 0 {
        0
    } else if t == "THIS"@ || t == "ROOT"@ || t == "FROM"@ || t == "PREV"@ {
        alias_mask(s, defs, masks, sid, t, 0)
    } else if t == "owner"@ {
        1
    } else if t == "capital_scope"@ {
        2
    } else if is_country_tag(t) {
        1
    } else if parse_u32(t) matches Some(v) && v > 100 {
        2
    } else {
        0
    }
}

pub fn binding_value_scope_mask(
    tree: &ScopeTree,
    defs: &Vec<SymbolDefinition>,
    map: &CallableScopeMap,
    masks: &Vec<u8>,
    scope_id: usize,
    value: &str,
) -> (r: u8)
    requires
        map.describes(defs@),
    ensures
        r == binding_mask(tree@, defs@, masks@, scope_id as int, value@),
{
    let tc = trim_chars(value);
    if tc.len() == 0 {
        return 0;
    }
    let t = string_from_chars(tc.as_slice());
    let text = t.as_str();
    if str_eq(text, "THIS") || str_eq(text, "ROOT") || str_eq(text, "FROM") || str_eq(text, "PREV") {
        return effective_alias_scope_mask_with_overrides(tree, defs, map, masks, scope_id, text);
    }
    if str_eq(text, "owner") {
        return 1;
    }
    if str_eq(text, "capital_scope") {
        return 2;
    }
    if is_country_tag_selector(text) {
        return 1;
    }
    if is_province_id_selector(text) {
        return 2;
    }
    0
}

/// The nearest scripted effect or trigger whose body holds scope `sid`.
pub open spec fn nearest_callable(s: Seq<ScopeNode>, defs: Seq<SymbolDefinition>, sid: int) -> Option<usize>
    decreases sid,
{
    if callable_at(defs, sid) is Some {
        callable_at(defs, sid)
    } else if 0 <= sid < s.len() {
        match s[sid].parent {
            Some(p) => if p < sid {
                nearest_callable(s, defs, p as int)
            } else {
                None
            },
            None => None,
        }
    } else {
        None
    }
}

pub fn nearest_enclosing_callable_definition_index(
    tree: &ScopeTree,
    defs: &Vec<SymbolDefinition>,
    map: &CallableScopeMap,
    scope_id: usize,
) -> (r: Option<usize>)
    requires
        map.describes(defs@),
    ensures
        r == nearest_callable(tree@, defs@, scope_id as int),
{
    let scopes = tree.scopes();
    let mut current = scope_id;
    loop
        invariant
            scopes@ == tree@,
            tree_wf(tree@),
            map.describes(defs@),
            nearest_callable(tree@, defs@, current as int) == nearest_callable(
                tree@,
                defs@,
                scope_id as int,
            ),
        decreases current,
    {
        let found = map.get(defs, current);
        if found.is_some() {
            return found;
        }
        if current >= scopes.len() {
            return None;
        }
        match scopes[current].parent {
            Some(p) => {
                current = p;
            },
            None => {
                return None;
            },
        }
    }
}

/// The nearest enclosing scripted effect, where the nearest enclosing
/// callable is one.
pub open spec fn nearest_scripted_effect(s: Seq<ScopeNode>, defs: Seq<SymbolDefinition>, sid: int) -> Option<
    usize,
> {
    match nearest_callable(s, defs, sid) {
        Some(d) => if d < defs.len() && defs[d as int].kind == SymbolKind::ScriptedEffect {
            Some(d)
        } else {
            None
        },
        None => None,
    }
}

pub fn nearest_enclosing_scripted_effect_definition_index(
    tree: &ScopeTree,
    defs: &Vec<SymbolDefinition>,
    map: &CallableScopeMap,
    scope_id: usize,
) -> (r: Option<usize>)
    requires
        map.describes(defs@),
    ensures
        r == nearest_scripted_effect(tree@, defs@, scope_id as int),
{
    match nearest_enclosing_callable_definition_index(tree, defs, map, scope_id) {
        Some(d) => if d < defs.len() && defs[d].kind == SymbolKind::ScriptedEffect {
            Some(d)
        } else {
            None
        },
        None => None,
    }
}

/// The mask after the bindings `bs` of a call add the masks of the values
/// they give for the scope parameters of the scripted effect `def`.
pub open spec fn merge_bindings(
    s: Seq<ScopeNode>,
    defs: Seq<SymbolDefinition>,
    masks: Seq<u8>,
    sid: int,
    def: SymbolDefinition,
    acc: u8,
    bs: Seq<ParamBinding>,
) -> u8
    decreases bs.len(),
{
    if bs.len() == 0 {
        acc
    } else {
        let prev = merge_bindings(s, defs, masks, sid, def, acc, bs.drop_last());
        let b = bs.last();
        if string_views(def.scope_param_names@).contains(b.name@) {
            prev | binding_mask(s, defs, masks, sid, b.value@)
        } else {
            prev
        }
    }
}

/// The mask of target `d` after a call in scope `r.scope_id` with caller
/// mask `caller`: its mask with the caller's bits, and for a scripted effect
/// the bits of the scope parameters the call gives.
pub open spec fn merged_mask(
    s: Seq<ScopeNode>,
    defs: Seq<SymbolDefinition>,
    masks: Seq<u8>,
    r: SymbolReference,
    caller: u8,
    d: usize,
) -> u8 {
    let base = masks[d as int] | caller;
    if defs[d as int].kind == SymbolKind::ScriptedEffect {
        merge_bindings(s, defs, masks, r.scope_id as int, defs[d as int], base, r.param_bindings@)
    } else {
        base
    }
}

/// The masks after a call merges into each of its targets in turn, and
/// whether any mask changed.
pub open spec fn apply_targets(
    s: Seq<ScopeNode>,
    defs: Seq<SymbolDefinition>,
    masks: Seq<u8>,
    r: SymbolReference,
    caller: u8,
    targets: Seq<usize>,
) -> (Seq<u8>, bool)
    decreases targets.len(),
{
    if targets.len() == 0 {
        (masks, false)
    } else {
        let prev = apply_targets(s, defs, masks, r, caller, targets.drop_last());
        let d = targets.last();
        let merged = merged_mask(s, defs, prev.0, r, caller, d);
        if merged != prev.0[d as int] {
            (prev.0.update(d as int, merged), true)
        } else {
            prev
        }
    }
}

/// One pass over the first `j` references: each call of a scripted effect
/// or trigger from a scope of known type merges that type into the
/// definitions it resolves to.
pub open spec fn apply_refs(
    s: Seq<ScopeNode>,
    defs: Seq<SymbolDefinition>,
    refs: Seq<SymbolReference>,
    masks: Seq<u8>,
    j: int,
) -> (Seq<u8>, bool)
    decreases j,
{
    if j <= 0 {
        (masks, false)
    } else {
        let prev = apply_refs(s, defs, refs, masks, j - 1);
        let r = refs[j - 1];
        if !is_inferred_callable(r.kind) {
            prev
        } else {
            let caller = effective_mask(s, defs, prev.0, r.scope_id as int);
            if caller == 0 {
                prev
            } else {
                let next = apply_targets(
                    s,
                    defs,
                    prev.0,
                    r,
                    caller,
                    resolved_targets(defs, r, r.kind),
                );
                (next.0, prev.1 || next.1)
            }
        }
    }
}

/// The room left for masks to grow: the bits of the two scope types that
/// are not yet set, summed over the masks.
pub open spec fn room(masks: Seq<u8>) -> nat
    decreases masks.len(),
{
    if masks.len() == 0 {
        0
    } else {
        room(masks.drop_last()) + (if masks.last() <= 3 {
            (3 - masks.last()) as nat
        } else {
            0
        })
    }
}

/// Every mask holds only the two scope bits.
pub open spec fn masks_ok(masks: Seq<u8>) -> bool {
    forall|i: int| 0 <= i < masks.len() ==> #[trigger] masks[i] <= 3
}

/// The masks that the passes reach when repeated until one changes nothing.
pub open spec fn run_to_fixpoint(
    s: Seq<ScopeNode>,
    defs: Seq<SymbolDefinition>,
    refs: Seq<SymbolReference>,
    masks: Seq<u8>,
) -> Seq<u8>
    decreases room(masks),
{
    let next = apply_refs(s, defs, refs, masks, refs.len() as int);
    if next.1 && room(next.0) < room(masks) {
        run_to_fixpoint(s, defs, refs, next.0)
    } else {
        masks
    }
}

proof fn lemma_or_bits(a: u8, b: u8)
    requires
        a <= 3,
        b <= 3,
    ensures
        (a | b) <= 3,
        (a | b) >= a,
        (a | b) >= b,
{
    assert((a | b) <= 3 && (a | b) >= a && (a | b) >= b) by (bit_vector)
        requires
            a <= 3,
            b <= 3,
    ;
}

proof fn lemma_room_update(m: Seq<u8>, d: int, v: u8)
    requires
        masks_ok(m),
        0 <= d < m.len(),
        v <= 3,
    ensures
        room(m.update(d, v)) + v == room(m) + m[d],
    decreases m.len(),
{
    let u = m.update(d, v);
    assert(m[d] <= 3);
    assert(room(u) == room(u.drop_last()) + (if u.last() <= 3 {
        (3 - u.last()) as nat
    } else {
        0
    }));
    assert(room(m) == room(m.drop_last()) + (if m.last() <= 3 {
        (3 - m.last()) as nat
    } else {
        0
    }));
    assert(m.last() <= 3);
    if d == m.len() - 1 {
        assert(u.drop_last() =~= m.drop_last());
        assert(u.last() == v);
        assert(m.last() == m[d]);
    } else {
        assert(u.drop_last() =~= m.drop_last().update(d, v));
        assert(u.last() == m.last());
        assert(masks_ok(m.drop_last())) by {
            assert forall|i: int| 0 <= i < m.drop_last().len() implies #[trigger] m.drop_last()[i] <= 3 by {
                assert(m.drop_last()[i] == m[i]);
            }
        }
        lemma_room_update(m.drop_last(), d, v);
    }
}

proof fn lemma_effective_mask_bound(s: Seq<ScopeNode>, defs: Seq<SymbolDefinition>, masks: Seq<u8>, sid: int)
    requires
        masks_ok(masks),
    ensures
        effective_mask(s, defs, masks, sid) <= 3,
    decreases sid,
{
    if 0 <= sid < s.len() {
        if let Some(p) = s[sid].parent {
            if p < sid {
                lemma_effective_mask_bound(s, defs, masks, p as int);
            }
        }
    }
}

proof fn lemma_alias_mask_bound(
    s: Seq<ScopeNode>,
    defs: Seq<SymbolDefinition>,
    masks: Seq<u8>,
    sid: int,
    alias: Seq<char>,
    fallback: u8,
)
    requires
        masks_ok(masks),
        fallback <= 3,
    ensures
        alias_mask(s, defs, masks, sid, alias, fallback) <= 3,
    decreases sid,
{
    if 0 <= sid < s.len() {
        let callable_mask = if callable_at(defs, sid) is Some {
            mask_at(masks, callable_at(defs, sid)->0)
        } else {
            0u8
        };
        let fb = if fallback == 0 && callable_mask != 0 {
            callable_mask
        } else {
            fallback
        };
        if let Some(p) = s[sid].parent {
            if p < sid {
                lemma_alias_mask_bound(s, defs, masks, p as int, alias, fb);
            }
        }
    }
}

proof fn lemma_merge_bindings_bound(
    s: Seq<ScopeNode>,
    defs: Seq<SymbolDefinition>,
    masks: Seq<u8>,
    sid: int,
    def: SymbolDefinition,
    acc: u8,
    bs: Seq<ParamBinding>,
)
    requires
        masks_ok(masks),
        acc <= 3,
    ensures
        merge_bindings(s, defs, masks, sid, def, acc, bs) <= 3,
        merge_bindings(s, defs, masks, sid, def, acc, bs) >= acc,
    decreases bs.len(),
{
    if bs.len() > 0 {
        lemma_merge_bindings_bound(s, defs, masks, sid, def, acc, bs.drop_last());
        let prev = merge_bindings(s, defs, masks, sid, def, acc, bs.drop_last());
        let b = bs.last();
        lemma_alias_mask_bound(s, defs, masks, sid, trimmed(b.value@, 0, b.value@.len() as int), 0);
        let bm = binding_mask(s, defs, masks, sid, b.value@);
        lemma_or_bits(prev, bm);
    }
}

/// A pass over the targets of one call keeps every mask within the two
/// scope bits, only adds bits, and when it reports a change it has used up
/// some room; when it reports none, nothing changed.
proof fn lemma_apply_targets(
    s: Seq<ScopeNode>,
    defs: Seq<SymbolDefinition>,
    masks: Seq<u8>,
    r: SymbolReference,
    caller: u8,
    targets: Seq<usize>,
)
    requires
        masks_ok(masks),
        masks.len() == defs.len(),
        caller <= 3,
        forall|k: int| 0 <= k < targets.len() ==> #[trigger] targets[k] < defs.len(),
    ensures
        ({
            let out = apply_targets(s, defs, masks, r, caller, targets);
            &&& masks_ok(out.0)
            &&& out.0.len() == masks.len()
            &&& room(out.0) <= room(masks)
            &&& out.1 ==> room(out.0) < room(masks)
            &&& !out.1 ==> out.0 == masks
            &&& forall|i: int| 0 <= i < masks.len() ==> #[trigger] out.0[i] >= masks[i]
        }),
    decreases targets.len(),
{
    if targets.len() > 0 {
        lemma_apply_targets(s, defs, masks, r, caller, targets.drop_last());
        let prev = apply_targets(s, defs, masks, r, caller, targets.drop_last());
        let d = targets.last();
        let old_v = prev.0[d as int];
        lemma_or_bits(old_v, caller);
        let base = old_v | caller;
        if defs[d as int].kind == SymbolKind::ScriptedEffect {
            lemma_merge_bindings_bound(
                s,
                defs,
                prev.0,
                r.scope_id as int,
                defs[d as int],
                base,
                r.param_bindings@,
            );
        }
        let merged = merged_mask(s, defs, prev.0, r, caller, d);
        assert(merged >= base && merged <= 3);
        assert(base >= old_v);
        assert(old_v >= masks[d as int]);
        if merged != old_v {
            lemma_room_update(prev.0, d as int, merged);
            let u = prev.0.update(d as int, merged);
            assert(apply_targets(s, defs, masks, r, caller, targets) == (u, true));
            assert forall|i: int| 0 <= i < u.len() implies #[trigger] u[i] <= 3 by {
                if i != d {
                    assert(u[i] == prev.0[i]);
                }
            }
            assert forall|i: int| 0 <= i < masks.len() implies #[trigger] u[i] >= masks[i] by {
                if i != d {
                    assert(u[i] == prev.0[i]);
                    assert(prev.0[i] >= masks[i]);
                }
            }
        } else {
            assert(apply_targets(s, defs, masks, r, caller, targets) == prev);
        }
    }
}

proof fn lemma_apply_refs(
    s: Seq<ScopeNode>,
    defs: Seq<SymbolDefinition>,
    refs: Seq<SymbolReference>,
    masks: Seq<u8>,
    j: int,
)
    requires
        masks_ok(masks),
        masks.len() == defs.len(),
        j <= refs.len(),
    ensures
        ({
            let out = apply_refs(s, defs, refs, masks, j);
            &&& masks_ok(out.0)
            &&& out.0.len() == masks.len()
            &&& room(out.0) <= room(masks)
            &&& out.1 ==> room(out.0) < room(masks)
            &&& !out.1 ==> out.0 == masks
            &&& forall|i: int| 0 <= i < masks.len() ==> #[trigger] out.0[i] >= masks[i]
        }),
    decreases j,
{
    if j > 0 {
        lemma_apply_refs(s, defs, refs, masks, j - 1);
        let prev = apply_refs(s, defs, refs, masks, j - 1);
        let r = refs[j - 1];
        if is_inferred_callable(r.kind) {
            lemma_effective_mask_bound(s, defs, prev.0, r.scope_id as int);
            let caller = effective_mask(s, defs, prev.0, r.scope_id as int);
            if caller != 0 {
                let targets = resolved_targets(defs, r, r.kind);
                lemma_resolved_targets_in_range(defs, r, r.kind);
                lemma_apply_targets(s, defs, prev.0, r, caller, targets);
            }
        }
    }
}

proof fn lemma_indices_where_in_range(defs: Seq<SymbolDefinition>, n: int, p: spec_fn(SymbolDefinition) -> bool)
    requires
        n <= defs.len(),
    ensures
        forall|k: int| 0 <= k < indices_where(defs, n, p).len() ==> #[trigger] indices_where(defs, n, p)[k] < n,
    decreases n,
{
    if n > 0 {
        lemma_indices_where_in_range(defs, n - 1, p);
        let r = indices_where(defs, n - 1, p);
        if p(defs[n - 1]) {
            assert forall|k: int| 0 <= k < r.push((n - 1) as usize).len() implies #[trigger] r.push(
                (n - 1) as usize,
            )[k] < n by {
                if k < r.len() {
                    assert(r.push((n - 1) as usize)[k] == r[k]);
                }
            }
        }
    }
}

proof fn lemma_resolved_targets_in_range(defs: Seq<SymbolDefinition>, r: SymbolReference, kind: SymbolKind)
    ensures
        forall|k: int| 0 <= k < resolved_targets(defs, r, kind).len() ==> #[trigger] resolved_targets(defs, r, kind)[k] < defs.len(),
{
    lemma_indices_where_in_range(defs, defs.len() as int, same_module_match(kind, r));
    lemma_indices_where_in_range(defs, defs.len() as int, any_module_match(kind, r));
}

fn has_scope_param(def: &SymbolDefinition, name: &str) -> (r: bool)
    ensures
        r == string_views(def.scope_param_names@).contains(name@),
{
    let names = &def.scope_param_names;
    let mut i: usize = 0;
    while i < names.len()
        invariant
            i <= names.len(),
            names@ == def.scope_param_names@,
            forall|k: int| 0 <= k < i ==> string_views(names@)[k] != name@,
        decreases names.len() - i,
    {
        if str_eq(names[i].as_str(), name) {
            assert(string_views(names@)[i as int] == name@);
            return true;
        }
        i = i + 1;
    }
    false
}

fn merge_binding_masks(
    tree: &ScopeTree,
    defs: &Vec<SymbolDefinition>,
    map: &CallableScopeMap,
    masks: &Vec<u8>,
    reference: &SymbolReference,
    def_idx: usize,
    acc: u8,
) -> (r: u8)
    requires
        map.describes(defs@),
        def_idx < defs.len(),
        masks_ok(masks@),
        acc <= 3,
    ensures
        r == merge_bindings(
            tree@,
            defs@,
            masks@,
            reference.scope_id as int,
            defs@[def_idx as int],
            acc,
            reference.param_bindings@,
        ),
{
    let bs = &reference.param_bindings;
    let def = &defs[def_idx];
    let mut merged = acc;
    let mut k: usize = 0;
    while k < bs.len()
        invariant
            k <= bs.len(),
            bs@ == reference.param_bindings@,
            map.describes(defs@),
            masks_ok(masks@),
            acc <= 3,
            *def == defs@[def_idx as int],
            merged == merge_bindings(
                tree@,
                defs@,
                masks@,
                reference.scope_id as int,
                *def,
                acc,
                bs@.take(k as int),
            ),
        decreases bs.len() - k,
    {
        assert(bs@.take(k + 1).drop_last() =~= bs@.take(k as int));
        assert(bs@.take(k + 1).last() == bs@[k as int]);
        let b = &bs[k];
        if has_scope_param(def, b.name.as_str()) {
            let bm = binding_value_scope_mask(tree, defs, map, masks, reference.scope_id, b.value.as_str());
            merged = merged | bm;
        }
        k = k + 1;
    }
    assert(bs@.take(bs.len() as int) =~= bs@);
    merged
}

fn apply_call(
    tree: &ScopeTree,
    defs: &Vec<SymbolDefinition>,
    map: &CallableScopeMap,
    masks: &mut Vec<u8>,
    reference: &SymbolReference,
    caller: u8,
    targets: &Vec<usize>,
) -> (changed: bool)
    requires
        map.describes(defs@),
        masks_ok(old(masks)@),
        old(masks)@.len() == defs@.len(),
        caller <= 3,
        forall|k: int| 0 <= k < targets@.len() ==> #[trigger] targets@[k] < defs@.len(),
    ensures
        (final(masks)@, changed) == apply_targets(tree@, defs@, old(masks)@, *reference, caller, targets@),
{
    let mut changed = false;
    let mut k: usize = 0;
    while k < targets.len()
        invariant
            k <= targets.len(),
            map.describes(defs@),
            caller <= 3,
            forall|j: int| 0 <= j < targets@.len() ==> #[trigger] targets@[j] < defs@.len(),
            masks_ok(old(masks)@),
            old(masks)@.len() == defs@.len(),
            (masks@, changed) == apply_targets(tree@, defs@, old(masks)@, *reference, caller, targets@.take(k as int)),
        decreases targets.len() - k,
    {
        proof {
            lemma_apply_targets(tree@, defs@, old(masks)@, *reference, caller, targets@.take(k as int));
        }
        assert(targets@.take(k + 1).drop_last() =~= targets@.take(k as int));
        assert(targets@.take(k + 1).last() == targets@[k as int]);
        let d = targets[k];
        let old_v = masks[d];
        proof {
            lemma_or_bits(old_v, caller);
        }
        let mut merged = old_v | caller;
        if defs[d].kind == SymbolKind::ScriptedEffect {
            merged = merge_binding_masks(tree, defs, map, masks, reference, d, merged);
        }
        if merged != old_v {
            masks.set(d, merged);
            changed = true;
        }
        k = k + 1;
    }
    assert(targets@.take(targets.len() as int) =~= targets@);
    changed
}

fn run_pass(
    tree: &ScopeTree,
    defs: &Vec<SymbolDefinition>,
    refs: &Vec<SymbolReference>,
    map: &CallableScopeMap,
    masks: &mut Vec<u8>,
) -> (changed: bool)
    requires
        map.describes(defs@),
        masks_ok(old(masks)@),
        old(masks)@.len() == defs@.len(),
    ensures
        (final(masks)@, changed) == apply_refs(tree@, defs@, refs@, old(masks)@, refs@.len() as int),
{
    let mut changed = false;
    let mut j: usize = 0;
    while j < refs.len()
        invariant
            j <= refs.len(),
            map.describes(defs@),
            masks_ok(old(masks)@),
            old(masks)@.len() == defs@.len(),
            (masks@, changed) == apply_refs(tree@, defs@, refs@, old(masks)@, j as int),
        decreases refs.len() - j,
    {
        proof {
            lemma_apply_refs(tree@, defs@, refs@, old(masks)@, j as int);
        }
        let r = &refs[j];
        if r.kind == SymbolKind::ScriptedEffect || r.kind == SymbolKind::ScriptedTrigger {
            let caller = effective_scope_mask_with_overrides(tree, defs, map, masks, r.scope_id);
            if caller != 0 {
                proof {
                    lemma_effective_mask_bound(tree@, defs@, masks@, r.scope_id as int);
                    lemma_resolved_targets_in_range(defs@, *r, r.kind);
                }
                let targets = resolve_reference_targets_for_kind(defs, r, r.kind);
                let c = apply_call(tree, defs, map, masks, r, caller, &targets);
                changed = changed || c;
            }
        }
        j = j + 1;
    }
    changed
}

/// The masks that inference starts from: a scripted effect's or trigger's
/// declared type, nothing for other symbols.
pub open spec fn declared_masks(defs: Seq<SymbolDefinition>) -> Seq<u8> {
    Seq::new(
        defs.len(),
        |i: int|
            if is_inferred_callable(defs[i].kind) {
                mask_of(defs[i].declared_this_type)
            } else {
                0u8
            },
    )
}

/// After the passes, each of the first `k` scopes whose type is known lends
/// it to the scripted effect enclosing it, where that effect had no mask
/// after the passes (`fixed`).
pub open spec fn backfill(
    s: Seq<ScopeNode>,
    defs: Seq<SymbolDefinition>,
    fixed: Seq<u8>,
    m: Seq<u8>,
    k: int,
) -> Seq<u8>
    decreases k,
{
    if k <= 0 {
        m
    } else {
        let prev = backfill(s, defs, fixed, m, k - 1);
        let sm = effective_mask(s, defs, prev, k - 1);
        if sm == 0 {
            prev
        } else {
            match nearest_scripted_effect(s, defs, k - 1) {
                Some(d) => if fixed[d as int] == 0 {
                    prev.update(d as int, prev[d as int] | sm)
                } else {
                    prev
                },
                None => prev,
            }
        }
    }
}

/// A scripted trigger that uses `capital_scope` (among the first `k` key
/// usages) is a country trigger.
pub open spec fn capital_step(
    s: Seq<ScopeNode>,
    defs: Seq<SymbolDefinition>,
    usages: Seq<KeyUsage>,
    m: Seq<u8>,
    k: int,
) -> Seq<u8>
    decreases k,
{
    if k <= 0 {
        m
    } else {
        let prev = capital_step(s, defs, usages, m, k - 1);
        let u = usages[k - 1];
        if u.key@ != "capital_scope"@ {
            prev
        } else {
            match nearest_callable(s, defs, u.scope_id as int) {
                Some(d) => if d < defs.len() && defs[d as int].kind == SymbolKind::ScriptedTrigger {
                    prev.update(d as int, prev[d as int] | 1)
                } else {
                    prev
                },
                None => prev,
            }
        }
    }
}

/// The masks that inference gives the definitions.
pub open spec fn inferred_masks(
    s: Seq<ScopeNode>,
    defs: Seq<SymbolDefinition>,
    refs: Seq<SymbolReference>,
    usages: Seq<KeyUsage>,
) -> Seq<u8> {
    let fixed = run_to_fixpoint(s, defs, refs, declared_masks(defs));
    capital_step(s, defs, usages, backfill(s, defs, fixed, fixed, s.len() as int), usages.len() as int)
}

/// A definition with its inferred mask and type set, where it is a
/// scripted effect or trigger.
pub open spec fn with_inferred_this(d: SymbolDefinition, m: u8) -> SymbolDefinition {
    if is_inferred_callable(d.kind) {
        SymbolDefinition { inferred_this_mask: m, inferred_this_type: type_of_mask(m), ..d }
    } else {
        d
    }
}

proof fn lemma_fixpoint_facts(
    s: Seq<ScopeNode>,
    defs: Seq<SymbolDefinition>,
    refs: Seq<SymbolReference>,
    masks: Seq<u8>,
)
    requires
        masks_ok(masks),
        masks.len() == defs.len(),
    ensures
        masks_ok(run_to_fixpoint(s, defs, refs, masks)),
        run_to_fixpoint(s, defs, refs, masks).len() == masks.len(),
        !apply_refs(s, defs, refs, run_to_fixpoint(s, defs, refs, masks), refs.len() as int).1,
        forall|i: int| 0 <= i < masks.len() ==> #[trigger] run_to_fixpoint(s, defs, refs, masks)[i] >= masks[i],
    decreases room(masks),
{
    lemma_apply_refs(s, defs, refs, masks, refs.len() as int);
    let next = apply_refs(s, defs, refs, masks, refs.len() as int);
    if next.1 && room(next.0) < room(masks) {
        lemma_fixpoint_facts(s, defs, refs, next.0);
        let r = run_to_fixpoint(s, defs, refs, next.0);
        assert forall|i: int| 0 <= i < masks.len() implies #[trigger] r[i] >= masks[i] by {
            assert(r[i] >= next.0[i]);
        }
    }
}

proof fn lemma_backfill(
    s: Seq<ScopeNode>,
    defs: Seq<SymbolDefinition>,
    fixed: Seq<u8>,
    m: Seq<u8>,
    k: int,
)
    requires
        masks_ok(m),
        m.len() == defs.len(),
        fixed.len() == defs.len(),
    ensures
        masks_ok(backfill(s, defs, fixed, m, k)),
        backfill(s, defs, fixed, m, k).len() == m.len(),
        forall|i: int| 0 <= i < m.len() ==> #[trigger] backfill(s, defs, fixed, m, k)[i] >= m[i],
    decreases k,
{
    if k > 0 {
        lemma_backfill(s, defs, fixed, m, k - 1);
        let prev = backfill(s, defs, fixed, m, k - 1);
        lemma_effective_mask_bound(s, defs, prev, k - 1);
        let sm = effective_mask(s, defs, prev, k - 1);
        if sm != 0 {
            if let Some(d) = nearest_scripted_effect(s, defs, k - 1) {
                if fixed[d as int] == 0 {
                    lemma_or_bits(prev[d as int], sm);
                    let u = prev.update(d as int, prev[d as int] | sm);
                    assert forall|i: int| 0 <= i < u.len() implies #[trigger] u[i] <= 3 by {
                        if i != d {
                            assert(u[i] == prev[i]);
                        }
                    }
                    assert forall|i: int| 0 <= i < m.len() implies #[trigger] u[i] >= m[i] by {
                        if i != d {
                            assert(u[i] == prev[i]);
                        }
                        assert(prev[i] >= m[i]);
                    }
                }
            }
        }
    }
}

proof fn lemma_capital_step(
    s: Seq<ScopeNode>,
    defs: Seq<SymbolDefinition>,
    usages: Seq<KeyUsage>,
    m: Seq<u8>,
    k: int,
)
    requires
        masks_ok(m),
        m.len() == defs.len(),
        k <= usages.len(),
    ensures
        masks_ok(capital_step(s, defs, usages, m, k)),
        capital_step(s, defs, usages, m, k).len() == m.len(),
        forall|i: int| 0 <= i < m.len() ==> #[trigger] capital_step(s, defs, usages, m, k)[i] >= m[i],
    decreases k,
{
    if k > 0 {
        lemma_capital_step(s, defs, usages, m, k - 1);
        let prev = capital_step(s, defs, usages, m, k - 1);
        let u = usages[k - 1];
        if u.key@ == "capital_scope"@ {
            if let Some(d) = nearest_callable(s, defs, u.scope_id as int) {
                if d < defs.len() && defs[d as int].kind == SymbolKind::ScriptedTrigger {
                    lemma_or_bits(prev[d as int], 1);
                    let w = prev.update(d as int, prev[d as int] | 1);
                    assert forall|i: int| 0 <= i < w.len() implies #[trigger] w[i] <= 3 by {
                        if i != d {
                            assert(w[i] == prev[i]);
                        }
                    }
                    assert forall|i: int| 0 <= i < m.len() implies #[trigger] w[i] >= m[i] by {
                        if i != d {
                            assert(w[i] == prev[i]);
                        }
                        assert(prev[i] >= m[i]);
                    }
                }
            }
        }
    }
}

fn set_inferred_this(defs: &mut Vec<SymbolDefinition>, masks: &Vec<u8>)
    requires
        masks@.len() == old(defs)@.len(),
    ensures
        final(defs)@.len() == old(defs)@.len(),
        forall|i: int|
            0 <= i < old(defs)@.len() ==> #[trigger] final(defs)@[i] == with_inferred_this(
                old(defs)@[i],
                masks@[i],
            ),
{
    let ghost original = defs@;
    let n = defs.len();
    let mut reversed: Vec<SymbolDefinition> = Vec::new();
    while defs.len() > 0
        invariant
            n == original.len(),
            masks@.len() == n,
            defs@ == original.take(defs@.len() as int),
            reversed@.len() + defs@.len() == n,
            forall|j: int|
                0 <= j < reversed@.len() ==> #[trigger] reversed@[j] == with_inferred_this(
                    original[n - 1 - j],
                    masks@[n - 1 - j],
                ),
        decreases defs@.len(),
    {
        let ghost before = defs@;
        let mut d = defs.pop().unwrap();
        let i = defs.len();
        assert(d == original[i as int]);
        assert(defs@ =~= original.take(i as int));
        if d.kind == SymbolKind::ScriptedEffect || d.kind == SymbolKind::ScriptedTrigger {
            let m = masks[i];
            d.inferred_this_mask = m;
            d.inferred_this_type = scope_type_from_mask(m);
        }
        assert(d == with_inferred_this(original[i as int], masks@[i as int]));
        reversed.push(d);
    }
    while reversed.len() > 0
        invariant
            n == original.len(),
            masks@.len() == n,
            reversed@.len() + defs@.len() == n,
            forall|j: int|
                0 <= j < reversed@.len() ==> #[trigger] reversed@[j] == with_inferred_this(
                    original[n - 1 - j],
                    masks@[n - 1 - j],
                ),
            forall|i: int|
                0 <= i < defs@.len() ==> #[trigger] defs@[i] == with_inferred_this(
                    original[i],
                    masks@[i],
                ),
        decreases reversed@.len(),
    {
        let d = reversed.pop().unwrap();
        let ghost i = defs@.len();
        defs.push(d);
        assert(defs@[i as int] == with_inferred_this(original[i as int], masks@[i as int]));
    }
}

/// Infers the type of `THIS` in the scripted effects and triggers from the
/// scopes they are called from: the passes carry each caller's type into
/// the definitions the call resolves to (and, for scripted effects, the
/// types of the scope parameters it gives) until nothing changes; then an
/// effect left without a type takes the known types of scopes inside it,
/// and a trigger that uses `capital_scope` is a country trigger.
pub fn infer_definition_scope_from_references(index: &mut SymbolIndex)
    ensures
        final(index).scopes@ == old(index).scopes@,
        final(index).references@ == old(index).references@,
        final(index).key_usages@ == old(index).key_usages@,
        final(index).definitions@.len() == old(index).definitions@.len(),
        forall|i: int|
            0 <= i < old(index).definitions@.len() ==> #[trigger] final(index).definitions@[i]
                == with_inferred_this(
                old(index).definitions@[i],
                inferred_masks(
                    old(index).scopes@,
                    old(index).definitions@,
                    old(index).references@,
                    old(index).key_usages@,
                )[i],
            ),
{
    let tree = &index.scopes;
    let defs = &index.definitions;
    let refs = &index.references;
    let usages = &index.key_usages;
    let map = CallableScopeMap::build(defs, tree.len());
    let mut masks: Vec<u8> = Vec::new();
    let mut i: usize = 0;
    while i < defs.len()
        invariant
            i <= defs.len(),
            masks@ == declared_masks(defs@).take(i as int),
        decreases defs.len() - i,
    {
        let d = &defs[i];
        let m = if d.kind == SymbolKind::ScriptedEffect || d.kind == SymbolKind::ScriptedTrigger {
            scope_type_mask(d.declared_this_type)
        } else {
            0
        };
        masks.push(m);
        i = i + 1;
        assert(masks@ =~= declared_masks(defs@).take(i as int));
    }
    assert(masks@ =~= declared_masks(defs@));
    let ghost init = masks@;
    assert(masks_ok(init));
    let mut changed = true;
    while changed
        invariant
            map.describes(defs@),
            masks_ok(masks@),
            masks@.len() == defs@.len(),
            init == declared_masks(defs@),
            changed ==> run_to_fixpoint(tree@, defs@, refs@, masks@) == run_to_fixpoint(
                tree@,
                defs@,
                refs@,
                init,
            ),
            !changed ==> masks@ == run_to_fixpoint(tree@, defs@, refs@, init),
        decreases room(masks@), if changed {
            1int
        } else {
            0int
        },
    {
        let ghost before = masks@;
        proof {
            lemma_apply_refs(tree@, defs@, refs@, before, refs@.len() as int);
        }
        changed = run_pass(tree, defs, refs, &map, &mut masks);
    }
    let ghost fixed = masks@;
    proof {
        lemma_fixpoint_facts(tree@, defs@, refs@, init);
    }
    let mut candidates: Vec<bool> = Vec::new();
    let mut i: usize = 0;
    while i < defs.len()
        invariant
            i <= defs.len(),
            masks@ == fixed,
            fixed.len() == defs@.len(),
            candidates@.len() == i,
            forall|k: int| 0 <= k < i ==> #[trigger] candidates@[k] == (fixed[k] == 0),
        decreases defs.len() - i,
    {
        candidates.push(masks[i] == 0);
        i = i + 1;
    }
    let mut sid: usize = 0;
    while sid < tree.len()
        invariant
            sid <= tree@.len(),
            map.describes(defs@),
            masks_ok(fixed),
            fixed.len() == defs@.len(),
            candidates@.len() == defs@.len(),
            forall|k: int| 0 <= k < defs@.len() ==> #[trigger] candidates@[k] == (fixed[k] == 0),
            masks@ == backfill(tree@, defs@, fixed, fixed, sid as int),
        decreases tree@.len() - sid,
    {
        proof {
            lemma_backfill(tree@, defs@, fixed, fixed, sid as int);
        }
        let sm = effective_scope_mask_with_overrides(tree, defs, &map, &masks, sid);
        if sm != 0 {
            match nearest_enclosing_scripted_effect_definition_index(tree, defs, &map, sid) {
                Some(d) => {
                    if candidates[d] {
                        let v = masks[d] | sm;
                        masks.set(d, v);
                    }
                },
                None => {},
            }
        }
        sid = sid + 1;
    }
    let ghost filled = masks@;
    proof {
        lemma_backfill(tree@, defs@, fixed, fixed, tree@.len() as int);
    }
    let mut k: usize = 0;
    while k < usages.len()
        invariant
            k <= usages@.len(),
            map.describes(defs@),
            masks_ok(filled),
            filled.len() == defs@.len(),
            masks@ == capital_step(tree@, defs@, usages@, filled, k as int),
        decreases usages@.len() - k,
    {
        proof {
            lemma_capital_step(tree@, defs@, usages@, filled, k as int);
        }
        let u = &usages[k];
        if str_eq(u.key.as_str(), "capital_scope") {
            match nearest_enclosing_callable_definition_index(tree, defs, &map, u.scope_id) {
                Some(d) => {
                    if d < defs.len() && defs[d].kind == SymbolKind::ScriptedTrigger {
                        let v = masks[d] | 1;
                        masks.set(d, v);
                    }
                },
                None => {},
            }
        }
        k = k + 1;
    }
    proof {
        lemma_capital_step(tree@, defs@, usages@, filled, usages@.len() as int);
    }
    set_inferred_this(&mut index.definitions, &masks);
}

/// Scripted effects, scripted triggers and events: the symbols whose `FROM`
/// is inferred from their callers.
pub open spec fn receives_from(k: SymbolKind) -> bool {
    k == SymbolKind::ScriptedEffect || k == SymbolKind::ScriptedTrigger || k == SymbolKind::Event
}

/// The mask of `FROM` at a call in scope `sid`: the first of the scope and
/// its ancestors that binds `FROM` to a known type, or whose body belongs to
/// a callable with a `FROM` mask inferred so far.
pub open spec fn caller_from(s: Seq<ScopeNode>, defs: Seq<SymbolDefinition>, fm: Seq<u8>, sid: int) -> u8
    decreases sid,
{
    if !(0 <= sid < s.len()) {
        0
    } else if s[sid].aliases.from is Some && mask_of(s[sid].aliases.from->0) != 0 {
        mask_of(s[sid].aliases.from->0)
    } else if callable_at(defs, sid) is Some && mask_at(fm, callable_at(defs, sid)->0) != 0 {
        mask_at(fm, callable_at(defs, sid)->0)
    } else {
        match s[sid].parent {
            Some(p) => if p < sid {
                caller_from(s, defs, fm, p as int)
            } else {
                0
            },
            None => 0,
        }
    }
}

/// The definitions a call passes its `FROM` to.
pub open spec fn from_targets(defs: Seq<SymbolDefinition>, r: SymbolReference) -> Seq<usize> {
    if r.kind == SymbolKind::ScriptedEffect || r.kind == SymbolKind::ScriptedTrigger {
        resolved_targets(defs, r, r.kind)
    } else if r.kind == SymbolKind::Event {
        event_targets(defs, r)
    } else {
        Seq::empty()
    }
}

pub open spec fn apply_from_targets(fm: Seq<u8>, caller: u8, targets: Seq<usize>) -> (Seq<u8>, bool)
    decreases targets.len(),
{
    if targets.len() == 0 {
        (fm, false)
    } else {
        let prev = apply_from_targets(fm, caller, targets.drop_last());
        let d = targets.last();
        let merged = prev.0[d as int] | caller;
        if merged != prev.0[d as int] {
            (prev.0.update(d as int, merged), true)
        } else {
            prev
        }
    }
}

pub open spec fn apply_from_refs(
    s: Seq<ScopeNode>,
    defs: Seq<SymbolDefinition>,
    refs: Seq<SymbolReference>,
    fm: Seq<u8>,
    j: int,
) -> (Seq<u8>, bool)
    decreases j,
{
    if j <= 0 {
        (fm, false)
    } else {
        let prev = apply_from_refs(s, defs, refs, fm, j - 1);
        let r = refs[j - 1];
        if !receives_from(r.kind) {
            prev
        } else {
            let caller = caller_from(s, defs, prev.0, r.scope_id as int);
            if caller == 0 {
                prev
            } else {
                let next = apply_from_targets(prev.0, caller, from_targets(defs, r));
                (next.0, prev.1 || next.1)
            }
        }
    }
}

pub open spec fn run_from_fixpoint(
    s: Seq<ScopeNode>,
    defs: Seq<SymbolDefinition>,
    refs: Seq<SymbolReference>,
    fm: Seq<u8>,
) -> Seq<u8>
    decreases room(fm),
{
    let next = apply_from_refs(s, defs, refs, fm, refs.len() as int);
    if next.1 && room(next.0) < room(fm) {
        run_from_fixpoint(s, defs, refs, next.0)
    } else {
        fm
    }
}

/// The `FROM` masks that inference gives the definitions.
pub open spec fn inferred_from_masks(
    s: Seq<ScopeNode>,
    defs: Seq<SymbolDefinition>,
    refs: Seq<SymbolReference>,
) -> Seq<u8> {
    run_from_fixpoint(s, defs, refs, Seq::new(defs.len(), |i: int| 0u8))
}

/// The scopes after the bodies of the first `k` definitions that received
/// a `FROM` bind it, where it is not bound yet.
pub open spec fn bind_from_scopes(s: Seq<ScopeNode>, defs: Seq<SymbolDefinition>, fm: Seq<u8>, k: int) -> Seq<
    ScopeNode,
>
    decreases k,
{
    if k <= 0 {
        s
    } else {
        let prev = bind_from_scopes(s, defs, fm, k - 1);
        let d = defs[k - 1];
        if receives_from(d.kind) && fm[k - 1] != 0 {
            with_from_bound(prev, d.scope_id as int, type_of_mask(fm[k - 1]))
        } else {
            prev
        }
    }
}

/// A definition with its inferred `FROM` mask set, where it receives one.
pub open spec fn with_inferred_from(d: SymbolDefinition, m: u8) -> SymbolDefinition {
    if receives_from(d.kind) {
        SymbolDefinition { inferred_from_mask: m, ..d }
    } else {
        d
    }
}

proof fn lemma_apply_from_targets(fm: Seq<u8>, caller: u8, targets: Seq<usize>)
    requires
        masks_ok(fm),
        caller <= 3,
        forall|k: int| 0 <= k < targets.len() ==> #[trigger] targets[k] < fm.len(),
    ensures
        ({
            let out = apply_from_targets(fm, caller, targets);
            &&& masks_ok(out.0)
            &&& out.0.len() == fm.len()
            &&& room(out.0) <= room(fm)
            &&& out.1 ==> room(out.0) < room(fm)
            &&& !out.1 ==> out.0 == fm
        }),
    decreases targets.len(),
{
    if targets.len() > 0 {
        lemma_apply_from_targets(fm, caller, targets.drop_last());
        let prev = apply_from_targets(fm, caller, targets.drop_last());
        let d = targets.last();
        let old_v = prev.0[d as int];
        lemma_or_bits(old_v, caller);
        let merged = old_v | caller;
        if merged != old_v {
            lemma_room_update(prev.0, d as int, merged);
            let u = prev.0.update(d as int, merged);
            assert forall|i: int| 0 <= i < u.len() implies #[trigger] u[i] <= 3 by {
                if i != d {
                    assert(u[i] == prev.0[i]);
                }
            }
        }
    }
}

proof fn lemma_caller_from_bound(s: Seq<ScopeNode>, defs: Seq<SymbolDefinition>, fm: Seq<u8>, sid: int)
    requires
        masks_ok(fm),
    ensures
        caller_from(s, defs, fm, sid) <= 3,
    decreases sid,
{
    if 0 <= sid < s.len() {
        if let Some(p) = s[sid].parent {
            if p < sid {
                lemma_caller_from_bound(s, defs, fm, p as int);
            }
        }
    }
}

proof fn lemma_event_targets_in_range(defs: Seq<SymbolDefinition>, r: SymbolReference)
    ensures
        forall|k: int| 0 <= k < event_targets(defs, r).len() ==> #[trigger] event_targets(defs, r)[k] < defs.len(),
{
    lemma_indices_where_in_range(
        defs,
        defs.len() as int,
        |d: SymbolDefinition| d.kind == SymbolKind::Event && event_names_match(d.name@, r.name@),
    );
}

proof fn lemma_apply_from_refs(
    s: Seq<ScopeNode>,
    defs: Seq<SymbolDefinition>,
    refs: Seq<SymbolReference>,
    fm: Seq<u8>,
    j: int,
)
    requires
        masks_ok(fm),
        fm.len() == defs.len(),
        j <= refs.len(),
    ensures
        ({
            let out = apply_from_refs(s, defs, refs, fm, j);
            &&& masks_ok(out.0)
            &&& out.0.len() == fm.len()
            &&& room(out.0) <= room(fm)
            &&& out.1 ==> room(out.0) < room(fm)
            &&& !out.1 ==> out.0 == fm
        }),
    decreases j,
{
    if j > 0 {
        lemma_apply_from_refs(s, defs, refs, fm, j - 1);
        let prev = apply_from_refs(s, defs, refs, fm, j - 1);
        let r = refs[j - 1];
        if receives_from(r.kind) {
            lemma_caller_from_bound(s, defs, prev.0, r.scope_id as int);
            let caller = caller_from(s, defs, prev.0, r.scope_id as int);
            if caller != 0 {
                lemma_resolved_targets_in_range(defs, r, r.kind);
                lemma_event_targets_in_range(defs, r);
                lemma_apply_from_targets(prev.0, caller, from_targets(defs, r));
            }
        }
    }
}

fn caller_from_mask_via_chain(
    tree: &ScopeTree,
    defs: &Vec<SymbolDefinition>,
    map: &CallableScopeMap,
    fm: &Vec<u8>,
    scope_id: usize,
) -> (r: u8)
    requires
        map.describes(defs@),
    ensures
        r == caller_from(tree@, defs@, fm@, scope_id as int),
{
    let scopes = tree.scopes();
    let mut current = scope_id;
    loop
        invariant
            scopes@ == tree@,
            tree_wf(tree@),
            map.describes(defs@),
            caller_from(tree@, defs@, fm@, current as int) == caller_from(
                tree@,
                defs@,
                fm@,
                scope_id as int,
            ),
        decreases current,
    {
        if current >= scopes.len() {
            return 0;
        }
        let node = &scopes[current];
        match node.aliases.from {
            Some(t) => {
                let m = scope_type_mask(t);
                if m != 0 {
                    return m;
                }
            },
            None => {},
        }
        match map.get(defs, current) {
            Some(d) => {
                if d < fm.len() && fm[d] != 0 {
                    return fm[d];
                }
            },
            None => {},
        }
        match node.parent {
            Some(p) => {
                current = p;
            },
            None => {
                return 0;
            },
        }
    }
}

fn run_from_pass(
    index: &SymbolIndex,
    map: &CallableScopeMap,
    fm: &mut Vec<u8>,
) -> (changed: bool)
    requires
        map.describes(index.definitions@),
        masks_ok(old(fm)@),
        old(fm)@.len() == index.definitions@.len(),
    ensures
        (final(fm)@, changed) == apply_from_refs(
            index.scopes@,
            index.definitions@,
            index.references@,
            old(fm)@,
            index.references@.len() as int,
        ),
{
    let ghost s = index.scopes@;
    let ghost defs = index.definitions@;
    let refs = &index.references;
    let mut changed = false;
    let mut j: usize = 0;
    while j < refs.len()
        invariant
            j <= refs.len(),
            refs@ == index.references@,
            s == index.scopes@,
            defs == index.definitions@,
            map.describes(defs),
            masks_ok(old(fm)@),
            old(fm)@.len() == defs.len(),
            (fm@, changed) == apply_from_refs(s, defs, refs@, old(fm)@, j as int),
        decreases refs.len() - j,
    {
        proof {
            lemma_apply_from_refs(s, defs, refs@, old(fm)@, j as int);
        }
        let r = &refs[j];
        if r.kind == SymbolKind::ScriptedEffect || r.kind == SymbolKind::ScriptedTrigger || r.kind
            == SymbolKind::Event {
            let caller = caller_from_mask_via_chain(&index.scopes, &index.definitions, map, fm, r.scope_id);
            if caller != 0 {
                proof {
                    lemma_caller_from_bound(s, defs, fm@, r.scope_id as int);
                    lemma_resolved_targets_in_range(defs, *r, r.kind);
                    lemma_event_targets_in_range(defs, *r);
                }
                let targets = if r.kind == SymbolKind::Event {
                    resolve_event_reference_targets(index, r)
                } else {
                    resolve_reference_targets_for_kind(&index.definitions, r, r.kind)
                };
                let ghost start = fm@;
                let mut k: usize = 0;
                while k < targets.len()
                    invariant
                        k <= targets.len(),
                        caller <= 3,
                        masks_ok(start),
                        start.len() == defs.len(),
                        targets@ == from_targets(defs, *r),
                        forall|t: int| 0 <= t < targets@.len() ==> #[trigger] targets@[t] < defs.len(),
                        (fm@, changed) == ({
                            let a = apply_from_targets(start, caller, targets@.take(k as int));
                            (a.0, (apply_from_refs(s, defs, refs@, old(fm)@, j as int).1 || a.1))
                        }),
                    decreases targets.len() - k,
                {
                    proof {
                        lemma_apply_from_targets(start, caller, targets@.take(k as int));
                    }
                    assert(targets@.take(k + 1).drop_last() =~= targets@.take(k as int));
                    assert(targets@.take(k + 1).last() == targets@[k as int]);
                    let d = targets[k];
                    let merged = fm[d] | caller;
                    if merged != fm[d] {
                        fm.set(d, merged);
                        changed = true;
                    }
                    k = k + 1;
                }
                assert(targets@.take(targets.len() as int) =~= targets@);
            }
        }
        j = j + 1;
    }
    changed
}

fn set_inferred_from(defs: &mut Vec<SymbolDefinition>, fm: &Vec<u8>)
    requires
        fm@.len() == old(defs)@.len(),
    ensures
        final(defs)@.len() == old(defs)@.len(),
        forall|i: int|
            0 <= i < old(defs)@.len() ==> #[trigger] final(defs)@[i] == with_inferred_from(
                old(defs)@[i],
                fm@[i],
            ),
{
    let ghost original = defs@;
    let n = defs.len();
    let mut reversed: Vec<SymbolDefinition> = Vec::new();
    while defs.len() > 0
        invariant
            n == original.len(),
            fm@.len() == n,
            defs@ == original.take(defs@.len() as int),
            reversed@.len() + defs@.len() == n,
            forall|j: int|
                0 <= j < reversed@.len() ==> #[trigger] reversed@[j] == with_inferred_from(
                    original[n - 1 - j],
                    fm@[n - 1 - j],
                ),
        decreases defs@.len(),
    {
        let mut d = defs.pop().unwrap();
        let i = defs.len();
        assert(d == original[i as int]);
        assert(defs@ =~= original.take(i as int));
        if d.kind == SymbolKind::ScriptedEffect || d.kind == SymbolKind::ScriptedTrigger || d.kind
            == SymbolKind::Event {
            d.inferred_from_mask = fm[i];
        }
        assert(d == with_inferred_from(original[i as int], fm@[i as int]));
        reversed.push(d);
    }
    while reversed.len() > 0
        invariant
            n == original.len(),
            fm@.len() == n,
            reversed@.len() + defs@.len() == n,
            forall|j: int|
                0 <= j < reversed@.len() ==> #[trigger] reversed@[j] == with_inferred_from(
                    original[n - 1 - j],
                    fm@[n - 1 - j],
                ),
            forall|i: int|
                0 <= i < defs@.len() ==> #[trigger] defs@[i] == with_inferred_from(original[i], fm@[i]),
        decreases reversed@.len(),
    {
        let d = reversed.pop().unwrap();
        let ghost i = defs@.len();
        defs.push(d);
        assert(defs@[i as int] == with_inferred_from(original[i as int], fm@[i as int]));
    }
}

/// Infers `FROM` for scripted effects, scripted triggers and events from
/// their calls: the passes carry the `FROM` known at each call into the
/// definitions the call names until nothing changes; then the body of each
/// definition that received one binds `FROM` where it is not bound yet
/// (the first such definition deciding), and the definitions keep their masks.
pub fn infer_definition_from_mask_from_references(index: &mut SymbolIndex)
    ensures
        final(index).references@ == old(index).references@,
        final(index).key_usages@ == old(index).key_usages@,
        final(index).scopes@ == bind_from_scopes(
            old(index).scopes@,
            old(index).definitions@,
            inferred_from_masks(old(index).scopes@, old(index).definitions@, old(index).references@),
            old(index).definitions@.len() as int,
        ),
        final(index).definitions@.len() == old(index).definitions@.len(),
        forall|i: int|
            0 <= i < old(index).definitions@.len() ==> #[trigger] final(index).definitions@[i]
                == with_inferred_from(
                old(index).definitions@[i],
                inferred_from_masks(old(index).scopes@, old(index).definitions@, old(index).references@)[i],
            ),
{
    let ghost s0 = index.scopes@;
    let ghost defs = index.definitions@;
    let ghost refs = index.references@;
    let ghost usages = index.key_usages@;
    let map = CallableScopeMap::build(&index.definitions, index.scopes.len());
    let mut fm: Vec<u8> = Vec::new();
    let mut i: usize = 0;
    while i < index.definitions.len()
        invariant
            i <= index.definitions@.len(),
            index.key_usages@ == usages,
            index.scopes@ == s0,
            index.definitions@ == defs,
            index.references@ == refs,
            fm@ == Seq::new(index.definitions@.len(), |k: int| 0u8).take(i as int),
        decreases index.definitions@.len() - i,
    {
        fm.push(0);
        i = i + 1;
        assert(fm@ =~= Seq::new(index.definitions@.len(), |k: int| 0u8).take(i as int));
    }
    assert(fm@ =~= Seq::new(defs.len(), |k: int| 0u8));
    let ghost init = fm@;
    let mut changed = true;
    while changed
        invariant
            index.key_usages@ == usages,
            index.scopes@ == s0,
            index.definitions@ == defs,
            index.references@ == refs,
            map.describes(defs),
            masks_ok(fm@),
            fm@.len() == defs.len(),
            changed ==> run_from_fixpoint(s0, defs, refs, fm@) == run_from_fixpoint(s0, defs, refs, init),
            !changed ==> fm@ == run_from_fixpoint(s0, defs, refs, init),
        decreases room(fm@), if changed {
            1int
        } else {
            0int
        },
    {
        let ghost before = fm@;
        proof {
            lemma_apply_from_refs(s0, defs, refs, before, refs.len() as int);
        }
        changed = run_from_pass(index, &map, &mut fm);
    }
    let mut k: usize = 0;
    while k < index.definitions.len()
        invariant
            k <= defs.len(),
            index.key_usages@ == usages,
            index.definitions@ == defs,
            index.references@ == refs,
            fm@ == inferred_from_masks(s0, defs, refs),
            fm@.len() == defs.len(),
            index.scopes@ == bind_from_scopes(s0, defs, fm@, k as int),
        decreases defs.len() - k,
    {
        let kind = index.definitions[k].kind;
        if (kind == SymbolKind::ScriptedEffect || kind == SymbolKind::ScriptedTrigger || kind
            == SymbolKind::Event) && fm[k] != 0 {
            let sid = index.definitions[k].scope_id;
            let t = scope_type_from_mask(fm[k]);
            index.scopes.bind_from_if_unbound(sid, t);
        }
        k = k + 1;
    }
    set_inferred_from(&mut index.definitions, &fm);
}

proof fn lemma_still_targets(
    s: Seq<ScopeNode>,
    defs: Seq<SymbolDefinition>,
    m: Seq<u8>,
    r: SymbolReference,
    caller: u8,
    targets: Seq<usize>,
)
    requires
        masks_ok(m),
        m.len() == defs.len(),
        caller <= 3,
        forall|k: int| 0 <= k < targets.len() ==> #[trigger] targets[k] < defs.len(),
        !apply_targets(s, defs, m, r, caller, targets).1,
    ensures
        forall|k: int| 0 <= k < targets.len() ==> (#[trigger] m[targets[k] as int] | caller) == m[targets[k] as int],
    decreases targets.len(),
{
    if targets.len() > 0 {
        let prev = apply_targets(s, defs, m, r, caller, targets.drop_last());
        lemma_apply_targets(s, defs, m, r, caller, targets.drop_last());
        let d = targets.last();
        let merged = merged_mask(s, defs, prev.0, r, caller, d);
        assert(merged == prev.0[d as int]);
        assert(!prev.1);
        assert(prev.0 == m);
        lemma_still_targets(s, defs, m, r, caller, targets.drop_last());
        lemma_or_bits(m[d as int], caller);
        if defs[d as int].kind == SymbolKind::ScriptedEffect {
            lemma_merge_bindings_bound(
                s,
                defs,
                m,
                r.scope_id as int,
                defs[d as int],
                m[d as int] | caller,
                r.param_bindings@,
            );
        }
        assert forall|k: int| 0 <= k < targets.len() implies (#[trigger] m[targets[k] as int] | caller)
            == m[targets[k] as int] by {
            if k < targets.len() - 1 {
                assert(targets[k] == targets.drop_last()[k]);
            }
        }
    }
}

proof fn lemma_still_refs(
    s: Seq<ScopeNode>,
    defs: Seq<SymbolDefinition>,
    refs: Seq<SymbolReference>,
    m: Seq<u8>,
    j: int,
)
    requires
        masks_ok(m),
        m.len() == defs.len(),
        j <= refs.len(),
        !apply_refs(s, defs, refs, m, j).1,
    ensures
        forall|jj: int, k: int|
            0 <= jj < j && is_inferred_callable(refs[jj].kind) && effective_mask(
                s,
                defs,
                m,
                refs[jj].scope_id as int,
            ) != 0 && 0 <= k < resolved_targets(defs, refs[jj], refs[jj].kind).len() ==> (m[#[trigger] resolved_targets(
                defs,
                refs[jj],
                refs[jj].kind,
            )[k] as int] | effective_mask(s, defs, m, refs[jj].scope_id as int)) == m[resolved_targets(
                defs,
                refs[jj],
                refs[jj].kind,
            )[k] as int],
    decreases j,
{
    if j > 0 {
        lemma_apply_refs(s, defs, refs, m, j - 1);
        let prev = apply_refs(s, defs, refs, m, j - 1);
        assert(!prev.1);
        assert(prev.0 == m);
        lemma_still_refs(s, defs, refs, m, j - 1);
        let r = refs[j - 1];
        if is_inferred_callable(r.kind) {
            lemma_effective_mask_bound(s, defs, m, r.scope_id as int);
            let caller = effective_mask(s, defs, m, r.scope_id as int);
            if caller != 0 {
                lemma_resolved_targets_in_range(defs, r, r.kind);
                lemma_still_targets(s, defs, m, r, caller, resolved_targets(defs, r, r.kind));
            }
        }
    }
}

/// Inference reaches a fixed point at which every definition's mask holds
/// the type of every scope it is called from: for a call of a scripted
/// effect or trigger from a scope of known type, the caller's bits are among
/// the bits of each definition the call resolves to.
pub proof fn lemma_inference_covers_callers(
    s: Seq<ScopeNode>,
    defs: Seq<SymbolDefinition>,
    refs: Seq<SymbolReference>,
    j: int,
    k: int,
)
    requires
        0 <= j < refs.len(),
        is_inferred_callable(refs[j].kind),
        effective_mask(
            s,
            defs,
            run_to_fixpoint(s, defs, refs, declared_masks(defs)),
            refs[j].scope_id as int,
        ) != 0,
        0 <= k < resolved_targets(defs, refs[j], refs[j].kind).len(),
    ensures
        ({
            let fixed = run_to_fixpoint(s, defs, refs, declared_masks(defs));
            let t = resolved_targets(defs, refs[j], refs[j].kind)[k] as int;
            let caller = effective_mask(s, defs, fixed, refs[j].scope_id as int);
            (fixed[t] | caller) == fixed[t]
        }),
{
    let init = declared_masks(defs);
    assert(masks_ok(init));
    lemma_fixpoint_facts(s, defs, refs, init);
    let fixed = run_to_fixpoint(s, defs, refs, init);
    lemma_still_refs(s, defs, refs, fixed, refs.len() as int);
}

proof fn lemma_from_fixpoint_facts(
    s: Seq<ScopeNode>,
    defs: Seq<SymbolDefinition>,
    refs: Seq<SymbolReference>,
    fm: Seq<u8>,
)
    requires
        masks_ok(fm),
        fm.len() == defs.len(),
    ensures
        masks_ok(run_from_fixpoint(s, defs, refs, fm)),
        run_from_fixpoint(s, defs, refs, fm).len() == fm.len(),
        !apply_from_refs(s, defs, refs, run_from_fixpoint(s, defs, refs, fm), refs.len() as int).1,
    decreases room(fm),
{
    lemma_apply_from_refs(s, defs, refs, fm, refs.len() as int);
    let next = apply_from_refs(s, defs, refs, fm, refs.len() as int);
    if next.1 && room(next.0) < room(fm) {
        lemma_from_fixpoint_facts(s, defs, refs, next.0);
    }
}

proof fn lemma_still_from_targets(fm: Seq<u8>, caller: u8, targets: Seq<usize>)
    requires
        masks_ok(fm),
        caller <= 3,
        forall|k: int| 0 <= k < targets.len() ==> #[trigger] targets[k] < fm.len(),
        !apply_from_targets(fm, caller, targets).1,
    ensures
        forall|k: int| 0 <= k < targets.len() ==> (#[trigger] fm[targets[k] as int] | caller) == fm[targets[k] as int],
    decreases targets.len(),
{
    if targets.len() > 0 {
        lemma_apply_from_targets(fm, caller, targets.drop_last());
        lemma_still_from_targets(fm, caller, targets.drop_last());
        assert forall|k: int| 0 <= k < targets.len() implies (#[trigger] fm[targets[k] as int] | caller)
            == fm[targets[k] as int] by {
            if k < targets.len() - 1 {
                assert(targets[k] == targets.drop_last()[k]);
            }
        }
    }
}

proof fn lemma_still_from_refs(
    s: Seq<ScopeNode>,
    defs: Seq<SymbolDefinition>,
    refs: Seq<SymbolReference>,
    fm: Seq<u8>,
    j: int,
)
    requires
        masks_ok(fm),
        fm.len() == defs.len(),
        j <= refs.len(),
        !apply_from_refs(s, defs, refs, fm, j).1,
    ensures
        forall|jj: int, k: int|
            0 <= jj < j && receives_from(refs[jj].kind) && caller_from(
                s,
                defs,
                fm,
                refs[jj].scope_id as int,
            ) != 0 && 0 <= k < from_targets(defs, refs[jj]).len() ==> (fm[#[trigger] from_targets(
                defs,
                refs[jj],
            )[k] as int] | caller_from(s, defs, fm, refs[jj].scope_id as int)) == fm[from_targets(
                defs,
                refs[jj],
            )[k] as int],
    decreases j,
{
    if j > 0 {
        lemma_apply_from_refs(s, defs, refs, fm, j - 1);
        lemma_still_from_refs(s, defs, refs, fm, j - 1);
        let r = refs[j - 1];
        if receives_from(r.kind) {
            lemma_caller_from_bound(s, defs, fm, r.scope_id as int);
            let caller = caller_from(s, defs, fm, r.scope_id as int);
            if caller != 0 {
                lemma_resolved_targets_in_range(defs, r, r.kind);
                lemma_event_targets_in_range(defs, r);
                lemma_still_from_targets(fm, caller, from_targets(defs, r));
            }
        }
    }
}

/// The inferred `FROM` masks cover every call: for a call of a scripted
/// effect, scripted trigger or event from a scope where `FROM` is known,
/// its bits are among the `FROM` bits of each definition the call names.
pub proof fn lemma_from_inference_covers_callers(
    s: Seq<ScopeNode>,
    defs: Seq<SymbolDefinition>,
    refs: Seq<SymbolReference>,
    j: int,
    k: int,
)
    requires
        0 <= j < refs.len(),
        receives_from(refs[j].kind),
        caller_from(s, defs, inferred_from_masks(s, defs, refs), refs[j].scope_id as int) != 0,
        0 <= k < from_targets(defs, refs[j]).len(),
    ensures
        ({
            let fm = inferred_from_masks(s, defs, refs);
            let t = from_targets(defs, refs[j])[k] as int;
            (fm[t] | caller_from(s, defs, fm, refs[j].scope_id as int)) == fm[t]
        }),
{
    let init = Seq::new(defs.len(), |i: int| 0u8);
    assert(masks_ok(init));
    lemma_from_fixpoint_facts(s, defs, refs, init);
    lemma_still_from_refs(s, defs, refs, inferred_from_masks(s, defs, refs), refs.len() as int);
}

} // verus!
