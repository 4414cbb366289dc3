//! The tree of scopes that the semantic index opens while it walks a file.
//! Every block is a scope: it has a kind, the type of object that `THIS`
//! stands for inside it, and the types bound to the scope names `THIS`,
//! `ROOT`, `FROM` and `PREV`. Scopes are numbered in the order they are
//! opened, so a scope's parent always has a smaller number.

use vstd::prelude::*;
use crate::content_family::{ContentFamilyScopePolicy, ScriptFileKind};
use crate::eu4_builtin::{
    is_builtin_iterator, is_builtin_scope_changer, is_builtin_special_block, BuiltinGroup,
    BuiltinLookup,
};
use crate::model::{ScopeKind, ScopeType};
use crate::ordered::{contains_sorted, insert_unique, strictly_sorted, views};
use crate::scope_rules::{
    container_scope_kind, file_kind_container_scope_kind, is_country_tag, is_country_tag_selector,
    is_map_group_like, is_province_id_selector, is_trigger_special_block, iterator_scope,
    iterator_scope_type, looks_like_map_group_key, parse_u32, parse_u32_text,
    scope_changer_target, scope_changer_target_type, special_block_scope_kind,
};
use crate::semantic_index::{is_keyword, is_keyword_name};
use crate::text::{chars_of, has_prefix, str_eq, str_starts_with};

verus! {

/// The scope types bound to the scope names of a script.
#[derive(Clone, Copy, Debug, PartialEq, Eq)]
pub struct ScopeAliases {
    pub this: Option<ScopeType>,
    pub root: Option<ScopeType>,
    pub from: Option<ScopeType>,
    pub prev: Option<ScopeType>,
}

/// No scope name bound.
pub open spec fn no_aliases() -> ScopeAliases {
    ScopeAliases { this: None, root: None, from: None, prev: None }
}

impl ScopeAliases {
    /// The type bound to `name`; only the four scope names can be bound.
    pub open spec fn lookup(self, name: Seq<char>) -> Option<ScopeType> {
        if name == "THIS"@ {
            self.this
        } else if name == "ROOT"@ {
            self.root
        } else if name == "FROM"@ {
            self.from
        } else if name == "PREV"@ {
            self.prev
        } else {
            None
        }
    }

    pub fn empty() -> (r: ScopeAliases)
        ensures
            r == no_aliases(),
    {
        ScopeAliases { this: None, root: None, from: None, prev: None }
    }

    pub fn get(&self, name: &str) -> (r: Option<ScopeType>)
        ensures
            r == self.lookup(name@),
    {
        if str_eq(name, "THIS") {
            self.this
        } else if str_eq(name, "ROOT") {
            self.root
        } else if str_eq(name, "FROM") {
            self.from
        } else if str_eq(name, "PREV") {
            self.prev
        } else {
            None
        }
    }

    pub fn contains_key(&self, name: &str) -> (r: bool)
        ensures
            r == self.lookup(name@) is Some,
    {
        self.get(name).is_some()
    }
}

/// One scope: its number, kind, parent, the type of `THIS`, the bound scope
/// names, and where its block opens.
#[derive(Clone, Debug)]
pub struct ScopeNode {
    pub id: usize,
    pub kind: ScopeKind,
    pub parent: Option<usize>,
    pub this_type: ScopeType,
    pub aliases: ScopeAliases,
    pub mod_id: String,
    pub path: String,
    pub line: usize,
    pub column: usize,
    pub key: String,
}

/// Scope `i` sits at position `i`, and its parent was opened before it.
pub open spec fn tree_wf(s: Seq<ScopeNode>) -> bool {
    forall|i: int|
        #![trigger s[i]]
        0 <= i < s.len() ==> s[i].id == i && (s[i].parent matches Some(p) ==> p < i)
}

/// The kind of scope `id`; `Block` for a number that names no scope.
pub open spec fn kind_at(s: Seq<ScopeNode>, id: int) -> ScopeKind {
    if 0 <= id < s.len() {
        s[id].kind
    } else {
        ScopeKind::Block
    }
}

/// The type of `THIS` in scope `id`; `Unknown` for a number that names no scope.
pub open spec fn this_type_at(s: Seq<ScopeNode>, id: int) -> ScopeType {
    if 0 <= id < s.len() {
        s[id].this_type
    } else {
        ScopeType::Unknown
    }
}

/// The scope names bound in scope `id`; none for a number that names no scope.
pub open spec fn aliases_at(s: Seq<ScopeNode>, id: int) -> ScopeAliases {
    if 0 <= id < s.len() {
        s[id].aliases
    } else {
        no_aliases()
    }
}

/// The number of parents above scope `id`.
pub open spec fn depth_of(s: Seq<ScopeNode>, id: int) -> nat
    decreases id,
{
    if 0 <= id < s.len() {
        match s[id].parent {
            Some(p) => if p < id {
                1 + depth_of(s, p as int)
            } else {
                1
            },
            None => 0,
        }
    } else {
        0
    }
}

/// Scope `id` or one of its ancestors holds conditions.
pub open spec fn under_trigger(s: Seq<ScopeNode>, id: int) -> bool
    decreases id,
{
    if 0 <= id < s.len() {
        if s[id].kind == ScopeKind::Trigger {
            true
        } else {
            match s[id].parent {
                Some(p) => p < id && under_trigger(s, p as int),
                None => false,
            }
        }
    } else {
        false
    }
}

/// A kind that decides whether an `if` holds conditions or effects.
pub open spec fn is_conditional_context(k: ScopeKind) -> bool {
    k == ScopeKind::Trigger || k == ScopeKind::Effect || k == ScopeKind::ScriptedEffect
}

/// The kind of the nearest scope, from `id` upwards, that holds conditions,
/// effects or a scripted effect.
pub open spec fn nearest_conditional(s: Seq<ScopeNode>, id: int) -> Option<ScopeKind>
    decreases id,
{
    if 0 <= id < s.len() {
        if is_conditional_context(s[id].kind) {
            Some(s[id].kind)
        } else {
            match s[id].parent {
                Some(p) => if p < id {
                    nearest_conditional(s, p as int)
                } else {
                    None
                },
                None => None,
            }
        }
    } else {
        None
    }
}

/// Keys whose blocks hold data names (variables, missions, advisor types,
/// defines or parameters) rather than calls.
pub open spec fn is_data_context_key(k: Seq<char>) -> bool {
    k == "check_variable"@ || k == "set_variable"@ || k == "change_variable"@ || k
        == "multiply_variable"@ || k == "divide_variable"@ || k == "subtract_variable"@ || k
        == "export_to_variable"@ || k == "is_variable_equal"@ || k == "had_recent_war"@ || k
        == "required_missions"@ || k == "ME_has_mil_advisor"@ || k == "ME_has_dip_advisor"@ || k
        == "ME_has_adm_advisor"@ || k == "define"@ || k == "defines"@ || k == "who"@ || k
        == "country_event_with_option_insight"@ || k == "complex_dynamic_effect"@ || k
        == "create_general_with_pips"@ || k == "ME_create_flagship"@ || k
        == "ME_legitimacy_or_tribal_allegiance_trigger"@ || k == "NED_faction_is_superior_by"@
        || k == "calc_true_if"@
}

/// Scope `id` or one of its ancestors was opened by a data key.
pub open spec fn in_data_context(s: Seq<ScopeNode>, id: int) -> bool
    decreases id,
{
    if 0 <= id < s.len() {
        if is_data_context_key(s[id].key@) {
            true
        } else {
            match s[id].parent {
                Some(p) => p < id && in_data_context(s, p as int),
                None => false,
            }
        }
    } else {
        false
    }
}

fn is_data_context_key_text(key: &str) -> (r: bool)
    ensures
        r == is_data_context_key(key@),
{
    str_eq(key, "check_variable") || str_eq(key, "set_variable") || str_eq(key, "change_variable")
        || str_eq(key, "multiply_variable") || str_eq(key, "divide_variable") || str_eq(
        key,
        "subtract_variable",
    ) || str_eq(key, "export_to_variable") || str_eq(key, "is_variable_equal") || str_eq(
        key,
        "had_recent_war",
    ) || str_eq(key, "required_missions") || str_eq(key, "ME_has_mil_advisor") || str_eq(
        key,
        "ME_has_dip_advisor",
    ) || str_eq(key, "ME_has_adm_advisor") || str_eq(key, "define") || str_eq(key, "defines")
        || str_eq(key, "who") || str_eq(key, "country_event_with_option_insight") || str_eq(
        key,
        "complex_dynamic_effect",
    ) || str_eq(key, "create_general_with_pips") || str_eq(key, "ME_create_flagship") || str_eq(
        key,
        "ME_legitimacy_or_tribal_allegiance_trigger",
    ) || str_eq(key, "NED_faction_is_superior_by") || str_eq(key, "calc_true_if")
}

/// The scopes opened so far, numbered in the order they were opened.
pub struct ScopeTree {
    scopes: Vec<ScopeNode>,
}

impl View for ScopeTree {
    type V = Seq<ScopeNode>;

    closed spec fn view(&self) -> Seq<ScopeNode> {
        self.scopes@
    }
}

impl ScopeTree {
    #[verifier::type_invariant]
    spec fn well_formed(&self) -> bool {
        tree_wf(self.scopes@)
    }

    pub fn new() -> (r: ScopeTree)
        ensures
            r@.len() == 0,
    {
        ScopeTree { scopes: Vec::new() }
    }

    /// The scopes, in the order they were opened.
    pub fn scopes(&self) -> (r: &Vec<ScopeNode>)
        ensures
            r@ == self@,
            tree_wf(self@),
    {
        proof {
            use_type_invariant(self);
        }
        &self.scopes
    }

    pub fn len(&self) -> (r: usize)
        ensures
            r == self@.len(),
    {
        self.scopes.len()
    }

    /// Opens a scope below `parent` (an existing scope, or none for a file's
    /// root) and returns its number, the number of scopes before it.
    pub fn push_scope(
        &mut self,
        kind: ScopeKind,
        parent: Option<usize>,
        this_type: ScopeType,
        aliases: ScopeAliases,
        mod_id: &str,
        path: &str,
        line: usize,
        key: &str,
    ) -> (id: usize)
        requires
            parent matches Some(p) ==> p < old(self)@.len(),
        ensures
            id == old(self)@.len(),
            final(self)@.len() == old(self)@.len() + 1,
            final(self)@.subrange(0, id as int) == old(self)@,
            final(self)@[id as int].id == id,
            final(self)@[id as int].kind == kind,
            final(self)@[id as int].parent == parent,
            final(self)@[id as int].this_type == this_type,
            final(self)@[id as int].aliases == aliases,
            final(self)@[id as int].mod_id@ == mod_id@,
            final(self)@[id as int].path@ == path@,
            final(self)@[id as int].line == line,
            final(self)@[id as int].column == 1,
            final(self)@[id as int].key@ == key@,
    {
        proof {
            use_type_invariant(&*self);
        }
        let id = self.scopes.len();
        let node = ScopeNode {
            id,
            kind,
            parent,
            this_type,
            aliases,
            mod_id: mod_id.to_owned(),
            path: path.to_owned(),
            line,
            column: 1,
            key: key.to_owned(),
        };
        let mut scopes: Vec<ScopeNode> = Vec::new();
        std::mem::swap(&mut scopes, &mut self.scopes);
        scopes.push(node);
        assert(scopes@.subrange(0, id as int) =~= old(self)@);
        self.scopes = scopes;
        id
    }

    pub fn scope_kind(&self, scope_id: usize) -> (r: ScopeKind)
        ensures
            r == kind_at(self@, scope_id as int),
    {
        if scope_id < self.scopes.len() {
            self.scopes[scope_id].kind
        } else {
            ScopeKind::Block
        }
    }

    pub fn scope_this_type(&self, scope_id: usize) -> (r: ScopeType)
        ensures
            r == this_type_at(self@, scope_id as int),
    {
        if scope_id < self.scopes.len() {
            self.scopes[scope_id].this_type
        } else {
            ScopeType::Unknown
        }
    }

    pub fn scope_aliases(&self, scope_id: usize) -> (r: ScopeAliases)
        ensures
            r == aliases_at(self@, scope_id as int),
    {
        if scope_id < self.scopes.len() {
            self.scopes[scope_id].aliases
        } else {
            ScopeAliases::empty()
        }
    }

    /// The kind of the parent of `scope_id`; none for a root or a number
    /// that names no scope.
    pub fn scope_parent_kind(&self, scope_id: usize) -> (r: Option<ScopeKind>)
        ensures
            r == (if 0 <= scope_id < self@.len() {
                match self@[scope_id as int].parent {
                    Some(p) => Some(kind_at(self@, p as int)),
                    None => None,
                }
            } else {
                None
            }),
    {
        if scope_id >= self.scopes.len() {
            return None;
        }
        match self.scopes[scope_id].parent {
            Some(p) => Some(self.scope_kind(p)),
            None => None,
        }
    }

    pub fn scope_depth(&self, scope_id: usize) -> (r: usize)
        ensures
            r == depth_of(self@, scope_id as int),
    {
        proof {
            use_type_invariant(self);
        }
        proof {
            lemma_depth_bounded(self@, scope_id as int);
        }
        let mut depth: usize = 0;
        let mut current = scope_id;
        loop
            invariant
                tree_wf(self@),
                self.scopes@ == self@,
                depth + depth_of(self@, current as int) == depth_of(self@, scope_id as int),
                depth_of(self@, scope_id as int) <= scope_id,
            decreases current,
        {
            if current >= self.scopes.len() {
                return depth;
            }
            match self.scopes[current].parent {
                Some(parent) => {
                    depth = depth + 1;
                    current = parent;
                },
                None => {
                    return depth;
                },
            }
        }
    }

    pub fn nearest_conditional_context_kind(&self, scope_id: usize) -> (r: Option<ScopeKind>)
        ensures
            r == nearest_conditional(self@, scope_id as int),
    {
        proof {
            use_type_invariant(self);
        }
        let mut current = scope_id;
        loop
            invariant
                tree_wf(self@),
                self.scopes@ == self@,
                nearest_conditional(self@, current as int) == nearest_conditional(
                    self@,
                    scope_id as int,
                ),
            decreases current,
        {
            if current >= self.scopes.len() {
                return None;
            }
            let kind = self.scopes[current].kind;
            if kind == ScopeKind::Trigger || kind == ScopeKind::Effect || kind
                == ScopeKind::ScriptedEffect {
                return Some(kind);
            }
            match self.scopes[current].parent {
                Some(parent) => {
                    current = parent;
                },
                None => {
                    return None;
                },
            }
        }
    }

    pub fn is_under_trigger_scope(&self, scope_id: usize) -> (r: bool)
        ensures
            r == under_trigger(self@, scope_id as int),
    {
        proof {
            use_type_invariant(self);
        }
        let mut current = scope_id;
        loop
            invariant
                tree_wf(self@),
                self.scopes@ == self@,
                under_trigger(self@, current as int) == under_trigger(self@, scope_id as int),
            decreases current,
        {
            if current >= self.scopes.len() {
                return false;
            }
            if self.scopes[current].kind == ScopeKind::Trigger {
                return true;
            }
            match self.scopes[current].parent {
                Some(parent) => {
                    current = parent;
                },
                None => {
                    return false;
                },
            }
        }
    }

    /// Whether `scope_id` or one of its ancestors was opened by a key whose
    /// block holds data names rather than calls.
    pub fn is_data_context(&self, scope_id: usize) -> (r: bool)
        ensures
            r == in_data_context(self@, scope_id as int),
    {
        proof {
            use_type_invariant(self);
        }
        let mut current = scope_id;
        loop
            invariant
                tree_wf(self@),
                self.scopes@ == self@,
                in_data_context(self@, current as int) == in_data_context(
                    self@,
                    scope_id as int,
                ),
            decreases current,
        {
            if current >= self.scopes.len() {
                return false;
            }
            if is_data_context_key_text(self.scopes[current].key.as_str()) {
                return true;
            }
            match self.scopes[current].parent {
                Some(parent) => {
                    current = parent;
                },
                None => {
                    return false;
                },
            }
        }
    }
}

/// A scope's depth is at most its number: each parent has a smaller one.
pub proof fn lemma_depth_bounded(s: Seq<ScopeNode>, id: int)
    requires
        tree_wf(s),
    ensures
        depth_of(s, id) <= (if id < 0 {
            0
        } else {
            id
        }),
    decreases id,
{
    if 0 <= id < s.len() {
        if let Some(p) = s[id].parent {
            assert(s[id].parent matches Some(q) ==> q < id);
            lemma_depth_bounded(s, p as int);
        }
    }
}

/// The province groups (areas, regions, superregions, continents and
/// province groups) that the map files of a mod set define.
pub struct MapGroupLookup {
    province_sets: Vec<Vec<char>>,
}

impl View for MapGroupLookup {
    type V = Set<Seq<char>>;

    closed spec fn view(&self) -> Set<Seq<char>> {
        views(self.province_sets@).to_set()
    }
}

impl MapGroupLookup {
    #[verifier::type_invariant]
    spec fn well_formed(&self) -> bool {
        strictly_sorted(views(self.province_sets@))
    }

    pub fn new() -> (r: MapGroupLookup)
        ensures
            r@ == Set::<Seq<char>>::empty(),
    {
        let r = MapGroupLookup { province_sets: Vec::new() };
        assert(views(r.province_sets@).to_set() =~= Set::<Seq<char>>::empty());
        r
    }

    pub fn insert(&mut self, key: &str)
        ensures
            final(self)@ == old(self)@.insert(key@),
    {
        proof {
            use_type_invariant(&*self);
        }
        let mut sets: Vec<Vec<char>> = Vec::new();
        std::mem::swap(&mut sets, &mut self.province_sets);
        insert_unique(&mut sets, chars_of(key));
        self.province_sets = sets;
        assert(views(self.province_sets@).to_set() =~= old(self)@.insert(key@));
    }

    pub fn contains(&self, key: &str) -> (r: bool)
        ensures
            r == self@.contains(key@),
    {
        proof {
            use_type_invariant(self);
        }
        contains_sorted(&self.province_sets, &chars_of(key))
    }
}

/// What an effect context makes of a block: a container of effects, an
/// iteration over objects of a type, or a move to an object of a type.
#[derive(Clone, Copy, Debug, PartialEq, Eq, Structural)]
pub enum EffectContextScopeSemantics {
    EffectContainer,
    Iterator(ScopeType),
    ScopeChanger(ScopeType),
}

/// The kinds inside which a key may call a scripted effect.
pub open spec fn allows_generic_scripted_effect(k: ScopeKind) -> bool {
    k == ScopeKind::Effect || k == ScopeKind::AliasBlock || k == ScopeKind::Loop || k
        == ScopeKind::ScriptedEffect
}

/// Scope `id` holds effects: neither it nor an ancestor holds conditions.
pub open spec fn effect_like(s: Seq<ScopeNode>, id: int) -> bool {
    kind_at(s, id) != ScopeKind::Trigger && !under_trigger(s, id)
}

/// Scope `id` holds effects and is of a kind in which effects are called.
pub open spec fn explicit_effect_context(s: Seq<ScopeNode>, id: int) -> bool {
    effect_like(s, id) && allows_generic_scripted_effect(kind_at(s, id))
}

/// A number key in an effect context: up to 100 a chance container, above
/// that a province.
pub open spec fn numeric_effect_context(k: Seq<char>) -> Option<EffectContextScopeSemantics> {
    match parse_u32(k) {
        Some(v) => if v <= 100 {
            Some(EffectContextScopeSemantics::EffectContainer)
        } else {
            Some(EffectContextScopeSemantics::ScopeChanger(ScopeType::Province))
        },
        None => None,
    }
}

/// A key below scope `id` that iterates over the provinces of a map group.
pub open spec fn map_group_scope(
    s: Seq<ScopeNode>,
    id: int,
    file_kind: ScriptFileKind,
    groups: Set<Seq<char>>,
    k: Seq<char>,
) -> bool {
    if groups.contains(k) {
        kind_at(s, id) != ScopeKind::File
    } else if explicit_effect_context(s, id) {
        is_map_group_like(k)
    } else {
        (file_kind == ScriptFileKind::Missions || file_kind == ScriptFileKind::CbTypes) && kind_at(
            s,
            id,
        ) != ScopeKind::File && is_map_group_like(k)
    }
}

/// What a key below scope `id` opens when `id` is an effect context.
pub open spec fn effect_context(
    s: Seq<ScopeNode>,
    id: int,
    file_kind: ScriptFileKind,
    groups: Set<Seq<char>>,
    k: Seq<char>,
) -> Option<EffectContextScopeSemantics> {
    if !explicit_effect_context(s, id) {
        None
    } else if k == "random_list"@ {
        Some(EffectContextScopeSemantics::EffectContainer)
    } else if k == "for"@ || k == "while"@ || k == "IF"@ || k == "ELSE_IF"@ || k == "else_if"@
        || k == "ELSE"@ || k == "else"@ {
        Some(EffectContextScopeSemantics::EffectContainer)
    } else if k == "every_country"@ || k == "every_subject_country"@ || k
        == "every_known_country"@ || k == "random_country"@ {
        Some(EffectContextScopeSemantics::Iterator(ScopeType::Country))
    } else if k == "random_owned_province"@ || k == "random_province"@ || k
        == "every_province"@ {
        Some(EffectContextScopeSemantics::Iterator(ScopeType::Province))
    } else if k == "overlord"@ {
        Some(EffectContextScopeSemantics::ScopeChanger(ScopeType::Country))
    } else if numeric_effect_context(k) is Some {
        numeric_effect_context(k)
    } else if is_country_tag(k) {
        Some(EffectContextScopeSemantics::ScopeChanger(ScopeType::Country))
    } else if map_group_scope(s, id, file_kind, groups, k) {
        Some(EffectContextScopeSemantics::Iterator(ScopeType::Province))
    } else {
        None
    }
}

/// The event keys, and the type of `THIS` in their blocks.
pub open spec fn event_scope(k: Seq<char>) -> Option<ScopeType> {
    if k == "country_event"@ {
        Some(ScopeType::Country)
    } else if k == "province_event"@ {
        Some(ScopeType::Province)
    } else {
        None
    }
}

/// The type of `FROM` in an event's block.
pub open spec fn event_from(k: Seq<char>) -> Option<ScopeType> {
    if k == "country_event"@ || k == "province_event"@ {
        Some(ScopeType::Country)
    } else {
        None
    }
}

/// An on-action callback: a key `on_...` at the top of an on-actions file.
pub open spec fn on_actions_root(
    s: Seq<ScopeNode>,
    parent: int,
    file_kind: ScriptFileKind,
    k: Seq<char>,
) -> bool {
    file_kind == ScriptFileKind::OnActions && kind_at(s, parent) == ScopeKind::File && has_prefix(
        k,
        "on_"@,
    )
}

/// The type of `THIS` in an on-action callback: a province for the
/// development callbacks, a country otherwise.
pub open spec fn on_actions_this(k: Seq<char>) -> ScopeType {
    if k == "on_adm_development"@ || k == "on_dip_development"@ || k == "on_mil_development"@ {
        ScopeType::Province
    } else {
        ScopeType::Country
    }
}

/// The aliases with `THIS` bound to `t`.
pub open spec fn with_this(a: ScopeAliases, t: ScopeType) -> ScopeAliases {
    ScopeAliases { this: Some(t), ..a }
}

/// The type that a bound name stands for, `Unknown` where it is not bound.
pub open spec fn bound_or_unknown(t: Option<ScopeType>) -> ScopeType {
    match t {
        Some(t) => t,
        None => ScopeType::Unknown,
    }
}

pub open spec fn is_condition_block_key(k: Seq<char>) -> bool {
    k == "trigger"@ || k == "limit"@ || k == "potential"@ || k == "allow"@ || k == "condition"@
        || k == "hidden_trigger"@
}

pub open spec fn is_effect_block_key(k: Seq<char>) -> bool {
    k == "effect"@ || k == "after"@ || k == "hidden_effect"@ || k == "immediate"@ || k
        == "on_add"@ || k == "on_remove"@ || k == "on_start"@ || k == "on_end"@ || k
        == "on_monthly"@
}

/// The kind, type of `THIS` and bound names of the block that `k` opens
/// below scope `parent`, before the adjustments that depend on the key alone.
pub open spec fn opened_scope(
    s: Seq<ScopeNode>,
    parent: int,
    file_kind: ScriptFileKind,
    groups: Set<Seq<char>>,
    lookup: BuiltinLookup,
    k: Seq<char>,
) -> (ScopeKind, ScopeType, ScopeAliases) {
    let parent_this = this_type_at(s, parent);
    let aliases = ScopeAliases { prev: Some(parent_this), ..aliases_at(s, parent) };
    let semantics = effect_context(s, parent, file_kind, groups, k);
    if on_actions_root(s, parent, file_kind, k) {
        let t = on_actions_this(k);
        (
            ScopeKind::Effect,
            t,
            ScopeAliases {
                this: Some(t),
                root: Some(t),
                from: Some(ScopeType::Country),
                prev: aliases.prev,
            },
        )
    } else if is_condition_block_key(k) {
        (ScopeKind::Trigger, parent_this, aliases)
    } else if is_effect_block_key(k) {
        (ScopeKind::Effect, parent_this, aliases)
    } else if container_scope_kind(file_kind, k) is Some {
        (container_scope_kind(file_kind, k)->0, parent_this, aliases)
    } else if semantics is Some {
        match semantics->0 {
            EffectContextScopeSemantics::EffectContainer => (ScopeKind::Effect, parent_this, aliases),
            EffectContextScopeSemantics::Iterator(t) => (ScopeKind::Loop, t, with_this(aliases, t)),
            EffectContextScopeSemantics::ScopeChanger(t) => (
                ScopeKind::AliasBlock,
                t,
                with_this(aliases, t),
            ),
        }
    } else if (parse_u32(k) matches Some(v) && v > 100) && kind_at(s, parent) != ScopeKind::File {
        (ScopeKind::AliasBlock, ScopeType::Province, with_this(aliases, ScopeType::Province))
    } else if map_group_scope(s, parent, file_kind, groups, k) {
        (ScopeKind::Loop, ScopeType::Province, with_this(aliases, ScopeType::Province))
    } else if lookup.recognises(BuiltinGroup::SpecialBlock, k) {
        (
            if is_trigger_special_block(k) {
                ScopeKind::Trigger
            } else {
                ScopeKind::Block
            },
            parent_this,
            aliases,
        )
    } else if lookup.recognises(BuiltinGroup::Iterator, k) {
        let t = match iterator_scope(k) {
            Some(t) => t,
            None => parent_this,
        };
        (ScopeKind::Loop, t, with_this(aliases, t))
    } else if lookup.recognises(BuiltinGroup::ScopeChanger, k) {
        let t = match scope_changer_target(k) {
            Some(t) => t,
            None => parent_this,
        };
        (ScopeKind::AliasBlock, t, with_this(aliases, t))
    } else if k == "every_owned_province"@ {
        (ScopeKind::Loop, ScopeType::Province, with_this(aliases, ScopeType::Province))
    } else if k == "ROOT"@ || k == "THIS"@ || k == "FROM"@ || k == "PREV"@ {
        let t = bound_or_unknown(aliases.lookup(k));
        (ScopeKind::AliasBlock, t, with_this(aliases, t))
    } else if event_scope(k) is Some {
        let t = event_scope(k)->0;
        (
            ScopeKind::Event,
            t,
            ScopeAliases {
                this: Some(t),
                root: Some(t),
                from: if event_from(k) is Some {
                    event_from(k)
                } else {
                    aliases.from
                },
                prev: aliases.prev,
            },
        )
    } else if file_kind == ScriptFileKind::ScriptedTriggers && kind_at(s, parent)
        == ScopeKind::File && !is_keyword_name(lookup, k) {
        (ScopeKind::Trigger, parent_this, aliases)
    } else if file_kind == ScriptFileKind::ScriptedEffects && kind_at(s, parent)
        == ScopeKind::File && !is_keyword_name(lookup, k) {
        (ScopeKind::ScriptedEffect, parent_this, aliases)
    } else {
        (ScopeKind::Block, parent_this, aliases)
    }
}

/// The kind of the block that `k` opens below scope `parent`: that of
/// [`opened_scope`], then `if` and `else` follow the nearest conditional
/// context, the logic keys hold conditions, `option` holds effects, and an
/// event key with contents opens an event.
pub open spec fn opened_kind(
    s: Seq<ScopeNode>,
    parent: int,
    file_kind: ScriptFileKind,
    groups: Set<Seq<char>>,
    lookup: BuiltinLookup,
    k: Seq<char>,
    has_items: bool,
) -> ScopeKind {
    let base = opened_scope(s, parent, file_kind, groups, lookup, k).0;
    let after_if = if k == "if"@ || k == "else"@ {
        if nearest_conditional(s, parent) == Some(ScopeKind::Effect) || nearest_conditional(
            s,
            parent,
        ) == Some(ScopeKind::ScriptedEffect) || effect_context(s, parent, file_kind, groups, k)
            == Some(EffectContextScopeSemantics::EffectContainer) {
            ScopeKind::Effect
        } else {
            ScopeKind::Trigger
        }
    } else {
        base
    };
    let after_logic = if k == "NOT"@ || k == "OR"@ || k == "AND"@ {
        ScopeKind::Trigger
    } else {
        after_if
    };
    let after_option = if k == "option"@ {
        ScopeKind::Effect
    } else {
        after_logic
    };
    if event_scope(k) is Some && has_items {
        ScopeKind::Event
    } else {
        after_option
    }
}

/// Where a file's blocks are read: the mod, the file, the kind of script it
/// holds, the province groups of the mod set, and the builtin names.
pub struct ScopeContext<'a> {
    pub mod_id: &'a str,
    pub path: &'a str,
    pub file_kind: ScriptFileKind,
    pub map_groups: &'a MapGroupLookup,
    pub builtins: &'a BuiltinLookup,
}

pub fn event_scope_type(key: &str) -> (r: Option<ScopeType>)
    ensures
        r == event_scope(key@),
{
    if str_eq(key, "country_event") {
        Some(ScopeType::Country)
    } else if str_eq(key, "province_event") {
        Some(ScopeType::Province)
    } else {
        None
    }
}

pub fn event_from_type(key: &str) -> (r: Option<ScopeType>)
    ensures
        r == event_from(key@),
{
    if str_eq(key, "country_event") || str_eq(key, "province_event") {
        Some(ScopeType::Country)
    } else {
        None
    }
}

fn on_actions_callback_this_type(key: &str) -> (r: ScopeType)
    ensures
        r == on_actions_this(key@),
{
    if str_eq(key, "on_adm_development") || str_eq(key, "on_dip_development") || str_eq(
        key,
        "on_mil_development",
    ) {
        ScopeType::Province
    } else {
        ScopeType::Country
    }
}

fn numeric_effect_context_semantics(key: &str) -> (r: Option<EffectContextScopeSemantics>)
    ensures
        r == numeric_effect_context(key@),
{
    match parse_u32_text(key) {
        Some(value) => if value <= 100 {
            Some(EffectContextScopeSemantics::EffectContainer)
        } else {
            Some(EffectContextScopeSemantics::ScopeChanger(ScopeType::Province))
        },
        None => None,
    }
}

fn allows_generic_scripted_effect_fallback(kind: ScopeKind) -> (r: bool)
    ensures
        r == allows_generic_scripted_effect(kind),
{
    kind == ScopeKind::Effect || kind == ScopeKind::AliasBlock || kind == ScopeKind::Loop || kind
        == ScopeKind::ScriptedEffect
}

fn is_condition_block(key: &str) -> (r: bool)
    ensures
        r == is_condition_block_key(key@),
{
    str_eq(key, "trigger") || str_eq(key, "limit") || str_eq(key, "potential") || str_eq(
        key,
        "allow",
    ) || str_eq(key, "condition") || str_eq(key, "hidden_trigger")
}

fn is_effect_block(key: &str) -> (r: bool)
    ensures
        r == is_effect_block_key(key@),
{
    str_eq(key, "effect") || str_eq(key, "after") || str_eq(key, "hidden_effect") || str_eq(
        key,
        "immediate",
    ) || str_eq(key, "on_add") || str_eq(key, "on_remove") || str_eq(key, "on_start") || str_eq(
        key,
        "on_end",
    ) || str_eq(key, "on_monthly")
}

impl ScopeTree {
    pub fn is_effect_like_scope(&self, scope_id: usize) -> (r: bool)
        ensures
            r == effect_like(self@, scope_id as int),
    {
        if self.scope_kind(scope_id) == ScopeKind::Trigger {
            return false;
        }
        !self.is_under_trigger_scope(scope_id)
    }

    pub fn is_trigger_like_scope(&self, scope_id: usize) -> (r: bool)
        ensures
            r == !effect_like(self@, scope_id as int),
    {
        self.scope_kind(scope_id) == ScopeKind::Trigger || self.is_under_trigger_scope(scope_id)
    }

    pub fn is_explicit_effect_context_scope(&self, scope_id: usize) -> (r: bool)
        ensures
            r == explicit_effect_context(self@, scope_id as int),
    {
        self.is_effect_like_scope(scope_id) && allows_generic_scripted_effect_fallback(
            self.scope_kind(scope_id),
        )
    }

    pub fn is_map_group_scope_key(&self, ctx: &ScopeContext, key: &str, scope_id: usize) -> (r:
        bool)
        ensures
            r == map_group_scope(self@, scope_id as int, ctx.file_kind, ctx.map_groups@, key@),
    {
        if ctx.map_groups.contains(key) {
            return self.scope_kind(scope_id) != ScopeKind::File;
        }
        if self.is_explicit_effect_context_scope(scope_id) {
            return looks_like_map_group_key(key);
        }
        (ctx.file_kind == ScriptFileKind::Missions || ctx.file_kind == ScriptFileKind::CbTypes)
            && self.scope_kind(scope_id) != ScopeKind::File && looks_like_map_group_key(key)
    }

    pub fn effect_context_scope_semantics(&self, ctx: &ScopeContext, key: &str, scope_id: usize) -> (r:
        Option<EffectContextScopeSemantics>)
        ensures
            r == effect_context(self@, scope_id as int, ctx.file_kind, ctx.map_groups@, key@),
    {
        if !self.is_explicit_effect_context_scope(scope_id) {
            return None;
        }
        if str_eq(key, "random_list") {
            return Some(EffectContextScopeSemantics::EffectContainer);
        }
        if str_eq(key, "for") || str_eq(key, "while") || str_eq(key, "IF") || str_eq(key, "ELSE_IF")
            || str_eq(key, "else_if") || str_eq(key, "ELSE") || str_eq(key, "else") {
            return Some(EffectContextScopeSemantics::EffectContainer);
        }
        if str_eq(key, "every_country") || str_eq(key, "every_subject_country") || str_eq(
            key,
            "every_known_country",
        ) || str_eq(key, "random_country") {
            return Some(EffectContextScopeSemantics::Iterator(ScopeType::Country));
        }
        if str_eq(key, "random_owned_province") || str_eq(key, "random_province") || str_eq(
            key,
            "every_province",
        ) {
            return Some(EffectContextScopeSemantics::Iterator(ScopeType::Province));
        }
        if str_eq(key, "overlord") {
            return Some(EffectContextScopeSemantics::ScopeChanger(ScopeType::Country));
        }
        let numeric = numeric_effect_context_semantics(key);
        if numeric.is_some() {
            return numeric;
        }
        if is_country_tag_selector(key) {
            return Some(EffectContextScopeSemantics::ScopeChanger(ScopeType::Country));
        }
        if self.is_map_group_scope_key(ctx, key, scope_id) {
            return Some(EffectContextScopeSemantics::Iterator(ScopeType::Province));
        }
        None
    }

    pub fn is_on_actions_callback_root(
        &self,
        file_kind: ScriptFileKind,
        parent_scope_id: usize,
        key: &str,
    ) -> (r: bool)
        ensures
            r == on_actions_root(self@, parent_scope_id as int, file_kind, key@),
    {
        file_kind == ScriptFileKind::OnActions && self.scope_kind(parent_scope_id)
            == ScopeKind::File && str_starts_with(key, "on_")
    }
}

impl ScopeTree {
    /// Opens the scope of the block that `key` opens below `parent_scope_id`
    /// (a block with contents when `has_items`), and returns its number.
    pub fn create_child_scope(
        &mut self,
        parent_scope_id: usize,
        ctx: &ScopeContext,
        key: &str,
        line: usize,
        has_items: bool,
    ) -> (id: usize)
        requires
            parent_scope_id < old(self)@.len(),
        ensures
            id == old(self)@.len(),
            final(self)@.len() == old(self)@.len() + 1,
            final(self)@.subrange(0, id as int) == old(self)@,
            final(self)@[id as int].kind == opened_kind(
                old(self)@,
                parent_scope_id as int,
                ctx.file_kind,
                ctx.map_groups@,
                *ctx.builtins,
                key@,
                has_items,
            ),
            final(self)@[id as int].this_type == opened_scope(
                old(self)@,
                parent_scope_id as int,
                ctx.file_kind,
                ctx.map_groups@,
                *ctx.builtins,
                key@,
            ).1,
            final(self)@[id as int].aliases == opened_scope(
                old(self)@,
                parent_scope_id as int,
                ctx.file_kind,
                ctx.map_groups@,
                *ctx.builtins,
                key@,
            ).2,
            final(self)@[id as int].parent == Some(parent_scope_id),
            final(self)@[id as int].id == id,
            final(self)@[id as int].mod_id@ == ctx.mod_id@,
            final(self)@[id as int].path@ == ctx.path@,
            final(self)@[id as int].line == line,
            final(self)@[id as int].column == 1,
            final(self)@[id as int].key@ == key@,
    {
        let parent_this = self.scope_this_type(parent_scope_id);
        let mut aliases = self.scope_aliases(parent_scope_id);
        aliases.prev = Some(parent_this);
        let mut this_type = parent_this;
        let mut kind = ScopeKind::Block;
        let enclosing_conditional_context = self.nearest_conditional_context_kind(parent_scope_id);
        let effect_context_semantics = self.effect_context_scope_semantics(
            ctx,
            key,
            parent_scope_id,
        );
        let container_kind = file_kind_container_scope_kind(ctx.file_kind, key);
        if self.is_on_actions_callback_root(ctx.file_kind, parent_scope_id, key) {
            kind = ScopeKind::Effect;
            this_type = on_actions_callback_this_type(key);
            aliases.this = Some(this_type);
            aliases.root = Some(this_type);
            aliases.from = Some(ScopeType::Country);
        } else if is_condition_block(key) {
            kind = ScopeKind::Trigger;
        } else if is_effect_block(key) {
            kind = ScopeKind::Effect;
        } else if container_kind.is_some() {
            kind = container_kind.unwrap();
        } else if effect_context_semantics.is_some() {
            match effect_context_semantics.unwrap() {
                EffectContextScopeSemantics::EffectContainer => {
                    kind = ScopeKind::Effect;
                },
                EffectContextScopeSemantics::Iterator(target) => {
                    kind = ScopeKind::Loop;
                    this_type = target;
                    aliases.this = Some(target);
                },
                EffectContextScopeSemantics::ScopeChanger(target) => {
                    kind = ScopeKind::AliasBlock;
                    this_type = target;
                    aliases.this = Some(target);
                },
            }
        } else if is_province_id_selector(key) && self.scope_kind(parent_scope_id)
            != ScopeKind::File {
            kind = ScopeKind::AliasBlock;
            this_type = ScopeType::Province;
            aliases.this = Some(ScopeType::Province);
        } else if self.is_map_group_scope_key(ctx, key, parent_scope_id) {
            kind = ScopeKind::Loop;
            this_type = ScopeType::Province;
            aliases.this = Some(ScopeType::Province);
        } else if is_builtin_special_block(ctx.builtins, key) {
            kind = special_block_scope_kind(key);
        } else if is_builtin_iterator(ctx.builtins, key) {
            kind = ScopeKind::Loop;
            this_type = match iterator_scope_type(key) {
                Some(t) => t,
                None => this_type,
            };
            aliases.this = Some(this_type);
        } else if is_builtin_scope_changer(ctx.builtins, key) {
            kind = ScopeKind::AliasBlock;
            this_type = match scope_changer_target_type(key) {
                Some(t) => t,
                None => this_type,
            };
            aliases.this = Some(this_type);
        } else if str_eq(key, "every_owned_province") {
            kind = ScopeKind::Loop;
            this_type = ScopeType::Province;
            aliases.this = Some(ScopeType::Province);
        } else if str_eq(key, "ROOT") || str_eq(key, "THIS") || str_eq(key, "FROM") || str_eq(
            key,
            "PREV",
        ) {
            kind = ScopeKind::AliasBlock;
            this_type = match aliases.get(key) {
                Some(t) => t,
                None => ScopeType::Unknown,
            };
            aliases.this = Some(this_type);
        } else if event_scope_type(key).is_some() {
            let event_this_type = event_scope_type(key).unwrap();
            kind = ScopeKind::Event;
            this_type = event_this_type;
            aliases.this = Some(event_this_type);
            aliases.root = Some(event_this_type);
            let from_type = event_from_type(key);
            if from_type.is_some() {
                aliases.from = from_type;
            }
        } else if ctx.file_kind == ScriptFileKind::ScriptedTriggers && self.scope_kind(
            parent_scope_id,
        ) == ScopeKind::File && !is_keyword(ctx.builtins, key) {
            kind = ScopeKind::Trigger;
        } else if ctx.file_kind == ScriptFileKind::ScriptedEffects && self.scope_kind(
            parent_scope_id,
        ) == ScopeKind::File && !is_keyword(ctx.builtins, key) {
            kind = ScopeKind::ScriptedEffect;
        }
        assert(kind == opened_scope(
            self@,
            parent_scope_id as int,
            ctx.file_kind,
            ctx.map_groups@,
            *ctx.builtins,
            key@,
        ).0);
        if str_eq(key, "if") || str_eq(key, "else") {
            let effect_enclosing = match enclosing_conditional_context {
                Some(ScopeKind::Effect) => true,
                Some(ScopeKind::ScriptedEffect) => true,
                _ => false,
            };
            let effect_container = match effect_context_semantics {
                Some(EffectContextScopeSemantics::EffectContainer) => true,
                _ => false,
            };
            if effect_enclosing || effect_container {
                kind = ScopeKind::Effect;
            } else {
                kind = ScopeKind::Trigger;
            }
        }
        if str_eq(key, "NOT") || str_eq(key, "OR") || str_eq(key, "AND") {
            kind = ScopeKind::Trigger;
        }
        if str_eq(key, "option") {
            kind = ScopeKind::Effect;
        }
        if event_scope_type(key).is_some() && has_items {
            kind = ScopeKind::Event;
        }
        self.push_scope(
            kind,
            Some(parent_scope_id),
            this_type,
            aliases,
            ctx.mod_id,
            ctx.path,
            line,
            key,
        )
    }
}

/// Opening scopes never changes what holds of the scopes already open:
/// whether a scope lies under conditions, and its depth, are those of the
/// shorter tree.
pub proof fn lemma_extension_keeps_ancestry(s: Seq<ScopeNode>, t: Seq<ScopeNode>, id: int)
    requires
        tree_wf(t),
        s.len() <= t.len(),
        t.subrange(0, s.len() as int) == s,
        0 <= id < s.len(),
    ensures
        under_trigger(t, id) == under_trigger(s, id),
        depth_of(t, id) == depth_of(s, id),
        nearest_conditional(t, id) == nearest_conditional(s, id),
        in_data_context(t, id) == in_data_context(s, id),
    decreases id,
{
    assert(t[id] == s[id]);
    if let Some(p) = t[id].parent {
        assert(p < id);
        lemma_extension_keeps_ancestry(s, t, p as int);
    }
}

/// A block opened inside a block that holds conditions holds conditions too,
/// and its depth is one more than that of the block it was opened in.
pub proof fn lemma_child_inherits_conditions(s: Seq<ScopeNode>, t: Seq<ScopeNode>, parent: int)
    requires
        tree_wf(t),
        t.len() == s.len() + 1,
        t.subrange(0, s.len() as int) == s,
        0 <= parent < s.len(),
        t[s.len() as int].parent == Some(parent as usize),
    ensures
        under_trigger(s, parent) ==> under_trigger(t, s.len() as int),
        depth_of(t, s.len() as int) == depth_of(s, parent) + 1,
        !effect_like(s, parent) ==> !effect_like(t, s.len() as int),
{
    lemma_extension_keeps_ancestry(s, t, parent);
}

/// Inside a block, `PREV` stands for the type of `THIS` in the block that
/// opened it.
pub proof fn lemma_prev_is_parent_this(
    s: Seq<ScopeNode>,
    parent: int,
    file_kind: ScriptFileKind,
    groups: Set<Seq<char>>,
    lookup: BuiltinLookup,
    k: Seq<char>,
)
    ensures
        opened_scope(s, parent, file_kind, groups, lookup, k).2.prev == Some(
            this_type_at(s, parent),
        ),
{
}

/// Below a block that holds conditions, no key is read as an effect
/// container, an iteration or a move to another object.
pub proof fn lemma_no_effect_context_under_conditions(
    s: Seq<ScopeNode>,
    id: int,
    file_kind: ScriptFileKind,
    groups: Set<Seq<char>>,
    k: Seq<char>,
)
    requires
        under_trigger(s, id),
    ensures
        effect_context(s, id, file_kind, groups, k) is None,
{
}

/// A plain block directly inside a file.
pub open spec fn is_decision_entry(s: Seq<ScopeNode>, id: int) -> bool {
    0 <= id < s.len() && s[id].kind == ScopeKind::Block && (s[id].parent matches Some(p) && kind_at(
        s,
        p as int,
    ) == ScopeKind::File)
}

/// A plain block whose parent is a plain block or the file.
pub open spec fn is_mission_slot(s: Seq<ScopeNode>, id: int) -> bool {
    0 <= id < s.len() && s[id].kind == ScopeKind::Block && (s[id].parent matches Some(p) && p
        < s.len() && (s[p as int].kind == ScopeKind::Block || s[p as int].kind == ScopeKind::File))
}

/// A plain block directly inside a block of conditions, effects, a loop, a
/// scope change or a scripted effect.
pub open spec fn is_param_block(s: Seq<ScopeNode>, id: int) -> bool {
    0 <= id < s.len() && s[id].kind == ScopeKind::Block && (s[id].parent matches Some(p) && {
        let k = kind_at(s, p as int);
        k == ScopeKind::Effect || k == ScopeKind::Trigger || k == ScopeKind::Loop || k
            == ScopeKind::AliasBlock || k == ScopeKind::ScriptedEffect
    })
}

impl ScopeTree {
    /// Opens the root scope of a file whose family has the scope policy
    /// `policy`: `THIS` and `ROOT` stand for its root type, `FROM` for the
    /// policy's `FROM` type where it has one.
    pub fn open_file_scope(
        &mut self,
        policy: ContentFamilyScopePolicy,
        mod_id: &str,
        path: &str,
        line: usize,
    ) -> (id: usize)
        ensures
            id == old(self)@.len(),
            final(self)@.len() == old(self)@.len() + 1,
            final(self)@.subrange(0, id as int) == old(self)@,
            final(self)@[id as int].id == id,
            final(self)@[id as int].kind == ScopeKind::File,
            final(self)@[id as int].parent is None,
            final(self)@[id as int].this_type == policy.root_scope,
            final(self)@[id as int].aliases == (ScopeAliases {
                this: Some(policy.root_scope),
                root: Some(policy.root_scope),
                from: policy.from_alias,
                prev: None,
            }),
            final(self)@[id as int].mod_id@ == mod_id@,
            final(self)@[id as int].path@ == path@,
            final(self)@[id as int].line == line,
            final(self)@[id as int].key@ == Seq::<char>::empty(),
    {
        let aliases = ScopeAliases {
            this: Some(policy.root_scope),
            root: Some(policy.root_scope),
            from: policy.from_alias,
            prev: None,
        };
        let r = self.push_scope(
            ScopeKind::File,
            None,
            policy.root_scope,
            aliases,
            mod_id,
            path,
            line,
            "",
        );
        proof {
            reveal_strlit("");
        }
        r
    }

    /// A plain block directly inside a file: a decision of a decisions file.
    pub fn is_decision_entry_scope(&self, scope_id: usize) -> (r: bool)
        ensures
            r == is_decision_entry(self@, scope_id as int),
    {
        if scope_id >= self.scopes.len() {
            return false;
        }
        if self.scopes[scope_id].kind != ScopeKind::Block {
            return false;
        }
        match self.scopes[scope_id].parent {
            Some(parent) => self.scope_kind(parent) == ScopeKind::File,
            None => false,
        }
    }

    /// A plain block whose parent is a plain block or the file: a mission of
    /// a mission group.
    pub fn is_mission_slot_scope(&self, scope_id: usize) -> (r: bool)
        ensures
            r == is_mission_slot(self@, scope_id as int),
    {
        if scope_id >= self.scopes.len() {
            return false;
        }
        if self.scopes[scope_id].kind != ScopeKind::Block {
            return false;
        }
        match self.scopes[scope_id].parent {
            Some(parent) => {
                if parent >= self.scopes.len() {
                    return false;
                }
                let k = self.scopes[parent].kind;
                k == ScopeKind::Block || k == ScopeKind::File
            },
            None => false,
        }
    }

    /// A plain block directly inside a block of conditions, effects, a loop,
    /// a scope change or a scripted effect: the parameters of a call.
    pub fn is_param_block_scope(&self, scope_id: usize) -> (r: bool)
        ensures
            r == is_param_block(self@, scope_id as int),
    {
        if scope_id >= self.scopes.len() {
            return false;
        }
        if self.scopes[scope_id].kind != ScopeKind::Block {
            return false;
        }
        match self.scopes[scope_id].parent {
            Some(parent) => {
                let k = self.scope_kind(parent);
                k == ScopeKind::Effect || k == ScopeKind::Trigger || k == ScopeKind::Loop || k
                    == ScopeKind::AliasBlock || k == ScopeKind::ScriptedEffect
            },
            None => false,
        }
    }
}

impl ScopeNode {
    /// A copy of the scope.
    pub fn duplicate(&self) -> (r: ScopeNode)
        ensures
            r == *self,
    {
        ScopeNode {
            id: self.id,
            kind: self.kind,
            parent: self.parent,
            this_type: self.this_type,
            aliases: self.aliases,
            mod_id: self.mod_id.clone(),
            path: self.path.clone(),
            line: self.line,
            column: self.column,
            key: self.key.clone(),
        }
    }
}

/// The scopes with `FROM` bound to `t` in scope `sid`, where it is a scope
/// in which `FROM` is not bound yet.
pub open spec fn with_from_bound(s: Seq<ScopeNode>, sid: int, t: ScopeType) -> Seq<ScopeNode> {
    if 0 <= sid < s.len() && s[sid].aliases.from is None {
        s.update(sid, ScopeNode { aliases: ScopeAliases { from: Some(t), ..s[sid].aliases }, ..s[sid] })
    } else {
        s
    }
}

impl ScopeTree {
    /// Binds `FROM` to `t` in scope `scope_id`, unless it is bound there.
    pub fn bind_from_if_unbound(&mut self, scope_id: usize, t: ScopeType)
        ensures
            final(self)@ == with_from_bound(old(self)@, scope_id as int, t),
    {
        proof {
            use_type_invariant(&*self);
        }
        if scope_id >= self.scopes.len() {
            return;
        }
        if self.scopes[scope_id].aliases.from.is_some() {
            return;
        }
        let mut node = self.scopes[scope_id].duplicate();
        node.aliases.from = Some(t);
        let mut scopes: Vec<ScopeNode> = Vec::new();
        std::mem::swap(&mut scopes, &mut self.scopes);
        scopes.set(scope_id, node);
        assert(scopes@ =~= with_from_bound(old(self)@, scope_id as int, t));
        self.scopes = scopes;
    }
}

} // verus!
