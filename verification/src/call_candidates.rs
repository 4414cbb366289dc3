//! Which keys of a script define a symbol, and which may call a scripted
//! effect or a scripted trigger: the decisions that the semantic index takes
//! for every key it meets while walking a file.

use vstd::prelude::*;
use crate::content_family::ScriptFileKind;
use crate::eu4_builtin::{
    is_builtin_effect, is_builtin_iterator, is_builtin_scope_changer, is_builtin_special_block,
    is_builtin_trigger, is_game_only_candidate, BuiltinGroup, BuiltinLookup,
};
use crate::model::ScopeKind;
use crate::scope_inference::SymbolKind;
use crate::scope_rules::{
    is_country_tag, is_country_tag_selector, is_dynamic_scope_reference_key, is_province_id_selector,
    parse_u32, parse_u32_text,
};
use crate::scope_tree::{
    allows_generic_scripted_effect, effect_context, effect_like, event_scope, in_data_context,
    is_decision_entry, is_mission_slot, is_param_block, kind_at, map_group_scope, ScopeContext,
    ScopeNode, ScopeTree,
};
use crate::semantic_index::{
    is_alias, is_alias_key, is_decision_container, is_decision_container_key, is_keyword,
    is_keyword_name, is_template_param_placeholder_key, template_param,
};
use crate::text::{chars_of, has_prefix, str_eq};

verus! {

/// The symbol that a key at the top of a file of `file_kind` defines.
pub open spec fn top_level_symbol(
    s: Seq<ScopeNode>,
    sid: int,
    file_kind: ScriptFileKind,
    lookup: BuiltinLookup,
    k: Seq<char>,
) -> Option<SymbolKind> {
    if kind_at(s, sid) != ScopeKind::File || is_keyword_name(lookup, k) {
        None
    } else if file_kind == ScriptFileKind::ScriptedEffects {
        Some(SymbolKind::ScriptedEffect)
    } else if file_kind == ScriptFileKind::ScriptedTriggers {
        Some(SymbolKind::ScriptedTrigger)
    } else if file_kind == ScriptFileKind::Decisions {
        if is_decision_container(k) {
            None
        } else {
            Some(SymbolKind::Decision)
        }
    } else if file_kind == ScriptFileKind::DiplomaticActions {
        Some(SymbolKind::DiplomaticAction)
    } else if file_kind == ScriptFileKind::NewDiplomaticActions {
        if k == "static_actions"@ {
            None
        } else {
            Some(SymbolKind::DiplomaticAction)
        }
    } else if file_kind == ScriptFileKind::TriggeredModifiers {
        Some(SymbolKind::TriggeredModifier)
    } else {
        None
    }
}

/// The symbol that a key opening a block in scope `sid` defines: a top-level
/// symbol, or a decision inside a decisions container.
pub open spec fn defined_symbol(
    s: Seq<ScopeNode>,
    sid: int,
    file_kind: ScriptFileKind,
    lookup: BuiltinLookup,
    k: Seq<char>,
) -> Option<SymbolKind> {
    if top_level_symbol(s, sid, file_kind, lookup, k) is Some {
        top_level_symbol(s, sid, file_kind, lookup, k)
    } else if file_kind == ScriptFileKind::Decisions && is_decision_entry(s, sid)
        && !is_keyword_name(lookup, k) {
        Some(SymbolKind::Decision)
    } else {
        None
    }
}

pub fn top_level_symbol_kind(
    tree: &ScopeTree,
    builtins: &BuiltinLookup,
    file_kind: ScriptFileKind,
    key: &str,
    scope_id: usize,
) -> (r: Option<SymbolKind>)
    ensures
        r == top_level_symbol(tree@, scope_id as int, file_kind, *builtins, key@),
{
    if tree.scope_kind(scope_id) != ScopeKind::File || is_keyword(builtins, key) {
        return None;
    }
    match file_kind {
        ScriptFileKind::ScriptedEffects => Some(SymbolKind::ScriptedEffect),
        ScriptFileKind::ScriptedTriggers => Some(SymbolKind::ScriptedTrigger),
        ScriptFileKind::Decisions => if is_decision_container_key(key) {
            None
        } else {
            Some(SymbolKind::Decision)
        },
        ScriptFileKind::DiplomaticActions => Some(SymbolKind::DiplomaticAction),
        ScriptFileKind::NewDiplomaticActions => if str_eq(key, "static_actions") {
            None
        } else {
            Some(SymbolKind::DiplomaticAction)
        },
        ScriptFileKind::TriggeredModifiers => Some(SymbolKind::TriggeredModifier),
        _ => None,
    }
}

pub fn symbol_definition_kind(
    tree: &ScopeTree,
    builtins: &BuiltinLookup,
    file_kind: ScriptFileKind,
    key: &str,
    scope_id: usize,
) -> (r: Option<SymbolKind>)
    ensures
        r == defined_symbol(tree@, scope_id as int, file_kind, *builtins, key@),
{
    let top = top_level_symbol_kind(tree, builtins, file_kind, key, scope_id);
    if top.is_some() {
        return top;
    }
    if file_kind == ScriptFileKind::Decisions && tree.is_decision_entry_scope(scope_id)
        && !is_keyword(builtins, key) {
        return Some(SymbolKind::Decision);
    }
    None
}

/// A key that cannot name a scripted call whatever the scope: a keyword, a
/// scope name, a template or anything holding `$` or `[`, a number, a
/// dynamic scope reference, a province id or a country tag, or a builtin.
pub open spec fn never_a_call(lookup: BuiltinLookup, k: Seq<char>) -> bool {
    ||| is_keyword_name(lookup, k)
    ||| is_alias(k)
    ||| template_param(k) is Some
    ||| k.contains('$')
    ||| k.contains('[')
    ||| parse_u32(k) is Some
    ||| has_prefix(k, "event_target:"@)
    ||| is_country_tag(k)
    ||| lookup.recognises(BuiltinGroup::Effect, k)
    ||| lookup.recognises(BuiltinGroup::Trigger, k)
    ||| lookup.recognises(BuiltinGroup::ScopeChanger, k)
    ||| lookup.recognises(BuiltinGroup::Iterator, k)
    ||| lookup.recognises(BuiltinGroup::SpecialBlock, k)
    ||| lookup.recognises(BuiltinGroup::GameOnly, k)
}

/// A scope where no key calls anything: the file itself, a block of data
/// names, or the parameter block of a call.
pub open spec fn never_calls_in(s: Seq<ScopeNode>, sid: int) -> bool {
    kind_at(s, sid) == ScopeKind::File || in_data_context(s, sid) || is_param_block(s, sid)
}

/// A key in scope `sid` that may call a scripted effect.
pub open spec fn may_call_scripted_effect(
    s: Seq<ScopeNode>,
    sid: int,
    file_kind: ScriptFileKind,
    groups: Set<Seq<char>>,
    lookup: BuiltinLookup,
    k: Seq<char>,
) -> bool {
    &&& !never_a_call(lookup, k)
    &&& !never_calls_in(s, sid)
    &&& effect_context(s, sid, file_kind, groups, k) is None
    &&& !map_group_scope(s, sid, file_kind, groups, k)
    &&& effect_like(s, sid)
    &&& allows_generic_scripted_effect(kind_at(s, sid))
    &&& !(file_kind == ScriptFileKind::Decisions && is_decision_entry(s, sid))
    &&& !(file_kind == ScriptFileKind::Missions && is_mission_slot(s, sid))
}

/// A key in scope `sid` that may call a scripted trigger.
pub open spec fn may_call_scripted_trigger(
    s: Seq<ScopeNode>,
    sid: int,
    file_kind: ScriptFileKind,
    groups: Set<Seq<char>>,
    lookup: BuiltinLookup,
    k: Seq<char>,
) -> bool {
    &&& !never_a_call(lookup, k)
    &&& !never_calls_in(s, sid)
    &&& event_scope(k) is None
    &&& effect_context(s, sid, file_kind, groups, k) is None
    &&& !map_group_scope(s, sid, file_kind, groups, k)
    &&& !effect_like(s, sid)
    &&& !(file_kind == ScriptFileKind::Missions && is_mission_slot(s, sid))
}

fn contains_char(key: &str, c: char) -> (r: bool)
    ensures
        r == key@.contains(c),
{
    let cs = chars_of(key);
    let mut i: usize = 0;
    while i < cs.len()
        invariant
            i <= cs.len(),
            cs@ == key@,
            forall|j: int| 0 <= j < i ==> cs@[j] != c,
        decreases cs.len() - i,
    {
        if cs[i] == c {
            assert(key@[i as int] == c);
            return true;
        }
        i = i + 1;
    }
    false
}

fn is_never_a_call(builtins: &BuiltinLookup, key: &str) -> (r: bool)
    ensures
        r == never_a_call(*builtins, key@),
{
    is_keyword(builtins, key) || is_alias_key(key) || is_template_param_placeholder_key(key)
        || contains_char(key, '$') || contains_char(key, '[') || parse_u32_text(key).is_some()
        || is_dynamic_scope_reference_key(key) || is_country_tag_selector(key) || is_builtin_effect(
        builtins,
        key,
    ) || is_builtin_trigger(builtins, key) || is_builtin_scope_changer(builtins, key)
        || is_builtin_iterator(builtins, key) || is_builtin_special_block(builtins, key)
        || is_game_only_candidate(builtins, key)
}

pub fn is_scripted_effect_call_candidate(tree: &ScopeTree, ctx: &ScopeContext, key: &str, scope_id: usize) -> (r:
    bool)
    ensures
        r == may_call_scripted_effect(
            tree@,
            scope_id as int,
            ctx.file_kind,
            ctx.map_groups@,
            *ctx.builtins,
            key@,
        ),
{
    if is_never_a_call(ctx.builtins, key) {
        return false;
    }
    if tree.scope_kind(scope_id) == ScopeKind::File || tree.is_data_context(scope_id)
        || tree.is_param_block_scope(scope_id) {
        return false;
    }
    if is_province_id_selector(key) {
        return false;
    }
    if tree.effect_context_scope_semantics(ctx, key, scope_id).is_some() {
        return false;
    }
    if tree.is_map_group_scope_key(ctx, key, scope_id) {
        return false;
    }
    if !tree.is_effect_like_scope(scope_id) {
        return false;
    }
    if !tree.is_explicit_effect_context_scope(scope_id) {
        return false;
    }
    if ctx.file_kind == ScriptFileKind::Decisions && tree.is_decision_entry_scope(scope_id) {
        return false;
    }
    if ctx.file_kind == ScriptFileKind::Missions && tree.is_mission_slot_scope(scope_id) {
        return false;
    }
    true
}

pub fn is_scripted_trigger_call_candidate(tree: &ScopeTree, ctx: &ScopeContext, key: &str, scope_id: usize) -> (r:
    bool)
    ensures
        r == may_call_scripted_trigger(
            tree@,
            scope_id as int,
            ctx.file_kind,
            ctx.map_groups@,
            *ctx.builtins,
            key@,
        ),
{
    if is_never_a_call(ctx.builtins, key) {
        return false;
    }
    if tree.scope_kind(scope_id) == ScopeKind::File || tree.is_data_context(scope_id)
        || tree.is_param_block_scope(scope_id) {
        return false;
    }
    if is_province_id_selector(key) {
        return false;
    }
    if str_eq(key, "country_event") || str_eq(key, "province_event") {
        return false;
    }
    if tree.effect_context_scope_semantics(ctx, key, scope_id).is_some() {
        return false;
    }
    if tree.is_map_group_scope_key(ctx, key, scope_id) {
        return false;
    }
    if !tree.is_trigger_like_scope(scope_id) {
        return false;
    }
    if ctx.file_kind == ScriptFileKind::Missions && tree.is_mission_slot_scope(scope_id) {
        return false;
    }
    true
}

/// No key is taken both for a call of a scripted effect and for a call of a
/// scripted trigger: the first needs a scope of effects, the second one of
/// conditions.
pub proof fn lemma_call_candidates_exclusive(
    s: Seq<ScopeNode>,
    sid: int,
    file_kind: ScriptFileKind,
    groups: Set<Seq<char>>,
    lookup: BuiltinLookup,
    k: Seq<char>,
)
    ensures
        !(may_call_scripted_effect(s, sid, file_kind, groups, lookup, k)
            && may_call_scripted_trigger(s, sid, file_kind, groups, lookup, k)),
{
}

} // verus!
