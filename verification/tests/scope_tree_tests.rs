use foch_language::call_candidates::{
    is_scripted_effect_call_candidate, is_scripted_trigger_call_candidate,
    symbol_definition_kind, top_level_symbol_kind,
};
use foch_language::content_family::{ContentFamilyScopePolicy, ScriptFileKind};
use foch_language::scope_inference::SymbolKind;
use foch_language::eu4_builtin::{load_lookup, BuiltinCatalog, BuiltinLookup, BuiltinSymbol};
use foch_language::model::{ScopeKind, ScopeType};
use foch_language::parser::parse_clausewitz_content;
use foch_language::scope_tree::{MapGroupLookup, ScopeAliases, ScopeContext, ScopeTree};
use foch_language::semantic_index::{assemble_parsed_script_file, collect_map_groups};

fn strings(items: &[&str]) -> Vec<String> {
    items.iter().map(|s| s.to_string()).collect()
}

fn symbols(items: &[&str]) -> Vec<BuiltinSymbol> {
    items
        .iter()
        .map(|s| BuiltinSymbol {
            name: s.to_string(),
        })
        .collect()
}

fn builtins() -> BuiltinLookup {
    load_lookup(&BuiltinCatalog {
        reserved_keywords: strings(&["potential", "allow", "limit", "if", "else", "AND", "OR"]),
        contextual_keywords: strings(&["hidden_effect", "custom_tooltip"]),
        alias_keywords: strings(&["ROOT", "FROM", "PREV", "THIS"]),
        builtin_triggers: symbols(&["has_country_flag"]),
        builtin_effects: symbols(&["add_country_modifier"]),
        builtin_scope_changers: symbols(&["owner", "capital_scope"]),
        builtin_iterators: symbols(&["all_owned_province", "every_country"]),
        builtin_special_blocks: symbols(&["possible", "visible", "modifier_block"]),
        game_only_candidates: symbols(&[]),
    })
}

fn policy(root: ScopeType, from: Option<ScopeType>) -> ContentFamilyScopePolicy {
    ContentFamilyScopePolicy {
        root_scope: root,
        from_alias: from,
        dynamic_scope: false,
    }
}

#[test]
fn file_scope_binds_root_and_this() {
    let mut tree = ScopeTree::new();
    let id = tree.open_file_scope(policy(ScopeType::Country, None), "m", "events/a.txt", 1);
    assert_eq!(id, 0);
    let node = &tree.scopes()[0];
    assert_eq!(node.kind, ScopeKind::File);
    assert_eq!(node.this_type, ScopeType::Country);
    assert_eq!(node.parent, None);
    assert_eq!(node.aliases.get("THIS"), Some(ScopeType::Country));
    assert_eq!(node.aliases.get("ROOT"), Some(ScopeType::Country));
    assert_eq!(node.aliases.get("FROM"), None);
    assert_eq!(node.key, "");
}

#[test]
fn event_blocks_and_their_children() {
    let lookup = builtins();
    let groups = MapGroupLookup::new();
    let ctx = ScopeContext {
        mod_id: "m",
        path: "events/a.txt",
        file_kind: ScriptFileKind::Events,
        map_groups: &groups,
        builtins: &lookup,
    };
    let mut tree = ScopeTree::new();
    let root = tree.open_file_scope(policy(ScopeType::Unknown, None), "m", "events/a.txt", 1);
    let event = tree.create_child_scope(root, &ctx, "province_event", 2, true);
    let e = &tree.scopes()[event];
    assert_eq!(e.kind, ScopeKind::Event);
    assert_eq!(e.this_type, ScopeType::Province);
    assert_eq!(e.aliases.get("ROOT"), Some(ScopeType::Province));
    assert_eq!(e.aliases.get("FROM"), Some(ScopeType::Country));
    assert_eq!(e.aliases.get("PREV"), Some(ScopeType::Unknown));
    assert_eq!(e.line, 2);
    assert_eq!(e.column, 1);

    let trigger = tree.create_child_scope(event, &ctx, "trigger", 3, true);
    assert_eq!(tree.scope_kind(trigger), ScopeKind::Trigger);
    let nested_if = tree.create_child_scope(trigger, &ctx, "if", 4, true);
    assert_eq!(tree.scope_kind(nested_if), ScopeKind::Trigger);
    assert!(tree.is_under_trigger_scope(nested_if));

    let immediate = tree.create_child_scope(event, &ctx, "immediate", 5, true);
    assert_eq!(tree.scope_kind(immediate), ScopeKind::Effect);
    assert!(!tree.is_under_trigger_scope(immediate));
    assert!(tree.is_explicit_effect_context_scope(immediate));

    let effect_if = tree.create_child_scope(immediate, &ctx, "if", 6, true);
    assert_eq!(tree.scope_kind(effect_if), ScopeKind::Effect);

    let each = tree.create_child_scope(immediate, &ctx, "every_country", 7, true);
    assert_eq!(tree.scope_kind(each), ScopeKind::Loop);
    assert_eq!(tree.scope_this_type(each), ScopeType::Country);
    assert_eq!(tree.scope_aliases(each).get("THIS"), Some(ScopeType::Country));
    assert_eq!(tree.scope_aliases(each).get("PREV"), Some(ScopeType::Province));

    let tag = tree.create_child_scope(immediate, &ctx, "FRA", 8, true);
    assert_eq!(tree.scope_kind(tag), ScopeKind::AliasBlock);
    assert_eq!(tree.scope_this_type(tag), ScopeType::Country);

    let province = tree.create_child_scope(immediate, &ctx, "150", 9, true);
    assert_eq!(tree.scope_kind(province), ScopeKind::AliasBlock);
    assert_eq!(tree.scope_this_type(province), ScopeType::Province);

    let chance = tree.create_child_scope(immediate, &ctx, "50", 10, true);
    assert_eq!(tree.scope_kind(chance), ScopeKind::Effect);

    let capital = tree.create_child_scope(tag, &ctx, "capital_scope", 11, true);
    assert_eq!(tree.scope_kind(capital), ScopeKind::AliasBlock);
    assert_eq!(tree.scope_this_type(capital), ScopeType::Province);

    let prev = tree.create_child_scope(capital, &ctx, "PREV", 12, true);
    assert_eq!(tree.scope_kind(prev), ScopeKind::AliasBlock);
    assert_eq!(tree.scope_this_type(prev), ScopeType::Province);

    let logic = tree.create_child_scope(immediate, &ctx, "OR", 13, true);
    assert_eq!(tree.scope_kind(logic), ScopeKind::Trigger);

    let option = tree.create_child_scope(event, &ctx, "option", 14, true);
    assert_eq!(tree.scope_kind(option), ScopeKind::Effect);

    let special = tree.create_child_scope(event, &ctx, "possible", 15, true);
    assert_eq!(tree.scope_kind(special), ScopeKind::Trigger);

    assert_eq!(tree.scope_depth(prev), 5);
    assert_eq!(tree.scope_depth(root), 0);
    assert_eq!(tree.scope_parent_kind(each), Some(ScopeKind::Effect));
    assert_eq!(tree.scope_parent_kind(root), None);
    assert_eq!(tree.nearest_conditional_context_kind(prev), Some(ScopeKind::Effect));
    assert_eq!(tree.len(), 15);
}

#[test]
fn scripted_files_and_on_actions() {
    let lookup = builtins();
    let groups = MapGroupLookup::new();
    let triggers = ScopeContext {
        mod_id: "m",
        path: "common/scripted_triggers/t.txt",
        file_kind: ScriptFileKind::ScriptedTriggers,
        map_groups: &groups,
        builtins: &lookup,
    };
    let mut tree = ScopeTree::new();
    let root = tree.open_file_scope(policy(ScopeType::Unknown, None), "m", "t.txt", 1);
    let t = tree.create_child_scope(root, &triggers, "my_trigger", 1, true);
    assert_eq!(tree.scope_kind(t), ScopeKind::Trigger);
    let kw = tree.create_child_scope(root, &triggers, "custom_tooltip", 2, true);
    assert_eq!(tree.scope_kind(kw), ScopeKind::Block);

    let effects = ScopeContext {
        file_kind: ScriptFileKind::ScriptedEffects,
        ..triggers
    };
    let e = tree.create_child_scope(root, &effects, "my_effect", 3, true);
    assert_eq!(tree.scope_kind(e), ScopeKind::ScriptedEffect);
    let nested = tree.create_child_scope(e, &effects, "if", 4, true);
    assert_eq!(tree.scope_kind(nested), ScopeKind::Effect);

    let on_actions = ScopeContext {
        file_kind: ScriptFileKind::OnActions,
        ..triggers
    };
    let dev = tree.create_child_scope(root, &on_actions, "on_adm_development", 5, true);
    assert_eq!(tree.scope_kind(dev), ScopeKind::Effect);
    assert_eq!(tree.scope_this_type(dev), ScopeType::Province);
    assert_eq!(tree.scope_aliases(dev).get("FROM"), Some(ScopeType::Country));
    let startup = tree.create_child_scope(root, &on_actions, "on_startup", 6, true);
    assert_eq!(tree.scope_this_type(startup), ScopeType::Country);
}

#[test]
fn data_context_and_block_shapes() {
    let lookup = builtins();
    let groups = MapGroupLookup::new();
    let ctx = ScopeContext {
        mod_id: "m",
        path: "decisions/d.txt",
        file_kind: ScriptFileKind::Decisions,
        map_groups: &groups,
        builtins: &lookup,
    };
    let mut tree = ScopeTree::new();
    let root = tree.open_file_scope(policy(ScopeType::Country, None), "m", "d.txt", 1);
    let decision = tree.push_scope(
        ScopeKind::Block,
        Some(root),
        ScopeType::Country,
        ScopeAliases::empty(),
        "m",
        "d.txt",
        2,
        "my_decision",
    );
    assert!(tree.is_decision_entry_scope(decision));
    assert!(tree.is_mission_slot_scope(decision));
    assert!(!tree.is_param_block_scope(decision));
    let effect = tree.create_child_scope(decision, &ctx, "effect", 3, true);
    let var = tree.create_child_scope(effect, &ctx, "set_variable", 4, true);
    assert_eq!(tree.scope_kind(var), ScopeKind::Block);
    assert!(tree.is_param_block_scope(var));
    assert!(tree.is_data_context(var));
    assert!(!tree.is_data_context(effect));
    assert!(!tree.is_decision_entry_scope(99));
}

#[test]
fn map_groups_from_area_files() {
    let lookup = builtins();
    let parsed = parse_clausewitz_content(
        "map/area.txt".to_string(),
        "finland_area = { 1 2 }\nlimit = { }\ncolor = 3\n",
    );
    let area = assemble_parsed_script_file(
        "m",
        "/mods/m/map/area.txt".to_string(),
        "map/area.txt".to_string(),
        parsed,
        String::new(),
        false,
    );
    let other = assemble_parsed_script_file(
        "m",
        "/mods/m/events/x.txt".to_string(),
        "events/x.txt".to_string(),
        parse_clausewitz_content("events/x.txt".to_string(), "sweden_area = { 3 }\n"),
        String::new(),
        false,
    );
    assert_eq!(area.file_kind, ScriptFileKind::Other);
    assert_eq!(area.module_name, "area");
    assert!(area.content_family.is_some());
    assert_eq!(other.file_kind, ScriptFileKind::Events);
    let groups = collect_map_groups(&vec![area, other], &lookup);
    assert!(groups.contains("finland_area"));
    assert!(!groups.contains("limit"));
    assert!(!groups.contains("color"));
    assert!(!groups.contains("sweden_area"));

    let ctx = ScopeContext {
        mod_id: "m",
        path: "missions/a.txt",
        file_kind: ScriptFileKind::Missions,
        map_groups: &groups,
        builtins: &lookup,
    };
    let mut tree = ScopeTree::new();
    let root = tree.open_file_scope(policy(ScopeType::Country, None), "m", "a.txt", 1);
    let at_root = tree.create_child_scope(root, &ctx, "finland_area", 1, true);
    assert_eq!(tree.scope_kind(at_root), ScopeKind::Block);
    let group = tree.create_child_scope(root, &ctx, "group", 2, true);
    let inside = tree.create_child_scope(group, &ctx, "finland_area", 3, true);
    assert_eq!(tree.scope_kind(inside), ScopeKind::Loop);
    assert_eq!(tree.scope_this_type(inside), ScopeType::Province);
    let named = tree.create_child_scope(group, &ctx, "baltic_region", 4, true);
    assert_eq!(tree.scope_kind(named), ScopeKind::Loop);
}

#[test]
fn aliases_lookup_only_scope_names() {
    let a = ScopeAliases {
        this: Some(ScopeType::Country),
        root: Some(ScopeType::Province),
        from: None,
        prev: Some(ScopeType::Unknown),
    };
    assert_eq!(a.get("THIS"), Some(ScopeType::Country));
    assert_eq!(a.get("ROOT"), Some(ScopeType::Province));
    assert_eq!(a.get("PREV"), Some(ScopeType::Unknown));
    assert_eq!(a.get("this"), None);
    assert!(!a.contains_key("FROM"));
    assert!(a.contains_key("ROOT"));
}

#[test]
fn call_candidates_follow_the_scope() {
    let lookup = builtins();
    let groups = MapGroupLookup::new();
    let ctx = ScopeContext {
        mod_id: "m",
        path: "events/a.txt",
        file_kind: ScriptFileKind::Events,
        map_groups: &groups,
        builtins: &lookup,
    };
    let mut tree = ScopeTree::new();
    let root = tree.open_file_scope(policy(ScopeType::Unknown, None), "m", "a.txt", 1);
    let event = tree.create_child_scope(root, &ctx, "country_event", 2, true);
    let immediate = tree.create_child_scope(event, &ctx, "immediate", 3, true);
    let trigger = tree.create_child_scope(event, &ctx, "trigger", 4, true);

    assert!(is_scripted_effect_call_candidate(&tree, &ctx, "my_effect", immediate));
    assert!(!is_scripted_trigger_call_candidate(&tree, &ctx, "my_effect", immediate));
    assert!(is_scripted_trigger_call_candidate(&tree, &ctx, "my_trigger", trigger));
    assert!(!is_scripted_effect_call_candidate(&tree, &ctx, "my_trigger", trigger));
    for key in ["limit", "ROOT", "$x$", "a[b]", "42", "event_target:x", "FRA", "add_country_modifier",
        "has_country_flag", "owner", "every_country", "possible"]
    {
        assert!(!is_scripted_effect_call_candidate(&tree, &ctx, key, immediate), "{key}");
        assert!(!is_scripted_trigger_call_candidate(&tree, &ctx, key, trigger), "{key}");
    }
    assert!(!is_scripted_trigger_call_candidate(&tree, &ctx, "country_event", trigger));
    assert!(!is_scripted_effect_call_candidate(&tree, &ctx, "my_effect", root));
    assert!(!is_scripted_effect_call_candidate(&tree, &ctx, "my_effect", event));
    let var = tree.create_child_scope(immediate, &ctx, "set_variable", 5, true);
    assert!(!is_scripted_effect_call_candidate(&tree, &ctx, "which", var));

    let effects = ScopeContext {
        file_kind: ScriptFileKind::ScriptedEffects,
        ..ctx
    };
    assert_eq!(
        top_level_symbol_kind(&tree, &lookup, ScriptFileKind::ScriptedEffects, "my_effect", root),
        Some(SymbolKind::ScriptedEffect)
    );
    assert_eq!(
        top_level_symbol_kind(&tree, &lookup, effects.file_kind, "limit", root),
        None
    );
    assert_eq!(
        top_level_symbol_kind(&tree, &lookup, ScriptFileKind::Decisions, "country_decisions", root),
        None
    );
    assert_eq!(
        top_level_symbol_kind(&tree, &lookup, ScriptFileKind::NewDiplomaticActions, "static_actions", root),
        None
    );
    assert_eq!(
        top_level_symbol_kind(&tree, &lookup, ScriptFileKind::TriggeredModifiers, "tm", root),
        Some(SymbolKind::TriggeredModifier)
    );
    assert_eq!(top_level_symbol_kind(&tree, &lookup, ScriptFileKind::Events, "x", root), None);
    assert_eq!(
        top_level_symbol_kind(&tree, &lookup, ScriptFileKind::ScriptedEffects, "x", immediate),
        None
    );
    let container = tree.push_scope(
        ScopeKind::Block,
        Some(root),
        ScopeType::Country,
        ScopeAliases::empty(),
        "m",
        "d.txt",
        9,
        "country_decisions",
    );
    assert_eq!(
        symbol_definition_kind(&tree, &lookup, ScriptFileKind::Decisions, "my_decision", container),
        Some(SymbolKind::Decision)
    );
    assert_eq!(
        symbol_definition_kind(&tree, &lookup, ScriptFileKind::Events, "my_decision", container),
        None
    );
}
