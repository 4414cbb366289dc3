use foch_language::model::{ScopeKind, ScopeType};
use foch_language::scope_inference::{
    infer_definition_from_mask_from_references, infer_definition_scope_from_references,
    resolve_cross_kind_reference_targets, resolve_event_reference_targets,
    resolve_scripted_effect_reference_targets, resolve_scripted_trigger_reference_targets,
    scope_type_from_mask, KeyUsage, ParamBinding, SymbolDefinition, SymbolIndex, SymbolKind,
    SymbolReference,
};
use foch_language::scope_tree::{ScopeAliases, ScopeTree};

fn aliases(this: Option<ScopeType>, from: Option<ScopeType>) -> ScopeAliases {
    ScopeAliases {
        this,
        root: this,
        from,
        prev: None,
    }
}

fn def(kind: SymbolKind, name: &str, module: &str, scope_id: usize) -> SymbolDefinition {
    SymbolDefinition {
        kind,
        name: name.to_string(),
        module: module.to_string(),
        local_name: name.to_string(),
        mod_id: "m".to_string(),
        path: "p.txt".to_string(),
        line: 1,
        column: 1,
        scope_id,
        declared_this_type: ScopeType::Unknown,
        inferred_this_type: ScopeType::Unknown,
        inferred_this_mask: 0,
        inferred_from_mask: 0,
        required_params: Vec::new(),
        optional_params: Vec::new(),
        param_contract: None,
        scope_param_names: Vec::new(),
    }
}

fn reference(kind: SymbolKind, name: &str, module: &str, scope_id: usize) -> SymbolReference {
    SymbolReference {
        kind,
        name: name.to_string(),
        module: module.to_string(),
        mod_id: "m".to_string(),
        path: "p.txt".to_string(),
        line: 1,
        column: 1,
        scope_id,
        provided_params: Vec::new(),
        param_bindings: Vec::new(),
    }
}

/// Scopes: 0 file; 1 body of `my_effect`; 2 a country event; 3 its
/// immediate block; 4 a province event; 5 body of `other_effect`; 6 a
/// country loop inside it; 7 body of `my_trigger`; 8 body of `param_effect`.
fn sample_index() -> SymbolIndex {
    let mut tree = ScopeTree::new();
    let u = ScopeType::Unknown;
    let c = Some(ScopeType::Country);
    let p = Some(ScopeType::Province);
    tree.push_scope(ScopeKind::File, None, u, aliases(None, None), "m", "p.txt", 1, "");
    tree.push_scope(ScopeKind::ScriptedEffect, Some(0), u, aliases(None, None), "m", "p.txt", 2, "my_effect");
    tree.push_scope(ScopeKind::Event, Some(0), ScopeType::Country, aliases(c, c), "m", "p.txt", 3, "country_event");
    tree.push_scope(ScopeKind::Effect, Some(2), ScopeType::Country, aliases(c, c), "m", "p.txt", 4, "immediate");
    tree.push_scope(ScopeKind::Event, Some(0), ScopeType::Province, aliases(p, c), "m", "p.txt", 5, "province_event");
    tree.push_scope(ScopeKind::ScriptedEffect, Some(0), u, aliases(None, None), "m", "p.txt", 6, "other_effect");
    tree.push_scope(ScopeKind::Loop, Some(5), ScopeType::Country, aliases(c, None), "m", "p.txt", 7, "every_country");
    tree.push_scope(ScopeKind::Trigger, Some(0), u, aliases(None, None), "m", "p.txt", 8, "my_trigger");
    tree.push_scope(ScopeKind::ScriptedEffect, Some(0), u, aliases(None, None), "m", "p.txt", 9, "param_effect");

    let mut param_effect = def(SymbolKind::ScriptedEffect, "param_effect", "m", 8);
    param_effect.scope_param_names = vec!["who".to_string()];
    let definitions = vec![
        def(SymbolKind::ScriptedEffect, "my_effect", "m", 1),
        def(SymbolKind::ScriptedEffect, "other_effect", "m", 5),
        def(SymbolKind::ScriptedTrigger, "my_trigger", "m", 7),
        def(SymbolKind::Event, "ns.1", "events", 2),
        param_effect,
    ];
    let mut call_with_param = reference(SymbolKind::ScriptedEffect, "param_effect", "m", 3);
    call_with_param.param_bindings = vec![
        ParamBinding {
            name: "who".to_string(),
            value: " 150 ".to_string(),
        },
        ParamBinding {
            name: "other".to_string(),
            value: "owner".to_string(),
        },
    ];
    let references = vec![
        reference(SymbolKind::ScriptedEffect, "my_effect", "m", 3),
        reference(SymbolKind::ScriptedEffect, "my_effect", "m", 4),
        reference(SymbolKind::Event, "1", "events", 3),
        call_with_param,
    ];
    let key_usages = vec![KeyUsage {
        key: "capital_scope".to_string(),
        mod_id: "m".to_string(),
        path: "p.txt".to_string(),
        line: 8,
        column: 1,
        scope_id: 7,
        this_type: ScopeType::Unknown,
    }];
    SymbolIndex {
        scopes: tree,
        definitions,
        references,
        key_usages,
    }
}

#[test]
fn references_resolve_by_module_then_by_name() {
    let index = sample_index();
    let same = reference(SymbolKind::ScriptedEffect, "my_effect", "m", 3);
    assert_eq!(resolve_scripted_effect_reference_targets(&index, &same), vec![0]);
    let elsewhere = reference(SymbolKind::ScriptedEffect, "my_effect", "other", 3);
    assert_eq!(resolve_scripted_effect_reference_targets(&index, &elsewhere), vec![0]);
    assert!(resolve_scripted_trigger_reference_targets(&index, &same).is_empty());
    let unknown = reference(SymbolKind::ScriptedEffect, "nothing", "m", 3);
    assert!(resolve_scripted_effect_reference_targets(&index, &unknown).is_empty());

    let as_trigger = reference(SymbolKind::ScriptedTrigger, "my_effect", "m", 3);
    assert_eq!(
        resolve_cross_kind_reference_targets(&index, &as_trigger, SymbolKind::ScriptedEffect),
        vec![0]
    );
    assert!(
        resolve_cross_kind_reference_targets(&index, &as_trigger, SymbolKind::ScriptedTrigger)
            .is_empty()
    );
}

#[test]
fn event_references_match_with_or_without_namespace() {
    let index = sample_index();
    let bare = reference(SymbolKind::Event, "1", "x", 0);
    assert_eq!(resolve_event_reference_targets(&index, &bare), vec![3]);
    let full = reference(SymbolKind::Event, "ns.1", "x", 0);
    assert_eq!(resolve_event_reference_targets(&index, &full), vec![3]);
    let other = reference(SymbolKind::Event, "s.1", "x", 0);
    assert!(resolve_event_reference_targets(&index, &other).is_empty());
    let qualified_more = reference(SymbolKind::Event, "big.ns.1", "x", 0);
    assert_eq!(resolve_event_reference_targets(&index, &qualified_more), vec![3]);
    let not_event = reference(SymbolKind::ScriptedEffect, "ns.1", "x", 0);
    assert!(resolve_event_reference_targets(&index, &not_event).is_empty());
}

#[test]
fn callers_give_their_scope_types_to_callables() {
    let mut index = sample_index();
    infer_definition_scope_from_references(&mut index);
    let d = &index.definitions;
    assert_eq!(d[0].inferred_this_mask, 3);
    assert_eq!(d[0].inferred_this_type, ScopeType::Unknown);
    assert_eq!(d[1].inferred_this_mask, 1);
    assert_eq!(d[1].inferred_this_type, ScopeType::Country);
    assert_eq!(d[2].inferred_this_mask, 1);
    assert_eq!(d[2].inferred_this_type, ScopeType::Country);
    assert_eq!(d[3].inferred_this_mask, 0);
    assert_eq!(d[4].inferred_this_mask, 3);
    assert_eq!(index.scopes.len(), 9);
}

#[test]
fn callers_give_their_from_to_callables_and_events() {
    let mut index = sample_index();
    infer_definition_from_mask_from_references(&mut index);
    let d = &index.definitions;
    assert_eq!(d[0].inferred_from_mask, 1);
    assert_eq!(d[3].inferred_from_mask, 1);
    assert_eq!(d[1].inferred_from_mask, 0);
    let scopes = index.scopes.scopes();
    assert_eq!(scopes[1].aliases.from, Some(ScopeType::Country));
    assert_eq!(scopes[2].aliases.from, Some(ScopeType::Country));
    assert_eq!(scopes[5].aliases.from, None);
}

#[test]
fn masks_name_a_type_only_alone() {
    assert_eq!(scope_type_from_mask(1), ScopeType::Country);
    assert_eq!(scope_type_from_mask(2), ScopeType::Province);
    assert_eq!(scope_type_from_mask(3), ScopeType::Unknown);
    assert_eq!(scope_type_from_mask(0), ScopeType::Unknown);
}
