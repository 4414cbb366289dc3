use foch_language::eu4_builtin::{
    alias_keywords, builtin_catalog_hash, builtin_effect_names, builtin_iterator_names,
    builtin_scope_changer_names, builtin_special_block_names, builtin_trigger_names,
    contextual_keywords, is_alias_keyword, is_builtin_effect, is_builtin_iterator,
    is_builtin_scope_changer, is_builtin_special_block, is_builtin_trigger,
    is_contextual_keyword, is_game_only_candidate, is_reserved_keyword, load_lookup,
    reserved_keywords, BuiltinCatalog, BuiltinLookup, BuiltinSymbol,
};

fn strings(items: &[&str]) -> Vec<String> {
    items.iter().map(|s| s.to_string()).collect()
}

fn symbols(items: &[&str]) -> Vec<BuiltinSymbol> {
    items
        .iter()
        .map(|s| BuiltinSymbol {
            name: s.to_string(),
        })
        .collect()
}

/// A small catalog in the shape of the game's builtin catalog.
fn catalog() -> BuiltinCatalog {
    BuiltinCatalog {
        reserved_keywords: strings(&[
            "potential", "allow", "limit", "if", "else", "AND", "OR", "NOT", "trigger", "allow",
        ]),
        contextual_keywords: strings(&["hidden_effect", "custom_tooltip", "tooltip"]),
        alias_keywords: strings(&["ROOT", "FROM", "PREV", "THIS"]),
        builtin_triggers: symbols(&["num_of_cities", "has_country_flag", "ai", "religion", "ai"]),
        builtin_effects: symbols(&["add_country_modifier", "set_country_flag"]),
        builtin_scope_changers: symbols(&["owner", "capital_scope"]),
        builtin_iterators: symbols(&["all_owned_province", "all_core_province", "every_country"]),
        builtin_special_blocks: symbols(&["possible", "exclude_from_progress", "visible"]),
        game_only_candidates: symbols(&["Sunset_Invasion"]),
    }
}

fn lookup() -> BuiltinLookup {
    load_lookup(&catalog())
}

#[test]
fn keyword_sets_are_loaded() {
    let l = lookup();
    assert!(is_reserved_keyword(&l, "potential"));
    assert!(is_reserved_keyword(&l, "allow"));
    assert!(is_contextual_keyword(&l, "hidden_effect"));
    assert!(is_alias_keyword(&l, "ROOT"));
}

#[test]
fn builtin_symbols_include_trigger_and_effect_examples() {
    let l = lookup();
    assert!(is_builtin_trigger(&l, "num_of_cities"));
    assert!(is_builtin_trigger(&l, "has_country_flag"));
    assert!(is_builtin_effect(&l, "add_country_modifier"));
}

#[test]
fn builtin_symbol_taxonomy_includes_scope_and_iterator_examples() {
    let l = lookup();
    assert!(is_builtin_scope_changer(&l, "capital_scope"));
    assert!(is_builtin_scope_changer(&l, "owner"));
    assert!(is_builtin_iterator(&l, "all_core_province"));
    assert!(is_builtin_iterator(&l, "all_owned_province"));
    assert!(is_builtin_special_block(&l, "possible"));
    assert!(is_builtin_special_block(&l, "exclude_from_progress"));
    assert!(!builtin_catalog_hash("{}").is_empty());
}

#[test]
fn builtin_lookup_is_case_insensitive() {
    let l = lookup();
    assert!(is_reserved_keyword(&l, "LIMIT"));
    assert!(is_reserved_keyword(&l, "Limit"));
    assert!(is_reserved_keyword(&l, "AND"));
    assert!(is_builtin_trigger(&l, "AI"));
    assert!(is_builtin_trigger(&l, "Ai"));
    assert!(is_builtin_trigger(&l, "RELIGION"));
    assert!(is_builtin_effect(&l, "ADD_COUNTRY_MODIFIER"));
}

#[test]
fn lookup_matches_catalog_entries_written_in_upper_case() {
    let l = lookup();
    assert!(is_reserved_keyword(&l, "and"));
    assert!(is_reserved_keyword(&l, "Or"));
    assert!(is_alias_keyword(&l, "root"));
    assert!(is_game_only_candidate(&l, "sunset_invasion"));
    assert!(is_game_only_candidate(&l, "SUNSET_INVASION"));
}

#[test]
fn lookup_rejects_unknown_and_cross_group_names() {
    let l = lookup();
    assert!(!is_reserved_keyword(&l, "hidden_effect"));
    assert!(!is_builtin_trigger(&l, "add_country_modifier"));
    assert!(!is_builtin_effect(&l, "num_of_cities"));
    assert!(!is_builtin_iterator(&l, "every_province"));
    assert!(!is_reserved_keyword(&l, ""));
    assert!(!is_reserved_keyword(&l, "potentia"));
    assert!(!is_reserved_keyword(&l, "potentials"));
    assert!(!is_game_only_candidate(&l, "owner"));
}

#[test]
fn name_lists_are_sorted_and_deduplicated() {
    let l = lookup();
    assert_eq!(
        reserved_keywords(&l).to_vec(),
        strings(&["AND", "NOT", "OR", "allow", "else", "if", "limit", "potential", "trigger"])
    );
    assert_eq!(
        contextual_keywords(&l).to_vec(),
        strings(&["custom_tooltip", "hidden_effect", "tooltip"])
    );
    assert_eq!(alias_keywords(&l).to_vec(), strings(&["FROM", "PREV", "ROOT", "THIS"]));
    assert_eq!(
        builtin_trigger_names(&l).to_vec(),
        strings(&["ai", "has_country_flag", "num_of_cities", "religion"])
    );
    assert_eq!(
        builtin_effect_names(&l).to_vec(),
        strings(&["add_country_modifier", "set_country_flag"])
    );
    assert_eq!(
        builtin_scope_changer_names(&l).to_vec(),
        strings(&["capital_scope", "owner"])
    );
    assert_eq!(
        builtin_iterator_names(&l).to_vec(),
        strings(&["all_core_province", "all_owned_province", "every_country"])
    );
    assert_eq!(
        builtin_special_block_names(&l).to_vec(),
        strings(&["exclude_from_progress", "possible", "visible"])
    );
}

#[test]
fn empty_catalog_recognises_nothing() {
    let l = load_lookup(&BuiltinCatalog {
        reserved_keywords: Vec::new(),
        contextual_keywords: Vec::new(),
        alias_keywords: Vec::new(),
        builtin_triggers: Vec::new(),
        builtin_effects: Vec::new(),
        builtin_scope_changers: Vec::new(),
        builtin_iterators: Vec::new(),
        builtin_special_blocks: Vec::new(),
        game_only_candidates: Vec::new(),
    });
    assert!(!is_reserved_keyword(&l, "limit"));
    assert!(reserved_keywords(&l).is_empty());
}

#[test]
fn catalog_hash_is_the_sha256_prefix_in_hex() {
    // SHA-256 of the empty string starts e3b0c442 98fc1c14.
    assert_eq!(builtin_catalog_hash(""), "e3b0c44298fc1c14");
    // SHA-256 of "abc" starts ba7816bf 8f01cfea.
    assert_eq!(builtin_catalog_hash("abc"), "ba7816bf8f01cfea");
    assert_eq!(builtin_catalog_hash("{}").len(), 16);
}
