use foch_language::content_family::ScriptFileKind;
use foch_language::model::{ScopeKind, ScopeType};
use foch_language::scope_rules::{
    file_kind_container_scope_kind, is_country_file_reference, is_country_tag_selector,
    is_country_tag_text, is_dynamic_scope_reference_key, is_province_id_selector,
    is_province_id_text, iterator_scope_type, looks_like_map_group_key,
    scope_changer_target_type, special_block_scope_kind,
};

#[test]
fn iterators_move_to_their_scope_type() {
    assert_eq!(iterator_scope_type("every_owned_province"), Some(ScopeType::Province));
    assert_eq!(iterator_scope_type("every_neighbor_sea_zone"), Some(ScopeType::Province));
    assert_eq!(iterator_scope_type("any_tribal_land"), Some(ScopeType::Province));
    assert_eq!(iterator_scope_type("random_war_enemy_country"), Some(ScopeType::Country));
    assert_eq!(iterator_scope_type("all_ally"), Some(ScopeType::Country));
    assert_eq!(iterator_scope_type("every_ruler"), None);
    assert_eq!(iterator_scope_type("EVERY_PROVINCE"), None);
}

#[test]
fn container_blocks_by_family() {
    assert_eq!(
        file_kind_container_scope_kind(ScriptFileKind::Missions, "trigger"),
        Some(ScopeKind::Trigger)
    );
    assert_eq!(
        file_kind_container_scope_kind(ScriptFileKind::Missions, "on_completed"),
        Some(ScopeKind::Effect)
    );
    assert_eq!(
        file_kind_container_scope_kind(ScriptFileKind::Institutions, "modifier"),
        Some(ScopeKind::Block)
    );
    assert_eq!(
        file_kind_container_scope_kind(ScriptFileKind::GreatProjects, "can_use_modifiers_trigger"),
        Some(ScopeKind::Trigger)
    );
    assert_eq!(
        file_kind_container_scope_kind(ScriptFileKind::GreatProjects, "on_upgraded"),
        Some(ScopeKind::Effect)
    );
    assert_eq!(
        file_kind_container_scope_kind(ScriptFileKind::GreatProjects, "tier_1"),
        None
    );
    assert_eq!(
        file_kind_container_scope_kind(ScriptFileKind::CustomizableLocalization, "trigger"),
        Some(ScopeKind::Trigger)
    );
    assert_eq!(
        file_kind_container_scope_kind(ScriptFileKind::Events, "mean_time_to_happen"),
        Some(ScopeKind::Trigger)
    );
    assert_eq!(file_kind_container_scope_kind(ScriptFileKind::Events, "trigger"), None);
    assert_eq!(file_kind_container_scope_kind(ScriptFileKind::Other, "trigger"), None);
    assert_eq!(
        file_kind_container_scope_kind(ScriptFileKind::StateEdicts, "notify_trigger"),
        Some(ScopeKind::Trigger)
    );
}

#[test]
fn scope_changers_and_special_blocks() {
    assert_eq!(scope_changer_target_type("capital_scope"), Some(ScopeType::Province));
    assert_eq!(scope_changer_target_type("owner"), Some(ScopeType::Country));
    assert_eq!(scope_changer_target_type("controller"), None);
    assert_eq!(special_block_scope_kind("possible"), ScopeKind::Trigger);
    assert_eq!(special_block_scope_kind("exclude_from_progress"), ScopeKind::Trigger);
    assert_eq!(special_block_scope_kind("effect"), ScopeKind::Block);
}

#[test]
fn country_tags_and_files() {
    assert!(is_country_tag_text("FRA"));
    assert!(is_country_tag_selector("X3E"));
    assert!(is_country_tag_text("K01"));
    assert!(!is_country_tag_text("1AB"));
    assert!(!is_country_tag_text("Fra"));
    assert!(!is_country_tag_text("FRAN"));
    assert!(!is_country_tag_text("FR"));
    assert!(!is_country_tag_text("ÉTA"));
    assert!(is_country_file_reference("countries/France.txt"));
    assert!(!is_country_file_reference("common/countries/France.txt"));
    assert!(!is_country_file_reference("countries/France.yml"));
}

#[test]
fn province_ids() {
    assert!(is_province_id_text("1"));
    assert!(is_province_id_text("+151"));
    assert!(is_province_id_text("4294967295"));
    assert!(!is_province_id_text("4294967296"));
    assert!(!is_province_id_text("0"));
    assert!(!is_province_id_text("-5"));
    assert!(!is_province_id_text(""));
    assert!(!is_province_id_text("+"));
    assert!(!is_province_id_text(" 5"));
    assert!(!is_province_id_text("12a"));
    assert!(is_province_id_selector("101"));
    assert!(is_province_id_selector("00151"));
    assert!(!is_province_id_selector("100"));
    assert!(!is_province_id_selector("FRA"));
}

#[test]
fn dynamic_targets_and_map_groups() {
    assert!(is_dynamic_scope_reference_key("event_target:my_target"));
    assert!(!is_dynamic_scope_reference_key("event_target"));
    assert!(looks_like_map_group_key("burgundy_area"));
    assert!(looks_like_map_group_key("france_region"));
    assert!(looks_like_map_group_key("europe_superregion"));
    assert!(looks_like_map_group_key("x_provincegroup"));
    assert!(!looks_like_map_group_key("area"));
    assert!(!looks_like_map_group_key("burgundy"));
}
