use foch_language::content_family::{
    BlockMergePolicy, BooleanMergePolicy, ConflictPolicy, ContentFamilyExtractor,
    ContentFamilyScopePolicy, ListMergePolicy, ScalarMergePolicy,
};
use foch_language::content_family::{
    module_name_for_descriptor, ContentFamilyCapabilities, ContentFamilyDescriptor,
    ContentFamilyPathMatcher, MergeKeySource, ModuleNameRule, ScriptFileKind,
};
use foch_language::content_family::ContentLoadPolicy;
use foch_language::definition_module::{
    DefinitionFileOrder, DefinitionKeyPolicy, DefinitionModuleOutput, DuplicateDefinitionPolicy,
};
use foch_language::eu4_profile::{
    eu4_content_families, eu4_content_family_for_root_family, eu4_profile, GameProfile,
};
use foch_language::model::ScopeType;
use foch_language::semantic_index::{
    classify_script_file, fallback_module_name_from_relative, is_alias_key,
    is_decision_container_key, is_map_group_file, is_ui_identifier_candidate,
    is_ui_resource_key, looks_like_ui_container_key, monarch_power_prefix, qualify_symbol_name,
};

#[test]
fn classify_paths() {
    assert_eq!(
        classify_script_file("common/on_actions/00_on_actions.txt"),
        ScriptFileKind::OnActions
    );
    assert_eq!(
        classify_script_file("events/common/on_actions/foo.txt"),
        ScriptFileKind::OnActions
    );
    assert_eq!(
        classify_script_file("common/scripted_effects/a.txt"),
        ScriptFileKind::ScriptedEffects
    );
    assert_eq!(
        classify_script_file("events/a.txt"),
        ScriptFileKind::Events
    );
    assert_eq!(
        classify_script_file("interface/a.gui"),
        ScriptFileKind::Ui
    );
    assert_eq!(
        classify_script_file("common/achievements.txt"),
        ScriptFileKind::Achievements
    );
    assert_eq!(
        classify_script_file("common/ages/00_default.txt"),
        ScriptFileKind::Ages
    );
    assert_eq!(
        classify_script_file("common/buildings/00_buildings.txt"),
        ScriptFileKind::Buildings
    );
    assert_eq!(
        classify_script_file("common/ideas/00_country_ideas.txt"),
        ScriptFileKind::Ideas
    );
    assert_eq!(
        classify_script_file("common/great_projects/01_monuments.txt"),
        ScriptFileKind::GreatProjects
    );
    assert_eq!(
        classify_script_file("common/government_reforms/01_government_reforms.txt"),
        ScriptFileKind::GovernmentReforms
    );
    assert_eq!(
        classify_script_file("common/cultures/00_cultures.txt"),
        ScriptFileKind::Cultures
    );
    assert_eq!(
        classify_script_file("common/custom_gui/AdvisorActionsGui.txt"),
        ScriptFileKind::CustomGui
    );
    assert_eq!(
        classify_script_file("common/advisortypes/00_advisortypes.txt"),
        ScriptFileKind::AdvisorTypes
    );
    assert_eq!(
        classify_script_file("common/event_modifiers/00_modifiers.txt"),
        ScriptFileKind::EventModifiers
    );
    assert_eq!(
        classify_script_file("common/cb_types/00_cb_types.txt"),
        ScriptFileKind::CbTypes
    );
    assert_eq!(
        classify_script_file("common/government_names/00_names.txt"),
        ScriptFileKind::GovernmentNames
    );
    assert_eq!(
        classify_script_file("customizable_localization/00_customizable_localization.txt"),
        ScriptFileKind::CustomizableLocalization
    );
    assert_eq!(
        classify_script_file("common/new_diplomatic_actions/00_actions.txt"),
        ScriptFileKind::NewDiplomaticActions
    );
    assert_eq!(
        classify_script_file("events/common/new_diplomatic_actions/00_actions.txt"),
        ScriptFileKind::NewDiplomaticActions
    );
    assert_eq!(
        classify_script_file("missions/example.txt"),
        ScriptFileKind::Missions
    );
    assert_eq!(
        classify_script_file("events/decisions/example.txt"),
        ScriptFileKind::Decisions
    );
    assert_eq!(
        classify_script_file("common/institutions/00.txt"),
        ScriptFileKind::Institutions
    );
    assert_eq!(
        classify_script_file("common/province_triggered_modifiers/00.txt"),
        ScriptFileKind::ProvinceTriggeredModifiers
    );
    assert_eq!(
        classify_script_file("common/scripted_triggers/00_triggers.txt"),
        ScriptFileKind::ScriptedTriggers
    );
    assert_eq!(
        classify_script_file("common/country_tags/00_countries.txt"),
        ScriptFileKind::CountryTags
    );
    assert_eq!(
        classify_script_file("common/countries/00_countries.txt"),
        ScriptFileKind::Countries
    );
    assert_eq!(
        classify_script_file("history/countries/FRA - France.txt"),
        ScriptFileKind::CountryHistory
    );
    assert_eq!(
        classify_script_file("history/provinces/1 - Stockholm.txt"),
        ScriptFileKind::ProvinceHistory
    );
    assert_eq!(
        classify_script_file("common/province_names/sorbian.txt"),
        ScriptFileKind::ProvinceNames
    );
    assert_eq!(
        classify_script_file("map/random/tiles/tile0.txt"),
        ScriptFileKind::RandomMapTiles
    );
    assert_eq!(
        classify_script_file("map/random/RandomLandNames.txt"),
        ScriptFileKind::RandomMapNames
    );
    assert_eq!(
        classify_script_file("map/random/RNWScenarios.txt"),
        ScriptFileKind::RandomMapScenarios
    );
    assert_eq!(
        classify_script_file("map/random/tweaks.lua"),
        ScriptFileKind::Other
    );
    assert_eq!(
        classify_script_file("history/diplomacy/hre.txt"),
        ScriptFileKind::DiplomacyHistory
    );
    assert_eq!(
        classify_script_file("history/advisors/00_england.txt"),
        ScriptFileKind::AdvisorHistory
    );
    assert_eq!(
        classify_script_file("history/wars/100yearswar.txt"),
        ScriptFileKind::Wars
    );
    assert_eq!(
        classify_script_file("common/units/00_units.txt"),
        ScriptFileKind::Units
    );
    assert_eq!(
        classify_script_file("common/religions/00_religion.txt"),
        ScriptFileKind::Religions
    );
    assert_eq!(
        classify_script_file("common/subject_types/00_subject_types.txt"),
        ScriptFileKind::SubjectTypes
    );
    assert_eq!(
        classify_script_file("common/rebel_types/independence_rebels.txt"),
        ScriptFileKind::RebelTypes
    );
    assert_eq!(
        classify_script_file("common/disasters/civil_war.txt"),
        ScriptFileKind::Disasters
    );
    assert_eq!(
        classify_script_file("common/government_mechanics/18_parliament_vs_monarchy.txt"),
        ScriptFileKind::GovernmentMechanics
    );
    assert_eq!(
        classify_script_file("common/church_aspects/00_church_aspects.txt"),
        ScriptFileKind::ChurchAspects
    );
    assert_eq!(
        classify_script_file("common/factions/00_factions.txt"),
        ScriptFileKind::Factions
    );
    assert_eq!(
        classify_script_file("common/hegemons/0_economic_hegemon.txt"),
        ScriptFileKind::Hegemons
    );
    assert_eq!(
        classify_script_file("common/personal_deities/00_hindu_deities.txt"),
        ScriptFileKind::PersonalDeities
    );
    assert_eq!(
        classify_script_file("common/fetishist_cults/00_fetishist_cults.txt"),
        ScriptFileKind::FetishistCults
    );
    assert_eq!(
        classify_script_file("common/estate_agendas/00_generic_agendas.txt"),
        ScriptFileKind::EstateAgendas
    );
    assert_eq!(
        classify_script_file("common/estate_privileges/01_church_privileges.txt"),
        ScriptFileKind::EstatePrivileges
    );
    assert_eq!(
        classify_script_file("common/estates/01_church.txt"),
        ScriptFileKind::Estates
    );
    assert_eq!(
        classify_script_file("common/parliament_bribes/administrative_support.txt"),
        ScriptFileKind::ParliamentBribes
    );
    assert_eq!(
        classify_script_file("common/parliament_issues/00_adm_parliament_issues.txt"),
        ScriptFileKind::ParliamentIssues
    );
    assert_eq!(
        classify_script_file("common/state_edicts/edict_of_governance.txt"),
        ScriptFileKind::StateEdicts
    );
    assert_eq!(
        classify_script_file("common/peace_treaties/00_peace_treaties.txt"),
        ScriptFileKind::PeaceTreaties
    );
    assert_eq!(
        classify_script_file("common/bookmarks/a_new_world.txt"),
        ScriptFileKind::Bookmarks
    );
    assert_eq!(
        classify_script_file("common/policies/00_adm.txt"),
        ScriptFileKind::Policies
    );
    assert_eq!(
        classify_script_file("common/mercenary_companies/00_mercenaries.txt"),
        ScriptFileKind::MercenaryCompanies
    );
    assert_eq!(
        classify_script_file("common/fervor/00_fervor.txt"),
        ScriptFileKind::Fervor
    );
    assert_eq!(
        classify_script_file("common/decrees/00_china.txt"),
        ScriptFileKind::Decrees
    );
    assert_eq!(
        classify_script_file("common/federation_advancements/00_default.txt"),
        ScriptFileKind::FederationAdvancements
    );
    assert_eq!(
        classify_script_file("common/golden_bulls/00_golden_bulls.txt"),
        ScriptFileKind::GoldenBulls
    );
    assert_eq!(
        classify_script_file("common/flagship_modifications/00_flagship_modifications.txt"),
        ScriptFileKind::FlagshipModifications
    );
    assert_eq!(
        classify_script_file("common/powerprojection/00_static.txt"),
        ScriptFileKind::PowerProjection
    );
    assert_eq!(
        classify_script_file("common/subject_type_upgrades/00_subject_type_upgrades.txt"),
        ScriptFileKind::SubjectTypeUpgrades
    );
    assert_eq!(
        classify_script_file("common/government_ranks/00_government_ranks.txt"),
        ScriptFileKind::GovernmentRanks
    );
    assert_eq!(
        classify_script_file("common/technologies/adm.txt"),
        ScriptFileKind::Technologies
    );
    assert_eq!(
        classify_script_file("common/technology.txt"),
        ScriptFileKind::TechnologyGroups
    );
}


#[test]
fn backslash_paths_classify_like_slash_paths() {
    assert_eq!(classify_script_file("common\\ideas\\00_country_ideas.txt"), ScriptFileKind::Ideas);
    assert_eq!(classify_script_file("events\\a.txt"), ScriptFileKind::Events);
    assert_eq!(classify_script_file("unknown/a.txt"), ScriptFileKind::Other);
    assert_eq!(classify_script_file(""), ScriptFileKind::Other);
}

#[test]
fn profile_looks_up_families_by_path_and_id() {
    let profile = eu4_profile();
    let events = profile.classify_content_family("events/a.txt").expect("events family");
    assert_eq!(events.id, "events");
    assert_eq!(events.matcher, ContentFamilyPathMatcher::Prefix("events/"));
    assert_eq!(events.merge_key_source, Some(MergeKeySource::FieldValue("id")));
    assert_eq!(events.scope_policy.root_scope, ScopeType::Unknown);
    assert_eq!(profile.family_id_for("events/common/on_actions/foo.txt"), Some("events/common/on_actions"));
    assert_eq!(profile.family_id_for("nowhere/x.txt"), None);
    assert_eq!(
        profile.capabilities_for_root("events"),
        Some(ContentFamilyCapabilities { semantic_complete: true, graph_ready: false, merge_ready: true })
    );
    assert_eq!(profile.family_id_for_root("common/ideas"), Some("common/ideas"));
    assert!(profile.descriptor_for_root_family("no_such_family").is_none());
    assert!(eu4_content_family_for_root_family("decisions").is_some());
    let userdir = profile.classify_content_family("userdir.txt").expect("exact family");
    assert_eq!(userdir.matcher, ContentFamilyPathMatcher::Exact("userdir.txt"));
    assert!(profile.classify_content_family("userdir.txt.bak").is_none());
}

#[test]
fn module_names_follow_the_family_rule() {
    let profile = eu4_profile();
    let effects: ContentFamilyDescriptor = profile
        .classify_content_family("common/scripted_effects/sub/dir/file.txt")
        .unwrap();
    assert!(matches!(effects.module_name_rule, ModuleNameRule::Tail { prefix_len: 2, .. }));
    assert_eq!(
        module_name_for_descriptor("common/scripted_effects/sub/dir/file.txt", &effects),
        "scripted_effects.dir"
    );
    assert_eq!(
        module_name_for_descriptor("common/scripted_effects/file.txt", &effects),
        "scripted_effects"
    );
    let events = profile.classify_content_family("events/a.txt").unwrap();
    assert_eq!(module_name_for_descriptor("events/x/a.txt", &events), "events");
    let fallback = ContentFamilyDescriptor::prefix("x", "x/").build();
    assert_eq!(module_name_for_descriptor("x/y/z.txt", &fallback), "x.y");
    assert_eq!(module_name_for_descriptor("z.txt", &fallback), "other");
    assert_eq!(fallback_module_name_from_relative("a\\b\\c.txt"), "a.b");
    assert_eq!(fallback_module_name_from_relative("c.txt"), "other");
    assert_eq!(fallback_module_name_from_relative("a//c.txt"), "a.");
}

#[test]
fn builder_sets_each_field() {
    let d = ContentFamilyDescriptor::exact("id", "file.txt")
        .kind(ScriptFileKind::Ages)
        .module_name(ModuleNameRule::Static("ages"))
        .scope(ContentFamilyScopePolicy { root_scope: ScopeType::Country, from_alias: None, dynamic_scope: true })
        .capabilities(ContentFamilyCapabilities { semantic_complete: true, graph_ready: true, merge_ready: false })
        .extractor(ContentFamilyExtractor::Ages)
        .merge_key(MergeKeySource::LeafPath)
        .conflict_policy(ConflictPolicy::LastWriter)
        .scalar_policy(ScalarMergePolicy::Max)
        .list_policy(ListMergePolicy::OrderedUnion)
        .block_policy(BlockMergePolicy::Replace)
        .boolean_policy(BooleanMergePolicy::Or)
        .build();
    assert_eq!(d.id, "id");
    assert_eq!(d.script_file_kind, ScriptFileKind::Ages);
    assert_eq!(d.extractor, ContentFamilyExtractor::Ages);
    assert_eq!(d.conflict_policy, ConflictPolicy::LastWriter);
    assert_eq!(d.merge_policies.scalar, ScalarMergePolicy::Max);
    assert_eq!(d.merge_policies.list, ListMergePolicy::OrderedUnion);
    assert_eq!(d.merge_policies.block, BlockMergePolicy::Replace);
    assert_eq!(d.merge_policies.boolean, BooleanMergePolicy::Or);
    assert!(d.scope_policy.dynamic_scope);
    let plain = ContentFamilyDescriptor::prefix("p", "p/").build();
    assert_eq!(plain.script_file_kind, ScriptFileKind::Other);
    assert_eq!(plain.conflict_policy, ConflictPolicy::Rename);
    assert_eq!(plain.merge_key_source, None);
}

#[test]
fn semantic_index_key_classifiers() {
    assert!(is_map_group_file("map/area.txt"));
    assert!(is_map_group_file("map\\region.txt"));
    assert!(!is_map_group_file("map/areas.txt"));
    assert_eq!(qualify_symbol_name("events", "my.1"), "eu4::events::my.1");
    assert_eq!(monarch_power_prefix("DIP"), Some("dip"));
    assert_eq!(monarch_power_prefix("dip"), None);
    assert!(is_alias_key("PREV"));
    assert!(!is_alias_key("root"));
    assert!(is_decision_container_key("religion_decisions"));
    assert!(!is_decision_container_key("decisions"));
    assert!(looks_like_ui_container_key("windowType"));
    assert!(looks_like_ui_container_key("shield"));
    assert!(!looks_like_ui_container_key("type"));
    assert!(is_ui_identifier_candidate("GFX_icon.01-a:b"));
    assert!(!is_ui_identifier_candidate(""));
    assert!(!is_ui_identifier_candidate("has space"));
    assert!(!is_ui_identifier_candidate(&"a".repeat(129)));
    assert!(is_ui_identifier_candidate(&"a".repeat(128)));
    assert!(is_ui_resource_key("pdxmesh"));
    assert!(!is_ui_resource_key("sprite"));
}

#[test]
fn governments_use_a_complete_versioned_definition_module_policy() {
    let descriptor = eu4_profile()
        .classify_content_family("common/governments/00_governments.txt")
        .expect("governments descriptor");
    let ContentLoadPolicy::DefinitionModule(policy) = descriptor.load_policy else {
        panic!("governments must use definition-module loading");
    };
    assert_eq!(policy.definition_key, DefinitionKeyPolicy::AssignmentKey);
    assert_eq!(policy.file_order, DefinitionFileOrder::NormalizedPathAscending);
    assert_eq!(policy.duplicate_definitions, DuplicateDefinitionPolicy::LaterDefinitionWins);
    assert_eq!(policy.output_path, "common/governments/zzz_foch_governments.txt");
    assert_eq!(policy.namespace_prefix, "common/governments");
    assert_eq!(policy.output_mode, DefinitionModuleOutput::ReplaceNamespace);
    assert!(policy.policy_version > 0);
    assert!(policy.output_path.starts_with(&format!("{}/", policy.namespace_prefix)));
}

#[test]
fn common_assignment_key_families_share_directory_namespaces() {
    let profile = eu4_profile();
    for path in [
        "common/institutions/00_Core.txt",
        "common/religions/00_religion.txt",
        "common/scripted_effects/example.txt",
    ] {
        let descriptor = profile.classify_content_family(path).expect("common descriptor");
        let ContentLoadPolicy::DefinitionModule(policy) = descriptor.load_policy else {
            panic!("{path} must use directory namespace loading");
        };
        assert_eq!(policy.output_mode, DefinitionModuleOutput::Overlay, "{path}");
        assert!(policy.output_path.contains("/zzz_foch_"), "{path}");
    }
}

#[test]
fn every_eligible_common_directory_uses_namespace_loading() {
    let mut eligible = 0;
    for descriptor in eu4_content_families() {
        let ContentFamilyPathMatcher::Prefix(prefix) = descriptor.matcher else {
            continue;
        };
        if !prefix.starts_with("common/")
            || !matches!(
                descriptor.merge_key_source,
                Some(MergeKeySource::AssignmentKey | MergeKeySource::FieldValue(_))
            )
            || matches!(prefix, "common/countries/" | "common/units/")
        {
            continue;
        }
        eligible += 1;
        assert!(
            matches!(descriptor.load_policy, ContentLoadPolicy::DefinitionModule(_)),
            "{prefix}"
        );
    }
    assert!(eligible >= 70, "expected broad common namespace coverage");
}

#[test]
fn filename_identity_common_families_stay_per_path() {
    let profile = eu4_profile();
    for path in [
        "common/countries/France.txt",
        "common/units/western_medieval_infantry.txt",
        "common/defines/00_test.lua",
        "common/interface/example.gui",
    ] {
        let descriptor = profile.classify_content_family(path).expect("common descriptor");
        assert_eq!(descriptor.load_policy, ContentLoadPolicy::PerPath, "{path}");
    }
}

#[test]
fn directory_module_paths_name_their_namespace() {
    for descriptor in eu4_content_families() {
        if let ContentLoadPolicy::DefinitionModule(policy) = descriptor.load_policy {
            let ContentFamilyPathMatcher::Prefix(prefix) = descriptor.matcher else {
                panic!("{} is not a directory family", descriptor.id);
            };
            assert_eq!(format!("{}/", policy.namespace_prefix), prefix);
            let slug = policy.namespace_prefix.rsplit('/').next().unwrap();
            if policy.output_mode == DefinitionModuleOutput::Overlay {
                assert_eq!(policy.output_path, format!("{}/zzz_foch_{}.txt", policy.namespace_prefix, slug));
                assert_eq!(policy.duplicate_definitions, DuplicateDefinitionPolicy::PreserveAll);
                assert_eq!(policy.policy_version, 2);
            }
        }
    }
}
