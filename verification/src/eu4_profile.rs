//! The EU4 game profile: its content families, in matching order, and the
//! classification of a mod-relative path into the first family whose path
//! matcher accepts it.

use vstd::prelude::*;
use crate::content_family::{
    default_descriptor, normalize_slashes, slash_normalized, with_block_policy, with_boolean_policy, with_capabilities,
    with_conflict_policy, with_kind, with_list_policy, with_merge_key, with_module_name,
    with_load_policy, with_scalar_policy, with_scope, BlockMergePolicy, BooleanMergePolicy, ConflictPolicy,
    ContentFamilyCapabilities, ContentFamilyDescriptor, ContentFamilyPathMatcher,
    ContentFamilyScopePolicy, ContentLoadPolicy, GameId, ListMergePolicy, MergeKeySource, ModuleNameRule,
    ScalarMergePolicy, ScriptFileKind,
};
use crate::model::ScopeType;
use crate::definition_module::{
    DefinitionFileOrder, DefinitionKeyPolicy, DefinitionModuleOutput, DefinitionModulePolicy,
    DuplicateDefinitionPolicy,
};
use crate::text::{chars_eq, chars_of, chars_start_with, has_prefix};

verus! {

/// Governments load as one definition module: keyed by assignment, files in
/// ascending path order, a later definition replacing an earlier one, the
/// result written to its own file and replacing the whole namespace.
pub open spec fn governments_module_spec() -> DefinitionModulePolicy {
    DefinitionModulePolicy {
        definition_key: DefinitionKeyPolicy::AssignmentKey,
        file_order: DefinitionFileOrder::NormalizedPathAscending,
        duplicate_definitions: DuplicateDefinitionPolicy::LaterDefinitionWins,
        output_path: "common/governments/zzz_foch_governments.txt",
        namespace_prefix: "common/governments",
        output_mode: DefinitionModuleOutput::ReplaceNamespace,
        policy_version: 1,
    }
}

pub fn governments_module() -> (r: DefinitionModulePolicy)
    ensures
        r == governments_module_spec(),
{
    DefinitionModulePolicy {
        definition_key: DefinitionKeyPolicy::AssignmentKey,
        file_order: DefinitionFileOrder::NormalizedPathAscending,
        duplicate_definitions: DuplicateDefinitionPolicy::LaterDefinitionWins,
        output_path: "common/governments/zzz_foch_governments.txt",
        namespace_prefix: "common/governments",
        output_mode: DefinitionModuleOutput::ReplaceNamespace,
        policy_version: 1,
    }
}

/// A `common/` namespace whose definitions are keyed loads as one module:
/// keyed by assignment, files in ascending path order, every definition
/// kept, written to `zzz_foch_<name>.txt` in the namespace and laid over it.
pub open spec fn directory_module_spec(namespace_prefix: &'static str, output_path: &'static str) -> DefinitionModulePolicy {
    DefinitionModulePolicy {
        definition_key: DefinitionKeyPolicy::AssignmentKey,
        file_order: DefinitionFileOrder::NormalizedPathAscending,
        duplicate_definitions: DuplicateDefinitionPolicy::PreserveAll,
        output_path,
        namespace_prefix,
        output_mode: DefinitionModuleOutput::Overlay,
        policy_version: 2,
    }
}

pub fn directory_module(namespace_prefix: &'static str, output_path: &'static str) -> (r: DefinitionModulePolicy)
    ensures
        r == directory_module_spec(namespace_prefix, output_path),
{
    DefinitionModulePolicy {
        definition_key: DefinitionKeyPolicy::AssignmentKey,
        file_order: DefinitionFileOrder::NormalizedPathAscending,
        duplicate_definitions: DuplicateDefinitionPolicy::PreserveAll,
        output_path,
        namespace_prefix,
        output_mode: DefinitionModuleOutput::Overlay,
        policy_version: 2,
    }
}

/// The capabilities of a family that is fully understood and can be merged.
pub open spec fn merge_ready_caps() -> ContentFamilyCapabilities {
    ContentFamilyCapabilities { semantic_complete: true, graph_ready: false, merge_ready: true }
}

pub fn semantic_complete_and_merge_ready() -> (r: ContentFamilyCapabilities)
    ensures
        r == merge_ready_caps(),
{
    ContentFamilyCapabilities { semantic_complete: true, graph_ready: false, merge_ready: true }
}

/// The capabilities of a family whose definitions live in one global
/// namespace (event ids, decision ids, scripted effect and trigger names):
/// semantically complete and merge ready, as above.
pub fn semantic_complete_merge_ready_cross_file_dedup_safe() -> (r: ContentFamilyCapabilities)
    ensures
        r == merge_ready_caps(),
{
    ContentFamilyCapabilities { semantic_complete: true, graph_ready: false, merge_ready: true }
}

pub open spec fn scope_policy_spec(root_scope: ScopeType) -> ContentFamilyScopePolicy {
    ContentFamilyScopePolicy { root_scope, from_alias: None, dynamic_scope: false }
}

pub open spec fn unknown_scope_spec() -> ContentFamilyScopePolicy {
    scope_policy_spec(ScopeType::Unknown)
}

pub open spec fn country_from_scope_spec(root_scope: ScopeType) -> ContentFamilyScopePolicy {
    ContentFamilyScopePolicy { root_scope, from_alias: Some(ScopeType::Country), dynamic_scope: false }
}

pub open spec fn country_from_only_spec() -> ContentFamilyScopePolicy {
    country_from_scope_spec(ScopeType::Unknown)
}

pub open spec fn dynamic_scope_spec() -> ContentFamilyScopePolicy {
    ContentFamilyScopePolicy { root_scope: ScopeType::Unknown, from_alias: None, dynamic_scope: true }
}

/// A fixed root scope.
fn scope(root_scope: ScopeType) -> (r: ContentFamilyScopePolicy)
    ensures
        r == scope_policy_spec(root_scope),
{
    ContentFamilyScopePolicy { root_scope, from_alias: None, dynamic_scope: false }
}

fn unknown_scope() -> (r: ContentFamilyScopePolicy)
    ensures
        r == unknown_scope_spec(),
{
    ContentFamilyScopePolicy { root_scope: ScopeType::Unknown, from_alias: None, dynamic_scope: false }
}

/// A fixed root scope, with FROM a country.
fn country_from_scope(root_scope: ScopeType) -> (r: ContentFamilyScopePolicy)
    ensures
        r == country_from_scope_spec(root_scope),
{
    ContentFamilyScopePolicy { root_scope, from_alias: Some(ScopeType::Country), dynamic_scope: false }
}

/// For families whose top-level keys are not themselves scoped (religions
/// group religions, which group trigger and effect blocks): FROM is a
/// country, the root is unknown.
fn country_from_only() -> (r: ContentFamilyScopePolicy)
    ensures
        r == country_from_only_spec(),
{
    ContentFamilyScopePolicy {
        root_scope: ScopeType::Unknown,
        from_alias: Some(ScopeType::Country),
        dynamic_scope: false,
    }
}

/// For families whose implicit scope is supplied by the runtime caller
/// (callables, UI bindings, customizable localization, on_actions).
fn dynamic_scope_policy() -> (r: ContentFamilyScopePolicy)
    ensures
        r == dynamic_scope_spec(),
{
    ContentFamilyScopePolicy { root_scope: ScopeType::Unknown, from_alias: None, dynamic_scope: true }
}

/// Part 1 of the family table, in matching order.
pub open spec fn family_table_part_1() -> Seq<ContentFamilyDescriptor> {
    Seq::empty()
        .push(with_merge_key(with_capabilities(with_scope(with_module_name(with_kind(default_descriptor("events/common/new_diplomatic_actions", ContentFamilyPathMatcher::Prefix("events/common/new_diplomatic_actions/")), ScriptFileKind::NewDiplomaticActions), ModuleNameRule::Tail { prefix_len: 2, fallback: "new_diplomatic_actions" }), country_from_scope_spec(ScopeType::Country)), merge_ready_caps()), MergeKeySource::AssignmentKey))
        .push(with_load_policy(with_merge_key(with_capabilities(with_scope(with_module_name(with_kind(default_descriptor("common/on_actions", ContentFamilyPathMatcher::Prefix("common/on_actions/")), ScriptFileKind::OnActions), ModuleNameRule::Static("on_actions")), dynamic_scope_spec()), merge_ready_caps()), MergeKeySource::AssignmentKey), ContentLoadPolicy::DefinitionModule(directory_module_spec("common/on_actions", "common/on_actions/zzz_foch_on_actions.txt"))))
        .push(with_merge_key(with_capabilities(with_scope(with_module_name(with_kind(default_descriptor("events/common/on_actions", ContentFamilyPathMatcher::Prefix("events/common/on_actions/")), ScriptFileKind::OnActions), ModuleNameRule::Static("on_actions")), dynamic_scope_spec()), merge_ready_caps()), MergeKeySource::AssignmentKey))
        .push(with_boolean_policy(with_scalar_policy(with_merge_key(with_capabilities(with_scope(with_module_name(with_kind(default_descriptor("events/decisions", ContentFamilyPathMatcher::Prefix("events/decisions/")), ScriptFileKind::Decisions), ModuleNameRule::Static("decisions")), scope_policy_spec(ScopeType::Country)), merge_ready_caps()), MergeKeySource::ContainerChildKey), ScalarMergePolicy::LastWriter), BooleanMergePolicy::And))
        .push(with_boolean_policy(with_list_policy(with_scalar_policy(with_merge_key(with_capabilities(with_scope(with_module_name(with_kind(default_descriptor("events", ContentFamilyPathMatcher::Prefix("events/")), ScriptFileKind::Events), ModuleNameRule::Static("events")), unknown_scope_spec()), merge_ready_caps()), MergeKeySource::FieldValue("id")), ScalarMergePolicy::LastWriter), ListMergePolicy::UnionWithRename), BooleanMergePolicy::And))
        .push(with_boolean_policy(with_scalar_policy(with_merge_key(with_capabilities(with_scope(with_module_name(with_kind(default_descriptor("decisions", ContentFamilyPathMatcher::Prefix("decisions/")), ScriptFileKind::Decisions), ModuleNameRule::Static("decisions")), scope_policy_spec(ScopeType::Country)), merge_ready_caps()), MergeKeySource::ContainerChildKey), ScalarMergePolicy::LastWriter), BooleanMergePolicy::And))
        .push(with_load_policy(with_merge_key(with_capabilities(with_scope(with_module_name(with_kind(default_descriptor("common/scripted_effects", ContentFamilyPathMatcher::Prefix("common/scripted_effects/")), ScriptFileKind::ScriptedEffects), ModuleNameRule::Tail { prefix_len: 2, fallback: "scripted_effects" }), dynamic_scope_spec()), merge_ready_caps()), MergeKeySource::AssignmentKey), ContentLoadPolicy::DefinitionModule(directory_module_spec("common/scripted_effects", "common/scripted_effects/zzz_foch_scripted_effects.txt"))))
        .push(with_load_policy(with_merge_key(with_capabilities(with_scope(with_module_name(with_kind(default_descriptor("common/scripted_triggers", ContentFamilyPathMatcher::Prefix("common/scripted_triggers/")), ScriptFileKind::ScriptedTriggers), ModuleNameRule::Tail { prefix_len: 2, fallback: "scripted_triggers" }), dynamic_scope_spec()), merge_ready_caps()), MergeKeySource::AssignmentKey), ContentLoadPolicy::DefinitionModule(directory_module_spec("common/scripted_triggers", "common/scripted_triggers/zzz_foch_scripted_triggers.txt"))))
        .push(with_load_policy(with_merge_key(with_capabilities(with_scope(with_module_name(with_kind(default_descriptor("common/triggered_modifiers", ContentFamilyPathMatcher::Prefix("common/triggered_modifiers/")), ScriptFileKind::TriggeredModifiers), ModuleNameRule::Tail { prefix_len: 2, fallback: "triggered_modifiers" }), scope_policy_spec(ScopeType::Country)), merge_ready_caps()), MergeKeySource::AssignmentKey), ContentLoadPolicy::DefinitionModule(directory_module_spec("common/triggered_modifiers", "common/triggered_modifiers/zzz_foch_triggered_modifiers.txt"))))
        .push(with_conflict_policy(with_merge_key(with_capabilities(with_scope(with_module_name(with_kind(default_descriptor("common/defines", ContentFamilyPathMatcher::Prefix("common/defines/")), ScriptFileKind::Defines), ModuleNameRule::Tail { prefix_len: 2, fallback: "defines" }), unknown_scope_spec()), merge_ready_caps()), MergeKeySource::LeafPath), ConflictPolicy::MergeLeaf))
        .push(with_load_policy(with_merge_key(with_capabilities(with_scope(with_module_name(with_kind(default_descriptor("common/diplomatic_actions", ContentFamilyPathMatcher::Prefix("common/diplomatic_actions/")), ScriptFileKind::DiplomaticActions), ModuleNameRule::Tail { prefix_len: 2, fallback: "diplomatic_actions" }), country_from_scope_spec(ScopeType::Country)), merge_ready_caps()), MergeKeySource::AssignmentKey), ContentLoadPolicy::DefinitionModule(directory_module_spec("common/diplomatic_actions", "common/diplomatic_actions/zzz_foch_diplomatic_actions.txt"))))
        .push(with_load_policy(with_merge_key(with_capabilities(with_scope(with_module_name(with_kind(default_descriptor("common/new_diplomatic_actions", ContentFamilyPathMatcher::Prefix("common/new_diplomatic_actions/")), ScriptFileKind::NewDiplomaticActions), ModuleNameRule::Tail { prefix_len: 2, fallback: "new_diplomatic_actions" }), country_from_scope_spec(ScopeType::Country)), merge_ready_caps()), MergeKeySource::AssignmentKey), ContentLoadPolicy::DefinitionModule(directory_module_spec("common/new_diplomatic_actions", "common/new_diplomatic_actions/zzz_foch_new_diplomatic_actions.txt"))))
        .push(with_load_policy(with_merge_key(with_capabilities(with_scope(with_module_name(with_kind(default_descriptor("common/country_tags", ContentFamilyPathMatcher::Prefix("common/country_tags/")), ScriptFileKind::CountryTags), ModuleNameRule::Static("country_tags")), scope_policy_spec(ScopeType::Country)), merge_ready_caps()), MergeKeySource::AssignmentKey), ContentLoadPolicy::DefinitionModule(directory_module_spec("common/country_tags", "common/country_tags/zzz_foch_country_tags.txt"))))
        .push(with_merge_key(with_capabilities(with_scope(with_module_name(with_kind(default_descriptor("common/countries", ContentFamilyPathMatcher::Prefix("common/countries/")), ScriptFileKind::Countries), ModuleNameRule::Static("countries")), scope_policy_spec(ScopeType::Country)), merge_ready_caps()), MergeKeySource::AssignmentKey))
        .push(with_merge_key(with_capabilities(with_scope(with_module_name(with_kind(default_descriptor("history/countries", ContentFamilyPathMatcher::Prefix("history/countries/")), ScriptFileKind::CountryHistory), ModuleNameRule::Static("country_history")), scope_policy_spec(ScopeType::Country)), merge_ready_caps()), MergeKeySource::AssignmentKey))
        .push(with_merge_key(with_capabilities(with_scope(with_module_name(with_kind(default_descriptor("history/provinces", ContentFamilyPathMatcher::Prefix("history/provinces/")), ScriptFileKind::ProvinceHistory), ModuleNameRule::Static("province_history")), scope_policy_spec(ScopeType::Province)), merge_ready_caps()), MergeKeySource::AssignmentKey))
        .push(with_merge_key(with_capabilities(with_scope(with_module_name(with_kind(default_descriptor("history/diplomacy", ContentFamilyPathMatcher::Prefix("history/diplomacy/")), ScriptFileKind::DiplomacyHistory), ModuleNameRule::Static("diplomacy_history")), unknown_scope_spec()), merge_ready_caps()), MergeKeySource::AssignmentKey))
        .push(with_merge_key(with_capabilities(with_scope(with_module_name(with_kind(default_descriptor("history/advisors", ContentFamilyPathMatcher::Prefix("history/advisors/")), ScriptFileKind::AdvisorHistory), ModuleNameRule::Static("advisor_history")), unknown_scope_spec()), merge_ready_caps()), MergeKeySource::AssignmentKey))
        .push(with_merge_key(with_capabilities(with_scope(with_module_name(with_kind(default_descriptor("history/wars", ContentFamilyPathMatcher::Prefix("history/wars/")), ScriptFileKind::Wars), ModuleNameRule::Static("wars")), unknown_scope_spec()), merge_ready_caps()), MergeKeySource::AssignmentKey))
        .push(with_merge_key(with_capabilities(with_scope(with_module_name(with_kind(default_descriptor("common/units", ContentFamilyPathMatcher::Prefix("common/units/")), ScriptFileKind::Units), ModuleNameRule::Static("units")), unknown_scope_spec()), merge_ready_caps()), MergeKeySource::AssignmentKey))
        .push(with_load_policy(with_list_policy(with_scalar_policy(with_merge_key(with_capabilities(with_scope(with_module_name(with_kind(default_descriptor("common/religions", ContentFamilyPathMatcher::Prefix("common/religions/")), ScriptFileKind::Religions), ModuleNameRule::Static("religions")), country_from_only_spec()), merge_ready_caps()), MergeKeySource::AssignmentKey), ScalarMergePolicy::LastWriter), ListMergePolicy::Replace), ContentLoadPolicy::DefinitionModule(directory_module_spec("common/religions", "common/religions/zzz_foch_religions.txt"))))
        .push(with_load_policy(with_merge_key(with_capabilities(with_scope(with_module_name(with_kind(default_descriptor("common/subject_types", ContentFamilyPathMatcher::Prefix("common/subject_types/")), ScriptFileKind::SubjectTypes), ModuleNameRule::Static("subject_types")), country_from_scope_spec(ScopeType::Country)), merge_ready_caps()), MergeKeySource::AssignmentKey), ContentLoadPolicy::DefinitionModule(directory_module_spec("common/subject_types", "common/subject_types/zzz_foch_subject_types.txt"))))
        .push(with_load_policy(with_merge_key(with_capabilities(with_scope(with_module_name(with_kind(default_descriptor("common/rebel_types", ContentFamilyPathMatcher::Prefix("common/rebel_types/")), ScriptFileKind::RebelTypes), ModuleNameRule::Static("rebel_types")), country_from_scope_spec(ScopeType::Country)), merge_ready_caps()), MergeKeySource::AssignmentKey), ContentLoadPolicy::DefinitionModule(directory_module_spec("common/rebel_types", "common/rebel_types/zzz_foch_rebel_types.txt"))))
        .push(with_load_policy(with_boolean_policy(with_scalar_policy(with_merge_key(with_capabilities(with_scope(with_module_name(with_kind(default_descriptor("common/disasters", ContentFamilyPathMatcher::Prefix("common/disasters/")), ScriptFileKind::Disasters), ModuleNameRule::Static("disasters")), country_from_scope_spec(ScopeType::Country)), merge_ready_caps()), MergeKeySource::AssignmentKey), ScalarMergePolicy::Sum), BooleanMergePolicy::And), ContentLoadPolicy::DefinitionModule(directory_module_spec("common/disasters", "common/disasters/zzz_foch_disasters.txt"))))
        .push(with_load_policy(with_merge_key(with_capabilities(with_scope(with_module_name(with_kind(default_descriptor("common/government_mechanics", ContentFamilyPathMatcher::Prefix("common/government_mechanics/")), ScriptFileKind::GovernmentMechanics), ModuleNameRule::Static("government_mechanics")), country_from_scope_spec(ScopeType::Country)), merge_ready_caps()), MergeKeySource::AssignmentKey), ContentLoadPolicy::DefinitionModule(directory_module_spec("common/government_mechanics", "common/government_mechanics/zzz_foch_government_mechanics.txt"))))
        .push(with_load_policy(with_merge_key(with_capabilities(with_scope(with_module_name(with_kind(default_descriptor("common/church_aspects", ContentFamilyPathMatcher::Prefix("common/church_aspects/")), ScriptFileKind::ChurchAspects), ModuleNameRule::Static("church_aspects")), country_from_scope_spec(ScopeType::Country)), merge_ready_caps()), MergeKeySource::AssignmentKey), ContentLoadPolicy::DefinitionModule(directory_module_spec("common/church_aspects", "common/church_aspects/zzz_foch_church_aspects.txt"))))
        .push(with_load_policy(with_merge_key(with_capabilities(with_scope(with_module_name(with_kind(default_descriptor("common/factions", ContentFamilyPathMatcher::Prefix("common/factions/")), ScriptFileKind::Factions), ModuleNameRule::Static("factions")), country_from_scope_spec(ScopeType::Country)), merge_ready_caps()), MergeKeySource::AssignmentKey), ContentLoadPolicy::DefinitionModule(directory_module_spec("common/factions", "common/factions/zzz_foch_factions.txt"))))
        .push(with_load_policy(with_merge_key(with_capabilities(with_scope(with_module_name(with_kind(default_descriptor("common/hegemons", ContentFamilyPathMatcher::Prefix("common/hegemons/")), ScriptFileKind::Hegemons), ModuleNameRule::Static("hegemons")), country_from_scope_spec(ScopeType::Country)), merge_ready_caps()), MergeKeySource::AssignmentKey), ContentLoadPolicy::DefinitionModule(directory_module_spec("common/hegemons", "common/hegemons/zzz_foch_hegemons.txt"))))
        .push(with_load_policy(with_merge_key(with_capabilities(with_scope(with_module_name(with_kind(default_descriptor("common/personal_deities", ContentFamilyPathMatcher::Prefix("common/personal_deities/")), ScriptFileKind::PersonalDeities), ModuleNameRule::Static("personal_deities")), country_from_scope_spec(ScopeType::Country)), merge_ready_caps()), MergeKeySource::AssignmentKey), ContentLoadPolicy::DefinitionModule(directory_module_spec("common/personal_deities", "common/personal_deities/zzz_foch_personal_deities.txt"))))
        .push(with_load_policy(with_merge_key(with_capabilities(with_scope(with_module_name(with_kind(default_descriptor("common/fetishist_cults", ContentFamilyPathMatcher::Prefix("common/fetishist_cults/")), ScriptFileKind::FetishistCults), ModuleNameRule::Static("fetishist_cults")), country_from_scope_spec(ScopeType::Country)), merge_ready_caps()), MergeKeySource::AssignmentKey), ContentLoadPolicy::DefinitionModule(directory_module_spec("common/fetishist_cults", "common/fetishist_cults/zzz_foch_fetishist_cults.txt"))))
        .push(with_load_policy(with_merge_key(with_capabilities(with_scope(with_module_name(with_kind(default_descriptor("common/peace_treaties", ContentFamilyPathMatcher::Prefix("common/peace_treaties/")), ScriptFileKind::PeaceTreaties), ModuleNameRule::Static("peace_treaties")), country_from_scope_spec(ScopeType::Country)), merge_ready_caps()), MergeKeySource::AssignmentKey), ContentLoadPolicy::DefinitionModule(directory_module_spec("common/peace_treaties", "common/peace_treaties/zzz_foch_peace_treaties.txt"))))
        .push(with_load_policy(with_merge_key(with_capabilities(with_scope(with_module_name(with_kind(default_descriptor("common/bookmarks", ContentFamilyPathMatcher::Prefix("common/bookmarks/")), ScriptFileKind::Bookmarks), ModuleNameRule::Static("bookmarks")), unknown_scope_spec()), merge_ready_caps()), MergeKeySource::AssignmentKey), ContentLoadPolicy::DefinitionModule(directory_module_spec("common/bookmarks", "common/bookmarks/zzz_foch_bookmarks.txt"))))
        .push(with_load_policy(with_scalar_policy(with_merge_key(with_capabilities(with_scope(with_module_name(with_kind(default_descriptor("common/policies", ContentFamilyPathMatcher::Prefix("common/policies/")), ScriptFileKind::Policies), ModuleNameRule::Static("policies")), scope_policy_spec(ScopeType::Country)), merge_ready_caps()), MergeKeySource::AssignmentKey), ScalarMergePolicy::Sum), ContentLoadPolicy::DefinitionModule(directory_module_spec("common/policies", "common/policies/zzz_foch_policies.txt"))))
        .push(with_load_policy(with_scalar_policy(with_merge_key(with_capabilities(with_scope(with_module_name(with_kind(default_descriptor("common/mercenary_companies", ContentFamilyPathMatcher::Prefix("common/mercenary_companies/")), ScriptFileKind::MercenaryCompanies), ModuleNameRule::Static("mercenary_companies")), scope_policy_spec(ScopeType::Country)), merge_ready_caps()), MergeKeySource::AssignmentKey), ScalarMergePolicy::Sum), ContentLoadPolicy::DefinitionModule(directory_module_spec("common/mercenary_companies", "common/mercenary_companies/zzz_foch_mercenary_companies.txt"))))
        .push(with_load_policy(with_merge_key(with_capabilities(with_scope(with_module_name(with_kind(default_descriptor("common/fervor", ContentFamilyPathMatcher::Prefix("common/fervor/")), ScriptFileKind::Fervor), ModuleNameRule::Static("fervor")), country_from_scope_spec(ScopeType::Country)), merge_ready_caps()), MergeKeySource::AssignmentKey), ContentLoadPolicy::DefinitionModule(directory_module_spec("common/fervor", "common/fervor/zzz_foch_fervor.txt"))))
        .push(with_load_policy(with_merge_key(with_capabilities(with_scope(with_module_name(with_kind(default_descriptor("common/decrees", ContentFamilyPathMatcher::Prefix("common/decrees/")), ScriptFileKind::Decrees), ModuleNameRule::Static("decrees")), scope_policy_spec(ScopeType::Country)), merge_ready_caps()), MergeKeySource::AssignmentKey), ContentLoadPolicy::DefinitionModule(directory_module_spec("common/decrees", "common/decrees/zzz_foch_decrees.txt"))))
}

/// Part 2 of the family table, in matching order.
pub open spec fn family_table_part_2() -> Seq<ContentFamilyDescriptor> {
    Seq::empty()
        .push(with_load_policy(with_merge_key(with_capabilities(with_scope(with_module_name(with_kind(default_descriptor("common/federation_advancements", ContentFamilyPathMatcher::Prefix("common/federation_advancements/")), ScriptFileKind::FederationAdvancements), ModuleNameRule::Static("federation_advancements")), scope_policy_spec(ScopeType::Country)), merge_ready_caps()), MergeKeySource::AssignmentKey), ContentLoadPolicy::DefinitionModule(directory_module_spec("common/federation_advancements", "common/federation_advancements/zzz_foch_federation_advancements.txt"))))
        .push(with_load_policy(with_merge_key(with_capabilities(with_scope(with_module_name(with_kind(default_descriptor("common/golden_bulls", ContentFamilyPathMatcher::Prefix("common/golden_bulls/")), ScriptFileKind::GoldenBulls), ModuleNameRule::Static("golden_bulls")), scope_policy_spec(ScopeType::Country)), merge_ready_caps()), MergeKeySource::AssignmentKey), ContentLoadPolicy::DefinitionModule(directory_module_spec("common/golden_bulls", "common/golden_bulls/zzz_foch_golden_bulls.txt"))))
        .push(with_load_policy(with_merge_key(with_capabilities(with_scope(with_module_name(with_kind(default_descriptor("common/flagship_modifications", ContentFamilyPathMatcher::Prefix("common/flagship_modifications/")), ScriptFileKind::FlagshipModifications), ModuleNameRule::Static("flagship_modifications")), scope_policy_spec(ScopeType::Country)), merge_ready_caps()), MergeKeySource::AssignmentKey), ContentLoadPolicy::DefinitionModule(directory_module_spec("common/flagship_modifications", "common/flagship_modifications/zzz_foch_flagship_modifications.txt"))))
        .push(with_load_policy(with_scalar_policy(with_merge_key(with_capabilities(with_scope(with_module_name(with_kind(default_descriptor("common/holy_orders", ContentFamilyPathMatcher::Prefix("common/holy_orders/")), ScriptFileKind::HolyOrders), ModuleNameRule::Static("holy_orders")), scope_policy_spec(ScopeType::Country)), merge_ready_caps()), MergeKeySource::AssignmentKey), ScalarMergePolicy::Sum), ContentLoadPolicy::DefinitionModule(directory_module_spec("common/holy_orders", "common/holy_orders/zzz_foch_holy_orders.txt"))))
        .push(with_load_policy(with_merge_key(with_capabilities(with_scope(with_module_name(with_kind(default_descriptor("common/naval_doctrines", ContentFamilyPathMatcher::Prefix("common/naval_doctrines/")), ScriptFileKind::NavalDoctrines), ModuleNameRule::Static("naval_doctrines")), scope_policy_spec(ScopeType::Country)), merge_ready_caps()), MergeKeySource::AssignmentKey), ContentLoadPolicy::DefinitionModule(directory_module_spec("common/naval_doctrines", "common/naval_doctrines/zzz_foch_naval_doctrines.txt"))))
        .push(with_load_policy(with_merge_key(with_capabilities(with_scope(with_module_name(with_kind(default_descriptor("common/defender_of_faith", ContentFamilyPathMatcher::Prefix("common/defender_of_faith/")), ScriptFileKind::DefenderOfFaith), ModuleNameRule::Static("defender_of_faith")), scope_policy_spec(ScopeType::Country)), merge_ready_caps()), MergeKeySource::AssignmentKey), ContentLoadPolicy::DefinitionModule(directory_module_spec("common/defender_of_faith", "common/defender_of_faith/zzz_foch_defender_of_faith.txt"))))
        .push(with_load_policy(with_merge_key(with_capabilities(with_scope(with_module_name(with_kind(default_descriptor("common/isolationism", ContentFamilyPathMatcher::Prefix("common/isolationism/")), ScriptFileKind::Isolationism), ModuleNameRule::Static("isolationism")), scope_policy_spec(ScopeType::Country)), merge_ready_caps()), MergeKeySource::AssignmentKey), ContentLoadPolicy::DefinitionModule(directory_module_spec("common/isolationism", "common/isolationism/zzz_foch_isolationism.txt"))))
        .push(with_load_policy(with_merge_key(with_capabilities(with_scope(with_module_name(with_kind(default_descriptor("common/professionalism", ContentFamilyPathMatcher::Prefix("common/professionalism/")), ScriptFileKind::Professionalism), ModuleNameRule::Static("professionalism")), scope_policy_spec(ScopeType::Country)), merge_ready_caps()), MergeKeySource::AssignmentKey), ContentLoadPolicy::DefinitionModule(directory_module_spec("common/professionalism", "common/professionalism/zzz_foch_professionalism.txt"))))
        .push(with_load_policy(with_merge_key(with_capabilities(with_scope(with_module_name(with_kind(default_descriptor("common/powerprojection", ContentFamilyPathMatcher::Prefix("common/powerprojection/")), ScriptFileKind::PowerProjection), ModuleNameRule::Static("powerprojection")), scope_policy_spec(ScopeType::Country)), merge_ready_caps()), MergeKeySource::AssignmentKey), ContentLoadPolicy::DefinitionModule(directory_module_spec("common/powerprojection", "common/powerprojection/zzz_foch_powerprojection.txt"))))
        .push(with_load_policy(with_merge_key(with_capabilities(with_scope(with_module_name(with_kind(default_descriptor("common/subject_type_upgrades", ContentFamilyPathMatcher::Prefix("common/subject_type_upgrades/")), ScriptFileKind::SubjectTypeUpgrades), ModuleNameRule::Static("subject_type_upgrades")), country_from_scope_spec(ScopeType::Country)), merge_ready_caps()), MergeKeySource::AssignmentKey), ContentLoadPolicy::DefinitionModule(directory_module_spec("common/subject_type_upgrades", "common/subject_type_upgrades/zzz_foch_subject_type_upgrades.txt"))))
        .push(with_load_policy(with_merge_key(with_capabilities(with_scope(with_module_name(with_kind(default_descriptor("common/government_ranks", ContentFamilyPathMatcher::Prefix("common/government_ranks/")), ScriptFileKind::GovernmentRanks), ModuleNameRule::Static("government_ranks")), scope_policy_spec(ScopeType::Country)), merge_ready_caps()), MergeKeySource::AssignmentKey), ContentLoadPolicy::DefinitionModule(directory_module_spec("common/government_ranks", "common/government_ranks/zzz_foch_government_ranks.txt"))))
        .push(with_load_policy(with_merge_key(with_capabilities(with_scope(with_module_name(with_kind(default_descriptor("common/province_names", ContentFamilyPathMatcher::Prefix("common/province_names/")), ScriptFileKind::ProvinceNames), ModuleNameRule::Static("province_names")), unknown_scope_spec()), merge_ready_caps()), MergeKeySource::AssignmentKey), ContentLoadPolicy::DefinitionModule(directory_module_spec("common/province_names", "common/province_names/zzz_foch_province_names.txt"))))
        .push(with_merge_key(with_capabilities(with_scope(with_module_name(with_kind(default_descriptor("map/random/tiles", ContentFamilyPathMatcher::Prefix("map/random/tiles/")), ScriptFileKind::RandomMapTiles), ModuleNameRule::Static("random_map_tiles")), unknown_scope_spec()), merge_ready_caps()), MergeKeySource::AssignmentKey))
        .push(with_merge_key(with_capabilities(with_scope(with_module_name(with_kind(default_descriptor("map/random_names", ContentFamilyPathMatcher::Exact("map/random/RandomLandNames.txt")), ScriptFileKind::RandomMapNames), ModuleNameRule::Static("random_map_names")), unknown_scope_spec()), merge_ready_caps()), MergeKeySource::AssignmentKey))
        .push(with_merge_key(with_capabilities(with_scope(with_module_name(with_kind(default_descriptor("map/random_names", ContentFamilyPathMatcher::Exact("map/random/RandomSeaNames.txt")), ScriptFileKind::RandomMapNames), ModuleNameRule::Static("random_map_names")), unknown_scope_spec()), merge_ready_caps()), MergeKeySource::AssignmentKey))
        .push(with_merge_key(with_capabilities(with_scope(with_module_name(with_kind(default_descriptor("map/random_names", ContentFamilyPathMatcher::Exact("map/random/RandomLakeNames.txt")), ScriptFileKind::RandomMapNames), ModuleNameRule::Static("random_map_names")), unknown_scope_spec()), merge_ready_caps()), MergeKeySource::AssignmentKey))
        .push(with_merge_key(with_capabilities(with_scope(with_module_name(with_kind(default_descriptor("map/random/scenarios", ContentFamilyPathMatcher::Exact("map/random/RNWScenarios.txt")), ScriptFileKind::RandomMapScenarios), ModuleNameRule::Static("random_map_scenarios")), unknown_scope_spec()), merge_ready_caps()), MergeKeySource::AssignmentKey))
        .push(with_load_policy(with_merge_key(with_capabilities(with_scope(with_module_name(with_kind(default_descriptor("common/technologies", ContentFamilyPathMatcher::Prefix("common/technologies/")), ScriptFileKind::Technologies), ModuleNameRule::Static("technologies")), scope_policy_spec(ScopeType::Country)), merge_ready_caps()), MergeKeySource::AssignmentKey), ContentLoadPolicy::DefinitionModule(directory_module_spec("common/technologies", "common/technologies/zzz_foch_technologies.txt"))))
        .push(with_merge_key(with_capabilities(with_scope(with_module_name(with_kind(default_descriptor("common/technology", ContentFamilyPathMatcher::Exact("common/technology.txt")), ScriptFileKind::TechnologyGroups), ModuleNameRule::Static("technology_groups")), scope_policy_spec(ScopeType::Country)), merge_ready_caps()), MergeKeySource::AssignmentKey))
        .push(with_load_policy(with_merge_key(with_capabilities(with_scope(with_module_name(with_kind(default_descriptor("common/estate_agendas", ContentFamilyPathMatcher::Prefix("common/estate_agendas/")), ScriptFileKind::EstateAgendas), ModuleNameRule::Static("estate_agendas")), country_from_scope_spec(ScopeType::Country)), merge_ready_caps()), MergeKeySource::AssignmentKey), ContentLoadPolicy::DefinitionModule(directory_module_spec("common/estate_agendas", "common/estate_agendas/zzz_foch_estate_agendas.txt"))))
        .push(with_load_policy(with_boolean_policy(with_scalar_policy(with_merge_key(with_capabilities(with_scope(with_module_name(with_kind(default_descriptor("common/estate_privileges", ContentFamilyPathMatcher::Prefix("common/estate_privileges/")), ScriptFileKind::EstatePrivileges), ModuleNameRule::Static("estate_privileges")), country_from_scope_spec(ScopeType::Country)), merge_ready_caps()), MergeKeySource::AssignmentKey), ScalarMergePolicy::Sum), BooleanMergePolicy::And), ContentLoadPolicy::DefinitionModule(directory_module_spec("common/estate_privileges", "common/estate_privileges/zzz_foch_estate_privileges.txt"))))
        .push(with_load_policy(with_merge_key(with_capabilities(with_scope(with_module_name(default_descriptor("common/estate_action", ContentFamilyPathMatcher::Prefix("common/estate_action/")), ModuleNameRule::Static("estate_action")), country_from_scope_spec(ScopeType::Country)), merge_ready_caps()), MergeKeySource::AssignmentKey), ContentLoadPolicy::DefinitionModule(directory_module_spec("common/estate_action", "common/estate_action/zzz_foch_estate_action.txt"))))
        .push(with_load_policy(with_merge_key(with_capabilities(with_scope(with_module_name(default_descriptor("common/native_advancement", ContentFamilyPathMatcher::Prefix("common/native_advancement/")), ModuleNameRule::Static("native_advancement")), scope_policy_spec(ScopeType::Country)), merge_ready_caps()), MergeKeySource::AssignmentKey), ContentLoadPolicy::DefinitionModule(directory_module_spec("common/native_advancement", "common/native_advancement/zzz_foch_native_advancement.txt"))))
        .push(with_load_policy(with_merge_key(with_capabilities(with_scope(with_module_name(with_kind(default_descriptor("common/estates", ContentFamilyPathMatcher::Prefix("common/estates/")), ScriptFileKind::Estates), ModuleNameRule::Static("estates")), scope_policy_spec(ScopeType::Country)), merge_ready_caps()), MergeKeySource::AssignmentKey), ContentLoadPolicy::DefinitionModule(directory_module_spec("common/estates", "common/estates/zzz_foch_estates.txt"))))
        .push(with_load_policy(with_merge_key(with_capabilities(with_scope(with_module_name(with_kind(default_descriptor("common/parliament_bribes", ContentFamilyPathMatcher::Prefix("common/parliament_bribes/")), ScriptFileKind::ParliamentBribes), ModuleNameRule::Static("parliament_bribes")), country_from_scope_spec(ScopeType::Country)), merge_ready_caps()), MergeKeySource::AssignmentKey), ContentLoadPolicy::DefinitionModule(directory_module_spec("common/parliament_bribes", "common/parliament_bribes/zzz_foch_parliament_bribes.txt"))))
        .push(with_load_policy(with_merge_key(with_capabilities(with_scope(with_module_name(with_kind(default_descriptor("common/parliament_issues", ContentFamilyPathMatcher::Prefix("common/parliament_issues/")), ScriptFileKind::ParliamentIssues), ModuleNameRule::Static("parliament_issues")), country_from_scope_spec(ScopeType::Country)), merge_ready_caps()), MergeKeySource::AssignmentKey), ContentLoadPolicy::DefinitionModule(directory_module_spec("common/parliament_issues", "common/parliament_issues/zzz_foch_parliament_issues.txt"))))
        .push(with_load_policy(with_merge_key(with_capabilities(with_scope(with_module_name(with_kind(default_descriptor("common/state_edicts", ContentFamilyPathMatcher::Prefix("common/state_edicts/")), ScriptFileKind::StateEdicts), ModuleNameRule::Static("state_edicts")), country_from_scope_spec(ScopeType::Country)), merge_ready_caps()), MergeKeySource::AssignmentKey), ContentLoadPolicy::DefinitionModule(directory_module_spec("common/state_edicts", "common/state_edicts/zzz_foch_state_edicts.txt"))))
        .push(with_merge_key(with_capabilities(with_scope(with_module_name(with_kind(default_descriptor("common/achievements", ContentFamilyPathMatcher::Exact("common/achievements.txt")), ScriptFileKind::Achievements), ModuleNameRule::Static("achievements")), scope_policy_spec(ScopeType::Country)), merge_ready_caps()), MergeKeySource::AssignmentKey))
        .push(with_load_policy(with_list_policy(with_merge_key(with_capabilities(with_scope(with_module_name(with_kind(default_descriptor("common/ages", ContentFamilyPathMatcher::Prefix("common/ages/")), ScriptFileKind::Ages), ModuleNameRule::Static("ages")), scope_policy_spec(ScopeType::Country)), merge_ready_caps()), MergeKeySource::AssignmentKey), ListMergePolicy::OrderedUnion), ContentLoadPolicy::DefinitionModule(directory_module_spec("common/ages", "common/ages/zzz_foch_ages.txt"))))
        .push(with_load_policy(with_list_policy(with_scalar_policy(with_merge_key(with_capabilities(with_scope(with_module_name(with_kind(default_descriptor("common/buildings", ContentFamilyPathMatcher::Prefix("common/buildings/")), ScriptFileKind::Buildings), ModuleNameRule::Static("buildings")), country_from_scope_spec(ScopeType::Province)), merge_ready_caps()), MergeKeySource::AssignmentKey), ScalarMergePolicy::LastWriter), ListMergePolicy::Replace), ContentLoadPolicy::DefinitionModule(directory_module_spec("common/buildings", "common/buildings/zzz_foch_buildings.txt"))))
        .push(with_load_policy(with_scalar_policy(with_merge_key(with_capabilities(with_scope(with_module_name(with_kind(default_descriptor("common/institutions", ContentFamilyPathMatcher::Prefix("common/institutions/")), ScriptFileKind::Institutions), ModuleNameRule::Static("institutions")), scope_policy_spec(ScopeType::Province)), merge_ready_caps()), MergeKeySource::AssignmentKey), ScalarMergePolicy::Sum), ContentLoadPolicy::DefinitionModule(directory_module_spec("common/institutions", "common/institutions/zzz_foch_institutions.txt"))))
        .push(with_load_policy(with_merge_key(with_capabilities(with_scope(with_module_name(with_kind(default_descriptor("common/province_triggered_modifiers", ContentFamilyPathMatcher::Prefix("common/province_triggered_modifiers/")), ScriptFileKind::ProvinceTriggeredModifiers), ModuleNameRule::Static("province_triggered_modifiers")), scope_policy_spec(ScopeType::Province)), merge_ready_caps()), MergeKeySource::AssignmentKey), ContentLoadPolicy::DefinitionModule(directory_module_spec("common/province_triggered_modifiers", "common/province_triggered_modifiers/zzz_foch_province_triggered_modifiers.txt"))))
        .push(with_load_policy(with_scalar_policy(with_merge_key(with_capabilities(with_scope(with_module_name(with_kind(default_descriptor("common/ideas", ContentFamilyPathMatcher::Prefix("common/ideas/")), ScriptFileKind::Ideas), ModuleNameRule::Static("ideas")), scope_policy_spec(ScopeType::Country)), merge_ready_caps()), MergeKeySource::AssignmentKey), ScalarMergePolicy::Sum), ContentLoadPolicy::DefinitionModule(directory_module_spec("common/ideas", "common/ideas/zzz_foch_ideas.txt"))))
        .push(with_load_policy(with_merge_key(with_capabilities(with_scope(with_module_name(with_kind(default_descriptor("common/great_projects", ContentFamilyPathMatcher::Prefix("common/great_projects/")), ScriptFileKind::GreatProjects), ModuleNameRule::Static("great_projects")), country_from_scope_spec(ScopeType::Province)), merge_ready_caps()), MergeKeySource::AssignmentKey), ContentLoadPolicy::DefinitionModule(directory_module_spec("common/great_projects", "common/great_projects/zzz_foch_great_projects.txt"))))
        .push(with_load_policy(with_boolean_policy(with_list_policy(with_merge_key(with_capabilities(with_scope(with_module_name(with_kind(default_descriptor("common/government_reforms", ContentFamilyPathMatcher::Prefix("common/government_reforms/")), ScriptFileKind::GovernmentReforms), ModuleNameRule::Static("government_reforms")), scope_policy_spec(ScopeType::Country)), merge_ready_caps()), MergeKeySource::AssignmentKey), ListMergePolicy::Replace), BooleanMergePolicy::And), ContentLoadPolicy::DefinitionModule(directory_module_spec("common/government_reforms", "common/government_reforms/zzz_foch_government_reforms.txt"))))
        .push(with_load_policy(with_merge_key(with_capabilities(with_scope(with_module_name(with_kind(default_descriptor("common/cultures", ContentFamilyPathMatcher::Prefix("common/cultures/")), ScriptFileKind::Cultures), ModuleNameRule::Static("cultures")), unknown_scope_spec()), merge_ready_caps()), MergeKeySource::AssignmentKey), ContentLoadPolicy::DefinitionModule(directory_module_spec("common/cultures", "common/cultures/zzz_foch_cultures.txt"))))
}

/// Part 3 of the family table, in matching order.
pub open spec fn family_table_part_3() -> Seq<ContentFamilyDescriptor> {
    Seq::empty()
        .push(with_load_policy(with_merge_key(with_capabilities(with_scope(with_module_name(with_kind(default_descriptor("common/custom_gui", ContentFamilyPathMatcher::Prefix("common/custom_gui/")), ScriptFileKind::CustomGui), ModuleNameRule::Static("custom_gui")), dynamic_scope_spec()), merge_ready_caps()), MergeKeySource::AssignmentKey), ContentLoadPolicy::DefinitionModule(directory_module_spec("common/custom_gui", "common/custom_gui/zzz_foch_custom_gui.txt"))))
        .push(with_load_policy(with_merge_key(with_capabilities(with_scope(with_module_name(with_kind(default_descriptor("common/advisortypes", ContentFamilyPathMatcher::Prefix("common/advisortypes/")), ScriptFileKind::AdvisorTypes), ModuleNameRule::Static("advisortypes")), scope_policy_spec(ScopeType::Country)), merge_ready_caps()), MergeKeySource::AssignmentKey), ContentLoadPolicy::DefinitionModule(directory_module_spec("common/advisortypes", "common/advisortypes/zzz_foch_advisortypes.txt"))))
        .push(with_load_policy(with_merge_key(with_capabilities(with_scope(with_module_name(with_kind(default_descriptor("common/event_modifiers", ContentFamilyPathMatcher::Prefix("common/event_modifiers/")), ScriptFileKind::EventModifiers), ModuleNameRule::Static("event_modifiers")), scope_policy_spec(ScopeType::Country)), merge_ready_caps()), MergeKeySource::AssignmentKey), ContentLoadPolicy::DefinitionModule(directory_module_spec("common/event_modifiers", "common/event_modifiers/zzz_foch_event_modifiers.txt"))))
        .push(with_load_policy(with_boolean_policy(with_list_policy(with_merge_key(with_capabilities(with_scope(with_module_name(with_kind(default_descriptor("common/cb_types", ContentFamilyPathMatcher::Prefix("common/cb_types/")), ScriptFileKind::CbTypes), ModuleNameRule::Static("cb_types")), country_from_scope_spec(ScopeType::Country)), merge_ready_caps()), MergeKeySource::AssignmentKey), ListMergePolicy::Replace), BooleanMergePolicy::And), ContentLoadPolicy::DefinitionModule(directory_module_spec("common/cb_types", "common/cb_types/zzz_foch_cb_types.txt"))))
        .push(with_load_policy(with_merge_key(with_capabilities(with_scope(with_module_name(with_kind(default_descriptor("common/government_names", ContentFamilyPathMatcher::Prefix("common/government_names/")), ScriptFileKind::GovernmentNames), ModuleNameRule::Static("government_names")), scope_policy_spec(ScopeType::Country)), merge_ready_caps()), MergeKeySource::AssignmentKey), ContentLoadPolicy::DefinitionModule(directory_module_spec("common/government_names", "common/government_names/zzz_foch_government_names.txt"))))
        .push(with_merge_key(with_capabilities(with_scope(with_module_name(with_kind(default_descriptor("customizable_localization", ContentFamilyPathMatcher::Prefix("customizable_localization/")), ScriptFileKind::CustomizableLocalization), ModuleNameRule::Static("customizable_localization")), dynamic_scope_spec()), merge_ready_caps()), MergeKeySource::AssignmentKey))
        .push(with_scalar_policy(with_merge_key(with_capabilities(with_scope(with_module_name(with_kind(default_descriptor("missions", ContentFamilyPathMatcher::Prefix("missions/")), ScriptFileKind::Missions), ModuleNameRule::Static("missions")), country_from_scope_spec(ScopeType::Country)), merge_ready_caps()), MergeKeySource::AssignmentKey), ScalarMergePolicy::LastWriter))
        .push(with_capabilities(with_scope(with_module_name(with_kind(default_descriptor("interface", ContentFamilyPathMatcher::Prefix("interface/")), ScriptFileKind::Ui), ModuleNameRule::Static("ui")), dynamic_scope_spec()), merge_ready_caps()))
        .push(with_capabilities(with_scope(with_module_name(with_kind(default_descriptor("common/interface", ContentFamilyPathMatcher::Prefix("common/interface/")), ScriptFileKind::Ui), ModuleNameRule::Static("ui")), dynamic_scope_spec()), merge_ready_caps()))
        .push(with_capabilities(with_scope(with_module_name(with_kind(default_descriptor("gfx", ContentFamilyPathMatcher::Prefix("gfx/")), ScriptFileKind::Ui), ModuleNameRule::Static("ui")), dynamic_scope_spec()), merge_ready_caps()))
        .push(with_load_policy(with_merge_key(with_capabilities(with_scope(with_module_name(default_descriptor("common/ai_army", ContentFamilyPathMatcher::Prefix("common/ai_army/")), ModuleNameRule::Static("ai_army")), unknown_scope_spec()), merge_ready_caps()), MergeKeySource::AssignmentKey), ContentLoadPolicy::DefinitionModule(directory_module_spec("common/ai_army", "common/ai_army/zzz_foch_ai_army.txt"))))
        .push(with_load_policy(with_merge_key(with_capabilities(with_scope(with_module_name(default_descriptor("common/ai_attitudes", ContentFamilyPathMatcher::Prefix("common/ai_attitudes/")), ModuleNameRule::Static("ai_attitudes")), unknown_scope_spec()), merge_ready_caps()), MergeKeySource::AssignmentKey), ContentLoadPolicy::DefinitionModule(directory_module_spec("common/ai_attitudes", "common/ai_attitudes/zzz_foch_ai_attitudes.txt"))))
        .push(with_load_policy(with_merge_key(with_capabilities(with_scope(with_module_name(default_descriptor("common/ai_personalities", ContentFamilyPathMatcher::Prefix("common/ai_personalities/")), ModuleNameRule::Static("ai_personalities")), unknown_scope_spec()), merge_ready_caps()), MergeKeySource::AssignmentKey), ContentLoadPolicy::DefinitionModule(directory_module_spec("common/ai_personalities", "common/ai_personalities/zzz_foch_ai_personalities.txt"))))
        .push(with_load_policy(with_merge_key(with_capabilities(with_scope(with_module_name(default_descriptor("common/alerts", ContentFamilyPathMatcher::Prefix("common/alerts/")), ModuleNameRule::Static("alerts")), unknown_scope_spec()), merge_ready_caps()), MergeKeySource::AssignmentKey), ContentLoadPolicy::DefinitionModule(directory_module_spec("common/alerts", "common/alerts/zzz_foch_alerts.txt"))))
        .push(with_load_policy(with_merge_key(with_capabilities(with_scope(with_module_name(default_descriptor("common/ancestor_personalities", ContentFamilyPathMatcher::Prefix("common/ancestor_personalities/")), ModuleNameRule::Static("ancestor_personalities")), unknown_scope_spec()), merge_ready_caps()), MergeKeySource::AssignmentKey), ContentLoadPolicy::DefinitionModule(directory_module_spec("common/ancestor_personalities", "common/ancestor_personalities/zzz_foch_ancestor_personalities.txt"))))
        .push(with_load_policy(with_merge_key(with_capabilities(with_scope(with_module_name(default_descriptor("common/centers_of_trade", ContentFamilyPathMatcher::Prefix("common/centers_of_trade/")), ModuleNameRule::Static("centers_of_trade")), scope_policy_spec(ScopeType::Province)), merge_ready_caps()), MergeKeySource::AssignmentKey), ContentLoadPolicy::DefinitionModule(directory_module_spec("common/centers_of_trade", "common/centers_of_trade/zzz_foch_centers_of_trade.txt"))))
        .push(with_load_policy(with_merge_key(with_capabilities(with_scope(with_module_name(default_descriptor("common/client_states", ContentFamilyPathMatcher::Prefix("common/client_states/")), ModuleNameRule::Static("client_states")), unknown_scope_spec()), merge_ready_caps()), MergeKeySource::AssignmentKey), ContentLoadPolicy::DefinitionModule(directory_module_spec("common/client_states", "common/client_states/zzz_foch_client_states.txt"))))
        .push(with_load_policy(with_merge_key(with_capabilities(with_scope(with_module_name(default_descriptor("common/colonial_regions", ContentFamilyPathMatcher::Prefix("common/colonial_regions/")), ModuleNameRule::Static("colonial_regions")), unknown_scope_spec()), merge_ready_caps()), MergeKeySource::AssignmentKey), ContentLoadPolicy::DefinitionModule(directory_module_spec("common/colonial_regions", "common/colonial_regions/zzz_foch_colonial_regions.txt"))))
        .push(with_load_policy(with_merge_key(with_capabilities(with_scope(with_module_name(default_descriptor("common/country_colors", ContentFamilyPathMatcher::Prefix("common/country_colors/")), ModuleNameRule::Static("country_colors")), unknown_scope_spec()), merge_ready_caps()), MergeKeySource::AssignmentKey), ContentLoadPolicy::DefinitionModule(directory_module_spec("common/country_colors", "common/country_colors/zzz_foch_country_colors.txt"))))
        .push(with_load_policy(with_merge_key(with_capabilities(with_scope(with_module_name(default_descriptor("common/custom_country_colors", ContentFamilyPathMatcher::Prefix("common/custom_country_colors/")), ModuleNameRule::Static("custom_country_colors")), unknown_scope_spec()), merge_ready_caps()), MergeKeySource::AssignmentKey), ContentLoadPolicy::DefinitionModule(directory_module_spec("common/custom_country_colors", "common/custom_country_colors/zzz_foch_custom_country_colors.txt"))))
        .push(with_load_policy(with_merge_key(with_capabilities(with_scope(with_module_name(default_descriptor("common/custom_ideas", ContentFamilyPathMatcher::Prefix("common/custom_ideas/")), ModuleNameRule::Static("custom_ideas")), country_from_scope_spec(ScopeType::Country)), merge_ready_caps()), MergeKeySource::AssignmentKey), ContentLoadPolicy::DefinitionModule(directory_module_spec("common/custom_ideas", "common/custom_ideas/zzz_foch_custom_ideas.txt"))))
        .push(with_load_policy(with_merge_key(with_capabilities(with_scope(with_module_name(default_descriptor("common/dynasty_colors", ContentFamilyPathMatcher::Prefix("common/dynasty_colors/")), ModuleNameRule::Static("dynasty_colors")), unknown_scope_spec()), merge_ready_caps()), MergeKeySource::AssignmentKey), ContentLoadPolicy::DefinitionModule(directory_module_spec("common/dynasty_colors", "common/dynasty_colors/zzz_foch_dynasty_colors.txt"))))
        .push(with_load_policy(with_merge_key(with_capabilities(with_scope(with_module_name(default_descriptor("common/estate_crown_land", ContentFamilyPathMatcher::Prefix("common/estate_crown_land/")), ModuleNameRule::Static("estate_crown_land")), country_from_scope_spec(ScopeType::Country)), merge_ready_caps()), MergeKeySource::AssignmentKey), ContentLoadPolicy::DefinitionModule(directory_module_spec("common/estate_crown_land", "common/estate_crown_land/zzz_foch_estate_crown_land.txt"))))
        .push(with_load_policy(with_capabilities(with_scope(with_module_name(default_descriptor("common/estates_preload", ContentFamilyPathMatcher::Prefix("common/estates_preload/")), ModuleNameRule::Static("estates_preload")), unknown_scope_spec()), merge_ready_caps()), ContentLoadPolicy::DefinitionModule(directory_module_spec("common/estates_preload", "common/estates_preload/zzz_foch_estates_preload.txt"))))
        .push(with_load_policy(with_list_policy(with_merge_key(with_capabilities(with_scope(with_module_name(default_descriptor("common/governments", ContentFamilyPathMatcher::Prefix("common/governments/")), ModuleNameRule::Static("governments")), unknown_scope_spec()), merge_ready_caps()), MergeKeySource::AssignmentKey), ListMergePolicy::OrderedUnion), ContentLoadPolicy::DefinitionModule(governments_module_spec())))
        .push(with_merge_key(with_capabilities(with_scope(with_module_name(default_descriptor("common/graphicalculturetype", ContentFamilyPathMatcher::Exact("common/graphicalculturetype.txt")), ModuleNameRule::Static("graphicalculturetype")), unknown_scope_spec()), merge_ready_caps()), MergeKeySource::AssignmentKey))
        .push(with_merge_key(with_capabilities(with_scope(with_module_name(default_descriptor("common/historial_lucky", ContentFamilyPathMatcher::Exact("common/historial_lucky.txt")), ModuleNameRule::Static("historial_lucky")), unknown_scope_spec()), merge_ready_caps()), MergeKeySource::AssignmentKey))
        .push(with_load_policy(with_merge_key(with_capabilities(with_scope(with_module_name(default_descriptor("common/imperial_incidents", ContentFamilyPathMatcher::Prefix("common/imperial_incidents/")), ModuleNameRule::Static("imperial_incidents")), country_from_scope_spec(ScopeType::Country)), merge_ready_caps()), MergeKeySource::AssignmentKey), ContentLoadPolicy::DefinitionModule(directory_module_spec("common/imperial_incidents", "common/imperial_incidents/zzz_foch_imperial_incidents.txt"))))
        .push(with_load_policy(with_merge_key(with_capabilities(with_scope(with_module_name(default_descriptor("common/imperial_reforms", ContentFamilyPathMatcher::Prefix("common/imperial_reforms/")), ModuleNameRule::Static("imperial_reforms")), country_from_scope_spec(ScopeType::Country)), merge_ready_caps()), MergeKeySource::AssignmentKey), ContentLoadPolicy::DefinitionModule(directory_module_spec("common/imperial_reforms", "common/imperial_reforms/zzz_foch_imperial_reforms.txt"))))
        .push(with_load_policy(with_merge_key(with_capabilities(with_scope(with_module_name(default_descriptor("common/incidents", ContentFamilyPathMatcher::Prefix("common/incidents/")), ModuleNameRule::Static("incidents")), country_from_scope_spec(ScopeType::Country)), merge_ready_caps()), MergeKeySource::AssignmentKey), ContentLoadPolicy::DefinitionModule(directory_module_spec("common/incidents", "common/incidents/zzz_foch_incidents.txt"))))
        .push(with_load_policy(with_merge_key(with_capabilities(with_scope(with_module_name(default_descriptor("common/insults", ContentFamilyPathMatcher::Prefix("common/insults/")), ModuleNameRule::Static("insults")), country_from_scope_spec(ScopeType::Country)), merge_ready_caps()), MergeKeySource::AssignmentKey), ContentLoadPolicy::DefinitionModule(directory_module_spec("common/insults", "common/insults/zzz_foch_insults.txt"))))
        .push(with_load_policy(with_merge_key(with_capabilities(with_scope(with_module_name(default_descriptor("common/leader_personalities", ContentFamilyPathMatcher::Prefix("common/leader_personalities/")), ModuleNameRule::Static("leader_personalities")), unknown_scope_spec()), merge_ready_caps()), MergeKeySource::AssignmentKey), ContentLoadPolicy::DefinitionModule(directory_module_spec("common/leader_personalities", "common/leader_personalities/zzz_foch_leader_personalities.txt"))))
        .push(with_load_policy(with_merge_key(with_capabilities(with_scope(with_module_name(default_descriptor("common/natives", ContentFamilyPathMatcher::Prefix("common/natives/")), ModuleNameRule::Static("natives")), unknown_scope_spec()), merge_ready_caps()), MergeKeySource::AssignmentKey), ContentLoadPolicy::DefinitionModule(directory_module_spec("common/natives", "common/natives/zzz_foch_natives.txt"))))
        .push(with_load_policy(with_merge_key(with_capabilities(with_scope(with_module_name(default_descriptor("common/opinion_modifiers", ContentFamilyPathMatcher::Prefix("common/opinion_modifiers/")), ModuleNameRule::Static("opinion_modifiers")), unknown_scope_spec()), merge_ready_caps()), MergeKeySource::AssignmentKey), ContentLoadPolicy::DefinitionModule(directory_module_spec("common/opinion_modifiers", "common/opinion_modifiers/zzz_foch_opinion_modifiers.txt"))))
        .push(with_load_policy(with_merge_key(with_capabilities(with_scope(with_module_name(default_descriptor("common/prices", ContentFamilyPathMatcher::Prefix("common/prices/")), ModuleNameRule::Static("prices")), unknown_scope_spec()), merge_ready_caps()), MergeKeySource::AssignmentKey), ContentLoadPolicy::DefinitionModule(directory_module_spec("common/prices", "common/prices/zzz_foch_prices.txt"))))
        .push(with_load_policy(with_merge_key(with_capabilities(with_scope(with_module_name(default_descriptor("common/region_colors", ContentFamilyPathMatcher::Prefix("common/region_colors/")), ModuleNameRule::Static("region_colors")), unknown_scope_spec()), merge_ready_caps()), MergeKeySource::AssignmentKey), ContentLoadPolicy::DefinitionModule(directory_module_spec("common/region_colors", "common/region_colors/zzz_foch_region_colors.txt"))))
}

/// Part 4 of the family table, in matching order.
pub open spec fn family_table_part_4() -> Seq<ContentFamilyDescriptor> {
    Seq::empty()
        .push(with_load_policy(with_merge_key(with_capabilities(with_scope(with_module_name(default_descriptor("common/religious_conversions", ContentFamilyPathMatcher::Prefix("common/religious_conversions/")), ModuleNameRule::Static("religious_conversions")), country_from_scope_spec(ScopeType::Province)), merge_ready_caps()), MergeKeySource::AssignmentKey), ContentLoadPolicy::DefinitionModule(directory_module_spec("common/religious_conversions", "common/religious_conversions/zzz_foch_religious_conversions.txt"))))
        .push(with_load_policy(with_merge_key(with_capabilities(with_scope(with_module_name(default_descriptor("common/religious_reforms", ContentFamilyPathMatcher::Prefix("common/religious_reforms/")), ModuleNameRule::Static("religious_reforms")), country_from_scope_spec(ScopeType::Country)), merge_ready_caps()), MergeKeySource::AssignmentKey), ContentLoadPolicy::DefinitionModule(directory_module_spec("common/religious_reforms", "common/religious_reforms/zzz_foch_religious_reforms.txt"))))
        .push(with_load_policy(with_merge_key(with_capabilities(with_scope(with_module_name(default_descriptor("common/revolt_triggers", ContentFamilyPathMatcher::Prefix("common/revolt_triggers/")), ModuleNameRule::Static("revolt_triggers")), country_from_scope_spec(ScopeType::Country)), merge_ready_caps()), MergeKeySource::AssignmentKey), ContentLoadPolicy::DefinitionModule(directory_module_spec("common/revolt_triggers", "common/revolt_triggers/zzz_foch_revolt_triggers.txt"))))
        .push(with_load_policy(with_merge_key(with_capabilities(with_scope(with_module_name(default_descriptor("common/revolution", ContentFamilyPathMatcher::Prefix("common/revolution/")), ModuleNameRule::Static("revolution")), country_from_scope_spec(ScopeType::Country)), merge_ready_caps()), MergeKeySource::AssignmentKey), ContentLoadPolicy::DefinitionModule(directory_module_spec("common/revolution", "common/revolution/zzz_foch_revolution.txt"))))
        .push(with_load_policy(with_merge_key(with_capabilities(with_scope(with_module_name(default_descriptor("common/ruler_personalities", ContentFamilyPathMatcher::Prefix("common/ruler_personalities/")), ModuleNameRule::Static("ruler_personalities")), unknown_scope_spec()), merge_ready_caps()), MergeKeySource::AssignmentKey), ContentLoadPolicy::DefinitionModule(directory_module_spec("common/ruler_personalities", "common/ruler_personalities/zzz_foch_ruler_personalities.txt"))))
        .push(with_load_policy(with_merge_key(with_capabilities(with_scope(with_module_name(default_descriptor("common/scripted_functions", ContentFamilyPathMatcher::Prefix("common/scripted_functions/")), ModuleNameRule::Static("scripted_functions")), dynamic_scope_spec()), merge_ready_caps()), MergeKeySource::AssignmentKey), ContentLoadPolicy::DefinitionModule(directory_module_spec("common/scripted_functions", "common/scripted_functions/zzz_foch_scripted_functions.txt"))))
        .push(with_load_policy(with_scalar_policy(with_merge_key(with_capabilities(with_scope(with_module_name(default_descriptor("common/static_modifiers", ContentFamilyPathMatcher::Prefix("common/static_modifiers/")), ModuleNameRule::Static("static_modifiers")), unknown_scope_spec()), merge_ready_caps()), MergeKeySource::AssignmentKey), ScalarMergePolicy::Sum), ContentLoadPolicy::DefinitionModule(directory_module_spec("common/static_modifiers", "common/static_modifiers/zzz_foch_static_modifiers.txt"))))
        .push(with_load_policy(with_merge_key(with_capabilities(with_scope(with_module_name(default_descriptor("common/timed_modifiers", ContentFamilyPathMatcher::Prefix("common/timed_modifiers/")), ModuleNameRule::Static("timed_modifiers")), unknown_scope_spec()), merge_ready_caps()), MergeKeySource::AssignmentKey), ContentLoadPolicy::DefinitionModule(directory_module_spec("common/timed_modifiers", "common/timed_modifiers/zzz_foch_timed_modifiers.txt"))))
        .push(with_load_policy(with_merge_key(with_capabilities(with_scope(with_module_name(default_descriptor("common/trade_companies", ContentFamilyPathMatcher::Prefix("common/trade_companies/")), ModuleNameRule::Static("trade_companies")), unknown_scope_spec()), merge_ready_caps()), MergeKeySource::AssignmentKey), ContentLoadPolicy::DefinitionModule(directory_module_spec("common/trade_companies", "common/trade_companies/zzz_foch_trade_companies.txt"))))
        .push(with_load_policy(with_merge_key(with_capabilities(with_scope(with_module_name(default_descriptor("common/tradecompany_investments", ContentFamilyPathMatcher::Prefix("common/tradecompany_investments/")), ModuleNameRule::Static("tradecompany_investments")), country_from_scope_spec(ScopeType::Province)), merge_ready_caps()), MergeKeySource::AssignmentKey), ContentLoadPolicy::DefinitionModule(directory_module_spec("common/tradecompany_investments", "common/tradecompany_investments/zzz_foch_tradecompany_investments.txt"))))
        .push(with_load_policy(with_list_policy(with_merge_key(with_capabilities(with_scope(with_module_name(default_descriptor("common/tradegoods", ContentFamilyPathMatcher::Prefix("common/tradegoods/")), ModuleNameRule::Static("tradegoods")), country_from_scope_spec(ScopeType::Province)), merge_ready_caps()), MergeKeySource::AssignmentKey), ListMergePolicy::Replace), ContentLoadPolicy::DefinitionModule(directory_module_spec("common/tradegoods", "common/tradegoods/zzz_foch_tradegoods.txt"))))
        .push(with_load_policy(with_block_policy(with_merge_key(with_capabilities(with_scope(with_module_name(default_descriptor("common/tradenodes", ContentFamilyPathMatcher::Prefix("common/tradenodes/")), ModuleNameRule::Static("tradenodes")), unknown_scope_spec()), merge_ready_caps()), MergeKeySource::AssignmentKey), BlockMergePolicy::Replace), ContentLoadPolicy::DefinitionModule(directory_module_spec("common/tradenodes", "common/tradenodes/zzz_foch_tradenodes.txt"))))
        .push(with_load_policy(with_merge_key(with_capabilities(with_scope(with_module_name(default_descriptor("common/trading_policies", ContentFamilyPathMatcher::Prefix("common/trading_policies/")), ModuleNameRule::Static("trading_policies")), country_from_scope_spec(ScopeType::Country)), merge_ready_caps()), MergeKeySource::AssignmentKey), ContentLoadPolicy::DefinitionModule(directory_module_spec("common/trading_policies", "common/trading_policies/zzz_foch_trading_policies.txt"))))
        .push(with_load_policy(with_merge_key(with_capabilities(with_scope(with_module_name(default_descriptor("common/units_display", ContentFamilyPathMatcher::Prefix("common/units_display/")), ModuleNameRule::Static("units_display")), unknown_scope_spec()), merge_ready_caps()), MergeKeySource::AssignmentKey), ContentLoadPolicy::DefinitionModule(directory_module_spec("common/units_display", "common/units_display/zzz_foch_units_display.txt"))))
        .push(with_load_policy(with_merge_key(with_capabilities(with_scope(with_module_name(default_descriptor("common/wargoal_types", ContentFamilyPathMatcher::Prefix("common/wargoal_types/")), ModuleNameRule::Static("wargoal_types")), country_from_scope_spec(ScopeType::Country)), merge_ready_caps()), MergeKeySource::AssignmentKey), ContentLoadPolicy::DefinitionModule(directory_module_spec("common/wargoal_types", "common/wargoal_types/zzz_foch_wargoal_types.txt"))))
        .push(with_merge_key(with_capabilities(with_scope(with_module_name(default_descriptor("map/ambient_object", ContentFamilyPathMatcher::Exact("map/ambient_object.txt")), ModuleNameRule::Static("ambient_object")), unknown_scope_spec()), merge_ready_caps()), MergeKeySource::AssignmentKey))
        .push(with_merge_key(with_capabilities(with_scope(with_module_name(default_descriptor("map/area", ContentFamilyPathMatcher::Exact("map/area.txt")), ModuleNameRule::Static("area")), unknown_scope_spec()), merge_ready_caps()), MergeKeySource::AssignmentKey))
        .push(with_merge_key(with_capabilities(with_scope(with_module_name(default_descriptor("map/climate", ContentFamilyPathMatcher::Exact("map/climate.txt")), ModuleNameRule::Static("climate")), unknown_scope_spec()), merge_ready_caps()), MergeKeySource::AssignmentKey))
        .push(with_merge_key(with_capabilities(with_scope(with_module_name(default_descriptor("map/continent", ContentFamilyPathMatcher::Exact("map/continent.txt")), ModuleNameRule::Static("continent")), unknown_scope_spec()), merge_ready_caps()), MergeKeySource::AssignmentKey))
        .push(with_merge_key(with_capabilities(with_scope(with_module_name(default_descriptor("map/lakes", ContentFamilyPathMatcher::Exact("map/lakes.txt")), ModuleNameRule::Static("lakes")), unknown_scope_spec()), merge_ready_caps()), MergeKeySource::AssignmentKey))
        .push(with_block_policy(with_merge_key(with_capabilities(with_scope(with_module_name(default_descriptor("map/positions", ContentFamilyPathMatcher::Exact("map/positions.txt")), ModuleNameRule::Static("positions")), unknown_scope_spec()), merge_ready_caps()), MergeKeySource::AssignmentKey), BlockMergePolicy::Replace))
        .push(with_merge_key(with_capabilities(with_scope(with_module_name(default_descriptor("map/provincegroup", ContentFamilyPathMatcher::Exact("map/provincegroup.txt")), ModuleNameRule::Static("provincegroup")), unknown_scope_spec()), merge_ready_caps()), MergeKeySource::AssignmentKey))
        .push(with_merge_key(with_capabilities(with_scope(with_module_name(default_descriptor("map/region", ContentFamilyPathMatcher::Exact("map/region.txt")), ModuleNameRule::Static("region")), unknown_scope_spec()), merge_ready_caps()), MergeKeySource::AssignmentKey))
        .push(with_merge_key(with_capabilities(with_scope(with_module_name(default_descriptor("map/seasons", ContentFamilyPathMatcher::Exact("map/seasons.txt")), ModuleNameRule::Static("seasons")), unknown_scope_spec()), merge_ready_caps()), MergeKeySource::AssignmentKey))
        .push(with_merge_key(with_capabilities(with_scope(with_module_name(default_descriptor("map/superregion", ContentFamilyPathMatcher::Exact("map/superregion.txt")), ModuleNameRule::Static("superregion")), unknown_scope_spec()), merge_ready_caps()), MergeKeySource::AssignmentKey))
        .push(with_merge_key(with_capabilities(with_scope(with_module_name(default_descriptor("map/terrain", ContentFamilyPathMatcher::Exact("map/terrain.txt")), ModuleNameRule::Static("terrain")), unknown_scope_spec()), merge_ready_caps()), MergeKeySource::AssignmentKey))
        .push(with_block_policy(with_merge_key(with_capabilities(with_scope(with_module_name(default_descriptor("map/trade_winds", ContentFamilyPathMatcher::Exact("map/trade_winds.txt")), ModuleNameRule::Static("trade_winds")), unknown_scope_spec()), merge_ready_caps()), MergeKeySource::AssignmentKey), BlockMergePolicy::Replace))
        .push(with_merge_key(with_capabilities(with_scope(with_module_name(default_descriptor("music", ContentFamilyPathMatcher::Prefix("music/")), ModuleNameRule::Static("music")), unknown_scope_spec()), merge_ready_caps()), MergeKeySource::FieldValue("name")))
        .push(with_merge_key(with_capabilities(with_scope(with_module_name(default_descriptor("sound", ContentFamilyPathMatcher::Prefix("sound/")), ModuleNameRule::Static("sound")), unknown_scope_spec()), merge_ready_caps()), MergeKeySource::FieldValue("name")))
        .push(with_merge_key(with_capabilities(with_scope(with_module_name(default_descriptor("trigger_profile.txt", ContentFamilyPathMatcher::Exact("trigger_profile.txt")), ModuleNameRule::Static("trigger_profile")), unknown_scope_spec()), merge_ready_caps()), MergeKeySource::AssignmentKey))
        .push(with_merge_key(with_capabilities(with_scope(with_module_name(default_descriptor("tutorial", ContentFamilyPathMatcher::Prefix("tutorial/")), ModuleNameRule::Static("tutorial")), unknown_scope_spec()), merge_ready_caps()), MergeKeySource::FieldValue("index")))
        .push(with_merge_key(with_capabilities(with_scope(with_module_name(default_descriptor("tweakergui_assets", ContentFamilyPathMatcher::Prefix("tweakergui_assets/")), ModuleNameRule::Static("tweakergui_assets")), unknown_scope_spec()), merge_ready_caps()), MergeKeySource::AssignmentKey))
        .push(with_merge_key(with_capabilities(with_scope(with_module_name(default_descriptor("userdir.txt", ContentFamilyPathMatcher::Exact("userdir.txt")), ModuleNameRule::Static("userdir")), unknown_scope_spec()), merge_ready_caps()), MergeKeySource::AssignmentKey))
}

/// The EU4 content families, in the order in which a path is matched
/// against them: the first family whose matcher accepts the path is its family.
pub open spec fn eu4_family_table() -> Seq<ContentFamilyDescriptor> {
    family_table_part_1() + family_table_part_2() + family_table_part_3() + family_table_part_4()
}

#[verifier::rlimit(40)]
fn family_table_part_1_vec() -> (r: Vec<ContentFamilyDescriptor>)
    ensures
        r@ == family_table_part_1(),
{
    let mut f: Vec<ContentFamilyDescriptor> = Vec::new();
    f.push(
        ContentFamilyDescriptor::prefix("events/common/new_diplomatic_actions", "events/common/new_diplomatic_actions/")
            .kind(ScriptFileKind::NewDiplomaticActions)
            .module_name(ModuleNameRule::Tail { prefix_len: 2, fallback: "new_diplomatic_actions" })
            .scope(country_from_scope(ScopeType::Country))
            .capabilities(semantic_complete_and_merge_ready())
            .merge_key(MergeKeySource::AssignmentKey)
            .build(),
    );
    f.push(
        ContentFamilyDescriptor::prefix("common/on_actions", "common/on_actions/")
            .kind(ScriptFileKind::OnActions)
            .module_name(ModuleNameRule::Static("on_actions"))
            .scope(dynamic_scope_policy())
            .capabilities(semantic_complete_and_merge_ready())
            .merge_key(MergeKeySource::AssignmentKey)
            .load_policy(ContentLoadPolicy::DefinitionModule(directory_module("common/on_actions", "common/on_actions/zzz_foch_on_actions.txt")))
            .build(),
    );
    f.push(
        ContentFamilyDescriptor::prefix("events/common/on_actions", "events/common/on_actions/")
            .kind(ScriptFileKind::OnActions)
            .module_name(ModuleNameRule::Static("on_actions"))
            .scope(dynamic_scope_policy())
            .capabilities(semantic_complete_and_merge_ready())
            .merge_key(MergeKeySource::AssignmentKey)
            .build(),
    );
    f.push(
        ContentFamilyDescriptor::prefix("events/decisions", "events/decisions/")
            .kind(ScriptFileKind::Decisions)
            .module_name(ModuleNameRule::Static("decisions"))
            .scope(scope(ScopeType::Country))
            .capabilities(semantic_complete_merge_ready_cross_file_dedup_safe())
            .merge_key(MergeKeySource::ContainerChildKey)
            .scalar_policy(ScalarMergePolicy::LastWriter)
            .boolean_policy(BooleanMergePolicy::And)
            .build(),
    );
    f.push(
        ContentFamilyDescriptor::prefix("events", "events/")
            .kind(ScriptFileKind::Events)
            .module_name(ModuleNameRule::Static("events"))
            .scope(unknown_scope())
            .capabilities(semantic_complete_merge_ready_cross_file_dedup_safe())
            .merge_key(MergeKeySource::FieldValue("id"))
            .scalar_policy(ScalarMergePolicy::LastWriter)
            .list_policy(ListMergePolicy::UnionWithRename)
            .boolean_policy(BooleanMergePolicy::And)
            .build(),
    );
    f.push(
        ContentFamilyDescriptor::prefix("decisions", "decisions/")
            .kind(ScriptFileKind::Decisions)
            .module_name(ModuleNameRule::Static("decisions"))
            .scope(scope(ScopeType::Country))
            .capabilities(semantic_complete_merge_ready_cross_file_dedup_safe())
            .merge_key(MergeKeySource::ContainerChildKey)
            .scalar_policy(ScalarMergePolicy::LastWriter)
            .boolean_policy(BooleanMergePolicy::And)
            .build(),
    );
    f.push(
        ContentFamilyDescriptor::prefix("common/scripted_effects", "common/scripted_effects/")
            .kind(ScriptFileKind::ScriptedEffects)
            .module_name(ModuleNameRule::Tail { prefix_len: 2, fallback: "scripted_effects" })
            .scope(dynamic_scope_policy())
            .capabilities(semantic_complete_merge_ready_cross_file_dedup_safe())
            .merge_key(MergeKeySource::AssignmentKey)
            .load_policy(ContentLoadPolicy::DefinitionModule(directory_module("common/scripted_effects", "common/scripted_effects/zzz_foch_scripted_effects.txt")))
            .build(),
    );
    f.push(
        ContentFamilyDescriptor::prefix("common/scripted_triggers", "common/scripted_triggers/")
            .kind(ScriptFileKind::ScriptedTriggers)
            .module_name(ModuleNameRule::Tail { prefix_len: 2, fallback: "scripted_triggers" })
            .scope(dynamic_scope_policy())
            .capabilities(semantic_complete_merge_ready_cross_file_dedup_safe())
            .merge_key(MergeKeySource::AssignmentKey)
            .load_policy(ContentLoadPolicy::DefinitionModule(directory_module("common/scripted_triggers", "common/scripted_triggers/zzz_foch_scripted_triggers.txt")))
            .build(),
    );
    f.push(
        ContentFamilyDescriptor::prefix("common/triggered_modifiers", "common/triggered_modifiers/")
            .kind(ScriptFileKind::TriggeredModifiers)
            .module_name(ModuleNameRule::Tail { prefix_len: 2, fallback: "triggered_modifiers" })
            .scope(scope(ScopeType::Country))
            .capabilities(semantic_complete_and_merge_ready())
            .merge_key(MergeKeySource::AssignmentKey)
            .load_policy(ContentLoadPolicy::DefinitionModule(directory_module("common/triggered_modifiers", "common/triggered_modifiers/zzz_foch_triggered_modifiers.txt")))
            .build(),
    );
    f.push(
        ContentFamilyDescriptor::prefix("common/defines", "common/defines/")
            .kind(ScriptFileKind::Defines)
            .module_name(ModuleNameRule::Tail { prefix_len: 2, fallback: "defines" })
            .scope(unknown_scope())
            .capabilities(semantic_complete_and_merge_ready())
            .merge_key(MergeKeySource::LeafPath)
            .conflict_policy(ConflictPolicy::MergeLeaf)
            .build(),
    );
    f.push(
        ContentFamilyDescriptor::prefix("common/diplomatic_actions", "common/diplomatic_actions/")
            .kind(ScriptFileKind::DiplomaticActions)
            .module_name(ModuleNameRule::Tail { prefix_len: 2, fallback: "diplomatic_actions" })
            .scope(country_from_scope(ScopeType::Country))
            .capabilities(semantic_complete_and_merge_ready())
            .merge_key(MergeKeySource::AssignmentKey)
            .load_policy(ContentLoadPolicy::DefinitionModule(directory_module("common/diplomatic_actions", "common/diplomatic_actions/zzz_foch_diplomatic_actions.txt")))
            .build(),
    );
    f.push(
        ContentFamilyDescriptor::prefix("common/new_diplomatic_actions", "common/new_diplomatic_actions/")
            .kind(ScriptFileKind::NewDiplomaticActions)
            .module_name(ModuleNameRule::Tail { prefix_len: 2, fallback: "new_diplomatic_actions" })
            .scope(country_from_scope(ScopeType::Country))
            .capabilities(semantic_complete_and_merge_ready())
            .merge_key(MergeKeySource::AssignmentKey)
            .load_policy(ContentLoadPolicy::DefinitionModule(directory_module("common/new_diplomatic_actions", "common/new_diplomatic_actions/zzz_foch_new_diplomatic_actions.txt")))
            .build(),
    );
    f.push(
        ContentFamilyDescriptor::prefix("common/country_tags", "common/country_tags/")
            .kind(ScriptFileKind::CountryTags)
            .module_name(ModuleNameRule::Static("country_tags"))
            .scope(scope(ScopeType::Country))
            .capabilities(semantic_complete_and_merge_ready())
            .merge_key(MergeKeySource::AssignmentKey)
            .load_policy(ContentLoadPolicy::DefinitionModule(directory_module("common/country_tags", "common/country_tags/zzz_foch_country_tags.txt")))
            .build(),
    );
    f.push(
        ContentFamilyDescriptor::prefix("common/countries", "common/countries/")
            .kind(ScriptFileKind::Countries)
            .module_name(ModuleNameRule::Static("countries"))
            .scope(scope(ScopeType::Country))
            .capabilities(semantic_complete_and_merge_ready())
            .merge_key(MergeKeySource::AssignmentKey)
            .build(),
    );
    f.push(
        ContentFamilyDescriptor::prefix("history/countries", "history/countries/")
            .kind(ScriptFileKind::CountryHistory)
            .module_name(ModuleNameRule::Static("country_history"))
            .scope(scope(ScopeType::Country))
            .capabilities(semantic_complete_and_merge_ready())
            .merge_key(MergeKeySource::AssignmentKey)
            .build(),
    );
    f.push(
        ContentFamilyDescriptor::prefix("history/provinces", "history/provinces/")
            .kind(ScriptFileKind::ProvinceHistory)
            .module_name(ModuleNameRule::Static("province_history"))
            .scope(scope(ScopeType::Province))
            .capabilities(semantic_complete_and_merge_ready())
            .merge_key(MergeKeySource::AssignmentKey)
            .build(),
    );
    f.push(
        ContentFamilyDescriptor::prefix("history/diplomacy", "history/diplomacy/")
            .kind(ScriptFileKind::DiplomacyHistory)
            .module_name(ModuleNameRule::Static("diplomacy_history"))
            .scope(unknown_scope())
            .capabilities(semantic_complete_and_merge_ready())
            .merge_key(MergeKeySource::AssignmentKey)
            .build(),
    );
    f.push(
        ContentFamilyDescriptor::prefix("history/advisors", "history/advisors/")
            .kind(ScriptFileKind::AdvisorHistory)
            .module_name(ModuleNameRule::Static("advisor_history"))
            .scope(unknown_scope())
            .capabilities(semantic_complete_and_merge_ready())
            .merge_key(MergeKeySource::AssignmentKey)
            .build(),
    );
    f.push(
        ContentFamilyDescriptor::prefix("history/wars", "history/wars/")
            .kind(ScriptFileKind::Wars)
            .module_name(ModuleNameRule::Static("wars"))
            .scope(unknown_scope())
            .capabilities(semantic_complete_and_merge_ready())
            .merge_key(MergeKeySource::AssignmentKey)
            .build(),
    );
    f.push(
        ContentFamilyDescriptor::prefix("common/units", "common/units/")
            .kind(ScriptFileKind::Units)
            .module_name(ModuleNameRule::Static("units"))
            .scope(unknown_scope())
            .capabilities(semantic_complete_and_merge_ready())
            .merge_key(MergeKeySource::AssignmentKey)
            .build(),
    );
    f.push(
        ContentFamilyDescriptor::prefix("common/religions", "common/religions/")
            .kind(ScriptFileKind::Religions)
            .module_name(ModuleNameRule::Static("religions"))
            .scope(country_from_only())
            .capabilities(semantic_complete_and_merge_ready())
            .merge_key(MergeKeySource::AssignmentKey)
            .scalar_policy(ScalarMergePolicy::LastWriter)
            .list_policy(ListMergePolicy::Replace)
            .load_policy(ContentLoadPolicy::DefinitionModule(directory_module("common/religions", "common/religions/zzz_foch_religions.txt")))
            .build(),
    );
    f.push(
        ContentFamilyDescriptor::prefix("common/subject_types", "common/subject_types/")
            .kind(ScriptFileKind::SubjectTypes)
            .module_name(ModuleNameRule::Static("subject_types"))
            .scope(country_from_scope(ScopeType::Country))
            .capabilities(semantic_complete_and_merge_ready())
            .merge_key(MergeKeySource::AssignmentKey)
            .load_policy(ContentLoadPolicy::DefinitionModule(directory_module("common/subject_types", "common/subject_types/zzz_foch_subject_types.txt")))
            .build(),
    );
    f.push(
        ContentFamilyDescriptor::prefix("common/rebel_types", "common/rebel_types/")
            .kind(ScriptFileKind::RebelTypes)
            .module_name(ModuleNameRule::Static("rebel_types"))
            .scope(country_from_scope(ScopeType::Country))
            .capabilities(semantic_complete_and_merge_ready())
            .merge_key(MergeKeySource::AssignmentKey)
            .load_policy(ContentLoadPolicy::DefinitionModule(directory_module("common/rebel_types", "common/rebel_types/zzz_foch_rebel_types.txt")))
            .build(),
    );
    f.push(
        ContentFamilyDescriptor::prefix("common/disasters", "common/disasters/")
            .kind(ScriptFileKind::Disasters)
            .module_name(ModuleNameRule::Static("disasters"))
            .scope(country_from_scope(ScopeType::Country))
            .capabilities(semantic_complete_and_merge_ready())
            .merge_key(MergeKeySource::AssignmentKey)
            .scalar_policy(ScalarMergePolicy::Sum)
            .boolean_policy(BooleanMergePolicy::And)
            .load_policy(ContentLoadPolicy::DefinitionModule(directory_module("common/disasters", "common/disasters/zzz_foch_disasters.txt")))
            .build(),
    );
    f.push(
        ContentFamilyDescriptor::prefix("common/government_mechanics", "common/government_mechanics/")
            .kind(ScriptFileKind::GovernmentMechanics)
            .module_name(ModuleNameRule::Static("government_mechanics"))
            .scope(country_from_scope(ScopeType::Country))
            .capabilities(semantic_complete_and_merge_ready())
            .merge_key(MergeKeySource::AssignmentKey)
            .load_policy(ContentLoadPolicy::DefinitionModule(directory_module("common/government_mechanics", "common/government_mechanics/zzz_foch_government_mechanics.txt")))
            .build(),
    );
    f.push(
        ContentFamilyDescriptor::prefix("common/church_aspects", "common/church_aspects/")
            .kind(ScriptFileKind::ChurchAspects)
            .module_name(ModuleNameRule::Static("church_aspects"))
            .scope(country_from_scope(ScopeType::Country))
            .capabilities(semantic_complete_and_merge_ready())
            .merge_key(MergeKeySource::AssignmentKey)
            .load_policy(ContentLoadPolicy::DefinitionModule(directory_module("common/church_aspects", "common/church_aspects/zzz_foch_church_aspects.txt")))
            .build(),
    );
    f.push(
        ContentFamilyDescriptor::prefix("common/factions", "common/factions/")
            .kind(ScriptFileKind::Factions)
            .module_name(ModuleNameRule::Static("factions"))
            .scope(country_from_scope(ScopeType::Country))
            .capabilities(semantic_complete_and_merge_ready())
            .merge_key(MergeKeySource::AssignmentKey)
            .load_policy(ContentLoadPolicy::DefinitionModule(directory_module("common/factions", "common/factions/zzz_foch_factions.txt")))
            .build(),
    );
    f.push(
        ContentFamilyDescriptor::prefix("common/hegemons", "common/hegemons/")
            .kind(ScriptFileKind::Hegemons)
            .module_name(ModuleNameRule::Static("hegemons"))
            .scope(country_from_scope(ScopeType::Country))
            .capabilities(semantic_complete_and_merge_ready())
            .merge_key(MergeKeySource::AssignmentKey)
            .load_policy(ContentLoadPolicy::DefinitionModule(directory_module("common/hegemons", "common/hegemons/zzz_foch_hegemons.txt")))
            .build(),
    );
    f.push(
        ContentFamilyDescriptor::prefix("common/personal_deities", "common/personal_deities/")
            .kind(ScriptFileKind::PersonalDeities)
            .module_name(ModuleNameRule::Static("personal_deities"))
            .scope(country_from_scope(ScopeType::Country))
            .capabilities(semantic_complete_and_merge_ready())
            .merge_key(MergeKeySource::AssignmentKey)
            .load_policy(ContentLoadPolicy::DefinitionModule(directory_module("common/personal_deities", "common/personal_deities/zzz_foch_personal_deities.txt")))
            .build(),
    );
    f.push(
        ContentFamilyDescriptor::prefix("common/fetishist_cults", "common/fetishist_cults/")
            .kind(ScriptFileKind::FetishistCults)
            .module_name(ModuleNameRule::Static("fetishist_cults"))
            .scope(country_from_scope(ScopeType::Country))
            .capabilities(semantic_complete_and_merge_ready())
            .merge_key(MergeKeySource::AssignmentKey)
            .load_policy(ContentLoadPolicy::DefinitionModule(directory_module("common/fetishist_cults", "common/fetishist_cults/zzz_foch_fetishist_cults.txt")))
            .build(),
    );
    f.push(
        ContentFamilyDescriptor::prefix("common/peace_treaties", "common/peace_treaties/")
            .kind(ScriptFileKind::PeaceTreaties)
            .module_name(ModuleNameRule::Static("peace_treaties"))
            .scope(country_from_scope(ScopeType::Country))
            .capabilities(semantic_complete_and_merge_ready())
            .merge_key(MergeKeySource::AssignmentKey)
            .load_policy(ContentLoadPolicy::DefinitionModule(directory_module("common/peace_treaties", "common/peace_treaties/zzz_foch_peace_treaties.txt")))
            .build(),
    );
    f.push(
        ContentFamilyDescriptor::prefix("common/bookmarks", "common/bookmarks/")
            .kind(ScriptFileKind::Bookmarks)
            .module_name(ModuleNameRule::Static("bookmarks"))
            .scope(unknown_scope())
            .capabilities(semantic_complete_and_merge_ready())
            .merge_key(MergeKeySource::AssignmentKey)
            .load_policy(ContentLoadPolicy::DefinitionModule(directory_module("common/bookmarks", "common/bookmarks/zzz_foch_bookmarks.txt")))
            .build(),
    );
    f.push(
        ContentFamilyDescriptor::prefix("common/policies", "common/policies/")
            .kind(ScriptFileKind::Policies)
            .module_name(ModuleNameRule::Static("policies"))
            .scope(scope(ScopeType::Country))
            .capabilities(semantic_complete_and_merge_ready())
            .merge_key(MergeKeySource::AssignmentKey)
            .scalar_policy(ScalarMergePolicy::Sum)
            .load_policy(ContentLoadPolicy::DefinitionModule(directory_module("common/policies", "common/policies/zzz_foch_policies.txt")))
            .build(),
    );
    f.push(
        ContentFamilyDescriptor::prefix("common/mercenary_companies", "common/mercenary_companies/")
            .kind(ScriptFileKind::MercenaryCompanies)
            .module_name(ModuleNameRule::Static("mercenary_companies"))
            .scope(scope(ScopeType::Country))
            .capabilities(semantic_complete_and_merge_ready())
            .merge_key(MergeKeySource::AssignmentKey)
            .scalar_policy(ScalarMergePolicy::Sum)
            .load_policy(ContentLoadPolicy::DefinitionModule(directory_module("common/mercenary_companies", "common/mercenary_companies/zzz_foch_mercenary_companies.txt")))
            .build(),
    );
    f.push(
        ContentFamilyDescriptor::prefix("common/fervor", "common/fervor/")
            .kind(ScriptFileKind::Fervor)
            .module_name(ModuleNameRule::Static("fervor"))
            .scope(country_from_scope(ScopeType::Country))
            .capabilities(semantic_complete_and_merge_ready())
            .merge_key(MergeKeySource::AssignmentKey)
            .load_policy(ContentLoadPolicy::DefinitionModule(directory_module("common/fervor", "common/fervor/zzz_foch_fervor.txt")))
            .build(),
    );
    f.push(
        ContentFamilyDescriptor::prefix("common/decrees", "common/decrees/")
            .kind(ScriptFileKind::Decrees)
            .module_name(ModuleNameRule::Static("decrees"))
            .scope(scope(ScopeType::Country))
            .capabilities(semantic_complete_and_merge_ready())
            .merge_key(MergeKeySource::AssignmentKey)
            .load_policy(ContentLoadPolicy::DefinitionModule(directory_module("common/decrees", "common/decrees/zzz_foch_decrees.txt")))
            .build(),
    );
    f
}

#[verifier::rlimit(40)]
fn family_table_part_2_vec() -> (r: Vec<ContentFamilyDescriptor>)
    ensures
        r@ == family_table_part_2(),
{
    let mut f: Vec<ContentFamilyDescriptor> = Vec::new();
    f.push(
        ContentFamilyDescriptor::prefix("common/federation_advancements", "common/federation_advancements/")
            .kind(ScriptFileKind::FederationAdvancements)
            .module_name(ModuleNameRule::Static("federation_advancements"))
            .scope(scope(ScopeType::Country))
            .capabilities(semantic_complete_and_merge_ready())
            .merge_key(MergeKeySource::AssignmentKey)
            .load_policy(ContentLoadPolicy::DefinitionModule(directory_module("common/federation_advancements", "common/federation_advancements/zzz_foch_federation_advancements.txt")))
            .build(),
    );
    f.push(
        ContentFamilyDescriptor::prefix("common/golden_bulls", "common/golden_bulls/")
            .kind(ScriptFileKind::GoldenBulls)
            .module_name(ModuleNameRule::Static("golden_bulls"))
            .scope(scope(ScopeType::Country))
            .capabilities(semantic_complete_and_merge_ready())
            .merge_key(MergeKeySource::AssignmentKey)
            .load_policy(ContentLoadPolicy::DefinitionModule(directory_module("common/golden_bulls", "common/golden_bulls/zzz_foch_golden_bulls.txt")))
            .build(),
    );
    f.push(
        ContentFamilyDescriptor::prefix("common/flagship_modifications", "common/flagship_modifications/")
            .kind(ScriptFileKind::FlagshipModifications)
            .module_name(ModuleNameRule::Static("flagship_modifications"))
            .scope(scope(ScopeType::Country))
            .capabilities(semantic_complete_and_merge_ready())
            .merge_key(MergeKeySource::AssignmentKey)
            .load_policy(ContentLoadPolicy::DefinitionModule(directory_module("common/flagship_modifications", "common/flagship_modifications/zzz_foch_flagship_modifications.txt")))
            .build(),
    );
    f.push(
        ContentFamilyDescriptor::prefix("common/holy_orders", "common/holy_orders/")
            .kind(ScriptFileKind::HolyOrders)
            .module_name(ModuleNameRule::Static("holy_orders"))
            .scope(scope(ScopeType::Country))
            .capabilities(semantic_complete_and_merge_ready())
            .merge_key(MergeKeySource::AssignmentKey)
            .scalar_policy(ScalarMergePolicy::Sum)
            .load_policy(ContentLoadPolicy::DefinitionModule(directory_module("common/holy_orders", "common/holy_orders/zzz_foch_holy_orders.txt")))
            .build(),
    );
    f.push(
        ContentFamilyDescriptor::prefix("common/naval_doctrines", "common/naval_doctrines/")
            .kind(ScriptFileKind::NavalDoctrines)
            .module_name(ModuleNameRule::Static("naval_doctrines"))
            .scope(scope(ScopeType::Country))
            .capabilities(semantic_complete_and_merge_ready())
            .merge_key(MergeKeySource::AssignmentKey)
            .load_policy(ContentLoadPolicy::DefinitionModule(directory_module("common/naval_doctrines", "common/naval_doctrines/zzz_foch_naval_doctrines.txt")))
            .build(),
    );
    f.push(
        ContentFamilyDescriptor::prefix("common/defender_of_faith", "common/defender_of_faith/")
            .kind(ScriptFileKind::DefenderOfFaith)
            .module_name(ModuleNameRule::Static("defender_of_faith"))
            .scope(scope(ScopeType::Country))
            .capabilities(semantic_complete_and_merge_ready())
            .merge_key(MergeKeySource::AssignmentKey)
            .load_policy(ContentLoadPolicy::DefinitionModule(directory_module("common/defender_of_faith", "common/defender_of_faith/zzz_foch_defender_of_faith.txt")))
            .build(),
    );
    f.push(
        ContentFamilyDescriptor::prefix("common/isolationism", "common/isolationism/")
            .kind(ScriptFileKind::Isolationism)
            .module_name(ModuleNameRule::Static("isolationism"))
            .scope(scope(ScopeType::Country))
            .capabilities(semantic_complete_and_merge_ready())
            .merge_key(MergeKeySource::AssignmentKey)
            .load_policy(ContentLoadPolicy::DefinitionModule(directory_module("common/isolationism", "common/isolationism/zzz_foch_isolationism.txt")))
            .build(),
    );
    f.push(
        ContentFamilyDescriptor::prefix("common/professionalism", "common/professionalism/")
            .kind(ScriptFileKind::Professionalism)
            .module_name(ModuleNameRule::Static("professionalism"))
            .scope(scope(ScopeType::Country))
            .capabilities(semantic_complete_and_merge_ready())
            .merge_key(MergeKeySource::AssignmentKey)
            .load_policy(ContentLoadPolicy::DefinitionModule(directory_module("common/professionalism", "common/professionalism/zzz_foch_professionalism.txt")))
            .build(),
    );
    f.push(
        ContentFamilyDescriptor::prefix("common/powerprojection", "common/powerprojection/")
            .kind(ScriptFileKind::PowerProjection)
            .module_name(ModuleNameRule::Static("powerprojection"))
            .scope(scope(ScopeType::Country))
            .capabilities(semantic_complete_and_merge_ready())
            .merge_key(MergeKeySource::AssignmentKey)
            .load_policy(ContentLoadPolicy::DefinitionModule(directory_module("common/powerprojection", "common/powerprojection/zzz_foch_powerprojection.txt")))
            .build(),
    );
    f.push(
        ContentFamilyDescriptor::prefix("common/subject_type_upgrades", "common/subject_type_upgrades/")
            .kind(ScriptFileKind::SubjectTypeUpgrades)
            .module_name(ModuleNameRule::Static("subject_type_upgrades"))
            .scope(country_from_scope(ScopeType::Country))
            .capabilities(semantic_complete_and_merge_ready())
            .merge_key(MergeKeySource::AssignmentKey)
            .load_policy(ContentLoadPolicy::DefinitionModule(directory_module("common/subject_type_upgrades", "common/subject_type_upgrades/zzz_foch_subject_type_upgrades.txt")))
            .build(),
    );
    f.push(
        ContentFamilyDescriptor::prefix("common/government_ranks", "common/government_ranks/")
            .kind(ScriptFileKind::GovernmentRanks)
            .module_name(ModuleNameRule::Static("government_ranks"))
            .scope(scope(ScopeType::Country))
            .capabilities(semantic_complete_and_merge_ready())
            .merge_key(MergeKeySource::AssignmentKey)
            .load_policy(ContentLoadPolicy::DefinitionModule(directory_module("common/government_ranks", "common/government_ranks/zzz_foch_government_ranks.txt")))
            .build(),
    );
    f.push(
        ContentFamilyDescriptor::prefix("common/province_names", "common/province_names/")
            .kind(ScriptFileKind::ProvinceNames)
            .module_name(ModuleNameRule::Static("province_names"))
            .scope(unknown_scope())
            .capabilities(semantic_complete_and_merge_ready())
            .merge_key(MergeKeySource::AssignmentKey)
            .load_policy(ContentLoadPolicy::DefinitionModule(directory_module("common/province_names", "common/province_names/zzz_foch_province_names.txt")))
            .build(),
    );
    f.push(
        ContentFamilyDescriptor::prefix("map/random/tiles", "map/random/tiles/")
            .kind(ScriptFileKind::RandomMapTiles)
            .module_name(ModuleNameRule::Static("random_map_tiles"))
            .scope(unknown_scope())
            .capabilities(semantic_complete_and_merge_ready())
            .merge_key(MergeKeySource::AssignmentKey)
            .build(),
    );
    f.push(
        ContentFamilyDescriptor::exact("map/random_names", "map/random/RandomLandNames.txt")
            .kind(ScriptFileKind::RandomMapNames)
            .module_name(ModuleNameRule::Static("random_map_names"))
            .scope(unknown_scope())
            .capabilities(semantic_complete_and_merge_ready())
            .merge_key(MergeKeySource::AssignmentKey)
            .build(),
    );
    f.push(
        ContentFamilyDescriptor::exact("map/random_names", "map/random/RandomSeaNames.txt")
            .kind(ScriptFileKind::RandomMapNames)
            .module_name(ModuleNameRule::Static("random_map_names"))
            .scope(unknown_scope())
            .capabilities(semantic_complete_and_merge_ready())
            .merge_key(MergeKeySource::AssignmentKey)
            .build(),
    );
    f.push(
        ContentFamilyDescriptor::exact("map/random_names", "map/random/RandomLakeNames.txt")
            .kind(ScriptFileKind::RandomMapNames)
            .module_name(ModuleNameRule::Static("random_map_names"))
            .scope(unknown_scope())
            .capabilities(semantic_complete_and_merge_ready())
            .merge_key(MergeKeySource::AssignmentKey)
            .build(),
    );
    f.push(
        ContentFamilyDescriptor::exact("map/random/scenarios", "map/random/RNWScenarios.txt")
            .kind(ScriptFileKind::RandomMapScenarios)
            .module_name(ModuleNameRule::Static("random_map_scenarios"))
            .scope(unknown_scope())
            .capabilities(semantic_complete_and_merge_ready())
            .merge_key(MergeKeySource::AssignmentKey)
            .build(),
    );
    f.push(
        ContentFamilyDescriptor::prefix("common/technologies", "common/technologies/")
            .kind(ScriptFileKind::Technologies)
            .module_name(ModuleNameRule::Static("technologies"))
            .scope(scope(ScopeType::Country))
            .capabilities(semantic_complete_and_merge_ready())
            .merge_key(MergeKeySource::AssignmentKey)
            .load_policy(ContentLoadPolicy::DefinitionModule(directory_module("common/technologies", "common/technologies/zzz_foch_technologies.txt")))
            .build(),
    );
    f.push(
        ContentFamilyDescriptor::exact("common/technology", "common/technology.txt")
            .kind(ScriptFileKind::TechnologyGroups)
            .module_name(ModuleNameRule::Static("technology_groups"))
            .scope(scope(ScopeType::Country))
            .capabilities(semantic_complete_and_merge_ready())
            .merge_key(MergeKeySource::AssignmentKey)
            .build(),
    );
    f.push(
        ContentFamilyDescriptor::prefix("common/estate_agendas", "common/estate_agendas/")
            .kind(ScriptFileKind::EstateAgendas)
            .module_name(ModuleNameRule::Static("estate_agendas"))
            .scope(country_from_scope(ScopeType::Country))
            .capabilities(semantic_complete_and_merge_ready())
            .merge_key(MergeKeySource::AssignmentKey)
            .load_policy(ContentLoadPolicy::DefinitionModule(directory_module("common/estate_agendas", "common/estate_agendas/zzz_foch_estate_agendas.txt")))
            .build(),
    );
    f.push(
        ContentFamilyDescriptor::prefix("common/estate_privileges", "common/estate_privileges/")
            .kind(ScriptFileKind::EstatePrivileges)
            .module_name(ModuleNameRule::Static("estate_privileges"))
            .scope(country_from_scope(ScopeType::Country))
            .capabilities(semantic_complete_and_merge_ready())
            .merge_key(MergeKeySource::AssignmentKey)
            .scalar_policy(ScalarMergePolicy::Sum)
            .boolean_policy(BooleanMergePolicy::And)
            .load_policy(ContentLoadPolicy::DefinitionModule(directory_module("common/estate_privileges", "common/estate_privileges/zzz_foch_estate_privileges.txt")))
            .build(),
    );
    f.push(
        ContentFamilyDescriptor::prefix("common/estate_action", "common/estate_action/")
            .module_name(ModuleNameRule::Static("estate_action"))
            .scope(country_from_scope(ScopeType::Country))
            .capabilities(semantic_complete_and_merge_ready())
            .merge_key(MergeKeySource::AssignmentKey)
            .load_policy(ContentLoadPolicy::DefinitionModule(directory_module("common/estate_action", "common/estate_action/zzz_foch_estate_action.txt")))
            .build(),
    );
    f.push(
        ContentFamilyDescriptor::prefix("common/native_advancement", "common/native_advancement/")
            .module_name(ModuleNameRule::Static("native_advancement"))
            .scope(scope(ScopeType::Country))
            .capabilities(semantic_complete_and_merge_ready())
            .merge_key(MergeKeySource::AssignmentKey)
            .load_policy(ContentLoadPolicy::DefinitionModule(directory_module("common/native_advancement", "common/native_advancement/zzz_foch_native_advancement.txt")))
            .build(),
    );
    f.push(
        ContentFamilyDescriptor::prefix("common/estates", "common/estates/")
            .kind(ScriptFileKind::Estates)
            .module_name(ModuleNameRule::Static("estates"))
            .scope(scope(ScopeType::Country))
            .capabilities(semantic_complete_and_merge_ready())
            .merge_key(MergeKeySource::AssignmentKey)
            .load_policy(ContentLoadPolicy::DefinitionModule(directory_module("common/estates", "common/estates/zzz_foch_estates.txt")))
            .build(),
    );
    f.push(
        ContentFamilyDescriptor::prefix("common/parliament_bribes", "common/parliament_bribes/")
            .kind(ScriptFileKind::ParliamentBribes)
            .module_name(ModuleNameRule::Static("parliament_bribes"))
            .scope(country_from_scope(ScopeType::Country))
            .capabilities(semantic_complete_and_merge_ready())
            .merge_key(MergeKeySource::AssignmentKey)
            .load_policy(ContentLoadPolicy::DefinitionModule(directory_module("common/parliament_bribes", "common/parliament_bribes/zzz_foch_parliament_bribes.txt")))
            .build(),
    );
    f.push(
        ContentFamilyDescriptor::prefix("common/parliament_issues", "common/parliament_issues/")
            .kind(ScriptFileKind::ParliamentIssues)
            .module_name(ModuleNameRule::Static("parliament_issues"))
            .scope(country_from_scope(ScopeType::Country))
            .capabilities(semantic_complete_and_merge_ready())
            .merge_key(MergeKeySource::AssignmentKey)
            .load_policy(ContentLoadPolicy::DefinitionModule(directory_module("common/parliament_issues", "common/parliament_issues/zzz_foch_parliament_issues.txt")))
            .build(),
    );
    f.push(
        ContentFamilyDescriptor::prefix("common/state_edicts", "common/state_edicts/")
            .kind(ScriptFileKind::StateEdicts)
            .module_name(ModuleNameRule::Static("state_edicts"))
            .scope(country_from_scope(ScopeType::Country))
            .capabilities(semantic_complete_and_merge_ready())
            .merge_key(MergeKeySource::AssignmentKey)
            .load_policy(ContentLoadPolicy::DefinitionModule(directory_module("common/state_edicts", "common/state_edicts/zzz_foch_state_edicts.txt")))
            .build(),
    );
    f.push(
        ContentFamilyDescriptor::exact("common/achievements", "common/achievements.txt")
            .kind(ScriptFileKind::Achievements)
            .module_name(ModuleNameRule::Static("achievements"))
            .scope(scope(ScopeType::Country))
            .capabilities(semantic_complete_and_merge_ready())
            .merge_key(MergeKeySource::AssignmentKey)
            .build(),
    );
    f.push(
        ContentFamilyDescriptor::prefix("common/ages", "common/ages/")
            .kind(ScriptFileKind::Ages)
            .module_name(ModuleNameRule::Static("ages"))
            .scope(scope(ScopeType::Country))
            .capabilities(semantic_complete_and_merge_ready())
            .merge_key(MergeKeySource::AssignmentKey)
            .list_policy(ListMergePolicy::OrderedUnion)
            .load_policy(ContentLoadPolicy::DefinitionModule(directory_module("common/ages", "common/ages/zzz_foch_ages.txt")))
            .build(),
    );
    f.push(
        ContentFamilyDescriptor::prefix("common/buildings", "common/buildings/")
            .kind(ScriptFileKind::Buildings)
            .module_name(ModuleNameRule::Static("buildings"))
            .scope(country_from_scope(ScopeType::Province))
            .capabilities(semantic_complete_and_merge_ready())
            .merge_key(MergeKeySource::AssignmentKey)
            .scalar_policy(ScalarMergePolicy::LastWriter)
            .list_policy(ListMergePolicy::Replace)
            .load_policy(ContentLoadPolicy::DefinitionModule(directory_module("common/buildings", "common/buildings/zzz_foch_buildings.txt")))
            .build(),
    );
    f.push(
        ContentFamilyDescriptor::prefix("common/institutions", "common/institutions/")
            .kind(ScriptFileKind::Institutions)
            .module_name(ModuleNameRule::Static("institutions"))
            .scope(scope(ScopeType::Province))
            .capabilities(semantic_complete_and_merge_ready())
            .merge_key(MergeKeySource::AssignmentKey)
            .scalar_policy(ScalarMergePolicy::Sum)
            .load_policy(ContentLoadPolicy::DefinitionModule(directory_module("common/institutions", "common/institutions/zzz_foch_institutions.txt")))
            .build(),
    );
    f.push(
        ContentFamilyDescriptor::prefix("common/province_triggered_modifiers", "common/province_triggered_modifiers/")
            .kind(ScriptFileKind::ProvinceTriggeredModifiers)
            .module_name(ModuleNameRule::Static("province_triggered_modifiers"))
            .scope(scope(ScopeType::Province))
            .capabilities(semantic_complete_and_merge_ready())
            .merge_key(MergeKeySource::AssignmentKey)
            .load_policy(ContentLoadPolicy::DefinitionModule(directory_module("common/province_triggered_modifiers", "common/province_triggered_modifiers/zzz_foch_province_triggered_modifiers.txt")))
            .build(),
    );
    f.push(
        ContentFamilyDescriptor::prefix("common/ideas", "common/ideas/")
            .kind(ScriptFileKind::Ideas)
            .module_name(ModuleNameRule::Static("ideas"))
            .scope(scope(ScopeType::Country))
            .capabilities(semantic_complete_and_merge_ready())
            .merge_key(MergeKeySource::AssignmentKey)
            .scalar_policy(ScalarMergePolicy::Sum)
            .load_policy(ContentLoadPolicy::DefinitionModule(directory_module("common/ideas", "common/ideas/zzz_foch_ideas.txt")))
            .build(),
    );
    f.push(
        ContentFamilyDescriptor::prefix("common/great_projects", "common/great_projects/")
            .kind(ScriptFileKind::GreatProjects)
            .module_name(ModuleNameRule::Static("great_projects"))
            .scope(country_from_scope(ScopeType::Province))
            .capabilities(semantic_complete_and_merge_ready())
            .merge_key(MergeKeySource::AssignmentKey)
            .load_policy(ContentLoadPolicy::DefinitionModule(directory_module("common/great_projects", "common/great_projects/zzz_foch_great_projects.txt")))
            .build(),
    );
    f.push(
        ContentFamilyDescriptor::prefix("common/government_reforms", "common/government_reforms/")
            .kind(ScriptFileKind::GovernmentReforms)
            .module_name(ModuleNameRule::Static("government_reforms"))
            .scope(scope(ScopeType::Country))
            .capabilities(semantic_complete_and_merge_ready())
            .merge_key(MergeKeySource::AssignmentKey)
            .list_policy(ListMergePolicy::Replace)
            .boolean_policy(BooleanMergePolicy::And)
            .load_policy(ContentLoadPolicy::DefinitionModule(directory_module("common/government_reforms", "common/government_reforms/zzz_foch_government_reforms.txt")))
            .build(),
    );
    f.push(
        ContentFamilyDescriptor::prefix("common/cultures", "common/cultures/")
            .kind(ScriptFileKind::Cultures)
            .module_name(ModuleNameRule::Static("cultures"))
            .scope(unknown_scope())
            .capabilities(semantic_complete_and_merge_ready())
            .merge_key(MergeKeySource::AssignmentKey)
            .load_policy(ContentLoadPolicy::DefinitionModule(directory_module("common/cultures", "common/cultures/zzz_foch_cultures.txt")))
            .build(),
    );
    f
}

#[verifier::rlimit(40)]
fn family_table_part_3_vec() -> (r: Vec<ContentFamilyDescriptor>)
    ensures
        r@ == family_table_part_3(),
{
    let mut f: Vec<ContentFamilyDescriptor> = Vec::new();
    f.push(
        ContentFamilyDescriptor::prefix("common/custom_gui", "common/custom_gui/")
            .kind(ScriptFileKind::CustomGui)
            .module_name(ModuleNameRule::Static("custom_gui"))
            .scope(dynamic_scope_policy())
            .capabilities(semantic_complete_and_merge_ready())
            .merge_key(MergeKeySource::AssignmentKey)
            .load_policy(ContentLoadPolicy::DefinitionModule(directory_module("common/custom_gui", "common/custom_gui/zzz_foch_custom_gui.txt")))
            .build(),
    );
    f.push(
        ContentFamilyDescriptor::prefix("common/advisortypes", "common/advisortypes/")
            .kind(ScriptFileKind::AdvisorTypes)
            .module_name(ModuleNameRule::Static("advisortypes"))
            .scope(scope(ScopeType::Country))
            .capabilities(semantic_complete_and_merge_ready())
            .merge_key(MergeKeySource::AssignmentKey)
            .load_policy(ContentLoadPolicy::DefinitionModule(directory_module("common/advisortypes", "common/advisortypes/zzz_foch_advisortypes.txt")))
            .build(),
    );
    f.push(
        ContentFamilyDescriptor::prefix("common/event_modifiers", "common/event_modifiers/")
            .kind(ScriptFileKind::EventModifiers)
            .module_name(ModuleNameRule::Static("event_modifiers"))
            .scope(scope(ScopeType::Country))
            .capabilities(semantic_complete_and_merge_ready())
            .merge_key(MergeKeySource::AssignmentKey)
            .load_policy(ContentLoadPolicy::DefinitionModule(directory_module("common/event_modifiers", "common/event_modifiers/zzz_foch_event_modifiers.txt")))
            .build(),
    );
    f.push(
        ContentFamilyDescriptor::prefix("common/cb_types", "common/cb_types/")
            .kind(ScriptFileKind::CbTypes)
            .module_name(ModuleNameRule::Static("cb_types"))
            .scope(country_from_scope(ScopeType::Country))
            .capabilities(semantic_complete_and_merge_ready())
            .merge_key(MergeKeySource::AssignmentKey)
            .list_policy(ListMergePolicy::Replace)
            .boolean_policy(BooleanMergePolicy::And)
            .load_policy(ContentLoadPolicy::DefinitionModule(directory_module("common/cb_types", "common/cb_types/zzz_foch_cb_types.txt")))
            .build(),
    );
    f.push(
        ContentFamilyDescriptor::prefix("common/government_names", "common/government_names/")
            .kind(ScriptFileKind::GovernmentNames)
            .module_name(ModuleNameRule::Static("government_names"))
            .scope(scope(ScopeType::Country))
            .capabilities(semantic_complete_and_merge_ready())
            .merge_key(MergeKeySource::AssignmentKey)
            .load_policy(ContentLoadPolicy::DefinitionModule(directory_module("common/government_names", "common/government_names/zzz_foch_government_names.txt")))
            .build(),
    );
    f.push(
        ContentFamilyDescriptor::prefix("customizable_localization", "customizable_localization/")
            .kind(ScriptFileKind::CustomizableLocalization)
            .module_name(ModuleNameRule::Static("customizable_localization"))
            .scope(dynamic_scope_policy())
            .capabilities(semantic_complete_and_merge_ready())
            .merge_key(MergeKeySource::AssignmentKey)
            .build(),
    );
    f.push(
        ContentFamilyDescriptor::prefix("missions", "missions/")
            .kind(ScriptFileKind::Missions)
            .module_name(ModuleNameRule::Static("missions"))
            .scope(country_from_scope(ScopeType::Country))
            .capabilities(semantic_complete_and_merge_ready())
            .merge_key(MergeKeySource::AssignmentKey)
            .scalar_policy(ScalarMergePolicy::LastWriter)
            .build(),
    );
    f.push(
        ContentFamilyDescriptor::prefix("interface", "interface/")
            .kind(ScriptFileKind::Ui)
            .module_name(ModuleNameRule::Static("ui"))
            .scope(dynamic_scope_policy())
            .capabilities(semantic_complete_and_merge_ready())
            .build(),
    );
    f.push(
        ContentFamilyDescriptor::prefix("common/interface", "common/interface/")
            .kind(ScriptFileKind::Ui)
            .module_name(ModuleNameRule::Static("ui"))
            .scope(dynamic_scope_policy())
            .capabilities(semantic_complete_and_merge_ready())
            .build(),
    );
    f.push(
        ContentFamilyDescriptor::prefix("gfx", "gfx/")
            .kind(ScriptFileKind::Ui)
            .module_name(ModuleNameRule::Static("ui"))
            .scope(dynamic_scope_policy())
            .capabilities(semantic_complete_and_merge_ready())
            .build(),
    );
    f.push(
        ContentFamilyDescriptor::prefix("common/ai_army", "common/ai_army/")
            .module_name(ModuleNameRule::Static("ai_army"))
            .scope(unknown_scope())
            .capabilities(semantic_complete_and_merge_ready())
            .merge_key(MergeKeySource::AssignmentKey)
            .load_policy(ContentLoadPolicy::DefinitionModule(directory_module("common/ai_army", "common/ai_army/zzz_foch_ai_army.txt")))
            .build(),
    );
    f.push(
        ContentFamilyDescriptor::prefix("common/ai_attitudes", "common/ai_attitudes/")
            .module_name(ModuleNameRule::Static("ai_attitudes"))
            .scope(unknown_scope())
            .capabilities(semantic_complete_and_merge_ready())
            .merge_key(MergeKeySource::AssignmentKey)
            .load_policy(ContentLoadPolicy::DefinitionModule(directory_module("common/ai_attitudes", "common/ai_attitudes/zzz_foch_ai_attitudes.txt")))
            .build(),
    );
    f.push(
        ContentFamilyDescriptor::prefix("common/ai_personalities", "common/ai_personalities/")
            .module_name(ModuleNameRule::Static("ai_personalities"))
            .scope(unknown_scope())
            .capabilities(semantic_complete_and_merge_ready())
            .merge_key(MergeKeySource::AssignmentKey)
            .load_policy(ContentLoadPolicy::DefinitionModule(directory_module("common/ai_personalities", "common/ai_personalities/zzz_foch_ai_personalities.txt")))
            .build(),
    );
    f.push(
        ContentFamilyDescriptor::prefix("common/alerts", "common/alerts/")
            .module_name(ModuleNameRule::Static("alerts"))
            .scope(unknown_scope())
            .capabilities(semantic_complete_and_merge_ready())
            .merge_key(MergeKeySource::AssignmentKey)
            .load_policy(ContentLoadPolicy::DefinitionModule(directory_module("common/alerts", "common/alerts/zzz_foch_alerts.txt")))
            .build(),
    );
    f.push(
        ContentFamilyDescriptor::prefix("common/ancestor_personalities", "common/ancestor_personalities/")
            .module_name(ModuleNameRule::Static("ancestor_personalities"))
            .scope(unknown_scope())
            .capabilities(semantic_complete_and_merge_ready())
            .merge_key(MergeKeySource::AssignmentKey)
            .load_policy(ContentLoadPolicy::DefinitionModule(directory_module("common/ancestor_personalities", "common/ancestor_personalities/zzz_foch_ancestor_personalities.txt")))
            .build(),
    );
    f.push(
        ContentFamilyDescriptor::prefix("common/centers_of_trade", "common/centers_of_trade/")
            .module_name(ModuleNameRule::Static("centers_of_trade"))
            .scope(scope(ScopeType::Province))
            .capabilities(semantic_complete_and_merge_ready())
            .merge_key(MergeKeySource::AssignmentKey)
            .load_policy(ContentLoadPolicy::DefinitionModule(directory_module("common/centers_of_trade", "common/centers_of_trade/zzz_foch_centers_of_trade.txt")))
            .build(),
    );
    f.push(
        ContentFamilyDescriptor::prefix("common/client_states", "common/client_states/")
            .module_name(ModuleNameRule::Static("client_states"))
            .scope(unknown_scope())
            .capabilities(semantic_complete_and_merge_ready())
            .merge_key(MergeKeySource::AssignmentKey)
            .load_policy(ContentLoadPolicy::DefinitionModule(directory_module("common/client_states", "common/client_states/zzz_foch_client_states.txt")))
            .build(),
    );
    f.push(
        ContentFamilyDescriptor::prefix("common/colonial_regions", "common/colonial_regions/")
            .module_name(ModuleNameRule::Static("colonial_regions"))
            .scope(unknown_scope())
            .capabilities(semantic_complete_and_merge_ready())
            .merge_key(MergeKeySource::AssignmentKey)
            .load_policy(ContentLoadPolicy::DefinitionModule(directory_module("common/colonial_regions", "common/colonial_regions/zzz_foch_colonial_regions.txt")))
            .build(),
    );
    f.push(
        ContentFamilyDescriptor::prefix("common/country_colors", "common/country_colors/")
            .module_name(ModuleNameRule::Static("country_colors"))
            .scope(unknown_scope())
            .capabilities(semantic_complete_and_merge_ready())
            .merge_key(MergeKeySource::AssignmentKey)
            .load_policy(ContentLoadPolicy::DefinitionModule(directory_module("common/country_colors", "common/country_colors/zzz_foch_country_colors.txt")))
            .build(),
    );
    f.push(
        ContentFamilyDescriptor::prefix("common/custom_country_colors", "common/custom_country_colors/")
            .module_name(ModuleNameRule::Static("custom_country_colors"))
            .scope(unknown_scope())
            .capabilities(semantic_complete_and_merge_ready())
            .merge_key(MergeKeySource::AssignmentKey)
            .load_policy(ContentLoadPolicy::DefinitionModule(directory_module("common/custom_country_colors", "common/custom_country_colors/zzz_foch_custom_country_colors.txt")))
            .build(),
    );
    f.push(
        ContentFamilyDescriptor::prefix("common/custom_ideas", "common/custom_ideas/")
            .module_name(ModuleNameRule::Static("custom_ideas"))
            .scope(country_from_scope(ScopeType::Country))
            .capabilities(semantic_complete_and_merge_ready())
            .merge_key(MergeKeySource::AssignmentKey)
            .load_policy(ContentLoadPolicy::DefinitionModule(directory_module("common/custom_ideas", "common/custom_ideas/zzz_foch_custom_ideas.txt")))
            .build(),
    );
    f.push(
        ContentFamilyDescriptor::prefix("common/dynasty_colors", "common/dynasty_colors/")
            .module_name(ModuleNameRule::Static("dynasty_colors"))
            .scope(unknown_scope())
            .capabilities(semantic_complete_and_merge_ready())
            .merge_key(MergeKeySource::AssignmentKey)
            .load_policy(ContentLoadPolicy::DefinitionModule(directory_module("common/dynasty_colors", "common/dynasty_colors/zzz_foch_dynasty_colors.txt")))
            .build(),
    );
    f.push(
        ContentFamilyDescriptor::prefix("common/estate_crown_land", "common/estate_crown_land/")
            .module_name(ModuleNameRule::Static("estate_crown_land"))
            .scope(country_from_scope(ScopeType::Country))
            .capabilities(semantic_complete_and_merge_ready())
            .merge_key(MergeKeySource::AssignmentKey)
            .load_policy(ContentLoadPolicy::DefinitionModule(directory_module("common/estate_crown_land", "common/estate_crown_land/zzz_foch_estate_crown_land.txt")))
            .build(),
    );
    f.push(
        ContentFamilyDescriptor::prefix("common/estates_preload", "common/estates_preload/")
            .module_name(ModuleNameRule::Static("estates_preload"))
            .scope(unknown_scope())
            .capabilities(semantic_complete_and_merge_ready())
            .load_policy(ContentLoadPolicy::DefinitionModule(directory_module("common/estates_preload", "common/estates_preload/zzz_foch_estates_preload.txt")))
            .build(),
    );
    f.push(
        ContentFamilyDescriptor::prefix("common/governments", "common/governments/")
            .load_policy(ContentLoadPolicy::DefinitionModule(governments_module()))
            .module_name(ModuleNameRule::Static("governments"))
            .scope(unknown_scope())
            .capabilities(semantic_complete_and_merge_ready())
            .merge_key(MergeKeySource::AssignmentKey)
            .list_policy(ListMergePolicy::OrderedUnion)
            .build(),
    );
    f.push(
        ContentFamilyDescriptor::exact("common/graphicalculturetype", "common/graphicalculturetype.txt")
            .module_name(ModuleNameRule::Static("graphicalculturetype"))
            .scope(unknown_scope())
            .capabilities(semantic_complete_and_merge_ready())
            .merge_key(MergeKeySource::AssignmentKey)
            .build(),
    );
    f.push(
        ContentFamilyDescriptor::exact("common/historial_lucky", "common/historial_lucky.txt")
            .module_name(ModuleNameRule::Static("historial_lucky"))
            .scope(unknown_scope())
            .capabilities(semantic_complete_and_merge_ready())
            .merge_key(MergeKeySource::AssignmentKey)
            .build(),
    );
    f.push(
        ContentFamilyDescriptor::prefix("common/imperial_incidents", "common/imperial_incidents/")
            .module_name(ModuleNameRule::Static("imperial_incidents"))
            .scope(country_from_scope(ScopeType::Country))
            .capabilities(semantic_complete_and_merge_ready())
            .merge_key(MergeKeySource::AssignmentKey)
            .load_policy(ContentLoadPolicy::DefinitionModule(directory_module("common/imperial_incidents", "common/imperial_incidents/zzz_foch_imperial_incidents.txt")))
            .build(),
    );
    f.push(
        ContentFamilyDescriptor::prefix("common/imperial_reforms", "common/imperial_reforms/")
            .module_name(ModuleNameRule::Static("imperial_reforms"))
            .scope(country_from_scope(ScopeType::Country))
            .capabilities(semantic_complete_and_merge_ready())
            .merge_key(MergeKeySource::AssignmentKey)
            .load_policy(ContentLoadPolicy::DefinitionModule(directory_module("common/imperial_reforms", "common/imperial_reforms/zzz_foch_imperial_reforms.txt")))
            .build(),
    );
    f.push(
        ContentFamilyDescriptor::prefix("common/incidents", "common/incidents/")
            .module_name(ModuleNameRule::Static("incidents"))
            .scope(country_from_scope(ScopeType::Country))
            .capabilities(semantic_complete_and_merge_ready())
            .merge_key(MergeKeySource::AssignmentKey)
            .load_policy(ContentLoadPolicy::DefinitionModule(directory_module("common/incidents", "common/incidents/zzz_foch_incidents.txt")))
            .build(),
    );
    f.push(
        ContentFamilyDescriptor::prefix("common/insults", "common/insults/")
            .module_name(ModuleNameRule::Static("insults"))
            .scope(country_from_scope(ScopeType::Country))
            .capabilities(semantic_complete_and_merge_ready())
            .merge_key(MergeKeySource::AssignmentKey)
            .load_policy(ContentLoadPolicy::DefinitionModule(directory_module("common/insults", "common/insults/zzz_foch_insults.txt")))
            .build(),
    );
    f.push(
        ContentFamilyDescriptor::prefix("common/leader_personalities", "common/leader_personalities/")
            .module_name(ModuleNameRule::Static("leader_personalities"))
            .scope(unknown_scope())
            .capabilities(semantic_complete_and_merge_ready())
            .merge_key(MergeKeySource::AssignmentKey)
            .load_policy(ContentLoadPolicy::DefinitionModule(directory_module("common/leader_personalities", "common/leader_personalities/zzz_foch_leader_personalities.txt")))
            .build(),
    );
    f.push(
        ContentFamilyDescriptor::prefix("common/natives", "common/natives/")
            .module_name(ModuleNameRule::Static("natives"))
            .scope(unknown_scope())
            .capabilities(semantic_complete_and_merge_ready())
            .merge_key(MergeKeySource::AssignmentKey)
            .load_policy(ContentLoadPolicy::DefinitionModule(directory_module("common/natives", "common/natives/zzz_foch_natives.txt")))
            .build(),
    );
    f.push(
        ContentFamilyDescriptor::prefix("common/opinion_modifiers", "common/opinion_modifiers/")
            .module_name(ModuleNameRule::Static("opinion_modifiers"))
            .scope(unknown_scope())
            .capabilities(semantic_complete_and_merge_ready())
            .merge_key(MergeKeySource::AssignmentKey)
            .load_policy(ContentLoadPolicy::DefinitionModule(directory_module("common/opinion_modifiers", "common/opinion_modifiers/zzz_foch_opinion_modifiers.txt")))
            .build(),
    );
    f.push(
        ContentFamilyDescriptor::prefix("common/prices", "common/prices/")
            .module_name(ModuleNameRule::Static("prices"))
            .scope(unknown_scope())
            .capabilities(semantic_complete_and_merge_ready())
            .merge_key(MergeKeySource::AssignmentKey)
            .load_policy(ContentLoadPolicy::DefinitionModule(directory_module("common/prices", "common/prices/zzz_foch_prices.txt")))
            .build(),
    );
    f.push(
        ContentFamilyDescriptor::prefix("common/region_colors", "common/region_colors/")
            .module_name(ModuleNameRule::Static("region_colors"))
            .scope(unknown_scope())
            .capabilities(semantic_complete_and_merge_ready())
            .merge_key(MergeKeySource::AssignmentKey)
            .load_policy(ContentLoadPolicy::DefinitionModule(directory_module("common/region_colors", "common/region_colors/zzz_foch_region_colors.txt")))
            .build(),
    );
    f
}

#[verifier::rlimit(40)]
fn family_table_part_4_vec() -> (r: Vec<ContentFamilyDescriptor>)
    ensures
        r@ == family_table_part_4(),
{
    let mut f: Vec<ContentFamilyDescriptor> = Vec::new();
    f.push(
        ContentFamilyDescriptor::prefix("common/religious_conversions", "common/religious_conversions/")
            .module_name(ModuleNameRule::Static("religious_conversions"))
            .scope(country_from_scope(ScopeType::Province))
            .capabilities(semantic_complete_and_merge_ready())
            .merge_key(MergeKeySource::AssignmentKey)
            .load_policy(ContentLoadPolicy::DefinitionModule(directory_module("common/religious_conversions", "common/religious_conversions/zzz_foch_religious_conversions.txt")))
            .build(),
    );
    f.push(
        ContentFamilyDescriptor::prefix("common/religious_reforms", "common/religious_reforms/")
            .module_name(ModuleNameRule::Static("religious_reforms"))
            .scope(country_from_scope(ScopeType::Country))
            .capabilities(semantic_complete_and_merge_ready())
            .merge_key(MergeKeySource::AssignmentKey)
            .load_policy(ContentLoadPolicy::DefinitionModule(directory_module("common/religious_reforms", "common/religious_reforms/zzz_foch_religious_reforms.txt")))
            .build(),
    );
    f.push(
        ContentFamilyDescriptor::prefix("common/revolt_triggers", "common/revolt_triggers/")
            .module_name(ModuleNameRule::Static("revolt_triggers"))
            .scope(country_from_scope(ScopeType::Country))
            .capabilities(semantic_complete_and_merge_ready())
            .merge_key(MergeKeySource::AssignmentKey)
            .load_policy(ContentLoadPolicy::DefinitionModule(directory_module("common/revolt_triggers", "common/revolt_triggers/zzz_foch_revolt_triggers.txt")))
            .build(),
    );
    f.push(
        ContentFamilyDescriptor::prefix("common/revolution", "common/revolution/")
            .module_name(ModuleNameRule::Static("revolution"))
            .scope(country_from_scope(ScopeType::Country))
            .capabilities(semantic_complete_and_merge_ready())
            .merge_key(MergeKeySource::AssignmentKey)
            .load_policy(ContentLoadPolicy::DefinitionModule(directory_module("common/revolution", "common/revolution/zzz_foch_revolution.txt")))
            .build(),
    );
    f.push(
        ContentFamilyDescriptor::prefix("common/ruler_personalities", "common/ruler_personalities/")
            .module_name(ModuleNameRule::Static("ruler_personalities"))
            .scope(unknown_scope())
            .capabilities(semantic_complete_and_merge_ready())
            .merge_key(MergeKeySource::AssignmentKey)
            .load_policy(ContentLoadPolicy::DefinitionModule(directory_module("common/ruler_personalities", "common/ruler_personalities/zzz_foch_ruler_personalities.txt")))
            .build(),
    );
    f.push(
        ContentFamilyDescriptor::prefix("common/scripted_functions", "common/scripted_functions/")
            .module_name(ModuleNameRule::Static("scripted_functions"))
            .scope(dynamic_scope_policy())
            .capabilities(semantic_complete_and_merge_ready())
            .merge_key(MergeKeySource::AssignmentKey)
            .load_policy(ContentLoadPolicy::DefinitionModule(directory_module("common/scripted_functions", "common/scripted_functions/zzz_foch_scripted_functions.txt")))
            .build(),
    );
    f.push(
        ContentFamilyDescriptor::prefix("common/static_modifiers", "common/static_modifiers/")
            .module_name(ModuleNameRule::Static("static_modifiers"))
            .scope(unknown_scope())
            .capabilities(semantic_complete_and_merge_ready())
            .merge_key(MergeKeySource::AssignmentKey)
            .scalar_policy(ScalarMergePolicy::Sum)
            .load_policy(ContentLoadPolicy::DefinitionModule(directory_module("common/static_modifiers", "common/static_modifiers/zzz_foch_static_modifiers.txt")))
            .build(),
    );
    f.push(
        ContentFamilyDescriptor::prefix("common/timed_modifiers", "common/timed_modifiers/")
            .module_name(ModuleNameRule::Static("timed_modifiers"))
            .scope(unknown_scope())
            .capabilities(semantic_complete_and_merge_ready())
            .merge_key(MergeKeySource::AssignmentKey)
            .load_policy(ContentLoadPolicy::DefinitionModule(directory_module("common/timed_modifiers", "common/timed_modifiers/zzz_foch_timed_modifiers.txt")))
            .build(),
    );
    f.push(
        ContentFamilyDescriptor::prefix("common/trade_companies", "common/trade_companies/")
            .module_name(ModuleNameRule::Static("trade_companies"))
            .scope(unknown_scope())
            .capabilities(semantic_complete_and_merge_ready())
            .merge_key(MergeKeySource::AssignmentKey)
            .load_policy(ContentLoadPolicy::DefinitionModule(directory_module("common/trade_companies", "common/trade_companies/zzz_foch_trade_companies.txt")))
            .build(),
    );
    f.push(
        ContentFamilyDescriptor::prefix("common/tradecompany_investments", "common/tradecompany_investments/")
            .module_name(ModuleNameRule::Static("tradecompany_investments"))
            .scope(country_from_scope(ScopeType::Province))
            .capabilities(semantic_complete_and_merge_ready())
            .merge_key(MergeKeySource::AssignmentKey)
            .load_policy(ContentLoadPolicy::DefinitionModule(directory_module("common/tradecompany_investments", "common/tradecompany_investments/zzz_foch_tradecompany_investments.txt")))
            .build(),
    );
    f.push(
        ContentFamilyDescriptor::prefix("common/tradegoods", "common/tradegoods/")
            .module_name(ModuleNameRule::Static("tradegoods"))
            .scope(country_from_scope(ScopeType::Province))
            .capabilities(semantic_complete_and_merge_ready())
            .merge_key(MergeKeySource::AssignmentKey)
            .list_policy(ListMergePolicy::Replace)
            .load_policy(ContentLoadPolicy::DefinitionModule(directory_module("common/tradegoods", "common/tradegoods/zzz_foch_tradegoods.txt")))
            .build(),
    );
    f.push(
        ContentFamilyDescriptor::prefix("common/tradenodes", "common/tradenodes/")
            .module_name(ModuleNameRule::Static("tradenodes"))
            .scope(unknown_scope())
            .capabilities(semantic_complete_and_merge_ready())
            .merge_key(MergeKeySource::AssignmentKey)
            .block_policy(BlockMergePolicy::Replace)
            .load_policy(ContentLoadPolicy::DefinitionModule(directory_module("common/tradenodes", "common/tradenodes/zzz_foch_tradenodes.txt")))
            .build(),
    );
    f.push(
        ContentFamilyDescriptor::prefix("common/trading_policies", "common/trading_policies/")
            .module_name(ModuleNameRule::Static("trading_policies"))
            .scope(country_from_scope(ScopeType::Country))
            .capabilities(semantic_complete_and_merge_ready())
            .merge_key(MergeKeySource::AssignmentKey)
            .load_policy(ContentLoadPolicy::DefinitionModule(directory_module("common/trading_policies", "common/trading_policies/zzz_foch_trading_policies.txt")))
            .build(),
    );
    f.push(
        ContentFamilyDescriptor::prefix("common/units_display", "common/units_display/")
            .module_name(ModuleNameRule::Static("units_display"))
            .scope(unknown_scope())
            .capabilities(semantic_complete_and_merge_ready())
            .merge_key(MergeKeySource::AssignmentKey)
            .load_policy(ContentLoadPolicy::DefinitionModule(directory_module("common/units_display", "common/units_display/zzz_foch_units_display.txt")))
            .build(),
    );
    f.push(
        ContentFamilyDescriptor::prefix("common/wargoal_types", "common/wargoal_types/")
            .module_name(ModuleNameRule::Static("wargoal_types"))
            .scope(country_from_scope(ScopeType::Country))
            .capabilities(semantic_complete_and_merge_ready())
            .merge_key(MergeKeySource::AssignmentKey)
            .load_policy(ContentLoadPolicy::DefinitionModule(directory_module("common/wargoal_types", "common/wargoal_types/zzz_foch_wargoal_types.txt")))
            .build(),
    );
    f.push(
        ContentFamilyDescriptor::exact("map/ambient_object", "map/ambient_object.txt")
            .module_name(ModuleNameRule::Static("ambient_object"))
            .scope(unknown_scope())
            .capabilities(semantic_complete_and_merge_ready())
            .merge_key(MergeKeySource::AssignmentKey)
            .build(),
    );
    f.push(
        ContentFamilyDescriptor::exact("map/area", "map/area.txt")
            .module_name(ModuleNameRule::Static("area"))
            .scope(unknown_scope())
            .capabilities(semantic_complete_and_merge_ready())
            .merge_key(MergeKeySource::AssignmentKey)
            .build(),
    );
    f.push(
        ContentFamilyDescriptor::exact("map/climate", "map/climate.txt")
            .module_name(ModuleNameRule::Static("climate"))
            .scope(unknown_scope())
            .capabilities(semantic_complete_and_merge_ready())
            .merge_key(MergeKeySource::AssignmentKey)
            .build(),
    );
    f.push(
        ContentFamilyDescriptor::exact("map/continent", "map/continent.txt")
            .module_name(ModuleNameRule::Static("continent"))
            .scope(unknown_scope())
            .capabilities(semantic_complete_and_merge_ready())
            .merge_key(MergeKeySource::AssignmentKey)
            .build(),
    );
    f.push(
        ContentFamilyDescriptor::exact("map/lakes", "map/lakes.txt")
            .module_name(ModuleNameRule::Static("lakes"))
            .scope(unknown_scope())
            .capabilities(semantic_complete_and_merge_ready())
            .merge_key(MergeKeySource::AssignmentKey)
            .build(),
    );
    f.push(
        ContentFamilyDescriptor::exact("map/positions", "map/positions.txt")
            .module_name(ModuleNameRule::Static("positions"))
            .scope(unknown_scope())
            .capabilities(semantic_complete_and_merge_ready())
            .merge_key(MergeKeySource::AssignmentKey)
            .block_policy(BlockMergePolicy::Replace)
            .build(),
    );
    f.push(
        ContentFamilyDescriptor::exact("map/provincegroup", "map/provincegroup.txt")
            .module_name(ModuleNameRule::Static("provincegroup"))
            .scope(unknown_scope())
            .capabilities(semantic_complete_and_merge_ready())
            .merge_key(MergeKeySource::AssignmentKey)
            .build(),
    );
    f.push(
        ContentFamilyDescriptor::exact("map/region", "map/region.txt")
            .module_name(ModuleNameRule::Static("region"))
            .scope(unknown_scope())
            .capabilities(semantic_complete_and_merge_ready())
            .merge_key(MergeKeySource::AssignmentKey)
            .build(),
    );
    f.push(
        ContentFamilyDescriptor::exact("map/seasons", "map/seasons.txt")
            .module_name(ModuleNameRule::Static("seasons"))
            .scope(unknown_scope())
            .capabilities(semantic_complete_and_merge_ready())
            .merge_key(MergeKeySource::AssignmentKey)
            .build(),
    );
    f.push(
        ContentFamilyDescriptor::exact("map/superregion", "map/superregion.txt")
            .module_name(ModuleNameRule::Static("superregion"))
            .scope(unknown_scope())
            .capabilities(semantic_complete_and_merge_ready())
            .merge_key(MergeKeySource::AssignmentKey)
            .build(),
    );
    f.push(
        ContentFamilyDescriptor::exact("map/terrain", "map/terrain.txt")
            .module_name(ModuleNameRule::Static("terrain"))
            .scope(unknown_scope())
            .capabilities(semantic_complete_and_merge_ready())
            .merge_key(MergeKeySource::AssignmentKey)
            .build(),
    );
    f.push(
        ContentFamilyDescriptor::exact("map/trade_winds", "map/trade_winds.txt")
            .module_name(ModuleNameRule::Static("trade_winds"))
            .scope(unknown_scope())
            .capabilities(semantic_complete_and_merge_ready())
            .merge_key(MergeKeySource::AssignmentKey)
            .block_policy(BlockMergePolicy::Replace)
            .build(),
    );
    f.push(
        ContentFamilyDescriptor::prefix("music", "music/")
            .module_name(ModuleNameRule::Static("music"))
            .scope(unknown_scope())
            .capabilities(semantic_complete_and_merge_ready())
            .merge_key(MergeKeySource::FieldValue("name"))
            .build(),
    );
    f.push(
        ContentFamilyDescriptor::prefix("sound", "sound/")
            .module_name(ModuleNameRule::Static("sound"))
            .scope(unknown_scope())
            .capabilities(semantic_complete_and_merge_ready())
            .merge_key(MergeKeySource::FieldValue("name"))
            .build(),
    );
    f.push(
        ContentFamilyDescriptor::exact("trigger_profile.txt", "trigger_profile.txt")
            .module_name(ModuleNameRule::Static("trigger_profile"))
            .scope(unknown_scope())
            .capabilities(semantic_complete_and_merge_ready())
            .merge_key(MergeKeySource::AssignmentKey)
            .build(),
    );
    f.push(
        ContentFamilyDescriptor::prefix("tutorial", "tutorial/")
            .module_name(ModuleNameRule::Static("tutorial"))
            .scope(unknown_scope())
            .capabilities(semantic_complete_and_merge_ready())
            .merge_key(MergeKeySource::FieldValue("index"))
            .build(),
    );
    f.push(
        ContentFamilyDescriptor::prefix("tweakergui_assets", "tweakergui_assets/")
            .module_name(ModuleNameRule::Static("tweakergui_assets"))
            .scope(unknown_scope())
            .capabilities(semantic_complete_and_merge_ready())
            .merge_key(MergeKeySource::AssignmentKey)
            .build(),
    );
    f.push(
        ContentFamilyDescriptor::exact("userdir.txt", "userdir.txt")
            .module_name(ModuleNameRule::Static("userdir"))
            .scope(unknown_scope())
            .capabilities(semantic_complete_and_merge_ready())
            .merge_key(MergeKeySource::AssignmentKey)
            .build(),
    );
    f
}

/// The EU4 content families, in matching order.
pub fn eu4_content_families() -> (r: Vec<ContentFamilyDescriptor>)
    ensures
        r@ == eu4_family_table(),
{
    let mut f = family_table_part_1_vec();
    let mut b = family_table_part_2_vec();
    f.append(&mut b);
    let mut c = family_table_part_3_vec();
    f.append(&mut c);
    let mut d = family_table_part_4_vec();
    f.append(&mut d);
    f
}

/// Whether a family's matcher accepts a slash-normalized path.
pub open spec fn family_matches(d: ContentFamilyDescriptor, path: Seq<char>) -> bool {
    match d.matcher {
        ContentFamilyPathMatcher::Prefix(p) => has_prefix(path, p@),
        ContentFamilyPathMatcher::Exact(e) => path == e@,
    }
}

/// The first family of `fams` that accepts `path`.
pub open spec fn first_matching_family(fams: Seq<ContentFamilyDescriptor>, path: Seq<char>) -> Option<ContentFamilyDescriptor>
    decreases fams.len(),
{
    if fams.len() == 0 {
        None
    } else if family_matches(fams[0], path) {
        Some(fams[0])
    } else {
        first_matching_family(fams.drop_first(), path)
    }
}

/// The first family of `fams` with the given id.
pub open spec fn first_family_with_id(fams: Seq<ContentFamilyDescriptor>, id: Seq<char>) -> Option<ContentFamilyDescriptor>
    decreases fams.len(),
{
    if fams.len() == 0 {
        None
    } else if fams[0].id@ == id {
        Some(fams[0])
    } else {
        first_family_with_id(fams.drop_first(), id)
    }
}

fn matches_path(d: &ContentFamilyDescriptor, path: &Vec<char>) -> (r: bool)
    ensures
        r == family_matches(*d, path@),
{
    match d.matcher {
        ContentFamilyPathMatcher::Prefix(p) => chars_start_with(path, &chars_of(p)),
        ContentFamilyPathMatcher::Exact(e) => chars_eq(path, &chars_of(e)),
    }
}

/// Classifies a slash-normalized path by the first family of `fams` that
/// accepts it.
pub fn classify_in(fams: &Vec<ContentFamilyDescriptor>, path: &Vec<char>) -> (r: Option<ContentFamilyDescriptor>)
    ensures
        r == first_matching_family(fams@, path@),
{
    let mut i: usize = 0;
    assert(fams@.subrange(0, fams@.len() as int) =~= fams@);
    while i < fams.len()
        invariant
            i <= fams.len(),
            first_matching_family(fams@, path@) == first_matching_family(
                fams@.subrange(i as int, fams@.len() as int),
                path@,
            ),
        decreases fams.len() - i,
    {
        let ghost rest = fams@.subrange(i as int, fams@.len() as int);
        assert(rest.drop_first() =~= fams@.subrange(i + 1, fams@.len() as int));
        if matches_path(&fams[i], path) {
            return Some(fams[i]);
        }
        i = i + 1;
    }
    None
}

fn find_by_id(fams: &Vec<ContentFamilyDescriptor>, id: &str) -> (r: Option<ContentFamilyDescriptor>)
    ensures
        r == first_family_with_id(fams@, id@),
{
    let mut i: usize = 0;
    assert(fams@.subrange(0, fams@.len() as int) =~= fams@);
    while i < fams.len()
        invariant
            i <= fams.len(),
            first_family_with_id(fams@, id@) == first_family_with_id(
                fams@.subrange(i as int, fams@.len() as int),
                id@,
            ),
        decreases fams.len() - i,
    {
        let ghost rest = fams@.subrange(i as int, fams@.len() as int);
        assert(rest.drop_first() =~= fams@.subrange(i + 1, fams@.len() as int));
        if crate::text::str_eq(fams[i].id, id) {
            return Some(fams[i]);
        }
        i = i + 1;
    }
    None
}

/// A game's content families: how the files of a mod are classified.
pub trait GameProfile {
    /// The family of a mod-relative path.
    spec fn classified(&self, relative: Seq<char>) -> Option<ContentFamilyDescriptor>;

    /// The family with the given id.
    spec fn with_root_family(&self, root_family: Seq<char>) -> Option<ContentFamilyDescriptor>;

    fn game_id(&self) -> GameId;

    fn classify_content_family(&self, relative: &str) -> (r: Option<ContentFamilyDescriptor>)
        ensures
            r == self.classified(relative@),
    ;

    fn descriptor_for_root_family(&self, root_family: &str) -> (r: Option<ContentFamilyDescriptor>)
        ensures
            r == self.with_root_family(root_family@),
    ;

    /// The content family id of a relative path.
    fn family_id_for(&self, relative: &str) -> (r: Option<&'static str>)
        ensures
            r == (match self.classified(relative@) {
                Some(d) => Some(d.id),
                None => None,
            }),
    {
        match self.classify_content_family(relative) {
            Some(d) => Some(d.id),
            None => None,
        }
    }

    /// The capabilities of a family, by its id.
    fn capabilities_for_root(&self, root_family: &str) -> (r: Option<ContentFamilyCapabilities>)
        ensures
            r == (match self.with_root_family(root_family@) {
                Some(d) => Some(d.capabilities),
                None => None,
            }),
    {
        match self.descriptor_for_root_family(root_family) {
            Some(d) => Some(d.capabilities),
            None => None,
        }
    }

    /// The id of a family, by its id: the id where the family exists.
    fn family_id_for_root(&self, root_family: &str) -> (r: Option<&'static str>)
        ensures
            r == (match self.with_root_family(root_family@) {
                Some(d) => Some(d.id),
                None => None,
            }),
    {
        match self.descriptor_for_root_family(root_family) {
            Some(d) => Some(d.id),
            None => None,
        }
    }
}

/// The EU4 profile.
#[derive(Debug)]
pub struct Eu4Profile;

impl GameProfile for Eu4Profile {
    open spec fn classified(&self, relative: Seq<char>) -> Option<ContentFamilyDescriptor> {
        first_matching_family(eu4_family_table(), slash_normalized(relative))
    }

    open spec fn with_root_family(&self, root_family: Seq<char>) -> Option<ContentFamilyDescriptor> {
        first_family_with_id(eu4_family_table(), root_family)
    }

    fn game_id(&self) -> (r: GameId)
        ensures
            r == GameId::Eu4,
    {
        GameId::Eu4
    }

    fn classify_content_family(&self, relative: &str) -> (r: Option<ContentFamilyDescriptor>) {
        let path = normalize_slashes(relative);
        let fams = eu4_content_families();
        classify_in(&fams, &path)
    }

    fn descriptor_for_root_family(&self, root_family: &str) -> (r: Option<ContentFamilyDescriptor>) {
        let fams = eu4_content_families();
        find_by_id(&fams, root_family)
    }
}

pub fn eu4_profile() -> (r: Eu4Profile) {
    Eu4Profile
}

pub fn eu4_content_family_for_root_family(root_family: &str) -> (r: Option<ContentFamilyDescriptor>)
    ensures
        r == first_family_with_id(eu4_family_table(), root_family@),
{
    eu4_profile().descriptor_for_root_family(root_family)
}

} // verus!
