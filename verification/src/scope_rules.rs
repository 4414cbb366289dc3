//! Scope rules of the EU4 script language: which iterators move to which
//! scope type, which top-level blocks of each content family are triggers,
//! effects or plain blocks, and the shape of country tags, province ids and
//! other keys that select a scope.

use vstd::prelude::*;
use crate::content_family::ScriptFileKind;
use crate::model::{ScopeKind, ScopeType};
use crate::text::{chars_of, has_prefix, has_suffix, str_ends_with, str_eq, str_starts_with};

verus! {

/// The iterators over provinces (sea zones and tribal land are provinces too).
pub open spec fn is_province_iterator(k: Seq<char>) -> bool {
    k == "all_core_province"@
    || k == "all_neighbor_province"@
    || k == "all_owned_province"@
    || k == "all_owned_province_cumulative"@
    || k == "all_province"@
    || k == "all_province_in_state"@
    || k == "all_state_province"@
    || k == "all_trade_node_member_province"@
    || k == "any_core_province"@
    || k == "any_empty_neighbor_province"@
    || k == "any_friendly_coast_border_province"@
    || k == "any_heretic_province"@
    || k == "any_owned_province"@
    || k == "any_province"@
    || k == "any_province_in_state"@
    || k == "any_trade_node_member_province"@
    || k == "every_claimed_province"@
    || k == "every_core_province"@
    || k == "every_empty_neighbor_province"@
    || k == "every_heretic_province"@
    || k == "every_neighbor_province"@
    || k == "every_owned_province"@
    || k == "every_province"@
    || k == "every_province_in_state"@
    || k == "every_trade_node_member_province"@
    || k == "every_tribal_land_province"@
    || k == "random_area_province"@
    || k == "random_core_province"@
    || k == "random_empty_neighbor_province"@
    || k == "random_heretic_province"@
    || k == "random_neighbor_province"@
    || k == "random_owned_province"@
    || k == "random_province"@
    || k == "random_province_in_state"@
    || k == "random_trade_node_member_province"@
    || k == "every_neighbor_sea_zone"@
    || k == "any_tribal_land"@
}

/// The iterators over countries.
pub open spec fn is_country_iterator(k: Seq<char>) -> bool {
    k == "all_ally"@
    || k == "all_countries_including_self"@
    || k == "all_country"@
    || k == "all_elector"@
    || k == "all_federation_members"@
    || k == "all_known_country"@
    || k == "all_neighbor_country"@
    || k == "all_rival_country"@
    || k == "all_subject_country"@
    || k == "all_trade_node_member_country"@
    || k == "all_war_enemy_countries"@
    || k == "any_ally"@
    || k == "any_core_country"@
    || k == "any_country"@
    || k == "any_country_active_in_node"@
    || k == "any_elector"@
    || k == "any_enemy_country"@
    || k == "any_great_power"@
    || k == "any_hired_mercenary_company"@
    || k == "any_known_country"@
    || k == "any_neighbor_country"@
    || k == "any_other_great_power"@
    || k == "any_privateering_country"@
    || k == "any_rival_country"@
    || k == "any_trade_node_member_country"@
    || k == "any_war_enemy_country"@
    || k == "every_ally"@
    || k == "every_core_country"@
    || k == "every_country"@
    || k == "every_country_including_inactive"@
    || k == "every_elector"@
    || k == "every_enemy_country"@
    || k == "every_federation_member"@
    || k == "every_known_country"@
    || k == "every_neighbor_country"@
    || k == "every_rival_country"@
    || k == "every_subject_country"@
    || k == "every_trade_node_member_country"@
    || k == "every_war_enemy_country"@
    || k == "random_ally"@
    || k == "random_core_country"@
    || k == "random_country"@
    || k == "random_elector"@
    || k == "random_enemy_country"@
    || k == "random_hired_mercenary_company"@
    || k == "random_known_country"@
    || k == "random_neighbor_country"@
    || k == "random_privateering_country"@
    || k == "random_rival_country"@
    || k == "random_subject_country"@
    || k == "random_war_enemy_country"@
}

fn province_iterator(key: &str) -> (r: bool)
    ensures
        r == is_province_iterator(key@),
{
    str_eq(key, "all_core_province")
    || str_eq(key, "all_neighbor_province")
    || str_eq(key, "all_owned_province")
    || str_eq(key, "all_owned_province_cumulative")
    || str_eq(key, "all_province")
    || str_eq(key, "all_province_in_state")
    || str_eq(key, "all_state_province")
    || str_eq(key, "all_trade_node_member_province")
    || str_eq(key, "any_core_province")
    || str_eq(key, "any_empty_neighbor_province")
    || str_eq(key, "any_friendly_coast_border_province")
    || str_eq(key, "any_heretic_province")
    || str_eq(key, "any_owned_province")
    || str_eq(key, "any_province")
    || str_eq(key, "any_province_in_state")
    || str_eq(key, "any_trade_node_member_province")
    || str_eq(key, "every_claimed_province")
    || str_eq(key, "every_core_province")
    || str_eq(key, "every_empty_neighbor_province")
    || str_eq(key, "every_heretic_province")
    || str_eq(key, "every_neighbor_province")
    || str_eq(key, "every_owned_province")
    || str_eq(key, "every_province")
    || str_eq(key, "every_province_in_state")
    || str_eq(key, "every_trade_node_member_province")
    || str_eq(key, "every_tribal_land_province")
    || str_eq(key, "random_area_province")
    || str_eq(key, "random_core_province")
    || str_eq(key, "random_empty_neighbor_province")
    || str_eq(key, "random_heretic_province")
    || str_eq(key, "random_neighbor_province")
    || str_eq(key, "random_owned_province")
    || str_eq(key, "random_province")
    || str_eq(key, "random_province_in_state")
    || str_eq(key, "random_trade_node_member_province")
    || str_eq(key, "every_neighbor_sea_zone")
    || str_eq(key, "any_tribal_land")
}

fn country_iterator(key: &str) -> (r: bool)
    ensures
        r == is_country_iterator(key@),
{
    str_eq(key, "all_ally")
    || str_eq(key, "all_countries_including_self")
    || str_eq(key, "all_country")
    || str_eq(key, "all_elector")
    || str_eq(key, "all_federation_members")
    || str_eq(key, "all_known_country")
    || str_eq(key, "all_neighbor_country")
    || str_eq(key, "all_rival_country")
    || str_eq(key, "all_subject_country")
    || str_eq(key, "all_trade_node_member_country")
    || str_eq(key, "all_war_enemy_countries")
    || str_eq(key, "any_ally")
    || str_eq(key, "any_core_country")
    || str_eq(key, "any_country")
    || str_eq(key, "any_country_active_in_node")
    || str_eq(key, "any_elector")
    || str_eq(key, "any_enemy_country")
    || str_eq(key, "any_great_power")
    || str_eq(key, "any_hired_mercenary_company")
    || str_eq(key, "any_known_country")
    || str_eq(key, "any_neighbor_country")
    || str_eq(key, "any_other_great_power")
    || str_eq(key, "any_privateering_country")
    || str_eq(key, "any_rival_country")
    || str_eq(key, "any_trade_node_member_country")
    || str_eq(key, "any_war_enemy_country")
    || str_eq(key, "every_ally")
    || str_eq(key, "every_core_country")
    || str_eq(key, "every_country")
    || str_eq(key, "every_country_including_inactive")
    || str_eq(key, "every_elector")
    || str_eq(key, "every_enemy_country")
    || str_eq(key, "every_federation_member")
    || str_eq(key, "every_known_country")
    || str_eq(key, "every_neighbor_country")
    || str_eq(key, "every_rival_country")
    || str_eq(key, "every_subject_country")
    || str_eq(key, "every_trade_node_member_country")
    || str_eq(key, "every_war_enemy_country")
    || str_eq(key, "random_ally")
    || str_eq(key, "random_core_country")
    || str_eq(key, "random_country")
    || str_eq(key, "random_elector")
    || str_eq(key, "random_enemy_country")
    || str_eq(key, "random_hired_mercenary_company")
    || str_eq(key, "random_known_country")
    || str_eq(key, "random_neighbor_country")
    || str_eq(key, "random_privateering_country")
    || str_eq(key, "random_rival_country")
    || str_eq(key, "random_subject_country")
    || str_eq(key, "random_war_enemy_country")
}

/// The scope type that an iterator moves to.
pub open spec fn iterator_scope(k: Seq<char>) -> Option<ScopeType> {
    if is_province_iterator(k) {
        Some(ScopeType::Province)
    } else if is_country_iterator(k) {
        Some(ScopeType::Country)
    } else {
        None
    }
}

pub fn iterator_scope_type(key: &str) -> (r: Option<ScopeType>)
    ensures
        r == iterator_scope(key@),
{
    if province_iterator(key) {
        Some(ScopeType::Province)
    } else if country_iterator(key) {
        Some(ScopeType::Country)
    } else {
        None
    }
}

/// The kind of scope that a top-level block opens, by the family of the
/// file and the block's key; `None` where the key opens no such scope.
pub open spec fn container_scope_kind(file_kind: ScriptFileKind, k: Seq<char>) -> Option<ScopeKind> {
    match file_kind {
        ScriptFileKind::Missions => {
            if k == "potential_on_load"@
                || k == "potential"@
                || k == "trigger"@
                || k == "provinces_to_highlight"@
                || k == "completed_by"@
                || k == "ai_weight"@ {
                Some(ScopeKind::Trigger)
            } else if k == "effect"@
                || k == "on_completed"@
                || k == "on_cancelled"@ {
                Some(ScopeKind::Effect)
            } else {
                None
            }
        },
        ScriptFileKind::NewDiplomaticActions => {
            if k == "is_visible"@
                || k == "is_allowed"@
                || k == "ai_will_do"@ {
                Some(ScopeKind::Trigger)
            } else if k == "on_accept"@
                || k == "on_decline"@
                || k == "add_entry"@ {
                Some(ScopeKind::Effect)
            } else {
                None
            }
        },
        ScriptFileKind::Events => {
            if k == "mean_time_to_happen"@ {
                Some(ScopeKind::Trigger)
            } else {
                None
            }
        },
        ScriptFileKind::Ages => {
            if k == "can_start"@
                || k == "custom_trigger_tooltip"@
                || k == "calc_true_if"@
                || k == "ai_will_do"@ {
                Some(ScopeKind::Trigger)
            } else if k == "effect"@ {
                Some(ScopeKind::Effect)
            } else {
                None
            }
        },
        ScriptFileKind::Buildings => {
            if k == "ai_will_do"@ {
                Some(ScopeKind::Trigger)
            } else if k == "on_built"@
                || k == "on_destroyed"@
                || k == "on_construction_started"@
                || k == "on_construction_canceled"@
                || k == "on_obsolete"@ {
                Some(ScopeKind::Effect)
            } else {
                None
            }
        },
        ScriptFileKind::Institutions => {
            if k == "history"@
                || k == "can_embrace"@
                || k == "potential"@
                || k == "custom_trigger_tooltip"@ {
                Some(ScopeKind::Trigger)
            } else if k == "on_start"@ {
                Some(ScopeKind::Effect)
            } else if k == "embracement_speed"@ || k == "modifier"@ {
                Some(ScopeKind::Block)
            } else {
                None
            }
        },
        ScriptFileKind::ProvinceTriggeredModifiers => {
            if k == "potential"@ || k == "trigger"@ {
                Some(ScopeKind::Trigger)
            } else if k == "on_activation"@ || k == "on_deactivation"@ {
                Some(ScopeKind::Effect)
            } else {
                None
            }
        },
        ScriptFileKind::TriggeredModifiers => {
            if k == "potential"@ || k == "trigger"@ {
                Some(ScopeKind::Trigger)
            } else if k == "on_activation"@ || k == "on_deactivation"@ {
                Some(ScopeKind::Effect)
            } else {
                None
            }
        },
        ScriptFileKind::ScriptedTriggers => {
            if k == "trigger"@
                || k == "limit"@
                || k == "custom_trigger_tooltip"@ {
                Some(ScopeKind::Trigger)
            } else {
                None
            }
        },
        ScriptFileKind::Ideas => {
            if k == "start"@ || k == "bonus"@ {
                Some(ScopeKind::Effect)
            } else if k == "trigger"@ || k == "ai_will_do"@ {
                Some(ScopeKind::Trigger)
            } else {
                None
            }
        },
        ScriptFileKind::GreatProjects => {
            if has_suffix(k, "_trigger"@) {
                Some(ScopeKind::Trigger)
            } else if k == "on_built"@
                || k == "on_destroyed"@
                || k == "on_upgraded"@
                || k == "on_downgraded"@
                || k == "on_obtained"@
                || k == "on_lost"@ {
                Some(ScopeKind::Effect)
            } else {
                None
            }
        },
        ScriptFileKind::GovernmentReforms => {
            if k == "on_enabled"@
                || k == "on_disabled"@
                || k == "on_enacted"@
                || k == "on_removed"@
                || k == "removed_effect"@ {
                Some(ScopeKind::Effect)
            } else if k == "ai_will_do"@ {
                Some(ScopeKind::Trigger)
            } else {
                None
            }
        },
        ScriptFileKind::CbTypes => {
            if k == "prerequisites_self"@
                || k == "prerequisites"@
                || k == "can_use"@
                || k == "can_take_province"@ {
                Some(ScopeKind::Trigger)
            } else {
                None
            }
        },
        ScriptFileKind::GovernmentNames | ScriptFileKind::CustomizableLocalization => {
            if k == "trigger"@ {
                Some(ScopeKind::Trigger)
            } else {
                None
            }
        },
        ScriptFileKind::Religions => {
            if k == "potential"@
                || k == "allow"@
                || k == "ai_will_do"@ {
                Some(ScopeKind::Trigger)
            } else if k == "effect"@ || k == "on_convert"@ {
                Some(ScopeKind::Effect)
            } else {
                None
            }
        },
        ScriptFileKind::SubjectTypes => {
            if k == "is_potential_overlord"@
                || k == "can_fight"@
                || k == "can_rival"@
                || k == "can_ally"@
                || k == "can_marry"@ {
                Some(ScopeKind::Trigger)
            } else if k == "modifier_subject"@ || k == "modifier_overlord"@ {
                Some(ScopeKind::Block)
            } else {
                None
            }
        },
        ScriptFileKind::RebelTypes => {
            if k == "spawn_chance"@
                || k == "movement_evaluation"@
                || k == "can_negotiate_trigger"@
                || k == "can_enforce_trigger"@ {
                Some(ScopeKind::Trigger)
            } else if k == "siege_won_effect"@ || k == "demands_enforced_effect"@ {
                Some(ScopeKind::Effect)
            } else {
                None
            }
        },
        ScriptFileKind::Disasters => {
            if k == "potential"@
                || k == "can_start"@
                || k == "can_stop"@
                || k == "can_end"@ {
                Some(ScopeKind::Trigger)
            } else if k == "on_start"@
                || k == "on_end"@
                || k == "on_monthly"@ {
                Some(ScopeKind::Effect)
            } else if k == "progress"@ || k == "modifier"@ {
                Some(ScopeKind::Block)
            } else {
                None
            }
        },
        ScriptFileKind::GovernmentMechanics => {
            if k == "available"@ || k == "trigger"@ {
                Some(ScopeKind::Trigger)
            } else if k == "on_max_reached"@ || k == "on_min_reached"@ {
                Some(ScopeKind::Effect)
            } else if k == "powers"@
                || k == "scaled_modifier"@
                || k == "reverse_scaled_modifier"@
                || k == "modifier"@ {
                Some(ScopeKind::Block)
            } else {
                None
            }
        },
        ScriptFileKind::ChurchAspects => {
            if k == "potential"@
                || k == "trigger"@
                || k == "ai_will_do"@ {
                Some(ScopeKind::Trigger)
            } else if k == "effect"@ {
                Some(ScopeKind::Effect)
            } else if k == "modifier"@ {
                Some(ScopeKind::Block)
            } else {
                None
            }
        },
        ScriptFileKind::Factions => {
            if k == "allow"@ {
                Some(ScopeKind::Trigger)
            } else if k == "modifier"@ {
                Some(ScopeKind::Block)
            } else {
                None
            }
        },
        ScriptFileKind::Hegemons => {
            if k == "allow"@ {
                Some(ScopeKind::Trigger)
            } else if k == "base"@
                || k == "scale"@
                || k == "max"@ {
                Some(ScopeKind::Block)
            } else {
                None
            }
        },
        ScriptFileKind::PersonalDeities => {
            if k == "potential"@
                || k == "trigger"@
                || k == "ai_will_do"@ {
                Some(ScopeKind::Trigger)
            } else if k == "effect"@ || k == "removed_effect"@ {
                Some(ScopeKind::Effect)
            } else {
                None
            }
        },
        ScriptFileKind::FetishistCults => {
            if k == "allow"@ || k == "ai_will_do"@ {
                Some(ScopeKind::Trigger)
            } else {
                None
            }
        },
        ScriptFileKind::PeaceTreaties => {
            if k == "is_visible"@
                || k == "is_allowed"@
                || k == "ai_weight"@ {
                Some(ScopeKind::Trigger)
            } else if k == "effect"@ {
                Some(ScopeKind::Effect)
            } else if k == "warscore_cost"@ {
                Some(ScopeKind::Block)
            } else {
                None
            }
        },
        ScriptFileKind::Policies => {
            if k == "potential"@
                || k == "allow"@
                || k == "ai_will_do"@ {
                Some(ScopeKind::Trigger)
            } else if k == "effect"@ || k == "removed_effect"@ {
                Some(ScopeKind::Effect)
            } else {
                None
            }
        },
        ScriptFileKind::MercenaryCompanies => {
            if k == "trigger"@ {
                Some(ScopeKind::Trigger)
            } else if k == "modifier"@ {
                Some(ScopeKind::Block)
            } else {
                None
            }
        },
        ScriptFileKind::EstateAgendas => {
            if k == "can_select"@
                || k == "task_requirements"@
                || k == "fail_if"@
                || k == "invalid_trigger"@
                || k == "provinces_to_highlight"@
                || k == "selection_weight"@ {
                Some(ScopeKind::Trigger)
            } else if k == "pre_effect"@
                || k == "immediate_effect"@
                || k == "on_invalid"@
                || k == "task_completed_effect"@ {
                Some(ScopeKind::Effect)
            } else {
                None
            }
        },
        ScriptFileKind::EstatePrivileges => {
            if k == "is_valid"@
                || k == "can_select"@
                || k == "can_revoke"@
                || k == "ai_will_do"@ {
                Some(ScopeKind::Trigger)
            } else if k == "on_granted"@
                || k == "on_revoked"@
                || k == "on_invalid"@
                || k == "on_granted_province"@
                || k == "on_revoked_province"@
                || k == "on_invalid_province"@
                || k == "on_cooldown_expires"@ {
                Some(ScopeKind::Effect)
            } else if k == "benefits"@
                || k == "penalties"@
                || k == "modifier_by_land_ownership"@
                || k == "mechanics"@
                || k == "conditional_modifier"@
                || k == "influence_scaled_conditional_modifier"@
                || k == "loyalty_scaled_conditional_modifier"@ {
                Some(ScopeKind::Block)
            } else {
                None
            }
        },
        ScriptFileKind::Estates => {
            if k == "trigger"@ {
                Some(ScopeKind::Trigger)
            } else if k == "country_modifier_happy"@
                || k == "country_modifier_neutral"@
                || k == "country_modifier_angry"@
                || k == "land_ownership_modifier"@
                || k == "province_independence_weight"@
                || k == "influence_modifier"@
                || k == "loyalty_modifier"@
                || k == "influence_from_dev_modifier"@ {
                Some(ScopeKind::Block)
            } else {
                None
            }
        },
        ScriptFileKind::ParliamentBribes => {
            if k == "trigger"@
                || k == "chance"@
                || k == "ai_will_do"@ {
                Some(ScopeKind::Trigger)
            } else if k == "effect"@ {
                Some(ScopeKind::Effect)
            } else {
                None
            }
        },
        ScriptFileKind::ParliamentIssues => {
            if k == "allow"@
                || k == "chance"@
                || k == "ai_will_do"@ {
                Some(ScopeKind::Trigger)
            } else if k == "effect"@ || k == "on_issue_taken"@ {
                Some(ScopeKind::Effect)
            } else if k == "modifier"@ || k == "influence_scaled_modifier"@ {
                Some(ScopeKind::Block)
            } else {
                None
            }
        },
        ScriptFileKind::StateEdicts => {
            if k == "potential"@
                || k == "allow"@
                || k == "notify_trigger"@
                || k == "ai_will_do"@ {
                Some(ScopeKind::Trigger)
            } else if k == "modifier"@ {
                Some(ScopeKind::Block)
            } else {
                None
            }
        },
        _ => None,
    }
}

pub fn file_kind_container_scope_kind(file_kind: ScriptFileKind, key: &str) -> (r: Option<ScopeKind>)
    ensures
        r == container_scope_kind(file_kind, key@),
{
    match file_kind {
        ScriptFileKind::Missions => {
            if str_eq(key, "potential_on_load")
                || str_eq(key, "potential")
                || str_eq(key, "trigger")
                || str_eq(key, "provinces_to_highlight")
                || str_eq(key, "completed_by")
                || str_eq(key, "ai_weight") {
                Some(ScopeKind::Trigger)
            } else if str_eq(key, "effect")
                || str_eq(key, "on_completed")
                || str_eq(key, "on_cancelled") {
                Some(ScopeKind::Effect)
            } else {
                None
            }
        },
        ScriptFileKind::NewDiplomaticActions => {
            if str_eq(key, "is_visible")
                || str_eq(key, "is_allowed")
                || str_eq(key, "ai_will_do") {
                Some(ScopeKind::Trigger)
            } else if str_eq(key, "on_accept")
                || str_eq(key, "on_decline")
                || str_eq(key, "add_entry") {
                Some(ScopeKind::Effect)
            } else {
                None
            }
        },
        ScriptFileKind::Events => {
            if str_eq(key, "mean_time_to_happen") {
                Some(ScopeKind::Trigger)
            } else {
                None
            }
        },
        ScriptFileKind::Ages => {
            if str_eq(key, "can_start")
                || str_eq(key, "custom_trigger_tooltip")
                || str_eq(key, "calc_true_if")
                || str_eq(key, "ai_will_do") {
                Some(ScopeKind::Trigger)
            } else if str_eq(key, "effect") {
                Some(ScopeKind::Effect)
            } else {
                None
            }
        },
        ScriptFileKind::Buildings => {
            if str_eq(key, "ai_will_do") {
                Some(ScopeKind::Trigger)
            } else if str_eq(key, "on_built")
                || str_eq(key, "on_destroyed")
                || str_eq(key, "on_construction_started")
                || str_eq(key, "on_construction_canceled")
                || str_eq(key, "on_obsolete") {
                Some(ScopeKind::Effect)
            } else {
                None
            }
        },
        ScriptFileKind::Institutions => {
            if str_eq(key, "history")
                || str_eq(key, "can_embrace")
                || str_eq(key, "potential")
                || str_eq(key, "custom_trigger_tooltip") {
                Some(ScopeKind::Trigger)
            } else if str_eq(key, "on_start") {
                Some(ScopeKind::Effect)
            } else if str_eq(key, "embracement_speed") || str_eq(key, "modifier") {
                Some(ScopeKind::Block)
            } else {
                None
            }
        },
        ScriptFileKind::ProvinceTriggeredModifiers => {
            if str_eq(key, "potential") || str_eq(key, "trigger") {
                Some(ScopeKind::Trigger)
            } else if str_eq(key, "on_activation") || str_eq(key, "on_deactivation") {
                Some(ScopeKind::Effect)
            } else {
                None
            }
        },
        ScriptFileKind::TriggeredModifiers => {
            if str_eq(key, "potential") || str_eq(key, "trigger") {
                Some(ScopeKind::Trigger)
            } else if str_eq(key, "on_activation") || str_eq(key, "on_deactivation") {
                Some(ScopeKind::Effect)
            } else {
                None
            }
        },
        ScriptFileKind::ScriptedTriggers => {
            if str_eq(key, "trigger")
                || str_eq(key, "limit")
                || str_eq(key, "custom_trigger_tooltip") {
                Some(ScopeKind::Trigger)
            } else {
                None
            }
        },
        ScriptFileKind::Ideas => {
            if str_eq(key, "start") || str_eq(key, "bonus") {
                Some(ScopeKind::Effect)
            } else if str_eq(key, "trigger") || str_eq(key, "ai_will_do") {
                Some(ScopeKind::Trigger)
            } else {
                None
            }
        },
        ScriptFileKind::GreatProjects => {
            if str_ends_with(key, "_trigger") {
                Some(ScopeKind::Trigger)
            } else if str_eq(key, "on_built")
                || str_eq(key, "on_destroyed")
                || str_eq(key, "on_upgraded")
                || str_eq(key, "on_downgraded")
                || str_eq(key, "on_obtained")
                || str_eq(key, "on_lost") {
                Some(ScopeKind::Effect)
            } else {
                None
            }
        },
        ScriptFileKind::GovernmentReforms => {
            if str_eq(key, "on_enabled")
                || str_eq(key, "on_disabled")
                || str_eq(key, "on_enacted")
                || str_eq(key, "on_removed")
                || str_eq(key, "removed_effect") {
                Some(ScopeKind::Effect)
            } else if str_eq(key, "ai_will_do") {
                Some(ScopeKind::Trigger)
            } else {
                None
            }
        },
        ScriptFileKind::CbTypes => {
            if str_eq(key, "prerequisites_self")
                || str_eq(key, "prerequisites")
                || str_eq(key, "can_use")
                || str_eq(key, "can_take_province") {
                Some(ScopeKind::Trigger)
            } else {
                None
            }
        },
        ScriptFileKind::GovernmentNames | ScriptFileKind::CustomizableLocalization => {
            if str_eq(key, "trigger") {
                Some(ScopeKind::Trigger)
            } else {
                None
            }
        },
        ScriptFileKind::Religions => {
            if str_eq(key, "potential")
                || str_eq(key, "allow")
                || str_eq(key, "ai_will_do") {
                Some(ScopeKind::Trigger)
            } else if str_eq(key, "effect") || str_eq(key, "on_convert") {
                Some(ScopeKind::Effect)
            } else {
                None
            }
        },
        ScriptFileKind::SubjectTypes => {
            if str_eq(key, "is_potential_overlord")
                || str_eq(key, "can_fight")
                || str_eq(key, "can_rival")
                || str_eq(key, "can_ally")
                || str_eq(key, "can_marry") {
                Some(ScopeKind::Trigger)
            } else if str_eq(key, "modifier_subject") || str_eq(key, "modifier_overlord") {
                Some(ScopeKind::Block)
            } else {
                None
            }
        },
        ScriptFileKind::RebelTypes => {
            if str_eq(key, "spawn_chance")
                || str_eq(key, "movement_evaluation")
                || str_eq(key, "can_negotiate_trigger")
                || str_eq(key, "can_enforce_trigger") {
                Some(ScopeKind::Trigger)
            } else if str_eq(key, "siege_won_effect") || str_eq(key, "demands_enforced_effect") {
                Some(ScopeKind::Effect)
            } else {
                None
            }
        },
        ScriptFileKind::Disasters => {
            if str_eq(key, "potential")
                || str_eq(key, "can_start")
                || str_eq(key, "can_stop")
                || str_eq(key, "can_end") {
                Some(ScopeKind::Trigger)
            } else if str_eq(key, "on_start")
                || str_eq(key, "on_end")
                || str_eq(key, "on_monthly") {
                Some(ScopeKind::Effect)
            } else if str_eq(key, "progress") || str_eq(key, "modifier") {
                Some(ScopeKind::Block)
            } else {
                None
            }
        },
        ScriptFileKind::GovernmentMechanics => {
            if str_eq(key, "available") || str_eq(key, "trigger") {
                Some(ScopeKind::Trigger)
            } else if str_eq(key, "on_max_reached") || str_eq(key, "on_min_reached") {
                Some(ScopeKind::Effect)
            } else if str_eq(key, "powers")
                || str_eq(key, "scaled_modifier")
                || str_eq(key, "reverse_scaled_modifier")
                || str_eq(key, "modifier") {
                Some(ScopeKind::Block)
            } else {
                None
            }
        },
        ScriptFileKind::ChurchAspects => {
            if str_eq(key, "potential")
                || str_eq(key, "trigger")
                || str_eq(key, "ai_will_do") {
                Some(ScopeKind::Trigger)
            } else if str_eq(key, "effect") {
                Some(ScopeKind::Effect)
            } else if str_eq(key, "modifier") {
                Some(ScopeKind::Block)
            } else {
                None
            }
        },
        ScriptFileKind::Factions => {
            if str_eq(key, "allow") {
                Some(ScopeKind::Trigger)
            } else if str_eq(key, "modifier") {
                Some(ScopeKind::Block)
            } else {
                None
            }
        },
        ScriptFileKind::Hegemons => {
            if str_eq(key, "allow") {
                Some(ScopeKind::Trigger)
            } else if str_eq(key, "base")
                || str_eq(key, "scale")
                || str_eq(key, "max") {
                Some(ScopeKind::Block)
            } else {
                None
            }
        },
        ScriptFileKind::PersonalDeities => {
            if str_eq(key, "potential")
                || str_eq(key, "trigger")
                || str_eq(key, "ai_will_do") {
                Some(ScopeKind::Trigger)
            } else if str_eq(key, "effect") || str_eq(key, "removed_effect") {
                Some(ScopeKind::Effect)
            } else {
                None
            }
        },
        ScriptFileKind::FetishistCults => {
            if str_eq(key, "allow") || str_eq(key, "ai_will_do") {
                Some(ScopeKind::Trigger)
            } else {
                None
            }
        },
        ScriptFileKind::PeaceTreaties => {
            if str_eq(key, "is_visible")
                || str_eq(key, "is_allowed")
                || str_eq(key, "ai_weight") {
                Some(ScopeKind::Trigger)
            } else if str_eq(key, "effect") {
                Some(ScopeKind::Effect)
            } else if str_eq(key, "warscore_cost") {
                Some(ScopeKind::Block)
            } else {
                None
            }
        },
        ScriptFileKind::Policies => {
            if str_eq(key, "potential")
                || str_eq(key, "allow")
                || str_eq(key, "ai_will_do") {
                Some(ScopeKind::Trigger)
            } else if str_eq(key, "effect") || str_eq(key, "removed_effect") {
                Some(ScopeKind::Effect)
            } else {
                None
            }
        },
        ScriptFileKind::MercenaryCompanies => {
            if str_eq(key, "trigger") {
                Some(ScopeKind::Trigger)
            } else if str_eq(key, "modifier") {
                Some(ScopeKind::Block)
            } else {
                None
            }
        },
        ScriptFileKind::EstateAgendas => {
            if str_eq(key, "can_select")
                || str_eq(key, "task_requirements")
                || str_eq(key, "fail_if")
                || str_eq(key, "invalid_trigger")
                || str_eq(key, "provinces_to_highlight")
                || str_eq(key, "selection_weight") {
                Some(ScopeKind::Trigger)
            } else if str_eq(key, "pre_effect")
                || str_eq(key, "immediate_effect")
                || str_eq(key, "on_invalid")
                || str_eq(key, "task_completed_effect") {
                Some(ScopeKind::Effect)
            } else {
                None
            }
        },
        ScriptFileKind::EstatePrivileges => {
            if str_eq(key, "is_valid")
                || str_eq(key, "can_select")
                || str_eq(key, "can_revoke")
                || str_eq(key, "ai_will_do") {
                Some(ScopeKind::Trigger)
            } else if str_eq(key, "on_granted")
                || str_eq(key, "on_revoked")
                || str_eq(key, "on_invalid")
                || str_eq(key, "on_granted_province")
                || str_eq(key, "on_revoked_province")
                || str_eq(key, "on_invalid_province")
                || str_eq(key, "on_cooldown_expires") {
                Some(ScopeKind::Effect)
            } else if str_eq(key, "benefits")
                || str_eq(key, "penalties")
                || str_eq(key, "modifier_by_land_ownership")
                || str_eq(key, "mechanics")
                || str_eq(key, "conditional_modifier")
                || str_eq(key, "influence_scaled_conditional_modifier")
                || str_eq(key, "loyalty_scaled_conditional_modifier") {
                Some(ScopeKind::Block)
            } else {
                None
            }
        },
        ScriptFileKind::Estates => {
            if str_eq(key, "trigger") {
                Some(ScopeKind::Trigger)
            } else if str_eq(key, "country_modifier_happy")
                || str_eq(key, "country_modifier_neutral")
                || str_eq(key, "country_modifier_angry")
                || str_eq(key, "land_ownership_modifier")
                || str_eq(key, "province_independence_weight")
                || str_eq(key, "influence_modifier")
                || str_eq(key, "loyalty_modifier")
                || str_eq(key, "influence_from_dev_modifier") {
                Some(ScopeKind::Block)
            } else {
                None
            }
        },
        ScriptFileKind::ParliamentBribes => {
            if str_eq(key, "trigger")
                || str_eq(key, "chance")
                || str_eq(key, "ai_will_do") {
                Some(ScopeKind::Trigger)
            } else if str_eq(key, "effect") {
                Some(ScopeKind::Effect)
            } else {
                None
            }
        },
        ScriptFileKind::ParliamentIssues => {
            if str_eq(key, "allow")
                || str_eq(key, "chance")
                || str_eq(key, "ai_will_do") {
                Some(ScopeKind::Trigger)
            } else if str_eq(key, "effect") || str_eq(key, "on_issue_taken") {
                Some(ScopeKind::Effect)
            } else if str_eq(key, "modifier") || str_eq(key, "influence_scaled_modifier") {
                Some(ScopeKind::Block)
            } else {
                None
            }
        },
        ScriptFileKind::StateEdicts => {
            if str_eq(key, "potential")
                || str_eq(key, "allow")
                || str_eq(key, "notify_trigger")
                || str_eq(key, "ai_will_do") {
                Some(ScopeKind::Trigger)
            } else if str_eq(key, "modifier") {
                Some(ScopeKind::Block)
            } else {
                None
            }
        },
        _ => None,
    }
}

/// The scope type that a builtin scope changer moves to.
pub open spec fn scope_changer_target(k: Seq<char>) -> Option<ScopeType> {
    if k == "capital_scope"@ {
        Some(ScopeType::Province)
    } else if k == "owner"@ {
        Some(ScopeType::Country)
    } else {
        None
    }
}

pub fn scope_changer_target_type(key: &str) -> (r: Option<ScopeType>)
    ensures
        r == scope_changer_target(key@),
{
    if str_eq(key, "capital_scope") {
        Some(ScopeType::Province)
    } else if str_eq(key, "owner") {
        Some(ScopeType::Country)
    } else {
        None
    }
}

/// The special blocks that hold conditions; every other one is a plain block.
pub open spec fn is_trigger_special_block(k: Seq<char>) -> bool {
    k == "possible"@ || k == "visible"@ || k == "happened"@ || k == "provinces_to_highlight"@
        || k == "exclude_from_progress"@
}

pub fn special_block_scope_kind(key: &str) -> (r: ScopeKind)
    ensures
        r == (if is_trigger_special_block(key@) {
            ScopeKind::Trigger
        } else {
            ScopeKind::Block
        }),
{
    if str_eq(key, "possible") || str_eq(key, "visible") || str_eq(key, "happened") || str_eq(
        key,
        "provinces_to_highlight",
    ) || str_eq(key, "exclude_from_progress") {
        ScopeKind::Trigger
    } else {
        ScopeKind::Block
    }
}

pub fn is_country_file_reference(value: &str) -> (r: bool)
    ensures
        r == (has_prefix(value@, "countries/"@) && has_suffix(value@, ".txt"@)),
{
    str_starts_with(value, "countries/") && str_ends_with(value, ".txt")
}

/// A country tag: exactly three characters, an ASCII capital first and ASCII
/// capitals or digits after it (FRA, ENG, KOR, and the X3E, K01 of mods).
pub open spec fn is_country_tag(s: Seq<char>) -> bool {
    &&& s.len() == 3
    &&& 'A' <= s[0] <= 'Z'
    &&& forall|i: int| 1 <= i < 3 ==> ('A' <= #[trigger] s[i] <= 'Z' || '0' <= s[i] <= '9')
}

fn is_country_tag_token(token: &str) -> (r: bool)
    ensures
        r == is_country_tag(token@),
{
    let cs = chars_of(token);
    if cs.len() != 3 {
        return false;
    }
    let first = cs[0];
    if !('A' <= first && first <= 'Z') {
        return false;
    }
    let mut i: usize = 1;
    while i < 3
        invariant
            1 <= i <= 3,
            cs@ == token@,
            cs.len() == 3,
            forall|j: int| 1 <= j < i ==> ('A' <= #[trigger] cs@[j] <= 'Z' || '0' <= cs@[j] <= '9'),
        decreases 3 - i,
    {
        let c = cs[i];
        if !(('A' <= c && c <= 'Z') || ('0' <= c && c <= '9')) {
            return false;
        }
        i = i + 1;
    }
    true
}

pub fn is_country_tag_text(value: &str) -> (r: bool)
    ensures
        r == is_country_tag(value@),
{
    is_country_tag_token(value)
}

pub fn is_country_tag_selector(key: &str) -> (r: bool)
    ensures
        r == is_country_tag(key@),
{
    is_country_tag_token(key)
}

/// The value of a string of decimal digits.
pub open spec fn decimal_value(d: Seq<char>) -> nat
    decreases d.len(),
{
    if d.len() == 0 {
        0
    } else {
        decimal_value(d.drop_last()) * 10 + ((d.last() as u32) - 48) as nat
    }
}

pub open spec fn all_digits(d: Seq<char>) -> bool {
    forall|i: int| 0 <= i < d.len() ==> '0' <= #[trigger] d[i] <= '9'
}

/// What `str::parse::<u32>` gives: an optional `+`, then one or more decimal
/// digits whose value fits in 32 bits; anything else is an error.
pub open spec fn parse_u32(s: Seq<char>) -> Option<u32> {
    let d = if s.len() > 0 && s[0] == '+' {
        s.drop_first()
    } else {
        s
    };
    if d.len() > 0 && all_digits(d) && decimal_value(d) <= u32::MAX {
        Some(decimal_value(d) as u32)
    } else {
        None
    }
}

proof fn lemma_decimal_value_grows(d: Seq<char>, i: int)
    requires
        0 <= i <= d.len(),
        all_digits(d),
    ensures
        decimal_value(d.subrange(0, i)) <= decimal_value(d),
    decreases d.len() - i,
{
    if i < d.len() {
        lemma_decimal_value_grows(d, i + 1);
        assert(d.subrange(0, i + 1).drop_last() =~= d.subrange(0, i));
    } else {
        assert(d.subrange(0, i) =~= d);
    }
}

pub fn parse_u32_text(text: &str) -> (r: Option<u32>)
    ensures
        r == parse_u32(text@),
{
    let cs = chars_of(text);
    let mut i: usize = 0;
    if cs.len() > 0 && cs[0] == '+' {
        i = 1;
    }
    let start = i;
    let ghost d = cs@.subrange(start as int, cs.len() as int);
    assert(d == if text@.len() > 0 && text@[0] == '+' {
        text@.drop_first()
    } else {
        text@
    });
    if start == cs.len() {
        return None;
    }
    let mut acc: u64 = 0;
    while i < cs.len()
        invariant
            start <= i <= cs.len(),
            start < cs.len(),
            cs@ == text@,
            d == cs@.subrange(start as int, cs.len() as int),
            d == (if text@.len() > 0 && text@[0] == '+' {
                text@.drop_first()
            } else {
                text@
            }),
            all_digits(cs@.subrange(start as int, i as int)),
            acc == decimal_value(cs@.subrange(start as int, i as int)),
            acc <= u32::MAX,
        decreases cs.len() - i,
    {
        let c = cs[i];
        if !('0' <= c && c <= '9') {
            assert(d[i - start] == c);
            return None;
        }
        let digit = (c as u32 - 48) as u64;
        let next = acc * 10 + digit;
        assert(cs@.subrange(start as int, i + 1).drop_last() =~= cs@.subrange(
            start as int,
            i as int,
        ));
        if next > 4294967295 {
            proof {
                let p = cs@.subrange(start as int, i + 1);
                assert(p == d.subrange(0, i + 1 - start));
                if all_digits(d) {
                    lemma_decimal_value_grows(d, i + 1 - start);
                }
            }
            return None;
        }
        acc = next;
        i = i + 1;
    }
    assert(cs@.subrange(start as int, i as int) == d);
    Some(acc as u32)
}

/// What `str::parse::<u64>` gives: an optional `+`, then one or more decimal
/// digits whose value fits in 64 bits; anything else is an error.
pub open spec fn parse_u64(s: Seq<char>) -> Option<u64> {
    let d = if s.len() > 0 && s[0] == '+' {
        s.drop_first()
    } else {
        s
    };
    if d.len() > 0 && all_digits(d) && decimal_value(d) <= u64::MAX {
        Some(decimal_value(d) as u64)
    } else {
        None
    }
}

pub fn parse_u64_text(text: &str) -> (r: Option<u64>)
    ensures
        r == parse_u64(text@),
{
    let cs = chars_of(text);
    let mut i: usize = 0;
    if cs.len() > 0 && cs[0] == '+' {
        i = 1;
    }
    let start = i;
    let ghost d = cs@.subrange(start as int, cs.len() as int);
    assert(d == if text@.len() > 0 && text@[0] == '+' {
        text@.drop_first()
    } else {
        text@
    });
    if start == cs.len() {
        return None;
    }
    let mut acc: u128 = 0;
    while i < cs.len()
        invariant
            start <= i <= cs.len(),
            start < cs.len(),
            cs@ == text@,
            d == cs@.subrange(start as int, cs.len() as int),
            d == (if text@.len() > 0 && text@[0] == '+' {
                text@.drop_first()
            } else {
                text@
            }),
            all_digits(cs@.subrange(start as int, i as int)),
            acc == decimal_value(cs@.subrange(start as int, i as int)),
            acc <= u64::MAX,
        decreases cs.len() - i,
    {
        let c = cs[i];
        if !('0' <= c && c <= '9') {
            assert(d[i - start] == c);
            return None;
        }
        let digit = (c as u32 - 48) as u128;
        let next = acc * 10 + digit;
        assert(cs@.subrange(start as int, i + 1).drop_last() =~= cs@.subrange(
            start as int,
            i as int,
        ));
        if next > 18446744073709551615 {
            proof {
                let p = cs@.subrange(start as int, i + 1);
                assert(p == d.subrange(0, i + 1 - start));
                if all_digits(d) {
                    lemma_decimal_value_grows(d, i + 1 - start);
                }
            }
            return None;
        }
        acc = next;
        i = i + 1;
    }
    assert(cs@.subrange(start as int, i as int) == d);
    Some(acc as u64)
}

pub fn is_province_id_text(value: &str) -> (r: bool)
    ensures
        r == (parse_u32(value@) matches Some(id) && id > 0),
{
    match parse_u32_text(value) {
        Some(id) => id > 0,
        None => false,
    }
}

pub fn is_province_id_selector(key: &str) -> (r: bool)
    ensures
        r == (parse_u32(key@) matches Some(id) && id > 100),
{
    match parse_u32_text(key) {
        Some(id) => id > 100,
        None => false,
    }
}

pub fn is_dynamic_scope_reference_key(key: &str) -> (r: bool)
    ensures
        r == has_prefix(key@, "event_target:"@),
{
    str_starts_with(key, "event_target:")
}

/// A key named like an area, region, superregion or province group.
pub open spec fn is_map_group_like(k: Seq<char>) -> bool {
    has_suffix(k, "_area"@) || has_suffix(k, "_region"@) || has_suffix(k, "_superregion"@)
        || has_suffix(k, "_provincegroup"@)
}

pub fn looks_like_map_group_key(key: &str) -> (r: bool)
    ensures
        r == is_map_group_like(key@),
{
    str_ends_with(key, "_area") || str_ends_with(key, "_region") || str_ends_with(
        key,
        "_superregion",
    ) || str_ends_with(key, "_provincegroup")
}


/// The iterators over provinces move the scope to a province: each of the
/// `all_`, `any_`, `every_` and `random_` forms that the game defines for
/// the owned, core, all, in-state and trade-node-member provinces, the
/// `any_`, `every_` and `random_` forms for empty neighbouring and heretic
/// provinces, and the `all_`, `every_` and `random_` forms for
/// neighbouring provinces.
pub proof fn lemma_province_iterators_open_province_scopes(prefix: Seq<char>, stem: Seq<char>)
    ensures
        (prefix == "all_"@ || prefix == "any_"@ || prefix == "every_"@ || prefix == "random_"@) && (stem == "owned_province"@ || stem == "core_province"@ || stem == "province"@ || stem == "province_in_state"@ || stem == "trade_node_member_province"@) ==> iterator_scope(prefix + stem) == Some(ScopeType::Province),
        (prefix == "any_"@ || prefix == "every_"@ || prefix == "random_"@) && (stem == "empty_neighbor_province"@ || stem == "heretic_province"@) ==> iterator_scope(prefix + stem) == Some(ScopeType::Province),
        (prefix == "all_"@ || prefix == "every_"@ || prefix == "random_"@) && (stem == "neighbor_province"@) ==> iterator_scope(prefix + stem) == Some(ScopeType::Province),
{
    reveal_strlit("all_");
    reveal_strlit("all_core_province");
    reveal_strlit("all_neighbor_province");
    reveal_strlit("all_owned_province");
    reveal_strlit("all_province");
    reveal_strlit("all_province_in_state");
    reveal_strlit("all_trade_node_member_province");
    reveal_strlit("any_");
    reveal_strlit("any_core_province");
    reveal_strlit("any_empty_neighbor_province");
    reveal_strlit("any_heretic_province");
    reveal_strlit("any_owned_province");
    reveal_strlit("any_province");
    reveal_strlit("any_province_in_state");
    reveal_strlit("any_trade_node_member_province");
    reveal_strlit("core_province");
    reveal_strlit("empty_neighbor_province");
    reveal_strlit("every_");
    reveal_strlit("every_core_province");
    reveal_strlit("every_empty_neighbor_province");
    reveal_strlit("every_heretic_province");
    reveal_strlit("every_neighbor_province");
    reveal_strlit("every_owned_province");
    reveal_strlit("every_province");
    reveal_strlit("every_province_in_state");
    reveal_strlit("every_trade_node_member_province");
    reveal_strlit("heretic_province");
    reveal_strlit("neighbor_province");
    reveal_strlit("owned_province");
    reveal_strlit("province");
    reveal_strlit("province_in_state");
    reveal_strlit("random_");
    reveal_strlit("random_core_province");
    reveal_strlit("random_empty_neighbor_province");
    reveal_strlit("random_heretic_province");
    reveal_strlit("random_neighbor_province");
    reveal_strlit("random_owned_province");
    reveal_strlit("random_province");
    reveal_strlit("random_province_in_state");
    reveal_strlit("random_trade_node_member_province");
    reveal_strlit("trade_node_member_province");
    if prefix == "all_"@ && stem == "owned_province"@ {
        assert(prefix + stem =~= "all_owned_province"@);
    }
    if prefix == "all_"@ && stem == "core_province"@ {
        assert(prefix + stem =~= "all_core_province"@);
    }
    if prefix == "all_"@ && stem == "province"@ {
        assert(prefix + stem =~= "all_province"@);
    }
    if prefix == "all_"@ && stem == "province_in_state"@ {
        assert(prefix + stem =~= "all_province_in_state"@);
    }
    if prefix == "all_"@ && stem == "trade_node_member_province"@ {
        assert(prefix + stem =~= "all_trade_node_member_province"@);
    }
    if prefix == "any_"@ && stem == "owned_province"@ {
        assert(prefix + stem =~= "any_owned_province"@);
    }
    if prefix == "any_"@ && stem == "core_province"@ {
        assert(prefix + stem =~= "any_core_province"@);
    }
    if prefix == "any_"@ && stem == "province"@ {
        assert(prefix + stem =~= "any_province"@);
    }
    if prefix == "any_"@ && stem == "province_in_state"@ {
        assert(prefix + stem =~= "any_province_in_state"@);
    }
    if prefix == "any_"@ && stem == "trade_node_member_province"@ {
        assert(prefix + stem =~= "any_trade_node_member_province"@);
    }
    if prefix == "every_"@ && stem == "owned_province"@ {
        assert(prefix + stem =~= "every_owned_province"@);
    }
    if prefix == "every_"@ && stem == "core_province"@ {
        assert(prefix + stem =~= "every_core_province"@);
    }
    if prefix == "every_"@ && stem == "province"@ {
        assert(prefix + stem =~= "every_province"@);
    }
    if prefix == "every_"@ && stem == "province_in_state"@ {
        assert(prefix + stem =~= "every_province_in_state"@);
    }
    if prefix == "every_"@ && stem == "trade_node_member_province"@ {
        assert(prefix + stem =~= "every_trade_node_member_province"@);
    }
    if prefix == "random_"@ && stem == "owned_province"@ {
        assert(prefix + stem =~= "random_owned_province"@);
    }
    if prefix == "random_"@ && stem == "core_province"@ {
        assert(prefix + stem =~= "random_core_province"@);
    }
    if prefix == "random_"@ && stem == "province"@ {
        assert(prefix + stem =~= "random_province"@);
    }
    if prefix == "random_"@ && stem == "province_in_state"@ {
        assert(prefix + stem =~= "random_province_in_state"@);
    }
    if prefix == "random_"@ && stem == "trade_node_member_province"@ {
        assert(prefix + stem =~= "random_trade_node_member_province"@);
    }
    if prefix == "any_"@ && stem == "empty_neighbor_province"@ {
        assert(prefix + stem =~= "any_empty_neighbor_province"@);
    }
    if prefix == "any_"@ && stem == "heretic_province"@ {
        assert(prefix + stem =~= "any_heretic_province"@);
    }
    if prefix == "every_"@ && stem == "empty_neighbor_province"@ {
        assert(prefix + stem =~= "every_empty_neighbor_province"@);
    }
    if prefix == "every_"@ && stem == "heretic_province"@ {
        assert(prefix + stem =~= "every_heretic_province"@);
    }
    if prefix == "random_"@ && stem == "empty_neighbor_province"@ {
        assert(prefix + stem =~= "random_empty_neighbor_province"@);
    }
    if prefix == "random_"@ && stem == "heretic_province"@ {
        assert(prefix + stem =~= "random_heretic_province"@);
    }
    if prefix == "all_"@ && stem == "neighbor_province"@ {
        assert(prefix + stem =~= "all_neighbor_province"@);
    }
    if prefix == "every_"@ && stem == "neighbor_province"@ {
        assert(prefix + stem =~= "every_neighbor_province"@);
    }
    if prefix == "random_"@ && stem == "neighbor_province"@ {
        assert(prefix + stem =~= "random_neighbor_province"@);
    }
}

} // verus!
