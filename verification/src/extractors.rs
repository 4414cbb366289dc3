//! Keys that the content-family extractors read as references to other
//! definitions, and the shapes of diplomacy history blocks.

use vstd::prelude::*;
use crate::content_family::{char_views, split_chars, split_on};
use crate::parser::{AstValue, ValueModel};
use crate::scope_rules::{
    is_country_tag, is_country_tag_text, is_province_id_text, parse_u32, parse_u32_text,
};
use crate::text::{chars_of, str_eq, string_from_chars};

verus! {

/// A country tag selector of the history files: exactly three ASCII capitals.
pub open spec fn is_upper_tag(k: Seq<char>) -> bool {
    k.len() == 3 && forall|i: int| 0 <= i < 3 ==> 'A' <= #[trigger] k[i] <= 'Z'
}

pub fn is_country_tag_selector(key: &str) -> (r: bool)
    ensures
        r == is_upper_tag(key@),
{
    let cs = chars_of(key);
    cs.len() == 3 && 'A' <= cs[0] && cs[0] <= 'Z' && 'A' <= cs[1] && cs[1] <= 'Z' && 'A' <= cs[2]
        && cs[2] <= 'Z'
}

/// The keys for which `is_country_history_province_reference_key` holds.
pub open spec fn country_history_province_reference_key_spec(k: Seq<char>) -> bool {
    k == "capital"@
}

pub fn is_country_history_province_reference_key(key: &str) -> (r: bool)
    ensures
        r == country_history_province_reference_key_spec(key@),
{
    str_eq(key, "capital")
}

/// The keys for which `is_country_history_country_reference_key` holds.
pub open spec fn country_history_country_reference_key_spec(k: Seq<char>) -> bool {
    k == "country_of_origin"@
}

pub fn is_country_history_country_reference_key(key: &str) -> (r: bool)
    ensures
        r == country_history_country_reference_key_spec(key@),
{
    str_eq(key, "country_of_origin")
}

/// The keys for which `is_province_history_country_reference_key` holds.
pub open spec fn province_history_country_reference_key_spec(k: Seq<char>) -> bool {
    k == "add_core"@ || k == "owner"@ || k == "controller"@
}

pub fn is_province_history_country_reference_key(key: &str) -> (r: bool)
    ensures
        r == province_history_country_reference_key_spec(key@),
{
    str_eq(key, "add_core") || str_eq(key, "owner") || str_eq(key, "controller")
}

/// The keys for which `is_war_history_country_reference_key` holds.
pub open spec fn war_history_country_reference_key_spec(k: Seq<char>) -> bool {
    k == "add_attacker"@ || k == "add_defender"@ || k == "rem_attacker"@ || k == "rem_defender"@ || k == "country"@
}

pub fn is_war_history_country_reference_key(key: &str) -> (r: bool)
    ensures
        r == war_history_country_reference_key_spec(key@),
{
    str_eq(key, "add_attacker") || str_eq(key, "add_defender") || str_eq(key, "rem_attacker") || str_eq(key, "rem_defender") || str_eq(key, "country")
}

/// The keys for which `is_war_history_province_reference_key` holds.
pub open spec fn war_history_province_reference_key_spec(k: Seq<char>) -> bool {
    k == "location"@
}

pub fn is_war_history_province_reference_key(key: &str) -> (r: bool)
    ensures
        r == war_history_province_reference_key_spec(key@),
{
    str_eq(key, "location")
}

/// The keys for which `is_country_metadata_scalar_reference_key` holds.
pub open spec fn country_metadata_scalar_reference_key_spec(k: Seq<char>) -> bool {
    k == "graphical_culture"@ || k == "second_graphical_culture"@ || k == "preferred_religion"@
}

pub fn is_country_metadata_scalar_reference_key(key: &str) -> (r: bool)
    ensures
        r == country_metadata_scalar_reference_key_spec(key@),
{
    str_eq(key, "graphical_culture") || str_eq(key, "second_graphical_culture") || str_eq(key, "preferred_religion")
}

/// The keys for which `country_metadata_block_reference_key` names a reference kind.
pub open spec fn country_metadata_block_reference_key_spec(k: Seq<char>) -> Option<&'static str> {
    if k == "historical_idea_groups"@ {
        Some("historical_idea_groups")
    } else if k == "historical_units"@ {
        Some("historical_units")
    } else {
        None
    }
}

pub fn country_metadata_block_reference_key(key: &str) -> (r: Option<&'static str>)
    ensures
        r == country_metadata_block_reference_key_spec(key@),
{
    if str_eq(key, "historical_idea_groups") {
        Some("historical_idea_groups")
    } else if str_eq(key, "historical_units") {
        Some("historical_units")
    } else {
        None
    }
}

/// The keys for which `is_unit_definition_reference_key` holds.
pub open spec fn unit_definition_reference_key_spec(k: Seq<char>) -> bool {
    k == "type"@ || k == "unit_type"@
}

pub fn is_unit_definition_reference_key(key: &str) -> (r: bool)
    ensures
        r == unit_definition_reference_key_spec(key@),
{
    str_eq(key, "type") || str_eq(key, "unit_type")
}

/// The keys for which `religion_block_reference_key` names a reference kind.
pub open spec fn religion_block_reference_key_spec(k: Seq<char>) -> Option<&'static str> {
    if k == "allowed_conversion"@ {
        Some("allowed_conversion")
    } else if k == "heretic"@ {
        Some("heretic")
    } else {
        None
    }
}

pub fn religion_block_reference_key(key: &str) -> (r: Option<&'static str>)
    ensures
        r == religion_block_reference_key_spec(key@),
{
    if str_eq(key, "allowed_conversion") {
        Some("allowed_conversion")
    } else if str_eq(key, "heretic") {
        Some("heretic")
    } else {
        None
    }
}

/// The keys for which `is_subject_type_reference_key` holds.
pub open spec fn subject_type_reference_key_spec(k: Seq<char>) -> bool {
    k == "copy_from"@ || k == "sprite"@ || k == "diplomacy_overlord_sprite"@ || k == "diplomacy_subject_sprite"@ || k == "overlord_opinion_modifier"@ || k == "subject_opinion_modifier"@
}

pub fn is_subject_type_reference_key(key: &str) -> (r: bool)
    ensures
        r == subject_type_reference_key_spec(key@),
{
    str_eq(key, "copy_from") || str_eq(key, "sprite") || str_eq(key, "diplomacy_overlord_sprite") || str_eq(key, "diplomacy_subject_sprite") || str_eq(key, "overlord_opinion_modifier") || str_eq(key, "subject_opinion_modifier")
}

/// The keys for which `is_rebel_type_reference_key` holds.
pub open spec fn rebel_type_reference_key_spec(k: Seq<char>) -> bool {
    k == "gfx_type"@ || k == "demands_description"@
}

pub fn is_rebel_type_reference_key(key: &str) -> (r: bool)
    ensures
        r == rebel_type_reference_key_spec(key@),
{
    str_eq(key, "gfx_type") || str_eq(key, "demands_description")
}

/// The keys for which `is_disaster_scalar_reference_key` holds.
pub open spec fn disaster_scalar_reference_key_spec(k: Seq<char>) -> bool {
    k == "on_start"@ || k == "on_end"@ || k == "has_disaster"@
}

pub fn is_disaster_scalar_reference_key(key: &str) -> (r: bool)
    ensures
        r == disaster_scalar_reference_key_spec(key@),
{
    str_eq(key, "on_start") || str_eq(key, "on_end") || str_eq(key, "has_disaster")
}

/// The keys for which `disaster_block_reference_key` names a reference kind.
pub open spec fn disaster_block_reference_key_spec(k: Seq<char>) -> Option<&'static str> {
    if k == "events"@ {
        Some("event")
    } else if k == "random_events"@ {
        Some("event")
    } else {
        None
    }
}

pub fn disaster_block_reference_key(key: &str) -> (r: Option<&'static str>)
    ensures
        r == disaster_block_reference_key_spec(key@),
{
    if str_eq(key, "events") {
        Some("event")
    } else if str_eq(key, "random_events") {
        Some("event")
    } else {
        None
    }
}

/// The keys for which `is_government_mechanic_scalar_reference_key` holds.
pub open spec fn government_mechanic_scalar_reference_key_spec(k: Seq<char>) -> bool {
    k == "gui"@ || k == "mechanic_type"@ || k == "power_type"@ || k == "custom_tooltip"@
}

pub fn is_government_mechanic_scalar_reference_key(key: &str) -> (r: bool)
    ensures
        r == government_mechanic_scalar_reference_key_spec(key@),
{
    str_eq(key, "gui") || str_eq(key, "mechanic_type") || str_eq(key, "power_type") || str_eq(key, "custom_tooltip")
}

/// The keys for which `is_peace_treaty_scalar_reference_key` holds.
pub open spec fn peace_treaty_scalar_reference_key_spec(k: Seq<char>) -> bool {
    k == "power_projection"@
}

pub fn is_peace_treaty_scalar_reference_key(key: &str) -> (r: bool)
    ensures
        r == peace_treaty_scalar_reference_key_spec(key@),
{
    str_eq(key, "power_projection")
}

/// The keys for which `is_bookmark_localisation_reference_key` holds.
pub open spec fn bookmark_localisation_reference_key_spec(k: Seq<char>) -> bool {
    k == "name"@ || k == "desc"@
}

pub fn is_bookmark_localisation_reference_key(key: &str) -> (r: bool)
    ensures
        r == bookmark_localisation_reference_key_spec(key@),
{
    str_eq(key, "name") || str_eq(key, "desc")
}

/// The keys for which `is_estate_agenda_scalar_reference_key` holds.
pub open spec fn estate_agenda_scalar_reference_key_spec(k: Seq<char>) -> bool {
    k == "estate"@ || k == "custom_tooltip"@ || k == "tooltip"@
}

pub fn is_estate_agenda_scalar_reference_key(key: &str) -> (r: bool)
    ensures
        r == estate_agenda_scalar_reference_key_spec(key@),
{
    str_eq(key, "estate") || str_eq(key, "custom_tooltip") || str_eq(key, "tooltip")
}

/// The keys for which `is_estate_privilege_scalar_reference_key` holds.
pub open spec fn estate_privilege_scalar_reference_key_spec(k: Seq<char>) -> bool {
    k == "icon"@ || k == "custom_tooltip"@ || k == "estate"@
}

pub fn is_estate_privilege_scalar_reference_key(key: &str) -> (r: bool)
    ensures
        r == estate_privilege_scalar_reference_key_spec(key@),
{
    str_eq(key, "icon") || str_eq(key, "custom_tooltip") || str_eq(key, "estate")
}

/// The keys for which `is_estate_scalar_reference_key` holds.
pub open spec fn estate_scalar_reference_key_spec(k: Seq<char>) -> bool {
    k == "custom_name"@ || k == "custom_desc"@ || k == "starting_reform"@ || k == "independence_government"@
}

pub fn is_estate_scalar_reference_key(key: &str) -> (r: bool)
    ensures
        r == estate_scalar_reference_key_spec(key@),
{
    str_eq(key, "custom_name") || str_eq(key, "custom_desc") || str_eq(key, "starting_reform") || str_eq(key, "independence_government")
}

/// The keys for which `estate_block_reference_key` names a reference kind.
pub open spec fn estate_block_reference_key_spec(k: Seq<char>) -> Option<&'static str> {
    if k == "privileges"@ {
        Some("privileges")
    } else if k == "agendas"@ {
        Some("agendas")
    } else {
        None
    }
}

pub fn estate_block_reference_key(key: &str) -> (r: Option<&'static str>)
    ensures
        r == estate_block_reference_key_spec(key@),
{
    if str_eq(key, "privileges") {
        Some("privileges")
    } else if str_eq(key, "agendas") {
        Some("agendas")
    } else {
        None
    }
}

/// The keys for which `is_parliament_bribe_scalar_reference_key` holds.
pub open spec fn parliament_bribe_scalar_reference_key_spec(k: Seq<char>) -> bool {
    k == "name"@ || k == "estate"@ || k == "mechanic_type"@ || k == "power_type"@ || k == "type"@
}

pub fn is_parliament_bribe_scalar_reference_key(key: &str) -> (r: bool)
    ensures
        r == parliament_bribe_scalar_reference_key_spec(key@),
{
    str_eq(key, "name") || str_eq(key, "estate") || str_eq(key, "mechanic_type") || str_eq(key, "power_type") || str_eq(key, "type")
}

/// The keys for which `is_parliament_issue_scalar_reference_key` holds.
pub open spec fn parliament_issue_scalar_reference_key_spec(k: Seq<char>) -> bool {
    k == "parliament_action"@ || k == "issue"@ || k == "estate"@ || k == "custom_tooltip"@
}

pub fn is_parliament_issue_scalar_reference_key(key: &str) -> (r: bool)
    ensures
        r == parliament_issue_scalar_reference_key_spec(key@),
{
    str_eq(key, "parliament_action") || str_eq(key, "issue") || str_eq(key, "estate") || str_eq(key, "custom_tooltip")
}

/// The keys for which `is_state_edict_scalar_reference_key` holds.
pub open spec fn state_edict_scalar_reference_key_spec(k: Seq<char>) -> bool {
    k == "tooltip"@ || k == "custom_trigger_tooltip"@ || k == "has_state_edict"@
}

pub fn is_state_edict_scalar_reference_key(key: &str) -> (r: bool)
    ensures
        r == state_edict_scalar_reference_key_spec(key@),
{
    str_eq(key, "tooltip") || str_eq(key, "custom_trigger_tooltip") || str_eq(key, "has_state_edict")
}

/// The scalar references of a mercenary company: its home province (a
/// province id), its description key, and its country tag.
pub open spec fn mercenary_company_reference_spec(k: Seq<char>, v: Seq<char>) -> bool {
    if k == "home_province"@ {
        parse_u32(v) matches Some(id) && id > 0
    } else if k == "mercenary_desc_key"@ {
        true
    } else if k == "tag"@ {
        is_country_tag(v)
    } else {
        false
    }
}

pub fn is_mercenary_company_scalar_reference_key(key: &str, value: &str) -> (r: bool)
    ensures
        r == mercenary_company_reference_spec(key@, value@),
{
    if str_eq(key, "home_province") {
        is_province_id_text(value)
    } else if str_eq(key, "mercenary_desc_key") {
        true
    } else if str_eq(key, "tag") {
        is_country_tag_text(value)
    } else {
        false
    }
}

/// The relations that a diplomacy history file records as blocks.
pub open spec fn is_diplomacy_relation_key(k: Seq<char>) -> bool {
    k == "alliance"@ || k == "vassal"@ || k == "royal_marriage"@ || k == "union"@ || k
        == "dependency"@ || k == "guarantee"@ || k == "march"@
}

pub fn is_diplomacy_relation_block(key: &str, value: &AstValue) -> (r: bool)
    ensures
        r == (is_diplomacy_relation_key(key@) && value@ is Block),
{
    (str_eq(key, "alliance") || str_eq(key, "vassal") || str_eq(key, "royal_marriage") || str_eq(
        key,
        "union",
    ) || str_eq(key, "dependency") || str_eq(key, "guarantee") || str_eq(key, "march")) && match value {
        AstValue::Block { .. } => true,
        AstValue::Scalar { .. } => false,
    }
}

/// A date key `year.month.day`: three numbers of 32 bits, the month 1 to
/// 12 and the day 1 to 31.
pub open spec fn is_date_key(k: Seq<char>) -> bool {
    let parts = split_on(k, '.');
    &&& parts.len() == 3
    &&& parse_u32(parts[0]) is Some
    &&& parse_u32(parts[1]) matches Some(m) && 1 <= m <= 12
    &&& parse_u32(parts[2]) matches Some(d) && 1 <= d <= 31
}

pub fn is_clausewitz_date_key(key: &str) -> (r: bool)
    ensures
        r == is_date_key(key@),
{
    let cs = chars_of(key);
    let parts = split_chars(&cs, '.');
    if parts.len() != 3 {
        return false;
    }
    let year = string_from_chars(parts[0].as_slice());
    let month = string_from_chars(parts[1].as_slice());
    let day = string_from_chars(parts[2].as_slice());
    assert(char_views(parts@)[0] == parts@[0]@);
    assert(char_views(parts@)[1] == parts@[1]@);
    assert(char_views(parts@)[2] == parts@[2]@);
    if parse_u32_text(year.as_str()).is_none() {
        return false;
    }
    let month_ok = match parse_u32_text(month.as_str()) {
        Some(m) => 1 <= m && m <= 12,
        None => false,
    };
    let day_ok = match parse_u32_text(day.as_str()) {
        Some(d) => 1 <= d && d <= 31,
        None => false,
    };
    month_ok && day_ok
}

pub fn is_diplomacy_timeline_block(key: &str, value: &AstValue) -> (r: bool)
    ensures
        r == (value@ is Block && is_date_key(key@)),
{
    match value {
        AstValue::Block { .. } => is_clausewitz_date_key(key),
        AstValue::Scalar { .. } => false,
    }
}

} // verus!
