//! What the content-family extractors read from a file's assignments: the
//! definitions a family declares and the resources (localisation keys,
//! sprites, countries, provinces, ...) its keys name, as pairs of a
//! reference key and a value.

use vstd::prelude::*;
use crate::content_family::ContentFamilyExtractor;
use crate::eu4_builtin::{string_views, BuiltinLookup};
use crate::extractors::{
    bookmark_localisation_reference_key_spec, country_history_country_reference_key_spec,
    country_history_province_reference_key_spec, country_metadata_block_reference_key,
    country_metadata_block_reference_key_spec, country_metadata_scalar_reference_key_spec,
    disaster_block_reference_key, disaster_block_reference_key_spec,
    disaster_scalar_reference_key_spec, estate_agenda_scalar_reference_key_spec,
    estate_block_reference_key, estate_block_reference_key_spec,
    estate_privilege_scalar_reference_key_spec, estate_scalar_reference_key_spec,
    government_mechanic_scalar_reference_key_spec, is_bookmark_localisation_reference_key,
    is_country_history_country_reference_key, is_country_history_province_reference_key,
    is_country_metadata_scalar_reference_key, is_country_tag_selector, is_date_key,
    is_diplomacy_relation_block, is_diplomacy_relation_key, is_diplomacy_timeline_block,
    is_disaster_scalar_reference_key, is_estate_agenda_scalar_reference_key,
    is_estate_privilege_scalar_reference_key, is_estate_scalar_reference_key,
    is_government_mechanic_scalar_reference_key, is_mercenary_company_scalar_reference_key,
    is_parliament_bribe_scalar_reference_key, is_parliament_issue_scalar_reference_key,
    is_peace_treaty_scalar_reference_key, is_province_history_country_reference_key,
    is_rebel_type_reference_key, is_state_edict_scalar_reference_key,
    is_subject_type_reference_key, is_unit_definition_reference_key, is_upper_tag,
    is_war_history_country_reference_key, is_war_history_province_reference_key,
    mercenary_company_reference_spec, parliament_bribe_scalar_reference_key_spec,
    parliament_issue_scalar_reference_key_spec, peace_treaty_scalar_reference_key_spec,
    province_history_country_reference_key_spec, rebel_type_reference_key_spec,
    religion_block_reference_key, religion_block_reference_key_spec,
    state_edict_scalar_reference_key_spec, subject_type_reference_key_spec,
    unit_definition_reference_key_spec, war_history_country_reference_key_spec,
    war_history_province_reference_key_spec,
};
use crate::model::ScopeKind;
use crate::parser::{AstStatement, AstValue};
use crate::scope_rules::{
    is_country_file_reference, is_country_tag, is_country_tag_text, is_province_id_text, parse_u32,
};
use crate::scope_tree::{kind_at, ScopeTree};
use crate::semantic_index::{
    block_scalar_texts, extract_assignment_scalar, extract_block_scalar_items,
    extract_named_block_member_keys, extract_named_block_scalar_items,
    extract_nested_assignment_scalar, extract_yes_assignment_keys, first_assignment_text, is_keyword,
    is_keyword_name, named_member_keys, named_scalar_texts, nested_assignment_text, value_text,
    yes_keys, scalar_text_of,
};
use crate::text::{chars_of, has_prefix, has_suffix, str_eq, str_starts_with, string_from_chars};
use crate::documents::{decimal_chars, decimal_text, extension_of, file_name_of, last_dot, path_extension, path_file_name};

verus! {

/// A province number: a number of 32 bits above zero.
pub open spec fn province_id(t: Seq<char>) -> bool {
    parse_u32(t) matches Some(id) && id > 0
}

/// One reference: the key and the value it names.
pub open spec fn one_ref(k: Seq<char>, v: Seq<char>) -> Seq<(Seq<char>, Seq<char>)> {
    seq![(k, v)]
}

/// The scalar text of `v` under the key `k`, where `ok` holds of it.
pub open spec fn text_ref(k: Seq<char>, v: AstValue, ok: spec_fn(Seq<char>) -> bool) -> Seq<(Seq<char>, Seq<char>)> {
    match value_text(v) {
        Some(t) => if ok(t) {
            one_ref(k, t)
        } else {
            Seq::empty()
        },
        None => Seq::empty(),
    }
}

/// Each of `xs` under the key `k`.
pub open spec fn items_ref(k: Seq<char>, xs: Seq<Seq<char>>) -> Seq<(Seq<char>, Seq<char>)> {
    xs.map_values(|x: Seq<char>| (k, x))
}

/// A block opened directly in the file by a key that is no keyword.
pub open spec fn top_level_named(s: Seq<crate::scope_tree::ScopeNode>, sid: int, lookup: BuiltinLookup, key: Seq<char>, v: AstValue) -> bool {
    kind_at(s, sid) == ScopeKind::File && v is Block && !is_keyword_name(lookup, key)
}

/// A block opened by a key that is no keyword inside a block of the file.
pub open spec fn named_in_top_level(s: Seq<crate::scope_tree::ScopeNode>, sid: int, lookup: BuiltinLookup, key: Seq<char>, v: AstValue) -> bool {
    &&& kind_at(s, sid) == ScopeKind::Block
    &&& 0 <= sid < s.len()
    &&& s[sid].parent matches Some(p) && kind_at(s, p as int) == ScopeKind::File
    &&& v is Block
    &&& !is_keyword_name(lookup, key)
}

/// The scalar keys shared by most definition tables.
pub open spec fn common_table_key(k: Seq<char>) -> bool {
    k == "cost_type"@ || k == "gfx"@ || k == "icon"@ || k == "localization"@ || k == "tooltip"@ || k
        == "custom_tooltip"@
}

/// The key under which a definition table records its definitions, for the
/// families read as definition tables.
pub open spec fn table_definition_key(ex: ContentFamilyExtractor) -> Option<Seq<char>> {
    match ex {
        ContentFamilyExtractor::Fervor => Some("fervor_definition"@),
        ContentFamilyExtractor::Decrees => Some("decree_definition"@),
        ContentFamilyExtractor::GoldenBulls => Some("golden_bull_definition"@),
        ContentFamilyExtractor::FlagshipModifications => Some("flagship_modification_definition"@),
        ContentFamilyExtractor::HolyOrders => Some("holy_order_definition"@),
        ContentFamilyExtractor::DiplomaticActions => Some("diplomatic_action_definition"@),
        ContentFamilyExtractor::ScriptedTriggers => Some("scripted_trigger_definition"@),
        ContentFamilyExtractor::Ages => Some("age_definition"@),
        ContentFamilyExtractor::Buildings => Some("building_definition"@),
        ContentFamilyExtractor::Institutions => Some("institution_definition"@),
        ContentFamilyExtractor::AdvisorTypes => Some("advisor_type_definition"@),
        ContentFamilyExtractor::GovernmentNames => Some("government_name_definition"@),
        ContentFamilyExtractor::EventModifiers => Some("event_modifier_definition"@),
        ContentFamilyExtractor::ProvinceTriggeredModifiers => Some("province_triggered_modifier_definition"@),
        ContentFamilyExtractor::CbTypes => Some("cb_type_definition"@),
        ContentFamilyExtractor::Ideas => Some("idea_group_definition"@),
        ContentFamilyExtractor::GovernmentReforms => Some("government_reform_definition"@),
        ContentFamilyExtractor::NavalDoctrines => Some("naval_doctrine_definition"@),
        ContentFamilyExtractor::DefenderOfFaith => Some("defender_of_faith_definition"@),
        ContentFamilyExtractor::Isolationism => Some("isolationism_definition"@),
        ContentFamilyExtractor::Professionalism => Some("professionalism_definition"@),
        ContentFamilyExtractor::PowerProjection => Some("powerprojection_definition"@),
        ContentFamilyExtractor::SubjectTypeUpgrades => Some("subject_type_upgrade_definition"@),
        ContentFamilyExtractor::GovernmentRanks => Some("government_rank_definition"@),
        ContentFamilyExtractor::FederationAdvancements => Some("federation_advancement_definition"@),
        _ => None,
    }
}

/// The scalar keys that a definition table reads as references.
pub open spec fn table_scalar_key(ex: ContentFamilyExtractor, k: Seq<char>) -> bool {
    match ex {
        ContentFamilyExtractor::Fervor | ContentFamilyExtractor::Decrees | ContentFamilyExtractor::GoldenBulls
        | ContentFamilyExtractor::FlagshipModifications | ContentFamilyExtractor::HolyOrders
        | ContentFamilyExtractor::DefenderOfFaith | ContentFamilyExtractor::Isolationism
        | ContentFamilyExtractor::PowerProjection | ContentFamilyExtractor::SubjectTypeUpgrades => common_table_key(k),
        ContentFamilyExtractor::NavalDoctrines => k == "button_gfx"@ || common_table_key(k),
        ContentFamilyExtractor::Professionalism => common_table_key(k) || k == "marker_sprite"@ || k
            == "unit_sprite_start"@,
        ContentFamilyExtractor::FederationAdvancements => common_table_key(k) || k == "graphical_culture"@
            || k == "government"@ || k == "religion"@ || k == "technology_group"@,
        _ => false,
    }
}

/// The block keys whose scalar items a definition table reads as references.
pub open spec fn table_block_key(ex: ContentFamilyExtractor, k: Seq<char>) -> bool {
    match ex {
        ContentFamilyExtractor::GoldenBulls => k == "mechanics"@,
        ContentFamilyExtractor::FederationAdvancements => k == "names"@,
        _ => false,
    }
}

/// What a definition table reads: the definition a top-level block
/// declares, a listed scalar key's text, and a listed block key's items.
pub open spec fn table_refs(ex: ContentFamilyExtractor, top: bool, key: Seq<char>, v: AstValue) -> Seq<(Seq<char>, Seq<char>)> {
    let def = if top {
        one_ref(table_definition_key(ex)->0, key)
    } else {
        Seq::empty()
    };
    let scalar = if table_scalar_key(ex, key) {
        text_ref(key, v, |t: Seq<char>| true)
    } else {
        Seq::empty()
    };
    let block = if table_block_key(ex, key) {
        items_ref(key, block_scalar_texts(v))
    } else {
        Seq::empty()
    };
    def + scalar + block
}

pub open spec fn pair_views(v: Seq<(String, String)>) -> Seq<(Seq<char>, Seq<char>)> {
    v.map_values(|p: (String, String)| (p.0@, p.1@))
}

fn emit(out: &mut Vec<(String, String)>, k: &str, v: &str)
    ensures
        pair_views(final(out)@) == pair_views(old(out)@) + one_ref(k@, v@),
{
    let ghost before = pair_views(out@);
    out.push((k.to_owned(), v.to_owned()));
    assert(pair_views(out@) =~= before + one_ref(k@, v@));
}

fn emit_items(out: &mut Vec<(String, String)>, k: &str, xs: &Vec<String>)
    ensures
        pair_views(final(out)@) == pair_views(old(out)@) + items_ref(k@, string_views(xs@)),
{
    let ghost start = pair_views(out@);
    let mut i: usize = 0;
    while i < xs.len()
        invariant
            i <= xs.len(),
            pair_views(out@) == start + items_ref(k@, string_views(xs@).take(i as int)),
        decreases xs.len() - i,
    {
        emit(out, k, xs[i].as_str());
        proof {
            let sv = string_views(xs@);
            assert(sv.take(i + 1) =~= sv.take(i as int).push(sv[i as int]));
            assert(items_ref(k@, sv.take(i + 1)) =~= items_ref(k@, sv.take(i as int)) + one_ref(k@, sv[i as int]));
        }
        i = i + 1;
    }
    assert(string_views(xs@).take(xs.len() as int) =~= string_views(xs@));
}

fn emit_text_if(out: &mut Vec<(String, String)>, ok: bool, k: &str, v: &AstValue)
    ensures
        pair_views(final(out)@) == pair_views(old(out)@) + if ok {
            text_ref(k@, *v, |t: Seq<char>| true)
        } else {
            Seq::empty()
        },
{
    if ok {
        match scalar_text_of(v) {
            Some(t) => emit(out, k, t.as_str()),
            None => {
                assert(pair_views(out@) =~= pair_views(out@) + Seq::<(Seq<char>, Seq<char>)>::empty());
            },
        }
    } else {
        assert(pair_views(out@) =~= pair_views(out@) + Seq::<(Seq<char>, Seq<char>)>::empty());
    }
}

fn top_level_named_block(tree: &ScopeTree, lookup: &BuiltinLookup, scope_id: usize, key: &str, v: &AstValue) -> (r: bool)
    ensures
        r == top_level_named(tree@, scope_id as int, *lookup, key@, *v),
{
    tree.scope_kind(scope_id) == ScopeKind::File && match v {
        AstValue::Block { .. } => true,
        AstValue::Scalar { .. } => false,
    } && !is_keyword(lookup, key)
}

fn named_block_in_top_level_block(tree: &ScopeTree, lookup: &BuiltinLookup, scope_id: usize, key: &str, v: &AstValue) -> (r: bool)
    ensures
        r == named_in_top_level(tree@, scope_id as int, *lookup, key@, *v),
{
    tree.scope_kind(scope_id) == ScopeKind::Block && tree.scope_parent_kind(scope_id) == Some(ScopeKind::File)
        && match v {
        AstValue::Block { .. } => true,
        AstValue::Scalar { .. } => false,
    } && !is_keyword(lookup, key)
}

fn common_table_key_text(k: &str) -> (r: bool)
    ensures
        r == common_table_key(k@),
{
    str_eq(k, "cost_type") || str_eq(k, "gfx") || str_eq(k, "icon") || str_eq(k, "localization") || str_eq(
        k,
        "tooltip",
    ) || str_eq(k, "custom_tooltip")
}

fn table_definition_key_of(ex: ContentFamilyExtractor) -> (r: Option<&'static str>)
    ensures
        match table_definition_key(ex) {
            Some(d) => r matches Some(x) && x@ == d,
            None => r is None,
        },
{
    match ex {
        ContentFamilyExtractor::Fervor => Some("fervor_definition"),
        ContentFamilyExtractor::Decrees => Some("decree_definition"),
        ContentFamilyExtractor::GoldenBulls => Some("golden_bull_definition"),
        ContentFamilyExtractor::FlagshipModifications => Some("flagship_modification_definition"),
        ContentFamilyExtractor::HolyOrders => Some("holy_order_definition"),
        ContentFamilyExtractor::DiplomaticActions => Some("diplomatic_action_definition"),
        ContentFamilyExtractor::ScriptedTriggers => Some("scripted_trigger_definition"),
        ContentFamilyExtractor::Ages => Some("age_definition"),
        ContentFamilyExtractor::Buildings => Some("building_definition"),
        ContentFamilyExtractor::Institutions => Some("institution_definition"),
        ContentFamilyExtractor::AdvisorTypes => Some("advisor_type_definition"),
        ContentFamilyExtractor::GovernmentNames => Some("government_name_definition"),
        ContentFamilyExtractor::EventModifiers => Some("event_modifier_definition"),
        ContentFamilyExtractor::ProvinceTriggeredModifiers => Some("province_triggered_modifier_definition"),
        ContentFamilyExtractor::CbTypes => Some("cb_type_definition"),
        ContentFamilyExtractor::Ideas => Some("idea_group_definition"),
        ContentFamilyExtractor::GovernmentReforms => Some("government_reform_definition"),
        ContentFamilyExtractor::NavalDoctrines => Some("naval_doctrine_definition"),
        ContentFamilyExtractor::DefenderOfFaith => Some("defender_of_faith_definition"),
        ContentFamilyExtractor::Isolationism => Some("isolationism_definition"),
        ContentFamilyExtractor::Professionalism => Some("professionalism_definition"),
        ContentFamilyExtractor::PowerProjection => Some("powerprojection_definition"),
        ContentFamilyExtractor::SubjectTypeUpgrades => Some("subject_type_upgrade_definition"),
        ContentFamilyExtractor::GovernmentRanks => Some("government_rank_definition"),
        ContentFamilyExtractor::FederationAdvancements => Some("federation_advancement_definition"),
        _ => None,
    }
}

fn table_scalar_key_text(ex: ContentFamilyExtractor, k: &str) -> (r: bool)
    ensures
        r == table_scalar_key(ex, k@),
{
    match ex {
        ContentFamilyExtractor::Fervor | ContentFamilyExtractor::Decrees | ContentFamilyExtractor::GoldenBulls
        | ContentFamilyExtractor::FlagshipModifications | ContentFamilyExtractor::HolyOrders
        | ContentFamilyExtractor::DefenderOfFaith | ContentFamilyExtractor::Isolationism
        | ContentFamilyExtractor::PowerProjection | ContentFamilyExtractor::SubjectTypeUpgrades => common_table_key_text(k),
        ContentFamilyExtractor::NavalDoctrines => str_eq(k, "button_gfx") || common_table_key_text(k),
        ContentFamilyExtractor::Professionalism => common_table_key_text(k) || str_eq(k, "marker_sprite") || str_eq(
            k,
            "unit_sprite_start",
        ),
        ContentFamilyExtractor::FederationAdvancements => common_table_key_text(k) || str_eq(k, "graphical_culture")
            || str_eq(k, "government") || str_eq(k, "religion") || str_eq(k, "technology_group"),
        _ => false,
    }
}

fn table_block_key_text(ex: ContentFamilyExtractor, k: &str) -> (r: bool)
    ensures
        r == table_block_key(ex, k@),
{
    match ex {
        ContentFamilyExtractor::GoldenBulls => str_eq(k, "mechanics"),
        ContentFamilyExtractor::FederationAdvancements => str_eq(k, "names"),
        _ => false,
    }
}

/// Appends what the definition table of `ex` reads from `key = v`.
fn extract_table(
    out: &mut Vec<(String, String)>,
    ex: ContentFamilyExtractor,
    top: bool,
    key: &str,
    v: &AstValue,
)
    requires
        table_definition_key(ex) is Some,
    ensures
        pair_views(final(out)@) == pair_views(old(out)@) + table_refs(ex, top, key@, *v),
{
    let ghost start = pair_views(out@);
    if top {
        match table_definition_key_of(ex) {
            Some(d) => emit(out, d, key),
            None => {},
        }
    } else {
        assert(pair_views(out@) =~= start + Seq::<(Seq<char>, Seq<char>)>::empty());
    }
    let ghost mid = pair_views(out@);
    emit_text_if(out, table_scalar_key_text(ex, key), key, v);
    let ghost mid2 = pair_views(out@);
    if table_block_key_text(ex, key) {
        let items = extract_block_scalar_items(v);
        emit_items(out, key, &items);
    }
    assert(pair_views(out@) =~= start + table_refs(ex, top, key@, *v));
}


/// The scalar keys that a scalar-reference family reads.
pub open spec fn scalar_check(ex: ContentFamilyExtractor, k: Seq<char>) -> bool {
    match ex {
        ContentFamilyExtractor::Units => unit_definition_reference_key_spec(k),
        ContentFamilyExtractor::SubjectTypes => subject_type_reference_key_spec(k),
        ContentFamilyExtractor::RebelTypes => rebel_type_reference_key_spec(k),
        ContentFamilyExtractor::EstateAgendas => estate_agenda_scalar_reference_key_spec(k),
        ContentFamilyExtractor::ParliamentBribes => parliament_bribe_scalar_reference_key_spec(k),
        ContentFamilyExtractor::ParliamentIssues => parliament_issue_scalar_reference_key_spec(k),
        ContentFamilyExtractor::StateEdicts => state_edict_scalar_reference_key_spec(k),
        ContentFamilyExtractor::Disasters => disaster_scalar_reference_key_spec(k),
        ContentFamilyExtractor::Estates => estate_scalar_reference_key_spec(k),
        ContentFamilyExtractor::GovernmentMechanics => government_mechanic_scalar_reference_key_spec(k),
        ContentFamilyExtractor::EstatePrivileges => estate_privilege_scalar_reference_key_spec(k),
        ContentFamilyExtractor::PeaceTreaties => peace_treaty_scalar_reference_key_spec(k),
        _ => false,
    }
}

/// The block keys whose items a scalar-and-block family reads, with the
/// key it records them under.
pub open spec fn block_check(ex: ContentFamilyExtractor, k: Seq<char>) -> Option<&'static str> {
    match ex {
        ContentFamilyExtractor::Disasters => disaster_block_reference_key_spec(k),
        ContentFamilyExtractor::Estates => estate_block_reference_key_spec(k),
        _ => None,
    }
}

/// What a scalar-reference (and block-reference) family reads.
pub open spec fn scalar_block_refs(ex: ContentFamilyExtractor, key: Seq<char>, v: AstValue) -> Seq<(Seq<char>, Seq<char>)> {
    (if scalar_check(ex, key) {
        text_ref(key, v, |t: Seq<char>| true)
    } else {
        Seq::empty()
    }) + match block_check(ex, key) {
        Some(rk) => items_ref(rk@, block_scalar_texts(v)),
        None => Seq::empty(),
    }
}

fn scalar_check_text(ex: ContentFamilyExtractor, k: &str) -> (r: bool)
    ensures
        r == scalar_check(ex, k@),
{
    match ex {
        ContentFamilyExtractor::Units => is_unit_definition_reference_key(k),
        ContentFamilyExtractor::SubjectTypes => is_subject_type_reference_key(k),
        ContentFamilyExtractor::RebelTypes => is_rebel_type_reference_key(k),
        ContentFamilyExtractor::EstateAgendas => is_estate_agenda_scalar_reference_key(k),
        ContentFamilyExtractor::ParliamentBribes => is_parliament_bribe_scalar_reference_key(k),
        ContentFamilyExtractor::ParliamentIssues => is_parliament_issue_scalar_reference_key(k),
        ContentFamilyExtractor::StateEdicts => is_state_edict_scalar_reference_key(k),
        ContentFamilyExtractor::Disasters => is_disaster_scalar_reference_key(k),
        ContentFamilyExtractor::Estates => is_estate_scalar_reference_key(k),
        ContentFamilyExtractor::GovernmentMechanics => is_government_mechanic_scalar_reference_key(k),
        ContentFamilyExtractor::EstatePrivileges => is_estate_privilege_scalar_reference_key(k),
        ContentFamilyExtractor::PeaceTreaties => is_peace_treaty_scalar_reference_key(k),
        _ => false,
    }
}

fn block_check_text(ex: ContentFamilyExtractor, k: &str) -> (r: Option<&'static str>)
    ensures
        r == block_check(ex, k@),
{
    match ex {
        ContentFamilyExtractor::Disasters => disaster_block_reference_key(k),
        ContentFamilyExtractor::Estates => estate_block_reference_key(k),
        _ => None,
    }
}

fn extract_scalar_block(out: &mut Vec<(String, String)>, ex: ContentFamilyExtractor, key: &str, v: &AstValue)
    ensures
        pair_views(final(out)@) == pair_views(old(out)@) + scalar_block_refs(ex, key@, *v),
{
    let ghost start = pair_views(out@);
    emit_text_if(out, scalar_check_text(ex, key), key, v);
    match block_check_text(ex, key) {
        Some(rk) => {
            let items = extract_block_scalar_items(v);
            emit_items(out, rk, &items);
        },
        None => {},
    }
    assert(pair_views(out@) =~= start + scalar_block_refs(ex, key@, *v));
}

/// The localisation keys that a top-level named block of the family
/// declares.
pub open spec fn block_localisation(ex: ContentFamilyExtractor, key: Seq<char>) -> Seq<(Seq<char>, Seq<char>)> {
    match ex {
        ContentFamilyExtractor::ChurchAspects => seq![
            ("localisation"@, key),
            ("localisation_desc"@, "desc_"@ + key),
            ("localisation_modifier"@, key + "_modifier"@),
        ],
        ContentFamilyExtractor::Hegemons | ContentFamilyExtractor::Policies => seq![("localisation"@, key)],
        ContentFamilyExtractor::PersonalDeities | ContentFamilyExtractor::FetishistCults => seq![
            ("localisation"@, key),
            ("localisation_desc"@, key + "_desc"@),
        ],
        ContentFamilyExtractor::Factions => seq![
            ("localisation"@, key),
            ("localisation_influence"@, key + "_influence"@),
        ],
        _ => Seq::empty(),
    }
}

/// What a family of named blocks reads: the localisation keys of a
/// top-level block, else the text of its extra scalar key.
pub open spec fn named_block_refs(ex: ContentFamilyExtractor, top: bool, key: Seq<char>, v: AstValue) -> Seq<(Seq<char>, Seq<char>)> {
    if top {
        block_localisation(ex, key)
    } else if (ex == ContentFamilyExtractor::Factions || ex == ContentFamilyExtractor::Policies) && key
        == "monarch_power"@ {
        text_ref(key, v, |t: Seq<char>| true)
    } else {
        Seq::empty()
    }
}

fn concat_text(a: &str, b: &str) -> (r: String)
    ensures
        r@ == a@ + b@,
{
    let mut cs = chars_of(a);
    cs.append(&mut chars_of(b));
    string_from_chars(cs.as_slice())
}

fn extract_named_blocks(out: &mut Vec<(String, String)>, ex: ContentFamilyExtractor, top: bool, key: &str, v: &AstValue)
    ensures
        pair_views(final(out)@) == pair_views(old(out)@) + named_block_refs(ex, top, key@, *v),
{
    let ghost start = pair_views(out@);
    if top {
        match ex {
            ContentFamilyExtractor::ChurchAspects => {
                emit(out, "localisation", key);
                emit(out, "localisation_desc", concat_text("desc_", key).as_str());
                emit(out, "localisation_modifier", concat_text(key, "_modifier").as_str());
            },
            ContentFamilyExtractor::Hegemons | ContentFamilyExtractor::Policies => {
                emit(out, "localisation", key);
            },
            ContentFamilyExtractor::PersonalDeities | ContentFamilyExtractor::FetishistCults => {
                emit(out, "localisation", key);
                emit(out, "localisation_desc", concat_text(key, "_desc").as_str());
            },
            ContentFamilyExtractor::Factions => {
                emit(out, "localisation", key);
                emit(out, "localisation_influence", concat_text(key, "_influence").as_str());
            },
            _ => {},
        }
    } else {
        let extra = (ex == ContentFamilyExtractor::Factions || ex == ContentFamilyExtractor::Policies) && str_eq(
            key,
            "monarch_power",
        );
        emit_text_if(out, extra, key, v);
    }
    assert(pair_views(out@) =~= start + named_block_refs(ex, top, key@, *v));
}

/// The country file that a tag selector of the file names.
pub open spec fn country_tag_refs(file_scope: bool, key: Seq<char>, v: AstValue) -> Seq<(Seq<char>, Seq<char>)> {
    match value_text(v) {
        Some(t) => if file_scope && is_upper_tag(key) && has_prefix(t, "countries/"@) && crate::text::has_suffix(
            t,
            ".txt"@,
        ) {
            one_ref("country_tag:"@ + key, t)
        } else {
            Seq::empty()
        },
        None => Seq::empty(),
    }
}

/// What the country history, province history, war history, religion and
/// bookmark families read from scalar texts: the provinces and countries
/// that their keys name.
pub open spec fn typed_text_ok(ex: ContentFamilyExtractor, key: Seq<char>, t: Seq<char>) -> bool {
    match ex {
        ContentFamilyExtractor::CountryHistory => (country_history_province_reference_key_spec(key) && province_id(t))
            || (country_history_country_reference_key_spec(key) && is_country_tag(t)),
        ContentFamilyExtractor::ProvinceHistory => province_history_country_reference_key_spec(key)
            && is_country_tag(t),
        ContentFamilyExtractor::Wars => (war_history_country_reference_key_spec(key) && is_country_tag(t))
            || (war_history_province_reference_key_spec(key) && province_id(t)),
        ContentFamilyExtractor::Religions => (key == "center_of_religion"@ && province_id(t)) || (key
            == "papal_tag"@ && is_country_tag(t)),
        ContentFamilyExtractor::Bookmarks => bookmark_localisation_reference_key_spec(key) || (key == "country"@
            && is_country_tag(t)) || (key == "center"@ && province_id(t)),
        ContentFamilyExtractor::FederationAdvancements => key == "tag"@ && is_country_tag(t),
        ContentFamilyExtractor::MercenaryCompanies => mercenary_company_reference_spec(key, t),
        _ => false,
    }
}

fn typed_text_ok_exec(ex: ContentFamilyExtractor, key: &str, t: &str) -> (r: bool)
    ensures
        r == typed_text_ok(ex, key@, t@),
{
    match ex {
        ContentFamilyExtractor::CountryHistory => (is_country_history_province_reference_key(key) && is_province_id_text(t))
            || (is_country_history_country_reference_key(key) && is_country_tag_text(t)),
        ContentFamilyExtractor::ProvinceHistory => is_province_history_country_reference_key(key) && is_country_tag_text(t),
        ContentFamilyExtractor::Wars => (is_war_history_country_reference_key(key) && is_country_tag_text(t)) || (
        is_war_history_province_reference_key(key) && is_province_id_text(t)),
        ContentFamilyExtractor::Religions => (str_eq(key, "center_of_religion") && is_province_id_text(t)) || (str_eq(
            key,
            "papal_tag",
        ) && is_country_tag_text(t)),
        ContentFamilyExtractor::Bookmarks => is_bookmark_localisation_reference_key(key) || (str_eq(key, "country")
            && is_country_tag_text(t)) || (str_eq(key, "center") && is_province_id_text(t)),
        ContentFamilyExtractor::FederationAdvancements => str_eq(key, "tag") && is_country_tag_text(t),
        ContentFamilyExtractor::MercenaryCompanies => is_mercenary_company_scalar_reference_key(key, t),
        _ => false,
    }
}

/// The scalar text of `v` under `key` where it names what the family reads.
pub open spec fn typed_text_refs(ex: ContentFamilyExtractor, key: Seq<char>, v: AstValue) -> Seq<(Seq<char>, Seq<char>)> {
    text_ref(key, v, |t: Seq<char>| typed_text_ok(ex, key, t))
}

fn extract_typed_text(out: &mut Vec<(String, String)>, ex: ContentFamilyExtractor, key: &str, v: &AstValue)
    ensures
        pair_views(final(out)@) == pair_views(old(out)@) + typed_text_refs(ex, key@, *v),
{
    let ghost start = pair_views(out@);
    match scalar_text_of(v) {
        Some(t) => {
            if typed_text_ok_exec(ex, key, t.as_str()) {
                emit(out, key, t.as_str());
            }
        },
        None => {},
    }
    assert(pair_views(out@) =~= start + typed_text_refs(ex, key@, *v));
}

/// What the countries family reads from the file's own assignments.
pub open spec fn countries_refs(file_scope: bool, key: Seq<char>, v: AstValue) -> Seq<(Seq<char>, Seq<char>)> {
    if !file_scope {
        Seq::empty()
    } else {
        (if country_metadata_scalar_reference_key_spec(key) {
            text_ref(key, v, |t: Seq<char>| true)
        } else {
            Seq::empty()
        }) + match country_metadata_block_reference_key_spec(key) {
            Some(rk) => items_ref(rk@, block_scalar_texts(v)),
            None => Seq::empty(),
        }
    }
}

/// The items of the block `v` that a key reads, under `rk`; none for a scalar.
fn emit_block_items(out: &mut Vec<(String, String)>, rk: &str, v: &AstValue)
    ensures
        pair_views(final(out)@) == pair_views(old(out)@) + items_ref(rk@, block_scalar_texts(*v)),
{
    let items = extract_block_scalar_items(v);
    emit_items(out, rk, &items);
}

/// The `id` items of the `key` block's named blocks.
pub open spec fn named_ids(v: AstValue, name: Seq<char>) -> Seq<Seq<char>> {
    match v {
        AstValue::Block { items, .. } => named_scalar_texts(items@, name),
        AstValue::Scalar { .. } => Seq::empty(),
    }
}

/// What the religion, government mechanic, estate privilege and mercenary
/// company families read beyond scalar texts: the items of some blocks.
pub open spec fn block_items_refs(ex: ContentFamilyExtractor, key: Seq<char>, v: AstValue) -> Seq<(Seq<char>, Seq<char>)> {
    match ex {
        ContentFamilyExtractor::Religions => match religion_block_reference_key_spec(key) {
            Some(rk) => items_ref(rk@, block_scalar_texts(v)),
            None => Seq::empty(),
        },
        ContentFamilyExtractor::GovernmentMechanics => if key == "country_event"@ {
            items_ref(key, named_ids(v, "id"@))
        } else {
            Seq::empty()
        },
        ContentFamilyExtractor::EstatePrivileges => if key == "mechanics"@ {
            items_ref(key, block_scalar_texts(v))
        } else {
            Seq::empty()
        },
        ContentFamilyExtractor::MercenaryCompanies => if key == "sprites"@ {
            items_ref(key, block_scalar_texts(v))
        } else {
            Seq::empty()
        },
        _ => Seq::empty(),
    }
}

fn extract_block_items(out: &mut Vec<(String, String)>, ex: ContentFamilyExtractor, key: &str, v: &AstValue)
    ensures
        pair_views(final(out)@) == pair_views(old(out)@) + block_items_refs(ex, key@, *v),
{
    let ghost start = pair_views(out@);
    match ex {
        ContentFamilyExtractor::Religions => match religion_block_reference_key(key) {
            Some(rk) => emit_block_items(out, rk, v),
            None => {},
        },
        ContentFamilyExtractor::GovernmentMechanics => {
            if str_eq(key, "country_event") {
                let ids = extract_named_block_scalar_items(v, "id");
                emit_items(out, key, &ids);
            }
        },
        ContentFamilyExtractor::EstatePrivileges => {
            if str_eq(key, "mechanics") {
                emit_block_items(out, key, v);
            }
        },
        ContentFamilyExtractor::MercenaryCompanies => {
            if str_eq(key, "sprites") {
                emit_block_items(out, key, v);
            }
        },
        _ => {},
    }
    assert(pair_views(out@) =~= start + block_items_refs(ex, key@, *v));
}


/// The localisation keys that a peace treaty declares.
pub open spec fn peace_localisation(key: Seq<char>) -> Seq<(Seq<char>, Seq<char>)> {
    seq![
        ("localisation_desc"@, key + "_desc"@),
        ("localisation_cb_allowed"@, "CB_ALLOWED_"@ + key),
        ("localisation_peace"@, "PEACE_"@ + key),
    ]
}

fn emit_peace_localisation(out: &mut Vec<(String, String)>, key: &str)
    ensures
        pair_views(final(out)@) == pair_views(old(out)@) + peace_localisation(key@),
{
    let ghost start = pair_views(out@);
    emit(out, "localisation_desc", concat_text(key, "_desc").as_str());
    emit(out, "localisation_cb_allowed", concat_text("CB_ALLOWED_", key).as_str());
    emit(out, "localisation_peace", concat_text("PEACE_", key).as_str());
    assert(pair_views(out@) =~= start + peace_localisation(key@));
}

/// The custom GUI element that a `custom_*` block of the file names.
pub open spec fn custom_gui_refs(file_scope: bool, key: Seq<char>, v: AstValue) -> Seq<(Seq<char>, Seq<char>)> {
    if file_scope && has_prefix(key, "custom_"@) {
        match v {
            AstValue::Block { items, .. } => match first_assignment_text(items@, "name"@) {
                Some(n) => if n.len() > 0 {
                    one_ref("custom_gui_definition"@, n)
                } else {
                    Seq::empty()
                },
                None => Seq::empty(),
            },
            AstValue::Scalar { .. } => Seq::empty(),
        }
    } else {
        Seq::empty()
    }
}

fn extract_custom_gui(out: &mut Vec<(String, String)>, file_scope: bool, key: &str, v: &AstValue)
    ensures
        pair_views(final(out)@) == pair_views(old(out)@) + custom_gui_refs(file_scope, key@, *v),
{
    let ghost start = pair_views(out@);
    if file_scope && str_starts_with(key, "custom_") {
        if let AstValue::Block { items, .. } = v {
            match extract_assignment_scalar(items, "name") {
                Some(name) => {
                    if chars_of(name.as_str()).len() > 0 {
                        emit(out, "custom_gui_definition", name.as_str());
                    }
                },
                None => {},
            }
        }
    }
    assert(pair_views(out@) =~= start + custom_gui_refs(file_scope, key@, *v));
}

/// Each of `fields` that `items` assigns a scalar to, with its text, where
/// `ok` holds of the text.
pub open spec fn field_refs(items: Seq<AstStatement>, fields: Seq<Seq<char>>, ok: spec_fn(Seq<char>) -> bool) -> Seq<
    (Seq<char>, Seq<char>),
>
    decreases fields.len(),
{
    if fields.len() == 0 {
        Seq::empty()
    } else {
        field_refs(items, fields.drop_last(), ok) + match first_assignment_text(items, fields.last()) {
            Some(t) => if ok(t) {
                one_ref(fields.last(), t)
            } else {
                Seq::empty()
            },
            None => Seq::empty(),
        }
    }
}

/// One more field adds what that field gives after what the others gave.
proof fn lemma_field_refs_push(items: Seq<AstStatement>, fs: Seq<Seq<char>>, f: Seq<char>, ok: spec_fn(Seq<char>) -> bool)
    ensures
        field_refs(items, fs.push(f), ok) == field_refs(items, fs, ok) + match first_assignment_text(items, f) {
            Some(t) => if ok(t) {
                one_ref(f, t)
            } else {
                Seq::empty()
            },
            None => Seq::empty(),
        },
{
    assert(fs.push(f).drop_last() =~= fs);
}

fn emit_field(out: &mut Vec<(String, String)>, items: &Vec<AstStatement>, field: &str, need_tag: bool)
    ensures
        pair_views(final(out)@) == pair_views(old(out)@) + match first_assignment_text(items@, field@) {
            Some(t) => if !need_tag || is_country_tag(t) {
                one_ref(field@, t)
            } else {
                Seq::empty()
            },
            None => Seq::empty(),
        },
{
    let ghost start = pair_views(out@);
    match extract_assignment_scalar(items, field) {
        Some(t) => {
            if !need_tag || is_country_tag_text(t.as_str()) {
                emit(out, field, t.as_str());
            }
        },
        None => {},
    }
    assert(pair_views(out@) =~= start + match first_assignment_text(items@, field@) {
        Some(t) => if !need_tag || is_country_tag(t) {
            one_ref(field@, t)
        } else {
            Seq::empty()
        },
        None => Seq::empty(),
    });
}

/// What a technology group (a named block inside the file's block) records:
/// the group, its start level, cost modifier and designer unit type, and
/// its designer cost.
pub open spec fn technology_group_refs(named: bool, key: Seq<char>, v: AstValue) -> Seq<(Seq<char>, Seq<char>)> {
    if !named {
        Seq::empty()
    } else {
        one_ref("technology_group"@, key) + match v {
            AstValue::Block { items, .. } => field_refs(
                items@,
                seq!["start_level"@, "start_cost_modifier"@, "nation_designer_unit_type"@],
                |t: Seq<char>| true,
            ) + match nested_assignment_text(items@, "nation_designer_cost"@, "value"@) {
                Some(c) => one_ref("nation_designer_cost_value"@, c),
                None => Seq::empty(),
            },
            AstValue::Scalar { .. } => Seq::empty(),
        }
    }
}

fn extract_technology_group(out: &mut Vec<(String, String)>, named: bool, key: &str, v: &AstValue)
    ensures
        pair_views(final(out)@) == pair_views(old(out)@) + technology_group_refs(named, key@, *v),
{
    let ghost start = pair_views(out@);
    if named {
        emit(out, "technology_group", key);
        if let AstValue::Block { items, .. } = v {
            let ghost mid = pair_views(out@);
            emit_field(out, items, "start_level", false);
            emit_field(out, items, "start_cost_modifier", false);
            emit_field(out, items, "nation_designer_unit_type", false);
            proof {
                let fs = seq!["start_level"@, "start_cost_modifier"@, "nation_designer_unit_type"@];
                let ok = |t: Seq<char>| true;
                assert(fs.drop_last().drop_last().drop_last() =~= Seq::<Seq<char>>::empty());
                assert(fs.drop_last().drop_last() =~= seq!["start_level"@]);
                assert(fs.drop_last() =~= seq!["start_level"@, "start_cost_modifier"@]);
                reveal_with_fuel(field_refs, 4);
                assert(pair_views(out@) =~= mid + field_refs(items@, fs, ok));
            }
            match extract_nested_assignment_scalar(items, "nation_designer_cost", "value") {
                Some(c) => emit(out, "nation_designer_cost_value", c.as_str()),
                None => {},
            }
        }
    }
    assert(pair_views(out@) =~= start + technology_group_refs(named, key@, *v));
}


/// What a diplomacy history file records: a relation block with its two
/// countries, or a dated block with the emperors it names.
pub open spec fn diplomacy_refs(file_scope: bool, key: Seq<char>, v: AstValue) -> Seq<(Seq<char>, Seq<char>)> {
    if !file_scope {
        Seq::empty()
    } else {
        match v {
            AstValue::Block { items, .. } => if is_diplomacy_relation_key(key) {
                one_ref("relation_type"@, key) + field_refs(items@, seq!["first"@, "second"@], |t: Seq<char>| is_country_tag(t))
            } else if is_date_key(key) {
                field_refs(items@, seq!["emperor"@, "celestial_emperor"@], |t: Seq<char>| is_country_tag(t))
            } else {
                Seq::empty()
            },
            AstValue::Scalar { .. } => Seq::empty(),
        }
    }
}

fn extract_diplomacy(out: &mut Vec<(String, String)>, file_scope: bool, key: &str, v: &AstValue)
    ensures
        pair_views(final(out)@) == pair_views(old(out)@) + diplomacy_refs(file_scope, key@, *v),
{
    let ghost start = pair_views(out@);
    if file_scope {
        if let AstValue::Block { items, .. } = v {
            if is_diplomacy_relation_block(key, v) {
                emit(out, "relation_type", key);
                let ghost mid = pair_views(out@);
                emit_field(out, items, "first", true);
                emit_field(out, items, "second", true);
                proof {
                    let fs = seq!["first"@, "second"@];
                    assert(fs.drop_last().drop_last() =~= Seq::<Seq<char>>::empty());
                    assert(fs.drop_last() =~= seq!["first"@]);
                    reveal_with_fuel(field_refs, 3);
                    assert(pair_views(out@) =~= mid + field_refs(items@, fs, |t: Seq<char>| is_country_tag(t)));
                }
            } else if is_diplomacy_timeline_block(key, v) {
                let ghost mid = pair_views(out@);
                emit_field(out, items, "emperor", true);
                emit_field(out, items, "celestial_emperor", true);
                proof {
                    let fs = seq!["emperor"@, "celestial_emperor"@];
                    assert(fs.drop_last().drop_last() =~= Seq::<Seq<char>>::empty());
                    assert(fs.drop_last() =~= seq!["emperor"@]);
                    reveal_with_fuel(field_refs, 3);
                    assert(pair_views(out@) =~= mid + field_refs(items@, fs, |t: Seq<char>| is_country_tag(t)));
                }
            }
        }
    }
    assert(pair_views(out@) =~= start + diplomacy_refs(file_scope, key@, *v));
}

/// What an advisor of an advisor history file records: the advisor, its
/// number, its province, type, culture and religion.
pub open spec fn advisor_refs(file_scope: bool, key: Seq<char>, v: AstValue) -> Seq<(Seq<char>, Seq<char>)> {
    if !file_scope || key != "advisor"@ {
        Seq::empty()
    } else {
        match v {
            AstValue::Block { items, .. } => match first_assignment_text(items@, "advisor_id"@) {
                Some(id) => one_ref("advisor_definition"@, "advisor_"@ + id) + one_ref("advisor_id"@, id)
                    + field_refs(items@, seq!["location"@], |t: Seq<char>| province_id(t)) + field_refs(
                    items@,
                    seq!["type"@, "culture"@, "religion"@],
                    |t: Seq<char>| true,
                ),
                None => Seq::empty(),
            },
            AstValue::Scalar { .. } => Seq::empty(),
        }
    }
}

fn extract_advisor(out: &mut Vec<(String, String)>, file_scope: bool, key: &str, v: &AstValue)
    ensures
        pair_views(final(out)@) == pair_views(old(out)@) + advisor_refs(file_scope, key@, *v),
{
    let ghost start = pair_views(out@);
    if file_scope && str_eq(key, "advisor") {
        if let AstValue::Block { items, .. } = v {
            match extract_assignment_scalar(items, "advisor_id") {
                Some(id) => {
                    emit(out, "advisor_definition", concat_text("advisor_", id.as_str()).as_str());
                    emit(out, "advisor_id", id.as_str());
                    let ghost mid = pair_views(out@);
                    match extract_assignment_scalar(items, "location") {
                        Some(loc) => {
                            if is_province_id_text(loc.as_str()) {
                                emit(out, "location", loc.as_str());
                            }
                        },
                        None => {},
                    }
                    proof {
                        let fs = seq!["location"@];
                        assert(fs.drop_last() =~= Seq::<Seq<char>>::empty());
                        reveal_with_fuel(field_refs, 2);
                    }
                    let ghost mid2 = pair_views(out@);
                    emit_field(out, items, "type", false);
                    emit_field(out, items, "culture", false);
                    emit_field(out, items, "religion", false);
                    proof {
                        let fs = seq!["type"@, "culture"@, "religion"@];
                        assert(fs.drop_last().drop_last().drop_last() =~= Seq::<Seq<char>>::empty());
                        assert(fs.drop_last().drop_last() =~= seq!["type"@]);
                        assert(fs.drop_last() =~= seq!["type"@, "culture"@]);
                        reveal_with_fuel(field_refs, 4);
                        assert(pair_views(out@) =~= mid2 + field_refs(items@, fs, |t: Seq<char>| true));
                    }
                },
                None => {},
            }
        }
    }
    assert(pair_views(out@) =~= start + advisor_refs(file_scope, key@, *v));
}

/// The file name of a path without its last extension.
pub open spec fn file_stem_of(p: Seq<char>) -> Option<Seq<char>> {
    match file_name_of(p) {
        Some(n) => if last_dot(n) > 0 {
            Some(n.subrange(0, last_dot(n)))
        } else {
            Some(n)
        },
        None => None,
    }
}

pub fn file_stem(path: &str) -> (r: Option<String>)
    ensures
        match file_stem_of(path@) {
            Some(s) => r matches Some(x) && x@ == s,
            None => r is None,
        },
{
    let name = match path_file_name(path) {
        Some(n) => n,
        None => {
            return None;
        },
    };
    match path_extension(path) {
        Some(ext) => {
            proof {
                let n = name@;
                let ld = last_dot(n);
                crate::documents::lemma_last_dot(n);
                assert(ld > 0);
                assert(ext@ == n.subrange(ld + 1, n.len() as int));
                assert(ext@.len() == n.len() - ld - 1);
            }
            let cut = name.len() - ext.len() - 1;
            let mut stem: Vec<char> = Vec::new();
            let mut i: usize = 0;
            while i < cut
                invariant
                    i <= cut,
                    cut <= name.len(),
                    stem@ == name@.subrange(0, i as int),
                decreases cut - i,
            {
                stem.push(name[i]);
                i = i + 1;
                assert(stem@ =~= name@.subrange(0, i as int));
            }
            Some(string_from_chars(stem.as_slice()))
        },
        None => Some(string_from_chars(name.as_slice())),
    }
}

/// The names a province name table gives: the table, the province and its
/// name.
pub open spec fn province_name_refs(file_scope: bool, path: Seq<char>, key: Seq<char>, v: AstValue) -> Seq<(Seq<char>, Seq<char>)> {
    if !file_scope || !province_id(key) {
        Seq::empty()
    } else {
        match value_text(v) {
            Some(name) => match file_stem_of(path) {
                Some(table) => one_ref("province_name_table"@, table) + one_ref("province_id"@, key) + one_ref(
                    "province_name_literal"@,
                    name,
                ),
                None => Seq::empty(),
            },
            None => Seq::empty(),
        }
    }
}

fn extract_province_names(out: &mut Vec<(String, String)>, file_scope: bool, path: &str, key: &str, v: &AstValue)
    ensures
        pair_views(final(out)@) == pair_views(old(out)@) + province_name_refs(file_scope, path@, key@, *v),
{
    let ghost start = pair_views(out@);
    if file_scope && is_province_id_text(key) {
        match scalar_text_of(v) {
            Some(name) => match file_stem(path) {
                Some(table) => {
                    emit(out, "province_name_table", table.as_str());
                    emit(out, "province_id", key);
                    emit(out, "province_name_literal", name.as_str());
                },
                None => {},
            },
            None => {},
        }
    }
    assert(pair_views(out@) =~= start + province_name_refs(file_scope, path@, key@, *v));
}

/// What a random map scenario of the file records: the scenario, its
/// culture group, religion, technology group, government and graphical
/// culture, and its name keys.
pub open spec fn scenario_refs(file_scope: bool, key: Seq<char>, v: AstValue) -> Seq<(Seq<char>, Seq<char>)> {
    if !file_scope {
        Seq::empty()
    } else {
        match v {
            AstValue::Block { items, .. } => one_ref("random_map_scenario"@, key) + field_refs(
                items@,
                scenario_fields(),
                |t: Seq<char>| true,
            ) + items_ref("scenario_name_key"@, named_scalar_texts(items@, "names"@)),
            AstValue::Scalar { .. } => Seq::empty(),
        }
    }
}

/// The fields a random map scenario names, in the order they are read.
pub open spec fn scenario_fields() -> Seq<Seq<char>> {
    seq!["culture_group"@, "religion"@, "technology_group"@, "government"@, "graphical_culture"@]
}

fn emit_scenario_fields(out: &mut Vec<(String, String)>, items: &Vec<AstStatement>)
    ensures
        pair_views(final(out)@) == pair_views(old(out)@) + field_refs(items@, scenario_fields(), |t: Seq<char>| true),
{
    let ghost mid = pair_views(out@);
    let ghost ok = |t: Seq<char>| true;
    proof {
        assert(field_refs(items@, Seq::<Seq<char>>::empty(), ok) =~= Seq::empty());
    }
    emit_field(out, items, "culture_group", false);
    proof { lemma_field_refs_push(items@, Seq::empty(), "culture_group"@, ok); }
    emit_field(out, items, "religion", false);
    proof {
        assert(Seq::<Seq<char>>::empty().push("culture_group"@) =~= seq!["culture_group"@]);
        lemma_field_refs_push(items@, seq!["culture_group"@], "religion"@, ok);
    }
    emit_field(out, items, "technology_group", false);
    proof {
        assert(seq!["culture_group"@].push("religion"@) =~= seq!["culture_group"@, "religion"@]);
        lemma_field_refs_push(items@, seq!["culture_group"@, "religion"@], "technology_group"@, ok);
    }
    emit_field(out, items, "government", false);
    proof {
        assert(seq!["culture_group"@, "religion"@].push("technology_group"@) =~= seq!["culture_group"@, "religion"@, "technology_group"@]);
        lemma_field_refs_push(items@, seq!["culture_group"@, "religion"@, "technology_group"@], "government"@, ok);
    }
    emit_field(out, items, "graphical_culture", false);
    proof {
        assert(seq!["culture_group"@, "religion"@, "technology_group"@].push("government"@) =~= seq!["culture_group"@, "religion"@, "technology_group"@, "government"@]);
        lemma_field_refs_push(items@, seq!["culture_group"@, "religion"@, "technology_group"@, "government"@], "graphical_culture"@, ok);
        assert(seq!["culture_group"@, "religion"@, "technology_group"@, "government"@].push("graphical_culture"@) =~= scenario_fields());
        assert(pair_views(out@) =~= mid + field_refs(items@, scenario_fields(), ok));
    }
}

fn extract_scenario(out: &mut Vec<(String, String)>, file_scope: bool, key: &str, v: &AstValue)
    ensures
        pair_views(final(out)@) == pair_views(old(out)@) + scenario_refs(file_scope, key@, *v),
{
    let ghost start = pair_views(out@);
    if file_scope {
        if let AstValue::Block { items, .. } = v {
            emit(out, "random_map_scenario", key);
            emit_scenario_fields(out, items);
            let names = extract_named_block_scalar_items(v, "names");
            emit_items(out, "scenario_name_key", &names);
        }
    }
    assert(pair_views(out@) =~= start + scenario_refs(file_scope, key@, *v));
}

} // verus!
