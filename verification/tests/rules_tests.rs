use foch_language::extractors::{
    country_metadata_block_reference_key, disaster_block_reference_key,
    estate_block_reference_key, is_clausewitz_date_key, is_country_tag_selector,
    is_diplomacy_relation_block, is_diplomacy_timeline_block,
    is_mercenary_company_scalar_reference_key, is_parliament_bribe_scalar_reference_key,
    is_province_history_country_reference_key, is_subject_type_reference_key,
    is_war_history_country_reference_key, religion_block_reference_key,
};
use foch_language::parser::{parse_clausewitz_content, AstStatement};
use foch_language::rules::{
    is_structurally_mergeable_path, parse_game_version, parse_version_component, quote,
    ParsedGameVersion,
};
use std::cmp::Ordering;

#[test]
fn game_versions() {
    assert_eq!(parse_game_version("1.37"), Some(ParsedGameVersion { major: 1, minor: 37 }));
    assert_eq!(parse_game_version(" \"v1.37.*\" "), Some(ParsedGameVersion { major: 1, minor: 37 }));
    assert_eq!(parse_game_version("V1.36.2"), Some(ParsedGameVersion { major: 1, minor: 36 }));
    assert_eq!(parse_game_version("1. 37 . 4"), Some(ParsedGameVersion { major: 1, minor: 37 }));
    assert_eq!(parse_game_version("*"), None);
    assert_eq!(parse_game_version("\"\""), None);
    assert_eq!(parse_game_version("1"), None);
    assert_eq!(parse_game_version("1.37.x"), None);
    assert_eq!(parse_game_version("1.37.1.1"), None);
    assert_eq!(parse_game_version("1.x"), None);
    assert_eq!(parse_game_version("1.99999999999"), None);
    assert_eq!(parse_version_component(" 42 "), Some(42));
    assert_eq!(parse_version_component("+4"), None);
    assert_eq!(parse_version_component(""), None);
    let a = ParsedGameVersion { major: 1, minor: 36 };
    let b = ParsedGameVersion { major: 1, minor: 37 };
    let c = ParsedGameVersion { major: 2, minor: 0 };
    assert_eq!(a.cmp_major_minor(&b), Ordering::Less);
    assert_eq!(c.cmp_major_minor(&b), Ordering::Greater);
    assert_eq!(b.cmp_major_minor(&b), Ordering::Equal);
}

#[test]
fn mergeable_paths() {
    assert!(is_structurally_mergeable_path("interface/topbar.gui"));
    assert!(is_structurally_mergeable_path("GFX\\Interface.GFX"));
    assert!(is_structurally_mergeable_path("common/scripted_effects/x.txt"));
    assert!(is_structurally_mergeable_path("Events/a.TXT"));
    assert!(!is_structurally_mergeable_path("common/ideas/x.txt"));
    assert!(!is_structurally_mergeable_path("events/x.yml"));
    assert!(!is_structurally_mergeable_path("map/x.gui"));
}

#[test]
fn quoting() {
    assert_eq!(quote("plain"), "\"plain\"");
    assert_eq!(quote("say \"hi\""), "\"say \\\"hi\\\"\"");
    assert_eq!(quote(""), "\"\"");
}

#[test]
fn extractor_reference_keys() {
    assert!(is_country_tag_selector("FRA"));
    assert!(!is_country_tag_selector("X3E"));
    assert!(!is_country_tag_selector("fra"));
    assert!(is_province_history_country_reference_key("controller"));
    assert!(is_war_history_country_reference_key("rem_defender"));
    assert!(!is_war_history_country_reference_key("location"));
    assert!(is_subject_type_reference_key("diplomacy_subject_sprite"));
    assert!(is_parliament_bribe_scalar_reference_key("type"));
    assert_eq!(country_metadata_block_reference_key("historical_units"), Some("historical_units"));
    assert_eq!(religion_block_reference_key("heretic"), Some("heretic"));
    assert_eq!(disaster_block_reference_key("random_events"), Some("event"));
    assert_eq!(estate_block_reference_key("agendas"), Some("agendas"));
    assert_eq!(estate_block_reference_key("estate"), None);
    assert!(is_mercenary_company_scalar_reference_key("home_province", "151"));
    assert!(!is_mercenary_company_scalar_reference_key("home_province", "0"));
    assert!(is_mercenary_company_scalar_reference_key("tag", "K01"));
    assert!(is_mercenary_company_scalar_reference_key("mercenary_desc_key", "anything"));
    assert!(!is_mercenary_company_scalar_reference_key("name", "x"));
}

#[test]
fn dates_and_diplomacy_blocks() {
    assert!(is_clausewitz_date_key("1444.11.11"));
    assert!(is_clausewitz_date_key("1.1.1"));
    assert!(!is_clausewitz_date_key("1444.13.1"));
    assert!(!is_clausewitz_date_key("1444.0.1"));
    assert!(!is_clausewitz_date_key("1444.1.32"));
    assert!(!is_clausewitz_date_key("1444.1"));
    assert!(!is_clausewitz_date_key("1444.1.1.1"));
    assert!(!is_clausewitz_date_key("year.1.1"));
    let parsed = parse_clausewitz_content("x".to_string(), "alliance = { first = FRA }\n1444.11.11 = { x = y }\nmarch = yes");
    let values: Vec<_> = parsed
        .ast
        .statements
        .iter()
        .map(|s| match s {
            AstStatement::Assignment { key, value, .. } => (key.clone(), value),
            _ => panic!("assignment expected"),
        })
        .collect();
    assert!(is_diplomacy_relation_block(&values[0].0, values[0].1));
    assert!(!is_diplomacy_timeline_block(&values[0].0, values[0].1));
    assert!(is_diplomacy_timeline_block(&values[1].0, values[1].1));
    assert!(!is_diplomacy_relation_block(&values[2].0, values[2].1));
}
