use foch_language::analysis::{
    apply_flag_template, extract_param_template, flag_op_spec, is_localisation_reference_key,
    is_non_localisation_literal, is_valid_flag_literal, looks_like_localisation_name,
    normalized_static_symbol, path_disables_localisation_reference_check, scope_type_mask,
    templated_pattern_is_specific, FlagOpSpec, FlagTemplateUsage, FlagUsageKind,
    TemplatedFlagPattern,
};
use foch_language::model::ScopeType;

#[test]
fn flag_operations_by_key() {
    assert_eq!(
        flag_op_spec("set_permanent_province_flag"),
        Some(FlagOpSpec { kind: "province", usage: FlagUsageKind::Definition })
    );
    assert_eq!(
        flag_op_spec("had_consort_flag"),
        Some(FlagOpSpec { kind: "consort", usage: FlagUsageKind::Reference })
    );
    assert_eq!(
        flag_op_spec("clr_country_flag"),
        Some(FlagOpSpec { kind: "country", usage: FlagUsageKind::Reference })
    );
    assert_eq!(flag_op_spec("set_flag"), None);
    assert_eq!(scope_type_mask(ScopeType::Country), 0b01);
    assert_eq!(scope_type_mask(ScopeType::Province), 0b10);
    assert_eq!(scope_type_mask(ScopeType::Unknown), 0);
}

#[test]
fn parameter_templates() {
    assert_eq!(
        extract_param_template("  my_$tag$_flag "),
        Some(("tag".to_string(), "my_".to_string(), "_flag".to_string()))
    );
    assert_eq!(
        extract_param_template("$x$"),
        Some(("x".to_string(), String::new(), String::new()))
    );
    assert_eq!(extract_param_template("plain_flag"), None);
    assert_eq!(extract_param_template("a_$b$_$c$"), None);
    assert_eq!(extract_param_template("a_$$"), None);
    assert_eq!(extract_param_template("a_$b"), None);
    assert_eq!(extract_param_template("a b_$c$"), None);
    assert_eq!(extract_param_template("a_$b-c$"), None);
    assert!(is_valid_flag_literal("a.b-c:d_1"));
    assert!(!is_valid_flag_literal("a b"));
}

#[test]
fn static_symbols_and_templates() {
    assert_eq!(normalized_static_symbol("  FRA_flag "), Some("FRA_flag".to_string()));
    assert_eq!(normalized_static_symbol(""), None);
    assert_eq!(normalized_static_symbol("a b"), None);
    assert_eq!(normalized_static_symbol("$x$"), None);
    assert_eq!(normalized_static_symbol("[Root.GetName]"), None);
    assert_eq!(normalized_static_symbol("@var"), None);
    assert_eq!(normalized_static_symbol("event_target:foo"), None);
    assert_eq!(normalized_static_symbol("x_trigger_value:y"), None);
    let template = FlagTemplateUsage {
        kind: "country",
        op_key: "set_country_flag".to_string(),
        param_name: "tag".to_string(),
        prefix: "claimed_".to_string(),
        suffix: "_flag".to_string(),
        path: "common/scripted_effects/x.txt".to_string(),
        line: 1,
        column: 1,
    };
    assert_eq!(apply_flag_template(&template, " FRA "), Some("claimed_FRA_flag".to_string()));
    assert_eq!(apply_flag_template(&template, "event_target:x"), None);
    assert_eq!(apply_flag_template(&template, "a b"), None);
}

#[test]
fn templated_patterns() {
    let pattern = TemplatedFlagPattern {
        kind: "country",
        prefix: "claimed_".to_string(),
        suffix: "_flag".to_string(),
    };
    assert!(pattern.matches("country", "claimed_FRA_flag"));
    assert!(!pattern.matches("province", "claimed_FRA_flag"));
    assert!(!pattern.matches("country", "claimed__flag"));
    assert!(!pattern.matches("country", "claimed_FR A_flag"));
    assert!(!pattern.matches("country", "claimed_flag"));
    assert!(!pattern.matches("country", "other_FRA_flag"));
    assert!(templated_pattern_is_specific("abc", "d"));
    assert!(!templated_pattern_is_specific("a_", "_"));
    assert!(!templated_pattern_is_specific("1234", ""));
    assert!(templated_pattern_is_specific("", "flag"));
}

#[test]
fn localisation_references() {
    assert!(is_localisation_reference_key("tooltip", "anything"));
    assert!(is_localisation_reference_key("desc", "x"));
    assert!(is_localisation_reference_key("name", "my_event.1.a"));
    assert!(is_localisation_reference_key("name", "MY_NAME"));
    assert!(is_localisation_reference_key("name", "decision_title"));
    assert!(!is_localisation_reference_key("name", "john"));
    assert!(!is_localisation_reference_key("key", "x.y"));
    assert!(looks_like_localisation_name("x_localization"));
    assert!(!looks_like_localisation_name("plain"));
    assert!(is_non_localisation_literal("yes"));
    assert!(is_non_localisation_literal("no"));
    assert!(is_non_localisation_literal("42"));
    assert!(!is_non_localisation_literal(""));
    assert!(!is_non_localisation_literal("4a"));
}

#[test]
fn localisation_checks_by_path() {
    assert!(path_disables_localisation_reference_check("interface/topbar.gui"));
    assert!(path_disables_localisation_reference_check("x/y.GFX"));
    assert!(path_disables_localisation_reference_check("map\\default.map"));
    assert!(path_disables_localisation_reference_check("customizable_localization/a.txt"));
    assert!(path_disables_localisation_reference_check("common/custom_gui/a.txt"));
    assert!(!path_disables_localisation_reference_check("common/ideas/a.txt"));
    assert!(!path_disables_localisation_reference_check("events/a.txt"));
}
