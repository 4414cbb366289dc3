use foch_language::eu4_builtin::{load_lookup, BuiltinCatalog, BuiltinLookup, BuiltinSymbol};
use foch_language::flag_refs::check_unresolved_flag_references;
use foch_language::index_builder::build_semantic_index;
use foch_language::model::{FindingChannel, Severity};
use foch_language::parser::parse_clausewitz_content;
use foch_language::semantic_index::{assemble_parsed_script_file, ParsedScriptFile};

fn builtins() -> BuiltinLookup {
    let names = |items: &[&str]| -> Vec<BuiltinSymbol> {
        items
            .iter()
            .map(|s| BuiltinSymbol {
                name: s.to_string(),
            })
            .collect()
    };
    load_lookup(&BuiltinCatalog {
        reserved_keywords: vec!["if".to_string(), "limit".to_string()],
        contextual_keywords: Vec::new(),
        alias_keywords: vec!["ROOT".to_string(), "FROM".to_string()],
        builtin_triggers: names(&["has_country_flag"]),
        builtin_effects: names(&["set_country_flag"]),
        builtin_scope_changers: Vec::new(),
        builtin_iterators: Vec::new(),
        builtin_special_blocks: Vec::new(),
        game_only_candidates: Vec::new(),
    })
}

fn parsed_file(relative: &str, source: &str) -> ParsedScriptFile {
    let parsed = parse_clausewitz_content(relative.to_string(), source);
    assemble_parsed_script_file("m", format!("mod/{relative}"), relative.to_string(), parsed, source.to_string(), false)
}

const EFFECTS: &str = "read_flag_effect = {\n\thas_country_flag = other_$who$_read\n}\nboth_effect = {\n\tset_country_flag = thing_$x$\n\thas_country_flag = thing_$x$\n}\nset_pattern_effect = {\n\tset_country_flag = pre_$p$_post\n}\nread_pattern_effect = {\n\thas_country_flag = pre_$q$_post\n}\n";

fn messages_for(calls: &str) -> Vec<foch_language::model::Finding> {
    let files = vec![
        parsed_file("common/scripted_effects/flags.txt", EFFECTS),
        parsed_file("events/calls.txt", calls),
    ];
    let index = build_semantic_index(&files, &builtins());
    check_unresolved_flag_references(&index)
}

#[test]
fn unbound_reader_templates_are_reported() {
    let findings = messages_for(
        "namespace = t\ncountry_event = {\n\tid = 1\n\timmediate = {\n\t\tread_flag_effect = { who = abc }\n\t}\n}\n",
    );
    assert_eq!(findings.len(), 1);
    let f = &findings[0];
    assert_eq!(f.rule_id, "unresolved-flag-reference");
    assert_eq!(f.severity, Severity::Warning);
    assert_eq!(f.channel, FindingChannel::Advisory);
    assert_eq!(
        f.message,
        "flag may be undeclared: has_country_flag(country) references other_abc_read"
    );
    assert_eq!(f.line, Some(5));
    assert_eq!(f.path.as_deref(), Some("events/calls.txt"));
    assert_eq!(f.confidence_percent, Some(78));
    let evidence = f.evidence.clone().expect("evidence");
    assert!(evidence.starts_with("call eu4::"), "{evidence}");
    assert!(evidence.contains("::read_flag_effect binds who=abc; template common/scripted_effects/flags.txt:2:"), "{evidence}");
    assert!(evidence.ends_with(" has has_country_flag = other_$who$_read; inferred value other_abc_read"), "{evidence}");
}

#[test]
fn flags_set_by_the_same_call_are_known() {
    let findings = messages_for(
        "namespace = t\ncountry_event = {\n\tid = 1\n\timmediate = {\n\t\tboth_effect = { x = y }\n\t}\n}\n",
    );
    assert!(findings.is_empty(), "{findings:?}");
}

#[test]
fn specific_setter_patterns_allow_matching_reads() {
    let findings = messages_for(
        "namespace = t\ncountry_event = {\n\tid = 1\n\timmediate = {\n\t\tread_pattern_effect = { q = zzz }\n\t}\n}\n",
    );
    assert!(findings.is_empty(), "{findings:?}");
}

#[test]
fn literal_setters_define_flags() {
    let findings = messages_for(
        "namespace = t\ncountry_event = {\n\tid = 1\n\timmediate = {\n\t\tset_country_flag = other_abc_read\n\t\tread_flag_effect = { who = abc }\n\t}\n}\n",
    );
    assert!(findings.is_empty(), "{findings:?}");
}

#[test]
fn each_call_place_reports_its_flag() {
    let findings = messages_for(
        "namespace = t\ncountry_event = {\n\tid = 1\n\timmediate = {\n\t\tread_flag_effect = { who = abc }\n\t\tread_flag_effect = { who = abc }\n\t\tread_flag_effect = { who = def }\n\t}\n}\n",
    );
    let lines: Vec<Option<usize>> = findings.iter().map(|f| f.line).collect();
    assert_eq!(lines, vec![Some(5), Some(6), Some(7)]);
    assert!(findings[2].message.ends_with("other_def_read"));
}

#[test]
fn calls_without_bindings_are_not_checked() {
    let findings = messages_for(
        "namespace = t\ncountry_event = {\n\tid = 1\n\timmediate = {\n\t\tread_flag_effect = { }\n\t}\n}\n",
    );
    assert!(findings.is_empty());
}
