use foch_language::content_family::ScriptFileKind;
use foch_language::parser::{parse_clausewitz_content, AstStatement, AstValue};
use foch_language::semantic_index::{
    assemble_parsed_script_file, collect_scope_param_names, extract_assignment_scalar,
    extract_block_scalar_items, extract_event_call_id, extract_named_block_member_keys,
    extract_named_block_scalar_items, extract_nested_assignment_scalar,
    extract_template_param_name, extract_yes_assignment_keys, is_event_call,
    is_mission_slot_definition, is_template_param_placeholder_key, scalar_text_of,
};

fn statements(content: &str) -> Vec<AstStatement> {
    parse_clausewitz_content("test.txt".to_string(), content).ast.statements
}

fn value_of(content: &str) -> AstValue {
    match statements(content).into_iter().next() {
        Some(AstStatement::Assignment { value, .. }) => value,
        _ => panic!("expected an assignment"),
    }
}

#[test]
fn first_scalar_assignment_wins() {
    let items = statements("id = { x = 1 }\nid = foo.1\nid = foo.2\n");
    assert_eq!(extract_assignment_scalar(&items, "id"), Some("foo.1".to_string()));
    assert_eq!(extract_assignment_scalar(&items, "missing"), None);
    let flag = statements("hidden = yes\n");
    assert_eq!(extract_assignment_scalar(&flag, "hidden"), Some("yes".to_string()));
}

#[test]
fn event_calls_name_their_id() {
    let call = value_of("country_event = { id = flavor.5 days = 3 }");
    assert!(is_event_call("country_event", &call));
    assert!(!is_event_call("random_event", &call));
    assert!(!is_event_call("country_event", &value_of("country_event = flavor.5")));
    assert_eq!(extract_event_call_id(&call), Some("flavor.5".to_string()));
    assert_eq!(extract_event_call_id(&value_of("x = 3")), None);
    assert_eq!(scalar_text_of(&value_of("x = 3")), Some("3".to_string()));
    assert_eq!(scalar_text_of(&call), None);
}

#[test]
fn scalar_items_of_blocks() {
    let v = value_of("list = { a b = c { d } e # note\n }");
    assert_eq!(extract_block_scalar_items(&v), vec!["a", "c", "e"]);
    assert!(extract_block_scalar_items(&value_of("x = y")).is_empty());

    let named = value_of("root = { tag = FRA other = X tag = { SWE ENG } tag = { } }");
    assert_eq!(
        extract_named_block_scalar_items(&named, "tag"),
        vec!["FRA", "SWE", "ENG"]
    );

    let members = value_of("root = { group = { a = 1 b = { } 3 } skip = { c = 1 } group = { d = 2 } }");
    assert_eq!(extract_named_block_member_keys(&members, "group"), vec!["a", "b", "d"]);

    let flags = value_of("root = { a = yes b = no c = YES d = { } e = Yes }");
    assert_eq!(extract_yes_assignment_keys(&flags), vec!["a", "c", "e"]);
}

#[test]
fn nested_assignment_scalar_takes_first_block_with_field() {
    let items = statements("ai = { factor = 1 }\nai = { base = 2 }\nai = { base = 3 }\n");
    assert_eq!(extract_nested_assignment_scalar(&items, "ai", "base"), Some("2".to_string()));
    assert_eq!(extract_nested_assignment_scalar(&items, "ai", "missing"), None);
    assert_eq!(extract_nested_assignment_scalar(&items, "other", "base"), None);
}

#[test]
fn mission_slots_are_recognised_by_structure_keys() {
    let slot = statements("icon = mission_x\nrequired_missions = { }\n");
    let plain = statements("add_prestige = 5\n");
    assert!(is_mission_slot_definition(ScriptFileKind::Missions, &slot));
    assert!(!is_mission_slot_definition(ScriptFileKind::Missions, &plain));
    assert!(!is_mission_slot_definition(ScriptFileKind::Events, &slot));
}

#[test]
fn template_parameter_names() {
    assert_eq!(extract_template_param_name("  $target$ "), Some("target".to_string()));
    assert_eq!(extract_template_param_name("$a_1$"), Some("a_1".to_string()));
    assert_eq!(extract_template_param_name("$$"), None);
    assert_eq!(extract_template_param_name("$a b$"), None);
    assert_eq!(extract_template_param_name("x$a$"), None);
    assert!(is_template_param_placeholder_key("$who$"));
    assert!(!is_template_param_placeholder_key("who"));
}

#[test]
fn scope_parameter_names_are_sorted_and_unique() {
    let items = statements(
        "$zeta$ = { $alpha$ = { x = 1 } }\n$alpha$ = { }\n$beta$ = yes\nouter = { inner = { $gamma$ = { } } }\n",
    );
    assert_eq!(collect_scope_param_names(&items), vec!["alpha", "gamma", "zeta"]);
    assert!(collect_scope_param_names(&statements("a = b\n")).is_empty());
}

#[test]
fn parsed_files_carry_family_module_and_issues() {
    let parsed = parse_clausewitz_content(
        "common/scripted_effects/my-effects.txt".to_string(),
        "a = b\n= c\n",
    );
    let n = parsed.diagnostics.len();
    let first_line = parsed.diagnostics.first().map(|d| d.span.start.line);
    let file = assemble_parsed_script_file(
        "mod1",
        "/m/common/scripted_effects/my-effects.txt".to_string(),
        "common/scripted_effects/my-effects.txt".to_string(),
        parsed,
        "a = b\n= c\n".to_string(),
        true,
    );
    assert_eq!(file.file_kind, ScriptFileKind::ScriptedEffects);
    assert!(!file.module_name.contains('-'));
    assert_eq!(file.parse_issues.len(), n);
    assert!(n > 0);
    assert_eq!(file.parse_issues[0].mod_id, "mod1");
    assert_eq!(file.parse_issues[0].path, "common/scripted_effects/my-effects.txt");
    assert_eq!(Some(file.parse_issues[0].line), first_line);
    assert!(file.parse_cache_hit);

    let unknown = assemble_parsed_script_file(
        "mod1",
        "/m/misc/deep/thing.txt".to_string(),
        "misc/deep/thing.txt".to_string(),
        parse_clausewitz_content("misc/deep/thing.txt".to_string(), "a = b\n"),
        String::new(),
        false,
    );
    assert_eq!(unknown.file_kind, ScriptFileKind::Other);
    assert_eq!(unknown.module_name, "misc.deep");
    assert!(unknown.content_family.is_none());
    assert!(unknown.parse_issues.is_empty());
}
