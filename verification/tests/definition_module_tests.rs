use foch_language::definition_module::{
    load_definition_module, DefinitionFile, DefinitionFileOrder, DefinitionKeyPolicy,
    DefinitionModuleInput, DefinitionModuleLoadError, DefinitionModuleOutput,
    DefinitionModulePolicy, DefinitionSource, DuplicateDefinitionPolicy,
    InvalidDefinitionModulePathReason, TopLevelStatementKind,
};
use foch_language::parser::{parse_clausewitz_content, AstFile, AstStatement, AstValue, SpanRange};

const POLICY: DefinitionModulePolicy = DefinitionModulePolicy {
    definition_key: DefinitionKeyPolicy::AssignmentKey,
    file_order: DefinitionFileOrder::NormalizedPathAscending,
    duplicate_definitions: DuplicateDefinitionPolicy::LaterDefinitionWins,
    output_path: "common/governments/00_foch_governments.txt",
    namespace_prefix: "common/governments",
    output_mode: DefinitionModuleOutput::ReplaceNamespace,
    policy_version: 1,
};

const PRESERVE_DUPLICATES_POLICY: DefinitionModulePolicy = DefinitionModulePolicy {
    duplicate_definitions: DuplicateDefinitionPolicy::PreserveAll,
    ..POLICY
};

fn parsed_file(path: &str, source: &str) -> DefinitionFile {
    let parsed = parse_clausewitz_content(path.to_string(), source);
    assert!(
        parsed.diagnostics.is_empty(),
        "test fixture must parse cleanly: {:?}",
        parsed.diagnostics
    );
    DefinitionFile {
        relative_path: path.to_string(),
        statements: parsed.ast.statements,
        parse_issue_count: 0,
    }
}

fn assignment_keys(ast: &AstFile) -> Vec<&str> {
    ast.statements
        .iter()
        .map(|statement| match statement {
            AstStatement::Assignment { key, .. } => key.as_str(),
            other => panic!("canonical module contains non-definition: {other:?}"),
        })
        .collect()
}

fn marker_for(ast: &AstFile, definition_key: &str) -> String {
    let definition = ast
        .statements
        .iter()
        .find(|statement| matches!(statement, AstStatement::Assignment { key, .. } if key == definition_key))
        .unwrap_or_else(|| panic!("missing definition {definition_key}"));
    let AstStatement::Assignment {
        value: AstValue::Block { items, .. },
        ..
    } = definition
    else {
        panic!("definition {definition_key} must be a block");
    };
    let marker = items
        .iter()
        .find(|statement| matches!(statement, AstStatement::Assignment { key, .. } if key == "marker"))
        .unwrap_or_else(|| panic!("definition {definition_key} is missing marker"));
    let AstStatement::Assignment {
        value: AstValue::Scalar { value, .. },
        ..
    } = marker
    else {
        panic!("marker must be scalar");
    };
    value.as_text()
}

fn statement_span(statement: &AstStatement) -> &SpanRange {
    match statement {
        AstStatement::Assignment { span, .. }
        | AstStatement::Item { span, .. }
        | AstStatement::Comment { span, .. } => span,
    }
}

#[test]
fn normalized_path_ordering_is_deterministic() {
    let z_path = r"common\governments\z.txt";
    let a_path = "common/governments/a.txt";
    let z_file = parsed_file(z_path, "z_government = { marker = z }");
    let a_file = parsed_file(a_path, "a_government = { marker = a }");

    let loaded = load_definition_module(
        &[
            DefinitionModuleInput::new(z_path, &z_file),
            DefinitionModuleInput::new(a_path, &a_file),
        ],
        POLICY,
    )
    .expect("module should load");

    assert_eq!(assignment_keys(&loaded.ast), vec!["a_government", "z_government"]);
    assert_eq!(loaded.ast.path, POLICY.output_path);
}

#[test]
fn lexical_path_normalization_collapses_separators_and_dot_components() {
    let input_path = "common//./governments///definitions.txt";
    let file_path = "common/governments/definitions.txt";
    let file = parsed_file(file_path, "shared = { marker = normalized }");

    let loaded = load_definition_module(&[DefinitionModuleInput::new(input_path, &file)], POLICY)
        .expect("lexical aliases should normalize to the same relative path");

    assert_eq!(
        loaded.source_for("shared").unwrap().path,
        "common/governments/definitions.txt"
    );
}

#[test]
fn normalized_input_path_must_match_file_relative_path() {
    let input_path = "common/governments/input.txt";
    let file_path = "common/governments/file.txt";
    let file = parsed_file(file_path, "shared = { marker = value }");

    let error = load_definition_module(&[DefinitionModuleInput::new(input_path, &file)], POLICY)
        .err()
        .expect("mismatched caller and parsed-file paths must be rejected");

    assert_eq!(
        error,
        DefinitionModuleLoadError::InputPathMismatch {
            input_path: "common/governments/input.txt".to_string(),
            file_relative_path: "common/governments/file.txt".to_string(),
        }
    );
}

#[test]
fn input_must_belong_to_the_policy_replacement_prefix() {
    let path = "events/not_a_government.txt";
    let file = parsed_file(path, "event_definition = { marker = value }");

    let error = load_definition_module(&[DefinitionModuleInput::new(path, &file)], POLICY)
        .err()
        .expect("definition modules must not absorb files from another runtime prefix");

    assert_eq!(
        error,
        DefinitionModuleLoadError::OutsideReplacementPrefix {
            path: "events/not_a_government.txt".to_string(),
            replacement_prefix: "common/governments".to_string(),
        }
    );
}

#[test]
fn lexical_path_aliases_are_duplicate_inputs() {
    let alias_path = "common//governments/./definitions.txt";
    let canonical_path = "common/governments/definitions.txt";
    let alias_file = parsed_file(alias_path, "first = { marker = first }");
    let canonical_file = parsed_file(canonical_path, "second = { marker = second }");

    let error = load_definition_module(
        &[
            DefinitionModuleInput::new(alias_path, &alias_file),
            DefinitionModuleInput::new(canonical_path, &canonical_file),
        ],
        POLICY,
    )
    .err()
    .expect("lexical aliases must not create two module inputs");

    assert_eq!(
        error,
        DefinitionModuleLoadError::DuplicateInputPath {
            path: "common/governments/definitions.txt".to_string(),
        }
    );
}

#[test]
fn invalid_relative_paths_are_rejected() {
    let cases = [
        ("", InvalidDefinitionModulePathReason::Empty),
        (
            "common/governments/../definitions.txt",
            InvalidDefinitionModulePathReason::ParentTraversal,
        ),
        (
            "/common/governments/definitions.txt",
            InvalidDefinitionModulePathReason::Absolute,
        ),
        (
            r"C:\common\governments\definitions.txt",
            InvalidDefinitionModulePathReason::Prefix,
        ),
    ];

    for (path, reason) in cases {
        let file = parsed_file(path, "shared = { marker = value }");
        let error = load_definition_module(&[DefinitionModuleInput::new(path, &file)], POLICY)
            .err()
            .expect("invalid relative path must be rejected");

        assert_eq!(
            error,
            DefinitionModuleLoadError::InvalidRelativePath { path: path.to_string(), reason }
        );
    }
}

#[test]
fn same_file_duplicate_later_definition_wins() {
    let path = "common/governments/definitions.txt";
    let file = parsed_file(path, "shared = { marker = first }\nshared = { marker = second }");

    let loaded = load_definition_module(&[DefinitionModuleInput::new(path, &file)], POLICY)
        .expect("module should load");

    assert_eq!(assignment_keys(&loaded.ast), vec!["shared"]);
    assert_eq!(marker_for(&loaded.ast, "shared"), "second");
    assert_eq!(loaded.source_for("shared").unwrap().statement_ordinal, 1);
}

#[test]
fn preserve_all_keeps_repeated_wrapper_assignments_in_source_order() {
    let path = "common/governments/definitions.txt";
    let file = parsed_file(path, "modifier = { marker = first }\nmodifier = { marker = second }");

    let loaded = load_definition_module(
        &[DefinitionModuleInput::new(path, &file)],
        PRESERVE_DUPLICATES_POLICY,
    )
    .expect("module should preserve repeated wrappers");

    assert_eq!(assignment_keys(&loaded.ast), vec!["modifier", "modifier"]);
    assert!(loaded.duplicate_diagnostics.is_empty());
    assert_eq!(loaded.source_for("modifier").unwrap().statement_ordinal, 1);
}

#[test]
fn cross_file_duplicate_later_path_wins() {
    let late_path = "common/governments/20_late.txt";
    let early_path = "common/governments/10_early.txt";
    let late_file = parsed_file(late_path, "shared = { marker = late }");
    let early_file = parsed_file(early_path, "shared = { marker = early }");

    let loaded = load_definition_module(
        &[
            DefinitionModuleInput::new(late_path, &late_file),
            DefinitionModuleInput::new(early_path, &early_file),
        ],
        POLICY,
    )
    .expect("module should load");

    assert_eq!(marker_for(&loaded.ast, "shared"), "late");
    assert_eq!(
        loaded.source_for("shared").unwrap().path,
        "common/governments/20_late.txt"
    );
}

#[test]
fn comments_do_not_become_definitions() {
    let path = "common/governments/comments.txt";
    let file = parsed_file(path, "# module comment\nalpha = { marker = kept }\n# trailing comment");

    let loaded = load_definition_module(&[DefinitionModuleInput::new(path, &file)], POLICY)
        .expect("module should load");

    assert_eq!(assignment_keys(&loaded.ast), vec!["alpha"]);
    assert_eq!(loaded.definition_sources.len(), 1);
    assert!(loaded.source_for("alpha").is_some());
    assert!(loaded.duplicate_diagnostics.is_empty());
}

#[test]
fn unsupported_top_level_content_fails_conservatively() {
    let path = "common/governments/unsupported.txt";
    let file = parsed_file(path, "standalone_item");

    let error = load_definition_module(&[DefinitionModuleInput::new(path, &file)], POLICY)
        .err()
        .expect("bare top-level items must not be guessed into definitions");

    assert_eq!(
        error,
        DefinitionModuleLoadError::UnsupportedTopLevelStatement {
            path: "common/governments/unsupported.txt".to_string(),
            statement_ordinal: 0,
            kind: TopLevelStatementKind::Item,
        }
    );
}

#[test]
fn source_mapping_and_duplicate_diagnostic_record_overwrite_event() {
    let previous_path = "common/governments/01_previous.txt";
    let current_path = "common/governments/02_current.txt";
    let previous_file = parsed_file(previous_path, "shared = { marker = previous }");
    let current_file =
        parsed_file(current_path, "other = { marker = other }\nshared = { marker = winner }");

    let loaded = load_definition_module(
        &[
            DefinitionModuleInput::new(current_path, &current_file),
            DefinitionModuleInput::new(previous_path, &previous_file),
        ],
        POLICY,
    )
    .expect("module should load");

    let current_source = DefinitionSource {
        path: "common/governments/02_current.txt".to_string(),
        statement_ordinal: 1,
        span: *statement_span(&current_file.statements[1]),
    };
    let previous_source = DefinitionSource {
        path: "common/governments/01_previous.txt".to_string(),
        statement_ordinal: 0,
        span: *statement_span(&previous_file.statements[0]),
    };
    assert_eq!(loaded.source_for("shared").unwrap(), &current_source);
    assert_eq!(loaded.duplicate_diagnostics.len(), 1);
    assert_eq!(loaded.duplicate_diagnostics[0].definition_key, "shared");
    assert_eq!(loaded.duplicate_diagnostics[0].previous_source, previous_source);
    assert_eq!(loaded.duplicate_diagnostics[0].current_source, current_source);
}

#[test]
fn three_way_duplicate_diagnostics_record_each_overwrite_event() {
    let first_path = "common/governments/01_first.txt";
    let second_path = "common/governments/02_second.txt";
    let final_path = "common/governments/03_final.txt";
    let first_file = parsed_file(first_path, "shared = { marker = first }");
    let second_file = parsed_file(second_path, "shared = { marker = second }");
    let final_file = parsed_file(final_path, "shared = { marker = final }");

    let loaded = load_definition_module(
        &[
            DefinitionModuleInput::new(final_path, &final_file),
            DefinitionModuleInput::new(first_path, &first_file),
            DefinitionModuleInput::new(second_path, &second_file),
        ],
        POLICY,
    )
    .expect("module should load");

    assert_eq!(marker_for(&loaded.ast, "shared"), "final");
    assert_eq!(
        loaded.source_for("shared").unwrap().path,
        "common/governments/03_final.txt"
    );
    let overwrite_paths = loaded
        .duplicate_diagnostics
        .iter()
        .map(|diagnostic| {
            (
                diagnostic.previous_source.path.as_str(),
                diagnostic.current_source.path.as_str(),
            )
        })
        .collect::<Vec<_>>();
    assert_eq!(
        overwrite_paths,
        vec![
            ("common/governments/01_first.txt", "common/governments/02_second.txt"),
            ("common/governments/02_second.txt", "common/governments/03_final.txt"),
        ]
    );
}

#[test]
fn missing_assignment_key_fails_conservatively() {
    let path = "common/governments/missing_key.txt";
    let mut file = parsed_file(path, "placeholder = { marker = value }");
    let AstStatement::Assignment { key, .. } = &mut file.statements[0] else {
        panic!("fixture must contain an assignment");
    };
    key.clear();

    let error = load_definition_module(&[DefinitionModuleInput::new(path, &file)], POLICY)
        .err()
        .expect("missing keys must not be merged");

    assert_eq!(
        error,
        DefinitionModuleLoadError::MissingDefinitionKey {
            path: "common/governments/missing_key.txt".to_string(),
            statement_ordinal: 0,
        }
    );
}

#[test]
fn parse_issues_are_loader_errors() {
    let path = "common/governments/invalid.txt";
    let mut file = parsed_file(path, "valid = { marker = value }");
    file.parse_issue_count += 1;

    let error = load_definition_module(&[DefinitionModuleInput::new(path, &file)], POLICY)
        .err()
        .expect("parse issues must stop module loading");

    assert_eq!(
        error,
        DefinitionModuleLoadError::ParseIssues {
            path: "common/governments/invalid.txt".to_string(),
            issue_count: 1,
        }
    );
}

#[test]
fn sources_are_listed_by_key_and_smallest_duplicate_is_reported() {
    let a = "common/governments/a.txt";
    let b = "common/governments/b.txt";
    let file_a = parsed_file(a, "zeta = { marker = 1 }\nalpha = { marker = 2 }");
    let file_b = parsed_file(b, "mid = { marker = 3 }");
    let loaded = load_definition_module(
        &[DefinitionModuleInput::new(b, &file_b), DefinitionModuleInput::new(a, &file_a)],
        POLICY,
    )
    .expect("module should load");
    let keys: Vec<&str> = loaded.definition_sources.iter().map(|(k, _)| k.as_str()).collect();
    assert_eq!(keys, vec!["alpha", "mid", "zeta"]);
    assert_eq!(assignment_keys(&loaded.ast), vec!["zeta", "alpha", "mid"]);

    let dup_late = "common/governments/z.txt";
    let dup_early = "common/governments/c.txt";
    let f1 = parsed_file(dup_late, "x = { marker = 1 }");
    let f2 = parsed_file(dup_early, "y = { marker = 2 }");
    let error = load_definition_module(
        &[
            DefinitionModuleInput::new(dup_late, &f1),
            DefinitionModuleInput::new("common/governments/./z.txt", &f1),
            DefinitionModuleInput::new(dup_early, &f2),
            DefinitionModuleInput::new("common//governments/c.txt", &f2),
        ],
        POLICY,
    )
    .err()
    .expect("duplicates must be refused");
    assert_eq!(
        error,
        DefinitionModuleLoadError::DuplicateInputPath { path: "common/governments/c.txt".to_string() }
    );
}
