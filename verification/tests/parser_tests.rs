use foch_language::parser::{parse_clausewitz_content, AstStatement, AstValue, ScalarValue};

#[test]
fn parser_handles_assignments_and_lists() {
	let parsed = parse_clausewitz_content(
		"test.txt".to_string(),
		"name = \"x\"\ntags = {\n\t\"A\"\n\t\"B\"\n}\n",
	);
	assert!(parsed.diagnostics.is_empty());
	assert_eq!(parsed.ast.statements.len(), 2);

	let AstStatement::Assignment { value, .. } = &parsed.ast.statements[1] else {
		panic!("expected assignment");
	};

	let AstValue::Block { items, .. } = value else {
		panic!("expected block value");
	};

	assert_eq!(items.len(), 2);
}

#[test]
fn parser_accepts_nested_equals_assignment_forms() {
	let parsed = parse_clausewitz_content(
		"missions.txt".to_string(),
		"custom_tooltip = njd_unite_arabia_tooltip = { factor = 1 }\ncenter_of_trade = 1 = yes\n286 = = { owner = ROOT }\n",
	);
	assert!(parsed.diagnostics.is_empty(), "{:?}", parsed.diagnostics);
	assert_eq!(parsed.ast.statements.len(), 3);

	for statement in &parsed.ast.statements {
		let AstStatement::Assignment { value, .. } = statement else {
			panic!("expected assignment");
		};
		match value {
			AstValue::Block { .. } | AstValue::Scalar { .. } => {}
		}
	}
}

#[test]
fn parser_accepts_implicit_block_assignments_without_equals() {
	let parsed = parse_clausewitz_content(
		"scripted_effects.txt".to_string(),
		"some_effect {\n\t$who$ = {\n\t\ttrigger_switch = { 100 = { PREV = { add_prestige = 1 } } }\n\t}\n}\n",
	);
	assert!(parsed.diagnostics.is_empty(), "{:?}", parsed.diagnostics);
	assert_eq!(parsed.ast.statements.len(), 1);
	let AstStatement::Assignment { key, value, .. } = &parsed.ast.statements[0] else {
		panic!("expected implicit block assignment");
	};
	assert_eq!(key, "some_effect");
	let AstValue::Block { items, .. } = value else {
		panic!("expected block value");
	};
	assert!(!items.is_empty());
}

#[test]
fn lua_mode_recognizes_double_dash_line_comment() {
	let parsed = parse_clausewitz_content("test.lua".to_string(), "-- foo\nbar=1\n");
	assert!(parsed.diagnostics.is_empty(), "{:?}", parsed.diagnostics);
	assert_eq!(parsed.ast.statements.len(), 2);

	let AstStatement::Comment { text, .. } = &parsed.ast.statements[0] else {
		panic!("expected comment");
	};
	assert!(text.contains("foo"));

	let AstStatement::Assignment { key, .. } = &parsed.ast.statements[1] else {
		panic!("expected assignment");
	};
	assert_eq!(key, "bar");
}

#[test]
fn lua_mode_recognizes_inline_comment_after_value() {
	let parsed = parse_clausewitz_content("test.lua".to_string(), "x = 1 -- trail\ny = 2\n");
	assert!(parsed.diagnostics.is_empty(), "{:?}", parsed.diagnostics);
	assert_eq!(parsed.ast.statements.len(), 3);

	let AstStatement::Assignment { key, value, .. } = &parsed.ast.statements[0] else {
		panic!("expected assignment");
	};
	assert_eq!(key, "x");
	let AstValue::Scalar { value, .. } = value else {
		panic!("expected scalar value");
	};
	assert_eq!(value, &ScalarValue::Number("1".to_string()));

	let AstStatement::Comment { text, .. } = &parsed.ast.statements[1] else {
		panic!("expected comment");
	};
	assert!(text.contains("trail"));

	let AstStatement::Assignment { key, value, .. } = &parsed.ast.statements[2] else {
		panic!("expected assignment");
	};
	assert_eq!(key, "y");
	let AstValue::Scalar { value, .. } = value else {
		panic!("expected scalar value");
	};
	assert_eq!(value, &ScalarValue::Number("2".to_string()));
}

#[test]
fn lua_mode_recognizes_inline_comment_after_identifier_no_space() {
	let parsed = parse_clausewitz_content("test.lua".to_string(), "x = yes--c\ny = 2\n");
	assert!(parsed.diagnostics.is_empty(), "{:?}", parsed.diagnostics);
	assert_eq!(parsed.ast.statements.len(), 3);

	let AstStatement::Assignment { key, value, .. } = &parsed.ast.statements[0] else {
		panic!("expected assignment");
	};
	assert_eq!(key, "x");
	let AstValue::Scalar { value, .. } = value else {
		panic!("expected scalar value");
	};
	assert_eq!(value, &ScalarValue::Bool(true));

	let AstStatement::Comment { text, .. } = &parsed.ast.statements[1] else {
		panic!("expected comment");
	};
	assert!(text.contains("c"));

	let AstStatement::Assignment { key, value, .. } = &parsed.ast.statements[2] else {
		panic!("expected assignment");
	};
	assert_eq!(key, "y");
	let AstValue::Scalar { value, .. } = value else {
		panic!("expected scalar value");
	};
	assert_eq!(value, &ScalarValue::Number("2".to_string()));
}

#[test]
fn lua_mode_recognizes_inline_comment_after_number_no_space() {
	let parsed = parse_clausewitz_content("test.lua".to_string(), "x = 60--c\ny = 2\n");
	assert!(parsed.diagnostics.is_empty(), "{:?}", parsed.diagnostics);
	assert_eq!(parsed.ast.statements.len(), 3);

	let AstStatement::Assignment { key, value, .. } = &parsed.ast.statements[0] else {
		panic!("expected assignment");
	};
	assert_eq!(key, "x");
	let AstValue::Scalar { value, .. } = value else {
		panic!("expected scalar value");
	};
	assert_eq!(value, &ScalarValue::Number("60".to_string()));

	let AstStatement::Comment { text, .. } = &parsed.ast.statements[1] else {
		panic!("expected comment");
	};
	assert!(text.contains("c"));

	let AstStatement::Assignment { key, value, .. } = &parsed.ast.statements[2] else {
		panic!("expected assignment");
	};
	assert_eq!(key, "y");
	let AstValue::Scalar { value, .. } = value else {
		panic!("expected scalar value");
	};
	assert_eq!(value, &ScalarValue::Number("2".to_string()));
}

#[test]
fn lua_mode_recognizes_inline_comment_after_string_no_space() {
	let parsed = parse_clausewitz_content("test.lua".to_string(), "x = \"a\"--c\ny = 2\n");
	assert!(parsed.diagnostics.is_empty(), "{:?}", parsed.diagnostics);
	assert_eq!(parsed.ast.statements.len(), 3);

	let AstStatement::Assignment { key, value, .. } = &parsed.ast.statements[0] else {
		panic!("expected assignment");
	};
	assert_eq!(key, "x");
	let AstValue::Scalar { value, .. } = value else {
		panic!("expected scalar value");
	};
	assert_eq!(value, &ScalarValue::String("a".to_string()));

	let AstStatement::Comment { text, .. } = &parsed.ast.statements[1] else {
		panic!("expected comment");
	};
	assert!(text.contains("c"));

	let AstStatement::Assignment { key, value, .. } = &parsed.ast.statements[2] else {
		panic!("expected assignment");
	};
	assert_eq!(key, "y");
	let AstValue::Scalar { value, .. } = value else {
		panic!("expected scalar value");
	};
	assert_eq!(value, &ScalarValue::Number("2".to_string()));
}

#[test]
fn lua_mode_negative_number_still_works() {
	let parsed =
		parse_clausewitz_content("test.lua".to_string(), "a = -1\nb = -0.5\nc = -\n");
	assert!(parsed.diagnostics.is_empty(), "{:?}", parsed.diagnostics);
	assert_eq!(parsed.ast.statements.len(), 3);

	let AstStatement::Assignment { key, value, .. } = &parsed.ast.statements[0] else {
		panic!("expected assignment");
	};
	assert_eq!(key, "a");
	let AstValue::Scalar { value, .. } = value else {
		panic!("expected scalar value");
	};
	assert_eq!(value, &ScalarValue::Number("-1".to_string()));

	let AstStatement::Assignment { key, value, .. } = &parsed.ast.statements[1] else {
		panic!("expected assignment");
	};
	assert_eq!(key, "b");
	let AstValue::Scalar { value, .. } = value else {
		panic!("expected scalar value");
	};
	assert_eq!(value, &ScalarValue::Number("-0.5".to_string()));

	let AstStatement::Assignment { key, value, .. } = &parsed.ast.statements[2] else {
		panic!("expected assignment");
	};
	assert_eq!(key, "c");
	let AstValue::Scalar { .. } = value else {
		panic!("expected scalar value");
	};
}

#[test]
fn lua_mode_block_comment_level_zero() {
	let parsed = parse_clausewitz_content(
		"test.lua".to_string(),
		"--[[ first line\nsecond line ]]\nx = 1\n",
	);
	assert!(parsed.diagnostics.is_empty(), "{:?}", parsed.diagnostics);
	assert_eq!(parsed.ast.statements.len(), 2);

	let AstStatement::Comment { text, span } = &parsed.ast.statements[0] else {
		panic!("expected comment");
	};
	assert!(text.contains("first line"));
	assert!(text.contains("second line"));
	assert_eq!(span.end.line, 2);

	let AstStatement::Assignment { key, value, .. } = &parsed.ast.statements[1] else {
		panic!("expected assignment");
	};
	assert_eq!(key, "x");
	let AstValue::Scalar { value, .. } = value else {
		panic!("expected scalar value");
	};
	assert_eq!(value, &ScalarValue::Number("1".to_string()));
}

#[test]
fn lua_mode_block_comment_level_two() {
	let parsed = parse_clausewitz_content("test.lua".to_string(), "--[==[ a ]==]\nx = 1\n");
	assert!(parsed.diagnostics.is_empty(), "{:?}", parsed.diagnostics);
	assert_eq!(parsed.ast.statements.len(), 2);

	let AstStatement::Comment { text, .. } = &parsed.ast.statements[0] else {
		panic!("expected comment");
	};
	assert!(text.contains("a"));

	let AstStatement::Assignment { key, value, .. } = &parsed.ast.statements[1] else {
		panic!("expected assignment");
	};
	assert_eq!(key, "x");
	let AstValue::Scalar { value, .. } = value else {
		panic!("expected scalar value");
	};
	assert_eq!(value, &ScalarValue::Number("1".to_string()));
}

#[test]
fn lua_mode_unterminated_block_comment_emits_diagnostic() {
	let parsed = parse_clausewitz_content("test.lua".to_string(), "--[[ no end\n");
	assert!(!parsed.diagnostics.is_empty());
	assert!(parsed.diagnostics.iter().any(|diagnostic| {
		diagnostic
			.message
			.to_ascii_lowercase()
			.contains("unterminated")
	}));
	assert!(
		parsed
			.ast
			.statements
			.iter()
			.any(|statement| matches!(statement, AstStatement::Comment { .. }))
	);
}

#[test]
fn lua_mode_dotted_keys_normalize_to_assignment() {
	let parsed =
		parse_clausewitz_content("test.lua".to_string(), "NDefines.NCountry.X = 0.5\n");
	assert!(parsed.diagnostics.is_empty(), "{:?}", parsed.diagnostics);
	assert_eq!(parsed.ast.statements.len(), 1);

	let AstStatement::Assignment { key, value, .. } = &parsed.ast.statements[0] else {
		panic!("expected assignment");
	};
	assert_eq!(key, "NDefines.NCountry.X");
	let AstValue::Scalar { value, .. } = value else {
		panic!("expected scalar value");
	};
	assert_eq!(value, &ScalarValue::Number("0.5".to_string()));
}

#[test]
fn non_lua_mode_treats_double_dash_as_numbers() {
	let parsed = parse_clausewitz_content("test.txt".to_string(), "-- foo\n");
	assert!(parsed.diagnostics.is_empty(), "{:?}", parsed.diagnostics);
	assert!(parsed.ast.statements.len() >= 2);
	assert!(
		parsed
			.ast
			.statements
			.iter()
			.all(|statement| !matches!(statement, AstStatement::Comment { .. }))
	);
	assert!(parsed.ast.statements.iter().any(|statement| matches!(
		statement,
		AstStatement::Item {
			value: AstValue::Scalar {
				value: ScalarValue::Number(number),
				..
			},
			..
		} if number.as_str() == "-"
	)));
}

#[test]
fn lua_mode_off_for_unknown_extension() {
	let parsed = parse_clausewitz_content("test.gui".to_string(), "-- foo\n");
	assert!(parsed.diagnostics.is_empty(), "{:?}", parsed.diagnostics);
	assert!(parsed.ast.statements.len() >= 2);
	assert!(
		parsed
			.ast
			.statements
			.iter()
			.all(|statement| !matches!(statement, AstStatement::Comment { .. }))
	);
	assert!(parsed.ast.statements.iter().any(|statement| matches!(
		statement,
		AstStatement::Item {
			value: AstValue::Scalar {
				value: ScalarValue::Number(number),
				..
			},
			..
		} if number.as_str() == "-"
	)));
}


fn value_span(v: &AstValue) -> foch_language::parser::SpanRange {
	match v {
		AstValue::Scalar { span, .. } => *span,
		AstValue::Block { span, .. } => *span,
	}
}

fn check_spans(stmts: &[AstStatement], len: usize) {
	fn ok(s: foch_language::parser::SpanRange, len: usize) {
		assert!(s.start.line >= 1);
		assert!(s.start.offset <= s.end.offset);
		assert!(s.end.offset <= len);
	}
	for st in stmts {
		match st {
			AstStatement::Assignment { key_span, value, span, .. } => {
				ok(*key_span, len);
				ok(*span, len);
				ok(value_span(value), len);
				if let AstValue::Block { items, .. } = value {
					check_spans(items, len);
				}
			}
			AstStatement::Item { value, span } => {
				ok(*span, len);
				ok(value_span(value), len);
				if let AstValue::Block { items, .. } = value {
					check_spans(items, len);
				}
			}
			AstStatement::Comment { span, .. } => ok(*span, len),
		}
	}
}

#[test]
fn every_span_lies_within_the_text() {
	for content in [
		"a = { b = c d = { e } } # note\n{ x }\n",
		"a = { b = c",
		"} } a = = b",
		"ключ = \"значение\"\n",
		"",
	] {
		let parsed = parse_clausewitz_content("test.txt".to_string(), content);
		check_spans(&parsed.ast.statements, content.len());
	}
}

#[test]
fn lua_mode_without_double_dash_parses_like_script_mode() {
	let content = "NDefines = {\n\tNGame = {\n\t\tSTART_DATE = \"1444.11.11\" # start\n\t}\n}\nx = -1\n";
	let lua = parse_clausewitz_content("common/defines/00_defines.LUA".to_string(), content);
	let txt = parse_clausewitz_content("common/defines/00_defines.txt".to_string(), content);
	assert_eq!(format!("{:?}", lua.ast.statements), format!("{:?}", txt.ast.statements));
	assert_eq!(format!("{:?}", lua.diagnostics), format!("{:?}", txt.diagnostics));
}
