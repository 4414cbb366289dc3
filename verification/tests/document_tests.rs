use foch_language::documents::{
    collect_json_properties, order_by_path, parse_json_content, JsonValue,
    classify_document_family, csv_schema_for, decode_paradox_bytes, is_clausewitz_defines_path,
    is_excluded_text_path, parse_csv_content, path_extension, path_file_name, split_csv_line,
    split_text_lines, validate_csv_columns, CsvSchema, DocumentFamily, ParsedCsvDocument,
};
use foch_language::localisation::parse_localisation_bytes;

fn parse_csv_bytes(relative: &str, raw: &[u8]) -> ParsedCsvDocument {
    let content = decode_paradox_bytes(raw);
    parse_csv_content("mod", relative, &content)
}

#[test]
fn classify_supported_text_families() {
    assert_eq!(classify_document_family("events/a.txt"), Some(DocumentFamily::Clausewitz));
    assert_eq!(classify_document_family("interface/a.gui"), Some(DocumentFamily::Clausewitz));
    assert_eq!(
        classify_document_family("localisation/test_l_english.yml"),
        Some(DocumentFamily::Localisation)
    );
    assert_eq!(classify_document_family("common/data.csv"), Some(DocumentFamily::Csv));
    assert_eq!(classify_document_family("common/settings.json"), Some(DocumentFamily::Json));
    assert_eq!(
        classify_document_family("common/defines/00_test.lua"),
        Some(DocumentFamily::Clausewitz)
    );
    assert_eq!(
        classify_document_family("common/defines.lua"),
        Some(DocumentFamily::Clausewitz)
    );
    assert_eq!(classify_document_family("script/shader.lua"), None);
}

#[test]
fn extensions_follow_path_rules() {
    assert_eq!(classify_document_family("descriptor.mod"), Some(DocumentFamily::Clausewitz));
    assert_eq!(classify_document_family("GFX/Big.GFX"), Some(DocumentFamily::Clausewitz));
    assert_eq!(classify_document_family(".txt"), None);
    assert_eq!(classify_document_family("a/b.txt/"), Some(DocumentFamily::Clausewitz));
    assert_eq!(classify_document_family("a/.."), None);
    assert_eq!(classify_document_family("noext"), None);
    assert_eq!(path_extension("x/archive.tar.gz"), Some("gz".chars().collect()));
    assert_eq!(path_extension("x/name."), Some(Vec::new()));
    assert_eq!(path_file_name("a//b/./c.txt"), Some("c.txt".chars().collect()));
    assert_eq!(path_file_name("a/./"), Some("a".chars().collect()));
    assert_eq!(path_file_name(""), None);
    assert!(is_clausewitz_defines_path("Common\\Defines\\x.lua"));
    assert!(!is_clausewitz_defines_path("common/definesx.lua"));
}

#[test]
fn discovery_excludes_noise_and_description_files() {
    for p in [
        "licenses/LUA.txt",
        "patchnotes/1.0.txt",
        "builtin_dlc/builtin_dlc.txt",
        "dlc_metadata/metadata.txt",
        "hints/tips.txt",
        "ebook/a.txt",
        "legal_notes/a.txt",
        "steam.txt",
        "描述.txt",
        "ThirdPartyLicenses.txt",
        "checksum_manifest.txt",
        "clausewitz_branch.txt",
        "clausewitz_rev.txt",
        "eu4_branch.txt",
        "eu4_rev.txt",
        "launcher-settings.json",
        "settings-layout.json",
        "sub/steam.txt",
    ] {
        assert!(is_excluded_text_path(p), "{p}");
    }
    assert!(!is_excluded_text_path("events/real.txt"));
    assert!(!is_excluded_text_path("common/licenses/x.txt"));
}

#[test]
fn csv_schemas_by_path() {
    assert_eq!(csv_schema_for("map/adjacencies.csv"), CsvSchema::Eu4Adjacencies);
    assert_eq!(csv_schema_for("map\\definition.csv"), CsvSchema::Eu4Definition);
    assert_eq!(csv_schema_for("common/x.csv"), CsvSchema::Generic);
}

#[test]
fn csv_lines_split_with_quotes() {
    assert_eq!(split_csv_line(" a ; b ;c", ';'), vec!["a", "b", "c"]);
    assert_eq!(split_csv_line("\"x;y\";\"say \"\"hi\"\"\"", ';'), vec!["x;y", "say \"hi\""]);
    assert_eq!(split_csv_line("a;b;", ';'), vec!["a", "b"]);
    assert_eq!(split_csv_line("a;b; ", ';'), vec!["a", "b"]);
    assert_eq!(split_csv_line("a;;", ';'), vec!["a", ""]);
    assert_eq!(split_csv_line("", ','), vec![""]);
    assert_eq!(split_csv_line("a,b", ';'), vec!["a,b"]);
}

#[test]
fn csv_column_checks() {
    let mut expected = None;
    let mut cols = vec!["a".to_string(), "b".to_string()];
    assert_eq!(validate_csv_columns(CsvSchema::Generic, 1, &mut cols, &mut expected), None);
    assert_eq!(expected, Some(2));
    let mut three = vec!["a".to_string(); 3];
    assert_eq!(
        validate_csv_columns(CsvSchema::Generic, 2, &mut three, &mut expected),
        Some((2, 3))
    );
    let mut five = vec!["1".to_string(); 5];
    let mut e = None;
    assert_eq!(validate_csv_columns(CsvSchema::Eu4Definition, 2, &mut five, &mut e), None);
    assert_eq!(five.len(), 6);
    assert_eq!(five[5], "");
    let mut five_header = vec!["h".to_string(); 5];
    assert_eq!(
        validate_csv_columns(CsvSchema::Eu4Definition, 1, &mut five_header, &mut e),
        Some((6, 5))
    );
    let mut eight = vec!["x".to_string(); 8];
    assert_eq!(
        validate_csv_columns(CsvSchema::Eu4Adjacencies, 4, &mut eight, &mut e),
        Some((9, 8))
    );
    assert_eq!(e, Some(9));
}

#[test]
fn text_lines_and_decoding() {
    let lines = split_text_lines("a\r\nb\n\nc\r");
    assert_eq!(lines, vec![vec!['a'], vec!['b'], vec![], vec!['c', '\r']]);
    assert!(split_text_lines("").is_empty());
    assert_eq!(split_text_lines("x\n").len(), 1);
    assert_eq!(decode_paradox_bytes("Malmö".as_bytes()), "Malmö");
    assert_eq!(decode_paradox_bytes(b"Malm\xf6"), "Malmö");
    assert_eq!(decode_paradox_bytes(b"\x80\x9f\x81"), "\u{20AC}\u{0178}\u{81}");
}

#[test]
fn csv_parser_accepts_trailing_delimiter_row() {
    let parsed = parse_csv_bytes(
        "map/adjacencies.csv",
        b"From;To;Type;x;y;z;w;u;v\n-1;-1;;-1;-1;-1;-1;-1;-1;\n",
    );
    assert!(parsed.parse_issues.is_empty(), "{:?}", parsed.parse_issues);
    assert_eq!(parsed.rows.len(), 2);
}

#[test]
fn csv_parser_decodes_windows_1252_input() {
    let parsed = parse_csv_bytes("common/names.csv", b"Name;Value\nMalm\xf6;1\n");
    assert!(parsed.parse_issues.is_empty(), "{:?}", parsed.parse_issues);
    assert_eq!(parsed.rows[1].identity, "Malmö");
}

#[test]
fn csv_parser_accepts_definition_standard_and_variant_rows() {
    let parsed = parse_csv_bytes(
        "map/definition.csv",
        "province;red;green;blue;x;x\n1;128;34;64;Stockholm;x\n3004;189;110;220;Unused1;\n"
            .as_bytes(),
    );
    assert!(parsed.parse_issues.is_empty(), "{:?}", parsed.parse_issues);
    assert_eq!(parsed.rows.len(), 3);
}

#[test]
fn csv_parser_rejects_invalid_definition_column_counts() {
    let parsed = parse_csv_bytes(
        "map/definition.csv",
        "province;red;green;blue;x;x\n1;128;34;64\n2;0;36;128;Östergötland;x;extra\n".as_bytes(),
    );
    assert_eq!(parsed.parse_issues.len(), 2, "{:?}", parsed.parse_issues);
    assert_eq!(
        parsed.parse_issues[0].message,
        "inconsistent csv column count: expected 6, got 4"
    );
    assert_eq!(parsed.parse_issues[0].line, 2);
    assert_eq!(parsed.parse_issues[1].line, 3);
}

#[test]
fn csv_rows_identity_blank_lines_and_boms() {
    let parsed = parse_csv_bytes(
        "common/x.csv",
        "\u{feff}\u{feff}a,b\n\n   \n ,  \n c ,d\n".as_bytes(),
    );
    assert_eq!(parsed.rows.len(), 3);
    assert_eq!(parsed.rows[0].identity, "a");
    assert_eq!(parsed.rows[0].line, 1);
    assert_eq!(parsed.rows[1].identity, "row_4");
    assert_eq!(parsed.rows[2].identity, "c");
    assert_eq!(parsed.rows[2].line, 5);
    assert_eq!(parsed.parse_issues.len(), 1);
    assert_eq!(parsed.parse_issues[0].line, 4);
    assert_eq!(
        parsed.parse_issues[0].message,
        "inconsistent csv column count: expected 2, got 1"
    );
    assert_eq!(parsed.rows[0].mod_id, "mod");
    assert_eq!(parsed.rows[0].path, "common/x.csv");
    assert_eq!(parsed.rows[0].column, 1);
}

#[test]
fn localisation_parser_accepts_internal_quotes_and_trailing_comments() {
    let parsed = parse_localisation_bytes(
        "mod",
        "localisation/test_l_english.yml",
        "l_english:\nexample.key:0 \"The term \"Great Power\" is used here.\" # comment\n".as_bytes(),
    );
    assert!(parsed.parse_issues.is_empty(), "{:?}", parsed.parse_issues);
    assert_eq!(parsed.entries.len(), 1);
    assert_eq!(parsed.entries[0].definition.key, "example.key");
}

#[test]
fn localisation_parser_reports_malformed_entry() {
    let parsed = parse_localisation_bytes(
        "mod",
        "localisation/bad_l_english.yml",
        b"l_english:\nexample.key:0 Tooltip without quotes\n",
    );
    assert_eq!(parsed.entries.len(), 0);
    assert_eq!(parsed.parse_issues.len(), 1);
}

#[test]
fn localisation_parser_accepts_multiple_language_headers() {
    let parsed = parse_localisation_bytes(
        "mod",
        "localisation/languages.yml",
        "l_english:\n foo:0 \"English\"\nl_german:\n foo:0 \"Deutsch\"\n".as_bytes(),
    );
    assert!(parsed.parse_issues.is_empty(), "{:?}", parsed.parse_issues);
    assert_eq!(parsed.entries.len(), 2);
}

#[test]
fn localisation_parser_ignores_comment_only_files() {
    let parsed = parse_localisation_bytes(
        "mod",
        "localisation/empty_l_german.yml",
        b"# comment only\n# l_german:\n",
    );
    assert!(parsed.parse_issues.is_empty(), "{:?}", parsed.parse_issues);
    assert!(parsed.entries.is_empty());
}

#[test]
fn json_properties_follow_members_and_elements() {
    let value = JsonValue::Object(vec![
        (
            "a".to_string(),
            JsonValue::Object(vec![("b".to_string(), JsonValue::Scalar)]),
        ),
        (
            "c".to_string(),
            JsonValue::Array(vec![
                JsonValue::Scalar,
                JsonValue::Object(vec![("d".to_string(), JsonValue::Scalar)]),
            ]),
        ),
    ]);
    let props = collect_json_properties(&value, "mod", "common/x.json");
    let paths: Vec<&str> = props.iter().map(|p| p.key_path.as_str()).collect();
    assert_eq!(paths, vec!["$.a", "$.a.b", "$.c", "$.c[1].d"]);
    assert!(props.iter().all(|p| p.line == 1 && p.column == 1 && p.mod_id == "mod"));
    assert!(collect_json_properties(&JsonValue::Scalar, "mod", "x.json").is_empty());
    let arr = JsonValue::Array(vec![JsonValue::Array(vec![JsonValue::Object(vec![(
        "k".to_string(),
        JsonValue::Scalar,
    )])])]);
    let props = collect_json_properties(&arr, "mod", "x.json");
    assert_eq!(props[0].key_path, "$[0][0].k");
}

#[test]
fn json_content_gives_member_and_element_paths() {
    let doc = parse_json_content("mod", "data/x.json", r#"{"b": [1, {"c": null}], "a": {"d": true}}"#);
    assert_eq!(doc.mod_id, "mod");
    assert_eq!(doc.path, "data/x.json");
    assert!(doc.parse_issues.is_empty());
    let paths: Vec<&str> = doc.properties.iter().map(|p| p.key_path.as_str()).collect();
    assert_eq!(paths, vec!["$.a", "$.a.d", "$.b", "$.b[1].c"]);
    assert!(doc.properties.iter().all(|p| p.line == 1 && p.column == 1 && p.mod_id == "mod"));
}

#[test]
fn json_content_that_is_no_json_gives_one_issue() {
    let doc = parse_json_content("mod", "data/x.json", "{\n  \"a\": \n}");
    assert!(doc.properties.is_empty());
    assert_eq!(doc.parse_issues.len(), 1);
    let issue = &doc.parse_issues[0];
    assert_eq!(issue.line, 3);
    assert_eq!(issue.column, 1);
    assert!(issue.message.contains("line 3 column 1"));
    assert_eq!(issue.path, "data/x.json");
}

#[test]
fn documents_are_ordered_by_path_components() {
    let paths: Vec<String> = ["events/b.txt", "common/z.txt", "events/a/x.txt", "common/a.txt", "events/a.txt", "common/a.txt"]
        .iter()
        .map(|s| s.to_string())
        .collect();
    let order = order_by_path(&paths);
    let sorted: Vec<&str> = order.iter().map(|&k| paths[k].as_str()).collect();
    assert_eq!(sorted, vec!["common/a.txt", "common/a.txt", "common/z.txt", "events/a/x.txt", "events/a.txt", "events/b.txt"]);
    assert_eq!(order[0], 3);
    assert_eq!(order[1], 5);
    let mut by_std: Vec<std::path::PathBuf> = paths.iter().map(std::path::PathBuf::from).collect();
    by_std.sort();
    let ours: Vec<std::path::PathBuf> = order.iter().map(|&k| std::path::PathBuf::from(&paths[k])).collect();
    assert_eq!(ours, by_std);
}
