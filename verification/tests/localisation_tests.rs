use foch_language::localisation::{
    decode_utf16_with_bom, find_subslice, line_slices, normalize_localisation_source,
    parse_localisation_bytes, parse_localisation_entry_bytes, parse_localisation_header_bytes,
    trim_ascii_end, trim_ascii_start, trim_prefix,
};

#[test]
fn parser_accepts_gbk_value_bytes_without_utf8_lossy() {
    let mut bytes = Vec::from(&b"l_english:\n TEST:0 \""[..]);
    bytes.extend([0xD6, 0xD0, 0xCE, 0xC4]);
    bytes.extend(&b"\"\n"[..]);
    let parsed = parse_localisation_bytes("mod", "localisation/test_l_english.yml", &bytes);
    assert_eq!(parsed.entries.len(), 1);
    assert!(parsed.parse_issues.is_empty(), "{:?}", parsed.parse_issues);
}

#[test]
fn duplicate_detection_resets_per_language_section() {
    let source = "l_english:\n l_english:0 \"English\"\n l_german:0 \"German\"\nl_german:\n l_english:0 \"Englisch\"\n l_german:0 \"Deutsch\"\n";
    let parsed = parse_localisation_bytes("mod", "localisation/languages.yml", source.as_bytes());
    assert_eq!(parsed.entries.len(), 4);
    assert!(
        parsed.duplicates.is_empty(),
        "keys reused across sections must not be reported as duplicates: {:?}",
        parsed.duplicates,
    );
}

#[test]
fn duplicate_detection_still_flags_within_section() {
    let source = "l_english:\n FOO:0 \"first\"\n FOO:0 \"second\"\n";
    let parsed =
        parse_localisation_bytes("mod", "localisation/dupes_l_english.yml", source.as_bytes());
    assert_eq!(parsed.duplicates.len(), 1);
    assert_eq!(parsed.duplicates[0].key, "FOO");
}

#[test]
fn parser_indexes_entry_with_unclosed_quote() {
    let source =
        "l_english:\n EVT_5_d: \"Some prose without a closing quote\n EVT_5_a: \"Reply!\"\n";
    let parsed =
        parse_localisation_bytes("mod", "localisation/unclosed_l_english.yml", source.as_bytes());
    let keys: Vec<_> = parsed
        .entries
        .iter()
        .map(|entry| entry.definition.key.clone())
        .collect();
    assert_eq!(keys, vec!["EVT_5_d".to_string(), "EVT_5_a".to_string()]);
    assert!(parsed.parse_issues.is_empty(), "{:?}", parsed.parse_issues);
}

#[test]
fn parser_indexes_entry_with_trailing_prose_after_closing_quote() {
    let source =
        "l_english:\n OPT2: \"Short reply!\" was cut for making the option too long\n";
    let parsed =
        parse_localisation_bytes("mod", "localisation/trailing_l_english.yml", source.as_bytes());
    assert_eq!(parsed.entries.len(), 1);
    assert_eq!(parsed.entries[0].definition.key, "OPT2");
    assert!(parsed.parse_issues.is_empty(), "{:?}", parsed.parse_issues);
}

#[test]
fn entries_carry_position_mod_and_path() {
    let source = "\u{feff}l_english: # comment\n\n # note\n  KEY.one:0 \"a\"\r\n\tKEY-2: \"b\"";
    let parsed = parse_localisation_bytes("m1", "localisation/a_l_english.yml", source.as_bytes());
    assert!(parsed.parse_issues.is_empty(), "{:?}", parsed.parse_issues);
    assert_eq!(parsed.entries.len(), 2);
    let first = &parsed.entries[0].definition;
    assert_eq!(first.key, "KEY.one");
    assert_eq!(first.mod_id, "m1");
    assert_eq!(first.path, "localisation/a_l_english.yml");
    assert_eq!((first.line, first.column), (4, 3));
    let second = &parsed.entries[1].definition;
    assert_eq!(second.key, "KEY-2");
    assert_eq!((second.line, second.column), (5, 2));
}

#[test]
fn duplicates_report_the_latest_earlier_line() {
    let source = "l_english:\n FOO:0 \"1\"\n FOO:0 \"2\"\n BAR:0 \"x\"\n FOO:0 \"3\"\n";
    let parsed = parse_localisation_bytes("mod", "p.yml", source.as_bytes());
    let pairs: Vec<(usize, usize)> = parsed
        .duplicates
        .iter()
        .map(|d| (d.first_line, d.duplicate_line))
        .collect();
    assert_eq!(pairs, vec![(2, 3), (3, 5)]);
}

#[test]
fn missing_header_is_reported_once() {
    let source = "FOO:0 \"1\"\nBAR:0 \"2\"\n";
    let parsed = parse_localisation_bytes("mod", "p.yml", source.as_bytes());
    assert!(parsed.entries.is_empty());
    assert_eq!(parsed.parse_issues.len(), 1);
    assert_eq!(parsed.parse_issues[0].line, 1);
    assert_eq!(parsed.parse_issues[0].column, 1);
    assert_eq!(parsed.parse_issues[0].message, "missing or invalid localisation header");
}

#[test]
fn invalid_entries_are_reported_by_line() {
    let source = "l_english:\n no colon here\n KEY:0 no quote\n :0 \"empty key\"\n K*Y:0 \"bad\"\n OK:0 \"fine\"\n";
    let parsed = parse_localisation_bytes("mod", "p.yml", source.as_bytes());
    assert_eq!(parsed.entries.len(), 1);
    let lines: Vec<usize> = parsed.parse_issues.iter().map(|i| i.line).collect();
    assert_eq!(lines, vec![2, 3, 4, 5]);
    assert!(parsed
        .parse_issues
        .iter()
        .all(|i| i.message == "invalid localisation entry"));
}

#[test]
fn comment_only_file_has_no_issues() {
    let parsed = parse_localisation_bytes("mod", "p.yml", b"# only\n\n   \n");
    assert!(parsed.entries.is_empty());
    assert!(parsed.parse_issues.is_empty());
    let empty = parse_localisation_bytes("mod", "p.yml", b"");
    assert!(empty.parse_issues.is_empty());
}

#[test]
fn utf16_files_are_decoded() {
    let text = "l_english:\n KEY:0 \"ü😀\"\n";
    let mut le = vec![0xFF, 0xFE];
    let mut be = vec![0xFE, 0xFF];
    for unit in text.encode_utf16() {
        le.extend(unit.to_le_bytes());
        be.extend(unit.to_be_bytes());
    }
    assert_eq!(normalize_localisation_source(&le).unwrap(), text.as_bytes());
    assert_eq!(normalize_localisation_source(&be).unwrap(), text.as_bytes());
    let parsed = parse_localisation_bytes("mod", "p.yml", &le);
    assert_eq!(parsed.entries.len(), 1);
    assert_eq!(parsed.entries[0].definition.key, "KEY");
}

#[test]
fn invalid_utf16_is_an_issue() {
    let odd = vec![0xFF, 0xFE, 0x41];
    assert_eq!(
        normalize_localisation_source(&odd),
        Err("invalid utf-16 localisation file".to_string())
    );
    let lone_surrogate = vec![0xFF, 0xFE, 0x00, 0xD8, 0x41, 0x00];
    assert!(normalize_localisation_source(&lone_surrogate).is_err());
    assert!(decode_utf16_with_bom(&[0x00, 0xDC], true).is_err());
    let parsed = parse_localisation_bytes("mod", "p.yml", &odd);
    assert_eq!(parsed.parse_issues.len(), 1);
    assert_eq!(parsed.parse_issues[0].message, "invalid utf-16 localisation file");
    assert_eq!(parsed.parse_issues[0].line, 1);
}

#[test]
fn line_splitting_and_trimming() {
    let lines = line_slices(b"a\r\nb\n\nc\r");
    assert_eq!(lines, vec![b"a".to_vec(), b"b".to_vec(), b"".to_vec(), b"c".to_vec()]);
    assert_eq!(line_slices(b"x\n"), vec![b"x".to_vec()]);
    assert_eq!(line_slices(b""), vec![Vec::<u8>::new()]);
    assert_eq!(trim_ascii_start(&b" \t x "[..].to_vec()), b"x ".to_vec());
    assert_eq!(trim_ascii_end(&b" x \r\n"[..].to_vec()), b" x".to_vec());
    assert_eq!(trim_prefix(&b"abc".to_vec(), b"ab"), b"c".to_vec());
    assert_eq!(trim_prefix(&b"abc".to_vec(), b"x"), b"abc".to_vec());
    assert_eq!(find_subslice(&b"hello".to_vec(), &b"ll".to_vec()), Some(2));
    assert_eq!(find_subslice(&b"hello".to_vec(), &b"".to_vec()), Some(0));
    assert_eq!(find_subslice(&b"he".to_vec(), &b"hello".to_vec()), None);
}

#[test]
fn headers_and_entries() {
    assert_eq!(
        parse_localisation_header_bytes(&b"l_english:  # c".to_vec()),
        Some("english".to_string())
    );
    assert_eq!(parse_localisation_header_bytes(&b"l_:".to_vec()), None);
    assert_eq!(parse_localisation_header_bytes(&b"l_eng lish:".to_vec()), None);
    assert_eq!(parse_localisation_header_bytes(&b"english:".to_vec()), None);
    let e = parse_localisation_entry_bytes(&b"  KEY_1:12 \"v\"".to_vec()).unwrap();
    assert_eq!(e.key, "KEY_1");
    assert!(parse_localisation_entry_bytes(&b"KEY 1:0 \"v\"".to_vec()).is_none());
}
