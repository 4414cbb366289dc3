use foch_language::localisation_sources::{is_localisation_source, sort_and_dedup_definitions};
use foch_language::model::LocalisationDefinition;

fn def(key: &str, mod_id: &str, path: &str, line: usize, column: usize) -> LocalisationDefinition {
    LocalisationDefinition {
        key: key.to_string(),
        mod_id: mod_id.to_string(),
        path: path.to_string(),
        line,
        column,
    }
}

#[test]
fn localisation_sources_are_yml_files_below_localisation_folders() {
    assert!(is_localisation_source("localisation/english/a_l_english.yml"));
    assert!(is_localisation_source("common/localisation/b_l_english.YAML"));
    assert!(is_localisation_source("localisation\\replace\\c_l_german.Yml"));
    assert!(!is_localisation_source("localisation/readme.txt"));
    assert!(!is_localisation_source("common/scripted_effects/x.yml"));
    assert!(!is_localisation_source("gfx/localisation/x.yml"));
    assert!(!is_localisation_source("localisation/noext"));
}

#[test]
fn definitions_are_sorted_by_path_then_position_then_key() {
    let defs = vec![
        def("b", "m", "localisation/b.yml", 1, 1),
        def("z", "m", "localisation/a.yml", 3, 1),
        def("a", "m", "localisation/a.yml", 2, 5),
        def("a", "m", "localisation/a.yml", 2, 1),
        def("k2", "m", "localisation/a.yml", 2, 1),
    ];
    let sorted = sort_and_dedup_definitions(&defs);
    let keys: Vec<(&str, usize, usize)> =
        sorted.iter().map(|d| (d.key.as_str(), d.line, d.column)).collect();
    assert_eq!(
        keys,
        vec![("a", 2, 1), ("k2", 2, 1), ("a", 2, 5), ("z", 3, 1), ("b", 1, 1)]
    );
}

#[test]
fn same_definitions_are_listed_once_keeping_the_first() {
    let defs = vec![
        def("x", "m", "localisation/a.yml", 1, 2),
        def("x", "m", "localisation//a.yml", 1, 2),
        def("x", "n", "localisation/a.yml", 1, 2),
        def("x", "m", "localisation/a.yml", 1, 2),
    ];
    let sorted = sort_and_dedup_definitions(&defs);
    assert_eq!(sorted.len(), 2);
    assert_eq!(sorted[0].path, "localisation/a.yml");
    assert_eq!(sorted[0].mod_id, "m");
    assert_eq!(sorted[1].mod_id, "n");
}

#[test]
fn no_definitions_give_an_empty_list() {
    assert!(sort_and_dedup_definitions(&Vec::new()).is_empty());
}
