//! Verified core of the Clausewitz script analyzer: lexing and parsing of
//! Paradox script files, builtin keyword lookups, localisation line parsing
//! and the small path and key classifiers that the semantic index uses.
pub mod text;
pub mod parser;
pub mod paths;
pub mod ordered;
pub mod eu4_builtin;
pub mod model;
pub mod content_family;
pub mod scope_rules;
pub mod localisation;
pub mod eu4_profile;
pub mod semantic_index;
pub mod definition_module;
pub mod definition_laws;
pub mod param_contracts;
pub mod analysis;
pub mod extractors;
pub mod rules;
pub mod scope_tree;
pub mod parse_cache;
pub mod scope_inference;
pub mod call_candidates;
pub mod documents;
pub mod localisation_sources;
pub mod param_scan;
pub mod index_builder;
pub mod flag_refs;
pub mod resource_extractors;
