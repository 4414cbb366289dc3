//! The analyzer's scope model: which kind of game object a scope stands for,
//! and what kind of block opened it.

use vstd::prelude::*;

verus! {

/// The type of game object that a script scope refers to.
#[derive(Clone, Copy, Debug, PartialEq, Eq, Structural)]
pub enum ScopeType {
    Country,
    Province,
    Unknown,
}

/// What kind of block a scope was opened by.
#[derive(Clone, Copy, Debug, PartialEq, Eq, Structural)]
pub enum ScopeKind {
    File,
    Event,
    Trigger,
    Effect,
    Loop,
    ScriptedEffect,
    Block,
    AliasBlock,
}

/// A problem found while reading or parsing a file, at a 1-based position.
#[derive(Clone, Debug, PartialEq, Eq)]
pub struct ParseIssue {
    pub mod_id: String,
    pub path: String,
    pub line: usize,
    pub column: usize,
    pub message: String,
}

/// A localisation key defined at a 1-based line and column of a file.
#[derive(Clone, Debug, PartialEq, Eq)]
pub struct LocalisationDefinition {
    pub key: String,
    pub mod_id: String,
    pub path: String,
    pub line: usize,
    pub column: usize,
}

/// A localisation key defined again within one language section.
#[derive(Clone, Debug, PartialEq, Eq)]
pub struct LocalisationDuplicate {
    pub key: String,
    pub mod_id: String,
    pub path: String,
    pub first_line: usize,
    pub duplicate_line: usize,
}

/// A requirement that applies when a parameter is given: then at least one
/// of `requires_any_of` must be given too.
#[derive(Clone, Debug, PartialEq, Eq)]
pub struct ConditionalParamRule {
    pub when_present: String,
    pub requires_any_of: Vec<String>,
}

/// The parameters that a scripted effect takes: those it requires, those it
/// accepts, groups of which at least one must be given, and conditional
/// requirements.
#[derive(Clone, Debug, PartialEq, Eq)]
pub struct ParamContract {
    pub required_all: Vec<String>,
    pub optional: Vec<String>,
    pub one_of_groups: Vec<Vec<String>>,
    pub conditional_required: Vec<ConditionalParamRule>,
}


/// How grave a finding is.
#[derive(Clone, Copy, Debug, PartialEq, Eq, Structural)]
pub enum Severity {
    Error,
    Warning,
    Info,
}

/// Whether a finding belongs to the strict checks or is advice.
#[derive(Clone, Copy, Debug, PartialEq, Eq, Structural)]
pub enum FindingChannel {
    Strict,
    Advisory,
}

/// A finding of an analysis: its rule, severity and channel, its message,
/// where it was found, what supports it, and how confident the analysis is
/// of it, in hundredths.
#[derive(Clone, Debug)]
pub struct Finding {
    pub rule_id: String,
    pub severity: Severity,
    pub channel: FindingChannel,
    pub message: String,
    pub mod_id: Option<String>,
    pub path: Option<String>,
    pub evidence: Option<String>,
    pub line: Option<usize>,
    pub column: Option<usize>,
    pub confidence_percent: Option<u8>,
}

} // verus!
