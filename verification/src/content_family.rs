//! Content families: how a file under a mod's root is classified, named as a
//! module, scoped and merged.

use vstd::prelude::*;
use crate::model::ScopeType;
use crate::definition_module::DefinitionModulePolicy;
use crate::text::{chars_of, push, string_from_chars};

verus! {

/// The kind of script that a file holds, by the family it belongs to.
#[derive(Clone, Copy, Debug, PartialEq, Eq, Structural)]
pub enum ScriptFileKind {
    Events,
    OnActions,
    Decisions,
    ScriptedEffects,
    ScriptedTriggers,
    DiplomaticActions,
    TriggeredModifiers,
    Defines,
    Achievements,
    Ages,
    Buildings,
    Institutions,
    ProvinceTriggeredModifiers,
    Ideas,
    GreatProjects,
    GovernmentReforms,
    Cultures,
    CustomGui,
    AdvisorTypes,
    GovernmentNames,
    EventModifiers,
    CbTypes,
    CustomizableLocalization,
    Missions,
    NewDiplomaticActions,
    CountryTags,
    Countries,
    CountryHistory,
    ProvinceHistory,
    ProvinceNames,
    RandomMapTiles,
    RandomMapNames,
    RandomMapScenarios,
    RandomMapTweaks,
    DiplomacyHistory,
    AdvisorHistory,
    Wars,
    Fervor,
    Decrees,
    FederationAdvancements,
    GoldenBulls,
    FlagshipModifications,
    HolyOrders,
    NavalDoctrines,
    DefenderOfFaith,
    Isolationism,
    Professionalism,
    PowerProjection,
    SubjectTypeUpgrades,
    GovernmentRanks,
    Units,
    Religions,
    SubjectTypes,
    RebelTypes,
    Disasters,
    GovernmentMechanics,
    ChurchAspects,
    Factions,
    Hegemons,
    PersonalDeities,
    FetishistCults,
    PeaceTreaties,
    Bookmarks,
    Policies,
    MercenaryCompanies,
    Technologies,
    TechnologyGroups,
    EstateAgendas,
    EstatePrivileges,
    Estates,
    ParliamentBribes,
    ParliamentIssues,
    StateEdicts,
    Ui,
    Other,
}

#[derive(Clone, Copy, Debug, PartialEq, Eq, Structural)]
pub enum GameId {
    Eu4,
}

/// How to resolve scalar conflicts during deep merge.
#[derive(Clone, Copy, Debug, Default, PartialEq, Eq, Structural)]
pub enum ScalarMergePolicy {
    /// Overlay value replaces base (default).
    #[default]
    LastWriter,
    /// Parse both as numbers and sum them.
    Sum,
    /// Parse both as numbers and average them.
    Avg,
    /// Parse both as numbers and take the maximum.
    Max,
    /// Parse both as numbers and take the minimum.
    Min,
}

/// How to merge bare list items (entries without assignment keys).
#[derive(Clone, Copy, Debug, Default, PartialEq, Eq, Structural)]
pub enum ListMergePolicy {
    /// Append unique items from overlay, dedup by value (default).
    #[default]
    Union,
    /// Append all items; rename duplicates to `{item}_{mod_name}`.
    UnionWithRename,
    /// Preserve base order, append overlay's new items at end.
    OrderedUnion,
    /// Overlay's list replaces base entirely.
    Replace,
}

/// How to merge child blocks that share the same key.
#[derive(Clone, Copy, Debug, Default, PartialEq, Eq, Structural)]
pub enum BlockMergePolicy {
    /// Deep merge child blocks by key (default).
    #[default]
    Recursive,
    /// Overlay's block replaces base entirely.
    Replace,
}

/// How to merge boolean condition blocks (triggers, potentials, etc.)
#[derive(Clone, Copy, Debug, Default, PartialEq, Eq, Structural)]
pub enum BooleanMergePolicy {
    /// Combine conditions with AND semantics (both must hold).
    #[default]
    And,
    /// Combine conditions with OR semantics (either holds).
    Or,
    /// Overlay replaces base entirely.
    Replace,
}

/// Bundle of policies that control how a deep merge resolves conflicts.
#[derive(Clone, Copy, Debug, Default, PartialEq, Eq, Structural)]
pub struct MergePolicies {
    pub scalar: ScalarMergePolicy,
    pub list: ListMergePolicy,
    pub block: BlockMergePolicy,
    pub boolean: BooleanMergePolicy,
}

/// How to handle conflicts when two unrelated mods define the same merge key.
#[derive(Clone, Copy, Debug, Default, PartialEq, Eq, Structural)]
pub enum ConflictPolicy {
    /// Rename conflicting definitions to `{key}_{mod_name}` (default for most families).
    #[default]
    Rename,
    /// Merge leaf values (last-writer per leaf), for defines-style nested config.
    MergeLeaf,
    /// Last writer wins silently, for families where override is expected.
    LastWriter,
}

#[derive(Clone, Copy, Debug, Default, PartialEq, Eq, Structural)]
pub struct ContentFamilyCapabilities {
    pub semantic_complete: bool,
    pub graph_ready: bool,
    pub merge_ready: bool,
}

#[derive(Clone, Copy, Debug, PartialEq, Eq, Structural)]
pub struct ContentFamilyScopePolicy {
    pub root_scope: ScopeType,
    pub from_alias: Option<ScopeType>,
    /// True when this content family has no statically determinable implicit
    /// scope at runtime (callables, UI bindings, customizable localization,
    /// on_actions callbacks, etc.): the implicit scope is supplied by the
    /// caller, not the file.
    pub dynamic_scope: bool,
}

#[derive(Clone, Copy, Debug, PartialEq, Eq)]
pub enum ModuleNameRule {
    Static(&'static str),
    Tail {
        prefix_len: usize,
        fallback: &'static str,
    },
    FallbackParent,
}

#[derive(Clone, Copy, Debug, PartialEq, Eq, Structural)]
pub enum ContentFamilyExtractor {
    /// No extractor: the family contributes no definitions of its own.
    NoExtractor,
    CountryTags,
    Countries,
    CountryHistory,
    ProvinceHistory,
    ProvinceNames,
    RandomMapTiles,
    RandomMapNames,
    RandomMapScenarios,
    DiplomacyHistory,
    AdvisorHistory,
    Wars,
    Fervor,
    Decrees,
    FederationAdvancements,
    GoldenBulls,
    FlagshipModifications,
    HolyOrders,
    NavalDoctrines,
    DefenderOfFaith,
    Isolationism,
    Professionalism,
    PowerProjection,
    SubjectTypeUpgrades,
    GovernmentRanks,
    Units,
    Religions,
    SubjectTypes,
    RebelTypes,
    Disasters,
    GovernmentMechanics,
    ChurchAspects,
    Factions,
    Hegemons,
    PersonalDeities,
    FetishistCults,
    PeaceTreaties,
    Bookmarks,
    Policies,
    MercenaryCompanies,
    Technologies,
    TechnologyGroups,
    EstateAgendas,
    EstatePrivileges,
    Estates,
    ParliamentBribes,
    ParliamentIssues,
    StateEdicts,
    Achievements,
    Ages,
    Institutions,
    Cultures,
    AdvisorTypes,
    GovernmentNames,
    CustomGui,
    EventModifiers,
    ProvinceTriggeredModifiers,
    CbTypes,
    Ideas,
    GreatProjects,
    GovernmentReforms,
    DiplomaticActions,
    ScriptedTriggers,
    NewDiplomaticActions,
    Buildings,
}

#[derive(Clone, Copy, Debug, PartialEq, Eq)]
pub enum MergeKeySource {
    /// Top-level named assignments are the merge units (e.g. `effect_name = { ... }`).
    AssignmentKey,
    /// Merge key is extracted from an inner field value (e.g. `id` inside event blocks).
    FieldValue(&'static str),
    /// Merge units are children of a known container block (e.g. decisions).
    ContainerChildKey,
    /// Leaf-level defines paths (e.g. `NGame.START_YEAR`).
    LeafPath,
}

#[derive(Clone, Copy, Debug, PartialEq, Eq)]
pub enum ContentFamilyPathMatcher {
    Prefix(&'static str),
    Exact(&'static str),
}

/// How the files of a family are loaded: each path on its own, or the
/// whole namespace as one definition module.
#[derive(Clone, Copy, Debug, PartialEq, Eq)]
pub enum ContentLoadPolicy {
    PerPath,
    DefinitionModule(DefinitionModulePolicy),
}

/// How a content family is recognised, named, scoped and merged.
#[non_exhaustive]
#[derive(Clone, Copy, Debug, PartialEq, Eq)]
pub struct ContentFamilyDescriptor {
    pub id: &'static str,
    pub matcher: ContentFamilyPathMatcher,
    pub script_file_kind: ScriptFileKind,
    pub module_name_rule: ModuleNameRule,
    pub scope_policy: ContentFamilyScopePolicy,
    pub capabilities: ContentFamilyCapabilities,
    pub extractor: ContentFamilyExtractor,
    pub merge_key_source: Option<MergeKeySource>,
    pub conflict_policy: ConflictPolicy,
    pub merge_policies: MergePolicies,
    pub load_policy: ContentLoadPolicy,
}

/// A descriptor under construction; `build` gives the descriptor.
#[derive(Clone, Copy, Debug)]
pub struct ContentFamilyDescriptorBuilder {
    id: &'static str,
    matcher: ContentFamilyPathMatcher,
    script_file_kind: ScriptFileKind,
    module_name_rule: ModuleNameRule,
    scope_policy: ContentFamilyScopePolicy,
    capabilities: ContentFamilyCapabilities,
    extractor: ContentFamilyExtractor,
    merge_key_source: Option<MergeKeySource>,
    conflict_policy: ConflictPolicy,
    merge_policies: MergePolicies,
    load_policy: ContentLoadPolicy,
}

impl View for ContentFamilyDescriptorBuilder {
    type V = ContentFamilyDescriptor;

    /// The descriptor that `build` gives.
    closed spec fn view(&self) -> ContentFamilyDescriptor {
        ContentFamilyDescriptor {
            id: self.id,
            matcher: self.matcher,
            script_file_kind: self.script_file_kind,
            module_name_rule: self.module_name_rule,
            scope_policy: self.scope_policy,
            capabilities: self.capabilities,
            extractor: self.extractor,
            merge_key_source: self.merge_key_source,
            conflict_policy: self.conflict_policy,
            merge_policies: self.merge_policies,
            load_policy: self.load_policy,
        }
    }
}

/// The defaults of a new descriptor: kind `Other`, module named after the
/// parent directory, unknown scope, no capabilities, no extractor, no merge
/// key, renaming conflicts and the default merge policies.
pub open spec fn default_descriptor(id: &'static str, matcher: ContentFamilyPathMatcher) -> ContentFamilyDescriptor {
    ContentFamilyDescriptor {
        id,
        matcher,
        script_file_kind: ScriptFileKind::Other,
        module_name_rule: ModuleNameRule::FallbackParent,
        scope_policy: ContentFamilyScopePolicy {
            root_scope: ScopeType::Unknown,
            from_alias: None,
            dynamic_scope: false,
        },
        capabilities: ContentFamilyCapabilities {
            semantic_complete: false,
            graph_ready: false,
            merge_ready: false,
        },
        extractor: ContentFamilyExtractor::NoExtractor,
        merge_key_source: None,
        conflict_policy: ConflictPolicy::Rename,
        merge_policies: MergePolicies {
            scalar: ScalarMergePolicy::LastWriter,
            list: ListMergePolicy::Union,
            block: BlockMergePolicy::Recursive,
            boolean: BooleanMergePolicy::And,
        },
        load_policy: ContentLoadPolicy::PerPath,
    }
}

pub open spec fn with_kind(d: ContentFamilyDescriptor, kind: ScriptFileKind) -> ContentFamilyDescriptor {
    ContentFamilyDescriptor { script_file_kind: kind, ..d }
}

pub open spec fn with_module_name(d: ContentFamilyDescriptor, rule: ModuleNameRule) -> ContentFamilyDescriptor {
    ContentFamilyDescriptor { module_name_rule: rule, ..d }
}

pub open spec fn with_scope(d: ContentFamilyDescriptor, policy: ContentFamilyScopePolicy) -> ContentFamilyDescriptor {
    ContentFamilyDescriptor { scope_policy: policy, ..d }
}

pub open spec fn with_capabilities(d: ContentFamilyDescriptor, caps: ContentFamilyCapabilities) -> ContentFamilyDescriptor {
    ContentFamilyDescriptor { capabilities: caps, ..d }
}

pub open spec fn with_merge_key(d: ContentFamilyDescriptor, source: MergeKeySource) -> ContentFamilyDescriptor {
    ContentFamilyDescriptor { merge_key_source: Some(source), ..d }
}

pub open spec fn with_conflict_policy(d: ContentFamilyDescriptor, policy: ConflictPolicy) -> ContentFamilyDescriptor {
    ContentFamilyDescriptor { conflict_policy: policy, ..d }
}

pub open spec fn with_scalar_policy(d: ContentFamilyDescriptor, policy: ScalarMergePolicy) -> ContentFamilyDescriptor {
    ContentFamilyDescriptor { merge_policies: MergePolicies { scalar: policy, ..d.merge_policies }, ..d }
}

pub open spec fn with_list_policy(d: ContentFamilyDescriptor, policy: ListMergePolicy) -> ContentFamilyDescriptor {
    ContentFamilyDescriptor { merge_policies: MergePolicies { list: policy, ..d.merge_policies }, ..d }
}

pub open spec fn with_block_policy(d: ContentFamilyDescriptor, policy: BlockMergePolicy) -> ContentFamilyDescriptor {
    ContentFamilyDescriptor { merge_policies: MergePolicies { block: policy, ..d.merge_policies }, ..d }
}

pub open spec fn with_boolean_policy(d: ContentFamilyDescriptor, policy: BooleanMergePolicy) -> ContentFamilyDescriptor {
    ContentFamilyDescriptor { merge_policies: MergePolicies { boolean: policy, ..d.merge_policies }, ..d }
}

pub open spec fn with_load_policy(d: ContentFamilyDescriptor, policy: ContentLoadPolicy) -> ContentFamilyDescriptor {
    ContentFamilyDescriptor { load_policy: policy, ..d }
}

impl ContentFamilyDescriptorBuilder {
    fn from_descriptor(d: ContentFamilyDescriptor) -> (r: Self)
        ensures
            r@ == d,
    {
        ContentFamilyDescriptorBuilder {
            id: d.id,
            matcher: d.matcher,
            script_file_kind: d.script_file_kind,
            module_name_rule: d.module_name_rule,
            scope_policy: d.scope_policy,
            capabilities: d.capabilities,
            extractor: d.extractor,
            merge_key_source: d.merge_key_source,
            conflict_policy: d.conflict_policy,
            merge_policies: d.merge_policies,
            load_policy: d.load_policy,
        }
    }

    pub fn kind(self, kind: ScriptFileKind) -> (r: Self)
        ensures
            r@ == with_kind(self@, kind),
    {
        Self::from_descriptor(ContentFamilyDescriptor { script_file_kind: kind, ..self.build() })
    }

    pub fn module_name(self, rule: ModuleNameRule) -> (r: Self)
        ensures
            r@ == with_module_name(self@, rule),
    {
        Self::from_descriptor(ContentFamilyDescriptor { module_name_rule: rule, ..self.build() })
    }

    pub fn scope(self, policy: ContentFamilyScopePolicy) -> (r: Self)
        ensures
            r@ == with_scope(self@, policy),
    {
        Self::from_descriptor(ContentFamilyDescriptor { scope_policy: policy, ..self.build() })
    }

    pub fn capabilities(self, caps: ContentFamilyCapabilities) -> (r: Self)
        ensures
            r@ == with_capabilities(self@, caps),
    {
        Self::from_descriptor(ContentFamilyDescriptor { capabilities: caps, ..self.build() })
    }

    pub fn extractor(self, ext: ContentFamilyExtractor) -> (r: Self)
        ensures
            r@ == (ContentFamilyDescriptor { extractor: ext, ..self@ }),
    {
        Self::from_descriptor(ContentFamilyDescriptor { extractor: ext, ..self.build() })
    }

    pub fn load_policy(self, policy: ContentLoadPolicy) -> (r: Self)
        ensures
            r@ == with_load_policy(self@, policy),
    {
        Self::from_descriptor(ContentFamilyDescriptor { load_policy: policy, ..self.build() })
    }

    pub fn merge_key(self, source: MergeKeySource) -> (r: Self)
        ensures
            r@ == with_merge_key(self@, source),
    {
        Self::from_descriptor(ContentFamilyDescriptor { merge_key_source: Some(source), ..self.build() })
    }

    pub fn conflict_policy(self, policy: ConflictPolicy) -> (r: Self)
        ensures
            r@ == with_conflict_policy(self@, policy),
    {
        Self::from_descriptor(ContentFamilyDescriptor { conflict_policy: policy, ..self.build() })
    }

    pub fn merge_policies(self, policies: MergePolicies) -> (r: Self)
        ensures
            r@ == (ContentFamilyDescriptor { merge_policies: policies, ..self@ }),
    {
        Self::from_descriptor(ContentFamilyDescriptor { merge_policies: policies, ..self.build() })
    }

    pub fn scalar_policy(self, policy: ScalarMergePolicy) -> (r: Self)
        ensures
            r@ == with_scalar_policy(self@, policy),
    {
        let d = self.build();
        Self::from_descriptor(
            ContentFamilyDescriptor {
                merge_policies: MergePolicies { scalar: policy, ..d.merge_policies },
                ..d
            },
        )
    }

    pub fn list_policy(self, policy: ListMergePolicy) -> (r: Self)
        ensures
            r@ == with_list_policy(self@, policy),
    {
        let d = self.build();
        Self::from_descriptor(
            ContentFamilyDescriptor {
                merge_policies: MergePolicies { list: policy, ..d.merge_policies },
                ..d
            },
        )
    }

    pub fn block_policy(self, policy: BlockMergePolicy) -> (r: Self)
        ensures
            r@ == with_block_policy(self@, policy),
    {
        let d = self.build();
        Self::from_descriptor(
            ContentFamilyDescriptor {
                merge_policies: MergePolicies { block: policy, ..d.merge_policies },
                ..d
            },
        )
    }

    pub fn boolean_policy(self, policy: BooleanMergePolicy) -> (r: Self)
        ensures
            r@ == with_boolean_policy(self@, policy),
    {
        let d = self.build();
        Self::from_descriptor(
            ContentFamilyDescriptor {
                merge_policies: MergePolicies { boolean: policy, ..d.merge_policies },
                ..d
            },
        )
    }

    pub fn build(self) -> (r: ContentFamilyDescriptor)
        ensures
            r == self@,
    {
        ContentFamilyDescriptor {
            id: self.id,
            matcher: self.matcher,
            script_file_kind: self.script_file_kind,
            module_name_rule: self.module_name_rule,
            scope_policy: self.scope_policy,
            capabilities: self.capabilities,
            extractor: self.extractor,
            merge_key_source: self.merge_key_source,
            conflict_policy: self.conflict_policy,
            merge_policies: self.merge_policies,
            load_policy: self.load_policy,
        }
    }
}

impl ContentFamilyDescriptor {
    /// A family of the files under a directory prefix.
    pub fn prefix(id: &'static str, prefix: &'static str) -> (r: ContentFamilyDescriptorBuilder)
        ensures
            r@ == default_descriptor(id, ContentFamilyPathMatcher::Prefix(prefix)),
    {
        ContentFamilyDescriptorBuilder::from_descriptor(
            ContentFamilyDescriptor {
                id,
                matcher: ContentFamilyPathMatcher::Prefix(prefix),
                script_file_kind: ScriptFileKind::Other,
                module_name_rule: ModuleNameRule::FallbackParent,
                scope_policy: ContentFamilyScopePolicy {
                    root_scope: ScopeType::Unknown,
                    from_alias: None,
                    dynamic_scope: false,
                },
                capabilities: ContentFamilyCapabilities {
                    semantic_complete: false,
                    graph_ready: false,
                    merge_ready: false,
                },
                extractor: ContentFamilyExtractor::NoExtractor,
                merge_key_source: None,
                conflict_policy: ConflictPolicy::Rename,
                merge_policies: MergePolicies {
                    scalar: ScalarMergePolicy::LastWriter,
                    list: ListMergePolicy::Union,
                    block: BlockMergePolicy::Recursive,
                    boolean: BooleanMergePolicy::And,
                },
                load_policy: ContentLoadPolicy::PerPath,
            },
        )
    }

    /// A family of exactly one file.
    pub fn exact(id: &'static str, exact_path: &'static str) -> (r: ContentFamilyDescriptorBuilder)
        ensures
            r@ == default_descriptor(id, ContentFamilyPathMatcher::Exact(exact_path)),
    {
        ContentFamilyDescriptorBuilder::from_descriptor(
            ContentFamilyDescriptor {
                id,
                matcher: ContentFamilyPathMatcher::Exact(exact_path),
                script_file_kind: ScriptFileKind::Other,
                module_name_rule: ModuleNameRule::FallbackParent,
                scope_policy: ContentFamilyScopePolicy {
                    root_scope: ScopeType::Unknown,
                    from_alias: None,
                    dynamic_scope: false,
                },
                capabilities: ContentFamilyCapabilities {
                    semantic_complete: false,
                    graph_ready: false,
                    merge_ready: false,
                },
                extractor: ContentFamilyExtractor::NoExtractor,
                merge_key_source: None,
                conflict_policy: ConflictPolicy::Rename,
                merge_policies: MergePolicies {
                    scalar: ScalarMergePolicy::LastWriter,
                    list: ListMergePolicy::Union,
                    block: BlockMergePolicy::Recursive,
                    boolean: BooleanMergePolicy::And,
                },
                load_policy: ContentLoadPolicy::PerPath,
            },
        )
    }
}

/// The parts of `s` between occurrences of `sep`, as `str::split` gives them.
pub open spec fn split_on(s: Seq<char>, sep: char) -> Seq<Seq<char>>
    decreases s.len(),
{
    if s.len() == 0 {
        seq![Seq::<char>::empty()]
    } else {
        let r = split_on(s.drop_last(), sep);
        if s.last() == sep {
            r.push(Seq::empty())
        } else {
            r.update(r.len() - 1, r.last().push(s.last()))
        }
    }
}

pub proof fn lemma_split_on_nonempty(s: Seq<char>, sep: char)
    ensures
        split_on(s, sep).len() >= 1,
    decreases s.len(),
{
    if s.len() > 0 {
        lemma_split_on_nonempty(s.drop_last(), sep);
    }
}

pub open spec fn char_views(v: Seq<Vec<char>>) -> Seq<Seq<char>> {
    v.map_values(|x: Vec<char>| x@)
}

pub fn split_chars(s: &Vec<char>, sep: char) -> (r: Vec<Vec<char>>)
    ensures
        char_views(r@) == split_on(s@, sep),
{
    let mut parts: Vec<Vec<char>> = Vec::new();
    let mut cur: Vec<char> = Vec::new();
    let mut i: usize = 0;
    assert(s@.subrange(0, 0) =~= Seq::<char>::empty());
    assert(char_views(parts@).push(cur@) =~= split_on(s@.subrange(0, 0), sep));
    while i < s.len()
        invariant
            i <= s.len(),
            char_views(parts@).push(cur@) == split_on(s@.subrange(0, i as int), sep),
        decreases s.len() - i,
    {
        let ghost prev = split_on(s@.subrange(0, i as int), sep);
        assert(s@.subrange(0, i + 1).drop_last() =~= s@.subrange(0, i as int));
        let ghost old_parts = char_views(parts@);
        if s[i] == sep {
            parts.push(cur);
            cur = Vec::new();
            assert(char_views(parts@) =~= old_parts.push(prev.last()));
            assert(old_parts.push(prev.last()) =~= prev);
            assert(char_views(parts@).push(cur@) =~= prev.push(Seq::empty()));
        } else {
            let ghost old_cur = cur@;
            cur.push(s[i]);
            assert(char_views(parts@).push(cur@) =~= prev.update(
                prev.len() - 1,
                prev.last().push(s@[i as int]),
            ));
        }
        i = i + 1;
    }
    assert(s@.subrange(0, s.len() as int) =~= s@);
    parts.push(cur);
    parts
}

/// `.` followed by each part in turn.
pub open spec fn dotted(parts: Seq<Seq<char>>) -> Seq<char>
    decreases parts.len(),
{
    if parts.len() == 0 {
        Seq::empty()
    } else {
        dotted(parts.drop_last()) + seq!['.'] + parts.last()
    }
}

/// The parts joined with `.` between them, as `[&str]::join(".")` gives.
pub open spec fn join_dots(parts: Seq<Seq<char>>) -> Seq<char> {
    if parts.len() == 0 {
        Seq::empty()
    } else {
        parts[0] + dotted(parts.drop_first())
    }
}

fn push_dotted(out: &mut Vec<char>, parts: &Vec<Vec<char>>, lo: usize, hi: usize)
    requires
        lo <= hi <= parts.len(),
    ensures
        final(out)@ == old(out)@ + dotted(char_views(parts@).subrange(lo as int, hi as int)),
{
    let mut i: usize = lo;
    assert(char_views(parts@).subrange(lo as int, lo as int) =~= Seq::<Seq<char>>::empty());
    assert(out@ =~= old(out)@ + dotted(char_views(parts@).subrange(lo as int, lo as int)));
    while i < hi
        invariant
            lo <= i <= hi <= parts.len(),
            out@ == old(out)@ + dotted(char_views(parts@).subrange(lo as int, i as int)),
        decreases hi - i,
    {
        out.push('.');
        let part = &parts[i];
        let mut j: usize = 0;
        let ghost base = out@;
        while j < part.len()
            invariant
                j <= part.len(),
                out@ == base + part@.subrange(0, j as int),
            decreases part.len() - j,
        {
            out.push(part[j]);
            j = j + 1;
            assert(out@ =~= base + part@.subrange(0, j as int));
        }
        assert(part@.subrange(0, part.len() as int) =~= part@);
        assert(char_views(parts@).subrange(lo as int, i + 1).drop_last() =~= char_views(
            parts@,
        ).subrange(lo as int, i as int));
        i = i + 1;
        assert(out@ =~= old(out)@ + dotted(char_views(parts@).subrange(lo as int, i as int)));
    }
}

/// A module named after the directories below the family's prefix:
/// `fallback.dir1.dir2` for `prefix/dir1/dir2/file`, `fallback` where there
/// are none.
pub open spec fn module_with_tail_spec(parts: Seq<Seq<char>>, prefix_len: nat, fallback: Seq<char>) -> Seq<char> {
    if parts.len() <= prefix_len + 1 {
        fallback
    } else {
        fallback + dotted(parts.subrange((prefix_len + 1) as int, parts.len() - 1))
    }
}

/// A module named after the file's directories, joined with `.`; `other`
/// for a file at the root.
pub open spec fn fallback_module_name_spec(parts: Seq<Seq<char>>) -> Seq<char> {
    if parts.len() <= 1 {
        "other"@
    } else {
        join_dots(parts.subrange(0, parts.len() - 1))
    }
}

pub fn module_with_tail(parts: &Vec<Vec<char>>, prefix_len: usize, fallback: &str) -> (r: String)
    ensures
        r@ == module_with_tail_spec(char_views(parts@), prefix_len as nat, fallback@),
{
    if parts.len() == 0 || parts.len() - 1 <= prefix_len {
        return fallback.to_owned();
    }
    let mut out = chars_of(fallback);
    push_dotted(&mut out, parts, prefix_len + 1, parts.len() - 1);
    string_from_chars(out.as_slice())
}

pub fn fallback_module_name(parts: &Vec<Vec<char>>) -> (r: String)
    ensures
        r@ == fallback_module_name_spec(char_views(parts@)),
{
    if parts.len() <= 1 {
        return "other".to_owned();
    }
    let mut out: Vec<char> = Vec::new();
    let first = &parts[0];
    let mut j: usize = 0;
    while j < first.len()
        invariant
            j <= first.len(),
            out@ == first@.subrange(0, j as int),
        decreases first.len() - j,
    {
        out.push(first[j]);
        j = j + 1;
        assert(out@ =~= first@.subrange(0, j as int));
    }
    assert(first@.subrange(0, first.len() as int) =~= first@);
    push_dotted(&mut out, parts, 1, parts.len() - 1);
    let ghost ps = char_views(parts@).subrange(0, parts.len() - 1);
    assert(ps.drop_first() =~= char_views(parts@).subrange(1, parts.len() - 1));
    string_from_chars(out.as_slice())
}

/// A path with its backslashes turned into slashes.
pub open spec fn slash_normalized(p: Seq<char>) -> Seq<char> {
    p.map_values(|c: char| if c == '\\' { '/' } else { c })
}

pub fn normalize_slashes(p: &str) -> (r: Vec<char>)
    ensures
        r@ == slash_normalized(p@),
{
    let cs = chars_of(p);
    let mut r: Vec<char> = Vec::new();
    let mut i: usize = 0;
    while i < cs.len()
        invariant
            i <= cs.len(),
            cs@ == p@,
            r@ == slash_normalized(cs@.subrange(0, i as int)),
        decreases cs.len() - i,
    {
        let c = cs[i];
        r.push(if c == '\\' { '/' } else { c });
        i = i + 1;
        assert(r@ =~= slash_normalized(cs@.subrange(0, i as int)));
    }
    assert(cs@.subrange(0, cs.len() as int) =~= cs@);
    r
}

/// The parts of a slash-normalized relative path.
pub open spec fn path_parts(relative: Seq<char>) -> Seq<Seq<char>> {
    split_on(slash_normalized(relative), '/')
}

/// The module name of a file of a family, by the family's naming rule.
pub open spec fn module_name_spec(relative: Seq<char>, rule: ModuleNameRule) -> Seq<char> {
    match rule {
        ModuleNameRule::Static(value) => value@,
        ModuleNameRule::Tail { prefix_len, fallback } => module_with_tail_spec(
            path_parts(relative),
            prefix_len as nat,
            fallback@,
        ),
        ModuleNameRule::FallbackParent => fallback_module_name_spec(path_parts(relative)),
    }
}

pub fn module_name_for_descriptor(relative: &str, descriptor: &ContentFamilyDescriptor) -> (r: String)
    ensures
        r@ == module_name_spec(relative@, descriptor.module_name_rule),
{
    let normalized = normalize_slashes(relative);
    let parts = split_chars(&normalized, '/');
    match descriptor.module_name_rule {
        ModuleNameRule::Static(value) => value.to_owned(),
        ModuleNameRule::Tail { prefix_len, fallback } => module_with_tail(&parts, prefix_len, fallback),
        ModuleNameRule::FallbackParent => fallback_module_name(&parts),
    }
}

} // verus!
