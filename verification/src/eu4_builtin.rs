//! The EU4 builtin catalog: reserved, contextual and alias keywords and the
//! builtin triggers, effects, scope changers, iterators, special blocks and
//! game-only candidates. Lookups are case-insensitive in the ASCII range, as
//! the engine's own keyword matching is; the name lists are sorted and free
//! of duplicates.

use vstd::prelude::*;
use crate::ordered::{contains_sorted, sorted_unique, strictly_sorted, views};
use crate::text::{
    chars_of, contains_ascii_upper, has_ascii_upper, lemma_lower_seq_props, lower_chars, lower_seq,
    push, string_from_chars,
};

verus! {

/// One named entry of the catalog.
pub struct BuiltinSymbol {
    pub name: String,
}

/// The catalog as the data file lists it; a missing list is an empty one.
pub struct BuiltinCatalog {
    pub reserved_keywords: Vec<String>,
    pub contextual_keywords: Vec<String>,
    pub alias_keywords: Vec<String>,
    pub builtin_triggers: Vec<BuiltinSymbol>,
    pub builtin_effects: Vec<BuiltinSymbol>,
    pub builtin_scope_changers: Vec<BuiltinSymbol>,
    pub builtin_iterators: Vec<BuiltinSymbol>,
    pub builtin_special_blocks: Vec<BuiltinSymbol>,
    pub game_only_candidates: Vec<BuiltinSymbol>,
}

/// The groups of names in the catalog.
#[derive(Clone, Copy, Debug, PartialEq, Eq, Structural)]
pub enum BuiltinGroup {
    Reserved,
    Contextual,
    Alias,
    Trigger,
    Effect,
    ScopeChanger,
    Iterator,
    SpecialBlock,
    GameOnly,
}

pub open spec fn string_views(v: Seq<String>) -> Seq<Seq<char>> {
    v.map_values(|s: String| s@)
}

pub open spec fn symbol_names(v: Seq<BuiltinSymbol>) -> Seq<Seq<char>> {
    v.map_values(|s: BuiltinSymbol| s.name@)
}

/// The names that the catalog lists in a group, in the file's order.
pub open spec fn catalog_names(c: &BuiltinCatalog, g: BuiltinGroup) -> Seq<Seq<char>> {
    match g {
        BuiltinGroup::Reserved => string_views(c.reserved_keywords@),
        BuiltinGroup::Contextual => string_views(c.contextual_keywords@),
        BuiltinGroup::Alias => string_views(c.alias_keywords@),
        BuiltinGroup::Trigger => symbol_names(c.builtin_triggers@),
        BuiltinGroup::Effect => symbol_names(c.builtin_effects@),
        BuiltinGroup::ScopeChanger => symbol_names(c.builtin_scope_changers@),
        BuiltinGroup::Iterator => symbol_names(c.builtin_iterators@),
        BuiltinGroup::SpecialBlock => symbol_names(c.builtin_special_blocks@),
        BuiltinGroup::GameOnly => symbol_names(c.game_only_candidates@),
    }
}

/// The lower-cased forms of a list of names.
pub open spec fn lowered_names(names: Seq<Seq<char>>) -> Set<Seq<char>> {
    names.map_values(|n: Seq<char>| lower_seq(n)).to_set()
}

/// The loaded catalog: for each group a sorted, duplicate-free list of the
/// names as written, and the sorted set of their lower-cased forms.
pub struct BuiltinLookup {
    reserved: Vec<Vec<char>>,
    contextual: Vec<Vec<char>>,
    aliases: Vec<Vec<char>>,
    triggers: Vec<Vec<char>>,
    effects: Vec<Vec<char>>,
    scope_changers: Vec<Vec<char>>,
    iterators: Vec<Vec<char>>,
    special_blocks: Vec<Vec<char>>,
    game_only: Vec<Vec<char>>,
    reserved_list: Vec<String>,
    contextual_list: Vec<String>,
    aliases_list: Vec<String>,
    triggers_list: Vec<String>,
    effects_list: Vec<String>,
    scope_changers_list: Vec<String>,
    iterators_list: Vec<String>,
    special_blocks_list: Vec<String>,
}

/// A lower-cased set: sorted, and each element its own lower-cased form.
pub open spec fn lowered_ok(s: Seq<Seq<char>>) -> bool {
    &&& strictly_sorted(s)
    &&& forall|i: int| 0 <= i < s.len() ==> lower_seq(#[trigger] s[i]) == s[i]
}

impl BuiltinLookup {
    /// The sorted lower-cased names of a group.
    pub closed spec fn lowered(&self, g: BuiltinGroup) -> Seq<Seq<char>> {
        views(self.lowered_vec(g)@)
    }

    spec fn lowered_vec(&self, g: BuiltinGroup) -> Vec<Vec<char>> {
        match g {
            BuiltinGroup::Reserved => self.reserved,
            BuiltinGroup::Contextual => self.contextual,
            BuiltinGroup::Alias => self.aliases,
            BuiltinGroup::Trigger => self.triggers,
            BuiltinGroup::Effect => self.effects,
            BuiltinGroup::ScopeChanger => self.scope_changers,
            BuiltinGroup::Iterator => self.iterators,
            BuiltinGroup::SpecialBlock => self.special_blocks,
            BuiltinGroup::GameOnly => self.game_only,
        }
    }

    /// The sorted names of a group as the catalog writes them; the game-only
    /// candidates keep no such list.
    pub closed spec fn listed(&self, g: BuiltinGroup) -> Seq<Seq<char>> {
        match g {
            BuiltinGroup::Reserved => string_views(self.reserved_list@),
            BuiltinGroup::Contextual => string_views(self.contextual_list@),
            BuiltinGroup::Alias => string_views(self.aliases_list@),
            BuiltinGroup::Trigger => string_views(self.triggers_list@),
            BuiltinGroup::Effect => string_views(self.effects_list@),
            BuiltinGroup::ScopeChanger => string_views(self.scope_changers_list@),
            BuiltinGroup::Iterator => string_views(self.iterators_list@),
            BuiltinGroup::SpecialBlock => string_views(self.special_blocks_list@),
            BuiltinGroup::GameOnly => Seq::empty(),
        }
    }

    /// Whether `key` names a member of the group, ignoring ASCII case.
    pub open spec fn recognises(&self, g: BuiltinGroup, key: Seq<char>) -> bool {
        self.lowered(g).contains(lower_seq(key))
    }

    #[verifier::type_invariant]
    spec fn well_formed(&self) -> bool {
        &&& forall|g: BuiltinGroup| #[trigger] lowered_ok(self.lowered(g))
        &&& forall|g: BuiltinGroup| strictly_sorted(#[trigger] self.listed(g))
        &&& forall|g: BuiltinGroup|
            g != BuiltinGroup::GameOnly ==> #[trigger] self.lowered(g).to_set() == lowered_names(self.listed(g))
    }
}

/// Two lists with the same names have the same lower-cased names.
proof fn lemma_lowered_names_of_same_names(a: Seq<Seq<char>>, b: Seq<Seq<char>>)
    requires
        a.to_set() == b.to_set(),
    ensures
        lowered_names(a) == lowered_names(b),
{
    assert forall|k: Seq<char>| lowered_names(a).contains(k) implies lowered_names(b).contains(k) by {
        let lm = a.map_values(|n: Seq<char>| lower_seq(n));
        let i = choose|i: int| 0 <= i < lm.len() && #[trigger] lm[i] == k;
        assert(a.to_set().contains(a[i]));
        let j = choose|j: int| 0 <= j < b.len() && b[j] == a[i];
        assert(b.map_values(|n: Seq<char>| lower_seq(n))[j] == k);
    }
    assert forall|k: Seq<char>| lowered_names(b).contains(k) implies lowered_names(a).contains(k) by {
        let lm = b.map_values(|n: Seq<char>| lower_seq(n));
        let i = choose|i: int| 0 <= i < lm.len() && #[trigger] lm[i] == k;
        assert(b.to_set().contains(b[i]));
        let j = choose|j: int| 0 <= j < a.len() && a[j] == b[i];
        assert(a.map_values(|n: Seq<char>| lower_seq(n))[j] == k);
    }
    assert(lowered_names(a) =~= lowered_names(b));
}

/// The character vectors of a list of names.
fn keys_of_strings(v: &Vec<String>) -> (r: Vec<Vec<char>>)
    ensures
        views(r@) == string_views(v@),
{
    let mut r: Vec<Vec<char>> = Vec::new();
    let mut i: usize = 0;
    while i < v.len()
        invariant
            i <= v.len(),
            views(r@) == string_views(v@.subrange(0, i as int)),
        decreases v.len() - i,
    {
        let c = chars_of(v[i].as_str());
        assert(c@ == v@[i as int]@);
        r.push(c);
        assert(string_views(v@.subrange(0, i + 1)) =~= string_views(v@.subrange(0, i as int)).push(
            v@[i as int]@,
        ));
        i = i + 1;
        assert(views(r@) =~= string_views(v@.subrange(0, i as int)));
    }
    assert(v@.subrange(0, v.len() as int) =~= v@);
    r
}

fn keys_of_symbols(v: &Vec<BuiltinSymbol>) -> (r: Vec<Vec<char>>)
    ensures
        views(r@) == symbol_names(v@),
{
    let mut r: Vec<Vec<char>> = Vec::new();
    let mut i: usize = 0;
    while i < v.len()
        invariant
            i <= v.len(),
            views(r@) == symbol_names(v@.subrange(0, i as int)),
        decreases v.len() - i,
    {
        let c = chars_of(v[i].name.as_str());
        assert(c@ == v@[i as int].name@);
        r.push(c);
        assert(symbol_names(v@.subrange(0, i + 1)) =~= symbol_names(v@.subrange(0, i as int)).push(
            v@[i as int].name@,
        ));
        i = i + 1;
        assert(views(r@) =~= symbol_names(v@.subrange(0, i as int)));
    }
    assert(v@.subrange(0, v.len() as int) =~= v@);
    r
}

/// Strings built from character vectors, one for one.
fn strings_of_keys(v: &Vec<Vec<char>>) -> (r: Vec<String>)
    ensures
        string_views(r@) == views(v@),
{
    let mut r: Vec<String> = Vec::new();
    let mut i: usize = 0;
    while i < v.len()
        invariant
            i <= v.len(),
            string_views(r@) == views(v@.subrange(0, i as int)),
        decreases v.len() - i,
    {
        let t = string_from_chars(v[i].as_slice());
        assert(t@ == v@[i as int]@);
        r.push(t);
        assert(views(v@.subrange(0, i + 1)) =~= views(v@.subrange(0, i as int)).push(
            v@[i as int]@,
        ));
        i = i + 1;
        assert(string_views(r@) =~= views(v@.subrange(0, i as int)));
    }
    assert(v@.subrange(0, v.len() as int) =~= v@);
    r
}

/// The sorted set of the lower-cased forms of `keys`.
fn lowered_set(keys: &Vec<Vec<char>>) -> (r: Vec<Vec<char>>)
    ensures
        lowered_ok(views(r@)),
        views(r@).to_set() == lowered_names(views(keys@)),
{
    let mut low: Vec<Vec<char>> = Vec::new();
    let mut i: usize = 0;
    while i < keys.len()
        invariant
            i <= keys.len(),
            views(low@) == views(keys@).subrange(0, i as int).map_values(
                |n: Seq<char>| lower_seq(n),
            ),
        decreases keys.len() - i,
    {
        let l = lower_chars(&keys[i]);
        assert(l@ == lower_seq(views(keys@)[i as int]));
        low.push(l);
        assert(views(keys@).subrange(0, i + 1).map_values(|n: Seq<char>| lower_seq(n))
            =~= views(keys@).subrange(0, i as int).map_values(|n: Seq<char>| lower_seq(n)).push(
            lower_seq(views(keys@)[i as int]),
        ));
        i = i + 1;
        assert(views(low@) =~= views(keys@).subrange(0, i as int).map_values(
            |n: Seq<char>| lower_seq(n),
        ));
    }
    assert(views(keys@).subrange(0, keys.len() as int) =~= views(keys@));
    let r = sorted_unique(&low);
    assert forall|i: int| 0 <= i < views(r@).len() implies lower_seq(#[trigger] views(r@)[i])
        == views(r@)[i] by {
        assert(views(r@).contains(views(r@)[i]));
        assert(views(low@).contains(views(r@)[i]));
        let k = choose|k: int| 0 <= k < views(low@).len() && views(low@)[k] == views(r@)[i];
        lemma_lower_seq_props(views(keys@)[k]);
    }
    assert(views(r@).to_set() =~= lowered_names(views(keys@)));
    r
}

/// The sorted, duplicate-free list of `keys` as strings.
fn sorted_names(keys: &Vec<Vec<char>>) -> (r: Vec<String>)
    ensures
        strictly_sorted(string_views(r@)),
        string_views(r@).to_set() == views(keys@).to_set(),
{
    let sorted = sorted_unique(keys);
    let r = strings_of_keys(&sorted);
    assert(string_views(r@).to_set() =~= views(keys@).to_set());
    r
}

/// Loads the catalog: sorts and de-duplicates each list of names and builds
/// the lower-cased sets that the lookups search.
pub fn load_lookup(catalog: &BuiltinCatalog) -> (r: BuiltinLookup)
    ensures
        forall|g: BuiltinGroup| #[trigger] r.lowered(g).to_set() == lowered_names(catalog_names(catalog, g)),
        forall|g: BuiltinGroup|
            g != BuiltinGroup::GameOnly ==> (#[trigger] r.listed(g)).to_set() == catalog_names(
                catalog,
                g,
            ).to_set(),
        forall|g: BuiltinGroup| strictly_sorted(#[trigger] r.listed(g)),
{
    let reserved_keys = keys_of_strings(&catalog.reserved_keywords);
    let contextual_keys = keys_of_strings(&catalog.contextual_keywords);
    let alias_keys = keys_of_strings(&catalog.alias_keywords);
    let trigger_keys = keys_of_symbols(&catalog.builtin_triggers);
    let effect_keys = keys_of_symbols(&catalog.builtin_effects);
    let scope_changer_keys = keys_of_symbols(&catalog.builtin_scope_changers);
    let iterator_keys = keys_of_symbols(&catalog.builtin_iterators);
    let special_block_keys = keys_of_symbols(&catalog.builtin_special_blocks);
    let game_only_keys = keys_of_symbols(&catalog.game_only_candidates);
    let reserved = lowered_set(&reserved_keys);
    let contextual = lowered_set(&contextual_keys);
    let aliases = lowered_set(&alias_keys);
    let triggers = lowered_set(&trigger_keys);
    let effects = lowered_set(&effect_keys);
    let scope_changers = lowered_set(&scope_changer_keys);
    let iterators = lowered_set(&iterator_keys);
    let special_blocks = lowered_set(&special_block_keys);
    let reserved_list = sorted_names(&reserved_keys);
    let contextual_list = sorted_names(&contextual_keys);
    let aliases_list = sorted_names(&alias_keys);
    let triggers_list = sorted_names(&trigger_keys);
    let effects_list = sorted_names(&effect_keys);
    let scope_changers_list = sorted_names(&scope_changer_keys);
    let iterators_list = sorted_names(&iterator_keys);
    let special_blocks_list = sorted_names(&special_block_keys);
    proof {
        lemma_lowered_names_of_same_names(string_views(reserved_list@), views(reserved_keys@));
        lemma_lowered_names_of_same_names(string_views(contextual_list@), views(contextual_keys@));
        lemma_lowered_names_of_same_names(string_views(aliases_list@), views(alias_keys@));
        lemma_lowered_names_of_same_names(string_views(triggers_list@), views(trigger_keys@));
        lemma_lowered_names_of_same_names(string_views(effects_list@), views(effect_keys@));
        lemma_lowered_names_of_same_names(string_views(scope_changers_list@), views(scope_changer_keys@));
        lemma_lowered_names_of_same_names(string_views(iterators_list@), views(iterator_keys@));
        lemma_lowered_names_of_same_names(string_views(special_blocks_list@), views(special_block_keys@));
    }
    let r = BuiltinLookup {
        reserved,
        contextual,
        aliases,
        triggers,
        effects,
        scope_changers,
        iterators,
        special_blocks,
        game_only: lowered_set(&game_only_keys),
        reserved_list,
        contextual_list,
        aliases_list,
        triggers_list,
        effects_list,
        scope_changers_list,
        iterators_list,
        special_blocks_list,
    };
    assert(strictly_sorted(Seq::<Seq<char>>::empty()));
    r
}

/// Membership in a lower-cased set, ignoring ASCII case: the key as written
/// is tried first, and its lower-cased form only when it holds a capital.
pub fn matches_lower(set: &Vec<Vec<char>>, key: &str) -> (r: bool)
    requires
        lowered_ok(views(set@)),
    ensures
        r == views(set@).contains(lower_seq(key@)),
{
    let k = chars_of(key);
    proof {
        lemma_lower_seq_props(k@);
    }
    if contains_sorted(set, &k) {
        let ghost i = choose|i: int| 0 <= i < views(set@).len() && views(set@)[i] == k@;
        assert(lower_seq(views(set@)[i]) == views(set@)[i]);
        return true;
    }
    if contains_ascii_upper(&k) {
        let low = lower_chars(&k);
        contains_sorted(set, &low)
    } else {
        false
    }
}

fn lookup_set(lookup: &BuiltinLookup, g: BuiltinGroup) -> (r: &Vec<Vec<char>>)
    ensures
        views(r@) == lookup.lowered(g),
        lowered_ok(views(r@)),
{
    proof {
        use_type_invariant(lookup);
        assert(lowered_ok(lookup.lowered(g)));
    }
    match g {
        BuiltinGroup::Reserved => &lookup.reserved,
        BuiltinGroup::Contextual => &lookup.contextual,
        BuiltinGroup::Alias => &lookup.aliases,
        BuiltinGroup::Trigger => &lookup.triggers,
        BuiltinGroup::Effect => &lookup.effects,
        BuiltinGroup::ScopeChanger => &lookup.scope_changers,
        BuiltinGroup::Iterator => &lookup.iterators,
        BuiltinGroup::SpecialBlock => &lookup.special_blocks,
        BuiltinGroup::GameOnly => &lookup.game_only,
    }
}

pub fn is_reserved_keyword(lookup: &BuiltinLookup, key: &str) -> (r: bool)
    ensures
        r == lookup.recognises(BuiltinGroup::Reserved, key@),
{
    matches_lower(lookup_set(lookup, BuiltinGroup::Reserved), key)
}

pub fn is_contextual_keyword(lookup: &BuiltinLookup, key: &str) -> (r: bool)
    ensures
        r == lookup.recognises(BuiltinGroup::Contextual, key@),
{
    matches_lower(lookup_set(lookup, BuiltinGroup::Contextual), key)
}

pub fn is_alias_keyword(lookup: &BuiltinLookup, key: &str) -> (r: bool)
    ensures
        r == lookup.recognises(BuiltinGroup::Alias, key@),
{
    matches_lower(lookup_set(lookup, BuiltinGroup::Alias), key)
}

pub fn is_builtin_trigger(lookup: &BuiltinLookup, key: &str) -> (r: bool)
    ensures
        r == lookup.recognises(BuiltinGroup::Trigger, key@),
{
    matches_lower(lookup_set(lookup, BuiltinGroup::Trigger), key)
}

pub fn is_builtin_effect(lookup: &BuiltinLookup, key: &str) -> (r: bool)
    ensures
        r == lookup.recognises(BuiltinGroup::Effect, key@),
{
    matches_lower(lookup_set(lookup, BuiltinGroup::Effect), key)
}

pub fn is_builtin_scope_changer(lookup: &BuiltinLookup, key: &str) -> (r: bool)
    ensures
        r == lookup.recognises(BuiltinGroup::ScopeChanger, key@),
{
    matches_lower(lookup_set(lookup, BuiltinGroup::ScopeChanger), key)
}

pub fn is_builtin_iterator(lookup: &BuiltinLookup, key: &str) -> (r: bool)
    ensures
        r == lookup.recognises(BuiltinGroup::Iterator, key@),
{
    matches_lower(lookup_set(lookup, BuiltinGroup::Iterator), key)
}

pub fn is_builtin_special_block(lookup: &BuiltinLookup, key: &str) -> (r: bool)
    ensures
        r == lookup.recognises(BuiltinGroup::SpecialBlock, key@),
{
    matches_lower(lookup_set(lookup, BuiltinGroup::SpecialBlock), key)
}

pub fn is_game_only_candidate(lookup: &BuiltinLookup, key: &str) -> (r: bool)
    ensures
        r == lookup.recognises(BuiltinGroup::GameOnly, key@),
{
    matches_lower(lookup_set(lookup, BuiltinGroup::GameOnly), key)
}

pub fn reserved_keywords(lookup: &BuiltinLookup) -> (r: &[String])
    ensures
        string_views(r@) == lookup.listed(BuiltinGroup::Reserved),
        strictly_sorted(string_views(r@)),
        forall|k: Seq<char>|
            lookup.recognises(BuiltinGroup::Reserved, k) <==> exists|i: int|
                0 <= i < r@.len() && lower_seq(#[trigger] r@[i]@) == lower_seq(k),
{
    proof {
        use_type_invariant(lookup);
        let listed = lookup.listed(BuiltinGroup::Reserved);
        assert(lookup.lowered(BuiltinGroup::Reserved).to_set() == lowered_names(listed));
        assert forall|k: Seq<char>|
            lookup.recognises(BuiltinGroup::Reserved, k) <==> exists|i: int|
                0 <= i < lookup.reserved_list@.len() && lower_seq(#[trigger] lookup.reserved_list@[i]@) == lower_seq(k) by {
            if lookup.recognises(BuiltinGroup::Reserved, k) {
                assert(lookup.lowered(BuiltinGroup::Reserved).to_set().contains(lower_seq(k)));
                let lm = listed.map_values(|n: Seq<char>| lower_seq(n));
                let i = choose|i: int| 0 <= i < lm.len() && #[trigger] lm[i] == lower_seq(k);
                assert(lower_seq(lookup.reserved_list@[i]@) == lower_seq(k));
            }
            if exists|i: int| 0 <= i < lookup.reserved_list@.len() && lower_seq(#[trigger] lookup.reserved_list@[i]@) == lower_seq(k) {
                let i = choose|i: int| 0 <= i < lookup.reserved_list@.len() && lower_seq(#[trigger] lookup.reserved_list@[i]@) == lower_seq(k);
                assert(listed.map_values(|n: Seq<char>| lower_seq(n))[i] == lower_seq(k));
                assert(lowered_names(listed).contains(lower_seq(k)));
                assert(lookup.lowered(BuiltinGroup::Reserved).to_set().contains(lower_seq(k)));
            }
        }
    }
    lookup.reserved_list.as_slice()
}

pub fn contextual_keywords(lookup: &BuiltinLookup) -> (r: &[String])
    ensures
        string_views(r@) == lookup.listed(BuiltinGroup::Contextual),
{
    lookup.contextual_list.as_slice()
}

pub fn alias_keywords(lookup: &BuiltinLookup) -> (r: &[String])
    ensures
        string_views(r@) == lookup.listed(BuiltinGroup::Alias),
{
    lookup.aliases_list.as_slice()
}

pub fn builtin_trigger_names(lookup: &BuiltinLookup) -> (r: &[String])
    ensures
        string_views(r@) == lookup.listed(BuiltinGroup::Trigger),
{
    lookup.triggers_list.as_slice()
}

pub fn builtin_effect_names(lookup: &BuiltinLookup) -> (r: &[String])
    ensures
        string_views(r@) == lookup.listed(BuiltinGroup::Effect),
{
    lookup.effects_list.as_slice()
}

pub fn builtin_scope_changer_names(lookup: &BuiltinLookup) -> (r: &[String])
    ensures
        string_views(r@) == lookup.listed(BuiltinGroup::ScopeChanger),
{
    lookup.scope_changers_list.as_slice()
}

pub fn builtin_iterator_names(lookup: &BuiltinLookup) -> (r: &[String])
    ensures
        string_views(r@) == lookup.listed(BuiltinGroup::Iterator),
{
    lookup.iterators_list.as_slice()
}

pub fn builtin_special_block_names(lookup: &BuiltinLookup) -> (r: &[String])
    ensures
        string_views(r@) == lookup.listed(BuiltinGroup::SpecialBlock),
{
    lookup.special_blocks_list.as_slice()
}

/// Case-insensitive matching: once the catalog is loaded, a key is
/// recognised in a group exactly when the group lists a name that equals the
/// key up to ASCII case (`LIMIT`, `Limit` and `limit` alike).
pub proof fn lemma_loaded_lookup_ignores_case(
    catalog: &BuiltinCatalog,
    lookup: &BuiltinLookup,
    g: BuiltinGroup,
    key: Seq<char>,
)
    requires
        lookup.lowered(g).to_set() == lowered_names(catalog_names(catalog, g)),
    ensures
        lookup.recognises(g, key) <==> exists|i: int|
            0 <= i < catalog_names(catalog, g).len() && lower_seq(
                #[trigger] catalog_names(catalog, g)[i],
            ) == lower_seq(key),
{
    let names = catalog_names(catalog, g);
    let low = names.map_values(|n: Seq<char>| lower_seq(n));
    assert(lookup.lowered(g).to_set().contains(lower_seq(key)) == lookup.lowered(g).contains(
        lower_seq(key),
    ));
    if lookup.recognises(g, key) {
        assert(low.to_set().contains(lower_seq(key)));
        let i = choose|i: int| 0 <= i < low.len() && low[i] == lower_seq(key);
        assert(lower_seq(names[i]) == lower_seq(key));
    }
    if exists|i: int| 0 <= i < names.len() && lower_seq(#[trigger] names[i]) == lower_seq(key) {
        let i = choose|i: int| 0 <= i < names.len() && lower_seq(#[trigger] names[i]) == lower_seq(
            key,
        );
        assert(low[i] == lower_seq(key));
        assert(low.to_set().contains(lower_seq(key)));
    }
}

/// The SHA-256 digest of a byte sequence.
pub uninterp spec fn sha256_digest(data: Seq<u8>) -> Seq<u8>;

/// `Sha256::digest` of the `sha2` crate (the `Digest` trait of `digest`):
/// the SHA-256 digest of `data`, 32 bytes long. The contract names the digest
/// and states its length; which bytes it holds is not stated.
#[verifier::external_body]
fn sha256(data: &[u8]) -> (d: Vec<u8>)
    ensures
        d@ == sha256_digest(data@),
        d@.len() == 32,
{
    <sha2::Sha256 as sha2::Digest>::digest(data).to_vec()
}

/// The lower-case hexadecimal digit for `n`.
pub open spec fn hex_digit(n: u8) -> char {
    if n < 10 {
        ((48 + n) as u8) as char
    } else {
        ((87 + n) as u8) as char
    }
}

/// Two lower-case hexadecimal digits per byte, high nibble first.
pub open spec fn hex_of(bytes: Seq<u8>) -> Seq<char>
    decreases bytes.len(),
{
    if bytes.len() == 0 {
        Seq::empty()
    } else {
        hex_of(bytes.drop_last()) + seq![
            hex_digit(bytes.last() / 16),
            hex_digit(bytes.last() % 16),
        ]
    }
}

fn hex_digit_char(n: u8) -> (c: char)
    requires
        n < 16,
    ensures
        c == hex_digit(n),
{
    if n < 10 {
        (48 + n) as char
    } else {
        (87 + n) as char
    }
}

/// The catalog's fingerprint: the first eight bytes of the SHA-256 digest
/// of its raw text, as sixteen lower-case hexadecimal digits.
pub fn builtin_catalog_hash(raw: &str) -> (r: String)
    ensures
        r@ == hex_of(sha256_digest(vstd::utf8::encode_utf8(raw@)).subrange(0, 8)),
{
    let digest = sha256(raw.as_bytes());
    let mut out = String::new();
    let mut i: usize = 0;
    while i < 8
        invariant
            i <= 8,
            digest@.len() == 32,
            out@ == hex_of(digest@.subrange(0, i as int)),
        decreases 8 - i,
    {
        let b = digest[i];
        push(&mut out, hex_digit_char(b / 16));
        push(&mut out, hex_digit_char(b % 16));
        assert(digest@.subrange(0, i + 1).drop_last() =~= digest@.subrange(0, i as int));
        i = i + 1;
        assert(out@ =~= hex_of(digest@.subrange(0, i as int)));
    }
    out
}

} // verus!
