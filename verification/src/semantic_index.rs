//! Key and path classifiers of the semantic index: the kind of script a file
//! holds, map group files, module and symbol names, and the keys that the
//! index treats as keywords, aliases, decision containers or UI elements.

use vstd::prelude::*;
use crate::content_family::{
    module_name_for_descriptor, module_name_spec, ContentFamilyDescriptor,
    fallback_module_name, fallback_module_name_spec, normalize_slashes, path_parts,
    slash_normalized, split_chars, ScriptFileKind,
};
use crate::eu4_builtin::{is_contextual_keyword, is_reserved_keyword, BuiltinGroup, BuiltinLookup};
use crate::eu4_profile::{eu4_profile, Eu4Profile, GameProfile};
use crate::analysis::{is_param_char, trim_chars};
use crate::eu4_builtin::string_views;
use crate::ordered::{insert_unique, strictly_sorted, to_strings, views};
use crate::parser::{scalar_text, AstFile, AstStatement, AstValue, ParseDiagnostic, ParseResult};
use crate::scope_tree::{event_scope, kind_at, MapGroupLookup, ScopeTree};
use crate::model::{ParseIssue, ScopeKind};
use crate::text::{
    chars_eq, chars_of, eq_lit, has_suffix, lower_chars, lower_seq, str_ends_with, str_eq,
    string_from_chars, trimmed,
};

verus! {

/// The kind of script at a mod-relative path: that of its content family,
/// `Other` where no family accepts the path.
pub open spec fn script_file_kind_of(relative: Seq<char>) -> ScriptFileKind {
    match Eu4Profile.classified(relative) {
        Some(d) => d.script_file_kind,
        None => ScriptFileKind::Other,
    }
}

pub fn classify_script_file(relative: &str) -> (r: ScriptFileKind)
    ensures
        r == script_file_kind_of(relative@),
{
    match eu4_profile().classify_content_family(relative) {
        Some(descriptor) => descriptor.script_file_kind,
        None => ScriptFileKind::Other,
    }
}

/// The map files that define groups of provinces.
pub open spec fn is_map_group_path(p: Seq<char>) -> bool {
    p == "map/area.txt"@ || p == "map/region.txt"@ || p == "map/superregion.txt"@ || p
        == "map/continent.txt"@ || p == "map/provincegroup.txt"@
}

pub fn is_map_group_file(relative_path: &str) -> (r: bool)
    ensures
        r == is_map_group_path(slash_normalized(relative_path@)),
{
    let p = normalize_slashes(relative_path);
    chars_eq(&p, &chars_of("map/area.txt")) || chars_eq(&p, &chars_of("map/region.txt"))
        || chars_eq(&p, &chars_of("map/superregion.txt")) || chars_eq(
        &p,
        &chars_of("map/continent.txt"),
    ) || chars_eq(&p, &chars_of("map/provincegroup.txt"))
}

/// The module of a file that no content family names: its directories
/// joined with `.`, or `other` at the root.
pub fn fallback_module_name_from_relative(relative: &str) -> (r: String)
    ensures
        r@ == fallback_module_name_spec(path_parts(relative@)),
{
    let normalized = normalize_slashes(relative);
    let parts = split_chars(&normalized, '/');
    fallback_module_name(&parts)
}

/// The qualified name of a symbol: `eu4::<module>::<local>`.
pub fn qualify_symbol_name(module: &str, local: &str) -> (r: String)
    ensures
        r@ == "eu4::"@ + module@ + "::"@ + local@,
{
    let mut out = chars_of("eu4::");
    out.append(&mut chars_of(module));
    out.append(&mut chars_of("::"));
    out.append(&mut chars_of(local));
    string_from_chars(out.as_slice())
}

/// The monarch power a category names.
pub fn monarch_power_prefix(value: &str) -> (r: Option<&'static str>)
    ensures
        r == (if value@ == "ADM"@ {
            Some("adm")
        } else if value@ == "DIP"@ {
            Some("dip")
        } else if value@ == "MIL"@ {
            Some("mil")
        } else {
            None
        }),
{
    if str_eq(value, "ADM") {
        Some("adm")
    } else if str_eq(value, "DIP") {
        Some("dip")
    } else if str_eq(value, "MIL") {
        Some("mil")
    } else {
        None
    }
}

/// The scope aliases.
pub open spec fn is_alias(k: Seq<char>) -> bool {
    k == "ROOT"@ || k == "FROM"@ || k == "THIS"@ || k == "PREV"@
}

pub fn is_alias_key(key: &str) -> (r: bool)
    ensures
        r == is_alias(key@),
{
    str_eq(key, "ROOT") || str_eq(key, "FROM") || str_eq(key, "THIS") || str_eq(key, "PREV")
}

/// The blocks that hold decisions.
pub open spec fn is_decision_container(k: Seq<char>) -> bool {
    k == "country_decisions"@ || k == "province_decisions"@ || k == "religion_decisions"@ || k
        == "government_decisions"@
}

pub fn is_decision_container_key(key: &str) -> (r: bool)
    ensures
        r == is_decision_container(key@),
{
    str_eq(key, "country_decisions") || str_eq(key, "province_decisions") || str_eq(
        key,
        "religion_decisions",
    ) || str_eq(key, "government_decisions")
}

/// A keyword: a reserved or contextual keyword of the catalog, or
/// `condition` or `from`.
pub open spec fn is_keyword_name(lookup: BuiltinLookup, k: Seq<char>) -> bool {
    lookup.recognises(BuiltinGroup::Reserved, k) || lookup.recognises(BuiltinGroup::Contextual, k)
        || k == "condition"@ || k == "from"@
}

pub fn is_keyword(lookup: &BuiltinLookup, key: &str) -> (r: bool)
    ensures
        r == is_keyword_name(*lookup, key@),
{
    if is_reserved_keyword(lookup, key) || is_contextual_keyword(lookup, key) {
        return true;
    }
    str_eq(key, "condition") || str_eq(key, "from")
}

/// A key that opens a UI element container.
pub open spec fn is_ui_container(k: Seq<char>) -> bool {
    has_suffix(k, "Type"@) || k == "containerWindow"@ || k == "window"@ || k == "button"@ || k
        == "icon"@ || k == "sprite"@ || k == "shield"@
}

pub fn looks_like_ui_container_key(key: &str) -> (r: bool)
    ensures
        r == is_ui_container(key@),
{
    str_ends_with(key, "Type") || str_eq(key, "containerWindow") || str_eq(key, "window")
        || str_eq(key, "button") || str_eq(key, "icon") || str_eq(key, "sprite") || str_eq(
        key,
        "shield",
    )
}

/// A character that may stand in a UI identifier.
pub open spec fn is_ui_identifier_char(c: char) -> bool {
    ('A' <= c <= 'Z') || ('a' <= c <= 'z') || ('0' <= c <= '9') || c == '_' || c == '.' || c
        == '-' || c == ':'
}

/// A UI identifier: 1 to 128 characters, each a letter, digit, `_`, `.`,
/// `-` or `:`.
pub open spec fn is_ui_identifier(v: Seq<char>) -> bool {
    0 < v.len() <= 128 && forall|i: int| 0 <= i < v.len() ==> is_ui_identifier_char(#[trigger] v[i])
}

pub fn is_ui_identifier_candidate(value: &str) -> (r: bool)
    ensures
        r == is_ui_identifier(value@),
{
    let cs = chars_of(value);
    if cs.len() == 0 || cs.len() > 128 {
        return false;
    }
    let mut i: usize = 0;
    while i < cs.len()
        invariant
            i <= cs.len(),
            cs@ == value@,
            forall|k: int| 0 <= k < i ==> is_ui_identifier_char(#[trigger] cs@[k]),
        decreases cs.len() - i,
    {
        let c = cs[i];
        if !(('A' <= c && c <= 'Z') || ('a' <= c && c <= 'z') || ('0' <= c && c <= '9') || c
            == '_' || c == '.' || c == '-' || c == ':') {
            return false;
        }
        i = i + 1;
    }
    true
}

/// The keys that name a UI resource.
pub open spec fn is_ui_resource(k: Seq<char>) -> bool {
    k == "spriteType"@ || k == "buttonSprite"@ || k == "quadTextureSprite"@ || k == "texturefile"@
        || k == "icon"@ || k == "iconType"@ || k == "pdxmesh"@ || k == "mesh"@
}

pub fn is_ui_resource_key(key: &str) -> (r: bool)
    ensures
        r == is_ui_resource(key@),
{
    str_eq(key, "spriteType") || str_eq(key, "buttonSprite") || str_eq(key, "quadTextureSprite")
        || str_eq(key, "texturefile") || str_eq(key, "icon") || str_eq(key, "iconType") || str_eq(
        key,
        "pdxmesh",
    ) || str_eq(key, "mesh")
}

/// The text of a scalar value; none for a block.
pub open spec fn value_text(v: AstValue) -> Option<Seq<char>> {
    match v {
        AstValue::Scalar { value, .. } => Some(scalar_text(value@)),
        AstValue::Block { .. } => None,
    }
}

pub fn scalar_text_of(value: &AstValue) -> (r: Option<String>)
    ensures
        match value_text(*value) {
            Some(t) => r matches Some(x) && x@ == t,
            None => r is None,
        },
{
    match value {
        AstValue::Scalar { value, .. } => Some(value.as_text()),
        AstValue::Block { .. } => None,
    }
}

/// The text of the first assignment of a scalar to `name` among `items`.
pub open spec fn first_assignment_text(items: Seq<AstStatement>, name: Seq<char>) -> Option<
    Seq<char>,
>
    decreases items.len(),
{
    if items.len() == 0 {
        None
    } else {
        let rest = first_assignment_text(items.drop_first(), name);
        match items[0] {
            AstStatement::Assignment { key, value, .. } => if key@ == name && value_text(
                value,
            ) is Some {
                value_text(value)
            } else {
                rest
            },
            _ => rest,
        }
    }
}

pub fn extract_assignment_scalar(items: &Vec<AstStatement>, name: &str) -> (r: Option<String>)
    ensures
        match first_assignment_text(items@, name@) {
            Some(t) => r matches Some(x) && x@ == t,
            None => r is None,
        },
{
    let mut i: usize = 0;
    assert(items@.skip(0) =~= items@);
    while i < items.len()
        invariant
            i <= items.len(),
            first_assignment_text(items@.skip(i as int), name@) == first_assignment_text(
                items@,
                name@,
            ),
        decreases items.len() - i,
    {
        assert(items@.skip(i as int).drop_first() =~= items@.skip(i + 1));
        assert(items@.skip(i as int)[0] == items@[i as int]);
        if let AstStatement::Assignment { key, value, .. } = &items[i] {
            if str_eq(key.as_str(), name) {
                let text = scalar_text_of(value);
                if text.is_some() {
                    return text;
                }
            }
        }
        i = i + 1;
    }
    assert(items@.skip(i as int).len() == 0);
    None
}

/// An event key with a block: a call of an event.
pub fn is_event_call(key: &str, value: &AstValue) -> (r: bool)
    ensures
        r == (event_scope(key@) is Some && value is Block),
{
    (str_eq(key, "country_event") || str_eq(key, "province_event")) && match value {
        AstValue::Block { .. } => true,
        _ => false,
    }
}

/// The `id` that an event call names.
pub fn extract_event_call_id(value: &AstValue) -> (r: Option<String>)
    ensures
        match value {
            AstValue::Block { items, .. } => match first_assignment_text(items@, "id"@) {
                Some(t) => r matches Some(x) && x@ == t,
                None => r is None,
            },
            _ => r is None,
        },
{
    match value {
        AstValue::Block { items, .. } => extract_assignment_scalar(items, "id"),
        _ => None,
    }
}

/// An event defined at the top of a file: an event key with a block
/// directly in the file's scope.
pub fn is_top_level_event_definition(tree: &ScopeTree, scope_id: usize, key: &str, value: &AstValue) -> (r:
    bool)
    ensures
        r == (kind_at(tree@, scope_id as int) == ScopeKind::File && event_scope(key@) is Some
            && value is Block),
{
    tree.scope_kind(scope_id) == ScopeKind::File && is_event_call(key, value)
}

/// The scalar text of a statement that assigns or lists a scalar.
pub open spec fn statement_text(s: AstStatement) -> Option<Seq<char>> {
    match s {
        AstStatement::Assignment { value, .. } => value_text(value),
        AstStatement::Item { value, .. } => value_text(value),
        AstStatement::Comment { .. } => None,
    }
}

/// The scalar texts that `items` assign or list, in order.
pub open spec fn scalar_texts(items: Seq<AstStatement>) -> Seq<Seq<char>>
    decreases items.len(),
{
    if items.len() == 0 {
        Seq::empty()
    } else {
        let r = scalar_texts(items.drop_last());
        match statement_text(items.last()) {
            Some(t) => r.push(t),
            None => r,
        }
    }
}

/// The scalar texts that a block holds; none for a scalar.
pub open spec fn block_scalar_texts(v: AstValue) -> Seq<Seq<char>> {
    match v {
        AstValue::Block { items, .. } => scalar_texts(items@),
        AstValue::Scalar { .. } => Seq::empty(),
    }
}

pub fn extract_block_scalar_items(value: &AstValue) -> (r: Vec<String>)
    ensures
        string_views(r@) == block_scalar_texts(*value),
{
    let mut values: Vec<String> = Vec::new();
    match value {
        AstValue::Block { items, .. } => {
            let mut i: usize = 0;
            while i < items.len()
                invariant
                    i <= items.len(),
                    string_views(values@) == scalar_texts(items@.take(i as int)),
                decreases items.len() - i,
            {
                assert(items@.take(i + 1).drop_last() =~= items@.take(i as int));
                assert(items@.take(i + 1).last() == items@[i as int]);
                let text = match &items[i] {
                    AstStatement::Assignment { value, .. } => scalar_text_of(value),
                    AstStatement::Item { value, .. } => scalar_text_of(value),
                    AstStatement::Comment { .. } => None,
                };
                match text {
                    Some(t) => {
                        values.push(t);
                        assert(string_views(values@) =~= scalar_texts(items@.take(i + 1)));
                    },
                    None => {},
                }
                i = i + 1;
            }
            assert(items@.take(items.len() as int) =~= items@);
        },
        AstValue::Scalar { .. } => {
            assert(string_views(values@) =~= Seq::<Seq<char>>::empty());
        },
    }
    values
}

/// The texts that the assignments to `name` among `items` give: a scalar's
/// text, or the scalar texts of a block.
pub open spec fn named_scalar_texts(items: Seq<AstStatement>, name: Seq<char>) -> Seq<Seq<char>>
    decreases items.len(),
{
    if items.len() == 0 {
        Seq::empty()
    } else {
        let r = named_scalar_texts(items.drop_last(), name);
        match items.last() {
            AstStatement::Assignment { key, value, .. } => if key@ != name {
                r
            } else if value_text(value) is Some {
                r.push(value_text(value)->0)
            } else {
                r + block_scalar_texts(value)
            },
            _ => r,
        }
    }
}

pub fn extract_named_block_scalar_items(value: &AstValue, key_name: &str) -> (r: Vec<String>)
    ensures
        string_views(r@) == (match value {
            AstValue::Block { items, .. } => named_scalar_texts(items@, key_name@),
            AstValue::Scalar { .. } => Seq::empty(),
        }),
{
    let mut values: Vec<String> = Vec::new();
    match value {
        AstValue::Block { items, .. } => {
            let mut i: usize = 0;
            while i < items.len()
                invariant
                    i <= items.len(),
                    string_views(values@) == named_scalar_texts(items@.take(i as int), key_name@),
                decreases items.len() - i,
            {
                assert(items@.take(i + 1).drop_last() =~= items@.take(i as int));
                assert(items@.take(i + 1).last() == items@[i as int]);
                if let AstStatement::Assignment { key, value, .. } = &items[i] {
                    if str_eq(key.as_str(), key_name) {
                        match scalar_text_of(value) {
                            Some(text) => {
                                values.push(text);
                                assert(string_views(values@) =~= named_scalar_texts(
                                    items@.take(i + 1),
                                    key_name@,
                                ));
                            },
                            None => {
                                let mut nested = extract_block_scalar_items(value);
                                let ghost before = values@;
                                values.append(&mut nested);
                                assert(string_views(values@) =~= string_views(before)
                                    + block_scalar_texts(*value));
                            },
                        }
                    }
                }
                i = i + 1;
            }
            assert(items@.take(items.len() as int) =~= items@);
        },
        AstValue::Scalar { .. } => {
            assert(string_views(values@) =~= Seq::<Seq<char>>::empty());
        },
    }
    values
}

/// The keys that the assignments in `items` assign to.
pub open spec fn assignment_keys(items: Seq<AstStatement>) -> Seq<Seq<char>>
    decreases items.len(),
{
    if items.len() == 0 {
        Seq::empty()
    } else {
        let r = assignment_keys(items.drop_last());
        match items.last() {
            AstStatement::Assignment { key, .. } => r.push(key@),
            _ => r,
        }
    }
}

/// The keys assigned inside the blocks assigned to `name` among `items`.
pub open spec fn named_member_keys(items: Seq<AstStatement>, name: Seq<char>) -> Seq<Seq<char>>
    decreases items.len(),
{
    if items.len() == 0 {
        Seq::empty()
    } else {
        let r = named_member_keys(items.drop_last(), name);
        match items.last() {
            AstStatement::Assignment { key, value, .. } => if key@ == name {
                match value {
                    AstValue::Block { items: inner, .. } => r + assignment_keys(inner@),
                    _ => r,
                }
            } else {
                r
            },
            _ => r,
        }
    }
}

fn assignment_keys_of(items: &Vec<AstStatement>) -> (r: Vec<String>)
    ensures
        string_views(r@) == assignment_keys(items@),
{
    let mut keys: Vec<String> = Vec::new();
    let mut i: usize = 0;
    while i < items.len()
        invariant
            i <= items.len(),
            string_views(keys@) == assignment_keys(items@.take(i as int)),
        decreases items.len() - i,
    {
        assert(items@.take(i + 1).drop_last() =~= items@.take(i as int));
        assert(items@.take(i + 1).last() == items@[i as int]);
        if let AstStatement::Assignment { key, .. } = &items[i] {
            keys.push(key.clone());
            assert(string_views(keys@) =~= assignment_keys(items@.take(i + 1)));
        }
        i = i + 1;
    }
    assert(items@.take(items.len() as int) =~= items@);
    keys
}

pub fn extract_named_block_member_keys(value: &AstValue, key_name: &str) -> (r: Vec<String>)
    ensures
        string_views(r@) == (match value {
            AstValue::Block { items, .. } => named_member_keys(items@, key_name@),
            AstValue::Scalar { .. } => Seq::empty(),
        }),
{
    let mut keys: Vec<String> = Vec::new();
    match value {
        AstValue::Block { items, .. } => {
            let mut i: usize = 0;
            while i < items.len()
                invariant
                    i <= items.len(),
                    string_views(keys@) == named_member_keys(items@.take(i as int), key_name@),
                decreases items.len() - i,
            {
                assert(items@.take(i + 1).drop_last() =~= items@.take(i as int));
                assert(items@.take(i + 1).last() == items@[i as int]);
                if let AstStatement::Assignment { key, value, .. } = &items[i] {
                    if str_eq(key.as_str(), key_name) {
                        if let AstValue::Block { items: inner, .. } = value {
                            let mut nested = assignment_keys_of(inner);
                            let ghost before = keys@;
                            keys.append(&mut nested);
                            assert(string_views(keys@) =~= string_views(before) + assignment_keys(
                                inner@,
                            ));
                        }
                    }
                }
                i = i + 1;
            }
            assert(items@.take(items.len() as int) =~= items@);
        },
        AstValue::Scalar { .. } => {
            assert(string_views(keys@) =~= Seq::<Seq<char>>::empty());
        },
    }
    keys
}

/// The keys among `items` assigned a scalar that reads `yes` in any case.
pub open spec fn yes_keys(items: Seq<AstStatement>) -> Seq<Seq<char>>
    decreases items.len(),
{
    if items.len() == 0 {
        Seq::empty()
    } else {
        let r = yes_keys(items.drop_last());
        match items.last() {
            AstStatement::Assignment { key, value, .. } => if value_text(value) is Some && lower_seq(
                value_text(value)->0,
            ) == "yes"@ {
                r.push(key@)
            } else {
                r
            },
            _ => r,
        }
    }
}

pub fn extract_yes_assignment_keys(value: &AstValue) -> (r: Vec<String>)
    ensures
        string_views(r@) == (match value {
            AstValue::Block { items, .. } => yes_keys(items@),
            AstValue::Scalar { .. } => Seq::empty(),
        }),
{
    let mut keys: Vec<String> = Vec::new();
    match value {
        AstValue::Block { items, .. } => {
            let mut i: usize = 0;
            while i < items.len()
                invariant
                    i <= items.len(),
                    string_views(keys@) == yes_keys(items@.take(i as int)),
                decreases items.len() - i,
            {
                assert(items@.take(i + 1).drop_last() =~= items@.take(i as int));
                assert(items@.take(i + 1).last() == items@[i as int]);
                if let AstStatement::Assignment { key, value, .. } = &items[i] {
                    if let Some(text) = scalar_text_of(value) {
                        let lowered = lower_chars(&chars_of(text.as_str()));
                        if eq_lit(&lowered, "yes") {
                            keys.push(key.clone());
                            assert(string_views(keys@) =~= yes_keys(items@.take(i + 1)));
                        }
                    }
                }
                i = i + 1;
            }
            assert(items@.take(items.len() as int) =~= items@);
        },
        AstValue::Scalar { .. } => {
            assert(string_views(keys@) =~= Seq::<Seq<char>>::empty());
        },
    }
    keys
}

/// The first text that an assignment to `field` inside a block assigned
/// to `block` among `items` gives.
pub open spec fn nested_assignment_text(items: Seq<AstStatement>, block: Seq<char>, field: Seq<char>) -> Option<
    Seq<char>,
>
    decreases items.len(),
{
    if items.len() == 0 {
        None
    } else {
        let rest = nested_assignment_text(items.drop_first(), block, field);
        match items[0] {
            AstStatement::Assignment { key, value, .. } => if key@ == block {
                match value {
                    AstValue::Block { items: inner, .. } => if first_assignment_text(inner@, field) is Some {
                        first_assignment_text(inner@, field)
                    } else {
                        rest
                    },
                    _ => rest,
                }
            } else {
                rest
            },
            _ => rest,
        }
    }
}

pub fn extract_nested_assignment_scalar(items: &Vec<AstStatement>, block_name: &str, field_name: &str) -> (r:
    Option<String>)
    ensures
        match nested_assignment_text(items@, block_name@, field_name@) {
            Some(t) => r matches Some(x) && x@ == t,
            None => r is None,
        },
{
    let mut i: usize = 0;
    assert(items@.skip(0) =~= items@);
    while i < items.len()
        invariant
            i <= items.len(),
            nested_assignment_text(items@.skip(i as int), block_name@, field_name@)
                == nested_assignment_text(items@, block_name@, field_name@),
        decreases items.len() - i,
    {
        assert(items@.skip(i as int).drop_first() =~= items@.skip(i + 1));
        assert(items@.skip(i as int)[0] == items@[i as int]);
        if let AstStatement::Assignment { key, value, .. } = &items[i] {
            if str_eq(key.as_str(), block_name) {
                if let AstValue::Block { items: inner, .. } = value {
                    let text = extract_assignment_scalar(inner, field_name);
                    if text.is_some() {
                        return text;
                    }
                }
            }
        }
        i = i + 1;
    }
    assert(items@.skip(i as int).len() == 0);
    None
}

/// The keys that show a block of a missions file to be a mission or a
/// mission group.
pub open spec fn is_mission_structure_key(k: Seq<char>) -> bool {
    k == "icon"@ || k == "position"@ || k == "required_missions"@ || k == "trigger"@ || k
        == "effect"@ || k == "ai_weight"@ || k == "provinces_to_highlight"@ || k
        == "completed_by"@ || k == "slot"@ || k == "generic"@ || k == "has_country_shield"@
}

fn is_mission_structure_key_text(k: &str) -> (r: bool)
    ensures
        r == is_mission_structure_key(k@),
{
    str_eq(k, "icon") || str_eq(k, "position") || str_eq(k, "required_missions") || str_eq(
        k,
        "trigger",
    ) || str_eq(k, "effect") || str_eq(k, "ai_weight") || str_eq(k, "provinces_to_highlight")
        || str_eq(k, "completed_by") || str_eq(k, "slot") || str_eq(k, "generic") || str_eq(
        k,
        "has_country_shield",
    )
}

pub fn is_mission_slot_definition(file_kind: ScriptFileKind, items: &Vec<AstStatement>) -> (r: bool)
    ensures
        r == (file_kind == ScriptFileKind::Missions && exists|i: int|
            0 <= i < items@.len() && (#[trigger] items@[i] matches AstStatement::Assignment {
                key,
                ..
            } && is_mission_structure_key(key@))),
{
    if file_kind != ScriptFileKind::Missions {
        return false;
    }
    let mut i: usize = 0;
    while i < items.len()
        invariant
            i <= items.len(),
            file_kind == ScriptFileKind::Missions,
            forall|j: int|
                0 <= j < i ==> !(#[trigger] items@[j] matches AstStatement::Assignment {
                    key,
                    ..
                } && is_mission_structure_key(key@)),
        decreases items.len() - i,
    {
        let stmt = &items[i];
        assert(*stmt == items@[i as int]);
        if let AstStatement::Assignment { key, .. } = stmt {
            let k = key.as_str();
            if is_mission_structure_key_text(k) {
                assert(items@[i as int] matches AstStatement::Assignment { key: kk, .. }
                    && is_mission_structure_key(kk@));
                return true;
            }
        }
        i = i + 1;
    }
    false
}

/// The name of a template parameter `$name$` (after trimming), made of
/// one or more letters, digits and `_`.
pub open spec fn template_param(v: Seq<char>) -> Option<Seq<char>> {
    let t = trimmed(v, 0, v.len() as int);
    if t.len() > 2 && t[0] == '$' && t[t.len() - 1] == '$' && (forall|k: int|
        1 <= k < t.len() - 1 ==> is_param_char(#[trigger] t[k])) {
        Some(t.subrange(1, t.len() - 1))
    } else {
        None
    }
}

pub fn extract_template_param_name(value: &str) -> (r: Option<String>)
    ensures
        match template_param(value@) {
            Some(n) => r matches Some(x) && x@ == n,
            None => r is None,
        },
{
    let t = trim_chars(value);
    let n = t.len();
    if !(n > 2 && t[0] == '$' && t[n - 1] == '$') {
        return None;
    }
    let mut k: usize = 1;
    while k < n - 1
        invariant
            t@ == trimmed(value@, 0, value@.len() as int),
            n == t.len(),
            n > 2,
            1 <= k <= n - 1,
            forall|j: int| 1 <= j < k ==> is_param_char(#[trigger] t@[j]),
        decreases n - 1 - k,
    {
        let c = t[k];
        if !(('A' <= c && c <= 'Z') || ('a' <= c && c <= 'z') || ('0' <= c && c <= '9') || c
            == '_') {
            return None;
        }
        k = k + 1;
    }
    let mut name: Vec<char> = Vec::new();
    let mut i: usize = 1;
    while i < n - 1
        invariant
            n == t.len(),
            n > 2,
            1 <= i <= n - 1,
            name@ == t@.subrange(1, i as int),
        decreases n - 1 - i,
    {
        name.push(t[i]);
        i = i + 1;
        assert(name@ =~= t@.subrange(1, i as int));
    }
    Some(string_from_chars(name.as_slice()))
}

pub fn is_template_param_placeholder_key(key: &str) -> (r: bool)
    ensures
        r == template_param(key@) is Some,
{
    extract_template_param_name(key).is_some()
}

/// The parameter names of the keys `$name$` that open blocks, at any depth
/// among `items`.
pub open spec fn scope_param_names_in(items: Seq<AstStatement>) -> Set<Seq<char>>
    decreases items,
{
    if items.len() == 0 {
        Set::empty()
    } else {
        scope_param_names_of(items[0]) + scope_param_names_in(items.drop_first())
    }
}

pub open spec fn scope_param_names_of(s: AstStatement) -> Set<Seq<char>>
    decreases s,
{
    match s {
        AstStatement::Assignment { key, value, .. } => {
            let own = if template_param(key@) is Some && value is Block {
                set![template_param(key@)->0]
            } else {
                Set::empty()
            };
            match value {
                AstValue::Block { items, .. } => own + scope_param_names_in(items@),
                _ => own,
            }
        },
        _ => Set::empty(),
    }
}

proof fn lemma_scope_param_names_split(items: Seq<AstStatement>, i: int)
    requires
        0 <= i < items.len(),
    ensures
        scope_param_names_in(items.take(i + 1)) == scope_param_names_in(items.take(i))
            + scope_param_names_of(items[i]),
    decreases i,
{
    let a = items.take(i + 1);
    assert(a[0] == items[0]);
    if i == 0 {
        assert(a.drop_first() =~= Seq::<AstStatement>::empty());
        assert(items.take(0) =~= Seq::<AstStatement>::empty());
        assert(scope_param_names_in(items.take(0)) == Set::<Seq<char>>::empty());
        assert(scope_param_names_in(a) =~= scope_param_names_in(items.take(i))
            + scope_param_names_of(items[i]));
    } else {
        let d = items.drop_first();
        lemma_scope_param_names_split(d, i - 1);
        assert(a.drop_first() =~= d.take(i));
        assert(items.take(i).drop_first() =~= d.take(i - 1));
        assert(items.take(i)[0] == items[0]);
        assert(d[i - 1] == items[i]);
        assert(scope_param_names_in(a) =~= scope_param_names_in(items.take(i))
            + scope_param_names_of(items[i]));
    }
}

fn collect_scope_param_names_from_statements(items: &Vec<AstStatement>, names: &mut Vec<Vec<char>>)
    requires
        strictly_sorted(views(old(names)@)),
    ensures
        strictly_sorted(views(final(names)@)),
        views(final(names)@).to_set() == views(old(names)@).to_set() + scope_param_names_in(
            items@,
        ),
    decreases items,
{
    let ghost start = views(names@).to_set();
    let mut i: usize = 0;
    assert(items@.take(0) =~= Seq::<AstStatement>::empty());
    assert(start + scope_param_names_in(items@.take(0)) =~= start);
    while i < items.len()
        invariant
            i <= items.len(),
            strictly_sorted(views(names@)),
            views(names@).to_set() == start + scope_param_names_in(items@.take(i as int)),
        decreases items.len() - i,
    {
        assert(decreases_to!(items => items@[i as int]));
        proof {
            lemma_scope_param_names_split(items@, i as int);
        }
        let ghost before = views(names@).to_set();
        if let AstStatement::Assignment { key, value, .. } = &items[i] {
            let is_block = match value {
                AstValue::Block { .. } => true,
                _ => false,
            };
            if is_block {
                match extract_template_param_name(key.as_str()) {
                    Some(name) => {
                        insert_unique(names, chars_of(name.as_str()));
                    },
                    None => {},
                }
            }
            let ghost middle = views(names@).to_set();
            if let AstValue::Block { items: inner, .. } = value {
                assert(decreases_to!(items => inner));
                collect_scope_param_names_from_statements(inner, names);
            }
            assert(views(names@).to_set() =~= before + scope_param_names_of(items@[i as int]));
        } else {
            assert(views(names@).to_set() =~= before + scope_param_names_of(items@[i as int]));
        }
        i = i + 1;
        assert(views(names@).to_set() =~= start + scope_param_names_in(items@.take(i as int)));
    }
    assert(items@.take(items.len() as int) =~= items@);
}

/// The parameter names of the keys `$name$` that open blocks anywhere
/// among `items`, sorted and without repeats.
pub fn collect_scope_param_names(items: &Vec<AstStatement>) -> (r: Vec<String>)
    ensures
        strictly_sorted(string_views(r@)),
        string_views(r@).to_set() == scope_param_names_in(items@),
{
    let mut names: Vec<Vec<char>> = Vec::new();
    assert(views(names@).to_set() =~= Set::<Seq<char>>::empty());
    collect_scope_param_names_from_statements(items, &mut names);
    assert(Set::<Seq<char>>::empty() + scope_param_names_in(items@) =~= scope_param_names_in(
        items@,
    ));
    to_strings(&names)
}

/// A script file of a mod, read and parsed: where it lies, the family and
/// kind of script it holds, its module, its syntax tree and source, and the
/// problems the parser found.
pub struct ParsedScriptFile {
    pub mod_id: String,
    pub path: String,
    pub relative_path: String,
    pub content_family: Option<ContentFamilyDescriptor>,
    pub file_kind: ScriptFileKind,
    pub module_name: String,
    pub ast: AstFile,
    pub source: String,
    pub parse_issues: Vec<ParseIssue>,
    pub parse_cache_hit: bool,
}

/// `s` with every `-` written `_`.
pub open spec fn dashes_to_underscores(s: Seq<char>) -> Seq<char> {
    s.map_values(|c: char| if c == '-' { '_' } else { c })
}

fn replace_dashes(s: &str) -> (r: String)
    ensures
        r@ == dashes_to_underscores(s@),
{
    let cs = chars_of(s);
    let mut out: Vec<char> = Vec::new();
    let mut i: usize = 0;
    while i < cs.len()
        invariant
            i <= cs.len(),
            cs@ == s@,
            out@ == dashes_to_underscores(s@).subrange(0, i as int),
        decreases cs.len() - i,
    {
        let c = cs[i];
        out.push(if c == '-' { '_' } else { c });
        i = i + 1;
        assert(out@ =~= dashes_to_underscores(s@).subrange(0, i as int));
    }
    assert(dashes_to_underscores(s@).subrange(0, cs.len() as int) =~= dashes_to_underscores(s@));
    string_from_chars(out.as_slice())
}

/// The module of a script at a mod-relative path: its family's module name
/// with `-` written `_`, or the fallback module where no family accepts it.
pub open spec fn script_module_name(relative: Seq<char>) -> Seq<char> {
    match Eu4Profile.classified(relative) {
        Some(d) => dashes_to_underscores(module_name_spec(relative, d.module_name_rule)),
        None => fallback_module_name_spec(path_parts(relative)),
    }
}

/// The problems that parser diagnostics report, at the file `relative` of
/// mod `mod_id`.
pub open spec fn issues_match(
    issues: Seq<ParseIssue>,
    diags: Seq<ParseDiagnostic>,
    mod_id: Seq<char>,
    relative: Seq<char>,
) -> bool {
    &&& issues.len() == diags.len()
    &&& forall|i: int|
        #![trigger issues[i]]
        0 <= i < issues.len() ==> {
            &&& issues[i].mod_id@ == mod_id
            &&& issues[i].path@ == relative
            &&& issues[i].line == diags[i].span.start.line
            &&& issues[i].column == diags[i].span.start.column
            &&& issues[i].message@ == diags[i].message@
        }
}

/// The parsed file of `path`, at `relative_path` below the mod root, from
/// what the parser gave for it and its source text.
pub fn assemble_parsed_script_file(
    mod_id: &str,
    path: String,
    relative_path: String,
    parsed: ParseResult,
    source: String,
    parse_cache_hit: bool,
) -> (r: ParsedScriptFile)
    ensures
        r.mod_id@ == mod_id@,
        r.path == path,
        r.relative_path == relative_path,
        r.content_family == Eu4Profile.classified(relative_path@),
        r.file_kind == script_file_kind_of(relative_path@),
        r.module_name@ == script_module_name(relative_path@),
        r.ast == parsed.ast,
        r.source == source,
        issues_match(r.parse_issues@, parsed.diagnostics@, mod_id@, relative_path@),
        r.parse_cache_hit == parse_cache_hit,
{
    let content_family = eu4_profile().classify_content_family(relative_path.as_str());
    let file_kind = match content_family {
        Some(descriptor) => descriptor.script_file_kind,
        None => ScriptFileKind::Other,
    };
    let module_name = match content_family {
        Some(descriptor) => replace_dashes(
            module_name_for_descriptor(relative_path.as_str(), &descriptor).as_str(),
        ),
        None => fallback_module_name_from_relative(relative_path.as_str()),
    };
    let mut parse_issues: Vec<ParseIssue> = Vec::new();
    let mut i: usize = 0;
    while i < parsed.diagnostics.len()
        invariant
            i <= parsed.diagnostics.len(),
            issues_match(
                parse_issues@,
                parsed.diagnostics@.subrange(0, i as int),
                mod_id@,
                relative_path@,
            ),
        decreases parsed.diagnostics.len() - i,
    {
        let item = &parsed.diagnostics[i];
        parse_issues.push(
            ParseIssue {
                mod_id: mod_id.to_owned(),
                path: relative_path.clone(),
                line: item.span.start.line,
                column: item.span.start.column,
                message: item.message.clone(),
            },
        );
        i = i + 1;
    }
    assert(parsed.diagnostics@.subrange(0, i as int) =~= parsed.diagnostics@);
    ParsedScriptFile {
        mod_id: mod_id.to_owned(),
        path,
        relative_path,
        content_family,
        file_kind,
        module_name,
        ast: parsed.ast,
        source,
        parse_issues,
        parse_cache_hit,
    }
}

/// The keys of the blocks at the top of a map group file, keywords aside.
pub open spec fn group_keys_in(items: Seq<AstStatement>, lookup: BuiltinLookup) -> Set<Seq<char>>
    decreases items.len(),
{
    if items.len() == 0 {
        Set::empty()
    } else {
        let r = group_keys_in(items.drop_last(), lookup);
        match items.last() {
            AstStatement::Assignment { key, value, .. } => if value is Block && !is_keyword_name(
                lookup,
                key@,
            ) {
                r.insert(key@)
            } else {
                r
            },
            _ => r,
        }
    }
}

/// The province groups that the map group files among `files` define.
pub open spec fn map_group_keys(files: Seq<ParsedScriptFile>, lookup: BuiltinLookup) -> Set<
    Seq<char>,
>
    decreases files.len(),
{
    if files.len() == 0 {
        Set::empty()
    } else {
        let r = map_group_keys(files.drop_last(), lookup);
        let f = files.last();
        if is_map_group_path(slash_normalized(f.relative_path@)) {
            r + group_keys_in(f.ast.statements@, lookup)
        } else {
            r
        }
    }
}

pub fn collect_map_groups(files: &Vec<ParsedScriptFile>, builtins: &BuiltinLookup) -> (r:
    MapGroupLookup)
    ensures
        r@ == map_group_keys(files@, *builtins),
{
    let mut lookup = MapGroupLookup::new();
    let mut f: usize = 0;
    while f < files.len()
        invariant
            f <= files.len(),
            lookup@ == map_group_keys(files@.take(f as int), *builtins),
        decreases files.len() - f,
    {
        assert(files@.take(f + 1).drop_last() =~= files@.take(f as int));
        assert(files@.take(f + 1).last() == files@[f as int]);
        let file = &files[f];
        if is_map_group_file(file.relative_path.as_str()) {
            let stmts = &file.ast.statements;
            let ghost base = lookup@;
            let mut i: usize = 0;
            while i < stmts.len()
                invariant
                    i <= stmts.len(),
                    lookup@ == base + group_keys_in(stmts@.take(i as int), *builtins),
                decreases stmts.len() - i,
            {
                assert(stmts@.take(i + 1).drop_last() =~= stmts@.take(i as int));
                assert(stmts@.take(i + 1).last() == stmts@[i as int]);
                let ghost before = lookup@;
                if let AstStatement::Assignment { key, value, .. } = &stmts[i] {
                    let is_block = match value {
                        AstValue::Block { .. } => true,
                        _ => false,
                    };
                    if is_block && !is_keyword(builtins, key.as_str()) {
                        lookup.insert(key.as_str());
                    }
                }
                i = i + 1;
                assert(lookup@ =~= base + group_keys_in(stmts@.take(i as int), *builtins));
            }
            assert(stmts@.take(stmts.len() as int) =~= stmts@);
        }
        f = f + 1;
    }
    assert(files@.take(files.len() as int) =~= files@);
    lookup
}

} // verus!
