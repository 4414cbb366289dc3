//! Parameter contracts of scripted effects: the contracts registered for
//! effects whose definitions do not declare their parameters, the names a
//! contract mentions, and the messages for a call that breaks one.

use vstd::prelude::*;
use crate::model::{ConditionalParamRule, ParamContract};
use crate::ordered::{sorted_unique, strictly_sorted, views};
use crate::text::{chars_of, str_eq, string_from_chars};

verus! {

pub open spec fn str_list(items: Seq<&str>) -> Seq<Seq<char>> {
    items.map_values(|s: &str| s@)
}

pub open spec fn string_list(v: Seq<String>) -> Seq<Seq<char>> {
    v.map_values(|s: String| s@)
}

pub struct RuleView {
    pub when_present: Seq<char>,
    pub requires_any_of: Seq<Seq<char>>,
}

pub struct ContractView {
    pub required_all: Seq<Seq<char>>,
    pub optional: Seq<Seq<char>>,
    pub one_of_groups: Seq<Seq<Seq<char>>>,
    pub conditional_required: Seq<RuleView>,
}

pub open spec fn rule_view(r: ConditionalParamRule) -> RuleView {
    RuleView { when_present: r.when_present@, requires_any_of: string_list(r.requires_any_of@) }
}

pub open spec fn contract_view(c: ParamContract) -> ContractView {
    ContractView {
        required_all: string_list(c.required_all@),
        optional: string_list(c.optional@),
        one_of_groups: c.one_of_groups@.map_values(|g: Vec<String>| string_list(g@)),
        conditional_required: c.conditional_required@.map_values(
            |r: ConditionalParamRule| rule_view(r),
        ),
    }
}

/// Strings with the characters of `items`, one for one.
fn names(items: &[&str]) -> (r: Vec<String>)
    ensures
        string_list(r@) == str_list(items@),
{
    let mut r: Vec<String> = Vec::new();
    let mut i: usize = 0;
    while i < items.len()
        invariant
            i <= items.len(),
            string_list(r@) == str_list(items@.subrange(0, i as int)),
        decreases items.len() - i,
    {
        let ghost before = string_list(r@);
        let t = items[i].to_owned();
        r.push(t);
        assert(string_list(r@) =~= before.push(items@[i as int]@));
        assert(str_list(items@.subrange(0, i + 1)) =~= str_list(items@.subrange(0, i as int)).push(
            items@[i as int]@,
        ));
        i = i + 1;
    }
    assert(items@.subrange(0, items.len() as int) =~= items@);
    r
}

/// A contract with required and optional parameters and at most one group
/// of alternatives.
pub open spec fn contract_spec(required: Seq<&str>, optional: Seq<&str>, group: Option<Seq<&str>>) -> ContractView {
    ContractView {
        required_all: str_list(required),
        optional: str_list(optional),
        one_of_groups: match group {
            Some(g) => seq![str_list(g)],
            None => Seq::empty(),
        },
        conditional_required: Seq::empty(),
    }
}

/// No names.
fn none() -> (r: &'static [&'static str])
    ensures
        r@ == Seq::<&str>::empty(),
{
    let r: &'static [&'static str] = &[];
    assert(r@ =~= Seq::<&str>::empty());
    r
}

fn contract(required: &[&str], optional: &[&str], group: Option<&[&str]>) -> (r: ParamContract)
    ensures
        contract_view(r) == contract_spec(required@, optional@, match group {
            Some(g) => Some(g@),
            None => None,
        }),
{
    let mut groups: Vec<Vec<String>> = Vec::new();
    match group {
        Some(g) => {
            groups.push(names(g));
        },
        None => {},
    }
    let r = ParamContract {
        required_all: names(required),
        optional: names(optional),
        one_of_groups: groups,
        conditional_required: Vec::new(),
    };
    assert(r.one_of_groups@.map_values(|g: Vec<String>| string_list(g@)) =~= (match group {
        Some(g) => seq![str_list(g@)],
        None => Seq::<Seq<Seq<char>>>::empty(),
    }));
    assert(r.conditional_required@.map_values(|x: ConditionalParamRule| rule_view(x)) =~= Seq::<RuleView>::empty());
    r
}

/// `a_b`.
fn underscore_join(a: &str, b: &str) -> (r: String)
    ensures
        r@ == a@ + "_"@ + b@,
{
    let mut cs = chars_of(a);
    cs.append(&mut chars_of("_"));
    cs.append(&mut chars_of(b));
    string_from_chars(cs.as_slice())
}

pub open spec fn ordinal_prefixes() -> Seq<Seq<char>> {
    str_list(seq!["second", "third", "fourth", "fifth", "sixth", "seventh", "eighth", "nineth", "tenth"])
}

pub open spec fn effect_suffixes() -> Seq<Seq<char>> {
    str_list(seq!["custom_tooltip", "limit", "effect"])
}

/// The optional parameters of the complex dynamic effect: the tooltip, limit
/// and effect of the second to tenth step (spelt as the game's scripts spell
/// them, with `nineth` and the extra `eigth`), and `combined_effect` where it
/// is included.
pub open spec fn complex_optional(include_combined_effect: bool) -> Seq<Seq<char>> {
    let steps = Seq::new(
        27,
        |k: int| ordinal_prefixes()[k / 3] + "_"@ + effect_suffixes()[k % 3],
    );
    let eigth = Seq::new(3, |k: int| "eigth"@ + "_"@ + effect_suffixes()[k]);
    if include_combined_effect {
        (steps + eigth).push("combined_effect"@)
    } else {
        steps + eigth
    }
}

pub fn complex_dynamic_effect_optional_params(include_combined_effect: bool) -> (r: Vec<String>)
    ensures
        string_list(r@) == complex_optional(include_combined_effect),
{
    let prefixes = ["second", "third", "fourth", "fifth", "sixth", "seventh", "eighth", "nineth", "tenth"];
    let suffixes = ["custom_tooltip", "limit", "effect"];
    assert(str_list(prefixes@) == ordinal_prefixes());
    assert(str_list(suffixes@) == effect_suffixes());
    let mut optional: Vec<String> = Vec::new();
    let mut p: usize = 0;
    while p < 9
        invariant
            p <= 9,
            str_list(prefixes@) == ordinal_prefixes(),
            str_list(suffixes@) == effect_suffixes(),
            prefixes@.len() == 9,
            suffixes@.len() == 3,
            string_list(optional@) == Seq::new(
                (3 * p) as nat,
                |k: int| ordinal_prefixes()[k / 3] + "_"@ + effect_suffixes()[k % 3],
            ),
        decreases 9 - p,
    {
        let mut q: usize = 0;
        while q < 3
            invariant
                p < 9,
                q <= 3,
                str_list(prefixes@) == ordinal_prefixes(),
                str_list(suffixes@) == effect_suffixes(),
                prefixes@.len() == 9,
                suffixes@.len() == 3,
                string_list(optional@) == Seq::new(
                    (3 * p + q) as nat,
                    |k: int| ordinal_prefixes()[k / 3] + "_"@ + effect_suffixes()[k % 3],
                ),
            decreases 3 - q,
        {
            let ghost before = string_list(optional@);
            let item = underscore_join(prefixes[p], suffixes[q]);
            assert(prefixes[p as int]@ == ordinal_prefixes()[p as int]);
            assert(suffixes[q as int]@ == effect_suffixes()[q as int]);
            let ghost iv = item@;
            optional.push(item);
            assert(string_list(optional@) =~= before.push(iv));
            assert((3 * p + q) / 3 == p as int && (3 * p + q) % 3 == q as int) by (nonlinear_arith)
                requires
                    q < 3,
            ;
            assert(string_list(optional@) =~= Seq::new(
                (3 * p + q + 1) as nat,
                |k: int| ordinal_prefixes()[k / 3] + "_"@ + effect_suffixes()[k % 3],
            ));
            q = q + 1;
        }
        p = p + 1;
    }
    let ghost steps = string_list(optional@);
    let mut q: usize = 0;
    while q < 3
        invariant
            q <= 3,
            str_list(suffixes@) == effect_suffixes(),
            suffixes@.len() == 3,
            steps.len() == 27,
            string_list(optional@) == steps + Seq::new(q as nat, |k: int| "eigth"@ + "_"@ + effect_suffixes()[k]),
        decreases 3 - q,
    {
        let ghost before = string_list(optional@);
        let item = underscore_join("eigth", suffixes[q]);
        assert(suffixes[q as int]@ == effect_suffixes()[q as int]);
        let ghost iv = item@;
        optional.push(item);
        assert(string_list(optional@) =~= before.push(iv));
        assert(string_list(optional@) =~= steps + Seq::new((q + 1) as nat, |k: int| "eigth"@ + "_"@ + effect_suffixes()[k]));
        q = q + 1;
    }
    if include_combined_effect {
        let ghost before = string_list(optional@);
        optional.push("combined_effect".to_owned());
        assert(string_list(optional@) =~= before.push("combined_effect"@));
    }
    optional
}

pub open spec fn complex_dynamic_effect_contract_spec(include_combined_effect: bool) -> ContractView {
    ContractView {
        required_all: str_list(seq!["first_custom_tooltip", "first_limit", "first_effect"]),
        optional: complex_optional(include_combined_effect),
        one_of_groups: Seq::empty(),
        conditional_required: Seq::empty(),
    }
}

pub fn complex_dynamic_effect_contract(include_combined_effect: bool) -> (r: ParamContract)
    ensures
        contract_view(r) == complex_dynamic_effect_contract_spec(include_combined_effect),
{
    let r = ParamContract {
        required_all: names(&["first_custom_tooltip", "first_limit", "first_effect"]),
        optional: complex_dynamic_effect_optional_params(include_combined_effect),
        one_of_groups: Vec::new(),
        conditional_required: Vec::new(),
    };
    assert(r.one_of_groups@.map_values(|g: Vec<String>| string_list(g@)) =~= Seq::<Seq<Seq<char>>>::empty());
    assert(r.conditional_required@.map_values(|x: ConditionalParamRule| rule_view(x)) =~= Seq::<RuleView>::empty());
    r
}

/// The contracts registered for scripted effects whose parameters their
/// definitions do not declare, by the effect's local name.
pub open spec fn registered_contract(name: Seq<char>) -> Option<ContractView> {
    if name == "complex_dynamic_effect"@ {
        Some(complex_dynamic_effect_contract_spec(false))
    } else if name == "complex_dynamic_effect_without_alternative"@ {
        Some(complex_dynamic_effect_contract_spec(true))
    } else if name == "ME_give_claims"@ {
        Some(contract_spec(Seq::<&str>::empty(), Seq::<&str>::empty(), Some(["area", "region", "province", "id"]@)))
    } else if name == "give_claims"@ {
        Some(contract_spec(Seq::<&str>::empty(), Seq::<&str>::empty(), Some(["area", "region", "province", "id"]@)))
    } else if name == "add_prestige_or_monarch_power"@ {
        Some(contract_spec(Seq::<&str>::empty(), Seq::<&str>::empty(), Some(["amount", "value"]@)))
    } else if name == "add_army_tradition_or_mil_power"@ {
        Some(contract_spec(Seq::<&str>::empty(), Seq::<&str>::empty(), Some(["amount", "value"]@)))
    } else if name == "country_event_with_option_insight"@ {
        Some(contract_spec(["id"]@, ["days", "random", "tooltip", "option_1", "option_2", "option_3", "option_4", "option_5"]@, None))
    } else if name == "add_age_modifier"@ {
        Some(contract_spec(["age", "name", "duration"]@, ["else"]@, None))
    } else if name == "change_asha_vahishta"@ {
        Some(contract_spec(["value"]@, ["custom_tooltip"]@, None))
    } else if name == "se_md_refund_splendor"@ {
        Some(contract_spec(["flagName", "flagCategory"]@, Seq::<&str>::empty(), None))
    } else if name == "se_md_refund_splendor_bonus_progress"@ {
        Some(contract_spec(["flagName", "bonusName"]@, Seq::<&str>::empty(), None))
    } else if name == "se_md_refund_splendor_bonus_complete"@ {
        Some(contract_spec(["flagName", "bonusName"]@, Seq::<&str>::empty(), None))
    } else if name == "se_md_add_or_upgrade_bonus"@ {
        Some(contract_spec(["abilityName", "bonusName", "flagName"]@, ["showTooltip"]@, None))
    } else if name == "country_event_with_effect_insight"@ {
        Some(contract_spec(["id", "effect"]@, ["days", "random", "tooltip"]@, None))
    } else if name == "country_event_with_insight"@ {
        Some(contract_spec(["id", "insight_tooltip"]@, ["days", "random", "tooltip", "effect_tooltip"]@, None))
    } else if name == "ME_distribute_development"@ {
        Some(contract_spec(["type", "amount"]@, ["limit", "tooltip"]@, None))
    } else if name == "define_and_hire_grand_vizier"@ {
        Some(contract_spec(["type"]@, ["skill", "culture", "religion", "female", "age", "max_age", "min_age", "location"]@, None))
    } else if name == "pick_best_provinces"@ {
        Some(contract_spec(["scale", "event_target_name", "global_trigger"]@, ["scope", "1", "2", "3", "4", "5", "10"]@, None))
    } else if name == "pick_best_tags"@ {
        Some(contract_spec(["scale", "event_target_name", "global_trigger"]@, ["scope", "1", "2", "3", "4", "5", "10"]@, None))
    } else if name == "ME_add_years_of_trade_income"@ {
        Some(contract_spec(Seq::<&str>::empty(), Seq::<&str>::empty(), Some(["years", "value", "amount"]@)))
    } else if name == "ME_overlord_effect"@ {
        Some(contract_spec(["effect"]@, Seq::<&str>::empty(), None))
    } else if name == "create_general_with_pips"@ {
        Some(contract_spec(["tradition"]@, ["add_fire", "add_shock", "add_manuever", "add_siege", "name", "culture"]@, None))
    } else if name == "create_or_add_center_of_trade_level"@ {
        Some(contract_spec(["level"]@, Seq::<&str>::empty(), None))
    } else if name == "take_estate_land_share_massive"@ {
        Some(contract_spec(["estate"]@, ["amount"]@, None))
    } else if name == "add_estate_loyalty"@ {
        Some(contract_spec(["estate"]@, ["short", "amount"]@, None))
    } else if name == "estate_loyalty"@ {
        Some(contract_spec(["estate", "loyalty"]@, Seq::<&str>::empty(), None))
    } else if name == "estate_influence"@ {
        Some(contract_spec(["estate", "influence"]@, Seq::<&str>::empty(), None))
    } else if name == "unlock_estate_privilege"@ {
        Some(contract_spec(["estate_privilege"]@, ["modifier_tooltip", "effect_tooltip"]@, None))
    } else if name == "HAB_change_habsburg_glory"@ {
        Some(contract_spec(Seq::<&str>::empty(), Seq::<&str>::empty(), Some(["amount", "remove"]@)))
    } else if name == "add_legitimacy_or_reform_progress"@ {
        Some(contract_spec(Seq::<&str>::empty(), Seq::<&str>::empty(), Some(["amount", "value"]@)))
    } else if name == "EE_change_variable"@ {
        Some(contract_spec(["which"]@, Seq::<&str>::empty(), Some(["add", "subtract", "divide", "multiply"]@)))
    } else if name == "build_as_many_as_possible"@ {
        Some(contract_spec(["pick_best_function", "new_building", "cost", "speed"]@, ["all_prior_trig"]@, Some(["upgrade_target", "construct_new"]@)))
    } else if name == "ME_tim_add_spoils_of_war"@ {
        Some(contract_spec(Seq::<&str>::empty(), Seq::<&str>::empty(), Some(["add", "remove"]@)))
    } else if name == "ME_add_power_projection"@ {
        Some(contract_spec(Seq::<&str>::empty(), Seq::<&str>::empty(), Some(["amount", "value"]@)))
    } else if name == "create_general_scaling_with_tradition_and_pips"@ {
        Some(contract_spec(Seq::<&str>::empty(), ["add_fire", "add_shock", "add_manuever", "add_siege"]@, None))
    } else if name == "ME_automatic_colonization_effect_module"@ {
        Some(contract_spec(["target_region_effect"]@, Seq::<&str>::empty(), Some(["region", "superregion"]@)))
    } else if name == "ME_override_country_name"@ {
        Some(contract_spec(Seq::<&str>::empty(), Seq::<&str>::empty(), Some(["country_name", "name", "country", "value", "string"]@)))
    } else if name == "persia_indian_hegemony_decision_march_effect"@ {
        Some(contract_spec(["province", "tag_1", "trade_company_region"]@, ["tag_2", "tag_3", "tag_4", "tag_5"]@, None))
    } else if name == "persia_indian_hegemony_decision_coup_effect"@ {
        Some(contract_spec(["province", "tag_1"]@, ["tag_2", "tag_3", "tag_4", "tag_5"]@, None))
    } else if name == "for"@ {
        Some(contract_spec(["amount", "effect"]@, Seq::<&str>::empty(), None))
    } else {
        None
    }
}

pub fn registered_param_contract(local_name: &str) -> (r: Option<ParamContract>)
    ensures
        match r {
            Some(c) => registered_contract(local_name@) == Some(contract_view(c)),
            None => registered_contract(local_name@) is None,
        },
{
    if str_eq(local_name, "complex_dynamic_effect") {
        Some(complex_dynamic_effect_contract(false))
    } else if str_eq(local_name, "complex_dynamic_effect_without_alternative") {
        Some(complex_dynamic_effect_contract(true))
    } else if str_eq(local_name, "ME_give_claims") {
        Some(contract(none(), none(), Some(&["area", "region", "province", "id"])))
    } else if str_eq(local_name, "give_claims") {
        Some(contract(none(), none(), Some(&["area", "region", "province", "id"])))
    } else if str_eq(local_name, "add_prestige_or_monarch_power") {
        Some(contract(none(), none(), Some(&["amount", "value"])))
    } else if str_eq(local_name, "add_army_tradition_or_mil_power") {
        Some(contract(none(), none(), Some(&["amount", "value"])))
    } else if str_eq(local_name, "country_event_with_option_insight") {
        Some(contract(&["id"], &["days", "random", "tooltip", "option_1", "option_2", "option_3", "option_4", "option_5"], None))
    } else if str_eq(local_name, "add_age_modifier") {
        Some(contract(&["age", "name", "duration"], &["else"], None))
    } else if str_eq(local_name, "change_asha_vahishta") {
        Some(contract(&["value"], &["custom_tooltip"], None))
    } else if str_eq(local_name, "se_md_refund_splendor") {
        Some(contract(&["flagName", "flagCategory"], none(), None))
    } else if str_eq(local_name, "se_md_refund_splendor_bonus_progress") {
        Some(contract(&["flagName", "bonusName"], none(), None))
    } else if str_eq(local_name, "se_md_refund_splendor_bonus_complete") {
        Some(contract(&["flagName", "bonusName"], none(), None))
    } else if str_eq(local_name, "se_md_add_or_upgrade_bonus") {
        Some(contract(&["abilityName", "bonusName", "flagName"], &["showTooltip"], None))
    } else if str_eq(local_name, "country_event_with_effect_insight") {
        Some(contract(&["id", "effect"], &["days", "random", "tooltip"], None))
    } else if str_eq(local_name, "country_event_with_insight") {
        Some(contract(&["id", "insight_tooltip"], &["days", "random", "tooltip", "effect_tooltip"], None))
    } else if str_eq(local_name, "ME_distribute_development") {
        Some(contract(&["type", "amount"], &["limit", "tooltip"], None))
    } else if str_eq(local_name, "define_and_hire_grand_vizier") {
        Some(contract(&["type"], &["skill", "culture", "religion", "female", "age", "max_age", "min_age", "location"], None))
    } else if str_eq(local_name, "pick_best_provinces") {
        Some(contract(&["scale", "event_target_name", "global_trigger"], &["scope", "1", "2", "3", "4", "5", "10"], None))
    } else if str_eq(local_name, "pick_best_tags") {
        Some(contract(&["scale", "event_target_name", "global_trigger"], &["scope", "1", "2", "3", "4", "5", "10"], None))
    } else if str_eq(local_name, "ME_add_years_of_trade_income") {
        Some(contract(none(), none(), Some(&["years", "value", "amount"])))
    } else if str_eq(local_name, "ME_overlord_effect") {
        Some(contract(&["effect"], none(), None))
    } else if str_eq(local_name, "create_general_with_pips") {
        Some(contract(&["tradition"], &["add_fire", "add_shock", "add_manuever", "add_siege", "name", "culture"], None))
    } else if str_eq(local_name, "create_or_add_center_of_trade_level") {
        Some(contract(&["level"], none(), None))
    } else if str_eq(local_name, "take_estate_land_share_massive") {
        Some(contract(&["estate"], &["amount"], None))
    } else if str_eq(local_name, "add_estate_loyalty") {
        Some(contract(&["estate"], &["short", "amount"], None))
    } else if str_eq(local_name, "estate_loyalty") {
        Some(contract(&["estate", "loyalty"], none(), None))
    } else if str_eq(local_name, "estate_influence") {
        Some(contract(&["estate", "influence"], none(), None))
    } else if str_eq(local_name, "unlock_estate_privilege") {
        Some(contract(&["estate_privilege"], &["modifier_tooltip", "effect_tooltip"], None))
    } else if str_eq(local_name, "HAB_change_habsburg_glory") {
        Some(contract(none(), none(), Some(&["amount", "remove"])))
    } else if str_eq(local_name, "add_legitimacy_or_reform_progress") {
        Some(contract(none(), none(), Some(&["amount", "value"])))
    } else if str_eq(local_name, "EE_change_variable") {
        Some(contract(&["which"], none(), Some(&["add", "subtract", "divide", "multiply"])))
    } else if str_eq(local_name, "build_as_many_as_possible") {
        Some(contract(&["pick_best_function", "new_building", "cost", "speed"], &["all_prior_trig"], Some(&["upgrade_target", "construct_new"])))
    } else if str_eq(local_name, "ME_tim_add_spoils_of_war") {
        Some(contract(none(), none(), Some(&["add", "remove"])))
    } else if str_eq(local_name, "ME_add_power_projection") {
        Some(contract(none(), none(), Some(&["amount", "value"])))
    } else if str_eq(local_name, "create_general_scaling_with_tradition_and_pips") {
        Some(contract(none(), &["add_fire", "add_shock", "add_manuever", "add_siege"], None))
    } else if str_eq(local_name, "ME_automatic_colonization_effect_module") {
        Some(contract(&["target_region_effect"], none(), Some(&["region", "superregion"])))
    } else if str_eq(local_name, "ME_override_country_name") {
        Some(contract(none(), none(), Some(&["country_name", "name", "country", "value", "string"])))
    } else if str_eq(local_name, "persia_indian_hegemony_decision_march_effect") {
        Some(contract(&["province", "tag_1", "trade_company_region"], &["tag_2", "tag_3", "tag_4", "tag_5"], None))
    } else if str_eq(local_name, "persia_indian_hegemony_decision_coup_effect") {
        Some(contract(&["province", "tag_1"], &["tag_2", "tag_3", "tag_4", "tag_5"], None))
    } else if str_eq(local_name, "for") {
        Some(contract(&["amount", "effect"], none(), None))
    } else {
        None
    }
}

/// The parts joined with `|` between them.
pub open spec fn joined_bars(parts: Seq<Seq<char>>) -> Seq<char>
    decreases parts.len(),
{
    if parts.len() == 0 {
        Seq::empty()
    } else if parts.len() == 1 {
        parts[0]
    } else {
        joined_bars(parts.drop_last()) + "|"@ + parts.last()
    }
}

/// Some candidate is given.
pub open spec fn any_provided(provided: Seq<Seq<char>>, candidates: Seq<Seq<char>>) -> bool {
    exists|i: int| 0 <= i < candidates.len() && provided.contains(#[trigger] candidates[i])
}

/// A message for each required parameter that is not given.
pub open spec fn missing_messages(required: Seq<Seq<char>>, name: Seq<char>, provided: Seq<Seq<char>>) -> Seq<Seq<char>>
    decreases required.len(),
{
    if required.len() == 0 {
        Seq::empty()
    } else {
        let r = missing_messages(required.drop_last(), name, provided);
        if provided.contains(required.last()) {
            r
        } else {
            r.push("参数未绑定: "@ + name + " 缺失 "@ + required.last())
        }
    }
}

/// A message for each group of which no parameter is given.
pub open spec fn group_messages(groups: Seq<Seq<Seq<char>>>, name: Seq<char>, provided: Seq<Seq<char>>) -> Seq<Seq<char>>
    decreases groups.len(),
{
    if groups.len() == 0 {
        Seq::empty()
    } else {
        let r = group_messages(groups.drop_last(), name, provided);
        if any_provided(provided, groups.last()) {
            r
        } else {
            r.push("参数未绑定: "@ + name + " 至少需要一个参数: "@ + joined_bars(groups.last()))
        }
    }
}

/// A message for each rule whose parameter is given without any of the
/// parameters it then requires.
pub open spec fn rule_messages(rules: Seq<RuleView>, name: Seq<char>, provided: Seq<Seq<char>>) -> Seq<Seq<char>>
    decreases rules.len(),
{
    if rules.len() == 0 {
        Seq::empty()
    } else {
        let r = rule_messages(rules.drop_last(), name, provided);
        let rule = rules.last();
        if !provided.contains(rule.when_present) || any_provided(provided, rule.requires_any_of) {
            r
        } else {
            r.push(
                "参数未绑定: "@ + name + " 在提供 "@ + rule.when_present + " 时至少需要一个参数: "@
                    + joined_bars(rule.requires_any_of),
            )
        }
    }
}

/// The messages for a call of `name` with the given parameters.
pub open spec fn contract_messages(c: ContractView, name: Seq<char>, provided: Seq<Seq<char>>) -> Seq<Seq<char>> {
    missing_messages(c.required_all, name, provided) + group_messages(c.one_of_groups, name, provided)
        + rule_messages(c.conditional_required, name, provided)
}

fn provided_has(provided: &[&str], p: &str) -> (r: bool)
    ensures
        r == str_list(provided@).contains(p@),
{
    let mut i: usize = 0;
    while i < provided.len()
        invariant
            i <= provided.len(),
            forall|k: int| 0 <= k < i ==> provided@[k]@ != p@,
        decreases provided.len() - i,
    {
        if str_eq(provided[i], p) {
            assert(str_list(provided@)[i as int] == p@);
            return true;
        }
        i = i + 1;
    }
    assert forall|k: int| 0 <= k < str_list(provided@).len() implies str_list(provided@)[k] != p@ by {
        assert(str_list(provided@)[k] == provided@[k]@);
    }
    false
}

fn any_of_provided(provided: &[&str], candidates: &Vec<String>) -> (r: bool)
    ensures
        r == any_provided(str_list(provided@), string_list(candidates@)),
{
    let mut i: usize = 0;
    while i < candidates.len()
        invariant
            i <= candidates.len(),
            forall|k: int| 0 <= k < i ==> !str_list(provided@).contains(#[trigger] string_list(candidates@)[k]),
        decreases candidates.len() - i,
    {
        if provided_has(provided, candidates[i].as_str()) {
            assert(str_list(provided@).contains(string_list(candidates@)[i as int]));
            return true;
        }
        i = i + 1;
    }
    false
}

fn push_text(out: &mut Vec<char>, s: &str)
    ensures
        final(out)@ == old(out)@ + s@,
{
    let mut cs = chars_of(s);
    out.append(&mut cs);
}

fn bar_joined(parts: &Vec<String>) -> (r: Vec<char>)
    ensures
        r@ == joined_bars(string_list(parts@)),
{
    let mut out: Vec<char> = Vec::new();
    let mut i: usize = 0;
    assert(string_list(parts@).subrange(0, 0) =~= Seq::<Seq<char>>::empty());
    while i < parts.len()
        invariant
            i <= parts.len(),
            out@ == joined_bars(string_list(parts@).subrange(0, i as int)),
        decreases parts.len() - i,
    {
        let ghost next = string_list(parts@).subrange(0, i + 1);
        assert(next.drop_last() =~= string_list(parts@).subrange(0, i as int));
        if i > 0 {
            push_text(&mut out, "|");
        }
        push_text(&mut out, parts[i].as_str());
        if i == 0 {
            assert(out@ =~= next[0]);
        }
        i = i + 1;
    }
    assert(string_list(parts@).subrange(0, parts.len() as int) =~= string_list(parts@));
    out
}

/// The messages for a call of a scripted effect `name` that gives the
/// parameters `provided`: each missing required parameter, each group of
/// which none is given, and each conditional requirement left unmet.
pub fn evaluate_param_contract(contract: &ParamContract, name: &str, provided: &[&str]) -> (r: Vec<String>)
    ensures
        string_list(r@) == contract_messages(contract_view(*contract), name@, str_list(provided@)),
{
    let ghost pv = str_list(provided@);
    let ghost cv = contract_view(*contract);
    let mut messages: Vec<String> = Vec::new();
    let mut i: usize = 0;
    assert(cv.required_all.subrange(0, 0) =~= Seq::<Seq<char>>::empty());
    while i < contract.required_all.len()
        invariant
            i <= contract.required_all.len(),
            pv == str_list(provided@),
            cv == contract_view(*contract),
            string_list(messages@) == missing_messages(cv.required_all.subrange(0, i as int), name@, pv),
        decreases contract.required_all.len() - i,
    {
        let required = &contract.required_all[i];
        let ghost next = cv.required_all.subrange(0, i + 1);
        assert(next.drop_last() =~= cv.required_all.subrange(0, i as int));
        assert(next.last() == required@);
        if !provided_has(provided, required.as_str()) {
            let mut m: Vec<char> = Vec::new();
            push_text(&mut m, "参数未绑定: ");
            push_text(&mut m, name);
            push_text(&mut m, " 缺失 ");
            push_text(&mut m, required.as_str());
            let ghost before = string_list(messages@);
            let msg = string_from_chars(m.as_slice());
            messages.push(msg);
            assert(string_list(messages@) =~= before.push(m@));
        }
        i = i + 1;
    }
    assert(cv.required_all.subrange(0, contract.required_all.len() as int) =~= cv.required_all);
    let ghost first = string_list(messages@);
    let mut g: usize = 0;
    assert(cv.one_of_groups.subrange(0, 0) =~= Seq::<Seq<Seq<char>>>::empty());
    assert(first + Seq::<Seq<char>>::empty() =~= first);
    while g < contract.one_of_groups.len()
        invariant
            g <= contract.one_of_groups.len(),
            pv == str_list(provided@),
            cv == contract_view(*contract),
            first == missing_messages(cv.required_all, name@, pv),
            string_list(messages@) == first + group_messages(cv.one_of_groups.subrange(0, g as int), name@, pv),
        decreases contract.one_of_groups.len() - g,
    {
        let group = &contract.one_of_groups[g];
        let ghost next = cv.one_of_groups.subrange(0, g + 1);
        assert(next.drop_last() =~= cv.one_of_groups.subrange(0, g as int));
        assert(next.last() == string_list(group@));
        if !any_of_provided(provided, group) {
            let mut m: Vec<char> = Vec::new();
            push_text(&mut m, "参数未绑定: ");
            push_text(&mut m, name);
            push_text(&mut m, " 至少需要一个参数: ");
            let mut joined = bar_joined(group);
            m.append(&mut joined);
            let ghost before = string_list(messages@);
            let msg = string_from_chars(m.as_slice());
            messages.push(msg);
            assert(string_list(messages@) =~= before.push(m@));
        }
        g = g + 1;
    }
    assert(cv.one_of_groups.subrange(0, contract.one_of_groups.len() as int) =~= cv.one_of_groups);
    let ghost second = string_list(messages@);
    let mut k: usize = 0;
    assert(cv.conditional_required.subrange(0, 0) =~= Seq::<RuleView>::empty());
    assert(second + Seq::<Seq<char>>::empty() =~= second);
    while k < contract.conditional_required.len()
        invariant
            k <= contract.conditional_required.len(),
            pv == str_list(provided@),
            cv == contract_view(*contract),
            second == missing_messages(cv.required_all, name@, pv) + group_messages(cv.one_of_groups, name@, pv),
            string_list(messages@) == second + rule_messages(cv.conditional_required.subrange(0, k as int), name@, pv),
        decreases contract.conditional_required.len() - k,
    {
        let rule = &contract.conditional_required[k];
        let ghost next = cv.conditional_required.subrange(0, k + 1);
        assert(next.drop_last() =~= cv.conditional_required.subrange(0, k as int));
        assert(next.last() == rule_view(*rule));
        if provided_has(provided, rule.when_present.as_str()) && !any_of_provided(provided, &rule.requires_any_of) {
            let mut m: Vec<char> = Vec::new();
            push_text(&mut m, "参数未绑定: ");
            push_text(&mut m, name);
            push_text(&mut m, " 在提供 ");
            push_text(&mut m, rule.when_present.as_str());
            push_text(&mut m, " 时至少需要一个参数: ");
            let mut joined = bar_joined(&rule.requires_any_of);
            m.append(&mut joined);
            let ghost before = string_list(messages@);
            let msg = string_from_chars(m.as_slice());
            messages.push(msg);
            assert(string_list(messages@) =~= before.push(m@));
        }
        k = k + 1;
    }
    assert(cv.conditional_required.subrange(0, contract.conditional_required.len() as int) =~= cv.conditional_required);
    messages
}

/// The names of a list of groups, one group after the other.
pub open spec fn concat_all(gs: Seq<Seq<Seq<char>>>) -> Seq<Seq<char>>
    decreases gs.len(),
{
    if gs.len() == 0 {
        Seq::empty()
    } else {
        concat_all(gs.drop_last()) + gs.last()
    }
}

/// The names of a list of rules: each rule's parameter, then those it
/// requires.
pub open spec fn rule_names(rs: Seq<RuleView>) -> Seq<Seq<char>>
    decreases rs.len(),
{
    if rs.len() == 0 {
        Seq::empty()
    } else {
        rule_names(rs.drop_last()) + seq![rs.last().when_present] + rs.last().requires_any_of
    }
}

/// Every name that a contract mentions, in order and with repeats.
pub open spec fn mentioned(c: ContractView) -> Seq<Seq<char>> {
    c.required_all + c.optional + concat_all(c.one_of_groups) + rule_names(c.conditional_required)
}

fn add_keys(out: &mut Vec<Vec<char>>, names: &Vec<String>)
    ensures
        views(final(out)@) == views(old(out)@) + string_list(names@),
{
    let mut i: usize = 0;
    while i < names.len()
        invariant
            i <= names.len(),
            views(out@) == views(old(out)@) + string_list(names@).subrange(0, i as int),
        decreases names.len() - i,
    {
        let ghost before = views(out@);
        out.push(chars_of(names[i].as_str()));
        assert(views(out@) =~= before.push(string_list(names@)[i as int]));
        assert(string_list(names@).subrange(0, i + 1) =~= string_list(names@).subrange(0, i as int).push(string_list(names@)[i as int]));
        i = i + 1;
        assert(views(out@) =~= views(old(out)@) + string_list(names@).subrange(0, i as int));
    }
    assert(string_list(names@).subrange(0, names.len() as int) =~= string_list(names@));
}

/// The names that the contract registered for `local_name` mentions, sorted
/// and without repeats; none where no contract is registered.
pub fn explicit_contract_param_names(local_name: &str) -> (r: Vec<String>)
    ensures
        strictly_sorted(string_list(r@)),
        forall|p: Seq<char>| string_list(r@).contains(p) <==> (registered_contract(local_name@) matches Some(c) && mentioned(c).contains(p)),
{
    let contract = match registered_param_contract(local_name) {
        Some(c) => c,
        None => {
            let r: Vec<String> = Vec::new();
            assert(string_list(r@) =~= Seq::<Seq<char>>::empty());
            return r;
        },
    };
    let ghost cv = contract_view(contract);
    let mut keys: Vec<Vec<char>> = Vec::new();
    assert(views(keys@) =~= Seq::<Seq<char>>::empty());
    add_keys(&mut keys, &contract.required_all);
    add_keys(&mut keys, &contract.optional);
    let ghost base = cv.required_all + cv.optional;
    assert(views(keys@) =~= base);
    let mut g: usize = 0;
    assert(cv.one_of_groups.subrange(0, 0) =~= Seq::<Seq<Seq<char>>>::empty());
    while g < contract.one_of_groups.len()
        invariant
            g <= contract.one_of_groups.len(),
            cv == contract_view(contract),
            base == cv.required_all + cv.optional,
            views(keys@) == base + concat_all(cv.one_of_groups.subrange(0, g as int)),
        decreases contract.one_of_groups.len() - g,
    {
        add_keys(&mut keys, &contract.one_of_groups[g]);
        let ghost next = cv.one_of_groups.subrange(0, g + 1);
        assert(next.drop_last() =~= cv.one_of_groups.subrange(0, g as int));
        assert(next.last() == string_list(contract.one_of_groups@[g as int]@));
        g = g + 1;
        assert(views(keys@) =~= base + concat_all(cv.one_of_groups.subrange(0, g as int)));
    }
    assert(cv.one_of_groups.subrange(0, contract.one_of_groups.len() as int) =~= cv.one_of_groups);
    let ghost base2 = base + concat_all(cv.one_of_groups);
    let mut k: usize = 0;
    assert(cv.conditional_required.subrange(0, 0) =~= Seq::<RuleView>::empty());
    assert(views(keys@) =~= base2 + rule_names(Seq::<RuleView>::empty()));
    while k < contract.conditional_required.len()
        invariant
            k <= contract.conditional_required.len(),
            cv == contract_view(contract),
            base2 == cv.required_all + cv.optional + concat_all(cv.one_of_groups),
            views(keys@) == base2 + rule_names(cv.conditional_required.subrange(0, k as int)),
        decreases contract.conditional_required.len() - k,
    {
        let rule = &contract.conditional_required[k];
        let ghost next = cv.conditional_required.subrange(0, k + 1);
        assert(next.drop_last() =~= cv.conditional_required.subrange(0, k as int));
        assert(next.last() == rule_view(*rule));
        let ghost before = views(keys@);
        keys.push(chars_of(rule.when_present.as_str()));
        assert(views(keys@) =~= before.push(rule.when_present@));
        add_keys(&mut keys, &rule.requires_any_of);
        k = k + 1;
        assert(views(keys@) =~= base2 + rule_names(cv.conditional_required.subrange(0, k as int)));
    }
    assert(cv.conditional_required.subrange(0, contract.conditional_required.len() as int) =~= cv.conditional_required);
    assert(views(keys@) =~= mentioned(cv));
    let sorted = sorted_unique(&keys);
    let mut r: Vec<String> = Vec::new();
    let mut i: usize = 0;
    while i < sorted.len()
        invariant
            i <= sorted.len(),
            string_list(r@) == views(sorted@).subrange(0, i as int),
        decreases sorted.len() - i,
    {
        let ghost before = string_list(r@);
        let t = string_from_chars(sorted[i].as_slice());
        r.push(t);
        assert(string_list(r@) =~= before.push(views(sorted@)[i as int]));
        assert(views(sorted@).subrange(0, i + 1) =~= views(sorted@).subrange(0, i as int).push(views(sorted@)[i as int]));
        i = i + 1;
    }
    assert(views(sorted@).subrange(0, sorted.len() as int) =~= views(sorted@));
    r
}


/// `b` is `a` with at most its parameter contract changed.
pub open spec fn same_but_contract(a: crate::scope_inference::SymbolDefinition, b: crate::scope_inference::SymbolDefinition) -> bool {
    &&& b.kind == a.kind
    &&& b.name == a.name
    &&& b.module == a.module
    &&& b.local_name == a.local_name
    &&& b.mod_id == a.mod_id
    &&& b.path == a.path
    &&& b.line == a.line
    &&& b.column == a.column
    &&& b.scope_id == a.scope_id
    &&& b.declared_this_type == a.declared_this_type
    &&& b.inferred_this_type == a.inferred_this_type
    &&& b.inferred_this_mask == a.inferred_this_mask
    &&& b.inferred_from_mask == a.inferred_from_mask
    &&& b.required_params == a.required_params
    &&& b.optional_params == a.optional_params
    &&& b.scope_param_names == a.scope_param_names
}

/// The contract a definition carries once the registered contracts are
/// applied: none but for a scripted effect; the one it has, or else the one
/// registered for its name.
pub open spec fn applied_contract(d: crate::scope_inference::SymbolDefinition) -> Option<ContractView> {
    if d.kind != crate::scope_inference::SymbolKind::ScriptedEffect {
        None
    } else {
        match d.param_contract {
            Some(c) => Some(contract_view(c)),
            None => registered_contract(d.local_name@),
        }
    }
}

/// Applying the registered contracts a second time changes nothing: a
/// definition that carries the contract it was given keeps it.
pub proof fn lemma_applied_contract_is_stable(
    d: crate::scope_inference::SymbolDefinition,
    e: crate::scope_inference::SymbolDefinition,
)
    requires
        same_but_contract(d, e),
        applied_contract(d) == match e.param_contract {
            Some(c) => Some(contract_view(c)),
            None => None,
        },
    ensures
        applied_contract(e) == applied_contract(d),
{
}

/// The contract a definition carries, by its view.
pub open spec fn carried_contract(d: crate::scope_inference::SymbolDefinition) -> Option<ContractView> {
    match d.param_contract {
        Some(c) => Some(contract_view(c)),
        None => None,
    }
}

/// `b` is `a` with the registered contracts applied: everything but the
/// contracts of the definitions stays, and each definition carries the
/// contract `applied_contract` gives it.
pub open spec fn registered_contracts_applied(a: crate::scope_inference::SymbolIndex, b: crate::scope_inference::SymbolIndex) -> bool {
    &&& b.scopes@ == a.scopes@
    &&& b.references@ == a.references@
    &&& b.key_usages@ == a.key_usages@
    &&& b.definitions@.len() == a.definitions@.len()
    &&& forall|i: int|
        0 <= i < a.definitions@.len() ==> same_but_contract(a.definitions@[i], #[trigger] b.definitions@[i])
            && applied_contract(a.definitions@[i]) == carried_contract(b.definitions@[i])
}

/// Applying the registered contracts twice gives what applying them once
/// gave: the second application keeps every part of the index, every field
/// of every definition, and the contract each one carries.
pub proof fn lemma_apply_twice_is_apply_once(
    a: crate::scope_inference::SymbolIndex,
    b: crate::scope_inference::SymbolIndex,
    c: crate::scope_inference::SymbolIndex,
)
    requires
        registered_contracts_applied(a, b),
        registered_contracts_applied(b, c),
    ensures
        c.scopes@ == b.scopes@,
        c.references@ == b.references@,
        c.key_usages@ == b.key_usages@,
        c.definitions@.len() == b.definitions@.len(),
        forall|i: int|
            0 <= i < b.definitions@.len() ==> same_but_contract(b.definitions@[i], #[trigger] c.definitions@[i])
                && carried_contract(c.definitions@[i]) == carried_contract(b.definitions@[i]),
{
    assert forall|i: int| 0 <= i < b.definitions@.len() implies same_but_contract(b.definitions@[i], #[trigger] c.definitions@[i])
        && carried_contract(c.definitions@[i]) == carried_contract(b.definitions@[i]) by {
        lemma_applied_contract_is_stable(a.definitions@[i], b.definitions@[i]);
    }
}

/// Gives each scripted effect without a contract the one registered for its
/// name, and takes the contract from every other symbol.
pub fn apply_registered_param_contracts(index: &mut crate::scope_inference::SymbolIndex)
    ensures
        registered_contracts_applied(*old(index), *final(index)),
        final(index).scopes@ == old(index).scopes@,
        final(index).references@ == old(index).references@,
        final(index).key_usages@ == old(index).key_usages@,
        final(index).definitions@.len() == old(index).definitions@.len(),
        forall|i: int|
            0 <= i < old(index).definitions@.len() ==> same_but_contract(old(index).definitions@[i], #[trigger] final(index).definitions@[i])
                && applied_contract(old(index).definitions@[i]) == match final(index).definitions@[i].param_contract {
                    Some(c) => Some(contract_view(c)),
                    None => None,
                },
        forall|i: int|
            0 <= i < old(index).definitions@.len() ==> (old(index).definitions@[i].kind == crate::scope_inference::SymbolKind::ScriptedEffect
                && old(index).definitions@[i].param_contract is Some) ==> #[trigger] final(index).definitions@[i].param_contract
                == old(index).definitions@[i].param_contract,
{
    let mut i: usize = 0;
    while i < index.definitions.len()
        invariant
            i <= index.definitions.len(),
            index.scopes@ == old(index).scopes@,
            index.references@ == old(index).references@,
            index.key_usages@ == old(index).key_usages@,
            index.definitions@.len() == old(index).definitions@.len(),
            forall|j: int|
                i <= j < index.definitions@.len() ==> #[trigger] index.definitions@[j] == old(index).definitions@[j],
            forall|j: int|
                0 <= j < i ==> same_but_contract(old(index).definitions@[j], #[trigger] index.definitions@[j])
                    && applied_contract(old(index).definitions@[j]) == match index.definitions@[j].param_contract {
                        Some(c) => Some(contract_view(c)),
                        None => None,
                    },
            forall|j: int|
                0 <= j < i ==> (old(index).definitions@[j].kind == crate::scope_inference::SymbolKind::ScriptedEffect
                    && old(index).definitions@[j].param_contract is Some) ==> #[trigger] index.definitions@[j].param_contract
                    == old(index).definitions@[j].param_contract,
        decreases index.definitions.len() - i,
    {
        let ghost before = index.definitions@;
        let mut d = index.definitions.remove(i);
        if d.kind != crate::scope_inference::SymbolKind::ScriptedEffect {
            d.param_contract = None;
        } else if d.param_contract.is_none() {
            d.param_contract = registered_param_contract(d.local_name.as_str());
        }
        index.definitions.insert(i, d);
        assert(index.definitions@ =~= before.update(i as int, d));
        i = i + 1;
    }
}


/// The message for a call of `add_age_modifier` that leaves out `param`,
/// when it does.
pub open spec fn age_modifier_missing(provided: Seq<Seq<char>>, param: Seq<char>) -> Seq<Seq<char>> {
    if provided.contains(param) {
        Seq::empty()
    } else {
        seq!["参数未绑定: add_age_modifier 缺失 "@ + param]
    }
}

/// `add_age_modifier` needs an age, a name and a duration: a call is told
/// of each of them that it leaves out, in that order, and of nothing else,
/// whatever else it provides.
pub proof fn lemma_add_age_modifier_needs_age_name_and_duration(provided: Seq<Seq<char>>)
    ensures
        registered_contract("add_age_modifier"@) is Some,
        contract_messages(registered_contract("add_age_modifier"@)->0, "add_age_modifier"@, provided)
            == age_modifier_missing(provided, "age"@) + age_modifier_missing(provided, "name"@)
            + age_modifier_missing(provided, "duration"@),
{
    reveal_strlit("add_age_modifier");
    reveal_strlit("complex_dynamic_effect");
    reveal_strlit("complex_dynamic_effect_without_alternative");
    reveal_strlit("ME_give_claims");
    reveal_strlit("give_claims");
    reveal_strlit("add_prestige_or_monarch_power");
    reveal_strlit("add_army_tradition_or_mil_power");
    reveal_strlit("country_event_with_option_insight");
    reveal_strlit("参数未绑定: ");
    reveal_strlit(" 缺失 ");
    reveal_strlit("参数未绑定: add_age_modifier 缺失 ");
    let n = "add_age_modifier"@;
    assert(n.len() == 16);
    assert(n != "complex_dynamic_effect"@);
    assert(n != "complex_dynamic_effect_without_alternative"@);
    assert(n != "ME_give_claims"@);
    assert(n != "give_claims"@);
    assert(n != "add_prestige_or_monarch_power"@);
    assert(n != "add_army_tradition_or_mil_power"@);
    assert(n != "country_event_with_option_insight"@);
    let c = registered_contract(n)->0;
    assert(c.required_all =~= seq!["age"@, "name"@, "duration"@]);
    assert(c.one_of_groups =~= Seq::<Seq<Seq<char>>>::empty());
    assert(c.conditional_required =~= Seq::<RuleView>::empty());
    let req = c.required_all;
    assert(req.drop_last() =~= seq!["age"@, "name"@]);
    assert(req.drop_last().drop_last() =~= seq!["age"@]);
    assert(req.drop_last().drop_last().drop_last() =~= Seq::<Seq<char>>::empty());
    reveal_with_fuel(missing_messages, 4);
    let prefix = "参数未绑定: "@ + n + " 缺失 "@;
    assert(prefix =~= "参数未绑定: add_age_modifier 缺失 "@);
    assert(contract_messages(c, n, provided) =~= age_modifier_missing(provided, "age"@) + age_modifier_missing(provided, "name"@)
        + age_modifier_missing(provided, "duration"@));
}

} // verus!
