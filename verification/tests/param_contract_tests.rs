use foch_language::model::{ConditionalParamRule, ParamContract};
use foch_language::param_contracts::{
    complex_dynamic_effect_contract, complex_dynamic_effect_optional_params,
    evaluate_param_contract, explicit_contract_param_names, registered_param_contract,
};

fn strings(items: &[&str]) -> Vec<String> {
    items.iter().map(|s| s.to_string()).collect()
}

#[test]
fn registered_contracts_cover_known_effects() {
    assert!(registered_param_contract("ME_give_claims").is_some());
    assert!(registered_param_contract("give_claims").is_some());
    assert!(registered_param_contract("pick_best_tags").is_some());
    assert!(registered_param_contract("ME_add_years_of_trade_income").is_some());
    assert!(registered_param_contract("for").is_some());
    assert!(registered_param_contract("no_such_effect").is_none());
    assert!(registered_param_contract("GIVE_CLAIMS").is_none());
}

#[test]
fn registered_contract_contents() {
    let claims = registered_param_contract("give_claims").unwrap();
    assert_eq!(
        claims,
        ParamContract {
            required_all: Vec::new(),
            optional: Vec::new(),
            one_of_groups: vec![strings(&["area", "region", "province", "id"])],
            conditional_required: Vec::new(),
        }
    );
    let insight = registered_param_contract("country_event_with_insight").unwrap();
    assert_eq!(insight.required_all, strings(&["id", "insight_tooltip"]));
    assert_eq!(insight.optional, strings(&["days", "random", "tooltip", "effect_tooltip"]));
    let for_loop = registered_param_contract("for").unwrap();
    assert_eq!(for_loop.required_all, strings(&["amount", "effect"]));
}

#[test]
fn complex_dynamic_effect_parameters() {
    let plain = complex_dynamic_effect_optional_params(false);
    assert_eq!(plain.len(), 30);
    assert_eq!(plain[0], "second_custom_tooltip");
    assert_eq!(plain[2], "second_effect");
    assert_eq!(plain[21], "nineth_custom_tooltip");
    assert_eq!(plain[26], "tenth_effect");
    assert_eq!(plain[27], "eigth_custom_tooltip");
    assert_eq!(plain[29], "eigth_effect");
    let combined = complex_dynamic_effect_optional_params(true);
    assert_eq!(combined.len(), 31);
    assert_eq!(combined[30], "combined_effect");
    let contract = complex_dynamic_effect_contract(true);
    assert_eq!(
        contract.required_all,
        strings(&["first_custom_tooltip", "first_limit", "first_effect"])
    );
    assert_eq!(registered_param_contract("complex_dynamic_effect_without_alternative"), Some(contract));
    assert_eq!(
        registered_param_contract("complex_dynamic_effect").unwrap().optional,
        plain
    );
}

#[test]
fn evaluation_reports_each_unmet_requirement() {
    let contract = ParamContract {
        required_all: strings(&["id", "effect"]),
        optional: strings(&["days"]),
        one_of_groups: vec![strings(&["area", "region"]), strings(&["x"])],
        conditional_required: vec![ConditionalParamRule {
            when_present: "days".to_string(),
            requires_any_of: strings(&["random", "tooltip"]),
        }],
    };
    let messages = evaluate_param_contract(&contract, "my_effect", &["effect", "days", "x"]);
    assert_eq!(
        messages,
        strings(&[
            "参数未绑定: my_effect 缺失 id",
            "参数未绑定: my_effect 至少需要一个参数: area|region",
            "参数未绑定: my_effect 在提供 days 时至少需要一个参数: random|tooltip",
        ])
    );
    let satisfied =
        evaluate_param_contract(&contract, "my_effect", &["id", "effect", "region", "x", "days", "tooltip"]);
    assert!(satisfied.is_empty());
    let without_days = evaluate_param_contract(&contract, "e", &["id", "effect", "area", "x"]);
    assert!(without_days.is_empty());
}

#[test]
fn explicit_names_are_sorted_and_unique() {
    assert_eq!(
        explicit_contract_param_names("give_claims"),
        strings(&["area", "id", "province", "region"])
    );
    assert_eq!(
        explicit_contract_param_names("country_event_with_effect_insight"),
        strings(&["days", "effect", "id", "random", "tooltip"])
    );
    assert!(explicit_contract_param_names("unknown").is_empty());
    let complex = explicit_contract_param_names("complex_dynamic_effect");
    assert_eq!(complex.len(), 33);
    assert!(complex.windows(2).all(|w| w[0] < w[1]));
}
