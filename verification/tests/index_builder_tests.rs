use foch_language::eu4_builtin::{load_lookup, BuiltinCatalog, BuiltinLookup, BuiltinSymbol};
use foch_language::analysis::check_missing_effect_parameters;
use foch_language::model::{FindingChannel, ParamContract, ScopeType, Severity};
use foch_language::param_contracts::{apply_registered_param_contracts, registered_param_contract};
use foch_language::scope_inference::{SymbolDefinition, SymbolIndex, SymbolKind, SymbolReference};
use foch_language::scope_tree::ScopeTree;
use foch_language::index_builder::build_semantic_index;
use foch_language::parser::parse_clausewitz_content;
use foch_language::semantic_index::{assemble_parsed_script_file, ParsedScriptFile};

fn strings(items: &[&str]) -> Vec<String> {
    items.iter().map(|s| s.to_string()).collect()
}

fn symbols(items: &[&str]) -> Vec<BuiltinSymbol> {
    items
        .iter()
        .map(|s| BuiltinSymbol {
            name: s.to_string(),
        })
        .collect()
}

fn builtins() -> BuiltinLookup {
    load_lookup(&BuiltinCatalog {
        reserved_keywords: strings(&["if", "else", "limit", "trigger", "AND", "OR", "NOT"]),
        contextual_keywords: strings(&["hidden_effect", "custom_tooltip", "tooltip"]),
        alias_keywords: strings(&["ROOT", "FROM", "PREV", "THIS"]),
        builtin_triggers: symbols(&["has_country_flag", "tag"]),
        builtin_effects: symbols(&[
            "add_country_modifier",
            "set_country_flag",
            "add_government_power",
            "add_prestige",
            "add_stability",
            "save_event_target_as",
            "add_permanent_claim",
        ]),
        builtin_scope_changers: symbols(&["owner"]),
        builtin_iterators: symbols(&["every_country"]),
        builtin_special_blocks: symbols(&[]),
        game_only_candidates: symbols(&[]),
    })
}

fn parsed_file(mod_id: &str, relative: &str, source: &str) -> ParsedScriptFile {
    let parsed = parse_clausewitz_content(relative.to_string(), source);
    assemble_parsed_script_file(
        mod_id,
        format!("mod/{relative}"),
        relative.to_string(),
        parsed,
        source.to_string(),
        false,
    )
}

fn fourth_wave_contract_definitions() -> &'static str {
	r#"
unlock_estate_privilege = {
custom_tooltip = unlock_privilege_$estate_privilege$_tt
hidden_effect = {
	set_country_flag = unlocked_privilege_$estate_privilege$
}
[[modifier_tooltip]
	custom_tooltip = unlock_estate_privilege_modifier_tooltip_tt
	tooltip = {
		add_country_modifier = {
			name = $modifier_tooltip$
			duration = -1
			desc = UNTIL_PRIVILEGE_REVOKED
		}
	}
]
[[effect_tooltip]
	custom_tooltip = unlock_estate_privilege_effect_tooltip_tt
	tooltip = {
		$effect_tooltip$
	}
]
}

HAB_change_habsburg_glory = {
[[remove]
	add_government_power = {
		value = -$remove$
	}
]
[[amount]
	add_government_power = {
		value = $amount$
	}
]
}

add_legitimacy_or_reform_progress = {
[[amount]
	tooltip = {
		add_legitimacy_equivalent = { amount = $amount$ }
	}
]
[[value]
	tooltip = {
		add_legitimacy_equivalent = { amount = $value$ }
	}
]
}

EE_change_variable = {
[[add]
	change_variable = {
		which = $which$
		value = $add$
	}
]
[[subtract]
	subtract_variable = {
		which = $which$
		value = $subtract$
	}
]
[[divide]
	divide_variable = {
		which = $which$
		value = $divide$
	}
]
[[multiply]
	multiply_variable = {
		which = $which$
		value = $multiply$
	}
]
}

build_as_many_as_possible = {
[[upgrade_target]$pick_best_function$ = {
	scope = every_owned_province
	trigger = "$all_prior_trig$
		can_build = $new_building$"
}]
[[construct_new]$pick_best_function$ = {
	scope = every_owned_province
	trigger = "can_build = $new_building$"
}]
event_target:highest_score_trade = {
	add_building_construction = {
		building = $new_building$
		speed = $speed$
		cost = $cost$
	}
}
}

give_claims = {
[[province] custom_tooltip = $province$ ]
[[id] custom_tooltip = $id$ ]
[[area] custom_tooltip = $area$ ]
[[region] custom_tooltip = $region$ ]
}

pick_best_tags = {
[[scope] custom_tooltip = $scope$ ]
custom_tooltip = $scale$
custom_tooltip = $event_target_name$
custom_tooltip = "$global_trigger$"
[[1] custom_tooltip = "$1$" ]
[[2] custom_tooltip = "$2$" ]
[[3] custom_tooltip = "$3$" ]
[[4] custom_tooltip = "$4$" ]
[[5] custom_tooltip = "$5$" ]
[[10] custom_tooltip = "$10$" ]
}

ME_add_years_of_trade_income = {
[[years] add_years_of_trade_income = { years = $years$ } ]
[[value] add_years_of_trade_income = { years = $value$ } ]
[[amount] add_years_of_trade_income = { years = $amount$ } ]
}

ME_tim_add_spoils_of_war = {
[[add]
	add_government_power = {
		value = $add$
	}
]
[[remove]
	add_government_power = {
		value = -$remove$
	}
]
}

ME_add_power_projection = {
[[amount]
	add_power_projection = {
		amount = $amount$
	}
]
[[value]
	add_power_projection = {
		amount = $value$
	}
]
}

create_general_scaling_with_tradition_and_pips = {
create_general_with_pips = {
	tradition = 100
	[[add_fire] add_fire = $add_fire$ ]
	[[add_shock] add_shock = $add_shock$ ]
	[[add_manuever] add_manuever = $add_manuever$ ]
	[[add_siege] add_siege = $add_siege$ ]
}
}

ME_automatic_colonization_effect_module = {
any_province = {
	OR = {
		[[superregion]
			superregion = $superregion$
		]
		[[region]
			colonial_region = $region$
		]
	}
}
$target_region_effect$ = yes
}

country_event_with_insight = {
country_event = {
	id = $id$
	[[days] days = $days$]
	[[random] random = $random$]
	[[tooltip] tooltip = $tooltip$]
}
custom_tooltip = EVENT_INSIGHT_INTRO
custom_tooltip = $insight_tooltip$
[[effect_tooltip] tooltip = { $effect_tooltip$ }]
}

define_and_hire_grand_vizier = {
hire_advisor = {
	type = $type$
	[[skill] skill = $skill$]
	[[culture] culture = $culture$]
	[[religion] religion = $religion$]
	[[female] female = $female$]
	[[age] age = $age$]
	[[max_age] max_age = $max_age$]
	[[min_age] min_age = $min_age$]
	[[location] location = $location$]
}
add_country_modifier = {
	name = grand_vizier_$type$
	duration = -1
	desc = UNTIL_ADVISOR_REMOVAL
}
}

ME_override_country_name = {
[[country_name] override_country_name = $country_name$ ]
[[name] override_country_name = $name$ ]
[[country] override_country_name = $country$ ]
[[value] override_country_name = $value$ ]
[[string] override_country_name = $string$ ]
hidden_effect = {
	set_country_flag = ME_overrid_country_name
}
}

persia_indian_hegemony_decision_march_effect = {
$tag_1$ = {
	custom_tooltip = persia_indian_hegemony_decision_march_$province$_tt_release_march
}
[[tag_2] $tag_2$ = { }]
[[tag_3] $tag_3$ = { }]
[[tag_4] $tag_4$ = { }]
[[tag_5] $tag_5$ = { }]
$trade_company_region$ = {
	add_permanent_claim = event_target:persia_march_target
}
$province$ = {
	owner = {
		save_event_target_as = persia_march_target
	}
}
}

persia_indian_hegemony_decision_coup_effect = {
$province$ = {
	owner = {
		save_event_target_as = persia_coup_target
	}
}
$tag_1$ = {
	custom_tooltip = persia_indian_hegemony_decision_coup_$province$_tt_independence
}
[[tag_2] $tag_2$ = { }]
[[tag_3] $tag_3$ = { }]
[[tag_4] $tag_4$ = { }]
[[tag_5] $tag_5$ = { }]
}
"#
}

fn fourth_wave_s004_messages(call_rel_path: &[&str], call_source: &str) -> Vec<String> {
    let parsed = vec![
        parsed_file(
            "1013",
            "common/scripted_effects/fourth_wave_contracts.txt",
            fourth_wave_contract_definitions(),
        ),
        parsed_file("1013", &call_rel_path.join("/"), call_source),
    ];
    let index = build_semantic_index(&parsed, &builtins());
    check_missing_effect_parameters(&index.symbols)
        .into_iter()
        .filter(|finding| finding.rule_id == "S004")
        .map(|finding| finding.message)
        .collect()
}

#[test]
fn fourth_wave_param_contracts_cover_real_corpus_hotspots() {
	let s004_messages = fourth_wave_s004_messages(
		&["events", "fourth_wave_contracts.txt"],
		r#"
namespace = test
country_event = {
id = test.4
immediate = {
	unlock_estate_privilege = {
		estate_privilege = estate_church_anti_heresy_act
	}
	HAB_change_habsburg_glory = {
		remove = 20
	}
	HAB_change_habsburg_glory = {
		amount = 15
	}
	add_legitimacy_or_reform_progress = {
		amount = 25
	}
	add_legitimacy_or_reform_progress = {
		value = 10
	}
	EE_change_variable = {
		which = papal_authority_value
		divide = 2
	}
	EE_change_variable = {
		which = papal_authority_value
		multiply = 3
	}
	ME_tim_add_spoils_of_war = {
		add = 2
	}
	ME_tim_add_spoils_of_war = {
		remove = 1
	}
	ME_add_power_projection = {
		amount = 25
	}
	ME_add_power_projection = {
		value = 10
	}
	create_general_scaling_with_tradition_and_pips = { }
	create_general_scaling_with_tradition_and_pips = {
		add_shock = 1
		add_manuever = 1
	}
	ME_automatic_colonization_effect_module = {
		target_region_effect = autonomous_colonist_region_north_africa_colonizing_effect
		superregion = africa_superregion
	}
	ME_automatic_colonization_effect_module = {
		target_region_effect = autonomous_colonist_region_mexico_colonizing_effect
		region = colonial_mexico
	}
	country_event_with_insight = {
		id = test.6
		insight_tooltip = INSIGHT_JUST_TOOLTIP
	}
	country_event_with_insight = {
		id = test.7
		insight_tooltip = ENG_we_will_be_able_to_form
		effect_tooltip = "
			add_stability = 1
		"
	}
	define_and_hire_grand_vizier = {
		type = artist
	}
	define_and_hire_grand_vizier = {
		type = inquisitor
		age = 45
		religion = catholic
	}
	ME_override_country_name = {
		string = NED_united_provinces_name
	}
	ME_override_country_name = {
		name = Ducal_PRU
	}
	persia_indian_hegemony_decision_march_effect = {
		province = 563
		tag_1 = BNG
		tag_2 = TRT
		tag_3 = MKP
		trade_company_region = trade_company_east_india
	}
	persia_indian_hegemony_decision_coup_effect = {
		province = 563
		tag_1 = BNG
		tag_2 = TRT
		tag_3 = MKP
	}
	build_as_many_as_possible = {
		new_building = naval_battery
		upgrade_target = coastal_defence
		pick_best_function = pick_best_navydef_province
		cost = 1
		speed = 1
	}
	give_claims = {
		area = austria_area
	}
	give_claims = {
		id = 134
	}
	pick_best_tags = {
		scale = total_development
		event_target_name = claim_target
		global_trigger = "tag = HAB"
	}
	pick_best_tags = {
		scope = every_country
		scale = total_development
		event_target_name = scoped_claim_target
		global_trigger = "tag = HAB"
		1 = yes
		2 = yes
	}
	ME_add_years_of_trade_income = {
		value = 1
	}
	ME_add_years_of_trade_income = {
		years = 5
	}
}
}
"#,
	);

	for name in [
		"unlock_estate_privilege",
		"HAB_change_habsburg_glory",
		"add_legitimacy_or_reform_progress",
		"EE_change_variable",
		"ME_tim_add_spoils_of_war",
		"ME_add_power_projection",
		"create_general_scaling_with_tradition_and_pips",
		"ME_automatic_colonization_effect_module",
		"country_event_with_insight",
		"define_and_hire_grand_vizier",
		"ME_override_country_name",
		"persia_indian_hegemony_decision_march_effect",
		"persia_indian_hegemony_decision_coup_effect",
		"build_as_many_as_possible",
		"give_claims",
		"pick_best_tags",
		"ME_add_years_of_trade_income",
	] {
		assert!(
			!s004_messages.iter().any(|message| message.contains(name)),
			"{name} should not produce S004: {s004_messages:?}"
		);
	}
}

#[test]
fn fourth_wave_param_contracts_preserve_required_and_one_of_constraints() {
	let s004_messages = fourth_wave_s004_messages(
		&["events", "fourth_wave_contract_failures.txt"],
		r#"
namespace = test
country_event = {
id = test.5
immediate = {
	unlock_estate_privilege = { }
	HAB_change_habsburg_glory = { }
	add_legitimacy_or_reform_progress = { }
	EE_change_variable = {
		which = papal_authority_value
	}
	EE_change_variable = {
		add = 5
	}
	ME_tim_add_spoils_of_war = { }
	ME_add_power_projection = { }
	ME_automatic_colonization_effect_module = {
		target_region_effect = autonomous_colonist_region_north_africa_colonizing_effect
	}
	ME_automatic_colonization_effect_module = {
		region = colonial_mexico
	}
	country_event_with_insight = {
		id = test.6
	}
	country_event_with_insight = {
		insight_tooltip = INSIGHT_JUST_TOOLTIP
	}
	define_and_hire_grand_vizier = { }
	ME_override_country_name = { }
	persia_indian_hegemony_decision_march_effect = {
		province = 563
		trade_company_region = trade_company_east_india
	}
	persia_indian_hegemony_decision_march_effect = {
		tag_1 = BNG
		trade_company_region = trade_company_east_india
	}
	persia_indian_hegemony_decision_march_effect = {
		province = 563
		tag_1 = BNG
	}
	persia_indian_hegemony_decision_coup_effect = {
		province = 563
	}
	persia_indian_hegemony_decision_coup_effect = {
		tag_1 = BNG
	}
	build_as_many_as_possible = {
		new_building = naval_battery
		upgrade_target = coastal_defence
		cost = 1
		speed = 1
	}
	give_claims = { }
	pick_best_tags = {
		event_target_name = claim_target
		global_trigger = "tag = HAB"
	}
	pick_best_tags = {
		scale = total_development
		global_trigger = "tag = HAB"
	}
	pick_best_tags = {
		scale = total_development
		event_target_name = claim_target
	}
	ME_add_years_of_trade_income = { }
}
}
"#,
	);

	for snippet in [
		"unlock_estate_privilege 缺失 estate_privilege",
		"HAB_change_habsburg_glory 至少需要一个参数: amount|remove",
		"add_legitimacy_or_reform_progress 至少需要一个参数: amount|value",
		"EE_change_variable 至少需要一个参数: add|subtract|divide|multiply",
		"EE_change_variable 缺失 which",
		"ME_tim_add_spoils_of_war 至少需要一个参数: add|remove",
		"ME_add_power_projection 至少需要一个参数: amount|value",
		"ME_automatic_colonization_effect_module 至少需要一个参数: region|superregion",
		"ME_automatic_colonization_effect_module 缺失 target_region_effect",
		"country_event_with_insight 缺失 insight_tooltip",
		"country_event_with_insight 缺失 id",
		"define_and_hire_grand_vizier 缺失 type",
		"ME_override_country_name 至少需要一个参数: country_name|name|country|value|string",
		"persia_indian_hegemony_decision_march_effect 缺失 province",
		"persia_indian_hegemony_decision_march_effect 缺失 tag_1",
		"persia_indian_hegemony_decision_march_effect 缺失 trade_company_region",
		"persia_indian_hegemony_decision_coup_effect 缺失 province",
		"persia_indian_hegemony_decision_coup_effect 缺失 tag_1",
		"build_as_many_as_possible 缺失 pick_best_function",
		"give_claims 至少需要一个参数: area|region|province|id",
		"pick_best_tags 缺失 scale",
		"pick_best_tags 缺失 event_target_name",
		"pick_best_tags 缺失 global_trigger",
		"ME_add_years_of_trade_income 至少需要一个参数: years|value|amount",
	] {
		assert!(
			s004_messages
				.iter()
				.any(|message| message.contains(snippet)),
			"missing expected S004 snippet {snippet}: {s004_messages:?}"
		);
	}
}

#[test]
fn apply_registered_param_contracts_preserves_existing_contracts() {
    let mut index = SymbolIndex {
        scopes: ScopeTree::new(),
        definitions: Vec::new(),
        references: Vec::new(),
        key_usages: Vec::new(),
    };
    index.definitions.push(SymbolDefinition {
        kind: SymbolKind::ScriptedEffect,
        name: "custom.effect".to_string(),
        module: "test".to_string(),
        local_name: "ME_give_claims".to_string(),
        mod_id: "1000".to_string(),
        path: "common/scripted_effects/test.txt".to_string(),
        line: 1,
        column: 1,
        scope_id: 0,
        declared_this_type: ScopeType::Country,
        inferred_this_type: ScopeType::Country,
        inferred_this_mask: 0b01,
        inferred_from_mask: 0,
        required_params: Vec::new(),
        param_contract: Some(ParamContract {
            required_all: vec!["custom".to_string()],
            optional: Vec::new(),
            one_of_groups: Vec::new(),
            conditional_required: Vec::new(),
        }),
        optional_params: Vec::new(),
        scope_param_names: Vec::new(),
    });

    apply_registered_param_contracts(&mut index);

    let definition = index.definitions.first().expect("definition");
    assert_eq!(
        definition.param_contract.as_ref().expect("param contract"),
        &ParamContract {
            required_all: vec!["custom".to_string()],
            optional: Vec::new(),
            one_of_groups: Vec::new(),
            conditional_required: Vec::new(),
        }
    );
    assert!(registered_param_contract("ME_give_claims").is_some());
    assert!(registered_param_contract("give_claims").is_some());
    assert!(registered_param_contract("pick_best_tags").is_some());
    assert!(registered_param_contract("ME_add_years_of_trade_income").is_some());
}

#[test]
fn registered_contracts_reach_effects_and_leave_other_symbols() {
    let mut index = SymbolIndex {
        scopes: ScopeTree::new(),
        definitions: Vec::new(),
        references: Vec::new(),
        key_usages: Vec::new(),
    };
    for (kind, name) in [
        (SymbolKind::ScriptedEffect, "give_claims"),
        (SymbolKind::ScriptedTrigger, "give_claims"),
        (SymbolKind::ScriptedEffect, "no_contract_here"),
    ] {
        index.definitions.push(SymbolDefinition {
            kind,
            name: format!("eu4::test::{name}"),
            module: "test".to_string(),
            local_name: name.to_string(),
            mod_id: "1000".to_string(),
            path: "common/scripted_effects/test.txt".to_string(),
            line: 1,
            column: 1,
            scope_id: 0,
            declared_this_type: ScopeType::Unknown,
            inferred_this_type: ScopeType::Unknown,
            inferred_this_mask: 0,
            inferred_from_mask: 0,
            required_params: Vec::new(),
            param_contract: registered_param_contract("give_claims"),
            optional_params: Vec::new(),
            scope_param_names: Vec::new(),
        });
    }
    index.definitions[2].param_contract = None;
    apply_registered_param_contracts(&mut index);
    assert_eq!(
        index.definitions[0].param_contract,
        registered_param_contract("give_claims")
    );
    assert!(index.definitions[1].param_contract.is_none());
    assert!(index.definitions[2].param_contract.is_none());
}

#[test]
fn events_take_the_namespace_and_calls_give_their_parameters() {
    let files = vec![parsed_file(
        "m",
        "events/test.txt",
        "namespace = test\ncountry_event = {\n\tid = 5\n\timmediate = {\n\t\tmy_effect = { amount = 2 TARGET = ROOT }\n\t}\n}\nprovince_event = {\n\tid = other.7\n}\n",
    )];
    let index = build_semantic_index(&files, &builtins());
    let events: Vec<&str> = index
        .symbols
        .definitions
        .iter()
        .filter(|d| d.kind == SymbolKind::Event)
        .map(|d| d.name.as_str())
        .collect();
    assert_eq!(events, vec!["test.5", "other.7"]);
    let calls: Vec<&SymbolReference> = index
        .symbols
        .references
        .iter()
        .filter(|r| r.kind == SymbolKind::ScriptedEffect)
        .collect();
    assert_eq!(calls.len(), 1);
    assert_eq!(calls[0].name, "my_effect");
    assert_eq!(calls[0].provided_params, vec!["TARGET".to_string(), "amount".to_string()]);
    let bindings: Vec<(&str, &str)> = calls[0]
        .param_bindings
        .iter()
        .map(|b| (b.name.as_str(), b.value.as_str()))
        .collect();
    assert_eq!(bindings, vec![("TARGET", "ROOT"), ("amount", "2")]);
    assert_eq!(index.documents.len(), 1);
    assert!(index.documents[0].parse_ok);
    assert!(index.alias_usages.iter().any(|a| a.alias == "ROOT"));
    assert!(index.symbols.key_usages.iter().any(|u| u.key == "namespace"));
    assert!(index
        .scalar_assignments
        .iter()
        .any(|a| a.key == "amount" && a.value == "2"));
}

#[test]
fn scripted_effects_collect_required_and_optional_parameters() {
    let source = "my_effect = {\n\tadd_prestige = $amount$\n\t[[bonus] add_stability = $bonus$ ]\n\tadd_legitimacy = $fallback|5$\n\tset_country_flag = $flag$\n}\n";
    let files = vec![parsed_file("m", "common/scripted_effects/mine.txt", source)];
    let index = build_semantic_index(&files, &builtins());
    let def = index
        .symbols
        .definitions
        .iter()
        .find(|d| d.local_name == "my_effect")
        .expect("definition");
    assert_eq!(def.kind, SymbolKind::ScriptedEffect);
    assert!(def.name.ends_with("::my_effect"));
    assert_eq!(def.optional_params, vec!["bonus".to_string(), "fallback".to_string()]);
    assert_eq!(def.required_params, vec!["amount".to_string(), "flag".to_string()]);
}

#[test]
fn calls_missing_required_parameters_are_reported_once_per_place() {
    let effects = parsed_file(
        "m",
        "common/scripted_effects/mine.txt",
        "my_effect = {\n\tadd_prestige = $amount$\n}\n",
    );
    let events = parsed_file(
        "m",
        "events/calls.txt",
        "namespace = t\ncountry_event = {\n\tid = 1\n\timmediate = {\n\t\tmy_effect = { }\n\t\tmy_effect = { amount = 3 }\n\t\tmy_effect = { other = 1 }\n\t}\n}\n",
    );
    let index = build_semantic_index(&vec![effects, events], &builtins());
    let findings = check_missing_effect_parameters(&index.symbols);
    let messages: Vec<&str> = findings.iter().map(|f| f.message.as_str()).collect();
    assert_eq!(
        messages,
        vec![
            "unbound parameter: my_effect missing amount",
            "unbound parameter: my_effect missing amount"
        ]
    );
    assert_eq!(findings[0].line, Some(5));
    assert_eq!(findings[1].line, Some(7));
    assert!(findings.iter().all(|f| f.rule_id == "S004"
        && f.severity == Severity::Error
        && f.channel == FindingChannel::Strict
        && f.confidence_percent == Some(88)));
    assert_eq!(
        findings[0].evidence.as_deref(),
        Some("definition location common/scripted_effects/mine.txt:1")
    );
}

#[test]
fn applying_registered_contracts_twice_changes_nothing_more() {
    let mut index = SymbolIndex {
        scopes: ScopeTree::new(),
        definitions: Vec::new(),
        references: Vec::new(),
        key_usages: Vec::new(),
    };
    for (kind, local) in [
        (SymbolKind::ScriptedEffect, "give_claims"),
        (SymbolKind::ScriptedEffect, "no_such_effect"),
        (SymbolKind::ScriptedTrigger, "give_claims"),
    ] {
        index.definitions.push(SymbolDefinition {
            kind,
            name: format!("eu4::test::{local}"),
            module: "test".to_string(),
            local_name: local.to_string(),
            mod_id: "1000".to_string(),
            path: "common/scripted_effects/test.txt".to_string(),
            line: 1,
            column: 1,
            scope_id: 0,
            declared_this_type: ScopeType::Unknown,
            inferred_this_type: ScopeType::Unknown,
            inferred_this_mask: 0,
            inferred_from_mask: 0,
            required_params: Vec::new(),
            param_contract: None,
            optional_params: Vec::new(),
            scope_param_names: Vec::new(),
        });
    }
    apply_registered_param_contracts(&mut index);
    let once: Vec<Option<ParamContract>> = index.definitions.iter().map(|d| d.param_contract.clone()).collect();
    assert_eq!(once[0], registered_param_contract("give_claims"));
    assert_eq!(once[1], None);
    assert_eq!(once[2], None);
    apply_registered_param_contracts(&mut index);
    let twice: Vec<Option<ParamContract>> = index.definitions.iter().map(|d| d.param_contract.clone()).collect();
    assert_eq!(once, twice);
}
