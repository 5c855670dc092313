use wind_knowledge::config::{rules_get, strings, RuleEntry, WindRulesConfig};

#[test]
fn embedded_config_holds_causes_actions_and_keywords() {
    let cfg = WindRulesConfig::default_embedded();
    assert_eq!(cfg.possible_causes.len(), 9);
    assert_eq!(
        rules_get(&cfg.possible_causes, "Gearbox").unwrap(),
        &strings(&["润滑不良", "齿面磨损", "轴承失效", "对中不良", "过载运行"])
    );
    assert_eq!(cfg.forbidden_actions.actions.len(), 4);
    assert_eq!(cfg.forbidden_actions.actions[2], "不得绕过安全联锁");
    assert_eq!(cfg.safety_keywords.trigger_human_confirmation.len(), 13);
    assert!(rules_get(&cfg.possible_causes, "Cooling").is_none());
}

#[test]
fn embedded_extra_items_are_keyed_by_fault_kind() {
    let cfg = WindRulesConfig::default_embedded();
    assert_eq!(
        rules_get(&cfg.domain_extra_items, "Blade_crack").unwrap(),
        &strings(&["裂纹长度", "裂纹宽度", "裂纹扩展方向"])
    );
    assert!(rules_get(&cfg.domain_extra_items, "Brake_wear").is_none());
}

#[test]
fn lookup_takes_the_first_entry_with_the_key() {
    let table = vec![
        RuleEntry { key: "A".to_string(), values: strings(&["1"]) },
        RuleEntry { key: "B".to_string(), values: strings(&["2"]) },
    ];
    assert_eq!(rules_get(&table, "B").unwrap(), &strings(&["2"]));
    assert!(rules_get(&table, "a").is_none());
}
