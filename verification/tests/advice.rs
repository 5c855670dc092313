use wind_knowledge::advice::{
    add_keyword_advice, default_missing_data, domain_extra_items, domain_extra_maintenance,
    keyword_maintenance_actions, keyword_safety_notes, keyword_shutdown_conditions, merge_list,
    non_empty_or, relation_inspection_items,
};
use wind_knowledge::config::WindRulesConfig;
use wind_knowledge::graph::{FaultEscalationRelation, GraphSuggestion};

fn suggestion(component: &str, symptom: &str, risk: &str) -> GraphSuggestion {
    GraphSuggestion {
        entry_id: "x".to_string(),
        component: component.to_string(),
        symptom: symptom.to_string(),
        risk_level: risk.to_string(),
        fault_mode: None,
        accompanying_symptoms: Vec::new(),
        escalates_to: None,
        mitigated_by: Vec::new(),
        inspection_items: Vec::new(),
        inspection_methods: Vec::new(),
        recommended_interval: String::new(),
        maintenance_actions: Vec::new(),
        shutdown_evaluation_conditions: Vec::new(),
        safety_notes: Vec::new(),
        evidence_sources: Vec::new(),
    }
}

fn strings(v: &[&str]) -> Vec<String> {
    v.iter().map(|s| s.to_string()).collect()
}

#[test]
fn blade_crack_keywords_add_crack_items_and_uav_methods() {
    let mut items = vec!["existing".to_string()];
    let mut methods = Vec::new();
    add_keyword_advice("叶片裂纹应该多久复检", "", &mut items, &mut methods);
    assert_eq!(items, strings(&["existing", "裂纹长度", "裂纹宽度", "裂纹扩展方向"]));
    assert_eq!(methods, strings(&["无人机复检", "高清摄影"]));
}

#[test]
fn keyword_rules_read_evidence_text_case_insensitively() {
    let mut items = Vec::new();
    let mut methods = Vec::new();
    add_keyword_advice("怎么排查", "GEARBOX oil Temperature", &mut items, &mut methods);
    assert_eq!(items, strings(&["油温趋势", "油位和油品状态", "冷却系统状态", "振动趋势"]));
    assert_eq!(methods, strings(&["SCADA 趋势对比", "油样检查"]));
}

#[test]
fn uppercase_tokens_never_match_lowered_text() {
    let mut items = Vec::new();
    let mut methods = Vec::new();
    add_keyword_advice("IGBT过温", "", &mut items, &mut methods);
    assert_eq!(items, strings(&["散热器", "滤网", "冷却风道"]));
    assert_eq!(methods, strings(&["红外热成像", "冷却风量检查"]));
}

#[test]
fn nothing_matching_adds_nothing() {
    let mut items = Vec::new();
    let mut methods = Vec::new();
    add_keyword_advice("hello", "world", &mut items, &mut methods);
    assert!(items.is_empty() && methods.is_empty());
}

#[test]
fn high_voltage_and_lifting_call_for_actions_conditions_and_notes() {
    assert_eq!(
        keyword_maintenance_actions("高压吊装"),
        strings(&[
            "高压操作必须持证，两人监护。",
            "执行停电挂牌、验电、接地和绝缘防护。",
            "确认作业风速满足吊装条件。",
            "吊装人员持证，设置警戒区并统一信号指挥。",
        ])
    );
    assert_eq!(
        keyword_shutdown_conditions("吊装并网"),
        strings(&[
            "涉及Critical级安全作业，必须人工审批和现场复核。",
            "并网前电压偏差、频率、功率因数或谐波不满足要求。",
        ])
    );
    assert_eq!(
        keyword_safety_notes("绕过安全联锁"),
        strings(&["禁止绕过安全联锁，必须按保护逻辑和工作票执行。"])
    );
    assert!(keyword_safety_notes("普通巡检").is_empty());
}

#[test]
fn merge_list_sorts_dedups_and_drops_blank() {
    let merged = merge_list(strings(&["b", "a", " ", "b", "", "c", "a"]));
    assert_eq!(merged, strings(&["a", "b", "c"]));
    assert_eq!(merge_list(merged.clone()), merged);
}

#[test]
fn non_empty_or_falls_back_only_when_nothing_is_left() {
    assert_eq!(non_empty_or(strings(&[" ", ""]), strings(&["fallback"])), strings(&["fallback"]));
    assert_eq!(non_empty_or(strings(&["z", "y"]), strings(&["fallback"])), strings(&["y", "z"]));
}

#[test]
fn gearbox_vibration_query_adds_drivetrain_check() {
    let s = suggestion("gearbox", "齿轮箱油温升高", "High");
    assert_eq!(
        domain_extra_maintenance(&s, "振动加剧导致油温更严重"),
        strings(&["传动链专项检查", "故障扩展评估", "72小时内加密监测"])
    );
}

#[test]
fn generator_high_risk_insulation_adds_bearing_and_insulation_actions() {
    let s = suggestion("Generator", "定子绝缘老化", "high");
    assert_eq!(
        domain_extra_maintenance(&s, ""),
        strings(&["轴承更换", "绝缘油化验", "局部放电在线监测", "必要时绝缘清洗或更换", "极化指数趋势跟踪"])
    );
}

#[test]
fn brake_wear_adds_both_brake_rules() {
    let s = suggestion("Brake", "制动器磨损", "Medium");
    assert_eq!(
        domain_extra_maintenance(&s, ""),
        strings(&[
            "更换磨损制动摩擦片",
            "复测制动力矩",
            "制动力矩标准化测试",
            "摩擦片厚度周期性测量",
            "更换阈值预警",
            "复位功能验证",
        ])
    );
}

#[test]
fn extra_items_come_from_configuration_then_fallback() {
    let config = WindRulesConfig::default_embedded();
    let gearbox = suggestion("Gearbox", "齿轮箱油温升高", "High");
    assert_eq!(
        domain_extra_items(&gearbox, &config.domain_extra_items),
        strings(&["油样状态", "润滑状态", "振动趋势", "72小时内复查油温扩展趋势"])
    );
    let brake = suggestion("Brake", "制动器磨损", "Medium");
    assert_eq!(domain_extra_items(&brake, &config.domain_extra_items), strings(&["制动力矩"]));
    let yaw = suggestion("Yaw", "偏航异常", "Medium");
    assert_eq!(
        domain_extra_items(&yaw, &config.domain_extra_items),
        strings(&["风向标校验", "偏航漂移趋势"])
    );
    let other = suggestion("gearbox", "齿轮箱油温升高", "High");
    assert!(domain_extra_items(&other, &config.domain_extra_items).is_empty());
}

#[test]
fn relation_items_name_escalation_and_accompanying_symptoms() {
    let mut s = suggestion("Blade", "叶片裂纹", "Medium");
    s.escalates_to = Some(FaultEscalationRelation {
        fault: "blade_break".to_string(),
        condition: "裂纹扩展".to_string(),
    });
    s.accompanying_symptoms = strings(&["异响", "振动"]);
    assert_eq!(
        relation_inspection_items(&s),
        strings(&["注意：如不及时处理，可能升级为 blade_break", "伴随症状复核：异响", "伴随症状复核：振动"])
    );
}

#[test]
fn default_missing_data_lists_three_items() {
    assert_eq!(default_missing_data().len(), 3);
    assert_eq!(default_missing_data()[0], "当前机组编号和设备型号");
}
