use wind_knowledge::advice::InspectionAdvice;
use wind_knowledge::config::WindRulesConfig;
use wind_knowledge::risk::{
    apply_threshold_risk_rules, generate_wind_risk_assessment, max_risk, normalize_risk_level,
};

fn advice(risk_level: &str) -> InspectionAdvice {
    InspectionAdvice {
        problem_summary: "test".to_string(),
        should_inspect: true,
        risk_level: risk_level.to_string(),
        additional_context: Vec::new(),
        inspection_items: vec!["裂纹长度".to_string()],
        inspection_methods: vec!["无人机复检".to_string()],
        recommended_interval: "30 天".to_string(),
        maintenance_actions: vec!["建立工单".to_string()],
        shutdown_evaluation_conditions: vec!["裂纹进入主承载区域".to_string()],
        safety_notes: vec!["登塔需工作票".to_string()],
        evidence_sources: vec!["knowledge_base/fault_cases/blade_crack_case.md".to_string()],
        missing_data: vec!["SCADA 趋势".to_string()],
    }
}

fn evidence(score: &str) -> Option<String> {
    Some(format!("RAG evidence 平均分约为 {score}。"))
}

#[test]
fn blade_crack_requires_shutdown_evaluation() {
    let config = WindRulesConfig::default_embedded();
    let assessment = generate_wind_risk_assessment(&advice("Medium"), &config, evidence("0.80"));
    assert!(assessment.shutdown_evaluation_required);
    assert!(assessment.escalation_required);
}

#[test]
fn gearbox_high_stays_high_or_above() {
    let config = WindRulesConfig::default_embedded();
    let mut a = advice("High");
    a.shutdown_evaluation_conditions = vec!["油温持续上升且接近保护阈值".to_string()];
    let assessment = generate_wind_risk_assessment(&a, &config, evidence("0.70"));
    assert!(matches!(assessment.risk_level.as_str(), "High" | "Critical"));
}

#[test]
fn unknown_query_returns_unknown_and_missing_data() {
    let config = WindRulesConfig::default_embedded();
    let mut a = advice("Unknown");
    a.shutdown_evaluation_conditions.clear();
    a.evidence_sources.clear();
    a.missing_data = vec!["设备部件".to_string(), "故障现象".to_string(), "趋势数据".to_string()];
    let assessment = generate_wind_risk_assessment(&a, &config, None);
    assert_eq!(assessment.risk_level, "Unknown");
    assert!(assessment.missing_data_impact.contains("缺失数据较多"));
    assert!(assessment.risk_reasons.iter().any(|reason| reason.contains("证据不足")));
}

#[test]
fn high_voltage_lifting_grid_keywords_require_human_confirmation() {
    let config = WindRulesConfig::default_embedded();
    let mut a = advice("Low");
    a.shutdown_evaluation_conditions.clear();
    a.safety_notes = vec!["涉及高压、吊装、并网操作时必须人工确认。".to_string()];
    let assessment = generate_wind_risk_assessment(&a, &config, evidence("0.60"));
    assert!(assessment.human_confirmation_required);
}

#[test]
fn critical_graph_entry_stays_critical() {
    let config = WindRulesConfig::default_embedded();
    let mut a = advice("Critical");
    a.shutdown_evaluation_conditions.clear();
    let assessment = generate_wind_risk_assessment(&a, &config, evidence("0.80"));
    assert_eq!(assessment.risk_level, "Critical");
}

#[test]
fn critical_graph_entry_stays_critical_with_shutdown_conditions() {
    let config = WindRulesConfig::default_embedded();
    let a = advice("Critical");
    let assessment = generate_wind_risk_assessment(&a, &config, evidence("0.70"));
    assert_eq!(assessment.risk_level, "Critical");
    assert!(assessment.escalation_required);
}

#[test]
fn reasons_come_in_rule_order() {
    let config = WindRulesConfig::default_embedded();
    let a = advice("medium");
    let assessment = generate_wind_risk_assessment(&a, &config, evidence("0.80"));
    assert_eq!(assessment.risk_level, "Medium");
    assert_eq!(
        assessment.risk_reasons,
        vec![
            "建议层风险等级为 Medium。".to_string(),
            "存在停机评估条件，需要进行停机评估而不是直接远程停机。".to_string(),
            "RAG evidence 平均分约为 0.80。".to_string(),
            "missing_data 条目数为 1，会降低置信度。".to_string(),
        ]
    );
    assert_eq!(assessment.missing_data_impact, "存在少量缺失数据，建议补充后复核风险判断。");
    assert_eq!(
        assessment.immediate_actions,
        vec![
            "升级给现场工程师或值班负责人确认。".to_string(),
            "按停机评估条件进行人工复核，禁止直接远程停机替代评估。".to_string(),
        ]
    );
    assert_eq!(assessment.forbidden_actions.len(), 4);
}

#[test]
fn critical_work_in_summary_raises_to_critical() {
    let config = WindRulesConfig::default_embedded();
    let mut a = advice("Low");
    a.shutdown_evaluation_conditions.clear();
    a.problem_summary = "需要吊装作业更换叶片".to_string();
    let assessment = generate_wind_risk_assessment(&a, &config, None);
    assert_eq!(assessment.risk_level, "Critical");
    assert!(assessment.escalation_required);
}

#[test]
fn threshold_rules_raise_and_explain() {
    let mut level = "Medium".to_string();
    let mut reasons = Vec::new();
    apply_threshold_risk_rules(&mut level, &mut reasons, "IGBT 过温，接近最高允许结温");
    assert_eq!(level, "Critical");
    assert_eq!(reasons, vec!["变流器IGBT过温并出现结温或异味风险，升级为Critical。".to_string()]);
    let mut high = "Critical".to_string();
    let mut none = Vec::new();
    apply_threshold_risk_rules(&mut high, &mut none, "覆冰厚度超过50mm 继续运行");
    assert_eq!(high, "Critical");
    assert!(none.is_empty());
}

#[test]
fn risk_levels_normalize_and_compare() {
    assert_eq!(normalize_risk_level("HIGH"), "High");
    assert_eq!(normalize_risk_level("severe"), "Unknown");
    assert_eq!(max_risk("Low", "Medium"), "Medium");
    assert_eq!(max_risk("High", "Medium"), "High");
    assert_eq!(max_risk("weird", "Low"), "Low");
    assert_eq!(max_risk("weird", "weird"), "Unknown");
}
