use wind_knowledge::config::WindRulesConfig;
use wind_knowledge::graph::GraphSuggestion;
use wind_knowledge::inspection::{advice_basis, generate_wind_inspection_advice, AdviceBasis, HitEvidence};

fn blade_graph() -> GraphSuggestion {
    GraphSuggestion {
        entry_id: "blade_crack".to_string(),
        component: "Blade".to_string(),
        symptom: "叶片裂纹".to_string(),
        risk_level: "Medium".to_string(),
        fault_mode: None,
        accompanying_symptoms: Vec::new(),
        escalates_to: None,
        mitigated_by: Vec::new(),
        inspection_items: vec!["裂纹长度".to_string(), "裂纹宽度".to_string()],
        inspection_methods: vec!["无人机复检".to_string(), "高清摄影".to_string()],
        recommended_interval: "30 天内复检".to_string(),
        maintenance_actions: vec!["建立跟踪工单".to_string()],
        shutdown_evaluation_conditions: vec!["裂纹进入主承载区域".to_string()],
        safety_notes: vec!["登塔需工作票".to_string()],
        evidence_sources: vec!["knowledge_base/fault_cases/blade_crack_case.md".to_string()],
    }
}

fn gearbox_graph() -> GraphSuggestion {
    GraphSuggestion {
        entry_id: "gearbox_temp".to_string(),
        component: "Gearbox".to_string(),
        symptom: "齿轮箱油温升高".to_string(),
        risk_level: "High".to_string(),
        fault_mode: None,
        accompanying_symptoms: Vec::new(),
        escalates_to: None,
        mitigated_by: Vec::new(),
        inspection_items: vec!["油温趋势".to_string(), "冷却系统状态".to_string()],
        inspection_methods: vec!["SCADA 趋势对比".to_string(), "振动频谱分析".to_string()],
        recommended_interval: "当天复核".to_string(),
        maintenance_actions: vec!["检查润滑和冷却系统".to_string()],
        shutdown_evaluation_conditions: vec!["油温持续上升且接近保护阈值".to_string()],
        safety_notes: vec!["不得绕过保护".to_string()],
        evidence_sources: vec!["knowledge_base/manuals/gearbox_temp_manual.md".to_string()],
    }
}

fn hit(text: &str) -> HitEvidence {
    HitEvidence {
        chunk_text: text.to_string(),
        path: "knowledge_base/manuals/sample.md:0".to_string(),
        source_path: "knowledge_base/manuals/sample.md".to_string(),
    }
}

#[test]
fn blade_crack_advice_returns_interval_items_and_safety() {
    let config = WindRulesConfig::default_embedded();
    let advice = generate_wind_inspection_advice(
        "叶片裂纹应该多久复检",
        &vec![hit("blade crack inspection")],
        &[blade_graph()],
        &config.domain_extra_items,
    );
    assert!(advice.should_inspect);
    assert!(advice.recommended_interval.contains("30"));
    assert!(advice.inspection_items.iter().any(|item| item.contains("裂纹")));
    assert!(advice.safety_notes.iter().any(|note| note.contains("工作票")));
}

#[test]
fn gearbox_temperature_advice_returns_oil_vibration_lubrication_checks() {
    let config = WindRulesConfig::default_embedded();
    let advice = generate_wind_inspection_advice(
        "齿轮箱油温升高怎么排查",
        &vec![hit("gearbox oil temperature vibration lubrication")],
        &[gearbox_graph()],
        &config.domain_extra_items,
    );
    assert!(advice.inspection_items.iter().any(|item| item.contains("油温")));
    assert!(advice.inspection_items.iter().any(|item| item.contains("油样")));
    assert!(advice.inspection_items.iter().any(|item| item.contains("振动")));
    assert!(advice.inspection_items.iter().any(|item| item.contains("润滑")));
}

#[test]
fn unknown_query_returns_missing_data_advice() {
    let config = WindRulesConfig::default_embedded();
    let advice = generate_wind_inspection_advice("未知问题", &Vec::new(), &[], &config.domain_extra_items);
    assert!(!advice.should_inspect);
    assert!(advice.problem_summary.contains("不确定"));
    assert!(
        advice.missing_data.iter().any(|item| item.contains("补充")) || !advice.missing_data.is_empty()
    );
    // The lowest confidence tier belongs to advice built from nothing.
    assert_eq!(advice_basis(false, false), AdviceBasis::Nothing);
}

#[test]
fn advice_basis_follows_what_was_found() {
    assert_eq!(advice_basis(true, true), AdviceBasis::GraphAndHits);
    assert_eq!(advice_basis(true, false), AdviceBasis::GraphOnly);
    assert_eq!(advice_basis(false, true), AdviceBasis::HitsOnly);
}

#[test]
fn graph_only_advice_asks_for_site_records() {
    let config = WindRulesConfig::default_embedded();
    let advice = generate_wind_inspection_advice("叶片裂纹", &Vec::new(), &[blade_graph()], &config.domain_extra_items);
    assert_eq!(
        advice.missing_data,
        vec![
            "缺少当前机组的现场检查记录或 SCADA/工单证据".to_string(),
            "需要补充缺陷位置、趋势变化和设备型号等数据".to_string(),
        ]
    );
    assert_eq!(advice.risk_level, "Medium");
    assert_eq!(advice.recommended_interval, "30 天内复检");
    assert!(advice.problem_summary.starts_with("建议检测。查询“叶片裂纹”匹配到 Blade 的“叶片裂纹”"));
    assert_eq!(
        advice.evidence_sources,
        vec!["knowledge_base/fault_cases/blade_crack_case.md".to_string()]
    );
}

#[test]
fn graph_and_hits_advice_merges_sources_once_in_order() {
    let config = WindRulesConfig::default_embedded();
    let advice = generate_wind_inspection_advice(
        "叶片裂纹",
        &vec![hit("a"), hit("b")],
        &[blade_graph()],
        &config.domain_extra_items,
    );
    assert_eq!(
        advice.evidence_sources,
        vec![
            "knowledge_base/fault_cases/blade_crack_case.md".to_string(),
            "knowledge_base/manuals/sample.md".to_string(),
        ]
    );
    let mut sorted = advice.inspection_items.clone();
    sorted.sort();
    sorted.dedup();
    assert_eq!(sorted, advice.inspection_items);
}

#[test]
fn hits_only_advice_is_not_empty() {
    let config = WindRulesConfig::default_embedded();
    let advice = generate_wind_inspection_advice("振动异常", &vec![hit("vibration")], &[], &config.domain_extra_items);
    assert!(!advice.maintenance_actions.is_empty());
    assert!(!advice.shutdown_evaluation_conditions.is_empty());
    assert_eq!(advice.evidence_sources, vec!["knowledge_base/manuals/sample.md".to_string()]);
    assert_eq!(
        advice.missing_data,
        vec![
            "缺少匹配的故障图谱条目".to_string(),
            "需要补充设备部件、故障现象、报警代码和趋势数据".to_string(),
        ]
    );
}
