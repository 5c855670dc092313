use wind_knowledge::advice::InspectionAdvice;
use wind_knowledge::analysis::FaultAnalysis;
use wind_knowledge::graph::GraphSuggestion;
use wind_knowledge::query::EvidenceSummary;
use wind_knowledge::risk::RiskAssessment;
use wind_knowledge::skill::SkillType;
use wind_knowledge::skill_output::{
    first_node_summary, format_skill_output, md_list, md_list_graph, md_list_or_fallback, methods_by_photo,
};

fn graph_entry(id: &str, component: &str, symptom: &str, risk: &str, methods: &[&str]) -> GraphSuggestion {
    GraphSuggestion {
        entry_id: id.to_string(),
        component: component.to_string(),
        symptom: symptom.to_string(),
        risk_level: risk.to_string(),
        fault_mode: None,
        accompanying_symptoms: Vec::new(),
        escalates_to: None,
        mitigated_by: Vec::new(),
        inspection_items: vec!["检查项".to_string()],
        inspection_methods: methods.iter().map(|m| m.to_string()).collect(),
        recommended_interval: "30 天内复检".to_string(),
        maintenance_actions: vec!["建立跟踪工单".to_string()],
        shutdown_evaluation_conditions: vec![],
        safety_notes: vec!["登塔需工作票".to_string()],
        evidence_sources: vec!["knowledge_base/sample.md".to_string()],
    }
}

fn blade_graph() -> GraphSuggestion {
    graph_entry("blade_crack", "Blade", "叶片裂纹", "Medium", &["无人机复检", "高清摄影"])
}

fn gearbox_graph() -> GraphSuggestion {
    graph_entry("gearbox_temp", "Gearbox", "齿轮箱油温升高", "High", &["SCADA 趋势对比", "振动频谱分析"])
}

fn scada_graph() -> GraphSuggestion {
    graph_entry("scada_power", "SCADA", "功率曲线异常", "Medium", &["功率曲线对比"])
}

fn fault_result(risk_level: &str, component: &str) -> FaultAnalysis {
    FaultAnalysis {
        problem_summary: format!("{component}故障分析摘要"),
        possible_causes: vec!["可能原因1".to_string()],
        inspection_items: vec!["检查项1".to_string()],
        inspection_methods: vec!["检测方式1".to_string()],
        recommended_interval: "30 天".to_string(),
        maintenance_actions: vec!["维护动作1".to_string()],
        additional_context: Vec::new(),
        history_summary: None,
        risk_level: risk_level.to_string(),
        shutdown_evaluation_required: risk_level == "High",
        human_confirmation_required: true,
        safety_notes: vec!["安全注意1".to_string()],
        evidence_summary: EvidenceSummary {
            hit_documents: vec!["doc1.md".to_string()],
            graph_nodes: vec![format!("{component}:symptom")],
            risk_level: risk_level.to_string(),
        },
        missing_data: vec!["缺失数据1".to_string()],
    }
}

fn advice_for(component: &str) -> InspectionAdvice {
    InspectionAdvice {
        problem_summary: format!("{component}建议摘要"),
        should_inspect: true,
        risk_level: "Medium".to_string(),
        additional_context: Vec::new(),
        inspection_items: vec!["检查项A".to_string()],
        inspection_methods: vec!["无人机复检".to_string(), "高清摄影".to_string()],
        recommended_interval: "30 天".to_string(),
        maintenance_actions: vec!["维护动作A".to_string()],
        shutdown_evaluation_conditions: vec![],
        safety_notes: vec!["安全注意A".to_string()],
        evidence_sources: vec!["evidence.md".to_string()],
        missing_data: vec![],
    }
}

fn risk_for() -> RiskAssessment {
    RiskAssessment {
        risk_level: "Medium".to_string(),
        risk_reasons: vec!["风险原因1".to_string()],
        escalation_required: false,
        human_confirmation_required: true,
        shutdown_evaluation_required: false,
        immediate_actions: vec!["记录当前判断".to_string()],
        forbidden_actions: vec!["不得未经授权远程停机".to_string()],
        missing_data_impact: "缺失数据较少".to_string(),
    }
}

#[test]
fn blade_inspection_output_contains_uav_section() {
    let fault = fault_result("Medium", "Blade");
    let advice = advice_for("Blade");
    let risk = risk_for();
    let graph = vec![blade_graph()];
    let output = format_skill_output(&SkillType::BladeInspection, &fault, &advice, &risk, &graph, "0.72");
    assert!(output.contains("# 叶片巡检报告"));
    assert!(output.contains("无人机"));
    assert!(output.contains("复检周期"));
}

#[test]
fn gearbox_diagnosis_output_contains_troubleshooting_steps() {
    let fault = fault_result("High", "Gearbox");
    let advice = advice_for("Gearbox");
    let risk = risk_for();
    let graph = vec![gearbox_graph()];
    let output = format_skill_output(&SkillType::GearboxDiagnosis, &fault, &advice, &risk, &graph, "0.72");
    assert!(output.contains("# 齿轮箱诊断报告"));
    assert!(output.contains("油温排查"));
    assert!(output.contains("油样检查"));
    assert!(output.contains("振动分析"));
    assert!(output.contains("润滑状态"));
}

#[test]
fn scada_analysis_output_contains_power_curve_causes() {
    let fault = fault_result("Medium", "SCADA");
    let advice = advice_for("SCADA");
    let risk = risk_for();
    let graph = vec![scada_graph()];
    let output = format_skill_output(&SkillType::ScadaAnalysis, &fault, &advice, &risk, &graph, "0.72");
    assert!(output.contains("# SCADA 数据分析报告"));
    assert!(output.contains("测风误差"));
    assert!(output.contains("限功率运行"));
    assert!(output.contains("偏航误差"));
    assert!(output.contains("需要补充的数据"));
}

#[test]
fn report_generation_output_contains_disclaimer() {
    let fault = fault_result("Medium", "Blade");
    let advice = advice_for("Blade");
    let risk = risk_for();
    let graph = vec![blade_graph()];
    let output = format_skill_output(&SkillType::ReportGeneration, &fault, &advice, &risk, &graph, "0.72");
    assert!(output.contains("# 风力发电运维报告"));
    assert!(output.contains("免责声明"));
}

#[test]
fn wind_fault_analysis_output_format() {
    let fault = fault_result("Medium", "Blade");
    let advice = advice_for("Blade");
    let risk = risk_for();
    let graph = vec![blade_graph()];
    let output = format_skill_output(&SkillType::WindFaultAnalysis, &fault, &advice, &risk, &graph, "0.72");
    assert!(output.contains("# 风电故障分析"));
    assert!(output.contains("故障概述"));
    assert!(output.contains("可能原因"));
    assert!(output.contains("风险评估"));
    assert!(output.contains("证据来源"));
}

#[test]
fn wind_fault_analysis_output_is_exact() {
    let fault = fault_result("Medium", "Blade");
    let advice = advice_for("Blade");
    let risk = risk_for();
    let output = format_skill_output(&SkillType::WindFaultAnalysis, &fault, &advice, &risk, &[blade_graph()], "0.72");
    let expected = "# 风电故障分析\n\n## 1. 故障概述\n\nBlade故障分析摘要\n\n## 2. 可能原因\n\n- 可能原因1\n\n## 3. 检测建议\n\n### 检查项目\n\n- 检查项1\n\n### 检测方式\n\n- 检测方式1\n\n## 4. 风险评估\n\n- 风险等级：**Medium**\n- 需要停机评估：否\n- 需要人工确认：是\n- 升级要求：否\n\n## 5. 安全提示\n\n- 安全注意1\n\n## 6. 证据来源\n\n### 命中文档\n\n- doc1.md\n\n### 图谱节点\n\n- Blade: 叶片裂纹（风险 Medium）\n\n### 缺失数据\n\n- 缺失数据1\n\n## 置信度\n\n0.72\n";
    assert_eq!(output, expected);
}

#[test]
fn gearbox_output_lists_forbidden_then_immediate_actions() {
    let fault = fault_result("High", "Gearbox");
    let output = format_skill_output(&SkillType::GearboxDiagnosis, &fault, &advice_for("Gearbox"), &risk_for(), &[], "0.50");
    assert!(output.contains("## 1. 故障概述\n\n齿轮箱异常待确认\n\n"));
    assert!(output.contains("## 7. 紧急/禁止操作\n\n- 不得未经授权远程停机\n- 记录当前判断\n\n"));
}

#[test]
fn report_output_is_stamped_with_a_timestamp() {
    let fault = fault_result("Medium", "Blade");
    let output = format_skill_output(&SkillType::ReportGeneration, &fault, &advice_for("Blade"), &risk_for(), &[], "0.72");
    let line = output.lines().find(|l| l.starts_with("- 生成时间：")).unwrap();
    let stamp = line.trim_start_matches("- 生成时间：");
    assert_eq!(stamp.len(), 15);
    assert_eq!(&stamp[8..9], "_");
    assert!(output.contains("- 风险等级：**Medium**\n- 是否需要停机评估：否\n- 是否需要人工确认：是\n"));
}

#[test]
fn markdown_helpers_render_lists() {
    assert_eq!(md_list(&Vec::new()), "- 不确定，需要补充数据。");
    assert_eq!(md_list(&vec!["a".to_string(), "b".to_string()]), "- a\n- b");
    assert_eq!(md_list_or_fallback(&Vec::new(), "无人机复检"), "- 无人机复检");
    assert_eq!(md_list_graph(&[]), "- 未命中故障图谱条目");
    assert_eq!(
        md_list_graph(&[blade_graph(), gearbox_graph()]),
        "- Blade: 叶片裂纹（风险 Medium）\n- Gearbox: 齿轮箱油温升高（风险 High）"
    );
    assert_eq!(first_node_summary(&[gearbox_graph()], "x"), "Gearbox：齿轮箱油温升高");
    assert_eq!(first_node_summary(&[], "叶片缺陷待确认"), "叶片缺陷待确认");
}

#[test]
fn photographic_methods_are_split_from_the_others() {
    let methods = vec![
        "UAV flight".to_string(),
        "超声检测".to_string(),
        "红外热像".to_string(),
        "敲击".to_string(),
    ];
    assert_eq!(methods_by_photo(&methods, true), vec!["UAV flight".to_string(), "红外热像".to_string()]);
    assert_eq!(methods_by_photo(&methods, false), vec!["超声检测".to_string(), "敲击".to_string()]);
}
