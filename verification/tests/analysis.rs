use wind_knowledge::advice::InspectionAdvice;
use wind_knowledge::analysis::{component_default_causes, generate_fault_analysis_result, possible_causes};
use wind_knowledge::config::WindRulesConfig;
use wind_knowledge::graph::GraphSuggestion;
use wind_knowledge::inspection::{generate_wind_inspection_advice, HitEvidence};
use wind_knowledge::query::FaultAnalysisInput;
use wind_knowledge::risk::{generate_wind_risk_assessment, RiskAssessment};

fn graph(component: &str, symptom: &str, risk_level: &str) -> Vec<GraphSuggestion> {
    vec![GraphSuggestion {
        entry_id: format!("{}_{}", component.to_ascii_lowercase(), symptom),
        component: component.to_string(),
        symptom: symptom.to_string(),
        risk_level: risk_level.to_string(),
        fault_mode: None,
        accompanying_symptoms: Vec::new(),
        escalates_to: None,
        mitigated_by: Vec::new(),
        inspection_items: vec!["检查项".to_string()],
        inspection_methods: vec!["检测方式".to_string()],
        recommended_interval: "30 天".to_string(),
        maintenance_actions: vec!["建立工单".to_string()],
        shutdown_evaluation_conditions: vec!["进入停机评估条件".to_string()],
        safety_notes: vec!["需要人工确认".to_string()],
        evidence_sources: vec!["knowledge_base/fault_cases/sample.md".to_string()],
    }]
}

fn response(
    config: &WindRulesConfig,
    component: &str,
    symptom: &str,
    risk_level: &str,
) -> (Vec<GraphSuggestion>, InspectionAdvice, RiskAssessment) {
    let graph = graph(component, symptom, risk_level);
    let advice = generate_wind_inspection_advice(symptom, &Vec::new(), &graph, &config.domain_extra_items);
    let risk = generate_wind_risk_assessment(&advice, config, None);
    (graph, advice, risk)
}

fn input(problem: &str, component: &str, symptom: &str) -> FaultAnalysisInput {
    FaultAnalysisInput {
        problem: problem.to_string(),
        component: Some(component.to_string()),
        symptom: Some(symptom.to_string()),
    }
}

#[test]
fn blade_fault_analysis_uses_graph_advice_and_risk() {
    let config = WindRulesConfig::default_embedded();
    let (graph, advice, risk) = response(&config, "Blade", "叶片裂纹", "Medium");
    let result = generate_fault_analysis_result(
        &input("叶片裂纹", "Blade", "裂纹"),
        &graph,
        &Vec::new(),
        &advice,
        &risk,
        &config.possible_causes,
    );
    assert_eq!(result.risk_level, "Medium");
    assert!(result.shutdown_evaluation_required);
    assert!(result.evidence_summary.graph_nodes.iter().any(|node| node.contains("Blade")));
}

#[test]
fn five_common_faults_generate_fault_analysis_results() {
    let config = WindRulesConfig::default_embedded();
    for (problem, component, symptom, risk_level) in [
        ("叶片裂纹", "Blade", "叶片裂纹", "Medium"),
        ("齿轮箱油温升高", "Gearbox", "齿轮箱油温升高", "High"),
        ("功率曲线异常", "SCADA", "功率曲线异常", "Medium"),
        ("发电机轴承振动异常", "Generator", "发电机轴承振动异常", "High"),
        ("偏航异常", "Yaw", "偏航异常", "Medium"),
    ] {
        let (graph, advice, risk) = response(&config, component, symptom, risk_level);
        let result = generate_fault_analysis_result(
            &input(problem, component, symptom),
            &graph,
            &Vec::new(),
            &advice,
            &risk,
            &config.possible_causes,
        );
        assert_eq!(result.risk_level, risk_level);
        assert!(!result.problem_summary.is_empty());
        assert!(!result.inspection_items.is_empty());
        assert!(!result.evidence_summary.graph_nodes.is_empty());
    }
}

#[test]
fn analysis_summary_names_the_matched_node() {
    let config = WindRulesConfig::default_embedded();
    let (graph, advice, risk) = response(&config, "Gearbox", "齿轮箱油温升高", "High");
    let hits = vec![
        HitEvidence {
            chunk_text: "x".to_string(),
            path: "b.md:0".to_string(),
            source_path: "b.md".to_string(),
        },
        HitEvidence {
            chunk_text: "y".to_string(),
            path: "a.md:1".to_string(),
            source_path: "a.md".to_string(),
        },
        HitEvidence {
            chunk_text: "z".to_string(),
            path: "b.md:2".to_string(),
            source_path: "b.md".to_string(),
        },
    ];
    let result = generate_fault_analysis_result(
        &input("油温高", "Gearbox", "油温"),
        &graph,
        &hits,
        &advice,
        &risk,
        &config.possible_causes,
    );
    assert_eq!(
        result.problem_summary,
        "故障现象“油温高”匹配到 Gearbox 的“齿轮箱油温升高”，按风电故障分析流程生成检测、维修和风险评估建议。"
    );
    assert_eq!(result.evidence_summary.hit_documents, vec!["a.md".to_string(), "b.md".to_string()]);
    assert_eq!(result.evidence_summary.graph_nodes, vec!["Gearbox:齿轮箱油温升高".to_string()]);
    assert_eq!(result.evidence_summary.risk_level, result.risk_level);
    assert_eq!(result.history_summary, None);
}

#[test]
fn no_graph_means_causes_are_uncertain() {
    let config = WindRulesConfig::default_embedded();
    assert_eq!(possible_causes(&[], &config.possible_causes), vec!["不确定，需要补充数据。".to_string()]);
}

#[test]
fn configured_causes_end_with_a_full_stop() {
    let config = WindRulesConfig::default_embedded();
    let causes = component_default_causes("Yaw", &config.possible_causes);
    assert_eq!(causes[0], "偏航电机故障。");
    let builtin = component_default_causes("Blade", &Vec::new());
    assert_eq!(
        builtin,
        vec!["前缘冲蚀、雷击、外物冲击或表面缺陷。".to_string(), "裂纹位置和扩展趋势尚需现场复核。".to_string()]
    );
    assert!(component_default_causes("Unknown", &Vec::new()).is_empty());
}

#[test]
fn source_hints_and_defaults_are_merged_sorted() {
    let mut g = graph("Gearbox", "齿轮箱油温升高", "High");
    g[0].evidence_sources = vec!["manuals/gearbox_temp.md".to_string()];
    let causes = possible_causes(&g, &Vec::new());
    let mut expected = vec![
        "润滑、冷却或传动链状态异常。".to_string(),
        "润滑油状态、油位、冷却效率或轴承/齿轮啮合异常。".to_string(),
    ];
    expected.sort();
    assert_eq!(causes, expected);
}
