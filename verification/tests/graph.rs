use wind_knowledge::graph::{
    normalize_graph_query, query_fault_graph, FaultGraph, FaultGraphEntry, GraphQuery,
};

fn graph_fixture() -> FaultGraph {
    FaultGraph {
        schema_version: "1.0".to_string(),
        entries: vec![
            FaultGraphEntry {
                id: "blade_crack".to_string(),
                component: "Blade".to_string(),
                symptom: "叶片裂纹".to_string(),
                fault_mode: None,
                possible_causes: vec!["前缘冲蚀".to_string()],
                accompanying_symptoms: Vec::new(),
                escalates_to: None,
                mitigated_by: Vec::new(),
                inspection_items: vec!["裂纹长度".to_string()],
                inspection_methods: vec!["无人机复检".to_string(), "超声检测".to_string()],
                recommended_interval: "30 天".to_string(),
                maintenance_actions: vec!["建立跟踪工单".to_string()],
                risk_level: "Medium".to_string(),
                shutdown_evaluation_conditions: vec!["进入主承载区域".to_string()],
                safety_notes: vec!["登塔需工作票".to_string()],
                evidence_sources: vec![
                    "knowledge_base/fault_cases/blade_crack_case.md".to_string()
                ],
            },
            FaultGraphEntry {
                id: "gearbox_temp".to_string(),
                component: "Gearbox".to_string(),
                symptom: "齿轮箱油温升高".to_string(),
                fault_mode: None,
                possible_causes: vec!["冷却系统效率下降".to_string()],
                accompanying_symptoms: Vec::new(),
                escalates_to: None,
                mitigated_by: Vec::new(),
                inspection_items: vec!["滤芯压差".to_string()],
                inspection_methods: vec!["SCADA 趋势对比".to_string()],
                recommended_interval: "当天复核".to_string(),
                maintenance_actions: vec!["检查冷却系统".to_string()],
                risk_level: "High".to_string(),
                shutdown_evaluation_conditions: vec!["接近保护阈值".to_string()],
                safety_notes: vec!["不得绕过保护".to_string()],
                evidence_sources: vec![
                    "knowledge_base/manuals/gearbox_temp_manual.md".to_string()
                ],
            },
        ],
    }
}

#[test]
fn blade_crack_query_returns_inspection_advice() {
    let matches = query_fault_graph(
        &graph_fixture(),
        &GraphQuery {
            component: Some("Blade".to_string()),
            symptom: Some("裂纹".to_string()),
            ..GraphQuery::default()
        },
    );
    assert_eq!(matches[0].entry_id, "blade_crack");
    assert!(matches[0]
        .inspection_items
        .iter()
        .any(|item| item.contains("裂纹")));
}

#[test]
fn gearbox_temperature_query_returns_check_advice() {
    let matches = query_fault_graph(
        &graph_fixture(),
        &GraphQuery {
            component: Some("Gearbox".to_string()),
            symptom: Some("油温升高".to_string()),
            ..GraphQuery::default()
        },
    );
    assert_eq!(matches[0].entry_id, "gearbox_temp");
    assert!(matches[0].maintenance_actions[0].contains("冷却"));
}

#[test]
fn high_risk_query_returns_safety_notes() {
    let matches = query_fault_graph(
        &graph_fixture(),
        &GraphQuery {
            risk_level: Some("High".to_string()),
            ..GraphQuery::default()
        },
    );
    assert_eq!(matches[0].risk_level, "High");
    assert!(matches[0].safety_notes[0].contains("保护"));
}

#[test]
fn chinese_blade_crack_query_normalizes_for_graph_lookup() {
    let normalized = normalize_graph_query(
        "无人机巡检发现叶片疑似裂纹，是否需要停机？多久复检？",
        None,
        None,
    );
    assert_eq!(normalized.component.as_deref(), Some("Blade"));
    assert_eq!(normalized.symptom.as_deref(), Some("裂纹"));

    let matches = query_fault_graph(
        &graph_fixture(),
        &GraphQuery {
            component: normalized.component,
            symptom: normalized.symptom,
            ..GraphQuery::default()
        },
    );
    assert_eq!(matches[0].entry_id, "blade_crack");
}
