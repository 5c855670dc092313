use wind_knowledge::graph::GraphSuggestion;
use wind_knowledge::query::{QueryRequest, SearchMode};
use wind_knowledge::service::{
    query_fault_history, query_fault_record, recommended_maintenance, response_component, response_symptom,
    skill_query_request, SkillQueryHttpRequest,
};

fn suggestion(component: &str, symptom: &str) -> GraphSuggestion {
    GraphSuggestion {
        entry_id: "e".to_string(),
        component: component.to_string(),
        symptom: symptom.to_string(),
        risk_level: "Medium".to_string(),
        fault_mode: None,
        accompanying_symptoms: Vec::new(),
        escalates_to: None,
        mitigated_by: Vec::new(),
        inspection_items: Vec::new(),
        inspection_methods: Vec::new(),
        recommended_interval: String::new(),
        maintenance_actions: Vec::new(),
        shutdown_evaluation_conditions: Vec::new(),
        safety_notes: Vec::new(),
        evidence_sources: Vec::new(),
    }
}

fn skill_request(component: Option<&str>) -> SkillQueryHttpRequest {
    SkillQueryHttpRequest {
        query: "叶片裂纹".to_string(),
        turbine_id: Some("A01".to_string()),
        component: component.map(|c| c.to_string()),
        symptom: None,
        scada_context: None,
        mode: None,
        top_k: None,
    }
}

#[test]
fn skill_query_defaults_to_eight_hybrid_hits() {
    let r = skill_query_request(&skill_request(Some("Blade")));
    assert_eq!(r.top_k, 8);
    assert_eq!(r.search_mode, SearchMode::Hybrid);
    assert_eq!(r.domain.as_deref(), Some("Blade"));
    assert_eq!(r.component.as_deref(), Some("Blade"));
    assert_eq!(r.turbine_id.as_deref(), Some("A01"));
    assert!(r.equipment.is_none() && r.file_type.is_none() && r.reserved_media.is_none());
    let mut req = skill_request(None);
    req.top_k = Some(3);
    req.mode = Some(SearchMode::Keyword);
    let r = skill_query_request(&req);
    assert_eq!(r.top_k, 3);
    assert_eq!(r.search_mode, SearchMode::Keyword);
}

#[test]
fn response_component_and_symptom_fall_back() {
    let mut req = skill_query_request(&skill_request(None));
    let graph = vec![suggestion("Gearbox", "油温升高")];
    assert_eq!(response_component(&req, &graph), "Gearbox");
    assert_eq!(response_symptom(&req, &graph), "油温升高");
    assert_eq!(response_component(&req, &[]), "Unknown");
    assert_eq!(response_symptom(&req, &[]), "叶片裂纹");
    req.component = Some("  ".to_string());
    assert_eq!(response_component(&req, &graph), "Unknown");
    req.symptom = Some("裂纹".to_string());
    assert_eq!(response_symptom(&req, &graph), "裂纹");
}

#[test]
fn query_leaves_history_records() {
    let mut req: QueryRequest = skill_query_request(&skill_request(None));
    req.turbine_id = None;
    let record = query_fault_record(&req, "Blade", "裂纹", "High", "42", "1700000000");
    assert_eq!(record.query, "叶片裂纹");
    let history = query_fault_history(&record);
    assert_eq!(history.turbine_id, "UNKNOWN");
    assert_eq!(history.fault_id, "42");
    assert_eq!(history.notes.as_deref(), Some("auto-recorded by memory runtime"));
    assert!(recommended_maintenance(&None, "Blade", &Vec::new(), "1", "1").is_none());
    let m = recommended_maintenance(&Some("A01".to_string()), "Blade", &vec!["补修".to_string(), "x".to_string()], "170", "171")
        .unwrap();
    assert_eq!(m.record_id, "maintenance-170");
    assert_eq!(m.turbine_id, "A01");
    assert_eq!(m.maintenance_action, "补修");
    assert_eq!(m.performed_at, "171");
}

#[test]
fn report_history_record_files_unknown_turbine() {
    let r = wind_knowledge::service::report_history_record(
        "beifeng/reports/generated/wind_report_1.md",
        "High",
        "齿轮箱油温高",
        None,
        "fault_report",
        "1780000000",
        "1780000001",
    );
    assert_eq!(r.report_id, "report-1780000000");
    assert_eq!(r.turbine_id, "UNKNOWN");
    assert_eq!(r.created_at, "1780000001");
    assert_eq!(r.report_type, "fault_report");
    assert_eq!(r.risk_level, "High");
    assert_eq!(r.notes.as_deref(), Some("auto-recorded by report generation runtime"));
    let r = wind_knowledge::service::report_history_record("p", "Low", "x", Some("A001"), "t", "1", "2");
    assert_eq!(r.turbine_id, "A001");
}
