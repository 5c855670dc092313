use wind_knowledge::config::WindRulesConfig;
use wind_knowledge::graph::{FaultGraph, FaultGraphEntry};
use wind_knowledge::query::{QueryRequest, SearchMode};
use wind_knowledge::search::{
    add_scada_context, answer_query, contextual_query, graph_suggestions, hit_evidence, keyword_match_count,
    keyword_terms, metadata_match_counts, optional_eq, row_matches_filters, truncate_snippet, uses_keyword,
    uses_vector, ChunkRow,
};

fn request(query: &str) -> QueryRequest {
    QueryRequest {
        query: query.to_string(),
        top_k: 5,
        turbine_id: None,
        component: None,
        symptom: None,
        scada_context: None,
        domain: None,
        equipment: None,
        file_type: None,
        source_type: None,
        reserved_media: None,
        search_mode: SearchMode::Hybrid,
    }
}

fn row(domain: Option<&str>, file_type: Option<&str>, reserved: bool) -> ChunkRow {
    ChunkRow {
        id: 1,
        path: "kb/blade.md:0".to_string(),
        text: "Blade crack inspection 叶片裂纹".to_string(),
        file_type: file_type.map(|s| s.to_string()),
        domain: domain.map(|s| s.to_string()),
        equipment: None,
        source_type: None,
        original_path: None,
        parser_status: Some("parsed".to_string()),
        reserved_media: reserved,
    }
}

fn entry(id: &str, component: &str, symptom: &str) -> FaultGraphEntry {
    FaultGraphEntry {
        id: id.to_string(),
        component: component.to_string(),
        symptom: symptom.to_string(),
        fault_mode: None,
        possible_causes: Vec::new(),
        accompanying_symptoms: Vec::new(),
        escalates_to: None,
        mitigated_by: Vec::new(),
        inspection_items: vec!["裂纹长度".to_string()],
        inspection_methods: vec!["无人机复检".to_string()],
        recommended_interval: "30 天".to_string(),
        maintenance_actions: vec!["建立工单".to_string()],
        risk_level: "Medium".to_string(),
        shutdown_evaluation_conditions: vec!["裂纹进入主承载区域".to_string()],
        safety_notes: Vec::new(),
        evidence_sources: vec!["kb/blade.md".to_string()],
    }
}

fn graph() -> FaultGraph {
    FaultGraph {
        schema_version: "1.0".to_string(),
        entries: vec![entry("blade_crack", "Blade", "叶片裂纹"), entry("gearbox_temp", "Gearbox", "齿轮箱油温升高")],
    }
}

#[test]
fn filters_compare_ignoring_ascii_case() {
    assert!(optional_eq(Some("Blade"), Some("blade")));
    assert!(optional_eq(None, None));
    assert!(!optional_eq(None, Some("Blade")));
    let mut req = request("叶片");
    req.domain = Some("BLADE".to_string());
    req.reserved_media = Some(false);
    assert!(row_matches_filters(&row(Some("Blade"), Some("md"), false), &req));
    assert!(!row_matches_filters(&row(Some("Blade"), Some("md"), true), &req));
    assert!(!row_matches_filters(&row(None, Some("md"), false), &req));
    req.file_type = Some("pdf".to_string());
    assert_eq!(metadata_match_counts(&row(Some("Blade"), Some("md"), false), &req), (1, 2));
    assert_eq!(metadata_match_counts(&row(None, None, false), &request("x")), (0, 0));
}

#[test]
fn search_modes_choose_the_scores() {
    assert!(uses_vector(SearchMode::Hybrid) && uses_keyword(SearchMode::Hybrid));
    assert!(uses_vector(SearchMode::Vector) && !uses_keyword(SearchMode::Vector));
    assert!(!uses_vector(SearchMode::Keyword) && uses_keyword(SearchMode::Keyword));
}

#[test]
fn keyword_terms_split_lower_and_add_domain_words() {
    assert_eq!(keyword_terms("Blade, Crack!  check"), vec!["blade", "crack", "check"]);
    assert_eq!(keyword_terms("叶片裂纹复检"), vec!["叶片裂纹复检", "叶片", "裂纹", "复检"]);
    assert_eq!(keyword_terms("!!!"), vec!["!!!"]);
    assert!(keyword_terms("   ").is_empty());
    assert_eq!(keyword_match_count("blade crack yaw", "BLADE with a crack"), (2, 3));
    assert_eq!(keyword_match_count("", "anything"), (0, 0));
}

#[test]
fn snippets_are_cut_by_characters() {
    assert_eq!(truncate_snippet("叶片裂纹", 10), "叶片裂纹");
    assert_eq!(truncate_snippet("叶片裂纹", 2), "叶片...");
    let mut r = row(None, None, false);
    assert_eq!(hit_evidence(&r).source_path, "kb/blade.md:0");
    r.original_path = Some("kb/blade.md".to_string());
    assert_eq!(hit_evidence(&r).source_path, "kb/blade.md");
}

#[test]
fn scada_context_joins_query_and_advice() {
    let mut req = request("功率曲线异常");
    assert_eq!(contextual_query(&req), "功率曲线异常");
    req.scada_context = Some("  风速 8m/s 功率偏低 ".to_string());
    assert_eq!(contextual_query(&req), "功率曲线异常\nSCADA上下文：风速 8m/s 功率偏低");
    let config = WindRulesConfig::default_embedded();
    let mut advice = wind_knowledge::inspection::generate_wind_inspection_advice(
        "功率曲线异常",
        &Vec::new(),
        &[],
        &config.domain_extra_items,
    );
    add_scada_context(&mut advice, &req);
    assert_eq!(advice.additional_context, vec!["SCADA上下文：风速 8m/s 功率偏低".to_string()]);
    add_scada_context(&mut advice, &req);
    assert_eq!(advice.additional_context.len(), 1);
}

#[test]
fn graph_suggestions_fall_back_to_the_plain_lookup() {
    let r = graph_suggestions(&graph(), &request("叶片裂纹"));
    assert_eq!(r[0].entry_id, "blade_crack");
    assert!(graph_suggestions(&graph(), &request("完全无关")).is_empty());
}

#[test]
fn answer_query_builds_advice_and_risk() {
    let config = WindRulesConfig::default_embedded();
    let mut req = request("叶片裂纹");
    req.scada_context = Some("振动上升".to_string());
    let outcome = answer_query(&req, &graph(), &Vec::new(), &config, None);
    assert_eq!(outcome.graph_suggestions[0].entry_id, "blade_crack");
    assert!(outcome.advice.additional_context.iter().any(|c| c == "SCADA上下文：振动上升"));
    assert!(outcome.risk_assessment.shutdown_evaluation_required);
}

#[test]
fn query_phase_and_hit_cap() {
    assert_eq!(wind_knowledge::search::query_phase(false, 5), "1-sqlite-no-db");
    assert_eq!(wind_knowledge::search::query_phase(true, 0), "1-sqlite-empty");
    assert_eq!(wind_knowledge::search::query_phase(true, 3), "3-hybrid");
    assert_eq!(wind_knowledge::search::hit_cap(8), 8);
    assert_eq!(wind_knowledge::search::hit_cap(500), 64);
}
