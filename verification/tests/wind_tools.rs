use wind_knowledge::json::JsonValue;
use wind_knowledge::normalize::WindKnowledgeQueryInput;
use wind_knowledge::query::FaultAnalysisInput;
use wind_knowledge::report::WindReportGenerateInput;
use wind_knowledge::wind_tools::{
    fault_possible_causes, fault_problem_summary, graph_nodes, hit_documents, knowledge_output,
    knowledge_query_failure, markdown_value_list, value_string_array, wind_fault_analysis_result,
    wind_knowledge_debug_payload, wind_knowledge_query_request, wind_report_markdown, yes_no_value,
};

fn s(v: &str) -> JsonValue {
    JsonValue::Str(v.to_string())
}

fn arr(items: &[&str]) -> JsonValue {
    JsonValue::Array(items.iter().map(|i| s(i)).collect())
}

fn obj(fields: Vec<(&str, JsonValue)>) -> JsonValue {
    JsonValue::Object(fields.into_iter().map(|(k, v)| (k.to_string(), v)).collect())
}

fn field<'a>(v: &'a JsonValue, key: &str) -> &'a JsonValue {
    v.get(key).expect("field")
}

fn text(v: &JsonValue) -> String {
    match v {
        JsonValue::Str(t) => t.clone(),
        _ => panic!("not a string"),
    }
}

fn texts(v: &JsonValue) -> Vec<String> {
    match v {
        JsonValue::Array(items) => items.iter().map(text).collect(),
        _ => panic!("not an array"),
    }
}

#[test]
fn markdown_value_list_empty() {
    let result = markdown_value_list(None);
    assert!(result.contains("不确定"));
}

#[test]
fn markdown_value_list_items() {
    let value = arr(&["item1", "item2"]);
    let result = markdown_value_list(Some(&value));
    assert!(result.contains("- item1"));
    assert!(result.contains("- item2"));
}

#[test]
fn yes_no_value_bools() {
    assert_eq!(yes_no_value(Some(&JsonValue::Bool(true))), "是");
    assert_eq!(yes_no_value(Some(&JsonValue::Bool(false))), "否");
    assert_eq!(yes_no_value(None), "否");
}

#[test]
fn wind_report_markdown_contains_sections() {
    let input = WindReportGenerateInput {
        problem: "test problem".to_string(),
        component: Some("Blade".to_string()),
        symptom: Some("裂纹".to_string()),
        report_type: None,
        title: None,
    };
    let fault_analysis = obj(vec![
        ("problem_summary", s("test summary")),
        ("possible_causes", arr(&["cause1"])),
        ("inspection_items", arr(&["item1"])),
        ("inspection_methods", arr(&["method1"])),
        ("recommended_interval", s("30天")),
        ("maintenance_actions", arr(&["action1"])),
        ("risk_level", s("Medium")),
        ("shutdown_evaluation_required", JsonValue::Bool(false)),
        ("human_confirmation_required", JsonValue::Bool(true)),
        ("safety_notes", arr(&["注意安全"])),
        (
            "evidence_summary",
            obj(vec![("hit_documents", arr(&["doc1.md"])), ("graph_nodes", arr(&["node1"])), ("risk_level", s("Medium"))]),
        ),
        ("missing_data", arr(&[])),
        ("confidence", JsonValue::Number("0.75".to_string())),
    ]);
    // The confidence is rendered with two decimals by the caller.
    let md = wind_report_markdown(&input, &fault_analysis, "20260604_103045", "0.75");
    assert!(md.contains("# 风力发电运维报告"));
    assert!(md.contains("## 1. 基本信息"));
    assert!(md.contains("## 8. 风险评估"));
    assert!(md.contains("## 13. 免责声明"));
    assert!(md.contains("test problem"));
    assert!(md.contains("Medium"));
    assert!(md.contains("否"));
    assert!(md.contains("是"));
    assert!(md.contains("0.75"));
    assert!(md.contains("## 11. 缺失数据\n\n- 不确定，需要补充数据。\n\n"));
}

#[test]
fn string_arrays_skip_other_items() {
    let value = JsonValue::Array(vec![s("a"), JsonValue::Bool(true), s("b")]);
    assert_eq!(value_string_array(Some(&value)), vec!["a".to_string(), "b".to_string()]);
    assert!(value_string_array(Some(&s("x"))).is_empty());
}

#[test]
fn fault_pieces_from_graph_and_hits() {
    let graph = vec![
        obj(vec![("component", s("Gearbox")), ("symptom", s("油温升高"))]),
        obj(vec![("component", s("Blade"))]),
        s("not an object"),
    ];
    assert_eq!(
        fault_problem_summary("油温高", &graph, &[]),
        "故障现象“油温高”匹配到 Gearbox 的“油温升高”，已按风电故障分析流程生成建议。"
    );
    assert_eq!(
        fault_problem_summary("x", &[], &[s("hit")]),
        "故障现象“x”未命中明确图谱节点，已基于检索证据生成低置信度分析。"
    );
    let causes = fault_possible_causes(&graph);
    assert_eq!(causes.len(), 3);
    let mut sorted = causes.clone();
    sorted.sort();
    assert_eq!(sorted, causes);
    assert_eq!(fault_possible_causes(&[s("x")]), vec!["不确定，需要补充数据。".to_string()]);
    assert_eq!(graph_nodes(&graph), vec!["Gearbox:油温升高", "Blade:Unknown", "Unknown:Unknown"]);
    let hits = vec![
        obj(vec![("source_path", s("b.md"))]),
        obj(vec![("path", s("a.md"))]),
        obj(vec![("source_path", JsonValue::Null), ("path", s("c.md"))]),
        obj(vec![("source_path", s("b.md"))]),
    ];
    assert_eq!(hit_documents(&hits), vec!["a.md".to_string(), "b.md".to_string()]);
}

#[test]
fn fault_analysis_result_follows_the_answer() {
    let knowledge = obj(vec![
        ("hits", JsonValue::Array(vec![obj(vec![("source_path", s("kb/blade.md"))])])),
        ("graph_suggestions", JsonValue::Array(vec![obj(vec![("component", s("Blade")), ("symptom", s("叶片裂纹"))])])),
        ("advice", obj(vec![("inspection_items", arr(&["裂纹长度"])), ("risk_level", s("Medium"))])),
        ("risk_assessment", obj(vec![("shutdown_evaluation_required", JsonValue::Bool(true))])),
    ]);
    let input = FaultAnalysisInput { problem: "叶片裂纹".to_string(), component: None, symptom: None };
    let r = wind_fault_analysis_result(&input, &knowledge, JsonValue::Number("0.5".to_string()));
    assert_eq!(text(field(&r, "risk_level")), "Medium");
    assert_eq!(texts(field(&r, "inspection_items")), vec!["裂纹长度".to_string()]);
    assert_eq!(text(field(&r, "recommended_interval")), "不确定，需要补充数据。");
    assert!(matches!(field(&r, "shutdown_evaluation_required"), JsonValue::Bool(true)));
    assert!(matches!(field(&r, "human_confirmation_required"), JsonValue::Bool(false)));
    let ev = field(&r, "evidence_summary");
    assert_eq!(texts(field(ev, "hit_documents")), vec!["kb/blade.md".to_string()]);
    assert_eq!(texts(field(ev, "graph_nodes")), vec!["Blade:叶片裂纹".to_string()]);
    assert_eq!(texts(field(&r, "possible_causes")).len(), 2);
}

#[test]
fn knowledge_request_output_and_debug() {
    let input = WindKnowledgeQueryInput {
        query: "叶片裂纹是否需要停机".to_string(),
        component: Some("叶片".to_string()),
        symptom: Some("裂纹".to_string()),
        domain: None,
        equipment: None,
        top_k: Some(3),
        debug: Some(true),
    };
    let body = wind_knowledge_query_request(&input);
    assert!(matches!(field(&body, "top_k"), JsonValue::Number(n) if n == "3"));
    assert_eq!(text(field(&body, "search_mode")), "hybrid");
    assert_eq!(text(field(&body, "component")), "Blade");
    let debug = wind_knowledge_debug_payload(&input, "mock://claw-rag-service/v1/query", body_copy(&body), body_copy(&body));
    assert_eq!(text(field(field(&debug, "post"), "url")), "mock://claw-rag-service/v1/query");
    let answer = obj(vec![
        ("hits", JsonValue::Array(vec![obj(vec![("source_path", s("knowledge_base/fault_cases/blade.md"))])])),
        ("advice", obj(vec![("should_inspect", JsonValue::Bool(true))])),
    ]);
    let out = knowledge_output(answer, Some(debug));
    assert!(matches!(field(&out, "graph_suggestions"), JsonValue::Array(items) if items.is_empty()));
    assert!(matches!(field(&out, "risk_assessment"), JsonValue::Null));
    assert!(matches!(field(field(&out, "advice"), "should_inspect"), JsonValue::Bool(true)));
    assert!(out.get("debug").is_some());
    assert!(knowledge_query_failure("refused").starts_with("wind_knowledge_query failed: refused. Start it with"));
}

fn body_copy(v: &JsonValue) -> JsonValue {
    match v {
        JsonValue::Object(fields) => JsonValue::Object(fields.iter().map(|(k, x)| (k.clone(), body_copy(x))).collect()),
        JsonValue::Array(items) => JsonValue::Array(items.iter().map(body_copy).collect()),
        JsonValue::Str(t) => JsonValue::Str(t.clone()),
        JsonValue::Number(n) => JsonValue::Number(n.clone()),
        JsonValue::Bool(b) => JsonValue::Bool(*b),
        JsonValue::Null => JsonValue::Null,
    }
}
