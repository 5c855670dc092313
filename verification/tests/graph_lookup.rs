use wind_knowledge::graph::{FaultGraph, FaultGraphEntry, GraphSuggestion};
use wind_knowledge::graph_lookup::{suggestions_for_multi_component_query, suggestions_for_query};

fn entry(id: &str, component: &str, symptom: &str) -> FaultGraphEntry {
    FaultGraphEntry {
        id: id.to_string(),
        component: component.to_string(),
        symptom: symptom.to_string(),
        fault_mode: None,
        possible_causes: Vec::new(),
        accompanying_symptoms: Vec::new(),
        escalates_to: None,
        mitigated_by: Vec::new(),
        inspection_items: Vec::new(),
        inspection_methods: Vec::new(),
        recommended_interval: "30 天".to_string(),
        maintenance_actions: Vec::new(),
        risk_level: "Medium".to_string(),
        shutdown_evaluation_conditions: Vec::new(),
        safety_notes: Vec::new(),
        evidence_sources: Vec::new(),
    }
}

fn graph() -> FaultGraph {
    FaultGraph {
        schema_version: "1.0".to_string(),
        entries: vec![
            entry("blade_crack", "Blade", "叶片裂纹"),
            entry("blade_erosion", "Blade", "前缘侵蚀"),
            entry("gearbox_temp", "Gearbox", "齿轮箱油温升高"),
            entry("cooling_block", "Cooling", "散热器堵塞"),
            entry("yaw_brake", "Yaw", "偏航制动器磨损"),
        ],
    }
}

fn ids(r: &[GraphSuggestion]) -> Vec<String> {
    r.iter().map(|s| s.entry_id.clone()).collect()
}

#[test]
fn multi_component_query_merges_by_importance() {
    let r = suggestions_for_multi_component_query(&graph(), "叶片裂纹，同时齿轮箱油温偏高");
    assert_eq!(ids(&r), vec!["gearbox_temp", "blade_crack"]);
    assert_eq!(r[0].component, "Gearbox");
    assert_eq!(r[1].symptom, "叶片裂纹");
}

#[test]
fn multi_component_query_orders_ties_by_entry_id() {
    let r = suggestions_for_multi_component_query(&graph(), "散热器堵塞导致齿轮箱油温升高");
    assert_eq!(ids(&r), vec!["gearbox_temp", "cooling_block"]);
}

#[test]
fn multi_component_query_keeps_each_entry_once() {
    let mut g = graph();
    g.entries.push(entry("gearbox_temp", "Cooling", "散热器堵塞"));
    let r = suggestions_for_multi_component_query(&g, "冷却不足，齿轮箱油温升高");
    let found = ids(&r);
    assert_eq!(found, vec!["gearbox_temp", "cooling_block"]);
    assert_eq!(r[0].component, "Gearbox");
}

#[test]
fn multi_component_query_without_components_uses_normalized_lookup() {
    let r = suggestions_for_multi_component_query(&graph(), "blade crack found");
    assert_eq!(ids(&r), vec!["blade_crack"]);
    let none = suggestions_for_multi_component_query(&graph(), "blade erosion on the leading edge");
    assert!(none.is_empty());
}

#[test]
fn multi_component_query_with_nothing_known_is_empty() {
    let r = suggestions_for_multi_component_query(&graph(), "hello");
    assert!(r.is_empty());
}

#[test]
fn query_text_with_domain_hint_uses_three_suggestions() {
    let mut g = graph();
    for n in 0..5 {
        g.entries.push(entry(&format!("blade_extra_{n}"), "Blade", "叶片裂纹扩展"));
    }
    let r = suggestions_for_query(&g, "裂纹", Some("Blade"), None);
    assert_eq!(r.len(), 3);
    assert!(r.iter().all(|s| s.component == "Blade"));
}

use wind_knowledge::graph::{FaultEscalationRelation, GraphQuery};
use wind_knowledge::graph_lookup::{
    get_accompanying_symptoms, query_fault_graph_file, walk_escalation_path,
};

fn escalating(id: &str, symptom: &str, to: &str) -> FaultGraphEntry {
    let mut e = entry(id, "Gearbox", symptom);
    e.escalates_to = Some(FaultEscalationRelation {
        fault: to.to_string(),
        condition: format!("{id} 未处理"),
    });
    e
}

#[test]
fn escalation_path_follows_relations_level_by_level() {
    let entries = vec![
        escalating("a", "油温升高", "b"),
        escalating("b", "轴承磨损", "轴承剥落"),
        entry("c", "Gearbox", "轴承剥落"),
    ];
    let path = walk_escalation_path(&entries, &["a"], 3);
    assert_eq!(path.len(), 2);
    assert_eq!(path[0].from_id, "a");
    assert_eq!(path[0].to_id, "b");
    assert_eq!(path[0].condition, "a 未处理");
    assert_eq!(path[1].from_id, "b");
    assert_eq!(path[1].to_id, "c");
    assert_eq!(path[1].to_entry.symptom, "轴承剥落");
    assert_eq!(walk_escalation_path(&entries, &["a"], 1).len(), 1);
    assert!(walk_escalation_path(&entries, &["a"], 0).is_empty());
    assert!(walk_escalation_path(&entries, &["zzz"], 3).is_empty());
}

#[test]
fn escalation_cycles_stop_at_seen_steps() {
    let entries = vec![escalating("a", "x", "b"), escalating("b", "y", "a")];
    let path = walk_escalation_path(&entries, &["a"], 10);
    assert_eq!(path.len(), 2);
    assert_eq!(path[1].to_id, "a");
}

#[test]
fn accompanying_symptoms_are_sorted_and_unique() {
    let mut a = entry("a", "Blade", "叶片裂纹");
    a.accompanying_symptoms = vec!["振动".to_string(), "异响".to_string()];
    let mut b = entry("b", "Blade", "前缘侵蚀");
    b.accompanying_symptoms = vec!["异响".to_string(), "功率下降".to_string()];
    let mut c = entry("c", "Blade", "雷击");
    c.accompanying_symptoms = vec!["焦痕".to_string()];
    let r = get_accompanying_symptoms(&[a, b, c], &["a", "b"]);
    let mut expected = vec!["振动".to_string(), "异响".to_string(), "功率下降".to_string()];
    expected.sort();
    assert_eq!(r, expected);
}

#[test]
fn graph_file_answer_uses_forward_slashes() {
    let query = GraphQuery {
        component: Some("Blade".to_string()),
        symptom: None,
        risk_level: None,
        inspection_method: None,
        limit: 5,
    };
    let response = query_fault_graph_file("kb\\graph.json", &graph(), &query);
    assert_eq!(response.graph_path, "kb/graph.json");
    assert_eq!(response.matches.len(), 2);
}
