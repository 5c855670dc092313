use wind_knowledge::memory::{
    fault_record_id, new_fault_record_id, now_timestamp, summarize_recent_faults,
    FaultHistoryRecord, FaultRecord, MaintenanceHistoryRecord, MemoryContext, MemoryService,
    ReportHistoryRecord, SqliteWindMemory,
};

fn fault(symptom: &str) -> FaultRecord {
    FaultRecord {
        id: "1".to_string(),
        turbine_id: Some("T-01".to_string()),
        component: "Gearbox".to_string(),
        symptom: symptom.to_string(),
        risk_level: "High".to_string(),
        created_at: "2026-06-05T10:00:00Z".to_string(),
        query: "齿轮箱油温升高".to_string(),
    }
}

#[test]
fn summary_lists_three_most_frequent_symptoms() {
    let records = vec![fault("b"), fault("a"), fault("c"), fault("b"), fault("d"), fault("c")];
    assert_eq!(
        summarize_recent_faults(&records).unwrap(),
        "历史同部件故障高频项：b(2次)，c(2次)，a(1次)"
    );
    assert_eq!(summarize_recent_faults(&[fault("油温升高")]).unwrap(), "历史同部件故障高频项：油温升高(1次)");
    assert!(summarize_recent_faults(&[]).is_none());
}

#[test]
fn record_ids_and_timestamps_are_decimal() {
    assert_eq!(fault_record_id(1717581600123), "fault-1717581600123");
    let id = new_fault_record_id();
    assert!(id.starts_with("fault-"));
    assert!(id["fault-".len()..].chars().all(|c| c.is_ascii_digit()));
    let ts = now_timestamp();
    assert!(!ts.is_empty() && ts.chars().all(|c| c.is_ascii_digit()));
}

#[test]
fn sqlite_memory_keeps_its_path() {
    let m = SqliteWindMemory::new("data/wind.sqlite".to_string());
    assert_eq!(m.db_path, "data/wind.sqlite");
}

fn context(count: usize, turbine: Option<&str>) -> MemoryContext {
    MemoryContext {
        turbine_id: turbine.map(|t| t.to_string()),
        component: Some("Blade".to_string()),
        symptom: Some("叶片裂纹".to_string()),
        historical_fault_count: count,
        ..MemoryContext::default()
    }
}

#[test]
fn history_summary_names_counts_and_ordinal() {
    let mut c = context(2, Some("A001"));
    c.last_fault_time = Some("2026-03".to_string());
    assert!(c.has_history());
    assert_eq!(
        c.history_summary().unwrap(),
        "历史记忆：A001 Blade/叶片裂纹 历史同类故障 2 次，最近一次 2026-03，上次风险 Unknown；历史维修 0 次；当前为第 3 次出现。"
    );
    assert!(MemoryContext::default().history_summary().is_none());
}

#[test]
fn third_occurrence_raises_medium_and_high_only() {
    let c = context(2, Some("A001"));
    assert_eq!(
        c.risk_upgrade_reason("Medium").unwrap(),
        "同一风机同类故障累计达到3次，按历史复发规则升级风险。"
    );
    assert!(c.risk_upgrade_reason("Low").is_none());
    assert!(context(1, Some("A001")).risk_upgrade_reason("High").is_none());
    assert!(context(5, Some(" unknown ")).risk_upgrade_reason("High").is_none());
    assert!(context(5, None).risk_upgrade_reason("High").is_none());
    let mut recur = context(0, Some("A001"));
    recur.short_term_recurrence = true;
    assert_eq!(recur.risk_upgrade_reason("High").unwrap(), "维修后短期复发，按历史记忆规则升级风险。");
}

fn fault_history(id: &str, turbine: &str, component: &str, symptom: &str, at: &str, risk: &str) -> FaultHistoryRecord {
    FaultHistoryRecord {
        fault_id: id.to_string(),
        turbine_id: turbine.to_string(),
        component: component.to_string(),
        symptom: symptom.to_string(),
        risk_level: risk.to_string(),
        created_at: at.to_string(),
        query: None,
        notes: None,
    }
}

fn maintenance(turbine: &str, component: &str, at: &str) -> MaintenanceHistoryRecord {
    MaintenanceHistoryRecord {
        record_id: "MH-1".to_string(),
        turbine_id: turbine.to_string(),
        component: component.to_string(),
        maintenance_action: "裂纹修补".to_string(),
        performed_at: at.to_string(),
        notes: None,
    }
}

fn report(turbine: &str, path: &str) -> ReportHistoryRecord {
    ReportHistoryRecord {
        report_id: "R".to_string(),
        turbine_id: turbine.to_string(),
        report_type: "fault".to_string(),
        problem: "p".to_string(),
        risk_level: "Medium".to_string(),
        report_path: path.to_string(),
        created_at: "2026".to_string(),
        notes: None,
    }
}

#[test]
fn loads_context_from_records() {
    let service = MemoryService::new("memory".to_string());
    assert_eq!(service.root(), "memory");
    let faults = vec![
        fault_history("FH-1", "A001", "Blade", "叶片裂纹", "2026-03", "Medium"),
        fault_history("FH-2", "A001", "blade", "裂纹", "2026-05", "High"),
        fault_history("FH-3", "A001", "Gearbox", "叶片裂纹", "2026-06", "Low"),
        fault_history("FH-4", "A002", "Blade", "叶片裂纹", "2026-07", "Low"),
    ];
    let maint = vec![maintenance("A001", "Blade", "2026-04"), maintenance("A001", "Blade", " ")];
    let reports: Vec<ReportHistoryRecord> = (0..7).map(|i| report("A001", &format!("r{i}.md"))).collect();
    let c = service.load_turbine_history(Some(" A001 "), Some("Blade"), Some("叶片裂纹"), &faults, &maint, &reports);
    assert_eq!(c.turbine_id.as_deref(), Some("A001"));
    assert_eq!(c.historical_fault_count, 2);
    assert_eq!(c.last_fault_time.as_deref(), Some("2026-05"));
    assert_eq!(c.last_risk_level.as_deref(), Some("High"));
    assert_eq!(c.maintenance_count, 2);
    assert!(c.short_term_recurrence);
    assert_eq!(c.previous_reports, vec!["r0.md", "r1.md", "r2.md", "r3.md", "r4.md"]);
}

#[test]
fn unknown_turbine_gives_empty_context() {
    let service = MemoryService::new("memory".to_string());
    let faults = vec![fault_history("FH-1", "UNKNOWN", "Blade", "叶片裂纹", "2026-03", "Medium")];
    let c = service.load_turbine_history(Some("unknown"), None, None, &faults, &vec![], &vec![]);
    assert!(c.turbine_id.is_none());
    assert!(!c.has_history());
    let none = service.load_turbine_history(Some("  "), None, None, &faults, &vec![], &vec![]);
    assert!(none.turbine_id.is_none());
}

#[test]
fn no_recurrence_without_faults() {
    let service = MemoryService::new("m".to_string());
    let maint = vec![maintenance("A001", "Blade", "2026-04")];
    let c = service.load_turbine_history(Some("A001"), None, None, &vec![], &maint, &vec![]);
    assert_eq!(c.maintenance_count, 1);
    assert!(!c.short_term_recurrence);
    assert!(c.last_fault_time.is_none());
}

fn blade_response(risk_level: &str) -> (wind_knowledge::advice::InspectionAdvice, wind_knowledge::risk::RiskAssessment) {
    let graph = vec![wind_knowledge::graph::GraphSuggestion {
        entry_id: "blade_crack".to_string(),
        component: "Blade".to_string(),
        symptom: "叶片裂纹".to_string(),
        fault_mode: None,
        accompanying_symptoms: Vec::new(),
        escalates_to: None,
        mitigated_by: Vec::new(),
        inspection_items: vec!["裂纹长度".to_string()],
        inspection_methods: vec!["无人机复检".to_string()],
        recommended_interval: "30 天".to_string(),
        maintenance_actions: vec!["建立跟踪工单".to_string()],
        risk_level: risk_level.to_string(),
        shutdown_evaluation_conditions: Vec::new(),
        safety_notes: Vec::new(),
        evidence_sources: Vec::new(),
    }];
    let config = wind_knowledge::config::WindRulesConfig::default_embedded();
    let advice = wind_knowledge::inspection::generate_wind_inspection_advice(
        "叶片裂纹",
        &Vec::new(),
        &graph,
        &config.domain_extra_items,
    );
    let risk = wind_knowledge::risk::generate_wind_risk_assessment(&advice, &config, None);
    (advice, risk)
}

#[test]
fn repeated_faults_upgrade_medium_to_high() {
    let (mut advice, mut risk) = blade_response("Medium");
    let context = MemoryContext {
        turbine_id: Some("A001".to_string()),
        component: Some("Blade".to_string()),
        symptom: Some("叶片裂纹".to_string()),
        historical_fault_count: 2,
        ..MemoryContext::default()
    };
    wind_knowledge::memory::apply_memory_context(&mut advice, &mut risk, &context);
    assert_eq!(risk.risk_level, "High");
    assert!(advice.additional_context.iter().any(|item| item.contains("历史记忆")));
}

#[test]
fn recurrence_raises_high_to_critical_with_reason() {
    let (mut advice, mut risk) = blade_response("High");
    let before = risk.risk_reasons.len();
    let context = MemoryContext {
        turbine_id: Some("A001".to_string()),
        short_term_recurrence: true,
        maintenance_count: 1,
        ..MemoryContext::default()
    };
    wind_knowledge::memory::apply_memory_context(&mut advice, &mut risk, &context);
    assert_eq!(risk.risk_level, "Critical");
    assert_eq!(advice.risk_level, "Critical");
    assert!(risk.escalation_required);
    assert_eq!(risk.risk_reasons.len(), before + 1);
    assert_eq!(risk.risk_reasons[before], "维修后短期复发，按历史记忆规则升级风险。 High → Critical。");
    assert_eq!(risk.immediate_actions.last().unwrap(), "结合历史复发记录升级给现场负责人复核。");
}

#[test]
fn unnamed_turbine_keeps_the_risk() {
    let (mut advice, mut risk) = blade_response("Medium");
    let context = MemoryContext {
        turbine_id: Some("unknown".to_string()),
        historical_fault_count: 5,
        ..MemoryContext::default()
    };
    wind_knowledge::memory::apply_memory_context(&mut advice, &mut risk, &context);
    assert_eq!(risk.risk_level, "Medium");
    assert!(advice.additional_context.iter().any(|item| item.contains("当前为第 6 次出现")));
}

#[test]
fn loads_context_and_appends_records() {
    let service = MemoryService::new("memory".to_string());
    let faults = vec![FaultHistoryRecord {
        fault_id: "FH-1".to_string(),
        turbine_id: "A001".to_string(),
        component: "Blade".to_string(),
        symptom: "叶片裂纹".to_string(),
        risk_level: "Medium".to_string(),
        created_at: "2026-03".to_string(),
        query: None,
        notes: None,
    }];
    let maintenance = vec![MaintenanceHistoryRecord {
        record_id: "MH-1".to_string(),
        turbine_id: "A001".to_string(),
        component: "Blade".to_string(),
        maintenance_action: "裂纹修补".to_string(),
        performed_at: "2026-04".to_string(),
        notes: None,
    }];
    let context = service.load_turbine_history(
        Some("A001"),
        Some("Blade"),
        Some("叶片裂纹"),
        &faults,
        &maintenance,
        &vec![],
    );
    assert_eq!(context.historical_fault_count, 1);
    assert_eq!(context.maintenance_count, 1);
    assert!(context.short_term_recurrence);
}
