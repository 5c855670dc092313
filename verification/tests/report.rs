use wind_knowledge::report::normalize_report_type;
use wind_knowledge::report::{build_wind_report_markdown, history_summary_markdown, relation_context_markdown, WindReportGenerateInput};
use wind_knowledge::timestamp::{report_time_step, utc_report_timestamp, ReportTimeStep, REPORT_TIME_TRIES};
use wind_knowledge::wind_tools::{civil_from_days, report_timestamp};

#[test]
fn civil_from_days_epoch() {
    // 1970-01-01 = day 0
    let (y, m, d) = civil_from_days(0);
    assert_eq!(y, 1970);
    assert_eq!(m, 1);
    assert_eq!(d, 1);
}

#[test]
fn report_dates_follow_the_calendar_around_the_pinned_day() {
    assert_eq!(civil_from_days(20_627), (2026, 6, 23));
    assert_eq!(civil_from_days(20_629), (2026, 6, 25));
    assert_eq!(civil_from_days(-1), (1969, 12, 31));
    assert_eq!(civil_from_days(11_016), (2000, 2, 29));
}

#[test]
fn report_timestamp_formats_date_and_time() {
    let ts = report_timestamp(20_628 * 86_400 + 10 * 3_600 + 30 * 60 + 45);
    assert_eq!(ts, "20260604_103045");
    assert_eq!(report_timestamp(-1), "19691231_235959");
    assert_eq!(report_timestamp(0), "19700101_000000");
}

#[test]
fn utc_report_timestamp_uses_the_gregorian_calendar() {
    assert_eq!(utc_report_timestamp(20_608 * 86_400 + 10 * 3_600 + 30 * 60 + 45), "20260604_103045");
    assert_eq!(utc_report_timestamp(20_628 * 86_400), "20260624_000000");
    assert_eq!(utc_report_timestamp(-1), "19691231_235959");
    assert_eq!(utc_report_timestamp(951_782_400), "20000229_000000");
}

#[test]
fn normalize_report_type_defaults() {
    assert_eq!(normalize_report_type(None), "inspection_report");
    assert_eq!(normalize_report_type(Some("fault_report")), "fault_report");
    assert_eq!(
        normalize_report_type(Some("maintenance_advice")),
        "maintenance_advice"
    );
    assert_eq!(
        normalize_report_type(Some("risk_assessment_report")),
        "risk_assessment_report"
    );
    assert_eq!(
        normalize_report_type(Some("unknown_type")),
        "inspection_report"
    );
}


fn report_fault_result(risk_level: &str) -> wind_knowledge::analysis::FaultAnalysis {
    wind_knowledge::analysis::FaultAnalysis {
        problem_summary: "发现叶片裂纹，需要复核缺陷范围。".to_string(),
        possible_causes: vec!["前缘冲蚀或外物冲击。".to_string()],
        inspection_items: vec!["裂纹长度".to_string(), "裂纹宽度".to_string()],
        inspection_methods: vec!["无人机复检".to_string(), "超声检测".to_string()],
        recommended_interval: "30 天".to_string(),
        maintenance_actions: vec!["建立跟踪工单".to_string()],
        additional_context: Vec::new(),
        history_summary: None,
        risk_level: risk_level.to_string(),
        shutdown_evaluation_required: true,
        human_confirmation_required: true,
        safety_notes: vec!["高空作业需工作票。".to_string()],
        evidence_summary: wind_knowledge::query::EvidenceSummary {
            hit_documents: vec!["knowledge_base/fault_cases/blade.md".to_string()],
            graph_nodes: vec!["Blade:叶片裂纹".to_string()],
            risk_level: risk_level.to_string(),
        },
        missing_data: vec!["裂纹位置".to_string()],
    }
}

fn report_input(problem: &str, component: &str, symptom: &str, kind: &str, title: Option<&str>) -> WindReportGenerateInput {
    WindReportGenerateInput {
        problem: problem.to_string(),
        component: Some(component.to_string()),
        symptom: Some(symptom.to_string()),
        report_type: Some(kind.to_string()),
        title: title.map(|t| t.to_string()),
    }
}

#[test]
fn inspection_report_contains_risk_and_shutdown_evaluation() {
    let markdown = build_wind_report_markdown(
        &report_input("叶片裂纹", "Blade", "裂纹", "inspection_report", Some("叶片裂纹巡检分析报告")),
        &report_fault_result("Medium"),
        "20260603_213000",
        "0.72",
    );
    assert!(markdown.contains("# 风力发电运维报告"));
    assert!(markdown.contains("风险等级：Medium"));
    assert!(markdown.contains("是否需要停机评估：是"));
    assert!(markdown.contains("## 免责声明"));
}

#[test]
fn gearbox_fault_report_contains_high_risk_inspection_and_maintenance() {
    let markdown = build_wind_report_markdown(
        &report_input("齿轮箱油温升高", "Gearbox", "油温升高", "fault_report", None),
        &report_fault_result("High"),
        "20260603_213000",
        "0.72",
    );
    assert!(markdown.contains("风险等级：High"));
    assert!(markdown.contains("## 4. 检测建议"));
    assert!(markdown.contains("## 6. 维护建议"));
}

#[test]
fn risk_assessment_report_contains_human_confirmation() {
    let markdown = build_wind_report_markdown(
        &report_input("功率曲线异常", "SCADA", "功率曲线异常", "risk_assessment_report", None),
        &report_fault_result("Medium"),
        "20260603_213000",
        "0.72",
    );
    assert!(markdown.contains("风险等级：Medium"));
    assert!(markdown.contains("是否需要人工确认：是"));
    assert!(markdown.contains("### 风险评估依据"));
}

#[test]
fn report_header_uses_title_type_and_unknowns() {
    let mut input = report_input("p", "Blade", "裂纹", "maintenance_advice", Some("   "));
    input.symptom = None;
    let markdown = build_wind_report_markdown(&input, &report_fault_result("Low"), "20260603_213000", "0.50");
    assert!(markdown.starts_with(
        "# 风力发电运维报告\n\n## 1. 基本信息\n\n- 报告标题：风力发电运维报告\n- 报告类型：maintenance_advice\n- 生成时间：20260603_213000\n- Component：Blade\n- Symptom：unknown\n\n## 2. 故障描述\n\n- 问题描述：p\n- 故障摘要：发现叶片裂纹，需要复核缺陷范围。\n\n\n## 3. 故障原因分析\n\n- 前缘冲蚀或外物冲击。\n\n### 故障升级风险\n\n- 暂无明确升级路径，需要结合现场趋势持续复核。\n\n## 4."
    ));
    assert!(markdown.contains("## 11. 置信度\n\n0.50\n\n## 免责声明"));
}

#[test]
fn report_sections_carry_history_and_relations() {
    assert_eq!(history_summary_markdown(Some("近30天3次")), "- 历史摘要：近30天3次");
    assert_eq!(history_summary_markdown(Some("  ")), "");
    assert_eq!(history_summary_markdown(None), "");
    let items = vec![
        "伴随症状：振动".to_string(),
        "其他".to_string(),
        "故障升级风险：可能导致停机".to_string(),
    ];
    assert_eq!(
        relation_context_markdown(&items),
        "### 故障升级风险\n\n- 伴随症状：振动\n- 故障升级风险：可能导致停机"
    );
}

#[test]
fn civil_from_days_known_date() {
    // 2026-06-04 — verify against a known date
    // Days from 1970-01-01 to 2026-06-04 ≈ 20628
    let (y, m, d) = civil_from_days(20_628);
    assert_eq!(y, 2026);
    assert_eq!(m, 6);
    assert_eq!(d, 4);
}

#[test]
fn report_timestamp_format() {
    let ts = report_timestamp(20_628 * 86_400 + 10 * 3_600 + 30 * 60 + 45);
    assert!(ts.starts_with("20260604_"));
    assert!(ts.contains("103045"));
}

#[test]
fn report_times_are_tried_for_an_hour_then_taken() {
    assert_eq!(report_time_step(1_000, 0), ReportTimeStep::Try(1_000));
    assert_eq!(report_time_step(1_000, 3_599), ReportTimeStep::Try(4_599));
    assert_eq!(report_time_step(1_000, REPORT_TIME_TRIES), ReportTimeStep::Take(4_600));
}
