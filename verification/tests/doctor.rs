use wind_knowledge::doctor::{
    check_id, render_diagnostic_check, split_detail_entry, DiagnosticCheck, DiagnosticLevel,
    DoctorReport,
};
use wind_knowledge::json::JsonValue;

#[test]
fn levels_have_labels() {
    assert_eq!(DiagnosticLevel::Pass.label(), "ok");
    assert_eq!(DiagnosticLevel::Warn.label(), "warn");
    assert_eq!(DiagnosticLevel::Fail.label(), "fail");
    assert!(DiagnosticLevel::Fail.is_failure());
    assert!(!DiagnosticLevel::Warn.is_failure());
}

#[test]
fn detail_entries_split_at_two_spaces() {
    assert_eq!(
        split_detail_entry("Config file   /home/me/.claw   (found)"),
        ("Config file".to_string(), "/home/me/.claw (found)".to_string())
    );
    assert_eq!(split_detail_entry("  plain detail "), ("plain detail".to_string(), String::new()));
    assert_eq!(split_detail_entry("key  "), ("key".to_string(), String::new()));
    assert_eq!(split_detail_entry("a b"), ("a b".to_string(), String::new()));
}

#[test]
fn check_ids_are_lower_snake_case() {
    assert_eq!(check_id("Auth Check-One"), "auth_check_one");
}

#[test]
fn builders_set_details_data_and_hint() {
    let check = DiagnosticCheck::new("Auth", DiagnosticLevel::Warn, "no key".to_string())
        .with_details(vec!["Env  missing".to_string()])
        .with_data(vec![("present".to_string(), JsonValue::Bool(false))])
        .with_hint(String::new());
    assert_eq!(check.hint, None);
    let check = check.with_hint("set DEEPSEEK_API_KEY".to_string());
    assert_eq!(check.hint.as_deref(), Some("set DEEPSEEK_API_KEY"));
    assert_eq!(check.details, vec!["Env  missing".to_string()]);
    assert_eq!(check.data.len(), 1);
}

#[test]
fn report_renders_summary_and_checks() {
    let report = DoctorReport {
        checks: vec![
            DiagnosticCheck::new("Workspace", DiagnosticLevel::Pass, "found".to_string()),
            DiagnosticCheck::new("Auth", DiagnosticLevel::Warn, "no key".to_string())
                .with_details(vec!["Env  missing".to_string(), "File  absent".to_string()]),
        ],
    };
    assert_eq!(report.counts(), (1, 1, 0));
    assert!(!report.has_failures());
    assert_eq!(report.status(), "warn");
    assert_eq!(
        render_diagnostic_check(&report.checks[1]),
        "Auth\n  Status           warn\n  Summary          no key\n  Details\n    - Env  missing\n    - File  absent"
    );
    assert_eq!(
        report.render(),
        "Doctor\n\nSummary\n  OK               1\n  Warnings         1\n  Failures         0\n\n\
Workspace\n  Status           ok\n  Summary          found\n\n\
Auth\n  Status           warn\n  Summary          no key\n  Details\n    - Env  missing\n    - File  absent"
    );
    let failing = DoctorReport {
        checks: vec![DiagnosticCheck::new("Sandbox", DiagnosticLevel::Fail, "denied".to_string())],
    };
    assert!(failing.has_failures());
    assert_eq!(failing.status(), "fail");
    assert_eq!(DoctorReport { checks: vec![] }.status(), "ok");
}
