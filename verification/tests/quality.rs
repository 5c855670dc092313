use wind_knowledge::quality::{
    assess_record_count, confirmation_required, issue, quality_score, DataQualityIssueKind,
    DataQualitySeverity,
};

#[test]
fn score_subtracts_penalties_per_severity() {
    let issues = vec![
        issue(DataQualityIssueKind::UnitError, DataQualitySeverity::Critical, "wind_speed", "x"),
        issue(DataQualityIssueKind::Outlier, DataQualitySeverity::Warning, "power", "y"),
        issue(DataQualityIssueKind::MissingValue, DataQualitySeverity::Info, "t", "z"),
    ];
    assert_eq!(quality_score(&issues), 65);
    assert!(confirmation_required(65, &issues));
    assert_eq!(quality_score(&Vec::new()), 100);
}

#[test]
fn score_does_not_go_below_zero() {
    let issues: Vec<_> = (0..5)
        .map(|_| issue(DataQualityIssueKind::UnitError, DataQualitySeverity::Critical, "f", "m"))
        .collect();
    assert_eq!(quality_score(&issues), 0);
}

#[test]
fn warnings_alone_need_confirmation_only_below_70() {
    let issues = vec![issue(
        DataQualityIssueKind::DuplicateData,
        DataQualitySeverity::Warning,
        "timestamp",
        "duplicate turbine timestamp",
    )];
    assert_eq!(quality_score(&issues), 92);
    assert!(!confirmation_required(92, &issues));
    assert!(confirmation_required(69, &issues));
}

#[test]
fn no_records_is_a_missing_value_warning() {
    let issues = assess_record_count(0);
    assert_eq!(issues.len(), 1);
    assert_eq!(issues[0].kind, DataQualityIssueKind::MissingValue);
    assert_eq!(issues[0].message, "connector returned no records");
    assert!(assess_record_count(3).is_empty());
}

fn facts(turbine: &str, timestamp: &str) -> wind_knowledge::quality::ScadaPointFacts {
    wind_knowledge::quality::ScadaPointFacts {
        turbine_id: turbine.to_string(),
        timestamp: timestamp.to_string(),
        has_wind_speed: true,
        has_power: true,
        wind_speed_implausible: false,
        power_negative: false,
        oil_temp_implausible: false,
    }
}

#[test]
fn scada_quality_flags_implausible_units() {
    // A wind speed of 180 m/s lies outside the plausible range.
    let mut point = facts("T-01", "2026-06-05T10:00:00Z");
    point.wind_speed_implausible = true;
    let report = wind_knowledge::quality::report(wind_knowledge::quality::assess_scada_points(&vec![point]));
    assert!(report.score < 100);
    assert!(report.human_confirmation_required);
}

#[test]
fn scada_quality_flags_duplicates_missing_values_and_timestamps() {
    let mut missing = facts("T-01", " ");
    missing.has_wind_speed = false;
    missing.has_power = false;
    let points = vec![facts("T-01", "t1"), facts("T-01", "t1"), missing];
    let issues = wind_knowledge::quality::assess_scada_points(&points);
    let kinds: Vec<DataQualityIssueKind> = issues.iter().map(|i| i.kind).collect();
    assert_eq!(
        kinds,
        vec![
            DataQualityIssueKind::DuplicateData,
            DataQualityIssueKind::TimestampError,
            DataQualityIssueKind::MissingValue
        ]
    );
    assert_eq!(issues[0].message, "duplicate turbine timestamp");
    let report = wind_knowledge::quality::report(issues);
    assert_eq!(report.score, 100 - 8 - 25 - 8);
    assert!(report.human_confirmation_required);
}

#[test]
fn empty_scada_batch_is_a_missing_value() {
    let issues = wind_knowledge::quality::assess_scada_points(&Vec::new());
    assert_eq!(issues.len(), 1);
    assert_eq!(issues[0].field, "scada_points");
    assert_eq!(issues[0].severity, DataQualitySeverity::Warning);
}

#[test]
fn record_batches_are_clean_unless_empty() {
    let empty: Vec<u8> = Vec::new();
    let r = wind_knowledge::quality::assess_records(&empty);
    assert_eq!(r.score, 92);
    assert!(!r.human_confirmation_required);
    let r = wind_knowledge::quality::assess_records(&[1u8, 2]);
    assert_eq!(r.score, 100);
    assert!(r.issues.is_empty());
}

#[test]
fn scada_report_scores_findings() {
    let point = wind_knowledge::quality::ScadaPointFacts {
        turbine_id: "T-01".to_string(),
        timestamp: "2026-06-05T10:00:00Z".to_string(),
        has_wind_speed: true,
        has_power: true,
        wind_speed_implausible: true,
        power_negative: false,
        oil_temp_implausible: false,
    };
    let r = wind_knowledge::quality::assess_scada_report(&vec![point]);
    assert_eq!(r.issues.len(), 1);
    assert_eq!(r.issues[0].field, "wind_speed");
    assert_eq!(r.score, 75);
    assert!(r.human_confirmation_required);
    let empty = wind_knowledge::quality::assess_scada_report(&vec![]);
    assert_eq!(empty.score, 92);
    assert_eq!(empty.issues[0].field, "scada_points");
    assert!(!empty.human_confirmation_required);
}
