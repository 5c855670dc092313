use wind_knowledge::connectors::PointKey;
use wind_knowledge::scada_csv::{field, is_csv, row_key, select_latest, split_alarm_codes};

fn strings(v: &[&str]) -> Vec<String> {
    v.iter().map(|s| s.to_string()).collect()
}

fn key(t: &str, ts: &str) -> PointKey {
    PointKey { turbine_id: t.to_string(), timestamp: ts.to_string() }
}

#[test]
fn csv_files_are_found_by_extension() {
    assert!(is_csv("data/scada.csv"));
    assert!(is_csv("data/SCADA.CSV"));
    assert!(!is_csv("data/scada.json"));
    assert!(!is_csv("data/csv"));
}

#[test]
fn fields_are_found_by_header_ignoring_case() {
    let headers = strings(&["Turbine_ID", "timestamp", "power"]);
    let record = strings(&[" T-01 ", "2026-06-05T10:00:00Z", "   "]);
    assert_eq!(field(&headers, &record, "turbine_id").as_deref(), Some("T-01"));
    assert_eq!(field(&headers, &record, "power"), None);
    assert_eq!(field(&headers, &record, "vibration"), None);
    let short = strings(&["T-01"]);
    assert_eq!(field(&headers, &short, "timestamp"), None);
}

#[test]
fn alarm_codes_are_split_and_cleaned() {
    assert_eq!(split_alarm_codes(Some("A01;A02")), strings(&["A01", "A02"]));
    assert_eq!(split_alarm_codes(Some("[\"A01\", \"A02\"|A03]")), strings(&["A01", "A02", "A03"]));
    assert_eq!(split_alarm_codes(Some(";;")), Vec::<String>::new());
    assert_eq!(split_alarm_codes(None), Vec::<String>::new());
}

#[test]
fn latest_points_are_newest_first_then_by_turbine() {
    let keys = vec![
        key("T-02", "2026-06-05T09:00:00Z"),
        key("T-02", "2026-06-05T10:00:00Z"),
        key("T-01", "2026-06-05T10:00:00Z"),
    ];
    assert_eq!(select_latest(&keys), vec![2, 1, 0]);
}

#[test]
fn at_most_32_latest_points() {
    let keys: Vec<PointKey> = (0..40).map(|i| key("T", &format!("{i:03}"))).collect();
    let r = select_latest(&keys);
    assert_eq!(r.len(), 32);
    assert_eq!(r[0], 39);
    assert_eq!(r[31], 8);
}

#[test]
fn rows_need_turbine_and_timestamp_and_the_requested_turbine() {
    let headers = strings(&["turbine_id", "timestamp"]);
    let k = row_key(&headers, &strings(&["T-01", "t1"]), Some("T-01")).unwrap();
    assert_eq!(k.turbine_id, "T-01");
    assert_eq!(k.timestamp, "t1");
    assert!(row_key(&headers, &strings(&["T-01", "t1"]), Some("T-02")).is_none());
    assert!(row_key(&headers, &strings(&["T-01", ""]), None).is_none());
    assert!(row_key(&headers, &strings(&["T-03", "t3"]), None).is_some());
}

#[test]
fn reads_scada_rows_from_csv_bytes() {
    let csv = b"turbine_id,timestamp,wind_speed,power,alarm_codes\nT-01, 2026-06-05T10:00:00Z ,8.2,1500,[E1;E2]\nT-02,2026-06-05T10:00:00Z,7.0,,\n,2026-06-05T11:00:00Z,1,1,\nT-01,2026-06-05T11:00:00Z\n".to_vec();
    let rows = wind_knowledge::scada_csv::read_scada_csv(&csv, "scada.csv", Some("T-01")).unwrap();
    assert_eq!(rows.len(), 2);
    assert_eq!(rows[0].turbine_id, "T-01");
    assert_eq!(rows[0].timestamp, "2026-06-05T10:00:00Z");
    assert_eq!(rows[0].wind_speed.as_deref(), Some("8.2"));
    assert_eq!(rows[0].power.as_deref(), Some("1500"));
    assert_eq!(rows[0].vibration, None);
    assert_eq!(rows[0].alarm_codes, vec!["E1".to_string(), "E2".to_string()]);
    assert_eq!(rows[1].wind_speed, None);
    let all = wind_knowledge::scada_csv::read_scada_csv(&csv, "scada.csv", None).unwrap();
    assert_eq!(all.len(), 3);
    assert_eq!(all[1].turbine_id, "T-02");
}

#[test]
fn unreadable_csv_rows_name_the_file() {
    let bad = vec![b'a', b',', b'b', b'\n', 0xff, 0xfe, b'\n'];
    let err = match wind_knowledge::scada_csv::read_scada_csv(&bad, "bad.csv", None) {
        Ok(_) => panic!("invalid UTF-8 must fail"),
        Err(e) => e,
    };
    assert!(err.starts_with("read SCADA csv row bad.csv: "));
}
