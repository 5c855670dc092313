use wind_knowledge::confidence::SourceKind;
use wind_knowledge::connectors::{connector_result, ConnectorRecord};
use wind_knowledge::json::JsonValue;
use wind_knowledge::quality::assess_records;
use wind_knowledge::connectors::{weather_risks, WeatherEventFacts};
use wind_knowledge::connectors::{
    param, payload_for_turbine, select_points, select_weather_events, set_param, CmmsConnector,
    CmmsPayload, CmmsSource, ConnectorHealth, ConnectorRequest, ConnectorStatus, MaintenanceRecord,
    PointKey, ScadaConnector, ScadaSource, SparePartHistory, WeatherConnector, WeatherSource,
    WorkOrder,
};

#[test]
fn connector_request_default() {
    let req = ConnectorRequest::default();
    assert!(req.turbine_id.is_none());
    assert!(req.limit.is_none());
}

#[test]
fn health_constructors_set_status_and_message() {
    let h = ConnectorHealth::healthy("ok");
    assert_eq!(h.status, ConnectorStatus::Healthy);
    assert_eq!(h.message, "ok");
    let u = ConnectorHealth::unavailable("gone");
    assert_eq!(u.status, ConnectorStatus::Unavailable);
    assert_eq!(u.message, "gone");
}

#[test]
fn connector_health_depends_on_source() {
    let cmms = CmmsConnector { source: CmmsSource::JsonFile("cmms.json".to_string()) };
    assert_eq!(cmms.name(), "cmms");
    assert_eq!(cmms.health(true).message, "CMMS JSON file available");
    let missing = cmms.health(false);
    assert_eq!(missing.status, ConnectorStatus::Unavailable);
    assert_eq!(missing.message, "CMMS JSON file not found: cmms.json");
    let rest = CmmsConnector { source: CmmsSource::RestApi { endpoint: "https://x".to_string() } };
    assert_eq!(rest.health(true).status, ConnectorStatus::Degraded);
    assert_eq!(
        rest.source_error().unwrap(),
        "CMMS REST API source is configured (https://x); enterprise auth mapping is required"
    );
    let scada = ScadaConnector { source: ScadaSource::CsvDir("scada".to_string()) };
    assert_eq!(scada.health(false).message, "SCADA CSV dir not found: scada");
    assert!(scada.source_error().is_none());
    let db = ScadaConnector {
        source: ScadaSource::DatabasePlaceholder { connection_name: "hist".to_string() },
    };
    assert_eq!(db.source_error().unwrap(), "database source hist requires site-specific driver configuration");
    let weather = WeatherConnector { source: WeatherSource::JsonFile("w.json".to_string()) };
    assert_eq!(weather.health(true).status, ConnectorStatus::Healthy);
    assert_eq!(weather.name(), "weather");
}

fn work_order(id: &str, turbine: &str) -> WorkOrder {
    WorkOrder {
        work_order_id: id.to_string(),
        turbine_id: turbine.to_string(),
        component: "Gearbox".to_string(),
        status: "open".to_string(),
        opened_at: "2026-06-05".to_string(),
        closed_at: None,
        description: Some("oil temp".to_string()),
    }
}

#[test]
fn cmms_payload_is_narrowed_to_the_turbine() {
    let payload = CmmsPayload {
        work_orders: vec![work_order("WO-1", "T-01"), work_order("WO-2", "T-02")],
        maintenance_records: vec![MaintenanceRecord {
            record_id: "M-1".to_string(),
            turbine_id: "T-02".to_string(),
            component: "Blade".to_string(),
            action: "repair".to_string(),
            performed_at: "2026-06-01".to_string(),
        }],
        spare_parts: vec![SparePartHistory {
            part_id: "P-1".to_string(),
            turbine_id: "T-01".to_string(),
            component: "Gearbox".to_string(),
            part_name: "filter".to_string(),
            replaced_at: "2026-05-01".to_string(),
        }],
    };
    let narrowed = payload_for_turbine(payload, Some("T-01"));
    assert_eq!(narrowed.work_orders.len(), 1);
    assert_eq!(narrowed.work_orders[0].work_order_id, "WO-1");
    assert!(narrowed.maintenance_records.is_empty());
    assert_eq!(narrowed.spare_parts.len(), 1);
}

fn key(t: &str, ts: &str) -> PointKey {
    PointKey { turbine_id: t.to_string(), timestamp: ts.to_string() }
}

#[test]
fn points_are_newest_first_and_capped() {
    let keys = vec![key("T-01", "09"), key("T-02", "10"), key("T-01", "11"), key("T-01", "11")];
    assert_eq!(select_points(&keys, Some("T-01"), None), vec![2, 3, 0]);
    assert_eq!(select_points(&keys, None, Some(2)), vec![2, 3]);
    assert_eq!(select_points(&keys, None, Some(0)), vec![2]);
}

#[test]
fn weather_events_of_no_turbine_are_kept() {
    let turbines = vec![Some("T-01".to_string()), None, Some("T-02".to_string())];
    assert_eq!(select_weather_events(&turbines, Some("T-02"), None), vec![1, 2]);
    assert_eq!(select_weather_events(&turbines, None, Some(1)), vec![0]);
}

#[test]
fn request_params_stay_ordered_and_unique() {
    let mut req = ConnectorRequest::default();
    set_param(&mut req, "metric", "power");
    set_param(&mut req, "area", "north");
    set_param(&mut req, "metric", "vibration");
    assert_eq!(req.params.len(), 2);
    assert_eq!(req.params[0].key, "area");
    assert_eq!(param(&req, "metric").unwrap(), "vibration");
    assert!(param(&req, "missing").is_none());
}

#[test]
fn weather_risks_flag_icing_and_lightning() {
    let events = vec![
        WeatherEventFacts {
            event_type: "icing".to_string(),
            heavy_icing: true,
            lightning_near: false,
            strong_wind: false,
        },
        WeatherEventFacts {
            event_type: "lightning".to_string(),
            heavy_icing: false,
            lightning_near: true,
            strong_wind: false,
        },
    ];
    let r = weather_risks(&events);
    assert!(r.icing_risk);
    assert!(r.lightning_risk);
    assert!(!r.yaw_risk);
    assert!(!r.power_curve_risk);
    let storm = vec![WeatherEventFacts {
        event_type: "storm_warning".to_string(),
        heavy_icing: false,
        lightning_near: false,
        strong_wind: true,
    }];
    let r = weather_risks(&storm);
    assert!(!r.icing_risk && !r.lightning_risk && r.yaw_risk && r.power_curve_risk);
    let r = weather_risks(&vec![]);
    assert!(!r.icing_risk && !r.lightning_risk && !r.yaw_risk && !r.power_curve_risk);
}

#[test]
fn connector_results_attach_quality_and_confidence() {
    let records = vec![ConnectorRecord {
        source: SourceKind::Cmms,
        record_type: "WorkOrder".to_string(),
        payload: JsonValue::Null,
    }];
    let quality = assess_records(&records);
    let ok = connector_result(
        "cmms".to_string(),
        ConnectorHealth::healthy("CMMS JSON file available"),
        SourceKind::Cmms,
        Ok((records, quality)),
    );
    assert_eq!(ok.connector_name, "cmms");
    assert_eq!(ok.health.status, ConnectorStatus::Healthy);
    assert_eq!(ok.records.len(), 1);
    assert_eq!(ok.records[0].record_type, "WorkOrder");
    assert_eq!(ok.data_quality.as_ref().map(|q| q.score), Some(100));
    let c = ok.source_confidence.as_ref().unwrap();
    assert_eq!(c.rule, "Cmms evidence confidence defaults to High");
    assert!(ok.warnings.is_empty());

    let failed = connector_result(
        "weather".to_string(),
        ConnectorHealth::healthy("ignored"),
        SourceKind::Weather,
        Err("read weather json w.json: missing".to_string()),
    );
    assert_eq!(failed.health.status, ConnectorStatus::Degraded);
    assert_eq!(failed.health.message, "read weather json w.json: missing");
    assert!(failed.records.is_empty());
    assert!(failed.data_quality.is_none());
    assert_eq!(failed.warnings, vec!["read weather json w.json: missing".to_string()]);
    assert_eq!(failed.source_confidence.unwrap().rule, "Weather evidence confidence defaults to Medium");
}
