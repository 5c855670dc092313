use wind_knowledge::settings::redact_json;
use wind_knowledge::json::JsonValue;
use wind_knowledge::settings::{
    api_key_env_name, count_json_records, event_payload_text, memory_items, runtime_api_key,
    sanitize_text_with_secrets, secret_like, setting_string, validate_settings_value, value_string,
    value_text,
};

fn s(v: &str) -> JsonValue {
    JsonValue::Str(v.to_string())
}

fn obj(fields: Vec<(&str, JsonValue)>) -> JsonValue {
    JsonValue::Object(fields.into_iter().map(|(k, v)| (k.to_string(), v)).collect())
}

const REQUIRED: [&str; 22] = [
    "workspace.root",
    "agent.name",
    "agent.version",
    "model.provider",
    "model.name",
    "model.base_url",
    "model.api_key_env",
    "credentials.mode",
    "credentials.file",
    "rag.service_url",
    "rag.db_path",
    "paths.knowledge_base",
    "paths.knowledge_graph",
    "paths.memory",
    "paths.reports",
    "paths.skills",
    "paths.connectors",
    "paths.evals",
    "frontend.enabled",
    "frontend.path",
    "safety.require_human_confirmation",
    "safety.forbidden_actions",
];

#[test]
fn counts_records_of_arrays_and_objects() {
    let array = JsonValue::Array(vec![s("a"), s("b"), JsonValue::Null]);
    assert_eq!(count_json_records(&array), 3);
    let object = obj(vec![
        ("faults", JsonValue::Array(vec![s("x"), s("y")])),
        ("profile", obj(vec![("turbine_id", s("A001"))])),
        ("note", s("text")),
        ("count", JsonValue::Number("4".to_string())),
    ]);
    assert_eq!(count_json_records(&object), 3);
    assert_eq!(count_json_records(&s("plain")), 0);
    assert_eq!(count_json_records(&JsonValue::Null), 0);
}

#[test]
fn secret_like_follows_key_and_value_shape() {
    assert!(secret_like("model.api_key", &s("abc")));
    assert!(secret_like("OPENAI_API_KEY", &s("abc")));
    assert!(secret_like("service.Secret", &s("abc")));
    assert!(secret_like("github_token", &s("abc")));
    assert!(secret_like("label", &s("sk-12345678")));
    assert!(!secret_like("model.api_key_env", &s("DEEPSEEK_API_KEY")));
    assert!(secret_like("model.api_key_env", &s("sk-pasted")));
    assert!(!secret_like("model.api_key", &JsonValue::Number("1".to_string())));
    assert!(!secret_like("model.name", &s("deepseek-chat")));
}

#[test]
fn sanitize_masks_every_secret_occurrence() {
    let secrets = obj(vec![
        ("DEEPSEEK_API_KEY", s("sk-abcdefgh1234")),
        ("OTHER", s("hunter2")),
        ("EMPTY", s("")),
        ("N", JsonValue::Number("7".to_string())),
    ]);
    let text = "key sk-abcdefgh1234 and sk-abcdefgh1234, pass hunter2";
    assert_eq!(
        sanitize_text_with_secrets(text, &secrets),
        "key sk-************1234 and sk-************1234, pass ********"
    );
    assert_eq!(sanitize_text_with_secrets(text, &JsonValue::Null), text);
}

#[test]
fn setting_string_falls_back_on_missing_empty_or_non_string() {
    let settings = obj(vec![
        ("model.name", s("deepseek-chat")),
        ("model.provider", s("")),
        ("frontend.enabled", JsonValue::Bool(true)),
    ]);
    assert_eq!(setting_string(&settings, "model.name", "Unknown"), "deepseek-chat");
    assert_eq!(setting_string(&settings, "model.provider", "Unknown"), "Unknown");
    assert_eq!(setting_string(&settings, "frontend.enabled", "no"), "no");
    assert_eq!(setting_string(&settings, "missing", "fb"), "fb");
    assert_eq!(value_string(&settings, "model.name"), "deepseek-chat");
    assert_eq!(value_string(&settings, "frontend.enabled"), "");
}

#[test]
fn runtime_api_key_prefers_secrets_then_environment() {
    let settings = obj(vec![("model.api_key_env", s("MY_KEY"))]);
    let secrets = obj(vec![("MY_KEY", s("from-secrets"))]);
    assert_eq!(api_key_env_name(&settings), "MY_KEY");
    assert_eq!(
        runtime_api_key(&settings, &secrets, Some("from-env".to_string())),
        ("MY_KEY".to_string(), "from-secrets".to_string())
    );
    let empty = obj(vec![]);
    assert_eq!(
        runtime_api_key(&settings, &empty, Some("from-env".to_string())),
        ("MY_KEY".to_string(), "from-env".to_string())
    );
    assert_eq!(runtime_api_key(&settings, &empty, None), ("MY_KEY".to_string(), String::new()));
    assert_eq!(
        runtime_api_key(&empty, &obj(vec![("DEEPSEEK_API_KEY", s("k"))]), None),
        ("DEEPSEEK_API_KEY".to_string(), "k".to_string())
    );
    let pasted = obj(vec![("model.api_key_env", s("sk-oops"))]);
    assert_eq!(
        runtime_api_key(&pasted, &obj(vec![("sk-oops", s("x"))]), Some("y".to_string())),
        ("sk-oops".to_string(), String::new())
    );
}

#[test]
fn validate_settings_lists_missing_keys() {
    let not_object = validate_settings_value(&JsonValue::Array(vec![]));
    assert!(!not_object.valid);
    assert_eq!(not_object.errors, vec!["settings.json must be a JSON object".to_string()]);

    let full = JsonValue::Object(REQUIRED.iter().map(|k| (k.to_string(), s("v"))).collect());
    let ok = validate_settings_value(&full);
    assert!(ok.valid);
    assert!(ok.errors.is_empty());

    let partial = JsonValue::Object(
        REQUIRED
            .iter()
            .filter(|k| **k != "agent.name" && **k != "paths.evals")
            .map(|k| (k.to_string(), JsonValue::Null))
            .collect(),
    );
    let missing = validate_settings_value(&partial);
    assert!(!missing.valid);
    assert_eq!(
        missing.errors,
        vec![
            "Missing required setting: agent.name".to_string(),
            "Missing required setting: paths.evals".to_string(),
        ]
    );
}

#[test]
fn value_text_takes_the_first_string_field() {
    let row = obj(vec![("fault", JsonValue::Null), ("fault_type", s("crack")), ("title", JsonValue::Bool(true))]);
    assert_eq!(value_text(&row, &["title", "fault", "fault_type"]), Some("crack"));
    assert_eq!(value_text(&row, &["missing"]), None);
    assert_eq!(value_text(&s("x"), &["title"]), None);
}

#[test]
fn event_payload_text_prefers_named_fields() {
    let payload = obj(vec![("status", s("done")), ("message", s("hello"))]);
    assert_eq!(event_payload_text(&payload, "{...}"), "hello");
    assert_eq!(event_payload_text(&obj(vec![("other", s("x"))]), "{\"other\":\"x\"}"), "{\"other\":\"x\"}");
}

#[test]
fn memory_items_flatten_history_documents() {
    let doc = obj(vec![
        (
            "faults",
            JsonValue::Array(vec![
                obj(vec![
                    ("fault_type", s("叶片裂纹")),
                    ("created_at", s("2026-03")),
                    ("turbine_id", s("A001")),
                    ("risk_level", s("Medium")),
                ]),
                obj(vec![("asset_id", s("B002"))]),
            ]),
        ),
        ("latest", obj(vec![("title", s("巡检报告")), ("date", s("2026-04")), ("severity", s("High"))])),
    ]);
    let items = memory_items(&doc, "fault");
    assert_eq!(items.len(), 3);
    assert_eq!(items[0].title, "叶片裂纹");
    assert_eq!(items[0].date, "2026-03");
    assert_eq!(items[0].item_type, "fault");
    assert_eq!(items[0].turbine_id.as_deref(), Some("A001"));
    assert_eq!(items[0].risk_level.as_deref(), Some("Medium"));
    assert_eq!(items[1].title, "fault");
    assert_eq!(items[1].date, "Unknown date");
    assert_eq!(items[1].turbine_id.as_deref(), Some("B002"));
    assert_eq!(items[1].risk_level, None);
    assert_eq!(items[2].title, "巡检报告");
    assert_eq!(items[2].risk_level.as_deref(), Some("High"));
    assert!(memory_items(&s("x"), "fault").is_empty());
    assert_eq!(memory_items(&JsonValue::Array(vec![JsonValue::Null]), "report").len(), 1);
}

#[test]
fn redact_json_masks_secret_fields_at_any_depth() {
    let value = obj(vec![
        ("model.api_key", s("sk-abcdef987654")),
        ("model.api_key_env", s("DEEPSEEK_API_KEY")),
        ("auth_token", JsonValue::Number("42".to_string())),
        (
            "nested",
            JsonValue::Array(vec![obj(vec![("db_secret", s("pw")), ("name", s("main"))]), JsonValue::Bool(true)]),
        ),
    ]);
    let r = redact_json(&value);
    let expected = obj(vec![
        ("model.api_key", s("sk-************7654")),
        ("model.api_key_env", s("DEEPSEEK_API_KEY")),
        ("auth_token", JsonValue::Number("42".to_string())),
        (
            "nested",
            JsonValue::Array(vec![obj(vec![("db_secret", s("********")), ("name", s("main"))]), JsonValue::Bool(true)]),
        ),
    ]);
    assert!(json_eq(&r, &expected));
}

fn json_eq(a: &JsonValue, b: &JsonValue) -> bool {
    match (a, b) {
        (JsonValue::Null, JsonValue::Null) => true,
        (JsonValue::Bool(x), JsonValue::Bool(y)) => x == y,
        (JsonValue::Number(x), JsonValue::Number(y)) => x == y,
        (JsonValue::Str(x), JsonValue::Str(y)) => x == y,
        (JsonValue::Array(x), JsonValue::Array(y)) => x.len() == y.len() && x.iter().zip(y).all(|(p, q)| json_eq(p, q)),
        (JsonValue::Object(x), JsonValue::Object(y)) => {
            x.len() == y.len() && x.iter().zip(y).all(|(p, q)| p.0 == q.0 && json_eq(&p.1, &q.1))
        }
        _ => false,
    }
}

#[test]
fn masking_twice_is_masking_once() {
    use_mask("sk-abcdef123456");
    use_mask("password");
    use_mask("");
    let once = wind_knowledge::desktop::mask_secret_text("sk-");
    assert_eq!(once, "sk-************sk-");
    assert_ne!(wind_knowledge::desktop::mask_secret_text(&once), once);
}

fn use_mask(secret: &str) {
    let once = wind_knowledge::desktop::mask_secret_text(secret);
    assert_eq!(wind_knowledge::desktop::mask_secret_text(&once), once);
}

#[test]
fn text_without_secrets_is_unchanged() {
    let secrets = obj(vec![("K", s("sk-zzzz9999")), ("E", s(""))]);
    let text = "no secrets here, only sk- prefixes";
    assert_eq!(sanitize_text_with_secrets(text, &secrets), text);
}

#[test]
fn plain_secrets_do_not_survive_sanitizing() {
    let secrets = obj(vec![("DB_PASSWORD", s("hunter2")), ("TOKEN", s("abc"))]);
    let out = sanitize_text_with_secrets("login hunter2 with abc and hunter2abc", &secrets);
    assert!(!out.contains("hunter2"));
    assert!(!out.contains("abc"));
}

#[test]
fn api_keys_do_not_survive_sanitizing() {
    let secrets = obj(vec![
        ("OPENAI_API_KEY", s("sk-live5678abcd")),
        ("DB_PASSWORD", s("hunter2")),
    ]);
    let text = "k=SECRET-REDACTED; p=hunter2; again sk-live5678abcd";
    let out = sanitize_text_with_secrets(text, &secrets);
    assert!(!out.contains("sk-live5678abcd"));
    assert!(!out.contains("hunter2"));
    assert!(out.contains("sk-************abcd"));
}

#[test]
fn a_key_whose_shown_end_also_begins_it_can_reappear() {
    let secrets = obj(vec![("KEY", s("sk-xxsk-x"))]);
    let out = sanitize_text_with_secrets("sk-xxsk-xxsk-x", &secrets);
    assert_eq!(out, "sk-************sk-xxsk-x");
    assert!(out.contains("sk-xxsk-x"));
}
