//! Workspace settings and secrets held as JSON values: reading settings
//! with fallbacks, telling secrets apart, masking them in text, checking
//! that a settings document names every required key, and counting the
//! records of a history document.
use vstd::prelude::*;

use crate::desktop::{mask_secret_text, masked, starts_with, starts_with_str};
use crate::json::{field_lookup, json_get, json_str, JsonValue};
use crate::graph::opt_view;
use crate::text::{chars_of, has_sub, lower, lower_str, owned, string_of, vec_contains, views};

verus! {

// ---------------------------------------------------------------------------
// Counting records
// ---------------------------------------------------------------------------

/// The records one field of a history object stands for: the items of an
/// array, one for an object, none for anything else.
pub open spec fn field_records(v: JsonValue) -> nat {
    match v {
        JsonValue::Array(items) => items@.len(),
        JsonValue::Object(_) => 1,
        _ => 0,
    }
}

/// The records of all fields of a history object.
pub open spec fn fields_records(fields: Seq<(String, JsonValue)>) -> nat
    decreases fields.len(),
{
    if fields.len() == 0 {
        0
    } else {
        fields_records(fields.drop_last()) + field_records(fields.last().1)
    }
}

/// The records of a history document: the items of an array, the records
/// of an object's fields, none for anything else.
pub open spec fn records_spec(v: JsonValue) -> nat {
    match v {
        JsonValue::Array(items) => items@.len(),
        JsonValue::Object(fields) => fields_records(fields@),
        _ => 0,
    }
}

proof fn lemma_fields_records_prefix(fields: Seq<(String, JsonValue)>, i: int)
    requires
        0 <= i <= fields.len(),
    ensures
        fields_records(fields.take(i)) <= fields_records(fields),
    decreases fields.len() - i,
{
    if i < fields.len() {
        lemma_fields_records_prefix(fields, i + 1);
        assert(fields.take(i + 1).drop_last() =~= fields.take(i));
    } else {
        assert(fields.take(i) =~= fields);
    }
}

/// The number of records a history document holds.
pub fn count_json_records(value: &JsonValue) -> (r: usize)
    requires
        records_spec(*value) <= usize::MAX,
    ensures
        r == records_spec(*value),
{
    match value {
        JsonValue::Array(items) => items.len(),
        JsonValue::Object(fields) => {
            let mut total: usize = 0;
            let mut i: usize = 0;
            while i < fields.len()
                invariant
                    i <= fields.len(),
                    fields_records(fields@) <= usize::MAX,
                    total == fields_records(fields@.take(i as int)),
                decreases fields.len() - i,
            {
                proof {
                    lemma_fields_records_prefix(fields@, i + 1);
                    assert(fields@.take(i + 1).drop_last() =~= fields@.take(i as int));
                }
                let n: usize = match &fields[i].1 {
                    JsonValue::Array(items) => items.len(),
                    JsonValue::Object(_) => 1,
                    _ => 0,
                };
                total = total + n;
                i = i + 1;
            }
            assert(fields@.take(fields.len() as int) =~= fields@);
            total
        },
        _ => 0,
    }
}

// ---------------------------------------------------------------------------
// Secrets
// ---------------------------------------------------------------------------

/// `p` is a suffix of `s`.
pub open spec fn ends_with(s: Seq<char>, p: Seq<char>) -> bool {
    s.len() >= p.len() && s.skip(s.len() - p.len()) == p
}

fn ends_with_vec(v: &Vec<char>, p: &Vec<char>) -> (r: bool)
    ensures
        r == ends_with(v@, p@),
{
    if v.len() < p.len() {
        return false;
    }
    let tail = crate::document_text::slice_chars(v, v.len() - p.len(), v.len());
    assert(v@.skip(v@.len() - p@.len()) =~= v@.subrange(v@.len() - p@.len(), v@.len() as int));
    crate::text::vec_eq(&tail, p)
}

/// Whether a setting holds a secret: only string values can; a key naming
/// the environment variable of an API key does when its value looks like
/// a key itself (`sk-`); any other does when its key (ASCII lower-cased)
/// ends in `api_key` or holds `.api_key`, `secret` or `token`, or when its
/// value looks like a key.
pub open spec fn secret_like_spec(key: Seq<char>, value: JsonValue) -> bool {
    let k = lower(key);
    match value {
        JsonValue::Str(t) => if has_sub(k, "api_key_env"@) {
            starts_with(t@, "sk-"@)
        } else {
            ends_with(k, "api_key"@) || has_sub(k, ".api_key"@) || has_sub(k, "secret"@) || has_sub(
                k,
                "token"@,
            ) || starts_with(t@, "sk-"@)
        },
        _ => false,
    }
}

/// Whether a setting holds a secret.
pub fn secret_like(key: &str, value: &JsonValue) -> (r: bool)
    ensures
        r == secret_like_spec(key@, *value),
{
    let text = match value {
        JsonValue::Str(t) => t.as_str(),
        _ => return false,
    };
    let k = lower_str(key);
    let looks_like_key = starts_with_str(text, "sk-");
    if vec_contains(&k, &chars_of("api_key_env")) {
        return looks_like_key;
    }
    ends_with_vec(&k, &chars_of("api_key")) || vec_contains(&k, &chars_of(".api_key")) || vec_contains(
        &k,
        &chars_of("secret"),
    ) || vec_contains(&k, &chars_of("token")) || looks_like_key
}

/// A text with every non-empty string secret replaced by its masked form,
/// one secret after another in the order of the secrets object's fields.
pub open spec fn sanitized_fields(text: Seq<char>, fields: Seq<(String, JsonValue)>) -> Seq<char>
    decreases fields.len(),
{
    if fields.len() == 0 {
        text
    } else {
        let t = sanitized_fields(text, fields.drop_last());
        match fields.last().1 {
            JsonValue::Str(s) => if s@.len() > 0 {
                crate::document_text::replace_all(t, s@, masked(s@))
            } else {
                t
            },
            _ => t,
        }
    }
}

/// A text with the secrets of a secrets object masked; unchanged when the
/// secrets are not an object.
pub open spec fn sanitized(text: Seq<char>, secrets: JsonValue) -> Seq<char> {
    match secrets {
        JsonValue::Object(fields) => sanitized_fields(text, fields@),
        _ => text,
    }
}

/// A text with the secrets of a secrets object masked.
pub fn sanitize_text_with_secrets(text: &str, secrets: &JsonValue) -> (r: String)
    ensures
        r@ == sanitized(text@, *secrets),
{
    let mut out = chars_of(text);
    match secrets {
        JsonValue::Object(fields) => {
            let mut i: usize = 0;
            while i < fields.len()
                invariant
                    i <= fields.len(),
                    out@ == sanitized_fields(text@, fields@.take(i as int)),
                decreases fields.len() - i,
            {
                assert(fields@.take(i + 1).drop_last() =~= fields@.take(i as int));
                match &fields[i].1 {
                    JsonValue::Str(s) => {
                        if !s.as_str().is_empty() {
                            let p = chars_of(s.as_str());
                            let m = mask_secret_text(s.as_str());
                            let mv = chars_of(m.as_str());
                            out = crate::document_text::replace_all_vec(&out, &p, &mv);
                        }
                    },
                    _ => {},
                }
                i = i + 1;
            }
            assert(fields@.take(fields.len() as int) =~= fields@);
        },
        _ => {},
    }
    string_of(&out)
}

// ---------------------------------------------------------------------------
// Reading settings
// ---------------------------------------------------------------------------

/// A setting's text, or the fallback when it is missing, not a string or empty.
pub open spec fn setting_string_spec(settings: JsonValue, key: Seq<char>, fallback: Seq<char>) -> Seq<
    char,
> {
    match json_str(json_get(settings, key)) {
        Some(t) => if t.len() > 0 {
            t
        } else {
            fallback
        },
        None => fallback,
    }
}

/// A setting's text, or the fallback when it is missing, not a string or empty.
pub fn setting_string(settings: &JsonValue, key: &str, fallback: &str) -> (r: String)
    ensures
        r@ == setting_string_spec(*settings, key@, fallback@),
{
    match settings.get(key) {
        Some(JsonValue::Str(t)) => {
            if !t.as_str().is_empty() {
                owned(t.as_str())
            } else {
                owned(fallback)
            }
        },
        _ => owned(fallback),
    }
}

/// A field's text, empty when it is missing or not a string.
pub open spec fn value_string_spec(value: JsonValue, key: Seq<char>) -> Seq<char> {
    match json_str(json_get(value, key)) {
        Some(t) => t,
        None => Seq::empty(),
    }
}

/// A field's text, empty when it is missing or not a string.
pub fn value_string(value: &JsonValue, key: &str) -> (r: String)
    ensures
        r@ == value_string_spec(*value, key@),
{
    match value.get(key) {
        Some(JsonValue::Str(t)) => owned(t.as_str()),
        _ => String::new(),
    }
}

/// The name of the environment variable that holds the model's API key.
pub open spec fn api_key_env_spec(settings: JsonValue) -> Seq<char> {
    setting_string_spec(settings, "model.api_key_env"@, "DEEPSEEK_API_KEY"@)
}

/// The name of the environment variable that holds the model's API key
/// (`DEEPSEEK_API_KEY` unless the settings name another).
pub fn api_key_env_name(settings: &JsonValue) -> (r: String)
    ensures
        r@ == api_key_env_spec(*settings),
{
    setting_string(settings, "model.api_key_env", "DEEPSEEK_API_KEY")
}

/// The API key the runtime uses: none when the variable name is itself a
/// key (`sk-`), else the secrets file's value for the name, else what the
/// environment holds for it (`env_value`), else none.
pub open spec fn api_key_spec(settings: JsonValue, secrets: JsonValue, env_value: Option<Seq<char>>) -> Seq<
    char,
> {
    let name = api_key_env_spec(settings);
    if starts_with(name, "sk-"@) {
        Seq::empty()
    } else if value_string_spec(secrets, name).len() > 0 {
        value_string_spec(secrets, name)
    } else {
        match env_value {
            Some(v) => v,
            None => Seq::empty(),
        }
    }
}

/// The variable name of the model's API key and the key the runtime uses;
/// `env_value` is what the environment holds for that name.
pub fn runtime_api_key(settings: &JsonValue, secrets: &JsonValue, env_value: Option<String>) -> (r: (
    String,
    String,
))
    ensures
        r.0@ == api_key_env_spec(*settings),
        r.1@ == api_key_spec(*settings, *secrets, crate::graph::opt_view(env_value)),
{
    let env_name = api_key_env_name(settings);
    let value = if starts_with_str(env_name.as_str(), "sk-") {
        String::new()
    } else {
        let from_secret = value_string(secrets, env_name.as_str());
        if from_secret.as_str().is_empty() {
            match env_value {
                Some(v) => v,
                None => String::new(),
            }
        } else {
            from_secret
        }
    };
    (env_name, value)
}

// ---------------------------------------------------------------------------
// Checking settings
// ---------------------------------------------------------------------------

/// The outcome of checking a settings document.
pub struct ValidationResult {
    pub valid: bool,
    pub errors: Vec<String>,
}

/// The keys every settings document must have.
pub open spec fn required_settings() -> Seq<Seq<char>> {
    views(
        [
            "workspace.root",
            "agent.name",
            "agent.version",
            "model.provider",
            "model.name",
            "model.base_url",
            "model.api_key_env",
            "credentials.mode",
            "credentials.file",
            "rag.service_url",
            "rag.db_path",
            "paths.knowledge_base",
            "paths.knowledge_graph",
            "paths.memory",
            "paths.reports",
            "paths.skills",
            "paths.connectors",
            "paths.evals",
            "frontend.enabled",
            "frontend.path",
            "safety.require_human_confirmation",
            "safety.forbidden_actions",
        ]@,
    )
}

/// One error per key missing from an object's fields, in the keys' order.
pub open spec fn missing_errors(keys: Seq<Seq<char>>, fields: Seq<(String, JsonValue)>) -> Seq<Seq<char>>
    decreases keys.len(),
{
    if keys.len() == 0 {
        Seq::empty()
    } else {
        let before = missing_errors(keys.drop_last(), fields);
        if field_lookup(fields, keys.last()) is Some {
            before
        } else {
            before.push("Missing required setting: "@ + keys.last())
        }
    }
}

/// The errors of a settings document: that it is not an object, or each
/// required key it lacks.
pub open spec fn settings_errors(value: JsonValue) -> Seq<Seq<char>> {
    match value {
        JsonValue::Object(fields) => missing_errors(required_settings(), fields@),
        _ => seq!["settings.json must be a JSON object"@],
    }
}

/// Checks that a settings document is an object with every required key;
/// it is valid when there is no error.
pub fn validate_settings_value(value: &JsonValue) -> (r: ValidationResult)
    ensures
        crate::text::string_views(r.errors@) == settings_errors(*value),
        r.valid == (settings_errors(*value).len() == 0),
{
    let required: [&str; 22] = [
        "workspace.root",
        "agent.name",
        "agent.version",
        "model.provider",
        "model.name",
        "model.base_url",
        "model.api_key_env",
        "credentials.mode",
        "credentials.file",
        "rag.service_url",
        "rag.db_path",
        "paths.knowledge_base",
        "paths.knowledge_graph",
        "paths.memory",
        "paths.reports",
        "paths.skills",
        "paths.connectors",
        "paths.evals",
        "frontend.enabled",
        "frontend.path",
        "safety.require_human_confirmation",
        "safety.forbidden_actions",
    ];
    assert(views(required@) =~= required_settings());
    let fields = match value {
        JsonValue::Object(fields) => fields,
        _ => {
            let mut errors: Vec<String> = Vec::new();
            errors.push(owned("settings.json must be a JSON object"));
            assert(crate::text::string_views(errors@) =~= settings_errors(*value));
            return ValidationResult { valid: false, errors };
        },
    };
    let mut errors: Vec<String> = Vec::new();
    let mut i: usize = 0;
    while i < required.len()
        invariant
            i <= required.len(),
            required.len() == 22,
            *value == JsonValue::Object(*fields),
            views(required@) == required_settings(),
            crate::text::string_views(errors@) == missing_errors(
                required_settings().take(i as int),
                fields@,
            ),
        decreases required.len() - i,
    {
        let ghost keys = required_settings().take(i + 1);
        assert(keys.drop_last() =~= required_settings().take(i as int));
        assert(keys.last() == required[i as int]@);
        if value.get(required[i]).is_none() {
            let mut msg = owned("Missing required setting: ");
            crate::text::push_str(&mut msg, required[i]);
            let ghost before = errors@;
            errors.push(msg);
            assert(crate::text::string_views(errors@) =~= crate::text::string_views(before).push(msg@));
        }
        i = i + 1;
    }
    assert(required_settings().take(22) =~= required_settings());
    let valid = errors.len() == 0;
    ValidationResult { valid, errors }
}

// ---------------------------------------------------------------------------
// Reading history and event documents
// ---------------------------------------------------------------------------

/// The text of the first of the keys whose field holds a string.
pub open spec fn first_text(v: JsonValue, keys: Seq<Seq<char>>) -> Option<Seq<char>>
    decreases keys.len(),
{
    if keys.len() == 0 {
        None
    } else {
        match json_str(json_get(v, keys[0])) {
            Some(t) => Some(t),
            None => first_text(v, keys.drop_first()),
        }
    }
}

/// The text of the first of the keys whose field holds a string.
pub fn value_text<'a>(value: &'a JsonValue, keys: &[&str]) -> (r: Option<&'a str>)
    ensures
        match r {
            Some(t) => first_text(*value, views(keys@)) == Some(t@),
            None => first_text(*value, views(keys@)) is None,
        },
{
    let mut i: usize = 0;
    assert(views(keys@).skip(0) =~= views(keys@));
    while i < keys.len()
        invariant
            i <= keys.len(),
            first_text(*value, views(keys@)) == first_text(*value, views(keys@).skip(i as int)),
        decreases keys.len() - i,
    {
        assert(views(keys@).skip(i as int)[0] == keys@[i as int]@);
        assert(views(keys@).skip(i as int).drop_first() =~= views(keys@).skip(i + 1));
        match value.get(keys[i]) {
            Some(JsonValue::Str(s)) => {
                return Some(s.as_str());
            },
            _ => {},
        }
        i = i + 1;
    }
    assert(views(keys@).skip(i as int) =~= Seq::<Seq<char>>::empty());
    None
}

/// The text an event's payload is shown by: its first string field among
/// `detail`, `message`, `name`, `query`, `result`, `path`, `status` and
/// `level`, else `rendered`, the payload's JSON text.
pub open spec fn payload_text_spec(payload: JsonValue, rendered: Seq<char>) -> Seq<char> {
    match first_text(
        payload,
        views(["detail", "message", "name", "query", "result", "path", "status", "level"]@),
    ) {
        Some(t) => t,
        None => rendered,
    }
}

/// The text an event's payload is shown by; `rendered` is the payload's
/// JSON text.
pub fn event_payload_text(payload: &JsonValue, rendered: &str) -> (r: String)
    ensures
        r@ == payload_text_spec(*payload, rendered@),
{
    let keys: [&str; 8] = ["detail", "message", "name", "query", "result", "path", "status", "level"];
    match value_text(payload, &keys) {
        Some(t) => owned(t),
        None => owned(rendered),
    }
}

/// One entry of a turbine's history timeline.
pub struct MemoryTimelineItem {
    pub date: String,
    pub item_type: String,
    pub title: String,
    pub turbine_id: Option<String>,
    pub risk_level: Option<String>,
}

/// The timeline entry's fields as plain values.
pub open spec fn item_view(it: MemoryTimelineItem) -> (
    Seq<char>,
    Seq<char>,
    Seq<char>,
    Option<Seq<char>>,
    Option<Seq<char>>,
) {
    (it.date@, it.item_type@, it.title@, opt_view(it.turbine_id), opt_view(it.risk_level))
}

/// The keys a history row's title is read from, in order.
pub open spec fn title_keys() -> Seq<Seq<char>> {
    views(
        [
            "title",
            "fault",
            "fault_type",
            "description",
            "summary",
            "report_title",
            "maintenance_action",
        ]@,
    )
}

/// The keys a history row's date is read from, in order.
pub open spec fn date_keys() -> Seq<Seq<char>> {
    views(["date", "timestamp", "time", "created_at", "inspection_date"]@)
}

/// The keys a history row's turbine is read from, in order.
pub open spec fn turbine_keys() -> Seq<Seq<char>> {
    views(["turbine_id", "turbine", "asset_id"]@)
}

/// The keys a history row's risk level is read from, in order.
pub open spec fn risk_keys() -> Seq<Seq<char>> {
    views(["risk_level", "risk", "severity"]@)
}

/// The timeline entry of a history row: its title (else the item type), its
/// date (else `Unknown date`), turbine and risk level.
pub open spec fn item_spec(row: JsonValue, item_type: Seq<char>) -> (
    Seq<char>,
    Seq<char>,
    Seq<char>,
    Option<Seq<char>>,
    Option<Seq<char>>,
) {
    (
        match first_text(row, date_keys()) {
            Some(d) => d,
            None => "Unknown date"@,
        },
        item_type,
        match first_text(row, title_keys()) {
            Some(t) => t,
            None => item_type,
        },
        first_text(row, turbine_keys()),
        first_text(row, risk_keys()),
    )
}

fn timeline_item(row: &JsonValue, item_type: &str) -> (r: MemoryTimelineItem)
    ensures
        item_view(r) == item_spec(*row, item_type@),
{
    let tk: [&str; 7] = [
        "title",
        "fault",
        "fault_type",
        "description",
        "summary",
        "report_title",
        "maintenance_action",
    ];
    let dk: [&str; 5] = ["date", "timestamp", "time", "created_at", "inspection_date"];
    let uk: [&str; 3] = ["turbine_id", "turbine", "asset_id"];
    let rk: [&str; 3] = ["risk_level", "risk", "severity"];
    assert(views(tk@) =~= title_keys());
    assert(views(dk@) =~= date_keys());
    assert(views(uk@) =~= turbine_keys());
    assert(views(rk@) =~= risk_keys());
    let title = match value_text(row, &tk) {
        Some(t) => owned(t),
        None => owned(item_type),
    };
    let date = match value_text(row, &dk) {
        Some(d) => owned(d),
        None => owned("Unknown date"),
    };
    let turbine_id = match value_text(row, &uk) {
        Some(t) => Some(owned(t)),
        None => None,
    };
    let risk_level = match value_text(row, &rk) {
        Some(t) => Some(owned(t)),
        None => None,
    };
    MemoryTimelineItem { date, item_type: owned(item_type), title, turbine_id, risk_level }
}

/// The rows one field of a history object contributes: an array's items,
/// else the value itself.
pub open spec fn row_values(v: JsonValue) -> Seq<JsonValue> {
    match v {
        JsonValue::Array(items) => items@,
        _ => seq![v],
    }
}

/// The rows of all fields of a history object, in order.
pub open spec fn flat_rows(fields: Seq<(String, JsonValue)>) -> Seq<JsonValue>
    decreases fields.len(),
{
    if fields.len() == 0 {
        Seq::empty()
    } else {
        flat_rows(fields.drop_last()) + row_values(fields.last().1)
    }
}

/// The rows of a history document: an array's items, an object's fields'
/// rows, none for anything else.
pub open spec fn memory_rows(v: JsonValue) -> Seq<JsonValue> {
    match v {
        JsonValue::Array(items) => items@,
        JsonValue::Object(fields) => flat_rows(fields@),
        _ => Seq::empty(),
    }
}

/// The timeline entries of the rows.
pub open spec fn items_spec(rows: Seq<JsonValue>, item_type: Seq<char>) -> Seq<
    (Seq<char>, Seq<char>, Seq<char>, Option<Seq<char>>, Option<Seq<char>>),
> {
    Seq::new(rows.len(), |i: int| item_spec(rows[i], item_type))
}

/// The timeline entries as plain values.
pub open spec fn item_views(items: Seq<MemoryTimelineItem>) -> Seq<
    (Seq<char>, Seq<char>, Seq<char>, Option<Seq<char>>, Option<Seq<char>>),
> {
    Seq::new(items.len(), |i: int| item_view(items[i]))
}

fn push_rows(out: &mut Vec<MemoryTimelineItem>, rows: &Vec<JsonValue>, item_type: &str)
    ensures
        item_views(final(out)@) == item_views(old(out)@) + items_spec(rows@, item_type@),
{
    let ghost start = item_views(out@);
    let mut j: usize = 0;
    while j < rows.len()
        invariant
            j <= rows.len(),
            item_views(out@) == start + items_spec(rows@.take(j as int), item_type@),
        decreases rows.len() - j,
    {
        let ghost before = out@;
        let it = timeline_item(&rows[j], item_type);
        out.push(it);
        assert(item_views(out@) =~= item_views(before).push(item_view(it)));
        assert(items_spec(rows@.take(j + 1), item_type@) =~= items_spec(rows@.take(j as int), item_type@).push(
            item_spec(rows@[j as int], item_type@),
        ));
        j = j + 1;
    }
    assert(rows@.take(rows.len() as int) =~= rows@);
}

/// The timeline of a history document, one entry per row.
pub fn memory_items(value: &JsonValue, item_type: &str) -> (r: Vec<MemoryTimelineItem>)
    ensures
        item_views(r@) == items_spec(memory_rows(*value), item_type@),
{
    let mut out: Vec<MemoryTimelineItem> = Vec::new();
    match value {
        JsonValue::Array(items) => {
            push_rows(&mut out, items, item_type);
            assert(item_views(out@) =~= items_spec(memory_rows(*value), item_type@));
        },
        JsonValue::Object(fields) => {
            let mut i: usize = 0;
            while i < fields.len()
                invariant
                    i <= fields.len(),
                    item_views(out@) == items_spec(flat_rows(fields@.take(i as int)), item_type@),
                decreases fields.len() - i,
            {
                let ghost prev = flat_rows(fields@.take(i as int));
                assert(fields@.take(i + 1).drop_last() =~= fields@.take(i as int));
                match &fields[i].1 {
                    JsonValue::Array(items) => {
                        push_rows(&mut out, items, item_type);
                    },
                    other => {
                        let ghost before = out@;
                        let it = timeline_item(other, item_type);
                        out.push(it);
                        assert(item_views(out@) =~= item_views(before).push(item_view(it)));
                    },
                }
                assert(items_spec(flat_rows(fields@.take(i + 1)), item_type@) =~= items_spec(prev, item_type@)
                    + items_spec(row_values(fields@[i as int].1), item_type@));
                i = i + 1;
            }
            assert(fields@.take(fields.len() as int) =~= fields@);
        },
        _ => {
            assert(item_views(out@) =~= items_spec(memory_rows(*value), item_type@));
        },
    }
    out
}

// ---------------------------------------------------------------------------
// Redacting
// ---------------------------------------------------------------------------

/// What a secret field's value is shown as: a masked string, else asterisks.
pub open spec fn masked_value(v: JsonValue) -> Seq<char> {
    match v {
        JsonValue::Str(t) => masked(t@),
        _ => "********"@,
    }
}

/// `r` is `orig` with every secret field of every object, at any depth,
/// replaced by its masked text, and everything else kept: objects keep
/// their keys in order, arrays their items, and other values are equal.
pub open spec fn redacted_as(orig: JsonValue, r: JsonValue) -> bool
    decreases orig,
{
    match orig {
        JsonValue::Object(fields) => match r {
            JsonValue::Object(out) => {
                &&& out@.len() == fields@.len()
                &&& forall|i: int|
                    0 <= i < fields@.len() ==> {
                        &&& (#[trigger] out@[i]).0@ == fields@[i].0@
                        &&& if secret_like_spec(fields@[i].0@, fields@[i].1) {
                            out@[i].1 matches JsonValue::Str(t) && t@ == masked_value(fields@[i].1)
                        } else {
                            redacted_as(fields@[i].1, out@[i].1)
                        }
                    }
            },
            _ => false,
        },
        JsonValue::Array(items) => match r {
            JsonValue::Array(out) => {
                &&& out@.len() == items@.len()
                &&& forall|i: int|
                    0 <= i < items@.len() ==> redacted_as(items@[i], #[trigger] out@[i])
            },
            _ => false,
        },
        JsonValue::Null => r == JsonValue::Null,
        JsonValue::Bool(b) => r == JsonValue::Bool(b),
        JsonValue::Number(n) => r matches JsonValue::Number(m) && m@ == n@,
        JsonValue::Str(t) => r matches JsonValue::Str(u) && u@ == t@,
    }
}

/// A JSON value with every secret field of every object, at any depth,
/// replaced by its masked text.
pub fn redact_json(value: &JsonValue) -> (r: JsonValue)
    ensures
        redacted_as(*value, r),
    decreases *value,
{
    match value {
        JsonValue::Object(fields) => {
            let mut out: Vec<(String, JsonValue)> = Vec::new();
            let mut i: usize = 0;
            while i < fields.len()
                invariant
                    i <= fields.len(),
                    *value == JsonValue::Object(*fields),
                    out@.len() == i,
                    forall|k: int|
                        0 <= k < i ==> {
                            &&& (#[trigger] out@[k]).0@ == fields@[k].0@
                            &&& if secret_like_spec(fields@[k].0@, fields@[k].1) {
                                out@[k].1 matches JsonValue::Str(t) && t@ == masked_value(fields@[k].1)
                            } else {
                                redacted_as(fields@[k].1, out@[k].1)
                            }
                        },
                decreases fields.len() - i,
            {
                let key = &fields[i].0;
                let v = &fields[i].1;
                let nv = if secret_like(key.as_str(), v) {
                    let shown = match v {
                        JsonValue::Str(t) => mask_secret_text(t.as_str()),
                        _ => owned("********"),
                    };
                    JsonValue::Str(shown)
                } else {
                    proof {
                        assert(decreases_to!(*value => (*value)->Object_0));
                        assert(decreases_to!(*fields => fields@));
                        assert(decreases_to!(fields@ => fields@[i as int]));
                        assert(decreases_to!(fields@[i as int] => fields@[i as int].1));
                        assert(decreases_to!(*value => fields@[i as int].1));
                    }
                    redact_json(v)
                };
                out.push((owned(key.as_str()), nv));
                i = i + 1;
            }
            JsonValue::Object(out)
        },
        JsonValue::Array(items) => {
            let mut out: Vec<JsonValue> = Vec::new();
            let mut i: usize = 0;
            while i < items.len()
                invariant
                    i <= items.len(),
                    *value == JsonValue::Array(*items),
                    out@.len() == i,
                    forall|k: int| 0 <= k < i ==> redacted_as(items@[k], #[trigger] out@[k]),
                decreases items.len() - i,
            {
                proof {
                    assert(decreases_to!(*value => (*value)->Array_0));
                    assert(decreases_to!(*items => items@));
                    assert(decreases_to!(items@ => items@[i as int]));
                    assert(decreases_to!(*value => items@[i as int]));
                }
                let nv = redact_json(&items[i]);
                out.push(nv);
                i = i + 1;
            }
            JsonValue::Array(out)
        },
        JsonValue::Null => JsonValue::Null,
        JsonValue::Bool(b) => JsonValue::Bool(*b),
        JsonValue::Number(n) => JsonValue::Number(owned(n.as_str())),
        JsonValue::Str(t) => JsonValue::Str(owned(t.as_str())),
    }
}

// ---------------------------------------------------------------------------
// Laws of masking
// ---------------------------------------------------------------------------

proof fn lemma_replace_absent(t: Seq<char>, p: Seq<char>, m: Seq<char>)
    requires
        !has_sub(t, p),
    ensures
        crate::document_text::replace_all(t, p, m) == t,
    decreases t.len(),
{
    if p.len() == 0 || t.len() < p.len() {
    } else {
        assert(t.take(p.len() as int) != p) by {
            assert(t.subrange(0, p.len() as int) =~= t.take(p.len() as int));
            if t.take(p.len() as int) == p {
                assert(crate::text::occurs_at(t, p, 0));
            }
        }
        assert(!has_sub(t.skip(1), p)) by {
            if has_sub(t.skip(1), p) {
                let i = choose|i: int| crate::text::occurs_at(t.skip(1), p, i);
                assert(t.skip(1).subrange(i, i + p.len()) =~= t.subrange(i + 1, i + 1 + p.len()));
                assert(crate::text::occurs_at(t, p, i + 1));
            }
        }
        lemma_replace_absent(t.skip(1), p, m);
        assert(seq![t[0]] + t.skip(1) =~= t);
    }
}

/// No non-empty string secret of the object occurs in the text.
pub open spec fn holds_no_secret(text: Seq<char>, fields: Seq<(String, JsonValue)>) -> bool {
    forall|i: int|
        0 <= i < fields.len() ==> match #[trigger] fields[i].1 {
            JsonValue::Str(s) => s@.len() == 0 || !has_sub(text, s@),
            _ => true,
        }
}

/// Masking secrets leaves a text that holds none of them unchanged.
pub proof fn lemma_text_without_secrets_unchanged(text: Seq<char>, secrets: JsonValue)
    requires
        secrets matches JsonValue::Object(fields) ==> holds_no_secret(text, fields@),
    ensures
        sanitized(text, secrets) == text,
{
    if let JsonValue::Object(fields) = secrets {
        lemma_sanitized_fields_unchanged(text, fields@);
    }
}

proof fn lemma_sanitized_fields_unchanged(text: Seq<char>, fields: Seq<(String, JsonValue)>)
    requires
        holds_no_secret(text, fields),
    ensures
        sanitized_fields(text, fields) == text,
    decreases fields.len(),
{
    if fields.len() > 0 {
        assert(holds_no_secret(text, fields.drop_last())) by {
            assert forall|i: int| 0 <= i < fields.drop_last().len() implies match #[trigger] fields.drop_last()[i].1 {
                JsonValue::Str(s) => s@.len() == 0 || !has_sub(text, s@),
                _ => true,
            } by {
                assert(fields.drop_last()[i] == fields[i]);
            }
        }
        lemma_sanitized_fields_unchanged(text, fields.drop_last());
        let last = fields[fields.len() - 1];
        assert(fields.last() == last);
        if let JsonValue::Str(s) = last.1 {
            if s@.len() > 0 {
                lemma_replace_absent(text, s@, masked(s@));
            }
        }
    }
}

/// Masking a masked secret changes nothing, except for the bare prefix
/// `sk-`, whose mask ends in the prefix itself.
pub proof fn lemma_mask_idempotent(text: Seq<char>)
    requires
        text != "sk-"@,
    ensures
        masked(masked(text)) == masked(text),
{
    reveal_strlit("sk-");
    reveal_strlit("********");
    reveal_strlit("sk-************");
    let m = masked(text);
    if text.len() == 0 {
    } else if !starts_with(text, "sk-"@) {
        assert(!starts_with("********"@, "sk-"@)) by {
            assert("********"@.take(3)[0] != "sk-"@[0]);
        }
    } else {
        assert(text.len() >= 4) by {
            if text.len() == 3 {
                assert(text =~= text.take(3));
            }
        }
        let tail = text.skip(text.len() - 4);
        assert(m =~= "sk-************"@ + tail);
        assert(m.len() == 19);
        assert(starts_with(m, "sk-"@)) by {
            assert(m.take(3) =~= "sk-"@);
        }
        assert(m.skip(m.len() - 4) =~= tail);
    }
}

/// No character of the text is a star.
pub open spec fn star_free(x: Seq<char>) -> bool {
    forall|i: int| 0 <= i < x.len() ==> x[i] != '*'
}

/// How many leading characters of a secret its mask shows: the `sk-` of a key.
pub open spec fn shown_head(s: Seq<char>) -> int {
    if starts_with(s, "sk-"@) {
        3
    } else {
        0
    }
}

/// How many trailing characters of a secret its mask shows: up to four of a
/// key, none of anything else.
pub open spec fn shown_tail(s: Seq<char>) -> int {
    if !starts_with(s, "sk-"@) {
        0
    } else if s.len() >= 4 {
        4
    } else {
        s.len() as int
    }
}

/// `m` shows the first `h` and the last `k` characters of `p` around a
/// non-empty run of stars.
pub open spec fn mask_of(p: Seq<char>, m: Seq<char>, h: int, k: int) -> bool {
    &&& 0 <= h <= k <= p.len()
    &&& m.len() > h + k
    &&& m.take(h) == p.take(h)
    &&& m.skip(m.len() - k) == p.skip(p.len() - k)
    &&& forall|i: int| h <= i < m.len() - k ==> #[trigger] m[i] == '*'
}

/// No end of `p` of length 1 to `k` is also its beginning.
pub open spec fn no_short_border(p: Seq<char>, k: int) -> bool {
    forall|j: int| 1 <= j <= k ==> #[trigger] p.take(j) != p.skip(p.len() - j)
}

proof fn lemma_masked_shape(q: Seq<char>)
    requires
        q.len() > 0,
    ensures
        mask_of(q, masked(q), shown_head(q), shown_tail(q)),
{
    reveal_strlit("sk-");
    reveal_strlit("********");
    reveal_strlit("sk-************");
    let m = masked(q);
    if starts_with(q, "sk-"@) {
        let k = shown_tail(q);
        assert(q.len() >= 3);
        assert(m =~= "sk-************"@ + q.skip(q.len() - k));
        assert(m.take(3) =~= q.take(3));
        assert(m.skip(m.len() - k) =~= q.skip(q.len() - k));
    } else {
        assert(m.take(0) =~= q.take(0));
        assert(m.skip(m.len() - 0) =~= q.skip(q.len() - 0));
    }
}

/// A star-free prefix of a text with `p` masked is the text's own prefix.
proof fn lemma_star_free_prefix(u: Seq<char>, p: Seq<char>, m: Seq<char>, h: int, k: int, l: int)
    requires
        p.len() > 0,
        mask_of(p, m, h, k),
        0 <= l <= crate::document_text::replace_all(u, p, m).len(),
        star_free(crate::document_text::replace_all(u, p, m).take(l)),
    ensures
        l <= u.len(),
        crate::document_text::replace_all(u, p, m).take(l) == u.take(l),
    decreases u.len(),
{
    let r = crate::document_text::replace_all(u, p, m);
    if l == 0 {
        assert(r.take(0) =~= u.take(0));
    } else if u.len() < p.len() {
    } else if u.take(p.len() as int) == p {
        let rest = crate::document_text::replace_all(u.skip(p.len() as int), p, m);
        assert(r == m + rest);
        if l > h {
            assert(r.take(l)[h] == m[h]);
        }
        assert forall|i: int| 0 <= i < l implies #[trigger] r.take(l)[i] == u.take(l)[i] by {
            assert(r[i] == m[i]);
            assert(m.take(h)[i] == p.take(h)[i]);
            assert(p[i] == u.take(p.len() as int)[i]);
        }
        assert(r.take(l) =~= u.take(l));
    } else {
        let rest = crate::document_text::replace_all(u.skip(1), p, m);
        assert(r == seq![u[0]] + rest);
        assert(star_free(rest.take(l - 1))) by {
            assert forall|i: int| 0 <= i < rest.take(l - 1).len() implies #[trigger] rest.take(l - 1)[i] != '*' by {
                assert(rest.take(l - 1)[i] == r.take(l)[i + 1]);
            }
        }
        lemma_star_free_prefix(u.skip(1), p, m, h, k, l - 1);
        assert forall|i: int| 0 <= i < l implies #[trigger] r.take(l)[i] == u.take(l)[i] by {
            if i > 0 {
                assert(r[i] == rest[i - 1]);
                assert(rest.take(l - 1)[i - 1] == u.skip(1).take(l - 1)[i - 1]);
            }
        }
        assert(r.take(l) =~= u.take(l));
    }
}

/// Masking `p` creates no occurrence of a star-free text, and leaves none
/// of `p` itself when no short end of `p` is also its beginning.
proof fn lemma_replace_keeps_absent(t: Seq<char>, p: Seq<char>, m: Seq<char>, h: int, k: int, x: Seq<char>)
    requires
        p.len() > 0,
        mask_of(p, m, h, k),
        x.len() > 0,
        star_free(x),
    ensures
        has_sub(crate::document_text::replace_all(t, p, m), x) ==> has_sub(t, x),
        x == p && no_short_border(p, k) ==> !has_sub(crate::document_text::replace_all(t, p, m), x),
    decreases t.len(),
{
    let r = crate::document_text::replace_all(t, p, m);
    let lp = p.len() as int;
    if t.len() < p.len() {
        if x == p && has_sub(r, x) {
            let kp = choose|kp: int| crate::text::occurs_at(r, x, kp);
        }
    } else if t.take(lp) == p {
        let rest = crate::document_text::replace_all(t.skip(lp), p, m);
        assert(r == m + rest);
        lemma_replace_keeps_absent(t.skip(lp), p, m, h, k, x);
        if has_sub(r, x) {
            let kp = choose|kp: int| crate::text::occurs_at(r, x, kp);
            let xl = x.len() as int;
            let ml = m.len() as int;
            assert(forall|i: int| 0 <= i < xl ==> #[trigger] x[i] == r[kp + i]) by {
                assert forall|i: int| 0 <= i < xl implies #[trigger] x[i] == r[kp + i] by {
                    assert(r.subrange(kp, kp + xl)[i] == r[kp + i]);
                }
            }
            if kp >= ml {
                assert(rest.subrange(kp - ml, kp - ml + xl) =~= r.subrange(kp, kp + xl));
                assert(crate::text::occurs_at(rest, x, kp - ml));
                let j = choose|j: int| crate::text::occurs_at(t.skip(lp), x, j);
                assert(t.skip(lp).subrange(j, j + xl) =~= t.subrange(j + lp, j + lp + xl));
                assert(crate::text::occurs_at(t, x, j + lp));
            } else if kp < h {
                if kp + xl > h {
                    assert(x[h - kp] == r[h]);
                    assert(r[h] == m[h]);
                }
                assert forall|i: int| 0 <= i < xl implies #[trigger] t.subrange(kp, kp + xl)[i] == x[i] by {
                    assert(r[kp + i] == m[kp + i]);
                    assert(m.take(h)[kp + i] == p.take(h)[kp + i]);
                    assert(p[kp + i] == t.take(lp)[kp + i]);
                }
                assert(t.subrange(kp, kp + xl) =~= x);
                assert(crate::text::occurs_at(t, x, kp));
                if x == p && no_short_border(p, k) {
                    assert(k == lp);
                    assert(p.take(lp) =~= p.skip(0));
                    assert(p.take(k) != p.skip(lp - k));
                }
            } else if kp < ml - k {
                assert(x[0] == r[kp]);
                assert(r[kp] == m[kp]);
            } else {
                let j = ml - kp;
                assert(forall|i: int| 0 <= i < j ==> #[trigger] r[kp + i] == p[lp - j + i]) by {
                    assert forall|i: int| 0 <= i < j implies #[trigger] r[kp + i] == p[lp - j + i] by {
                        assert(r[kp + i] == m[kp + i]);
                        assert(m.skip(ml - k)[kp + i - (ml - k)] == p.skip(lp - k)[kp + i - (ml - k)]);
                    }
                }
                if x == p && no_short_border(p, k) {
                    assert(p.take(j) =~= p.skip(lp - j)) by {
                        assert forall|i: int| 0 <= i < j implies #[trigger] p.take(j)[i] == p.skip(lp - j)[i] by {
                            assert(x[i] == r[kp + i]);
                        }
                    }
                }
                if xl <= j {
                    assert forall|i: int| 0 <= i < xl implies #[trigger] t.subrange(lp - j, lp - j + xl)[i] == x[i] by {
                        assert(x[i] == r[kp + i]);
                        assert(p[lp - j + i] == t.take(lp)[lp - j + i]);
                    }
                    assert(t.subrange(lp - j, lp - j + xl) =~= x);
                    assert(crate::text::occurs_at(t, x, lp - j));
                } else {
                    let l2 = xl - j;
                    assert(star_free(rest.take(l2))) by {
                        assert forall|i: int| 0 <= i < rest.take(l2).len() implies #[trigger] rest.take(l2)[i] != '*' by {
                            assert(rest.take(l2)[i] == r[ml + i]);
                            assert(x[j + i] == r[kp + j + i]);
                        }
                    }
                    lemma_star_free_prefix(t.skip(lp), p, m, h, k, l2);
                    assert forall|i: int| 0 <= i < xl implies #[trigger] t.subrange(lp - j, lp - j + xl)[i] == x[i] by {
                        assert(x[i] == r[kp + i]);
                        if i < j {
                            assert(p[lp - j + i] == t.take(lp)[lp - j + i]);
                        } else {
                            assert(r[kp + i] == rest[i - j]);
                            assert(rest.take(l2)[i - j] == t.skip(lp).take(l2)[i - j]);
                        }
                    }
                    assert(t.subrange(lp - j, lp - j + xl) =~= x);
                    assert(crate::text::occurs_at(t, x, lp - j));
                }
            }
        }
    } else {
        let rest = crate::document_text::replace_all(t.skip(1), p, m);
        assert(r == seq![t[0]] + rest);
        lemma_replace_keeps_absent(t.skip(1), p, m, h, k, x);
        if has_sub(r, x) {
            let kp = choose|kp: int| crate::text::occurs_at(r, x, kp);
            if kp == 0 {
                assert(r.take(x.len() as int) =~= r.subrange(0, x.len() as int));
                lemma_star_free_prefix(t, p, m, h, k, x.len() as int);
                assert(t.take(x.len() as int) =~= t.subrange(0, x.len() as int));
                assert(crate::text::occurs_at(t, x, 0));
                assert(x != p) by {
                    if x == p {
                        assert(t.take(lp) == p);
                    }
                }
            } else {
                assert(rest.subrange(kp - 1, kp - 1 + x.len()) =~= r.subrange(kp, kp + x.len()));
                assert(crate::text::occurs_at(rest, x, kp - 1));
                let j = choose|j: int| crate::text::occurs_at(t.skip(1), x, j);
                assert(t.skip(1).subrange(j, j + x.len()) =~= t.subrange(j + 1, j + 1 + x.len()));
                assert(crate::text::occurs_at(t, x, j + 1));
            }
        }
    }
}

/// A secret that masking is sure to hide: a non-empty string without stars,
/// no end of which that its mask shows (the last four characters of an
/// `sk-` key) is also its beginning.
pub open spec fn hideable_secret(v: JsonValue) -> bool {
    match v {
        JsonValue::Str(s) => s@.len() > 0 && star_free(s@) && no_short_border(s@, shown_tail(s@)),
        _ => false,
    }
}

proof fn lemma_sanitized_fields_hide(text: Seq<char>, fields: Seq<(String, JsonValue)>)
    ensures
        forall|i: int|
            0 <= i < fields.len() && hideable_secret(#[trigger] fields[i].1) ==> !has_sub(
                sanitized_fields(text, fields),
                fields[i].1->Str_0@,
            ),
    decreases fields.len(),
{
    if fields.len() > 0 {
        let prev = fields.drop_last();
        lemma_sanitized_fields_hide(text, prev);
        let t = sanitized_fields(text, prev);
        let last = fields.last();
        assert forall|i: int| 0 <= i < fields.len() && hideable_secret(#[trigger] fields[i].1) implies !has_sub(
            sanitized_fields(text, fields),
            fields[i].1->Str_0@,
        ) by {
            let x = fields[i].1->Str_0@;
            if i < fields.len() - 1 {
                assert(prev[i] == fields[i]);
            } else {
                assert(fields[i] == last);
            }
            match last.1 {
                JsonValue::Str(sv) => {
                    if sv@.len() > 0 {
                        lemma_masked_shape(sv@);
                        lemma_replace_keeps_absent(t, sv@, masked(sv@), shown_head(sv@), shown_tail(sv@), x);
                    }
                },
                _ => {},
            }
        }
    }
}

/// Once a text is sanitized, no secret of the object survives in it that
/// masking is sure to hide: every non-empty secret without stars, except an
/// `sk-` key whose shown last characters (up to four) also begin it.
pub proof fn lemma_sanitized_hides_secrets(text: Seq<char>, secrets: JsonValue)
    ensures
        secrets matches JsonValue::Object(fields) ==> forall|i: int|
            0 <= i < fields@.len() && hideable_secret(#[trigger] fields@[i].1) ==> !has_sub(
                sanitized(text, secrets),
                fields@[i].1->Str_0@,
            ),
{
    if let JsonValue::Object(fields) = secrets {
        lemma_sanitized_fields_hide(text, fields@);
    }
}

} // verus!
