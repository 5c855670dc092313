//! The agent runtime's event stream as the desktop inspector shows it: each
//! event becomes an entry with a label, detail, status and time, sorted
//! into tool calls, knowledge, memory and graph hits, with the latest risk
//! assessment and the whole trace.
use vstd::prelude::*;

use crate::graph::opt_view;
use crate::json::{json_get, json_str, JsonValue};
use crate::settings::{
    event_payload_text, payload_text_spec, sanitize_text_with_secrets, sanitized, setting_string,
    setting_string_spec,
};
use crate::text::{concat, is_blank, owned, push_str, str_eq, trim};

verus! {

/// One event of the agent runtime.
pub struct AgentEvent {
    pub event_type: String,
    pub timestamp: String,
    pub session_id: String,
    pub payload: JsonValue,
}

/// An event as the inspector lists it.
pub struct InspectorEvent {
    pub label: String,
    pub detail: String,
    pub status: String,
    pub time: String,
}

/// What the inspector shows of a run.
pub struct RuntimeInspectorPayload {
    pub tool_calls: Vec<InspectorEvent>,
    pub knowledge_hits: Vec<InspectorEvent>,
    pub memory_hits: Vec<InspectorEvent>,
    pub graph_hits: Vec<InspectorEvent>,
    pub risk_level: Option<String>,
    pub execution_trace: Vec<InspectorEvent>,
    pub current_session: Option<String>,
    pub current_workspace: Option<String>,
    pub current_model: Option<String>,
    pub current_provider: Option<String>,
}

/// Which list of the inspector an event type goes to, besides the trace.
#[derive(Clone, Copy, Debug, PartialEq, Eq, Structural)]
pub enum EventKind {
    ToolCall,
    KnowledgeHit,
    MemoryHit,
    GraphHit,
    RiskAssessment,
    Other,
}

/// The inspector list of an event type.
pub open spec fn kind_spec(t: Seq<char>) -> EventKind {
    if t == "tool_call_started"@ || t == "tool_call_finished"@ || t == "connector_query"@ || t
        == "connector_result"@ {
        EventKind::ToolCall
    } else if t == "knowledge_hit"@ {
        EventKind::KnowledgeHit
    } else if t == "memory_hit"@ {
        EventKind::MemoryHit
    } else if t == "graph_hit"@ {
        EventKind::GraphHit
    } else if t == "risk_assessment"@ {
        EventKind::RiskAssessment
    } else {
        EventKind::Other
    }
}

/// The inspector list of an event type.
pub fn event_kind(t: &str) -> (r: EventKind)
    ensures
        r == kind_spec(t@),
{
    if str_eq(t, "tool_call_started") || str_eq(t, "tool_call_finished") || str_eq(
        t,
        "connector_query",
    ) || str_eq(t, "connector_result") {
        EventKind::ToolCall
    } else if str_eq(t, "knowledge_hit") {
        EventKind::KnowledgeHit
    } else if str_eq(t, "memory_hit") {
        EventKind::MemoryHit
    } else if str_eq(t, "graph_hit") {
        EventKind::GraphHit
    } else if str_eq(t, "risk_assessment") {
        EventKind::RiskAssessment
    } else {
        EventKind::Other
    }
}

/// The status an event type has when its payload names none.
pub open spec fn default_status(t: Seq<char>) -> Seq<char> {
    if t == "error"@ {
        "error"@
    } else if t == "warning"@ {
        "warning"@
    } else if t == "tool_call_finished"@ || t == "assistant_message"@ || t == "system_status"@ {
        "completed"@
    } else {
        "observed"@
    }
}

/// An inspector entry as plain values: label, detail, status, time.
pub open spec fn entry_view(e: InspectorEvent) -> (Seq<char>, Seq<char>, Seq<char>, Seq<char>) {
    (e.label@, e.detail@, e.status@, e.time@)
}

/// The inspector entry of an event whose payload renders as `rendered`:
/// labelled by the payload's `name` (else the event type), detailed by the
/// payload's text, with the payload's `status` (else the type's default)
/// and the event's time.
pub open spec fn entry_spec(e: AgentEvent, rendered: Seq<char>) -> (
    Seq<char>,
    Seq<char>,
    Seq<char>,
    Seq<char>,
) {
    (
        match json_str(json_get(e.payload, "name"@)) {
            Some(n) => n,
            None => e.event_type@,
        },
        payload_text_spec(e.payload, rendered),
        match json_str(json_get(e.payload, "status"@)) {
            Some(s) => s,
            None => default_status(e.event_type@),
        },
        e.timestamp@,
    )
}

/// The entries of the first `n` events that go to a list (all of them for
/// the trace, when `kind` is none).
pub open spec fn entries_of(
    events: Seq<AgentEvent>,
    rendered: Seq<Seq<char>>,
    kind: Option<EventKind>,
    n: int,
) -> Seq<(Seq<char>, Seq<char>, Seq<char>, Seq<char>)>
    decreases n,
{
    if n <= 0 {
        Seq::empty()
    } else {
        let prev = entries_of(events, rendered, kind, n - 1);
        let e = events[n - 1];
        if kind is None || kind == Some(kind_spec(e.event_type@)) {
            prev.push(entry_spec(e, rendered[n - 1]))
        } else {
            prev
        }
    }
}

/// The detail of the last risk assessment among the first `n` events.
pub open spec fn last_risk(events: Seq<AgentEvent>, rendered: Seq<Seq<char>>, n: int) -> Option<
    Seq<char>,
>
    decreases n,
{
    if n <= 0 {
        None
    } else if kind_spec(events[n - 1].event_type@) == EventKind::RiskAssessment {
        Some(payload_text_spec(events[n - 1].payload, rendered[n - 1]))
    } else {
        last_risk(events, rendered, n - 1)
    }
}

/// The inspector entries as plain values.
pub open spec fn entry_views(es: Seq<InspectorEvent>) -> Seq<(Seq<char>, Seq<char>, Seq<char>, Seq<char>)> {
    Seq::new(es.len(), |i: int| entry_view(es[i]))
}

/// The inspector entry of an event whose payload renders as `rendered`.
pub fn inspector_event(event: &AgentEvent, rendered: &str) -> (r: InspectorEvent)
    ensures
        entry_view(r) == entry_spec(*event, rendered@),
{
    let detail = event_payload_text(&event.payload, rendered);
    let label = match event.payload.get("name") {
        Some(JsonValue::Str(n)) => owned(n.as_str()),
        _ => owned(event.event_type.as_str()),
    };
    let t = event.event_type.as_str();
    let status = match event.payload.get("status") {
        Some(JsonValue::Str(s)) => owned(s.as_str()),
        _ => {
            if str_eq(t, "error") {
                owned("error")
            } else if str_eq(t, "warning") {
                owned("warning")
            } else if str_eq(t, "tool_call_finished") || str_eq(t, "assistant_message") || str_eq(
                t,
                "system_status",
            ) {
                owned("completed")
            } else {
                owned("observed")
            }
        },
    };
    InspectorEvent { label, detail, status, time: owned(event.timestamp.as_str()) }
}

/// What the inspector shows of a run's events; `rendered[i]` is the JSON
/// text of event `i`'s payload. The session is the last event's, the model
/// and provider come from the settings (`Unknown` when unset).
pub fn inspector_from_events(
    events: &Vec<AgentEvent>,
    rendered: &Vec<String>,
    workspace: &str,
    settings: &JsonValue,
) -> (r: RuntimeInspectorPayload)
    requires
        rendered.len() == events.len(),
    ensures
        ({
            let rs = crate::text::string_views(rendered@);
            let n = events.len() as int;
            &&& entry_views(r.tool_calls@) == entries_of(events@, rs, Some(EventKind::ToolCall), n)
            &&& entry_views(r.knowledge_hits@) == entries_of(
                events@,
                rs,
                Some(EventKind::KnowledgeHit),
                n,
            )
            &&& entry_views(r.memory_hits@) == entries_of(events@, rs, Some(EventKind::MemoryHit), n)
            &&& entry_views(r.graph_hits@) == entries_of(events@, rs, Some(EventKind::GraphHit), n)
            &&& entry_views(r.execution_trace@) == entries_of(events@, rs, None, n)
            &&& opt_view(r.risk_level) == last_risk(events@, rs, n)
            &&& opt_view(r.current_session) == (if n > 0 {
                Some(events@[n - 1].session_id@)
            } else {
                None
            })
            &&& opt_view(r.current_workspace) == Some(workspace@)
            &&& opt_view(r.current_model) == Some(
                setting_string_spec(*settings, "model.name"@, "Unknown"@),
            )
            &&& opt_view(r.current_provider) == Some(
                setting_string_spec(*settings, "model.provider"@, "Unknown"@),
            )
        }),
{
    let ghost rs = crate::text::string_views(rendered@);
    let mut tool_calls: Vec<InspectorEvent> = Vec::new();
    let mut knowledge_hits: Vec<InspectorEvent> = Vec::new();
    let mut memory_hits: Vec<InspectorEvent> = Vec::new();
    let mut graph_hits: Vec<InspectorEvent> = Vec::new();
    let mut execution_trace: Vec<InspectorEvent> = Vec::new();
    let mut risk_level: Option<String> = None;
    let mut i: usize = 0;
    while i < events.len()
        invariant
            i <= events.len(),
            rendered.len() == events.len(),
            rs == crate::text::string_views(rendered@),
            entry_views(tool_calls@) == entries_of(events@, rs, Some(EventKind::ToolCall), i as int),
            entry_views(knowledge_hits@) == entries_of(
                events@,
                rs,
                Some(EventKind::KnowledgeHit),
                i as int,
            ),
            entry_views(memory_hits@) == entries_of(events@, rs, Some(EventKind::MemoryHit), i as int),
            entry_views(graph_hits@) == entries_of(events@, rs, Some(EventKind::GraphHit), i as int),
            entry_views(execution_trace@) == entries_of(events@, rs, None, i as int),
            opt_view(risk_level) == last_risk(events@, rs, i as int),
        decreases events.len() - i,
    {
        let ev = &events[i];
        let entry = inspector_event(ev, rendered[i].as_str());
        let ghost ev_view = entry_view(entry);
        assert(rs[i as int] == rendered@[i as int]@);
        let kind = event_kind(ev.event_type.as_str());
        match kind {
            EventKind::ToolCall => {
                let ghost before = entry_views(tool_calls@);
                tool_calls.push(copy_entry(&entry));
                assert(entry_views(tool_calls@) =~= before.push(ev_view));
            },
            EventKind::KnowledgeHit => {
                let ghost before = entry_views(knowledge_hits@);
                knowledge_hits.push(copy_entry(&entry));
                assert(entry_views(knowledge_hits@) =~= before.push(ev_view));
            },
            EventKind::MemoryHit => {
                let ghost before = entry_views(memory_hits@);
                memory_hits.push(copy_entry(&entry));
                assert(entry_views(memory_hits@) =~= before.push(ev_view));
            },
            EventKind::GraphHit => {
                let ghost before = entry_views(graph_hits@);
                graph_hits.push(copy_entry(&entry));
                assert(entry_views(graph_hits@) =~= before.push(ev_view));
            },
            EventKind::RiskAssessment => {
                risk_level = Some(owned(entry.detail.as_str()));
            },
            EventKind::Other => {},
        }
        let ghost before = entry_views(execution_trace@);
        execution_trace.push(entry);
        assert(entry_views(execution_trace@) =~= before.push(ev_view));
        i = i + 1;
    }
    let current_session = if events.len() > 0 {
        Some(owned(events[events.len() - 1].session_id.as_str()))
    } else {
        None
    };
    RuntimeInspectorPayload {
        tool_calls,
        knowledge_hits,
        memory_hits,
        graph_hits,
        risk_level,
        execution_trace,
        current_session,
        current_workspace: Some(owned(workspace)),
        current_model: Some(setting_string(settings, "model.name", "Unknown")),
        current_provider: Some(setting_string(settings, "model.provider", "Unknown")),
    }
}

fn copy_entry(e: &InspectorEvent) -> (r: InspectorEvent)
    ensures
        entry_view(r) == entry_view(*e),
{
    InspectorEvent {
        label: owned(e.label.as_str()),
        detail: owned(e.detail.as_str()),
        status: owned(e.status.as_str()),
        time: owned(e.time.as_str()),
    }
}

// ---------------------------------------------------------------------------
// Running a prompt
// ---------------------------------------------------------------------------

/// Why a prompt cannot be run, as an event type and message: the agent
/// executable is missing (an error), or no API key is configured for the
/// variable `env_name` (a warning).
pub open spec fn preflight_spec(exe_exists: bool, exe_path: Seq<char>, api_key: Seq<char>, env_name: Seq<char>) -> Option<
    (Seq<char>, Seq<char>),
> {
    if !exe_exists {
        Some(("error"@, "claw.exe not found: "@ + exe_path))
    } else if api_key.len() == 0 {
        Some(
            (
                "warning"@,
                "Missing API Key. Configure "@ + env_name + " in Settings > Model Credentials."@,
            ),
        )
    } else {
        None
    }
}

/// Why a prompt cannot be run, if it cannot.
pub fn agent_preflight(exe_exists: bool, exe_path: &str, api_key: &str, env_name: &str) -> (r: Option<
    (String, String),
>)
    ensures
        match r {
            Some((t, m)) => preflight_spec(exe_exists, exe_path@, api_key@, env_name@) == Some(
                (t@, m@),
            ),
            None => preflight_spec(exe_exists, exe_path@, api_key@, env_name@) is None,
        },
{
    if !exe_exists {
        Some((owned("error"), concat("claw.exe not found: ", exe_path)))
    } else if api_key.is_empty() {
        let mut m = concat("Missing API Key. Configure ", env_name);
        push_str(&mut m, " in Settings > Model Credentials.");
        Some((owned("warning"), m))
    } else {
        None
    }
}

/// How a run of the agent ended, and the events that record it.
pub struct AgentRunOutcome {
    pub output: String,
    pub success: bool,
    pub error: Option<String>,
    pub final_event_type: String,
    pub final_message: String,
    pub final_status: String,
    pub system_status: String,
}

/// The run's output: standard output, followed by standard error under a
/// heading when there is any, with the secrets masked.
pub open spec fn run_output(stdout: Seq<char>, stderr: Seq<char>, secrets: JsonValue) -> Seq<char> {
    sanitized(
        if trim(stderr).len() == 0 {
            stdout
        } else {
            stdout + "\n\n[stderr]\n"@ + stderr
        },
        secrets,
    )
}

/// The outcome of a run: it succeeded when the process exited successfully
/// (`exit_success`, none when it was never seen exiting) and was not
/// stopped by the user. A stopped run says so; a failed one reports its
/// standard error with the secrets masked. The last event is the assistant's
/// message, the stop, or the error, and the system status follows.
pub open spec fn run_outcome_holds(
    exit_success: Option<bool>,
    stopped_by_user: bool,
    stdout: Seq<char>,
    stderr: Seq<char>,
    secrets: JsonValue,
    r: AgentRunOutcome,
) -> bool {
    let success = exit_success == Some(true) && !stopped_by_user;
    let output = run_output(stdout, stderr, secrets);
    &&& r.output@ == output
    &&& r.success == success
    &&& opt_view(r.error) == (if stopped_by_user {
        Some("Agent run stopped by user"@)
    } else if success {
        None
    } else {
        Some(sanitized(stderr, secrets))
    })
    &&& (r.final_event_type@, r.final_message@, r.final_status@) == (if success {
        ("assistant_message"@, output, "completed"@)
    } else if stopped_by_user {
        ("agent_stopped"@, "Agent run stopped by user"@, "stopped"@)
    } else {
        ("error"@, sanitized(stderr, secrets), "error"@)
    })
    &&& r.system_status@ == (if success {
        "completed"@
    } else if stopped_by_user {
        "stopped"@
    } else {
        "error"@
    })
}

/// The outcome of a run of the agent.
pub fn agent_run_outcome(
    exit_success: Option<bool>,
    stopped_by_user: bool,
    stdout: &str,
    stderr: &str,
    secrets: &JsonValue,
) -> (r: AgentRunOutcome)
    ensures
        run_outcome_holds(exit_success, stopped_by_user, stdout@, stderr@, *secrets, r),
{
    proof {
        crate::text::lemma_trim_empty_iff_all_ws(stderr@);
    }
    let raw = if is_blank(stderr) {
        owned(stdout)
    } else {
        let mut c = concat(stdout, "\n\n[stderr]\n");
        push_str(&mut c, stderr);
        c
    };
    let output = sanitize_text_with_secrets(raw.as_str(), secrets);
    let clean_stderr = sanitize_text_with_secrets(stderr, secrets);
    let success = match exit_success {
        Some(ok) => ok && !stopped_by_user,
        None => false,
    };
    if stopped_by_user {
        AgentRunOutcome {
            output,
            success,
            error: Some(owned("Agent run stopped by user")),
            final_event_type: owned("agent_stopped"),
            final_message: owned("Agent run stopped by user"),
            final_status: owned("stopped"),
            system_status: owned("stopped"),
        }
    } else if success {
        let message = owned(output.as_str());
        AgentRunOutcome {
            output,
            success,
            error: None,
            final_event_type: owned("assistant_message"),
            final_message: message,
            final_status: owned("completed"),
            system_status: owned("completed"),
        }
    } else {
        AgentRunOutcome {
            output,
            success,
            error: Some(owned(clean_stderr.as_str())),
            final_event_type: owned("error"),
            final_message: clean_stderr,
            final_status: owned("error"),
            system_status: owned("error"),
        }
    }
}

// ---------------------------------------------------------------------------
// Conversation branches
// ---------------------------------------------------------------------------

/// A saved chat as a branch of the conversation.
pub struct ConversationBranch {
    pub path: String,
    pub session_id: String,
    pub parent_session_id: Option<String>,
    pub branch_name: String,
    pub title: String,
    pub modified: String,
    pub active: bool,
    pub events: usize,
}

/// The text of a field, or a fallback.
pub open spec fn text_or(v: JsonValue, key: Seq<char>, fallback: Seq<char>) -> Seq<char> {
    match json_str(json_get(v, key)) {
        Some(t) => t,
        None => fallback,
    }
}

/// The number of events a saved chat records: the items of its `events`
/// array, none without one.
pub open spec fn event_count_spec(v: JsonValue) -> nat {
    match json_get(v, "events"@) {
        Some(JsonValue::Array(items)) => items@.len(),
        _ => 0,
    }
}

fn text_field_or(v: &JsonValue, key: &str, fallback: &str) -> (r: String)
    ensures
        r@ == text_or(*v, key@, fallback@),
{
    match v.get(key) {
        Some(JsonValue::Str(t)) => owned(t.as_str()),
        _ => owned(fallback),
    }
}

/// The branch a saved chat (its JSON `value`, read from `path`, modified at
/// `modified`) stands for: titled by the first 54 characters of its prompt
/// (`Untitled chat` without one), in its session (`unknown-session`), on its
/// branch (`main`), active when it is the chat at `current_path`.
pub fn chat_branch(path: &str, value: &JsonValue, modified: String, current_path: Option<&str>) -> (r:
    ConversationBranch)
    ensures
        r.path@ == path@,
        r.session_id@ == text_or(*value, "session_id"@, "unknown-session"@),
        opt_view(r.parent_session_id) == json_str(json_get(*value, "parent_session_id"@)),
        r.branch_name@ == text_or(*value, "branch_name"@, "main"@),
        ({
            let p = text_or(*value, "prompt"@, "Untitled chat"@);
            r.title@ == p.take(if p.len() < 54 { p.len() as int } else { 54 })
        }),
        r.modified == modified,
        r.active == (match current_path {
            Some(c) => c@ == path@,
            None => false,
        }),
        r.events == event_count_spec(*value),
{
    let prompt = text_field_or(value, "prompt", "Untitled chat");
    let pv = crate::text::chars_of(prompt.as_str());
    let n: usize = if pv.len() < 54 {
        pv.len()
    } else {
        54
    };
    let title_chars = crate::document_text::slice_chars(&pv, 0, n);
    assert(pv@.take(n as int) =~= pv@.subrange(0, n as int));
    let parent = match value.get("parent_session_id") {
        Some(JsonValue::Str(t)) => Some(owned(t.as_str())),
        _ => None,
    };
    let events: usize = match value.get("events") {
        Some(JsonValue::Array(items)) => items.len(),
        _ => 0,
    };
    let active = match current_path {
        Some(c) => str_eq(c, path),
        None => false,
    };
    ConversationBranch {
        path: owned(path),
        session_id: text_field_or(value, "session_id", "unknown-session"),
        parent_session_id: parent,
        branch_name: text_field_or(value, "branch_name", "main"),
        title: crate::text::string_of(&title_chars),
        modified,
        active,
        events,
    }
}

/// Two branches side by side.
pub struct BranchComparison {
    pub left: Option<ConversationBranch>,
    pub right: Option<ConversationBranch>,
    pub event_delta: isize,
    pub summary: String,
}

/// A signed number in decimal.
pub open spec fn signed_decimal(v: int) -> Seq<char> {
    if v < 0 {
        "-"@ + crate::text::decimal((-v) as nat)
    } else {
        crate::text::decimal(v as nat)
    }
}

/// Compares two branches: how many more events the left one has, and a
/// one-line summary naming both branches.
pub fn compare_branches(left: ConversationBranch, right: ConversationBranch) -> (r: BranchComparison)
    requires
        left.events <= isize::MAX,
        right.events <= isize::MAX,
    ensures
        r.event_delta == left.events - right.events,
        r.summary@ == left.branch_name@ + " vs "@ + right.branch_name@ + ": event delta "@
            + signed_decimal(left.events - right.events),
        r.left == Some(left),
        r.right == Some(right),
{
    let delta: isize = left.events as isize - right.events as isize;
    let mut summary = crate::text::concat(left.branch_name.as_str(), " vs ");
    push_str(&mut summary, right.branch_name.as_str());
    push_str(&mut summary, ": event delta ");
    if delta < 0 {
        push_str(&mut summary, "-");
        let m: u64 = (right.events - left.events) as u64;
        push_str(&mut summary, crate::text::decimal_string(m).as_str());
    } else {
        let m: u64 = delta as u64;
        push_str(&mut summary, crate::text::decimal_string(m).as_str());
    }
    BranchComparison { left: Some(left), right: Some(right), event_delta: delta, summary }
}

// ---------------------------------------------------------------------------
// Event metrics
// ---------------------------------------------------------------------------

/// A decimal digit.
pub open spec fn is_digit(c: char) -> bool {
    '0' <= c && c <= '9'
}

/// The value of a string of decimal digits.
pub open spec fn digits_value(s: Seq<char>) -> nat
    decreases s.len(),
{
    if s.len() == 0 {
        0
    } else {
        digits_value(s.drop_last()) * 10 + ((s.last() as u32) - ('0' as u32)) as nat
    }
}

/// A JSON value as an unsigned 64-bit integer: a number written with digits
/// only whose value fits.
pub open spec fn json_u64(v: Option<JsonValue>) -> Option<u64> {
    match v {
        Some(JsonValue::Number(t)) => if t@.len() > 0 && (forall|i: int|
            0 <= i < t@.len() ==> is_digit(#[trigger] t@[i])) && digits_value(t@) <= u64::MAX {
            Some(digits_value(t@) as u64)
        } else {
            None
        },
        _ => None,
    }
}

fn number_u64(v: Option<&JsonValue>) -> (r: Option<u64>)
    ensures
        r == json_u64(match v {
            Some(x) => Some(*x),
            None => None,
        }),
{
    match v {
        Some(x) => match x {
            JsonValue::Number(t) => digits_u64(t.as_str()),
            _ => None,
        },
        None => None,
    }
}

/// The value of a text of decimal digits when it is one and fits.
fn digits_u64(t: &str) -> (r: Option<u64>)
    ensures
        r == (if t@.len() > 0 && (forall|i: int| 0 <= i < t@.len() ==> is_digit(#[trigger] t@[i]))
            && digits_value(t@) <= u64::MAX {
            Some(digits_value(t@) as u64)
        } else {
            None
        }),
{
    let cs = crate::text::chars_of(t);
    if cs.len() == 0 {
        return None;
    }
    let mut value: u64 = 0;
    let mut i: usize = 0;
    while i < cs.len()
        invariant
            i <= cs.len(),
            cs@ == t@,
            forall|k: int| 0 <= k < i ==> is_digit(#[trigger] cs@[k]),
            value as nat == digits_value(cs@.take(i as int)),
        decreases cs.len() - i,
    {
        let c = cs[i];
        assert(cs@.take(i + 1).drop_last() =~= cs@.take(i as int));
        assert(cs@.take(i + 1).last() == c);
        if !('0' <= c && c <= '9') {
            assert(!is_digit(t@[i as int]));
            return None;
        }
        let d: u64 = ((c as u32) - ('0' as u32)) as u64;
        assert(digits_value(cs@.take(i + 1)) == value * 10 + d);
        let next = match value.checked_mul(10) {
            Some(m) => m.checked_add(d),
            None => None,
        };
        match next {
            Some(n) => {
                value = n;
            },
            None => {
                proof {
                    lemma_digits_value_prefix(cs@, i + 1);
                }
                assert(cs@.take(cs.len() as int) =~= cs@);
                return None;
            },
        }
        i = i + 1;
    }
    assert(cs@.take(cs.len() as int) =~= cs@);
    Some(value)
}

proof fn lemma_digits_value_prefix(s: Seq<char>, i: int)
    requires
        0 <= i <= s.len(),
    ensures
        digits_value(s.take(i)) <= digits_value(s),
    decreases s.len() - i,
{
    if i < s.len() {
        lemma_digits_value_prefix(s, i + 1);
        assert(s.take(i + 1).drop_last() =~= s.take(i));
        assert(digits_value(s.take(i + 1)) >= digits_value(s.take(i)) * 10);
    } else {
        assert(s.take(i) =~= s);
    }
}

/// How many of the first `n` events have the given type.
pub open spec fn count_type(events: Seq<AgentEvent>, t: Seq<char>, n: int) -> nat
    decreases n,
{
    if n <= 0 {
        0
    } else {
        count_type(events, t, n - 1) + (if events[n - 1].event_type@ == t {
            1nat
        } else {
            0nat
        })
    }
}

/// How many of the first `n` events are finished tool calls that report
/// failure.
pub open spec fn count_failed_tools(events: Seq<AgentEvent>, n: int) -> nat
    decreases n,
{
    if n <= 0 {
        0
    } else {
        count_failed_tools(events, n - 1) + (if events[n - 1].event_type@ == "tool_call_finished"@
            && crate::json::json_bool(json_get(events[n - 1].payload, "success"@)) == Some(false) {
            1nat
        } else {
            0nat
        })
    }
}

/// The largest `latency_ms` among the first `n` events of the given type.
pub open spec fn max_latency(events: Seq<AgentEvent>, t: Seq<char>, n: int) -> Option<u64>
    decreases n,
{
    if n <= 0 {
        None
    } else {
        let before = max_latency(events, t, n - 1);
        let here = if events[n - 1].event_type@ == t {
            json_u64(json_get(events[n - 1].payload, "latency_ms"@))
        } else {
            None
        };
        match (before, here) {
            (Some(a), Some(b)) => Some(if a >= b { a } else { b }),
            (Some(a), None) => Some(a),
            (None, h) => h,
        }
    }
}

/// The latency of an event type: the largest recorded one, else `fallback`.
pub open spec fn latency_spec(events: Seq<AgentEvent>, t: Seq<char>, fallback: u64) -> u64 {
    match max_latency(events, t, events.len() as int) {
        Some(v) => v,
        None => fallback,
    }
}

/// The largest `latency_ms` recorded by events of a type, else `fallback`.
pub fn latency_for(events: &Vec<AgentEvent>, event_type: &str, fallback: u64) -> (r: u64)
    ensures
        r == latency_spec(events@, event_type@, fallback),
{
    let mut best: Option<u64> = None;
    let mut i: usize = 0;
    while i < events.len()
        invariant
            i <= events.len(),
            best == max_latency(events@, event_type@, i as int),
        decreases events.len() - i,
    {
        if str_eq(events[i].event_type.as_str(), event_type) {
            let here = number_u64(events[i].payload.get("latency_ms"));
            best = match (best, here) {
                (Some(a), Some(b)) => Some(if a >= b { a } else { b }),
                (Some(a), None) => Some(a),
                (None, h) => h,
            };
        }
        i = i + 1;
    }
    match best {
        Some(v) => v,
        None => fallback,
    }
}

/// The counts and latencies of an event stream (the success rate of tool
/// calls follows from `tool_finished` and `tool_failed`).
pub struct EventCounts {
    pub tool_duration_ms: u64,
    pub knowledge_query_latency_ms: u64,
    pub rag_latency_ms: u64,
    pub memory_query_latency_ms: u64,
    pub connector_latency_ms: u64,
    pub total_events: usize,
    pub error_events: usize,
    pub tool_finished: usize,
    pub tool_failed: usize,
}

/// The counts and latencies of an event stream: tool calls are timed by the
/// finished ones, retrieval by the system status events, and each other
/// latency by its own event type (zero when none is recorded).
pub fn event_counts(events: &Vec<AgentEvent>) -> (r: EventCounts)
    ensures
        r.tool_duration_ms == latency_spec(events@, "tool_call_finished"@, 0),
        r.knowledge_query_latency_ms == latency_spec(events@, "knowledge_hit"@, 0),
        r.rag_latency_ms == latency_spec(events@, "system_status"@, 0),
        r.memory_query_latency_ms == latency_spec(events@, "memory_hit"@, 0),
        r.connector_latency_ms == latency_spec(events@, "connector_result"@, 0),
        r.total_events == events@.len(),
        r.error_events == count_type(events@, "error"@, events@.len() as int),
        r.tool_finished == count_type(events@, "tool_call_finished"@, events@.len() as int),
        r.tool_failed == count_failed_tools(events@, events@.len() as int),
{
    let mut errors: usize = 0;
    let mut finished: usize = 0;
    let mut failed: usize = 0;
    let mut i: usize = 0;
    while i < events.len()
        invariant
            i <= events.len(),
            errors == count_type(events@, "error"@, i as int),
            finished == count_type(events@, "tool_call_finished"@, i as int),
            failed == count_failed_tools(events@, i as int),
            errors <= i,
            finished <= i,
            failed <= i,
        decreases events.len() - i,
    {
        let t = events[i].event_type.as_str();
        if str_eq(t, "error") {
            errors = errors + 1;
        }
        if str_eq(t, "tool_call_finished") {
            finished = finished + 1;
            let failed_here = match events[i].payload.get("success") {
                Some(JsonValue::Bool(b)) => !*b,
                _ => false,
            };
            if failed_here {
                failed = failed + 1;
            }
        }
        i = i + 1;
    }
    EventCounts {
        tool_duration_ms: latency_for(events, "tool_call_finished", 0),
        knowledge_query_latency_ms: latency_for(events, "knowledge_hit", 0),
        rag_latency_ms: latency_for(events, "system_status", 0),
        memory_query_latency_ms: latency_for(events, "memory_hit", 0),
        connector_latency_ms: latency_for(events, "connector_result", 0),
        total_events: events.len(),
        error_events: errors,
        tool_finished: finished,
        tool_failed: failed,
    }
}

} // verus!
