use wind_knowledge::json::JsonValue;
use wind_knowledge::runtime_events::{
    agent_preflight, agent_run_outcome, chat_branch, compare_branches, event_counts, event_kind, latency_for, inspector_event, inspector_from_events, AgentEvent,
    EventKind,
};

fn s(v: &str) -> JsonValue {
    JsonValue::Str(v.to_string())
}

fn obj(fields: Vec<(&str, JsonValue)>) -> JsonValue {
    JsonValue::Object(fields.into_iter().map(|(k, v)| (k.to_string(), v)).collect())
}

fn event(t: &str, time: &str, payload: JsonValue) -> AgentEvent {
    AgentEvent {
        event_type: t.to_string(),
        timestamp: time.to_string(),
        session_id: format!("session-{time}"),
        payload,
    }
}

#[test]
fn event_kinds_route_to_lists() {
    assert_eq!(event_kind("tool_call_started"), EventKind::ToolCall);
    assert_eq!(event_kind("connector_result"), EventKind::ToolCall);
    assert_eq!(event_kind("knowledge_hit"), EventKind::KnowledgeHit);
    assert_eq!(event_kind("memory_hit"), EventKind::MemoryHit);
    assert_eq!(event_kind("graph_hit"), EventKind::GraphHit);
    assert_eq!(event_kind("risk_assessment"), EventKind::RiskAssessment);
    assert_eq!(event_kind("assistant_message"), EventKind::Other);
}

#[test]
fn inspector_entry_uses_name_status_and_defaults() {
    let e = event("tool_call_finished", "t1", obj(vec![("name", s("wind_query")), ("result", s("ok"))]));
    let entry = inspector_event(&e, "{}");
    assert_eq!(entry.label, "wind_query");
    assert_eq!(entry.detail, "wind_query");
    assert_eq!(entry.status, "completed");
    assert_eq!(entry.time, "t1");
    let e = event("error", "t2", obj(vec![("code", JsonValue::Number("3".to_string()))]));
    let entry = inspector_event(&e, "{\"code\":3}");
    assert_eq!(entry.label, "error");
    assert_eq!(entry.detail, "{\"code\":3}");
    assert_eq!(entry.status, "error");
    let e = event("graph_hit", "t3", obj(vec![("status", s("partial"))]));
    assert_eq!(inspector_event(&e, "x").status, "partial");
    assert_eq!(inspector_event(&event("custom", "t", JsonValue::Null), "null").status, "observed");
}

#[test]
fn inspector_sorts_events_into_lists() {
    let events = vec![
        event("tool_call_started", "1", obj(vec![("name", s("search"))])),
        event("knowledge_hit", "2", obj(vec![("detail", s("doc A"))])),
        event("risk_assessment", "3", obj(vec![("level", s("High"))])),
        event("memory_hit", "4", obj(vec![("message", s("history"))])),
        event("risk_assessment", "5", obj(vec![("detail", s("Critical"))])),
        event("graph_hit", "6", obj(vec![("query", s("blade"))])),
    ];
    let rendered: Vec<String> = events.iter().map(|_| "{}".to_string()).collect();
    let settings = obj(vec![("model.name", s("deepseek-chat"))]);
    let r = inspector_from_events(&events, &rendered, "/ws", &settings);
    assert_eq!(r.tool_calls.len(), 1);
    assert_eq!(r.tool_calls[0].label, "search");
    assert_eq!(r.knowledge_hits[0].detail, "doc A");
    assert_eq!(r.memory_hits[0].detail, "history");
    assert_eq!(r.graph_hits[0].detail, "blade");
    assert_eq!(r.risk_level.as_deref(), Some("Critical"));
    assert_eq!(r.execution_trace.len(), 6);
    assert_eq!(r.current_session.as_deref(), Some("session-6"));
    assert_eq!(r.current_workspace.as_deref(), Some("/ws"));
    assert_eq!(r.current_model.as_deref(), Some("deepseek-chat"));
    assert_eq!(r.current_provider.as_deref(), Some("Unknown"));
    let empty = inspector_from_events(&vec![], &vec![], "/ws", &JsonValue::Null);
    assert_eq!(empty.current_session, None);
    assert_eq!(empty.risk_level, None);
}

#[test]
fn preflight_reports_missing_exe_then_missing_key() {
    assert_eq!(
        agent_preflight(false, "C:/ws/claw.exe", "", "K"),
        Some(("error".to_string(), "claw.exe not found: C:/ws/claw.exe".to_string()))
    );
    assert_eq!(
        agent_preflight(true, "x", "", "DEEPSEEK_API_KEY"),
        Some((
            "warning".to_string(),
            "Missing API Key. Configure DEEPSEEK_API_KEY in Settings > Model Credentials.".to_string()
        ))
    );
    assert_eq!(agent_preflight(true, "x", "k", "K"), None);
}

#[test]
fn run_outcome_covers_success_stop_and_failure() {
    let secrets = obj(vec![("K", s("sk-secret123456"))]);
    let ok = agent_run_outcome(Some(true), false, "answer sk-secret123456", "  ", &secrets);
    assert!(ok.success);
    assert_eq!(ok.output, "answer sk-************3456");
    assert_eq!(ok.error, None);
    assert_eq!(ok.final_event_type, "assistant_message");
    assert_eq!(ok.final_message, ok.output);
    assert_eq!(ok.system_status, "completed");

    let failed = agent_run_outcome(Some(false), false, "out", "boom", &secrets);
    assert!(!failed.success);
    assert_eq!(failed.output, "out\n\n[stderr]\nboom");
    assert_eq!(failed.error.as_deref(), Some("boom"));
    assert_eq!(failed.final_event_type, "error");
    assert_eq!(failed.final_status, "error");
    assert_eq!(failed.system_status, "error");

    let stopped = agent_run_outcome(Some(true), true, "", "", &secrets);
    assert!(!stopped.success);
    assert_eq!(stopped.error.as_deref(), Some("Agent run stopped by user"));
    assert_eq!(stopped.final_event_type, "agent_stopped");
    assert_eq!(stopped.system_status, "stopped");

    let vanished = agent_run_outcome(None, false, "", "", &secrets);
    assert!(!vanished.success);
    assert_eq!(vanished.error.as_deref(), Some(""));
}

const PROMPT: &str = "叶片裂纹应该多久复检？请结合历史记录和SCADA数据给出建议，并说明停机评估条件以及需要补充的现场数据内容和时间";

#[test]
fn chat_branches_read_saved_chats() {
    let chat = obj(vec![
        ("prompt", s(PROMPT)),
        ("session_id", s("session-1")),
        ("parent_session_id", s("session-0")),
        ("events", JsonValue::Array(vec![JsonValue::Null, JsonValue::Null, JsonValue::Null])),
    ]);
    let b = chat_branch("chats/chat_1.json", &chat, "2026-05-01".to_string(), Some("chats/chat_1.json"));
    assert_eq!(PROMPT.chars().count(), 56);
    assert_eq!(b.title, PROMPT.chars().take(54).collect::<String>());
    assert_eq!(b.title.chars().count(), 54);
    assert_eq!(b.session_id, "session-1");
    assert_eq!(b.parent_session_id.as_deref(), Some("session-0"));
    assert_eq!(b.branch_name, "main");
    assert_eq!(b.events, 3);
    assert!(b.active);
    let empty = chat_branch("chats/x.json", &JsonValue::Null, String::new(), None);
    assert_eq!(empty.title, "Untitled chat");
    assert_eq!(empty.session_id, "unknown-session");
    assert_eq!(empty.events, 0);
    assert!(!empty.active);

    let c = compare_branches(empty, b);
    assert_eq!(c.event_delta, -3);
    assert_eq!(c.summary, "main vs main: event delta -3");
}

fn num(v: &str) -> JsonValue {
    JsonValue::Number(v.to_string())
}

#[test]
fn event_counts_measure_tools_and_latencies() {
    let events = vec![
        event("tool_call_finished", "1", obj(vec![("latency_ms", num("248")), ("success", JsonValue::Bool(true))])),
        event("tool_call_finished", "2", obj(vec![("latency_ms", num("1200")), ("success", JsonValue::Bool(false))])),
        event("tool_call_finished", "3", obj(vec![("latency_ms", num("1.5"))])),
        event("knowledge_hit", "4", obj(vec![("latency_ms", num("18446744073709551616"))])),
        event("memory_hit", "5", obj(vec![("latency_ms", num("35"))])),
        event("error", "6", obj(vec![("message", s("boom"))])),
        event("system_status", "7", obj(vec![("latency_ms", num("0"))])),
    ];
    let c = event_counts(&events);
    assert_eq!(c.total_events, 7);
    assert_eq!(c.error_events, 1);
    assert_eq!(c.tool_finished, 3);
    assert_eq!(c.tool_failed, 1);
    assert_eq!(c.tool_duration_ms, 1200);
    assert_eq!(c.knowledge_query_latency_ms, 0);
    assert_eq!(c.memory_query_latency_ms, 35);
    assert_eq!(c.rag_latency_ms, 0);
    assert_eq!(c.connector_latency_ms, 0);
    assert_eq!(latency_for(&events, "connector_result", 7), 7);
    assert_eq!(latency_for(&events, "memory_hit", 7), 35);
}
