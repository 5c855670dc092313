use wind_knowledge::rag_client::{rag_query_failure, rag_service_base_url_from_env, unreachable_message};

#[test]
fn base_url_defaults_and_gets_a_trailing_slash() {
    assert_eq!(rag_service_base_url_from_env(None), "http://127.0.0.1:8787/");
    assert_eq!(rag_service_base_url_from_env(Some("http://rag:9000".to_string())), "http://rag:9000/");
    assert_eq!(rag_service_base_url_from_env(Some("http://rag:9000/".to_string())), "http://rag:9000/");
}

#[test]
fn query_failures_name_status_url_and_body() {
    assert_eq!(rag_query_failure(200, "http://h/", "http://h/v1/query", "{}"), None);
    assert_eq!(rag_query_failure(204, "http://h/", "http://h/v1/query", ""), None);
    assert_eq!(
        rag_query_failure(503, "http://h:8787//", "http://h:8787/v1/query", "down"),
        Some("claw-rag-service is not reachable at http://h:8787 (HTTP 503 from http://h:8787/v1/query): down".to_string())
    );
    assert_eq!(
        rag_query_failure(400, "http://h/", "http://h/v1/query", "bad request"),
        Some("claw-rag-service returned HTTP 400 from http://h/v1/query: bad request".to_string())
    );
}

#[test]
fn unreachable_message_trims_the_base_url() {
    let m = unreachable_message("http://127.0.0.1:8787/", "connection refused");
    assert!(m.starts_with("claw-rag-service is not reachable at http://127.0.0.1:8787. Start it with `cargo run"));
    assert!(m.ends_with("Details: connection refused"));
}
