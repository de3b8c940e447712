use text_edit_core::app_state::{
    filled_rows, history_entry, http_method, next_method, sends_body, AppState, HttpMethod,
};
use text_edit_core::response::Response;

fn row(k: &str, v: &str) -> (String, String) {
    (k.to_string(), v.to_string())
}

#[test]
fn the_application_starts_with_a_get() {
    let state = AppState::new();
    assert_eq!(state.url, "https://api.github.com");
    assert_eq!(state.method, "GET");
    assert!(state.history.is_empty());
    assert!(state.response.is_none());
    assert_eq!(state.body, "");
    assert!(state.headers.is_empty());
    assert!(state.queries.is_empty());
}

#[test]
fn method_names_stand_for_methods() {
    assert_eq!(http_method("GET"), HttpMethod::Get);
    assert_eq!(http_method("POST"), HttpMethod::Post);
    assert_eq!(http_method("PUT"), HttpMethod::Put);
    assert_eq!(http_method("DELETE"), HttpMethod::Delete);
    assert_eq!(http_method("PATCH"), HttpMethod::Patch);
    assert_eq!(http_method("post"), HttpMethod::Get);
    assert_eq!(http_method("HEAD"), HttpMethod::Get);
    assert_eq!(http_method(""), HttpMethod::Get);
}

#[test]
fn the_method_selector_goes_round() {
    let mut method = "GET";
    let mut seen = Vec::new();
    for _ in 0..5 {
        method = next_method(method);
        seen.push(method);
    }
    assert_eq!(seen, vec!["POST", "PUT", "DELETE", "PATCH", "GET"]);
    assert_eq!(next_method("HEAD"), "GET");
}

#[test]
fn a_history_entry_is_method_and_address() {
    assert_eq!(history_entry("GET", "https://example.org/a?b=1"), "GET https://example.org/a?b=1");
    assert_eq!(history_entry("", ""), " ");
}

#[test]
fn only_other_methods_than_get_carry_a_body() {
    assert!(!sends_body("GET", "{}"));
    assert!(sends_body("POST", "{}"));
    assert!(sends_body("get", "{}"));
    assert!(!sends_body("POST", ""));
    assert!(!sends_body("GET", ""));
}

#[test]
fn rows_without_a_key_are_left_out() {
    let rows = vec![row("a", "1"), row("", "2"), row("b", ""), row("", ""), row("c", "3")];
    assert_eq!(filled_rows(&rows), vec![row("a", "1"), row("b", ""), row("c", "3")]);
    assert_eq!(filled_rows(&Vec::new()), Vec::new());
    assert_eq!(filled_rows(&vec![row("", "x")]), Vec::new());
}

#[test]
fn send_request_hands_out_the_plan_and_keeps_a_line() {
    let mut state = AppState::new();
    state.update_url("https://example.org".to_string());
    state.update_method("POST".to_string());
    state.update_body("{\"a\":1}".to_string());
    state.update_headers(vec![row("accept", "*/*")]);
    state.update_queries(vec![row("q", "rust"), row("page", "2")]);
    state.receive(Response::from_error("old".to_string()));
    let plan = state.send_request();
    assert_eq!(plan.method, HttpMethod::Post);
    assert_eq!(plan.url, "https://example.org");
    assert_eq!(plan.headers, vec![row("accept", "*/*")]);
    assert_eq!(plan.queries, vec![row("q", "rust"), row("page", "2")]);
    assert_eq!(plan.body, Some("{\"a\":1}".to_string()));
    assert!(state.response.is_none());
    assert_eq!(state.history, vec!["POST https://example.org".to_string()]);
    assert_eq!(state.url, "https://example.org");
    assert_eq!(state.body, "{\"a\":1}");
}

#[test]
fn a_get_is_sent_without_its_body() {
    let mut state = AppState::new();
    state.update_body("ignored".to_string());
    let plan = state.send_request();
    assert_eq!(plan.method, HttpMethod::Get);
    assert_eq!(plan.body, None);
    assert_eq!(state.history, vec!["GET https://api.github.com".to_string()]);
    let plan = state.send_request();
    assert_eq!(plan.url, "https://api.github.com");
    assert_eq!(state.history.len(), 2);
}

#[test]
fn receive_keeps_the_response() {
    let mut state = AppState::new();
    state.receive(Response::from_parts(200, Some("OK"), Vec::new(), None, b"hi".to_vec(), 3));
    let response = state.response.unwrap();
    assert_eq!(response.status, 200);
    assert_eq!(response.size_bytes, 2);
}

#[test]
fn recent_history_is_newest_first() {
    let mut state = AppState::new();
    for i in 0..12 {
        state.update_url(format!("u{}", i));
        state.send_request();
    }
    let recent = state.recent_history(10);
    assert_eq!(recent.len(), 10);
    assert_eq!(recent[0], "GET u11");
    assert_eq!(recent[9], "GET u2");
    assert_eq!(state.recent_history(0), Vec::<String>::new());
    assert_eq!(state.recent_history(100).len(), 12);
    assert_eq!(state.recent_history(100)[11], "GET u0");
}
