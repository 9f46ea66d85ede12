//! A2A client and server.
use llm_browser_testkit::a2a::{extract_a2a_text, A2aClient};
use llm_browser_testkit::a2a_server::{error_response, parse_task_text, A2aServerState};
use serde_json::Value;

fn json(text: &str) -> Value {
    serde_json::from_str(text).expect("valid JSON")
}

#[test]
fn test_parse_task_text_valid() {
    let params = json(
        r#"{"message": {"role": "user", "parts": [{"type": "text", "text": "check the page"}]}}"#,
    );
    assert_eq!(parse_task_text(&params), "check the page");
}

#[test]
fn test_parse_task_text_empty_parts() {
    let params = json(r#"{"message": {"parts": []}}"#);
    assert_eq!(parse_task_text(&params), "empty task");
}

#[test]
fn test_parse_task_text_no_text_part() {
    let params = json(r#"{"message": {"parts": [{"type": "image", "data": "base64..."}]}}"#);
    assert_eq!(parse_task_text(&params), "empty task");
}

#[test]
fn test_parse_task_text_missing_message() {
    let params = json("{}");
    assert_eq!(parse_task_text(&params), "empty task");
}

#[test]
fn test_error_response_format() {
    let resp = error_response(-32600, "Invalid Request", None);
    let doc = json(&resp.body);
    assert_eq!(doc["error"]["code"], -32600);
    assert_eq!(doc["error"]["message"], "Invalid Request");
    assert_eq!(doc["id"], Value::Null);
}

#[test]
fn test_error_response_with_id() {
    let resp = error_response(-32601, "Not found", Some(Value::from(42)));
    let doc = json(&resp.body);
    assert_eq!(doc["id"], 42);
}

#[test]
fn error_reply_is_a_json_success() {
    let resp = error_response(-32700, "Parse error", None);
    assert_eq!(resp.status, 200);
    assert!(resp.json);
    assert_eq!(json(&resp.body)["jsonrpc"], "2.0");
}

#[test]
fn other_methods_are_not_allowed() {
    let mut state = A2aServerState::default();
    let reply = state.handle_a2a_request(false, Ok(Vec::new()));
    assert_eq!(reply.status, 405);
    assert!(!reply.json);
    assert_eq!(reply.body, "Method Not Allowed");
    assert!(state.results.is_empty());
}

#[test]
fn unreadable_body_is_a_bad_request() {
    let mut state = A2aServerState::default();
    let reply = state.handle_a2a_request(true, Err("connection closed".to_owned()));
    assert_eq!(reply.status, 400);
    assert_eq!(reply.body, "Bad Request: connection closed");
}

#[test]
fn malformed_body_is_a_parse_error() {
    let mut state = A2aServerState::default();
    let reply = state.handle_a2a_request(true, Ok(b"{not json".to_vec()));
    let doc = json(&reply.body);
    assert_eq!(doc["error"]["code"], -32700);
    let message = doc["error"]["message"].as_str().expect("a message");
    assert!(message.starts_with("Parse error: "), "got: {message}");
}

#[test]
fn sent_task_is_recorded_and_answered() {
    let mut state = A2aServerState::default();
    let body = br#"{"jsonrpc":"2.0","id":7,"method":"tasks/send","params":{"message":{"role":"user","parts":[{"type":"text","text":"look around"}]}}}"#;
    let reply = state.handle_a2a_request(true, Ok(body.to_vec()));
    assert_eq!(reply.status, 200);
    assert!(reply.json);
    let doc = json(&reply.body);
    assert_eq!(doc["id"], 7);
    assert_eq!(state.results.len(), 1);
    assert_eq!(state.results[0], "task received: look around");
    assert_eq!(
        extract_a2a_text(&doc),
        Some("Acknowledged: look around".to_owned())
    );
}

#[test]
fn unknown_method_is_reported() {
    let mut state = A2aServerState::default();
    let reply = state.answer(&json(r#"{"jsonrpc":"2.0","id":"x","method":"tasks/unknown"}"#));
    let doc = json(&reply.body);
    assert_eq!(doc["id"], "x");
    assert_eq!(doc["error"]["code"], -32601);
    assert_eq!(doc["error"]["message"], "Method not found: tasks/unknown");
    assert!(state.results.is_empty());
}

#[test]
fn client_drops_trailing_slashes() {
    assert_eq!(A2aClient::new("http://agent:9090//").url, "http://agent:9090");
    assert_eq!(A2aClient::new("http://agent:9090").url, "http://agent:9090");
}

#[test]
fn task_request_carries_the_task() {
    let request = A2aClient::task_request("verify the dashboard");
    assert_eq!(request["jsonrpc"], "2.0");
    assert_eq!(request["method"], "tasks/send");
    let message = &request["params"]["message"];
    assert_eq!(message["role"], "user");
    assert_eq!(message["parts"][0]["type"], "text");
    assert_eq!(message["parts"][0]["text"], "verify the dashboard");
    // A server reads back what a client sends.
    assert_eq!(parse_task_text(&request["params"]), "verify the dashboard");
}

#[test]
fn test_a2a_send_task_success() {
    let body = r#"{"jsonrpc":"2.0","result":{"id":"task-1","messages":[{"parts":[{"type":"text","text":"PASS: all good"}]}]},"id":1}"#;
    assert_eq!(A2aClient::read_reply(body), Ok("PASS: all good".to_owned()));
}

#[test]
fn test_a2a_send_task_error_response() {
    let body = r#"{"jsonrpc":"2.0","error":{"code":-32600,"message":"Invalid Request"},"id":1}"#;
    assert_eq!(
        A2aClient::read_reply(body),
        Err("A2A error: Invalid Request".to_owned())
    );
}

#[test]
fn test_a2a_send_task_fallback_full_json() {
    let body = r#"{"jsonrpc":"2.0","result":{"status":"completed","data":"some-raw-result"},"id":1}"#;
    let result = A2aClient::read_reply(body).expect("falls back to the document");
    assert!(result.contains("completed"));
    assert_eq!(json(&result), json(body));
}

#[test]
fn test_a2a_send_task_server_error() {
    assert!(A2aClient::read_reply("Internal Server Error").is_err());
}

#[test]
fn a_reply_that_is_no_json_fails() {
    assert_eq!(
        A2aClient::read_reply("<html>"),
        Err("A2A: failed to parse response".to_owned())
    );
}

#[test]
fn the_last_message_is_the_answer() {
    let doc = json(
        r#"{"result":{"messages":[{"parts":[{"type":"text","text":"first"}]},{"parts":[{"type":"image"},{"type":"text","text":"second"}]}]}}"#,
    );
    assert_eq!(extract_a2a_text(&doc), Some("second".to_owned()));
    assert_eq!(extract_a2a_text(&json(r#"{"result":{"messages":[]}}"#)), None);
}

#[test]
fn the_client_reads_the_acknowledgement_of_the_server() {
    let mut server = A2aServerState::default();
    let request = A2aClient::task_request("check\nthe page").to_string();
    let reply = server.handle_a2a_request(true, Ok(request.into_bytes()));
    assert_eq!(
        A2aClient::read_reply(&reply.body),
        Ok("Acknowledged: check\nthe page".to_owned())
    );
    assert_eq!(
        server.results,
        vec!["task received: check\nthe page".to_owned()]
    );
}
