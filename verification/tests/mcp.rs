//! MCP client.
use llm_browser_testkit::mcp_client::{
    call_tool_request, initialize_request, initialized_notification, list_tools_request,
    read_reply, request_line, McpContent, McpResource, McpToolResult,
};
use serde_json::Value;

fn json(text: &str) -> Value {
    serde_json::from_str(text).expect("valid JSON")
}

#[test]
fn test_mcp_tool_result_display_text() {
    let result = McpToolResult {
        content: vec![McpContent::Text {
            text: "hello world".into(),
        }],
        isError: false,
    };
    assert_eq!(result.to_text(), "hello world");
}

#[test]
fn test_mcp_tool_result_display_multiple() {
    let result = McpToolResult {
        content: vec![
            McpContent::Text {
                text: "line1".into(),
            },
            McpContent::Text {
                text: "line2".into(),
            },
        ],
        isError: false,
    };
    assert_eq!(result.to_text(), "line1\nline2");
}

#[test]
fn test_mcp_tool_result_display_resource() {
    let result = McpToolResult {
        content: vec![McpContent::Resource {
            resource: McpResource {
                uri: "file:///test".into(),
                mimeType: "text/plain".into(),
            },
        }],
        isError: false,
    };
    assert_eq!(result.to_text(), "[resource: file:///test]");
}

#[test]
fn test_mcp_tool_result_display_image() {
    let result = McpToolResult {
        content: vec![McpContent::Image {
            data: "base64data".into(),
            mimeType: "image/png".into(),
        }],
        isError: false,
    };
    assert_eq!(result.to_text(), "[image: image/png, 10 bytes]");
}

#[test]
fn requests_are_json_rpc() {
    let init = initialize_request();
    assert_eq!(init["jsonrpc"], "2.0");
    assert_eq!(init["method"], "initialize");
    assert_eq!(init["params"]["clientInfo"]["name"], "llm-browser-testkit");
    assert_eq!(
        initialized_notification(),
        json(r#"{"jsonrpc":"2.0","method":"notifications/initialized"}"#)
    );
    assert_eq!(list_tools_request()["method"], "tools/list");
}

#[test]
fn tool_calls_carry_their_arguments() {
    let args = json(r#"{"sql":"SELECT 1"}"#);
    let call = call_tool_request("query", &args);
    assert_eq!(call["method"], "tools/call");
    assert_eq!(call["params"]["name"], "query");
    assert_eq!(call["params"]["arguments"], args);
    let bare = call_tool_request("ping", &Value::Null);
    assert!(bare["params"].get("arguments").is_none());
}

#[test]
fn request_lines_end_and_hold_the_document() {
    let line = request_line(&list_tools_request());
    assert!(line.ends_with('\n'));
    assert_eq!(line.matches('\n').count(), 1);
    assert_eq!(json(&line), list_tools_request());
}

#[test]
fn replies_are_documents_or_errors() {
    let line = r#"{"jsonrpc":"2.0","id":0,"result":{"ok":true}}"#;
    assert_eq!(read_reply(line), Ok(json(line)));
    assert_eq!(
        read_reply(r#"{"jsonrpc":"2.0","id":0,"error":{"code":-1,"message":"no such tool"}}"#),
        Err("MCP error: no such tool".to_owned())
    );
    assert_eq!(
        read_reply("garbage"),
        Err("MCP: failed to parse JSON response".to_owned())
    );
}

#[test]
fn a_request_is_one_line() {
    let args = Value::String("two\nlines".to_owned());
    let line = request_line(&call_tool_request("query", &args));
    assert_eq!(line.matches('\n').count(), 1);
    assert!(line.ends_with('\n'));
}
