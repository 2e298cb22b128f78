use nanos::json::{parse_json, JsonValue};
use nanos::mcp::{no_params, read_response, tool_call_params, tool_text, McpError, McpSession};

#[test]
fn requests_are_numbered_from_one() {
    let mut s = McpSession::new();
    let first = s.next_request("tools/list", no_params());
    assert_eq!(first, "{\"id\":1,\"jsonrpc\":\"2.0\",\"method\":\"tools/list\",\"params\":{}}");
    let second = s.next_request("resources/list", no_params());
    let v: serde_json::Value = serde_json::from_str(&second).unwrap();
    assert_eq!(v["id"], 2);
    assert_eq!(v["method"], "resources/list");
    assert_eq!(s.request_id, 3);
}

#[test]
fn tool_calls_carry_name_and_arguments() {
    let args = parse_json("{\"path\":\"a.txt\"}").unwrap();
    let mut s = McpSession::new();
    let line = s.next_request("tools/call", tool_call_params("read_file", args));
    let v: serde_json::Value = serde_json::from_str(&line).unwrap();
    assert_eq!(v["params"]["name"], "read_file");
    assert_eq!(v["params"]["arguments"]["path"], "a.txt");
}

#[test]
fn responses_are_read() {
    let ok = read_response("{\"jsonrpc\":\"2.0\",\"id\":1,\"result\":{\"method_called\":\"tools/list\"}}").ok().unwrap();
    let v: serde_json::Value = serde_json::from_str(&nanos::json::render_json(&ok)).unwrap();
    assert_eq!(v["method_called"], "tools/list");
    assert!(matches!(read_response("{\"error\":{\"code\":-1}}"), Err(McpError::Server(_))));
    assert!(matches!(read_response("{\"id\":1}"), Err(McpError::MissingResult)));
    assert!(matches!(read_response("garbage"), Err(McpError::NotJson)));
}

#[test]
fn tool_text_joins_content() {
    let r = parse_json("{\"content\":[{\"type\":\"text\",\"text\":\"line one\"},{\"type\":\"image\"},{\"type\":\"text\",\"text\":\"line two\"}]}").unwrap();
    assert_eq!(tool_text(&r), "line one\nline two");
    let r = parse_json("{\"value\":3}").unwrap();
    assert_eq!(tool_text(&r), "{\"value\":3}");
    let r = parse_json("{\"content\":[]}").unwrap();
    assert_eq!(tool_text(&r), "");
    assert_eq!(tool_text(&JsonValue::Null), "null");
}
