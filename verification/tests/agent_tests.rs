use nanos::agent::extract_json;

#[test]
fn extract_clean_json() {
    let input = r#"{"action": "done", "args": "ok"}"#;
    assert_eq!(extract_json(input), Some(input));
}

#[test]
fn extract_json_from_markdown_fences() {
    let input = "```json\n{\"action\": \"fs_read\", \"args\": \"file.txt\"}\n```";
    let expected = r#"{"action": "fs_read", "args": "file.txt"}"#;
    assert_eq!(extract_json(input), Some(expected));
}

#[test]
fn extract_nested_json() {
    let input = r#"{"action": "fs_write", "args": {"path": "out.txt", "content": "hello"}}"#;
    assert_eq!(extract_json(input), Some(input));
    // Verify it's actually valid JSON
    let parsed: serde_json::Value = serde_json::from_str(extract_json(input).unwrap()).unwrap();
    assert_eq!(parsed["args"]["path"], "out.txt");
}

#[test]
fn extract_json_returns_none_for_no_json() {
    assert_eq!(extract_json("no json here"), None);
    assert_eq!(extract_json(""), None);
    assert_eq!(extract_json("just some text with no braces"), None);
}

#[test]
fn extract_json_with_escaped_quotes() {
    let input = r#"{"action": "done", "args": "He said \"hello\""}"#;
    let result = extract_json(input).unwrap();
    let parsed: serde_json::Value = serde_json::from_str(result).unwrap();
    assert_eq!(parsed["action"], "done");
    assert_eq!(parsed["args"], r#"He said "hello""#);
}

#[test]
fn extract_json_with_leading_text() {
    let input = "Here is the result: {\"action\": \"done\", \"args\": \"finished\"} end";
    let expected = r#"{"action": "done", "args": "finished"}"#;
    assert_eq!(extract_json(input), Some(expected));
}

#[test]
fn extract_json_unbalanced_returns_none() {
    // Opening brace but never closed
    assert_eq!(extract_json("{\"action\": \"test\""), None);
}
