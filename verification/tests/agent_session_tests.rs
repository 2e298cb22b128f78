use nanos::agent::{
    allowed_tool_names, build_system_prompt, goal_text, observation_text, plan_tool, reply_text,
    AgentSession, ToolCall, ToolPlan,
};
use nanos::json::{parse_json, JsonValue};

#[test]
fn system_prompt_lists_allowed_tools() {
    let p = build_system_prompt(&["fs_read", "custom"]);
    assert!(p.starts_with("<|im_start|>system\nYou are a tool-calling AI agent."));
    assert!(p.contains("- fs_read: Read a file. Args = string (the file path).\n"));
    assert!(p.contains("- custom: Execute tool custom.\n"));
    assert!(p.contains("- done: Task complete. Args = string (result summary).\n"));
    assert!(p.contains("{\"action\": \"fs_read\", \"args\": \"instruction.txt\"}\n"));
    assert!(p.ends_with("{\"action\": \"done\", \"args\": \"finished successfully\"}\n<|im_end|>\n"));
    let with_done = build_system_prompt(&["done"]);
    assert_eq!(with_done.matches("- done:").count(), 1);
}

#[test]
fn tool_lists() {
    assert_eq!(allowed_tool_names(""), vec!["fs_read", "fs_write", "done"]);
    assert_eq!(allowed_tool_names("fs_read,done"), vec!["fs_read", "done"]);
    assert_eq!(allowed_tool_names("a,,b"), vec!["a", "", "b"]);
}

#[test]
fn tool_calls_are_routed() {
    let call = ToolCall { action: "fs_read".to_string(), args: JsonValue::Str("in.txt".to_string()) };
    assert!(matches!(plan_tool(&call), ToolPlan::FsRead { ref path } if path == "in.txt"));
    let call = ToolCall { action: "fs_read".to_string(), args: JsonValue::Null };
    assert!(matches!(plan_tool(&call), ToolPlan::Answer { ref text } if text == "[Error]: fs_read args must be a string (file path)."));
    let call = ToolCall { action: "fs_write".to_string(), args: parse_json("{\"path\":\"o.txt\",\"content\":\"hi\"}").unwrap() };
    assert!(matches!(plan_tool(&call), ToolPlan::FsWrite { ref path, ref content } if path == "o.txt" && content == "hi"));
    let call = ToolCall { action: "mcp_call".to_string(), args: parse_json("{\"server\":\"s\",\"tool\":\"t\",\"arguments\":{\"a\":1}}").unwrap() };
    assert!(matches!(plan_tool(&call), ToolPlan::McpCall { ref arguments, .. } if arguments == "{\"a\":1}"));
    let call = ToolCall { action: "done".to_string(), args: JsonValue::Str("finished".to_string()) };
    assert!(matches!(plan_tool(&call), ToolPlan::Answer { ref text } if text == "finished"));
    let call = ToolCall { action: "fly".to_string(), args: JsonValue::Null };
    assert!(matches!(plan_tool(&call), ToolPlan::Answer { ref text } if text == "[Error]: Unknown action 'fly'."));
}

#[test]
fn observations_of_syscalls() {
    let plan = ToolPlan::FsRead { path: "a".to_string() };
    assert_eq!(observation_text(&plan, b"contents"), "contents");
    assert_eq!(observation_text(&plan, &[0xff, 0xfe]), "[Error reading file]");
    assert_eq!(observation_text(&ToolPlan::AgentRecv, b""), "[No messages in queue]");
    assert_eq!(observation_text(&ToolPlan::AgentSend { target: "b".into(), msg: "m".into() }, b""), "Message sent successfully.");
    assert_eq!(goal_text(&[0xff]), "Unknown goal");
    assert_eq!(reply_text(b"  {\"action\": \"done\"}  \n"), "{\"action\": \"done\"}");
}

#[test]
fn conversation_turns() {
    let mut s = AgentSession::start(&["fs_read", "done"], "Read in.txt");
    assert!(s.context.ends_with("<|im_start|>user\nRead in.txt<|im_end|>\n"));
    let mut turns = 0;
    while s.wants_turn() {
        s.begin_turn();
        turns += 1;
        s.record_reply("{\"action\": \"fs_read\", \"args\": \"in.txt\"}");
        let call = ToolCall { action: "fs_read".to_string(), args: JsonValue::Str("in.txt".to_string()) };
        let _ = s.accept_call(&call);
        s.observe(&call, "file body");
    }
    assert_eq!(turns, 10);
    assert!(s.context.contains("You already read this file."));
    assert_eq!(s.repeat_count, 9);
}

#[test]
fn done_ends_the_conversation() {
    let mut s = AgentSession::start(&[], "g");
    s.begin_turn();
    s.record_reply("nothing useful");
    s.reject_missing_json();
    assert!(s.context.ends_with("[Error]: No JSON object found in your response. Respond with ONLY a JSON object.<|im_end|>\n"));
    s.begin_turn();
    let call = ToolCall { action: "done".to_string(), args: JsonValue::Str("ok".to_string()) };
    let plan = s.accept_call(&call);
    assert!(matches!(plan, ToolPlan::Answer { .. }));
    let before = s.context.clone();
    s.observe(&call, "ok");
    assert!(s.finished);
    assert!(!s.wants_turn());
    assert_eq!(s.context, before);
}

#[test]
fn long_observations_are_cut() {
    let mut s = AgentSession::start(&["fs_read"], "g");
    let call = ToolCall { action: "fs_read".to_string(), args: JsonValue::Str("big".to_string()) };
    s.accept_call(&call);
    let big = "q".repeat(2000);
    s.observe(&call, &big);
    let expected = format!("<|im_start|>user\n[Observation]: {}\n...[truncated]\n\nNow decide your next action. Respond with a JSON object.<|im_end|>\n", "q".repeat(1500));
    assert!(s.context.ends_with(&expected));
}
