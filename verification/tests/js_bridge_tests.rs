use core::time::Duration;
use nanos::dashboard::state;
use nanos::js_bridge::{
    js_infer_response, js_mcp_response, js_recv_response, js_response_line, manifest_tools_text,
    plan_js_call, read_js_line, JsBridge, JsCall, JsLine,
};
use nanos::json::parse_json;
use nanos::manifest::{AgentManifest, ModelConfig, Permissions, ResourceLimits};

fn manifest() -> AgentManifest {
    AgentManifest {
        name: Some("js-agent".to_string()),
        model: ModelConfig {
            path: None,
            context_window: 2048,
            provider: None,
            api_url: None,
            api_key: None,
            model_name: None,
        },
        resources: ResourceLimits { memory: "256MB".to_string(), max_steps: 10 },
        permissions: Permissions {
            fs_read: Some(vec!["/tmp/*".to_string()]),
            fs_write: None,
            network: false,
        },
        tools: None,
        goal: Some("summarise".to_string()),
        mcp_servers: None,
        agents: None,
        binary: None,
        token: None,
    }
}

fn request(line: &str) -> nanos::json::JsonValue {
    match read_js_line(line) {
        JsLine::Request(v) => v,
        _ => panic!("not a request"),
    }
}

#[test]
fn lines_are_classified() {
    assert!(matches!(read_js_line("   "), JsLine::Blank));
    assert!(matches!(read_js_line("hello from the agent"), JsLine::Log));
    assert!(matches!(read_js_line("{\"method\":\"done\"}"), JsLine::Request(_)));
}

#[test]
fn calls_are_planned_under_the_manifest() {
    let m = manifest();
    let r = request("{\"jsonrpc\":\"2.0\",\"method\":\"fs_read\",\"params\":[\"/tmp/x\"],\"id\":1}");
    assert!(matches!(plan_js_call(&r, &m, true), JsCall::FsRead { ref path, allowed: true } if path == "/tmp/x"));
    let r = request("{\"method\":\"fs_read\",\"params\":[\"/etc/passwd\"]}");
    assert!(matches!(plan_js_call(&r, &m, true), JsCall::FsRead { allowed: false, .. }));
    let r = request("{\"method\":\"fs_write\",\"params\":[\"/tmp/o\",\"data\"]}");
    assert!(matches!(plan_js_call(&r, &m, true), JsCall::FsWrite { ref content, allowed: false, .. } if content == "data"));
    let r = request("{\"method\":\"web_get\",\"params\":[\"http://x\"]}");
    assert!(matches!(plan_js_call(&r, &m, true), JsCall::WebGet { allowed: false, .. }));
    let r = request("{\"method\":\"get_manifest_goal\"}");
    assert!(matches!(plan_js_call(&r, &m, true), JsCall::Goal { ref goal } if goal == "summarise"));
    let r = request("{\"method\":\"done\"}");
    assert!(matches!(plan_js_call(&r, &m, true), JsCall::Done { ref summary } if summary == "Done"));
    let r = request("{\"method\":\"agent_send\",\"params\":[\"b\",\"hi\"]}");
    assert!(matches!(plan_js_call(&r, &m, false), JsCall::NoBus));
    assert!(matches!(plan_js_call(&r, &m, true), JsCall::AgentSend { ref target, ref msg } if target == "b" && msg == "hi"));
    let r = request("{\"method\":\"mcp_call\",\"params\":[\"srv\",\"tool\",{\"q\":1}]}");
    assert!(matches!(plan_js_call(&r, &m, true), JsCall::McpCall { ref arguments, .. } if arguments == "{\"q\":1}"));
    let r = request("{\"method\":\"mcp_call\",\"params\":[\"srv\",\"tool\"]}");
    assert!(matches!(plan_js_call(&r, &m, true), JsCall::McpCall { ref arguments, .. } if arguments == "null"));
    let r = request("{\"method\":\"teleport\"}");
    assert!(matches!(plan_js_call(&r, &m, true), JsCall::Unknown { ref method } if method == "teleport"));
}

#[test]
fn completing_calls_keeps_numbered_traces() {
    let m = manifest();
    let mut dash = state();
    let mut bridge = JsBridge::new();
    let agent = Some("js-agent".to_string());

    let r = request("{\"method\":\"fs_read\",\"params\":[\"/tmp/x\"],\"id\":1}");
    let call = plan_js_call(&r, &m, true);
    let (res, done) = bridge.complete(&mut dash, &agent, &call, "file text", Duration::ZERO);
    assert_eq!(res, "file text");
    assert!(!done);

    let r = request("{\"method\":\"get_manifest_goal\",\"id\":2}");
    let call = plan_js_call(&r, &m, true);
    let (res, _) = bridge.complete(&mut dash, &agent, &call, "", Duration::ZERO);
    assert_eq!(res, "summarise");
    assert_eq!(bridge.step(), 1);

    let r = request("{\"method\":\"llm_infer\",\"params\":[\"prompt\"],\"id\":3}");
    let call = plan_js_call(&r, &m, true);
    let long_answer = "y".repeat(40);
    bridge.complete(&mut dash, &agent, &call, &long_answer, Duration::ZERO);

    let r = request("{\"method\":\"done\",\"params\":[\"all good\"],\"id\":4}");
    let call = plan_js_call(&r, &m, true);
    let (res, done) = bridge.complete(&mut dash, &agent, &call, "", Duration::ZERO);
    assert_eq!(res, "Done");
    assert!(done);

    let traces = bridge.traces();
    assert_eq!(traces.len(), 3);
    assert_eq!(traces.iter().map(|t| t.step).collect::<Vec<_>>(), vec![1, 2, 3]);
    assert_eq!(traces[1].result, "40 B");
    assert_eq!(traces[2].action, "done");
    assert_eq!(traces[2].args, "all good");
    assert_eq!(traces[2].result, "Finished");
    assert_eq!(dash.logs.last().unwrap(), "[Agent js-agent] JS-FFI: done -> Finished");
    assert_eq!(dash.agents[0].memory_kb, 1024);
}

#[test]
fn unknown_methods_are_answered_without_trace() {
    let m = manifest();
    let mut dash = state();
    let mut bridge = JsBridge::new();
    let r = request("{\"method\":\"teleport\"}");
    let call = plan_js_call(&r, &m, true);
    let (res, done) = bridge.complete(&mut dash, &None, &call, "", Duration::ZERO);
    assert_eq!(res, "Error: Unknown method 'teleport'");
    assert!(!done);
    assert_eq!(bridge.step(), 0);
    assert!(dash.logs.is_empty());
}

#[test]
fn host_answers() {
    assert_eq!(js_infer_response(None), "LLM engine not loaded");
    assert_eq!(js_infer_response(Some(Err("x".to_string()))), "LLM inference error: x");
    assert_eq!(js_recv_response(false, None), "Error: MessageBus not loaded.");
    assert_eq!(js_recv_response(true, None), "[No messages in queue]");
    assert_eq!(js_recv_response(true, Some("m".to_string())), "m");
    assert_eq!(js_mcp_response(None), "Error: MCP Server not found.");
    assert_eq!(js_mcp_response(Some(Err("e".to_string()))), "MCP Error: e");
}

#[test]
fn responses_echo_the_request_id() {
    let r = request("{\"method\":\"done\",\"id\":7}");
    let line = js_response_line("Done".to_string(), r);
    let v: serde_json::Value = serde_json::from_str(&line).unwrap();
    assert_eq!(v["jsonrpc"], "2.0");
    assert_eq!(v["result"], "Done");
    assert_eq!(v["id"], 7);
    let r = parse_json("{\"method\":\"x\"}").unwrap();
    let line = js_response_line("r".to_string(), r);
    assert_eq!(line, "{\"id\":null,\"jsonrpc\":\"2.0\",\"result\":\"r\"}");
}

#[test]
fn manifest_tools_are_answered_joined_by_commas() {
    let mut m = manifest();
    m.tools = Some(vec!["fs_read".to_string(), "fs_write".to_string(), "done".to_string()]);
    let r = request("{\"jsonrpc\": \"2.0\", \"method\": \"get_manifest_tools\", \"params\": [], \"id\": 7}");
    let call = plan_js_call(&r, &m, true);
    assert!(matches!(call, JsCall::Tools { ref tools } if tools == "fs_read,fs_write,done"));
    let mut dash = state();
    let mut bridge = JsBridge::new();
    let (res, done) = bridge.complete(&mut dash, &m.name, &call, "", Duration::ZERO);
    assert_eq!(res, "fs_read,fs_write,done");
    assert!(!done);
    assert_eq!(bridge.step(), 0);
    let line = js_response_line(res, r);
    let v: serde_json::Value = serde_json::from_str(&line).unwrap();
    assert_eq!(v["result"], "fs_read,fs_write,done");
    assert_eq!(v["id"], 7);
    assert_eq!(manifest_tools_text(&None), "");
    assert_eq!(manifest_tools_text(&Some(vec!["done".to_string()])), "done");
}

#[test]
fn bus_and_mcp_calls_take_named_params() {
    let m = manifest();
    let r = request("{\"jsonrpc\": \"2.0\", \"method\": \"agent_send\", \"params\": {\"target\": \"writer\", \"msg\": \"secret-code-xyz\"}, \"id\": 8}");
    let call = plan_js_call(&r, &m, true);
    assert!(matches!(call, JsCall::AgentSend { ref target, ref msg } if target == "writer" && msg == "secret-code-xyz"));
    let mut dash = state();
    let mut bridge = JsBridge::new();
    let (res, _) = bridge.complete(&mut dash, &m.name, &call, "", Duration::ZERO);
    assert_eq!(res, "Message sent successfully.");
    assert_eq!(bridge.traces()[0].args, "writer");
    let r = request("{\"jsonrpc\": \"2.0\", \"method\": \"mcp_call\", \"params\": {\"server\": \"ping-server\", \"tool\": \"ping\", \"arguments\": {\"message\": \"hello\"}}, \"id\": 10}");
    assert!(matches!(plan_js_call(&r, &m, true),
        JsCall::McpCall { ref server, ref tool, ref arguments }
            if server == "ping-server" && tool == "ping" && arguments == "{\"message\":\"hello\"}"));
    let r = request("{\"method\": \"mcp_call\", \"params\": {\"server\": \"s\"}}");
    assert!(matches!(plan_js_call(&r, &m, true),
        JsCall::McpCall { ref server, ref tool, ref arguments }
            if server == "s" && tool.is_empty() && arguments == "null"));
}

#[test]
fn traced_calls_are_admitted_only_within_the_budget() {
    let m = manifest();
    let mut dash = state();
    let mut bridge = JsBridge::new();
    let read = plan_js_call(&request("{\"method\":\"fs_read\",\"params\":[\"/tmp/x\"]}"), &m, true);
    let goal = plan_js_call(&request("{\"method\":\"get_manifest_goal\"}"), &m, true);
    assert!(bridge.admits(&read, 1));
    assert!(!bridge.admits(&read, 0));
    bridge.complete(&mut dash, &m.name, &read, "x", Duration::ZERO);
    assert!(!bridge.admits(&read, 1));
    assert!(bridge.admits(&read, 2));
    assert!(bridge.admits(&goal, 1));
}
