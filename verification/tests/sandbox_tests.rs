use nanos::sandbox::{admit_call, recv_poll_again, recv_poll_interval_ms, refusal_text};
use core::time::Duration;
use nanos::dashboard::state;
use nanos::manifest::{AgentManifest, ModelConfig, Permissions, ResourceLimits};
use nanos::sandbox::{
    check_fs_read_permission, check_fs_write_permission, copy_length, eval_js_fallback_response,
    eval_js_response, eval_js_spawn_error, find_js_bundle, fs_read_response, fs_write_response,
    fuel_used, host_trace, infer_response, infer_result_field, like_pattern, mcp_response,
    next_step, node_missing_response, node_permission_flag, recall_response, record_trace,
    trap_is_fuel_exhaustion, wasm_path, web_get_response, write_result_field, Fetch, HostCall,
    McpOutcome, ProcessOutput,
};
use nanos::trace::AgentTrace;

fn manifest(read: Option<Vec<&str>>, write: Option<Vec<&str>>) -> AgentManifest {
    AgentManifest {
        name: Some("tester".to_string()),
        model: ModelConfig {
            path: None,
            context_window: 2048,
            provider: None,
            api_url: None,
            api_key: None,
            model_name: None,
        },
        resources: ResourceLimits { memory: "256MB".to_string(), max_steps: 10 },
        permissions: Permissions {
            fs_read: read.map(|v| v.into_iter().map(String::from).collect()),
            fs_write: write.map(|v| v.into_iter().map(String::from).collect()),
            network: false,
        },
        tools: None,
        goal: Some("read the file".to_string()),
        mcp_servers: None,
        agents: None,
        binary: None,
        token: None,
    }
}

#[test]
fn permissions_deny_without_rules() {
    let m = manifest(None, Some(vec![]));
    assert!(!check_fs_read_permission("/tmp/a.txt", &m));
    assert!(!check_fs_write_permission("/tmp/a.txt", &m));
}

#[test]
fn permissions_exact_and_star_rules() {
    let m = manifest(Some(vec!["./data/input.txt", "/tmp/*", "/var/log/**"]), Some(vec!["./out/*"]));
    assert!(check_fs_read_permission("./data/input.txt", &m));
    assert!(!check_fs_read_permission("./data/input.txt.bak", &m));
    assert!(check_fs_read_permission("/tmp/anything/deep", &m));
    assert!(check_fs_read_permission("/var/log/syslog", &m));
    assert!(!check_fs_read_permission("/etc/passwd", &m));
    assert!(check_fs_write_permission("./out/result.txt", &m));
    assert!(!check_fs_write_permission("./data/input.txt", &m));
}

#[test]
fn answers_of_file_syscalls() {
    assert_eq!(fs_read_response(false, Ok("secret".to_string())), "[Security] PERMISSION_DENIED");
    assert_eq!(fs_read_response(true, Ok("contents".to_string())), "contents");
    assert_eq!(
        fs_read_response(true, Err("No such file".to_string())),
        "Error reading file: No such file"
    );
    assert_eq!(fs_write_response(true, Ok(())), "Successfully wrote to file.");
    assert_eq!(fs_write_response(true, Err("denied".to_string())), "Failed to write file: denied");
    assert_eq!(fs_write_response(false, Ok(())), "[Security] PERMISSION_DENIED");
    assert_eq!(write_result_field("Successfully wrote to file."), "OK");
    assert_eq!(write_result_field("Failed to write file: x"), "Failed");
}

#[test]
fn answers_of_network_and_model_syscalls() {
    assert_eq!(web_get_response(false, Fetch::Body("x".to_string())), "[Security] NETWORK_DISABLED_IN_MANIFEST");
    assert_eq!(web_get_response(true, Fetch::Body("<html>".to_string())), "<html>");
    assert_eq!(web_get_response(true, Fetch::Undecodable), "Failed to decode response");
    assert_eq!(web_get_response(true, Fetch::Failed("timeout".to_string())), "HTTP Request failed: timeout");
    assert_eq!(infer_response(Err("LLM Engine not initialized".to_string())), "LLM Inference Error: LLM Engine not initialized");
    assert_eq!(infer_response(Ok("{\"action\":\"done\"}".to_string())), "{\"action\":\"done\"}");
    assert_eq!(infer_result_field("{\"action\": \"done\"}"), "JSON OK");
    assert_eq!(infer_result_field("plain words"), "Text");
    assert_eq!(mcp_response("files", McpOutcome::NoServer), "MCP Error: Server 'files' not running");
    assert_eq!(mcp_response("files", McpOutcome::Answered("ok".to_string())), "ok");
    assert_eq!(mcp_response("files", McpOutcome::Failed("boom".to_string())), "MCP Error calling tool: boom");
    assert_eq!(recall_response(None), "No memory found.");
    assert_eq!(recall_response(Some("remembered".to_string())), "remembered");
    assert_eq!(like_pattern("cat"), "%cat%");
}

#[test]
fn copy_length_caps_at_buffer() {
    assert_eq!(copy_length("hello", 3), 3);
    assert_eq!(copy_length("hello", 100), 5);
    assert_eq!(copy_length("héllo", 100), 6);
}

#[test]
fn host_traces_show_the_call() {
    let t = host_trace(1, &HostCall::FsRead { path: "a.txt".to_string() }, "abc", 3, Duration::from_millis(2));
    assert_eq!((t.step, t.action.as_str(), t.args.as_str(), t.tokens.as_str(), t.result.as_str()), (1, "fs_read", "a.txt", "-", "3 B"));
    let t = host_trace(2, &HostCall::LlmInfer { prompt_tokens: 312, gen_tokens: 45 }, "{\"action\":1}", 12, Duration::ZERO);
    assert_eq!((t.action.as_str(), t.args.as_str(), t.tokens.as_str(), t.result.as_str()), ("llm_infer", "(prompt)", "312→45", "JSON OK"));
    let t = host_trace(3, &HostCall::Mcp { server: "fs".to_string(), tool: "read".to_string(), args: "{}".to_string() }, "x", 1, Duration::ZERO);
    assert_eq!((t.action.as_str(), t.args.as_str()), ("mcp:read", "fs: {}"));
    let t = host_trace(4, &HostCall::AgentSend { agent: "a".to_string(), target: "b".to_string(), sent: false }, "", 0, Duration::ZERO);
    assert_eq!((t.args.as_str(), t.result.as_str()), ("a -> b", "Failed"));
    let long = "x".repeat(40);
    let t = host_trace(5, &HostCall::MemStore { content: long.clone(), stored: true }, "", 0, Duration::ZERO);
    assert_eq!(t.args, format!("{}...", &long[..27]));
    assert_eq!(t.result, "OK");
    let t = host_trace(6, &HostCall::FsWrite { path: "o.txt".to_string() }, "Successfully wrote to file.", 27, Duration::ZERO);
    assert_eq!(t.result, "OK");
}

#[test]
fn recording_a_trace_updates_dashboard() {
    let mut dash = state();
    let mut traces: Vec<AgentTrace> = Vec::new();
    let trace = AgentTrace {
        step: next_step(&traces),
        action: "fs_read".to_string(),
        args: "a.txt".to_string(),
        tokens: "-".to_string(),
        latency: Duration::ZERO,
        result: "3 B".to_string(),
    };
    assert_eq!(trace.step, 1);
    record_trace(&mut dash, &mut traces, "tester", "FFI", 2048, trace);
    assert_eq!(traces.len(), 1);
    assert_eq!(dash.traces.len(), 1);
    assert_eq!(dash.logs.last().unwrap(), "[Agent tester] FFI: fs_read -> 3 B");
    assert_eq!(dash.agents.len(), 1);
    assert_eq!(dash.agents[0].name, "tester");
    assert_eq!(dash.agents[0].status, "RUNNING");
    assert_eq!(dash.agents[0].step, 1);
    assert_eq!(dash.agents[0].memory_kb, 2048);
    assert_eq!(next_step(&traces), 2);
}

#[test]
fn recording_a_trace_updates_only_that_agent() {
    let mut dash = state();
    let mut traces: Vec<AgentTrace> = Vec::new();
    let make = |step: u32| AgentTrace {
        step,
        action: "fs_read".to_string(),
        args: "a.txt".to_string(),
        tokens: "-".to_string(),
        latency: Duration::ZERO,
        result: "3 B".to_string(),
    };
    record_trace(&mut dash, &mut traces, "first", "FFI", 100, make(1));
    record_trace(&mut dash, &mut traces, "second", "FFI", 200, make(1));
    record_trace(&mut dash, &mut traces, "first", "FFI", 300, make(2));
    assert_eq!(dash.agents.len(), 2);
    assert_eq!(dash.agents[0].name, "first");
    assert_eq!(dash.agents[0].step, 2);
    assert_eq!(dash.agents[0].memory_kb, 300);
    assert_eq!(dash.agents[1].name, "second");
    assert_eq!(dash.agents[1].step, 1);
    assert_eq!(dash.agents[1].memory_kb, 200);
    assert_eq!(dash.agents[1].status, "RUNNING");
}

#[test]
fn manifest_tools_host_call_is_traced() {
    let t = host_trace(3, &HostCall::GetTools, "fs_read,done", 12, Duration::ZERO);
    assert_eq!(t.action, "get_tools");
    assert_eq!(t.args, "-");
    assert_eq!(t.result, "12 B");
}

#[test]
fn js_bundle_is_found_after_marker() {
    let mut bytes = b"\0asm....".to_vec();
    bytes.extend_from_slice(b"nanos_js_bundle");
    bytes.extend_from_slice(b"console.log(1)");
    let start = find_js_bundle(&bytes).unwrap();
    assert_eq!(&bytes[start..], b"console.log(1)");
    assert_eq!(find_js_bundle(b"\0asm plain module"), None);
}

#[test]
fn eval_js_answers() {
    let ok = ProcessOutput { success: true, code: Some(0), stdout: "42\n".to_string(), stderr: String::new() };
    assert_eq!(eval_js_response(&ok), "42\n");
    let timeout = ProcessOutput { success: false, code: Some(124), stdout: String::new(), stderr: String::new() };
    assert_eq!(eval_js_response(&timeout), "eval_js error: Execution timed out (5s limit exceeded)");
    let denied = ProcessOutput {
        success: false,
        code: Some(1),
        stdout: String::new(),
        stderr: "Error: ERR_ACCESS_DENIED fs\nat line 2".to_string(),
    };
    assert_eq!(eval_js_response(&denied), "eval_js sandbox violation: Error: ERR_ACCESS_DENIED fs");
    let err = ProcessOutput { success: false, code: Some(1), stdout: String::new(), stderr: "boom".to_string() };
    assert_eq!(eval_js_response(&err), "JS Error: boom");
    let big = ProcessOutput { success: true, code: Some(0), stdout: "a".repeat(70000), stderr: String::new() };
    let r = eval_js_response(&big);
    assert_eq!(r.len(), 65536 + "\n[output truncated at 64KB]".len());
    assert!(r.ends_with("\n[output truncated at 64KB]"));
    assert_eq!(eval_js_fallback_response(&err), "JS Error: boom");
    assert_eq!(eval_js_spawn_error("no timeout", "no node"), "eval_js spawn error: no timeout (fallback: no node)");
    assert!(node_missing_response().starts_with("eval_js error: Node.js not found"));
}

#[test]
fn module_path_and_fuel() {
    let mut m = manifest(None, None);
    assert_eq!(wasm_path(&m), "nanos-core-agent/target/wasm32-unknown-unknown/debug/nanos_core_agent.wasm");
    m.binary = Some("agent.wasm".to_string());
    assert_eq!(wasm_path(&m), "agent.wasm");
    assert!(trap_is_fuel_exhaustion(Some(0)));
    assert!(trap_is_fuel_exhaustion(None));
    assert!(!trap_is_fuel_exhaustion(Some(5)));
    assert_eq!(fuel_used(1_000_000, 250_000), 750_000);
    assert_eq!(fuel_used(10, 20), 0);
    assert_eq!(node_permission_flag(true), "--permission");
    assert_eq!(node_permission_flag(false), "--experimental-permission");
}

#[test]
fn checked_eval_js_refuses_cut_inside_character() {
    let mut text = "a".repeat(65535);
    text.push('é');
    text.push_str("tail");
    let out = ProcessOutput { success: true, code: Some(0), stdout: text, stderr: String::new() };
    assert_eq!(nanos::sandbox::eval_js_response_checked(&out), None);
    let ok = ProcessOutput { success: true, code: Some(0), stdout: "fine".to_string(), stderr: String::new() };
    assert_eq!(nanos::sandbox::eval_js_response_checked(&ok), Some("fine".to_string()));
}

#[test]
fn host_calls_are_admitted_within_the_step_budget() {
    assert!(admit_call(0, 10, false));
    assert!(admit_call(9, 10, false));
    assert!(!admit_call(10, 10, false));
    assert!(!admit_call(0, 0, false));
    assert!(!admit_call(0, 10, true));
    assert_eq!(refusal_text(false), "Error: max_steps limit reached.");
    assert_eq!(refusal_text(true), "Error: agent was stopped.");
    assert!(recv_poll_again(0));
    assert!(recv_poll_again(99));
    assert!(!recv_poll_again(100));
    assert_eq!(recv_poll_interval_ms(), 100);
}
