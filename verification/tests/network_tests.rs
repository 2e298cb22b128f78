use nanos::json::{parse_json, JsonValue};
use nanos::manifest::{AgentManifest, AgentSpec, ModelConfig, Permissions, ResourceLimits};
use nanos::network::{
    accept_init, bus_call_result, bus_request, empty_node_socket, exit_message, is_node_mode,
    register_node, registration_message, serve_node_message, set_node_socket, take_node_socket,
    BusMessage, NodeReply, NodeStartError, Refusal, Registration, ServerState,
};

fn fleet_manifest(with_agents: bool) -> AgentManifest {
    AgentManifest {
        name: None,
        model: ModelConfig {
            path: None,
            context_window: 2048,
            provider: None,
            api_url: None,
            api_key: None,
            model_name: None,
        },
        resources: ResourceLimits { memory: "512mb".to_string(), max_steps: 10 },
        permissions: Permissions { fs_read: None, fs_write: None, network: false },
        tools: None,
        goal: None,
        mcp_servers: None,
        agents: if with_agents {
            Some(vec![AgentSpec {
                name: "test-agent".to_string(),
                goal: "do something".to_string(),
                tools: vec!["fs_read".to_string()],
            }])
        } else {
            None
        },
        binary: None,
        token: None,
    }
}

#[test]
fn test_network_message_bus() {
    // The node registers, is assigned its work, and relays bus calls.
    let reg = registration_message("test-agent", None);
    assert!(matches!(reg, BusMessage::Register { ref name, .. } if name == "test-agent"));

    let manifest = fleet_manifest(true);
    let expected = vec!["test-agent".to_string()];
    match register_node(reg, &manifest, &expected, &None) {
        Registration::Accepted { agent_name, init } => {
            assert_eq!(agent_name, "test-agent");
            let (goal, tools, m) = accept_init(init).ok().unwrap();
            assert_eq!(goal, "do something");
            assert_eq!(tools, vec!["fs_read".to_string()]);
            assert_eq!(m.name.as_deref(), Some("test-agent"));
            assert!(m.agents.is_none());
        }
        Registration::Refused { .. } => panic!("registration refused"),
    }

    let mut slot = empty_node_socket::<u32>();
    assert!(!is_node_mode(&slot));
    set_node_socket(&mut slot, 7);
    assert!(is_node_mode(&slot));

    let mut state = ServerState::new();
    let send = BusMessage::Send { target: "writer".to_string(), msg: "hello".to_string() };
    assert!(matches!(serve_node_message(&mut state, "test-agent", send), NodeReply::Reply(BusMessage::Ack)));
    assert_eq!(bus_call_result("send", "{\"type\":\"ok\"}").ok(), Some(JsonValue::Str("OK".to_string())));

    let got = serve_node_message(&mut state, "writer", BusMessage::Recv);
    assert!(matches!(got, NodeReply::Reply(BusMessage::Msg { content: Some(ref c) }) if c == "hello"));
    let recv = bus_call_result("recv", "{\"content\":\"secret\",\"type\":\"msg\"}").ok().unwrap();
    assert_eq!(recv, JsonValue::Str("secret".to_string()));

    let exit = exit_message(true);
    assert!(matches!(exit, BusMessage::Exit { ref status, .. } if status == "success"));
    assert!(matches!(serve_node_message(&mut state, "test-agent", exit), NodeReply::Finish));
    assert!(state.all_finished(&vec!["test-agent".to_string()]));

    assert_eq!(take_node_socket(&mut slot), Some(7));
    assert!(!is_node_mode(&slot));
}

#[test]
fn test_network_authentication_success() {
    let manifest = fleet_manifest(true);
    let expected = vec!["test-agent".to_string()];
    let reg = BusMessage::Register { name: "test-agent".to_string(), token: Some("secret123".to_string()) };
    let r = register_node(reg, &manifest, &expected, &Some("secret123".to_string()));
    assert!(matches!(r, Registration::Accepted { init: BusMessage::Init { .. }, .. }));
}

#[test]
fn test_network_authentication_failure() {
    let manifest = fleet_manifest(true);
    let expected = vec!["test-agent".to_string()];
    let reg = BusMessage::Register { name: "test-agent".to_string(), token: Some("wrong_token".to_string()) };
    let r = register_node(reg, &manifest, &expected, &Some("secret123".to_string()));
    match r {
        Registration::Refused { reason: Refusal::BadToken { agent_name }, reply: Some(reply) } => {
            assert_eq!(agent_name, "test-agent");
            assert!(matches!(reply, BusMessage::Exit { ref status, .. } if status == "failed"));
            match accept_init(reply) {
                Err(e) => assert_eq!(
                    e.message(),
                    "Server rejected registration: [Security] Unauthorized connection: invalid or missing fleet token (Status: failed)"
                ),
                Ok(_) => panic!("refused node was initialised"),
            }
        }
        _ => panic!("wrong token accepted"),
    }
}

#[test]
fn missing_token_is_refused_when_one_is_required() {
    let manifest = fleet_manifest(true);
    let expected = vec!["test-agent".to_string()];
    let reg = BusMessage::Register { name: "test-agent".to_string(), token: None };
    let r = register_node(reg, &manifest, &expected, &Some("secret123".to_string()));
    assert!(matches!(r, Registration::Refused { reason: Refusal::BadToken { .. }, .. }));
}

#[test]
fn unknown_agent_is_refused() {
    let manifest = fleet_manifest(true);
    let expected = vec!["test-agent".to_string()];
    let reg = BusMessage::Register { name: "intruder".to_string(), token: None };
    let r = register_node(reg, &manifest, &expected, &None);
    assert!(matches!(r, Registration::Refused { reason: Refusal::UnknownAgent { ref agent_name }, reply: None } if agent_name == "intruder"));
}

#[test]
fn first_message_must_register() {
    let manifest = fleet_manifest(true);
    let expected = vec!["test-agent".to_string()];
    let r = register_node(BusMessage::Recv, &manifest, &expected, &None);
    assert!(matches!(r, Registration::Refused { reason: Refusal::NotRegister, reply: None }));
}

#[test]
fn recv_on_empty_inbox_gives_no_content() {
    let mut state = ServerState::new();
    let got = serve_node_message(&mut state, "reader", BusMessage::Recv);
    assert!(matches!(got, NodeReply::Reply(BusMessage::Msg { content: None })));
    assert!(matches!(serve_node_message(&mut state, "reader", BusMessage::Ack), NodeReply::Ignore));
    assert!(!state.all_finished(&vec!["reader".to_string()]));
}

#[test]
fn init_reply_other_than_init_is_an_error() {
    let e = accept_init(BusMessage::Ack).err().unwrap();
    assert!(matches!(e, NodeStartError::NoInit));
    assert_eq!(e.message(), "Server did not respond with Init");
}

#[test]
fn failed_run_reports_failure() {
    match exit_message(false) {
        BusMessage::Exit { status, summary } => {
            assert_eq!(status, "failed");
            assert_eq!(summary, "\"Execution failed\"");
        }
        _ => panic!(),
    }
}

#[test]
fn bus_request_carries_method_and_params() {
    let params = parse_json("{\"target\":\"writer\",\"msg\":\"hello\"}").unwrap();
    let line = bus_request("send", &params);
    let v: serde_json::Value = serde_json::from_str(&line).unwrap();
    assert_eq!(v["type"], "send");
    assert_eq!(v["target"], "writer");
    assert_eq!(v["msg"], "hello");
    let none = bus_request("recv", &parse_json("{}").unwrap());
    let v: serde_json::Value = serde_json::from_str(&none).unwrap();
    assert_eq!(v["type"], "recv");
    assert!(v["target"].is_null());
    assert!(bus_call_result("recv", "not json").is_err());
    assert_eq!(bus_call_result("recv", "{\"type\":\"msg\"}").ok(), Some(JsonValue::Null));
}
