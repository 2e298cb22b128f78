use nanos::manifest::{AgentManifest, AgentSpec, McpServerConfig, ModelConfig, Permissions, ResourceLimits};

#[test]
fn memory_bytes_gb() {
    let rl = ResourceLimits {
        memory: "2GB".to_string(),
        max_steps: 1,
    };
    assert_eq!(rl.memory_bytes(), 2 * 1024 * 1024 * 1024);
}

#[test]
fn memory_bytes_mb() {
    let rl = ResourceLimits {
        memory: "256MB".to_string(),
        max_steps: 1,
    };
    assert_eq!(rl.memory_bytes(), 256 * 1024 * 1024);
}

#[test]
fn memory_bytes_kb() {
    let rl = ResourceLimits {
        memory: "512KB".to_string(),
        max_steps: 1,
    };
    assert_eq!(rl.memory_bytes(), 512 * 1024);
}

#[test]
fn memory_bytes_default_treated_as_mb() {
    let rl = ResourceLimits {
        memory: "128".to_string(),
        max_steps: 1,
    };
    assert_eq!(rl.memory_bytes(), 128 * 1024 * 1024);
}

#[test]
fn fuel_budget_calculation() {
    let rl = ResourceLimits {
        memory: "256MB".to_string(),
        max_steps: 10,
    };
    assert_eq!(rl.fuel_budget(), 1_000_000);

    let rl2 = ResourceLimits {
        memory: "256MB".to_string(),
        max_steps: 0,
    };
    assert_eq!(rl2.fuel_budget(), 0);
}

#[test]
fn memory_limit_that_does_not_fit_is_refused() {
    let huge = ResourceLimits { memory: "99999999999999GB".to_string(), max_steps: 1 };
    assert_eq!(huge.memory_bytes_checked(), None);
    let rl = ResourceLimits { memory: " 2gb ".to_string(), max_steps: 1 };
    assert_eq!(rl.memory_bytes_checked(), Some(2 * 1024 * 1024 * 1024));
    let bad = ResourceLimits { memory: "lots".to_string(), max_steps: 1 };
    assert_eq!(bad.memory_bytes(), 256 * 1024 * 1024);
}

fn fleet() -> AgentManifest {
    AgentManifest {
        name: Some("fleet".to_string()),
        model: ModelConfig {
            path: None,
            context_window: 2048,
            provider: Some("ollama".to_string()),
            api_url: None,
            api_key: None,
            model_name: Some("m".to_string()),
        },
        resources: ResourceLimits { memory: "64MB".to_string(), max_steps: 7 },
        permissions: Permissions { fs_read: Some(vec!["in.txt".to_string()]), fs_write: None, network: true },
        tools: None,
        goal: None,
        mcp_servers: Some(vec![McpServerConfig {
            name: "ping-server".to_string(),
            command: "node".to_string(),
            args: vec!["server.js".to_string(), "--quiet".to_string()],
        }]),
        agents: Some(vec![
            AgentSpec { name: "reader".to_string(), goal: "read".to_string(), tools: vec!["fs_read".to_string()] },
            AgentSpec { name: "writer".to_string(), goal: "write".to_string(), tools: vec!["fs_write".to_string(), "done".to_string()] },
        ]),
        binary: Some("agent.wasm".to_string()),
        token: Some("t".to_string()),
    }
}

#[test]
fn member_manifests_keep_the_fleet_settings() {
    let f = fleet();
    let ms = f.member_manifests().unwrap();
    assert_eq!(ms.len(), 2);
    assert_eq!(ms[1].name.as_deref(), Some("writer"));
    assert_eq!(ms[1].goal.as_deref(), Some("write"));
    assert_eq!(ms[1].tools, Some(vec!["fs_write".to_string(), "done".to_string()]));
    assert_eq!(ms[1].resources.max_steps, 7);
    assert_eq!(ms[1].binary.as_deref(), Some("agent.wasm"));
    let servers = ms[0].mcp_servers.as_ref().unwrap();
    assert_eq!(servers.len(), 1);
    assert_eq!(servers[0].name, "ping-server");
    assert_eq!(servers[0].command, "node");
    assert_eq!(servers[0].args, vec!["server.js".to_string(), "--quiet".to_string()]);
    let agents = ms[0].agents.as_ref().unwrap();
    assert_eq!(agents.len(), 2);
    assert_eq!(agents[1].name, "writer");
    assert_eq!(agents[1].tools, vec!["fs_write".to_string(), "done".to_string()]);
}
