use core::time::Duration;
use nanos::dashboard::{add_trace, log_bus_message, log_event, state, update_agent};
use nanos::trace::AgentTrace;

#[test]
fn dashboard_starts_empty_and_running() {
    let s = state();
    assert!(s.is_running);
    assert!(!s.paused);
    assert!(s.debug_step.is_none());
    assert!(s.agents.is_empty() && s.logs.is_empty() && s.traces.is_empty());
    assert!(s.db_memories.is_empty() && s.message_bus_log.is_empty());
}

#[test]
fn agents_are_listed_once_and_updated() {
    let mut s = state();
    update_agent(&mut s, "reader", "RUNNING", 1, 2048);
    update_agent(&mut s, "writer", "RUNNING", 1, 1024);
    update_agent(&mut s, "reader", "DONE", 4, 4096);
    assert_eq!(s.agents.len(), 2);
    assert_eq!(s.agents[0].name, "reader");
    assert_eq!(s.agents[0].status, "DONE");
    assert_eq!(s.agents[0].step, 4);
    assert_eq!(s.agents[0].memory_kb, 4096);
    assert_eq!(s.agents[0].threads, 1);
    assert_eq!(s.agents[0].goal, "");
    assert_eq!(s.agents[1].name, "writer");
}

#[test]
fn logs_and_traces_are_appended() {
    let mut s = state();
    log_event(&mut s, "first".to_string());
    log_event(&mut s, "second".to_string());
    log_bus_message(&mut s, "a -> b".to_string());
    add_trace(&mut s, AgentTrace {
        step: 1,
        action: "done".to_string(),
        args: "x".to_string(),
        tokens: "-".to_string(),
        latency: Duration::ZERO,
        result: "Finished".to_string(),
    });
    assert_eq!(s.logs, vec!["first", "second"]);
    assert_eq!(s.message_bus_log, vec!["a -> b"]);
    assert_eq!(s.traces.len(), 1);
    assert!(s.agents.is_empty());
}
