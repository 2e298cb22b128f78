use nanos::orchestrator::MessageBus;

#[test]
fn bus_delivers_in_order() {
    let mut bus = MessageBus::new();
    bus.send("writer", "first".to_string());
    bus.send("writer", "second".to_string());
    assert_eq!(bus.recv("writer"), Some("first".to_string()));
    assert_eq!(bus.recv("writer"), Some("second".to_string()));
    assert_eq!(bus.recv("writer"), None);
}

#[test]
fn bus_keeps_inboxes_apart() {
    let mut bus = MessageBus::new();
    bus.send("a", "for a".to_string());
    assert_eq!(bus.recv("b"), None);
    assert_eq!(bus.recv("a"), Some("for a".to_string()));
}

#[test]
fn bus_recv_on_unknown_agent() {
    let mut bus = MessageBus::new();
    assert_eq!(bus.recv("nobody"), None);
}
