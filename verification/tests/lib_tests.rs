use nanos::{no_bus_error, NanosConfig};

#[test]
fn default_config_shares_nothing() {
    let c: NanosConfig<u8, u16> = NanosConfig::default();
    assert!(c.shared_llm.is_none());
    assert!(c.shared_bus.is_none());
}

#[test]
fn handle_without_bus_reports_it() {
    assert_eq!(no_bus_error("reader"), "No message bus configured for agent 'reader'");
}
