use nanos::cli::{
    choose_token, discovered_manifests, manifest_candidates, none_discovered_message,
    resolve_manifest, Cli, Commands, ManifestLookupError,
};

#[test]
fn candidates_in_probe_order() {
    let c = manifest_candidates(&None, &["agent.nano", "fleet.nano"]);
    assert_eq!(c, vec!["agent.nano", "examples/agent.nano", "fleet.nano", "examples/fleet.nano"]);
    let c = manifest_candidates(&Some("x.nano".to_string()), &["agent.nano"]);
    assert_eq!(c, vec!["x.nano"]);
}

#[test]
fn first_existing_candidate_is_used() {
    let defaults = ["agent.nano", "test_e2e.nano", "mcp_test.nano"];
    let r = resolve_manifest(&None, &defaults, &[false, false, false, true, true, false]);
    assert_eq!(r.ok(), Some("examples/test_e2e.nano".to_string()));
    let r = resolve_manifest(&Some("mine.nano".to_string()), &defaults, &[true]);
    assert_eq!(r.ok(), Some("mine.nano".to_string()));
}

#[test]
fn missing_manifests_are_errors() {
    let defaults = ["fleet.nano"];
    match resolve_manifest(&Some("gone.nano".to_string()), &defaults, &[false]) {
        Err(ManifestLookupError::NotFound(p)) => assert_eq!(p, "gone.nano"),
        _ => panic!(),
    }
    match resolve_manifest(&None, &defaults, &[false, false]) {
        Err(ManifestLookupError::NoneDiscovered(d)) => {
            assert_eq!(d, "fleet.nano");
            assert!(none_discovered_message(&d).contains("(e.g. 'fleet.nano')"));
        }
        _ => panic!(),
    }
}

#[test]
fn status_lists_existing_manifests() {
    let names = ["agent.nano", "fleet.nano"];
    let found = discovered_manifests(&names, &[true, false, false, true]);
    assert_eq!(found, vec!["agent.nano", "examples/fleet.nano"]);
}

#[test]
fn token_precedence() {
    assert_eq!(choose_token(Some("cli".into()), Some("m".into()), Some("env".into())), Some("cli".to_string()));
    assert_eq!(choose_token(None, Some("m".into()), Some("env".into())), Some("m".to_string()));
    assert_eq!(choose_token(None, None, Some("env".into())), Some("env".to_string()));
    assert_eq!(choose_token(None, None, None), None);
}

#[test]
fn commands_hold_their_arguments() {
    let cli = Cli { command: Commands::Serve { port: 8080, host: "127.0.0.1".to_string() } };
    assert!(matches!(cli.command, Commands::Serve { port: 8080, .. }));
}
