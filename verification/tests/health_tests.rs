use evo_agent_sdk::handlers::{PreLoadHandler, PreLoadPlan};
use evo_agent_sdk::health::{preload_gate, EndpointHealth};
use evo_agent_sdk::upgrade::ValidationResult;

#[test]
fn unreachable_endpoint_has_no_latency_or_status() {
    let h = EndpointHealth::unreachable("http://127.0.0.1:9/".to_string());
    assert_eq!(h.url, "http://127.0.0.1:9/");
    assert!(!h.reachable);
    assert!(h.latency_ms.is_none());
    assert!(h.status_code.is_none());
}

#[test]
fn reachable_endpoint_carries_latency_and_status() {
    let h = EndpointHealth::reachable("http://localhost:3000/health".to_string(), 12, 200);
    assert!(h.reachable);
    assert_eq!(h.latency_ms, Some(12));
    assert_eq!(h.status_code, Some(200));
}

#[test]
fn empty_endpoint_list_passes_trivially() {
    let outcome = preload_gate(Vec::new()).unwrap();
    assert!(outcome.all_healthy);
    assert!(outcome.results.is_empty());
}

#[test]
fn any_unreachable_endpoint_fails_the_stage() {
    let results = vec![
        EndpointHealth::reachable("http://a/".to_string(), 5, 200),
        EndpointHealth::unreachable("http://b/".to_string()),
        EndpointHealth::unreachable("http://c/".to_string()),
    ];
    let err = preload_gate(results).err().unwrap();
    assert_eq!(err.failed_urls, vec!["http://b/".to_string(), "http://c/".to_string()]);
    let msg = err.message();
    assert!(msg.contains("health check failed for endpoints: "));
    assert!(msg.contains("http://b/"));
}

#[test]
fn all_reachable_endpoints_pass() {
    let results = vec![
        EndpointHealth::reachable("http://a/".to_string(), 5, 200),
        EndpointHealth::reachable("http://b/".to_string(), 8, 404),
    ];
    let outcome = preload_gate(results).unwrap();
    assert!(outcome.all_healthy);
    assert_eq!(outcome.results.len(), 2);
}

#[test]
fn endpoint_plan_collects_config_and_metadata_urls() {
    let config = "auth_ref = \"API_KEY\"\n\n[[endpoints]]\nname = \"search\"\nurl = \"http://api.example/search\"\nmethod = \"POST\"\n\n[[endpoints]]\nname = \"status\"\nurl = \"http://api.example/status\"\nmethod = \"GET\"\n";
    let explicit = vec!["http://extra.example/".to_string()];
    match PreLoadHandler::endpoint_plan(Some(config), &explicit) {
        PreLoadPlan::Probe(urls) => assert_eq!(
            urls,
            vec![
                "http://api.example/search".to_string(),
                "http://api.example/status".to_string(),
                "http://extra.example/".to_string(),
            ]
        ),
        PreLoadPlan::TriviallyHealthy => panic!("expected urls to probe"),
    }
}

#[test]
fn endpoint_plan_ignores_unparsable_config() {
    let explicit: Vec<String> = Vec::new();
    match PreLoadHandler::endpoint_plan(Some("not [ valid ( toml"), &explicit) {
        PreLoadPlan::TriviallyHealthy => {}
        PreLoadPlan::Probe(_) => panic!("expected trivial pass"),
    }
}

#[test]
fn endpoint_plan_is_trivial_without_endpoints() {
    let explicit: Vec<String> = Vec::new();
    assert!(matches!(
        PreLoadHandler::endpoint_plan(None, &explicit),
        PreLoadPlan::TriviallyHealthy
    ));
}

#[test]
fn upgrade_validation_hard_fails_below_requirements() {
    let failing = ValidationResult::from_checks(true, true, false, true, true);
    assert!(PreLoadHandler::upgrade_validation_outcome(failing).is_err());
    let passing = ValidationResult::from_checks(true, true, true, false, false);
    let v = PreLoadHandler::upgrade_validation_outcome(passing).unwrap();
    assert!(v.all_passed);
}
