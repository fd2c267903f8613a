use llmproxy::forward::{
    body_read_error_response, build_target_uri, forward_error_response, internal_error_response,
    strip_scheme_prefixes,
};
use llmproxy::models::{RegisterRequest, ResponseStatus, TestRequest};
use llmproxy::registry::Registry;
use llmproxy::route::{
    register_server, route_proxy, test_not_found_response, test_probe_response,
    test_server_lookup, ProbeOutcome, RouteDecision,
};
use llmproxy::select::select_candidate;

fn req(model_name: &str, addr: &str) -> RegisterRequest {
    RegisterRequest { model_name: model_name.to_string(), addr: addr.to_string() }
}

fn registry_with(pairs: &[(&str, &str)]) -> Registry {
    let mut registry = Registry::new();
    for (m, a) in pairs {
        let (code, _) = register_server(&mut registry, &req(m, a));
        assert_eq!(code, 201);
    }
    registry
}

fn body(s: &str) -> Vec<u8> {
    s.as_bytes().to_vec()
}

#[test]
fn proxy_with_no_backends_is_unavailable() {
    let registry = Registry::new();
    match route_proxy(&registry, &body("{\"model\":\"m\"}")) {
        RouteDecision::Reject { code, response } => {
            assert_eq!(code, 503);
            assert_eq!(response.status, ResponseStatus::Error);
            assert_eq!(response.message, "No servers registered");
        }
        RouteDecision::Forward { .. } => panic!("must not forward"),
    }
}

#[test]
fn proxy_unknown_model_is_bad_request() {
    let registry = registry_with(&[("other", "h:1")]);
    match route_proxy(&registry, &body("{\"model\":\"m\",\"prompt\":\"x\"}")) {
        RouteDecision::Reject { code, response } => {
            assert_eq!(code, 400);
            assert_eq!(response.status, ResponseStatus::Error);
            assert_eq!(response.message, "No server registered for model: m");
        }
        RouteDecision::Forward { .. } => panic!("must not forward"),
    }
}

#[test]
fn proxy_without_model_field_is_bad_request() {
    let registry = registry_with(&[("m", "h:1")]);
    match route_proxy(&registry, &body("{\"prompt\":\"x\"}")) {
        RouteDecision::Reject { code, response } => {
            assert_eq!(code, 400);
            assert_eq!(response.message, "Model name is required in the request body");
        }
        RouteDecision::Forward { .. } => panic!("must not forward"),
    }
}

#[test]
fn proxy_with_empty_model_is_bad_request() {
    let registry = registry_with(&[("m", "h:1")]);
    for b in ["{\"model\":\"\"}", "{\"model\":\"   \"}", "{\"model\":17}"] {
        match route_proxy(&registry, &body(b)) {
            RouteDecision::Reject { code, response } => {
                assert_eq!(code, 400);
                assert_eq!(response.message, "Model name is required in the request body");
            }
            RouteDecision::Forward { .. } => panic!("must not forward"),
        }
    }
}

#[test]
fn proxy_with_invalid_json_is_bad_request() {
    let registry = registry_with(&[("m", "h:1")]);
    match route_proxy(&registry, &body("{oops")) {
        RouteDecision::Reject { code, response } => {
            assert_eq!(code, 400);
            assert_eq!(response.status, ResponseStatus::Error);
            assert!(response.message.starts_with("Invalid JSON body: "));
            assert!(response.message.len() > "Invalid JSON body: ".len());
        }
        RouteDecision::Forward { .. } => panic!("must not forward"),
    }
}

#[test]
fn proxy_single_backend_is_selected() {
    let registry = registry_with(&[("m", "127.0.0.1:9100"), ("other", "h:9")]);
    match route_proxy(&registry, &body("{\"model\":\"m\",\"prompt\":\"x\"}")) {
        RouteDecision::Forward { target_addr } => {
            assert_eq!(target_addr, "127.0.0.1:9100");
        }
        RouteDecision::Reject { .. } => panic!("must forward"),
    }
}

#[test]
fn proxy_trims_the_requested_model() {
    let registry = registry_with(&[("m", "h:1")]);
    match route_proxy(&registry, &body("{\"model\":\" m \"}")) {
        RouteDecision::Forward { target_addr } => assert_eq!(target_addr, "h:1"),
        RouteDecision::Reject { .. } => panic!("must forward"),
    }
}

#[test]
fn proxy_selects_among_registered_backends_only() {
    let registry = registry_with(&[("m", "h:1"), ("m", "h:2"), ("other", "h:3")]);
    for _ in 0..50 {
        match route_proxy(&registry, &body("{\"model\":\"m\"}")) {
            RouteDecision::Forward { target_addr } => {
                assert!(target_addr == "h:1" || target_addr == "h:2");
            }
            RouteDecision::Reject { .. } => panic!("must forward"),
        }
    }
}

#[test]
fn repeated_selection_reaches_every_candidate() {
    let registry = registry_with(&[("m", "h:1"), ("m", "h:2"), ("m", "h:3")]);
    let cands = registry.candidates_for("m");
    let mut seen = [false; 3];
    for _ in 0..500 {
        let picked = select_candidate(&cands);
        match picked.addr.as_str() {
            "h:1" => seen[0] = true,
            "h:2" => seen[1] = true,
            "h:3" => seen[2] = true,
            other => panic!("selected an unregistered address: {}", other),
        }
    }
    assert!(seen[0] && seen[1] && seen[2]);
}

#[test]
fn routing_leaves_the_registry_unchanged() {
    let mut registry = Registry::new();
    register_server(&mut registry, &req("m", "127.0.0.1:1"));
    let before: Vec<(String, String)> =
        registry.list().into_iter().map(|s| (s.model_name, s.addr)).collect();
    let _ = route_proxy(&registry, &body("{\"model\":\"m\"}"));
    let _ = route_proxy(&registry, &body("{oops"));
    let after: Vec<(String, String)> =
        registry.list().into_iter().map(|s| (s.model_name, s.addr)).collect();
    assert_eq!(before, after);
}

#[test]
fn forward_failure_is_bad_gateway() {
    let (code, resp) = forward_error_response("connection refused");
    assert_eq!(code, 502);
    assert_eq!(resp.status, ResponseStatus::Error);
    assert_eq!(resp.message, "Error forwarding request: connection refused");
}

#[test]
fn body_read_failure_is_bad_request() {
    let (code, resp) = body_read_error_response();
    assert_eq!(code, 400);
    assert_eq!(resp.status, ResponseStatus::Error);
    assert_eq!(resp.message, "Failed to read request body");
}

#[test]
fn build_failure_is_internal_error() {
    let (code, resp) = internal_error_response("Failed to construct target URI");
    assert_eq!(code, 500);
    assert_eq!(resp.status, ResponseStatus::Error);
    assert_eq!(resp.message, "Failed to construct target URI");
}

#[test]
fn target_uri_keeps_path_and_query() {
    assert_eq!(
        build_target_uri("127.0.0.1:9100", "/v1/completions?x=1"),
        "http://127.0.0.1:9100/v1/completions?x=1"
    );
}

#[test]
fn target_uri_defaults_to_root_path() {
    assert_eq!(build_target_uri("h:1", ""), "http://h:1/");
}

#[test]
fn target_uri_strips_scheme_prefixes() {
    assert_eq!(build_target_uri("http://h:1", "/a"), "http://h:1/a");
    assert_eq!(build_target_uri("https://h:1", "/a"), "http://h:1/a");
    assert_eq!(strip_scheme_prefixes("http://http://h:1"), "h:1");
    assert_eq!(strip_scheme_prefixes("h:1"), "h:1");
}

#[test]
fn test_endpoint_lookup_finds_registered_addr() {
    let registry = registry_with(&[("m", "h:1")]);
    let found = test_server_lookup(&registry, &TestRequest { addr: " h:1 ".to_string() });
    assert_eq!(found, Some("h:1".to_string()));
    let missing = test_server_lookup(&registry, &TestRequest { addr: "h:2".to_string() });
    assert_eq!(missing, None);
}

#[test]
fn test_endpoint_reports_probe_outcomes() {
    let (code, resp) = test_probe_response("h:1", &ProbeOutcome::Responded { code: 200 });
    assert_eq!(code, 200);
    assert_eq!(resp.status, ResponseStatus::Success);
    assert_eq!(resp.message, "Service at h:1 is reachable");

    let (code, resp) = test_probe_response("h:1", &ProbeOutcome::Responded { code: 503 });
    assert_eq!(code, 200);
    assert_eq!(resp.status, ResponseStatus::Error);
    assert_eq!(resp.message, "Service at h:1 returned status 503");

    let (code, resp) = test_probe_response(
        "h:1",
        &ProbeOutcome::ConnectFailed { detail: "refused".to_string() },
    );
    assert_eq!(code, 200);
    assert_eq!(resp.status, ResponseStatus::Error);
    assert_eq!(resp.message, "Failed to connect to service at h:1: refused");

    let (code, resp) = test_not_found_response();
    assert_eq!(code, 404);
    assert_eq!(resp.status, ResponseStatus::Error);
    assert_eq!(resp.message, "Service not found");
}
