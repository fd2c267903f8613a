use llmproxy::models::{RegisterRequest, ResponseStatus};
use llmproxy::registry::Registry;
use llmproxy::route::{register_server, unregister_server};

fn req(model_name: &str, addr: &str) -> RegisterRequest {
    RegisterRequest { model_name: model_name.to_string(), addr: addr.to_string() }
}

#[test]
fn test_register_server_ok() {
    let mut registry = Registry::new();
    let payload = req("test_model", "localhost:8001");
    let (code, resp) = register_server(&mut registry, &payload);
    assert_eq!(code, 201);
    assert_eq!(resp.status, ResponseStatus::Success);
    let servers = registry.list();
    assert_eq!(servers.len(), 1);
    assert_eq!(servers[0].model_name, "test_model");
    assert_eq!(servers[0].addr, "localhost:8001");
}

#[test]
fn test_register_server_already_exists() {
    let mut registry = Registry::new();
    let payload = req("test_model", "localhost:8001");
    let (first, _) = register_server(&mut registry, &payload);
    assert_eq!(first, 201);
    let (code, resp) = register_server(&mut registry, &payload);
    assert_eq!(code, 200);
    assert_eq!(resp.status, ResponseStatus::Warning);
    assert_eq!(resp.message, "Server already registered");
    assert_eq!(registry.list().len(), 1);
}

#[test]
fn register_trims_fields_before_storing() {
    let mut registry = Registry::new();
    let (code, _) = register_server(&mut registry, &req("  m  ", "  h:1  "));
    assert_eq!(code, 201);
    let servers = registry.list();
    assert_eq!(servers[0].model_name, "m");
    assert_eq!(servers[0].addr, "h:1");
    // the same pair, differently padded, is the same registration
    let (code, resp) = register_server(&mut registry, &req("m", "h:1 "));
    assert_eq!(code, 200);
    assert_eq!(resp.status, ResponseStatus::Warning);
    assert_eq!(registry.list().len(), 1);
}

#[test]
fn register_rejects_addr_without_colon() {
    let mut registry = Registry::new();
    let (code, resp) = register_server(&mut registry, &req("m", "noport"));
    assert_eq!(code, 400);
    assert_eq!(resp.status, ResponseStatus::Error);
    assert_eq!(resp.message, "Invalid address format. Expected host:port");
    assert_eq!(registry.list().len(), 0);
}

#[test]
fn register_rejects_empty_addr() {
    let mut registry = Registry::new();
    let (code, resp) = register_server(&mut registry, &req("m", "   "));
    assert_eq!(code, 400);
    assert_eq!(resp.status, ResponseStatus::Error);
    assert_eq!(resp.message, "Invalid address format. Expected host:port");
}

#[test]
fn register_rejects_empty_model_name() {
    let mut registry = Registry::new();
    let (code, resp) = register_server(&mut registry, &req("   ", "h:1"));
    assert_eq!(code, 400);
    assert_eq!(resp.status, ResponseStatus::Error);
    assert_eq!(resp.message, "model_name cannot be empty");
    assert_eq!(registry.list().len(), 0);
}

#[test]
fn unregister_missing_addr_is_not_found() {
    let mut registry = Registry::new();
    let (code, _) = register_server(&mut registry, &req("m", "h:1"));
    assert_eq!(code, 201);
    let (code, resp) = unregister_server(&mut registry, &req("", "h:2"));
    assert_eq!(code, 404);
    assert_eq!(resp.status, ResponseStatus::Error);
    assert_eq!(resp.message, "Server not found");
    assert_eq!(registry.list().len(), 1);
}

#[test]
fn unregister_removes_exactly_the_first_match() {
    let mut registry = Registry::new();
    register_server(&mut registry, &req("a", "h:1"));
    register_server(&mut registry, &req("b", "h:2"));
    register_server(&mut registry, &req("c", "h:3"));
    let (code, resp) = unregister_server(&mut registry, &req("", "h:2"));
    assert_eq!(code, 200);
    assert_eq!(resp.status, ResponseStatus::Success);
    assert_eq!(resp.message, "Server unregistered successfully");
    let servers = registry.list();
    assert_eq!(servers.len(), 2);
    assert_eq!(servers[0].addr, "h:1");
    assert_eq!(servers[1].addr, "h:3");
    assert!(servers.iter().all(|s| s.addr != "h:2"));
}

#[test]
fn unregister_rejects_invalid_addr() {
    let mut registry = Registry::new();
    let (code, resp) = unregister_server(&mut registry, &req("", "noport"));
    assert_eq!(code, 400);
    assert_eq!(resp.message, "Invalid address format. Expected host:port");
}

#[test]
fn unregister_matches_on_address_alone() {
    // the entry is removed whatever model it serves; the payload's
    // model_name is ignored
    let mut registry = Registry::new();
    register_server(&mut registry, &req("a", "h:1"));
    let (code, _) = unregister_server(&mut registry, &req("something_else", "h:1"));
    assert_eq!(code, 200);
    assert_eq!(registry.list().len(), 0);
}

#[test]
fn replayed_operation_sequence_yields_sequential_state() {
    // a sequence of adds and removes lands in exactly the state of its
    // in-order replay
    let mut registry = Registry::new();
    register_server(&mut registry, &req("a", "h:1"));
    register_server(&mut registry, &req("b", "h:2"));
    unregister_server(&mut registry, &req("", "h:1"));
    register_server(&mut registry, &req("a", "h:1"));
    register_server(&mut registry, &req("b", "h:2"));
    unregister_server(&mut registry, &req("", "h:9"));
    let servers = registry.list();
    assert_eq!(servers.len(), 2);
    assert_eq!(servers[0].model_name, "b");
    assert_eq!(servers[0].addr, "h:2");
    assert_eq!(servers[1].model_name, "a");
    assert_eq!(servers[1].addr, "h:1");
}

#[test]
fn same_address_may_serve_two_models() {
    let mut registry = Registry::new();
    let (c1, _) = register_server(&mut registry, &req("a", "h:1"));
    let (c2, _) = register_server(&mut registry, &req("b", "h:1"));
    assert_eq!(c1, 201);
    assert_eq!(c2, 201);
    assert_eq!(registry.list().len(), 2);
    // removal by address takes the first of them
    unregister_server(&mut registry, &req("", "h:1"));
    let servers = registry.list();
    assert_eq!(servers.len(), 1);
    assert_eq!(servers[0].model_name, "b");
}

#[test]
fn list_preserves_insertion_order() {
    let mut registry = Registry::new();
    register_server(&mut registry, &req("m", "h:3"));
    register_server(&mut registry, &req("m", "h:1"));
    register_server(&mut registry, &req("m", "h:2"));
    let servers = registry.list();
    let addrs: Vec<String> = servers.iter().map(|s| s.addr.clone()).collect();
    assert_eq!(addrs, vec!["h:3".to_string(), "h:1".to_string(), "h:2".to_string()]);
}

#[test]
fn candidates_match_model_exactly() {
    let mut registry = Registry::new();
    register_server(&mut registry, &req("m", "h:1"));
    register_server(&mut registry, &req("mm", "h:2"));
    register_server(&mut registry, &req("m", "h:3"));
    let cands = registry.candidates_for("m");
    assert_eq!(cands.len(), 2);
    assert_eq!(cands[0].addr, "h:1");
    assert_eq!(cands[1].addr, "h:3");
    assert_eq!(registry.candidates_for("M").len(), 0);
}
