use workload_gateway::proxy::{relay, reverse_proxy, target_url, BackendReply, ProxyPlan};
use workload_gateway::registry::Registry;

fn respond(text: &str) -> ProxyPlan {
    ProxyPlan::Respond { response: text.to_string() }
}

fn get(url: &str) -> ProxyPlan {
    ProxyPlan::Get { url: url.to_string() }
}

fn post(url: &str, body: &[u8]) -> ProxyPlan {
    ProxyPlan::Post { url: url.to_string(), body: body.to_vec() }
}

fn registered(port: &str) -> Result<Option<String>, String> {
    Ok(Some(port.to_string()))
}

fn unregistered() -> Result<Option<String>, String> {
    Ok(None)
}

#[test]
fn target_url_joins_port_and_path() {
    assert_eq!(target_url("9000", "health"), "http://127.0.0.1:9000/health");
    assert_eq!(target_url("8080", "api/v1/items"), "http://127.0.0.1:8080/api/v1/items");
}

#[test]
fn target_url_with_empty_path_ends_in_one_slash() {
    assert_eq!(target_url("9000", ""), "http://127.0.0.1:9000/");
}

#[test]
fn target_url_keeps_the_path_as_given() {
    assert_eq!(target_url("9000", "a/b/"), "http://127.0.0.1:9000/a/b/");
    assert_eq!(target_url("9000", "search?q=1&r=2"), "http://127.0.0.1:9000/search?q=1&r=2");
    assert_eq!(target_url("9000", "/twice"), "http://127.0.0.1:9000//twice");
}

#[test]
fn get_is_forwarded_to_the_registered_port() {
    let plan = reverse_proxy(registered("9000"), "web-1", "health", "GET", Vec::new());
    assert_eq!(plan, get("http://127.0.0.1:9000/health"));
}

#[test]
fn get_drops_the_request_body() {
    let plan = reverse_proxy(registered("9000"), "web-1", "health", "GET", vec![1, 2, 3]);
    assert_eq!(plan, get("http://127.0.0.1:9000/health"));
}

#[test]
fn get_with_empty_path_targets_the_root() {
    let plan = reverse_proxy(registered("9000"), "web-1", "", "GET", Vec::new());
    assert_eq!(plan, get("http://127.0.0.1:9000/"));
}

#[test]
fn post_relays_the_body_byte_for_byte() {
    let body: Vec<u8> = vec![0, 255, 10, 13, 0, 128, 34, 92, 0];
    let plan = reverse_proxy(registered("9000"), "web-1", "upload", "POST", body.clone());
    assert_eq!(plan, post("http://127.0.0.1:9000/upload", &body));
}

#[test]
fn post_relays_an_empty_body() {
    let plan = reverse_proxy(registered("9000"), "web-1", "upload", "POST", Vec::new());
    assert_eq!(plan, post("http://127.0.0.1:9000/upload", &[]));
}

#[test]
fn post_relays_a_large_body() {
    let mut body: Vec<u8> = Vec::new();
    let mut i: u32 = 0;
    while i < 70000 {
        body.push((i % 251) as u8);
        i += 1;
    }
    let plan = reverse_proxy(registered("9000"), "web-1", "bulk", "POST", body.clone());
    assert_eq!(plan, post("http://127.0.0.1:9000/bulk", &body));
}

#[test]
fn delete_is_unsupported() {
    let plan = reverse_proxy(registered("9000"), "web-1", "items/3", "DELETE", Vec::new());
    assert_eq!(plan, respond("Unsupported method: DELETE"));
}

#[test]
fn other_methods_are_unsupported() {
    for method in ["PUT", "PATCH", "HEAD", "OPTIONS", "TRACE", "CONNECT", "PROPFIND", ""] {
        let plan = reverse_proxy(registered("9000"), "web-1", "x", method, vec![7]);
        assert_eq!(plan, respond(&format!("Unsupported method: {}", method)));
    }
}

#[test]
fn method_names_are_case_sensitive() {
    assert_eq!(
        reverse_proxy(registered("9000"), "web-1", "x", "get", Vec::new()),
        respond("Unsupported method: get")
    );
    assert_eq!(
        reverse_proxy(registered("9000"), "web-1", "x", "Post", Vec::new()),
        respond("Unsupported method: Post")
    );
}

#[test]
fn unregistered_workload_is_not_found() {
    let plan = reverse_proxy(unregistered(), "ghost", "health", "GET", Vec::new());
    assert_eq!(plan, respond("No container found for ID: ghost"));
}

#[test]
fn unregistered_workload_is_not_found_whatever_the_method() {
    for method in ["GET", "POST", "DELETE", "PUT"] {
        let plan = reverse_proxy(unregistered(), "ghost", "health", method, vec![1]);
        assert_eq!(plan, respond("No container found for ID: ghost"));
    }
}

#[test]
fn relay_returns_the_body_as_it_came() {
    assert_eq!(relay(BackendReply::Body("ok".to_string())), "ok");
    assert_eq!(relay(BackendReply::Body(String::new())), "");
    assert_eq!(relay(BackendReply::Body("{\"a\": [1, 2]}\n".to_string())), "{\"a\": [1, 2]}\n");
}

#[test]
fn relay_reports_an_unreadable_body() {
    assert_eq!(relay(BackendReply::Unreadable), "Error reading body");
}

#[test]
fn relay_reports_a_transport_failure() {
    assert_eq!(
        relay(BackendReply::Failed("connection refused".to_string())),
        "Error proxying request: connection refused"
    );
    assert_eq!(relay(BackendReply::Failed(String::new())), "Error proxying request: ");
}

#[test]
fn registered_workload_is_proxied() {
    let mut registry = Registry::new();
    registry.upsert("web-1", "9000");
    assert_eq!(registry.lookup("web-1"), Some("9000".to_string()));
    let plan = reverse_proxy(Ok(registry.lookup("web-1")), "web-1", "health", "GET", Vec::new());
    assert_eq!(plan, get("http://127.0.0.1:9000/health"));
    assert_eq!(relay(BackendReply::Body("ok".to_string())), "ok");
}

#[test]
fn ghost_workload_is_not_proxied() {
    let registry = Registry::new();
    assert_eq!(registry.lookup("ghost"), None);
    let plan = reverse_proxy(Ok(registry.lookup("ghost")), "ghost", "health", "GET", Vec::new());
    assert_eq!(plan, respond("No container found for ID: ghost"));
}

#[test]
fn new_port_is_used_by_the_next_request() {
    let mut registry = Registry::new();
    registry.upsert("web-1", "9000");
    registry.upsert("web-1", "9444");
    let plan = reverse_proxy(Ok(registry.lookup("web-1")), "web-1", "health", "GET", Vec::new());
    assert_eq!(plan, get("http://127.0.0.1:9444/health"));
}

#[test]
fn deregistered_workload_is_not_found() {
    let mut registry = Registry::new();
    registry.upsert("web-1", "9000");
    registry.deregister("web-1");
    let plan = reverse_proxy(Ok(registry.lookup("web-1")), "web-1", "health", "POST", vec![1]);
    assert_eq!(plan, respond("No container found for ID: web-1"));
}

#[test]
fn failed_lookup_is_answered_with_the_reason() {
    let plan = reverse_proxy(
        Err("database is locked".to_string()),
        "web-1",
        "health",
        "GET",
        Vec::new(),
    );
    assert_eq!(plan, respond("Error looking up container web-1: database is locked"));
}

#[test]
fn failed_lookup_is_not_forwarded_whatever_the_method() {
    for method in ["GET", "POST", "DELETE", ""] {
        let plan = reverse_proxy(Err("disk I/O error".to_string()), "web-1", "x", method, vec![1]);
        assert_eq!(plan, respond("Error looking up container web-1: disk I/O error"));
    }
    assert_eq!(
        reverse_proxy(Err(String::new()), "", "", "GET", Vec::new()),
        respond("Error looking up container : ")
    );
}
