use bff_mvp::dispatch::{finish_forward, matched_body, matched_body_from, Dispatch, ForwardReply};
use bff_mvp::forward::{keep_text_headers, plan_forward, UpstreamResponse, UpstreamResult};
use bff_mvp::registry::{RouteMode, RouteRegistry};
use bff_mvp::request_log::{LogBuffer, LOG_CAPACITY};
use bff_mvp::{dynamic_route_handler, log_request, spa_index, AppState, RequestLog, RouteConfig};

fn route(id: usize, path: &str, method: &str) -> RouteConfig {
    RouteConfig {
        id,
        path: path.to_string(),
        method: method.to_string(),
        mode: RouteMode::Handled,
        target_path: None,
        description: None,
    }
}

fn proxy_route(id: usize, path: &str, method: &str, target: Option<&str>) -> RouteConfig {
    RouteConfig { mode: RouteMode::Proxy, target_path: target.map(|t| t.to_string()), ..route(id, path, method) }
}

fn dispatch(state: &mut AppState, method: &str, path: &str, body: Vec<u8>) -> Dispatch {
    let headers: Vec<(String, Option<String>)> = vec![("accept".to_string(), Some("*/*".to_string()))];
    dynamic_route_handler(
        &state.routes,
        &mut state.logs,
        "http://upstream:3000",
        method.to_string(),
        path.to_string(),
        &headers,
        body,
        7,
    )
}

fn entry(n: usize) -> RequestLog {
    RequestLog {
        timestamp: format!("t{}", n),
        method: "GET".to_string(),
        path: format!("/p{}", n),
        status: 200,
        latency_ms: 0,
        request_body: None,
        response_body: None,
    }
}

#[test]
fn integration_add_and_get_routes() {
    let mut state = AppState::new();
    let payload = RouteConfig {
        id: 99,
        path: "/it".into(),
        method: "GET".into(),
        mode: RouteMode::Handled,
        target_path: None,
        description: None,
    };
    let replaced = state.routes.add_or_update(payload);
    assert!(!replaced);
    let routes = state.routes.list();
    assert!(routes.iter().any(|r| r.id == 99 && r.path == "/it"));
}

#[test]
fn update_by_id_replaces_in_place() {
    let mut reg = RouteRegistry::new();
    assert!(!reg.add_or_update(route(1, "/a", "GET")));
    assert!(!reg.add_or_update(route(2, "/b", "POST")));
    assert!(!reg.add_or_update(route(3, "/c", "GET")));
    assert!(reg.add_or_update(route(2, "/b2", "PUT")));
    let list = reg.list();
    assert_eq!(list.len(), 3);
    assert_eq!(list[0].path, "/a");
    assert_eq!(list[1].id, 2);
    assert_eq!(list[1].path, "/b2");
    assert_eq!(list[1].method, "PUT");
    assert_eq!(list[2].path, "/c");
}

#[test]
fn one_entry_per_id_after_updates() {
    let mut reg = RouteRegistry::new();
    for round in 0..3usize {
        for id in 0..5usize {
            reg.add_or_update(route(id, &format!("/r{}/{}", id, round), "GET"));
        }
    }
    let list = reg.list();
    assert_eq!(list.len(), 5);
    for (i, r) in list.iter().enumerate() {
        assert_eq!(r.id, i);
        assert_eq!(r.path, format!("/r{}/2", i));
    }
}

#[test]
fn find_ignores_method_case_but_not_path_case() {
    let mut reg = RouteRegistry::new();
    reg.add_or_update(route(1, "/it", "get"));
    assert_eq!(reg.find("GeT", "/it").map(|r| r.id), Some(1));
    assert!(reg.find("GET", "/IT").is_none());
    assert!(reg.find("POST", "/it").is_none());
}

#[test]
fn find_returns_first_of_duplicates() {
    let mut reg = RouteRegistry::new();
    reg.add_or_update(route(1, "/x", "GET"));
    reg.add_or_update(route(2, "/it", "get"));
    reg.add_or_update(route(3, "/it", "GET"));
    assert_eq!(reg.find("GET", "/it").map(|r| r.id), Some(2));
}

#[test]
fn log_evicts_exactly_the_overflow() {
    let mut log = LogBuffer::new();
    for n in 0..LOG_CAPACITY {
        log.append(entry(n));
    }
    assert_eq!(log.len(), 1000);
    log.append(entry(1000));
    let list = log.list();
    assert_eq!(list.len(), 1000);
    assert_eq!(list[0].timestamp, "t1");
    assert_eq!(list[999].timestamp, "t1000");
}

#[test]
fn log_keeps_last_thousand_in_order() {
    let mut log = LogBuffer::new();
    for n in 0..2500usize {
        log.append(entry(n));
    }
    let list = log.list();
    assert_eq!(list.len(), 1000);
    for (i, e) in list.iter().enumerate() {
        assert_eq!(e.path, format!("/p{}", 1500 + i));
    }
}

#[test]
fn log_request_records_fields_and_time() {
    let mut log = LogBuffer::new();
    log_request(&mut log, "DELETE".to_string(), "/gone".to_string(), 204, 12, Some("x".to_string()), None);
    let list = log.list();
    assert_eq!(list.len(), 1);
    assert_eq!(list[0].method, "DELETE");
    assert_eq!(list[0].path, "/gone");
    assert_eq!(list[0].status, 204);
    assert_eq!(list[0].latency_ms, 12);
    assert_eq!(list[0].request_body.as_deref(), Some("x"));
    assert_eq!(list[0].response_body, None);
    assert!(list[0].timestamp.contains('T'));
}

#[test]
fn registered_route_is_served_and_logged() {
    let mut state = AppState::new();
    state.routes.add_or_update(route(1, "/it", "GET"));
    let reply = match dispatch(&mut state, "GET", "/it", b"hello".to_vec()) {
        Dispatch::Reply(reply) => reply,
        _ => panic!("route should be handled locally"),
    };
    assert_eq!(reply.status, 200);
    assert_eq!(reply.content_type, "application/json");
    assert_eq!(reply.body, r#"{"message":"Dynamic route matched","method":"GET","path":"/it"}"#);
    let logs = state.logs.list();
    assert_eq!(logs.len(), 1);
    assert_eq!(logs[0].status, 200);
    assert_eq!(logs[0].path, "/it");
    assert_eq!(logs[0].latency_ms, 7);
    assert_eq!(logs[0].request_body.as_deref(), Some("hello"));
    assert_eq!(logs[0].response_body.as_deref(), Some(reply.body.as_str()));
}

#[test]
fn unregistered_route_falls_back_unlogged() {
    let mut state = AppState::new();
    state.routes.add_or_update(route(1, "/it", "GET"));
    assert!(matches!(dispatch(&mut state, "POST", "/it", Vec::new()), Dispatch::Fallback));
    assert!(matches!(dispatch(&mut state, "GET", "/other", Vec::new()), Dispatch::Fallback));
    assert_eq!(state.logs.len(), 0);
}

#[test]
fn spa_shell_present_and_missing() {
    let ok = spa_index(Some("<html></html>".to_string()));
    assert_eq!(ok.status, 200);
    assert_eq!(ok.content_type, "text/html");
    assert_eq!(ok.body, "<html></html>");
    let missing = spa_index(None);
    assert_eq!(missing.status, 404);
    assert_eq!(missing.content_type, "application/json");
    assert_eq!(missing.body, r#"{"error":"Not Found"}"#);
}

#[test]
fn acknowledgment_escapes_json_text() {
    assert_eq!(matched_body("GET", "/a\"b"), r#"{"message":"Dynamic route matched","method":"GET","path":"/a\"b"}"#);
    assert_eq!(matched_body_from("1", "2"), r#"{"message":"Dynamic route matched","method":1,"path":2}"#);
}

#[test]
fn non_utf8_request_body_is_logged_as_absent() {
    let mut state = AppState::new();
    state.routes.add_or_update(route(1, "/it", "GET"));
    assert!(matches!(dispatch(&mut state, "get", "/it", vec![0xff, 0xfe]), Dispatch::Reply(_)));
    let logs = state.logs.list();
    assert_eq!(logs.len(), 1);
    assert_eq!(logs[0].request_body, None);
}

#[test]
fn proxy_route_plans_call_to_target_path() {
    let mut state = AppState::new();
    state.routes.add_or_update(proxy_route(5, "/it", "GET", Some("/v2/it")));
    state.routes.add_or_update(proxy_route(6, "/same", "POST", None));
    match dispatch(&mut state, "GET", "/it", Vec::new()) {
        Dispatch::Forward { call, request_text } => {
            assert_eq!(call.method, "GET");
            assert_eq!(call.url, "http://upstream:3000/v2/it");
            assert_eq!(call.headers, vec![("accept".to_string(), "*/*".to_string())]);
            assert_eq!(call.body, None);
            assert_eq!(request_text.as_deref(), Some(""));
        }
        _ => panic!("route should be forwarded"),
    }
    match dispatch(&mut state, "POST", "/same", b"{\"a\":1}".to_vec()) {
        Dispatch::Forward { call, .. } => {
            assert_eq!(call.url, "http://upstream:3000/same");
            assert_eq!(call.body, Some(b"{\"a\":1}".to_vec()));
        }
        _ => panic!("route should be forwarded"),
    }
    assert_eq!(state.logs.len(), 0);
}

#[test]
fn forward_attaches_body_only_when_not_empty() {
    let headers: Vec<(String, Option<String>)> = Vec::new();
    let empty = plan_forward("http://u", "/p?q=%20", "PUT".to_string(), &headers, Vec::new());
    assert_eq!(empty.url, "http://u/p?q=%20");
    assert_eq!(empty.body, None);
    let bytes = vec![0u8, 159, 146, 150, 10];
    let full = plan_forward("http://u", "/p", "PUT".to_string(), &headers, bytes.clone());
    assert_eq!(full.body, Some(bytes));
}

#[test]
fn headers_without_text_value_are_dropped() {
    let hs: Vec<(String, Option<String>)> = vec![
        ("a".to_string(), Some("1".to_string())),
        ("b".to_string(), None),
        ("c".to_string(), Some("3".to_string())),
    ];
    assert_eq!(keep_text_headers(&hs), vec![("a".to_string(), "1".to_string()), ("c".to_string(), "3".to_string())]);
}

#[test]
fn unreachable_upstream_gives_502_and_logs_500() {
    let mut log = LogBuffer::new();
    let reply = finish_forward(
        &mut log,
        "GET".to_string(),
        "/it".to_string(),
        None,
        40,
        UpstreamResult::Failed("connection refused".to_string()),
    );
    let reply = match reply {
        ForwardReply::BadGateway(r) => r,
        _ => panic!("expected a bad gateway reply"),
    };
    assert_eq!(reply.status, 502);
    assert!(reply.body.contains("connection refused"));
    let logs = log.list();
    assert_eq!(logs.len(), 1);
    assert_eq!(logs[0].status, 500);
    assert_eq!(logs[0].latency_ms, 40);
    assert_eq!(logs[0].response_body.as_deref(), Some(reply.body.as_str()));
}

#[test]
fn upstream_answer_is_relayed_and_logged() {
    let mut log = LogBuffer::new();
    let resp = UpstreamResponse {
        status: 201,
        headers: vec![("x-up".to_string(), vec![0xc3u8])],
        body: b"{}".to_vec(),
    };
    let reply = finish_forward(
        &mut log,
        "POST".to_string(),
        "/it".to_string(),
        Some("req".to_string()),
        3,
        UpstreamResult::Answered(resp),
    );
    match reply {
        ForwardReply::Relayed(r) => {
            assert_eq!(r.status, 201);
            assert_eq!(r.headers, vec![("x-up".to_string(), vec![0xc3u8])]);
            assert_eq!(r.body, b"{}".to_vec());
        }
        _ => panic!("expected the upstream answer"),
    }
    let logs = log.list();
    assert_eq!(logs[0].status, 201);
    assert_eq!(logs[0].request_body.as_deref(), Some("req"));
    assert_eq!(logs[0].response_body.as_deref(), Some("{}"));
}
