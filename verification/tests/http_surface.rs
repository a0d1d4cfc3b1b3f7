//! Tests for origin validation, the session store, and the HTTP-surface
//! decisions.

use docker_agent::json::get_field;
use docker_agent::json::JsonValue;
use docker_agent::session::AppState;
use docker_agent::session::SseMessage;
use docker_agent::transport::handle_delete;
use docker_agent::transport::handle_get;
use docker_agent::transport::handle_post;
use docker_agent::transport::validate_origin;
use docker_agent::transport::DeleteAction;
use docker_agent::transport::GetAction;
use docker_agent::transport::PostAction;

fn as_text(v: &JsonValue) -> &str {
    match v {
        JsonValue::Str(s) => s.as_str(),
        _ => panic!("not a string"),
    }
}

#[test]
fn test_validate_origin_no_header() {
    assert!(validate_origin(None, &None));
}

#[test]
fn test_validate_origin_localhost() {
    assert!(validate_origin(Some("http://localhost:3000"), &None));
}

#[test]
fn test_validate_origin_127() {
    assert!(validate_origin(Some("http://127.0.0.1:8080"), &None));
}

#[test]
fn test_validate_origin_external_rejected() {
    assert!(!validate_origin(Some("https://evil.com"), &None));
}

#[test]
fn test_validate_origin_allowed_list() {
    let allowed = Some(vec!["https://myapp.com".to_string()]);
    assert!(validate_origin(Some("https://myapp.com"), &allowed));
}

#[test]
fn test_validate_origin_https_localhost() {
    assert!(validate_origin(Some("https://localhost:8443"), &None));
    assert!(validate_origin(Some("https://127.0.0.1"), &None));
    assert!(!validate_origin(Some("http://192.168.0.1:80"), &None));
}

#[test]
fn test_session_store_create_and_exists() {
    let mut state = AppState::new();
    let a = state.create_session();
    let b = state.create_session();
    assert_ne!(a, b);
    assert!(state.session_exists(&a));
    assert!(state.session_exists(&b));
    assert!(!state.session_exists("not-a-session"));
}

#[test]
fn test_session_store_remove_is_permanent() {
    let mut state = AppState::new();
    let a = state.create_session();
    assert!(state.remove_session(&a));
    assert!(!state.session_exists(&a));
    // a second removal reports that nothing was there
    assert!(!state.remove_session(&a));
}

fn post_initialize(state: &mut AppState) -> (String, docker_agent::rpc::JsonRpcResponse) {
    let body = r#"{"jsonrpc":"2.0","id":1,"method":"initialize","params":{}}"#;
    match handle_post(state, None, body) {
        PostAction::Initialized(sid, resp) => (sid, resp),
        _ => panic!("expected an initialized session"),
    }
}

#[test]
fn test_post_initialize_creates_session() {
    // POST initialize: ok status, protocolVersion in the result, a fresh
    // session id in the header, and the session exists right after.
    let mut state = AppState::new();
    let (sid, resp) = post_initialize(&mut state);
    assert!(state.session_exists(&sid));
    assert_eq!(resp.jsonrpc, "2.0");
    match resp.id {
        Some(JsonValue::Num(ref n)) => assert_eq!(n, "1"),
        _ => panic!("expected the echoed id"),
    }
    let result = resp.result.unwrap();
    assert!(get_field(&result, "protocolVersion").is_some());
}

#[test]
fn test_sse_subscriber_sees_publish() {
    // GET with the right Accept header and a live session opens a stream;
    // a later publish on the session's channel reaches the subscriber.
    let mut state = AppState::new();
    let (sid, _resp) = post_initialize(&mut state);
    let mut rx = match handle_get(&state, None, Some("text/event-stream"), Some(&sid)) {
        GetAction::Stream(rx) => rx,
        _ => panic!("expected a stream"),
    };
    let tx = state.get_session(&sid).unwrap();
    tx.send(SseMessage { event_id: "e1".to_string(), data: "hello".to_string() }).unwrap();
    let msg = rx.try_recv().unwrap();
    assert_eq!(msg.event_id, "e1");
    assert_eq!(msg.data, "hello");
}

#[test]
fn test_delete_then_get_not_found() {
    // DELETE with the session header terminates; a following GET with the
    // same header finds nothing.
    let mut state = AppState::new();
    let (sid, _resp) = post_initialize(&mut state);
    match handle_delete(&mut state, None, Some(&sid)) {
        DeleteAction::Terminated => {},
        _ => panic!("expected termination"),
    }
    match handle_get(&state, None, Some("text/event-stream"), Some(&sid)) {
        GetAction::NotFound => {},
        _ => panic!("expected not-found"),
    }
    match handle_delete(&mut state, None, Some(&sid)) {
        DeleteAction::NotFound => {},
        _ => panic!("expected not-found"),
    }
}

#[test]
fn test_post_unknown_tool_is_error_envelope() {
    // POST tools/call with an unregistered tool: a success envelope whose
    // payload carries the failure flag.
    let mut state = AppState::new();
    let body =
        r#"{"jsonrpc":"2.0","id":5,"method":"tools/call","params":{"name":"bogus_tool","arguments":{}}}"#;
    let resp = match handle_post(&mut state, None, body) {
        PostAction::Reply(resp) => resp,
        _ => panic!("expected a direct reply"),
    };
    match resp.id {
        Some(JsonValue::Num(ref n)) => assert_eq!(n, "5"),
        _ => panic!("expected the echoed id"),
    }
    assert!(resp.error.is_none());
    let result = resp.result.unwrap();
    assert!(matches!(get_field(&result, "isError"), Some(JsonValue::Bool(true))));
    let content = match get_field(&result, "content") {
        Some(JsonValue::Arr(items)) => items,
        _ => panic!("content is not a list"),
    };
    assert!(as_text(get_field(&content[0], "text").unwrap()).contains("Unknown tool: bogus_tool"));
}

#[test]
fn test_post_evil_origin_rejected_before_dispatch() {
    // A disallowed origin is rejected with no session store change.
    let mut state = AppState::new();
    let body = r#"{"jsonrpc":"2.0","id":1,"method":"initialize","params":{}}"#;
    match handle_post(&mut state, Some("https://evil.example"), body) {
        PostAction::Forbidden => {},
        _ => panic!("expected a forbidden answer"),
    }
    assert_eq!(state.sessions.len(), 0);
}

#[test]
fn test_post_parse_error() {
    let mut state = AppState::new();
    let resp = match handle_post(&mut state, None, "{nope") {
        PostAction::BadRequest(resp) => resp,
        _ => panic!("expected a bad request"),
    };
    assert!(resp.id.is_none());
    assert_eq!(resp.error.unwrap().code, -32700);
    assert_eq!(state.sessions.len(), 0);
}

#[test]
fn test_post_invalid_params() {
    // tools/call with arguments that do not fit the tool's schema
    let mut state = AppState::new();
    let body =
        r#"{"jsonrpc":"2.0","id":6,"method":"tools/call","params":{"name":"docker_exec","arguments":{"container_id":"abc"}}}"#;
    let resp = match handle_post(&mut state, None, body) {
        PostAction::Reply(resp) => resp,
        _ => panic!("expected a direct reply"),
    };
    assert_eq!(resp.error.unwrap().code, -32602);
}

#[test]
fn test_post_tool_invocation_carries_args() {
    let mut state = AppState::new();
    let body =
        r#"{"jsonrpc":"2.0","id":7,"method":"tools/call","params":{"name":"docker_stop","arguments":{"container_id":"c1"}}}"#;
    match handle_post(&mut state, None, body) {
        PostAction::Invoke(id, docker_agent::tools::DockerTool::DockerStop(args)) => {
            assert!(matches!(id, Some(JsonValue::Num(ref n)) if n == "7"));
            assert_eq!(args.container_id, "c1");
        },
        _ => panic!("expected a stop invocation"),
    }
}

#[test]
fn test_get_requires_event_stream_accept() {
    let mut state = AppState::new();
    let (sid, _resp) = post_initialize(&mut state);
    match handle_get(&state, None, Some("application/json"), Some(&sid)) {
        GetAction::NotAcceptable => {},
        _ => panic!("expected not-acceptable"),
    }
    match handle_get(&state, None, None, Some(&sid)) {
        GetAction::NotAcceptable => {},
        _ => panic!("expected not-acceptable"),
    }
}

#[test]
fn test_get_requires_session_header() {
    let state = AppState::new();
    match handle_get(&state, None, Some("text/event-stream"), None) {
        GetAction::MissingSession => {},
        _ => panic!("expected missing-session"),
    }
}

#[test]
fn test_delete_requires_session_header() {
    let mut state = AppState::new();
    match handle_delete(&mut state, None, None) {
        DeleteAction::MissingSession => {},
        _ => panic!("expected missing-session"),
    }
}

#[test]
fn test_two_subscribers_independent() {
    // a late subscriber does not see events published before it subscribed
    let mut state = AppState::new();
    let (sid, _resp) = post_initialize(&mut state);
    let mut early = match handle_get(&state, None, Some("text/event-stream"), Some(&sid)) {
        GetAction::Stream(rx) => rx,
        _ => panic!("expected a stream"),
    };
    let tx = state.get_session(&sid).unwrap();
    tx.send(SseMessage { event_id: "e1".to_string(), data: "one".to_string() }).unwrap();
    let mut late = match handle_get(&state, None, Some("text/event-stream"), Some(&sid)) {
        GetAction::Stream(rx) => rx,
        _ => panic!("expected a stream"),
    };
    tx.send(SseMessage { event_id: "e2".to_string(), data: "two".to_string() }).unwrap();
    assert_eq!(early.try_recv().unwrap().data, "one");
    assert_eq!(early.try_recv().unwrap().data, "two");
    assert_eq!(late.try_recv().unwrap().data, "two");
    assert!(late.try_recv().is_err());
}

#[test]
fn test_lagging_subscriber_loses_oldest() {
    // with a capacity of one, a slow subscriber loses the oldest message
    // and goes on; the publisher is never blocked
    let mut state = AppState::new();
    state.channel_capacity = 1;
    let sid = state.create_session();
    let mut rx = state.subscribe(&sid).unwrap();
    let tx = state.get_session(&sid).unwrap();
    tx.send(SseMessage { event_id: "e1".to_string(), data: "one".to_string() }).unwrap();
    tx.send(SseMessage { event_id: "e2".to_string(), data: "two".to_string() }).unwrap();
    assert!(rx.try_recv().is_err());
    assert_eq!(rx.try_recv().unwrap().data, "two");
}
