//! Tests for the JSON-RPC envelope, the dispatcher, and the wire codec.

use docker_agent::dispatch::handle_initialize;
use docker_agent::dispatch::handle_line;
use docker_agent::dispatch::handle_tools_list;
use docker_agent::dispatch::RoutePlan;
use docker_agent::json::get_field;
use docker_agent::json::int_to_json;
use docker_agent::json::json_to_string;
use docker_agent::json::JsonValue;
use docker_agent::parse::parse_json_text;
use docker_agent::rpc::request_from_json;
use docker_agent::rpc::JsonRpcResponse;

fn jstr(s: &str) -> JsonValue {
    JsonValue::Str(s.to_string())
}

fn obj(fields: Vec<(&str, JsonValue)>) -> JsonValue {
    JsonValue::Obj(fields.into_iter().map(|(k, v)| (k.to_string(), v)).collect())
}

fn field<'a>(v: &'a JsonValue, key: &str) -> &'a JsonValue {
    get_field(v, key).expect("missing field")
}

fn as_text(v: &JsonValue) -> &str {
    match v {
        JsonValue::Str(s) => s.as_str(),
        _ => panic!("not a string"),
    }
}

fn num_text(v: &JsonValue) -> &str {
    match v {
        JsonValue::Num(s) => s.as_str(),
        _ => panic!("not a number"),
    }
}

#[test]
fn test_json_rpc_response_success() {
    let response = JsonRpcResponse::success(
        Some(int_to_json(1)),
        obj(vec![("result", jstr("ok"))]),
    );

    assert_eq!(response.jsonrpc, "2.0");
    assert_eq!(num_text(response.id.as_ref().unwrap()), "1");
    let result = response.result.as_ref().unwrap();
    assert_eq!(as_text(field(result, "result")), "ok");
    assert!(response.error.is_none());
}

#[test]
fn test_json_rpc_response_error() {
    let response = JsonRpcResponse::error(Some(int_to_json(2)), -32600, "Invalid Request");

    assert_eq!(response.jsonrpc, "2.0");
    assert_eq!(num_text(response.id.as_ref().unwrap()), "2");
    assert!(response.result.is_none());

    let error = response.error.unwrap();
    assert_eq!(error.code, -32600);
    assert_eq!(error.message, "Invalid Request");
}

#[test]
fn test_json_rpc_request_parse() {
    let json_str = r#"{"jsonrpc":"2.0","id":1,"method":"initialize","params":{}}"#;
    let doc = parse_json_text(json_str).unwrap();
    let request = request_from_json(&doc).unwrap();

    assert_eq!(request.jsonrpc, "2.0");
    assert_eq!(num_text(request.id.as_ref().unwrap()), "1");
    assert_eq!(request.method, "initialize");
}

#[test]
fn test_json_rpc_request_parse_no_params() {
    let json_str = r#"{"jsonrpc":"2.0","id":1,"method":"ping"}"#;
    let doc = parse_json_text(json_str).unwrap();
    let request = request_from_json(&doc).unwrap();

    assert_eq!(request.method, "ping");
    assert!(matches!(request.params, JsonValue::Null));
}

#[test]
fn test_json_rpc_request_parse_string_id() {
    let json_str = r#"{"jsonrpc":"2.0","id":"request-1","method":"tools/list"}"#;
    let doc = parse_json_text(json_str).unwrap();
    let request = request_from_json(&doc).unwrap();

    assert_eq!(as_text(request.id.as_ref().unwrap()), "request-1");
    assert_eq!(request.method, "tools/list");
}

#[test]
fn test_handle_initialize() {
    let response = handle_initialize(Some(int_to_json(1)));

    assert_eq!(response.jsonrpc, "2.0");
    assert_eq!(num_text(response.id.as_ref().unwrap()), "1");
    assert!(response.error.is_none());

    let result = response.result.unwrap();
    assert_eq!(as_text(field(&result, "protocolVersion")), "2024-11-05");
    assert!(matches!(field(field(&result, "capabilities"), "tools"), JsonValue::Obj(_)));
    assert_eq!(as_text(field(field(&result, "serverInfo"), "name")), "docker-agent");
}

#[test]
fn test_handle_initialize_null_id() {
    let response = handle_initialize(None);

    assert!(response.id.is_none());
    assert!(response.result.is_some());
}

fn tool_names(result: &JsonValue) -> Vec<String> {
    let tools = match field(result, "tools") {
        JsonValue::Arr(items) => items,
        _ => panic!("tools is not a list"),
    };
    tools.iter().map(|t| as_text(field(t, "name")).to_string()).collect()
}

#[test]
fn test_handle_tools_list() {
    let response = handle_tools_list(Some(int_to_json(2)));

    assert_eq!(response.jsonrpc, "2.0");
    assert_eq!(num_text(response.id.as_ref().unwrap()), "2");
    assert!(response.error.is_none());

    let result = response.result.unwrap();
    let names = tool_names(&result);
    assert_eq!(names.len(), 5);
    assert!(names.contains(&"docker_run".to_string()));
    assert!(names.contains(&"docker_logs".to_string()));
    assert!(names.contains(&"docker_exec".to_string()));
    assert!(names.contains(&"docker_stop".to_string()));
    assert!(names.contains(&"docker_list".to_string()));
}

#[test]
fn test_handle_tools_list_schema_structure() {
    let response = handle_tools_list(Some(int_to_json(1)));
    let result = response.result.unwrap();
    let tools = match field(&result, "tools") {
        JsonValue::Arr(items) => items,
        _ => panic!("tools is not a list"),
    };

    let docker_run = tools
        .iter()
        .find(|t| as_text(field(t, "name")) == "docker_run")
        .unwrap();

    assert!(get_field(docker_run, "description").is_some());
    assert!(get_field(docker_run, "inputSchema").is_some());

    let schema = field(docker_run, "inputSchema");
    assert_eq!(as_text(field(schema, "type")), "object");
    assert!(matches!(field(field(schema, "properties"), "image"), JsonValue::Obj(_)));
    match field(schema, "required") {
        JsonValue::Arr(items) => {
            assert_eq!(items.len(), 1);
            assert_eq!(as_text(&items[0]), "image");
        },
        _ => panic!("required is not a list"),
    }
}

#[test]
fn test_json_rpc_response_serialization() {
    let response = JsonRpcResponse::success(
        Some(int_to_json(1)),
        obj(vec![("status", jstr("ok"))]),
    );
    let json_str = json_to_string(&response.to_json());

    let parsed = parse_json_text(&json_str).unwrap();
    assert_eq!(as_text(field(&parsed, "jsonrpc")), "2.0");
    assert_eq!(num_text(field(&parsed, "id")), "1");
    assert_eq!(as_text(field(field(&parsed, "result"), "status")), "ok");
    // error should not be present (absent fields are skipped)
    assert!(get_field(&parsed, "error").is_none());
}

#[test]
fn test_json_rpc_error_serialization() {
    let response = JsonRpcResponse::error(Some(int_to_json(1)), -32601, "Method not found");
    let json_str = json_to_string(&response.to_json());

    let parsed = parse_json_text(&json_str).unwrap();
    let error = field(&parsed, "error");
    assert_eq!(num_text(field(error, "code")), "-32601");
    assert_eq!(as_text(field(error, "message")), "Method not found");
    // result should not be present
    assert!(get_field(&parsed, "result").is_none());
}

#[test]
fn test_response_serialization_agrees_with_serde() {
    let response = JsonRpcResponse::error(Some(int_to_json(7)), -32601, "Method not found");
    let json_str = json_to_string(&response.to_json());

    let parsed: serde_json::Value = serde_json::from_str(&json_str).unwrap();
    assert_eq!(parsed["jsonrpc"], "2.0");
    assert_eq!(parsed["id"], 7);
    assert_eq!(parsed["error"]["code"], -32601);
    assert!(parsed.get("result").is_none());
}

#[test]
fn test_parse_invalid_json() {
    assert!(parse_json_text("not valid json").is_none());
}

#[test]
fn test_parse_missing_required_fields() {
    // Missing method field
    let doc = parse_json_text(r#"{"jsonrpc":"2.0","id":1}"#).unwrap();
    assert!(request_from_json(&doc).is_none());
}

#[test]
fn test_initialize_request_format() {
    let request = obj(vec![
        ("jsonrpc", jstr("2.0")),
        ("id", int_to_json(1)),
        ("method", jstr("initialize")),
        (
            "params",
            obj(vec![
                ("protocolVersion", jstr("2024-11-05")),
                ("capabilities", obj(vec![])),
                (
                    "clientInfo",
                    obj(vec![("name", jstr("test-client")), ("version", jstr("1.0.0"))]),
                ),
            ]),
        ),
    ]);
    let text = json_to_string(&request);

    let parsed = parse_json_text(&text).unwrap();
    assert_eq!(as_text(field(&parsed, "jsonrpc")), "2.0");
    assert_eq!(num_text(field(&parsed, "id")), "1");
    assert_eq!(as_text(field(&parsed, "method")), "initialize");
}

#[test]
fn test_tools_list_request_format() {
    let request = obj(vec![
        ("jsonrpc", jstr("2.0")),
        ("id", int_to_json(2)),
        ("method", jstr("tools/list")),
    ]);
    let text = json_to_string(&request);

    let parsed = parse_json_text(&text).unwrap();
    assert_eq!(as_text(field(&parsed, "method")), "tools/list");
}

#[test]
fn test_tools_call_request_format() {
    let request = obj(vec![
        ("jsonrpc", jstr("2.0")),
        ("id", int_to_json(3)),
        ("method", jstr("tools/call")),
        (
            "params",
            obj(vec![
                ("name", jstr("docker_run")),
                ("arguments", obj(vec![("image", jstr("alpine:latest"))])),
            ]),
        ),
    ]);
    let text = json_to_string(&request);

    let parsed = parse_json_text(&text).unwrap();
    assert_eq!(as_text(field(&parsed, "method")), "tools/call");
    let params = field(&parsed, "params");
    assert_eq!(as_text(field(params, "name")), "docker_run");
    assert_eq!(as_text(field(field(params, "arguments"), "image")), "alpine:latest");
}

#[test]
fn test_ping_request_format() {
    let request = obj(vec![
        ("jsonrpc", jstr("2.0")),
        ("id", int_to_json(4)),
        ("method", jstr("ping")),
    ]);
    let text = json_to_string(&request);

    let parsed = parse_json_text(&text).unwrap();
    assert_eq!(as_text(field(&parsed, "method")), "ping");
}

#[test]
fn test_success_response_format() {
    let response = obj(vec![
        ("jsonrpc", jstr("2.0")),
        ("id", int_to_json(1)),
        (
            "result",
            obj(vec![
                ("protocolVersion", jstr("2024-11-05")),
                ("capabilities", obj(vec![("tools", obj(vec![]))])),
                (
                    "serverInfo",
                    obj(vec![("name", jstr("docker-agent")), ("version", jstr("0.1.0"))]),
                ),
            ]),
        ),
    ]);
    let text = json_to_string(&response);

    let parsed = parse_json_text(&text).unwrap();
    assert_eq!(as_text(field(&parsed, "jsonrpc")), "2.0");
    assert!(get_field(&parsed, "result").is_some());
    assert!(get_field(&parsed, "error").is_none());
}

#[test]
fn test_error_response_format() {
    let response = JsonRpcResponse::error(Some(int_to_json(1)), -32601, "Method not found");
    let text = json_to_string(&response.to_json());

    let parsed = parse_json_text(&text).unwrap();
    assert_eq!(as_text(field(&parsed, "jsonrpc")), "2.0");
    assert!(get_field(&parsed, "result").is_none());
    assert!(get_field(&parsed, "error").is_some());
    assert_eq!(num_text(field(field(&parsed, "error"), "code")), "-32601");
}

#[test]
fn test_tool_call_success_response() {
    let inner = "{\"success\":true,\"container_id\":\"abc123\"}";
    let response = obj(vec![
        ("jsonrpc", jstr("2.0")),
        ("id", int_to_json(3)),
        (
            "result",
            obj(vec![(
                "content",
                JsonValue::Arr(vec![obj(vec![("type", jstr("text")), ("text", jstr(inner))])]),
            )]),
        ),
    ]);
    let text = json_to_string(&response);

    let parsed = parse_json_text(&text).unwrap();
    let content = match field(field(&parsed, "result"), "content") {
        JsonValue::Arr(items) => &items[0],
        _ => panic!("content is not a list"),
    };
    assert_eq!(as_text(field(content, "type")), "text");

    // Parse the inner JSON
    let inner_parsed = parse_json_text(as_text(field(content, "text"))).unwrap();
    assert!(matches!(field(&inner_parsed, "success"), JsonValue::Bool(true)));
    assert_eq!(as_text(field(&inner_parsed, "container_id")), "abc123");
}

#[test]
fn test_tool_call_error_response() {
    let response = docker_agent::dispatch::finish_tools_call(
        Some(int_to_json(3)),
        Err("Container not found".to_string()),
    );
    let text = json_to_string(&response.to_json());

    let parsed = parse_json_text(&text).unwrap();
    let result = field(&parsed, "result");
    assert!(matches!(field(result, "isError"), JsonValue::Bool(true)));
    let content = match field(result, "content") {
        JsonValue::Arr(items) => &items[0],
        _ => panic!("content is not a list"),
    };
    assert!(as_text(field(content, "text")).contains("Error"));
}

#[test]
fn test_parse_error_code() {
    // Invalid JSON was received
    assert_eq!(docker_agent::rpc::PARSE_ERROR, -32700);
}

#[test]
fn test_invalid_request_code() {
    // JSON is not a valid Request object
    assert_eq!(docker_agent::rpc::INVALID_REQUEST, -32600);
}

#[test]
fn test_method_not_found_code() {
    // Method does not exist
    assert_eq!(docker_agent::rpc::METHOD_NOT_FOUND, -32601);
}

#[test]
fn test_invalid_params_code() {
    // Invalid method parameters
    assert_eq!(docker_agent::rpc::INVALID_PARAMS, -32602);
}

#[test]
fn test_internal_error_code() {
    // Internal JSON-RPC error
    assert_eq!(docker_agent::rpc::INTERNAL_ERROR, -32603);
}

#[test]
fn test_handle_line_blank() {
    assert!(handle_line("").is_none());
}

#[test]
fn test_handle_line_parse_error() {
    match handle_line("not valid json") {
        Some(RoutePlan::Reply(resp)) => {
            assert!(resp.id.is_none());
            assert_eq!(resp.error.unwrap().code, -32700);
        },
        _ => panic!("expected a parse error reply"),
    }
}

#[test]
fn test_handle_line_method_not_found() {
    match handle_line(r#"{"jsonrpc":"2.0","id":9,"method":"resources/list"}"#) {
        Some(RoutePlan::Reply(resp)) => {
            assert_eq!(num_text(resp.id.as_ref().unwrap()), "9");
            assert_eq!(resp.error.unwrap().code, -32601);
        },
        _ => panic!("expected a method-not-found reply"),
    }
}

#[test]
fn test_handle_line_ping() {
    match handle_line(r#"{"jsonrpc":"2.0","id":4,"method":"ping"}"#) {
        Some(RoutePlan::Reply(resp)) => {
            assert_eq!(num_text(resp.id.as_ref().unwrap()), "4");
            assert!(resp.error.is_none());
            assert!(matches!(resp.result, Some(JsonValue::Obj(ref fields)) if fields.is_empty()));
        },
        _ => panic!("expected a ping reply"),
    }
}

#[test]
fn test_string_escapes_round_trip() {
    let text = "{\"jsonrpc\":\"2.0\",\"id\":\"a\\nb\\u0041\",\"method\":\"ping\"}";
    let doc = parse_json_text(text).unwrap();
    let request = request_from_json(&doc).unwrap();
    assert_eq!(as_text(request.id.as_ref().unwrap()), "a\nbA");

    let rendered = json_to_string(&jstr("a\nbA"));
    assert_eq!(rendered, "\"a\\u000abA\"");
    match parse_json_text(&rendered).unwrap() {
        JsonValue::Str(s) => assert_eq!(s, "a\nbA"),
        _ => panic!("expected a string"),
    }
}

#[test]
fn test_number_id_echoed_exactly() {
    let doc = parse_json_text(r#"{"jsonrpc":"2.0","id":1.50e2,"method":"ping"}"#).unwrap();
    let request = request_from_json(&doc).unwrap();
    // the id keeps its literal token text, byte for byte
    assert_eq!(num_text(request.id.as_ref().unwrap()), "1.50e2");
}
