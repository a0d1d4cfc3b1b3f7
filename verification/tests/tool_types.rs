//! Tests for the tool argument and result types and their documents.

use docker_agent::containers::split_volume_mount;
use docker_agent::json::get_field;
use docker_agent::json::json_to_string;
use docker_agent::json::uint_to_json;
use docker_agent::json::JsonValue;
use docker_agent::tools::docker_exec_args_from_json;
use docker_agent::tools::docker_logs_args_from_json;
use docker_agent::tools::docker_run_args_from_json;
use docker_agent::tools::docker_stop_args_from_json;
use docker_agent::tools::DockerLogsResult;
use docker_agent::tools::DockerRunArgs;
use docker_agent::tools::DockerRunResult;
use docker_agent::tools::DockerTool;
use docker_agent::tools::ToolResult;

fn jstr(s: &str) -> JsonValue {
    JsonValue::Str(s.to_string())
}

fn jarr(items: Vec<&str>) -> JsonValue {
    JsonValue::Arr(items.into_iter().map(|s| jstr(s)).collect())
}

fn obj(fields: Vec<(&str, JsonValue)>) -> JsonValue {
    JsonValue::Obj(fields.into_iter().map(|(k, v)| (k.to_string(), v)).collect())
}

fn field<'a>(v: &'a JsonValue, key: &str) -> &'a JsonValue {
    get_field(v, key).expect("missing field")
}

fn as_text(v: &JsonValue) -> &str {
    match v {
        JsonValue::Str(s) => s.as_str(),
        _ => panic!("not a string"),
    }
}

fn texts(v: &JsonValue) -> Vec<String> {
    match v {
        JsonValue::Arr(items) => items.iter().map(|x| as_text(x).to_string()).collect(),
        _ => panic!("not a list"),
    }
}

#[test]
fn test_docker_run_args_serialize_minimal() {
    let args = DockerRunArgs {
        image: "ubuntu:latest".to_string(),
        command: None,
        env_vars: vec![],
        volume_mounts: vec![],
        name: None,
    };

    let json = args.to_json();
    assert_eq!(as_text(field(&json, "image")), "ubuntu:latest");
    // Optional fields should be skipped when empty/None
    assert!(get_field(&json, "command").is_none());
    assert!(get_field(&json, "name").is_none());
}

#[test]
fn test_docker_run_args_serialize_full() {
    let args = DockerRunArgs {
        image: "nginx:alpine".to_string(),
        command: Some(vec!["nginx".to_string(), "-g".to_string()]),
        env_vars: vec!["PORT=8080".to_string()],
        volume_mounts: vec!["/host:/container".to_string()],
        name: Some("my-nginx".to_string()),
    };

    let json = args.to_json();
    assert_eq!(as_text(field(&json, "image")), "nginx:alpine");
    assert_eq!(texts(field(&json, "command")), vec!["nginx", "-g"]);
    assert_eq!(texts(field(&json, "env_vars")), vec!["PORT=8080"]);
    assert_eq!(texts(field(&json, "volume_mounts")), vec!["/host:/container"]);
    assert_eq!(as_text(field(&json, "name")), "my-nginx");
}

#[test]
fn test_docker_run_args_deserialize() {
    let json = obj(vec![
        ("image", jstr("redis:7")),
        ("command", jarr(vec!["redis-server"])),
        ("env_vars", jarr(vec!["REDIS_PORT=6379"])),
        ("volume_mounts", jarr(vec!["/data:/data"])),
        ("name", jstr("my-redis")),
    ]);

    let args = docker_run_args_from_json(&json).unwrap();
    assert_eq!(args.image, "redis:7");
    assert_eq!(args.command, Some(vec!["redis-server".to_string()]));
    assert_eq!(args.env_vars, vec!["REDIS_PORT=6379"]);
    assert_eq!(args.volume_mounts, vec!["/data:/data"]);
    assert_eq!(args.name, Some("my-redis".to_string()));
}

#[test]
fn test_docker_logs_args_deserialize_minimal() {
    let json = obj(vec![
        ("container_id", jstr("abc123")),
        ("since", JsonValue::Null),
        ("tail_lines", JsonValue::Null),
        ("stdout", JsonValue::Null),
        ("stderr", JsonValue::Null),
    ]);

    let args = docker_logs_args_from_json(&json).unwrap();
    assert_eq!(args.container_id, "abc123");
    assert!(args.since.is_none());
    assert!(args.tail_lines.is_none());
    assert!(args.stdout.is_none());
    assert!(args.stderr.is_none());
}

#[test]
fn test_docker_logs_args_deserialize_full() {
    let json = obj(vec![
        ("container_id", jstr("abc123")),
        ("since", jstr("2024-01-01T00:00:00Z")),
        ("tail_lines", uint_to_json(100)),
        ("stdout", JsonValue::Bool(true)),
        ("stderr", JsonValue::Bool(false)),
    ]);

    let args = docker_logs_args_from_json(&json).unwrap();
    assert_eq!(args.container_id, "abc123");
    assert_eq!(args.since, Some("2024-01-01T00:00:00Z".to_string()));
    assert_eq!(args.tail_lines, Some(100));
    assert_eq!(args.stdout, Some(true));
    assert_eq!(args.stderr, Some(false));
}

#[test]
fn test_docker_exec_args() {
    let json = obj(vec![("container_id", jstr("xyz789")), ("command", jstr("ls -la"))]);

    let args = docker_exec_args_from_json(&json).unwrap();
    assert_eq!(args.container_id, "xyz789");
    assert_eq!(args.command, "ls -la");
}

#[test]
fn test_docker_stop_args() {
    let json = obj(vec![("container_id", jstr("stop-me"))]);

    let args = docker_stop_args_from_json(&json).unwrap();
    assert_eq!(args.container_id, "stop-me");
}

#[test]
fn test_tool_result_serialize() {
    let result = ToolResult {
        success: true,
        output: "Command executed".to_string(),
        error: None,
    };

    let json = result.to_json();
    assert!(matches!(field(&json, "success"), JsonValue::Bool(true)));
    assert_eq!(as_text(field(&json, "output")), "Command executed");
    assert!(get_field(&json, "error").is_none());
}

#[test]
fn test_tool_result_with_error() {
    let result = ToolResult {
        success: false,
        output: "".to_string(),
        error: Some("Container not found".to_string()),
    };

    let json = result.to_json();
    assert!(matches!(field(&json, "success"), JsonValue::Bool(false)));
    assert_eq!(as_text(field(&json, "error")), "Container not found");
}

#[test]
fn test_docker_run_result() {
    let result = DockerRunResult {
        success: true,
        container_id: "abc123def".to_string(),
        message: "Container started".to_string(),
    };

    let json = result.to_json();
    assert!(matches!(field(&json, "success"), JsonValue::Bool(true)));
    assert_eq!(as_text(field(&json, "container_id")), "abc123def");
    assert_eq!(as_text(field(&json, "message")), "Container started");
}

#[test]
fn test_docker_logs_result() {
    let result = DockerLogsResult {
        success: true,
        stdout: vec!["line1".to_string(), "line2".to_string()],
        stderr: vec!["error1".to_string()],
        timestamp: Some("2024-01-01T12:00:00Z".to_string()),
    };

    let json = result.to_json();
    assert!(matches!(field(&json, "success"), JsonValue::Bool(true)));
    assert_eq!(texts(field(&json, "stdout")), vec!["line1", "line2"]);
    assert_eq!(texts(field(&json, "stderr")), vec!["error1"]);
    assert_eq!(as_text(field(&json, "timestamp")), "2024-01-01T12:00:00Z");
}

#[test]
fn test_docker_tool_enum_deserialize() {
    let json = obj(vec![
        ("name", jstr("docker_exec")),
        (
            "arguments",
            obj(vec![("container_id", jstr("test123")), ("command", jstr("whoami"))]),
        ),
    ]);

    let tool = DockerTool::from_json(&json).unwrap();
    match tool {
        DockerTool::DockerExec(args) => {
            assert_eq!(args.container_id, "test123");
            assert_eq!(args.command, "whoami");
        },
        _ => panic!("Expected DockerExec variant"),
    }
}

#[test]
fn test_docker_list_variant() {
    let json = obj(vec![("name", jstr("docker_list"))]);

    let tool = DockerTool::from_json(&json).unwrap();
    assert!(matches!(tool, DockerTool::DockerList));
}

#[test]
fn test_docker_run_schema_has_required_image() {
    let schema = run_schema();
    assert_eq!(texts(field(&schema, "required")), vec!["image"]);
}

#[test]
fn test_docker_run_schema_properties() {
    let schema = run_schema();
    let props = field(&schema, "properties");

    assert!(get_field(props, "image").is_some());
    assert!(get_field(props, "command").is_some());
    assert!(get_field(props, "env_vars").is_some());
    assert!(get_field(props, "volume_mounts").is_some());
    assert!(get_field(props, "name").is_some());
}

fn schema_of(tool: &str) -> JsonValue {
    let response = docker_agent::dispatch::handle_tools_list(None);
    let result = response.result.unwrap();
    let tools = match get_field(&result, "tools") {
        Some(JsonValue::Arr(items)) => items.clone(),
        _ => panic!("tools is not a list"),
    };
    for t in tools {
        if as_text(field(&t, "name")) == tool {
            return docker_agent::json::clone_json(field(&t, "inputSchema"));
        }
    }
    panic!("tool not in catalog");
}

fn run_schema() -> JsonValue {
    schema_of("docker_run")
}

#[test]
fn test_docker_logs_schema() {
    let schema = schema_of("docker_logs");
    assert_eq!(as_text(field(&schema, "type")), "object");
    let props = field(&schema, "properties");
    assert!(get_field(props, "container_id").is_some());
    assert_eq!(as_text(field(field(props, "tail_lines"), "type")), "integer");
    assert_eq!(as_text(field(field(props, "stdout"), "type")), "boolean");
    assert_eq!(texts(field(&schema, "required")), vec!["container_id"]);
}

#[test]
fn test_docker_exec_schema() {
    let schema = schema_of("docker_exec");
    assert_eq!(as_text(field(&schema, "type")), "object");
    let required = texts(field(&schema, "required"));
    assert!(required.contains(&"container_id".to_string()));
    assert!(required.contains(&"command".to_string()));
}

#[test]
fn test_docker_stop_schema() {
    let schema = schema_of("docker_stop");
    assert_eq!(texts(field(&schema, "required")), vec!["container_id"]);
}

#[test]
fn test_docker_list_schema_empty() {
    let schema = schema_of("docker_list");
    assert_eq!(as_text(field(&schema, "type")), "object");
    match field(&schema, "properties") {
        JsonValue::Obj(fields) => assert!(fields.is_empty()),
        _ => panic!("properties is not an object"),
    }
    assert!(get_field(&schema, "required").is_none());
}

#[test]
fn test_parse_volume_mount_simple() {
    let mount = "/host/path:/container/path";
    let (host, container) = split_volume_mount(mount).unwrap();

    assert_eq!(host, "/host/path");
    assert_eq!(container, "/container/path");
}

#[test]
fn test_parse_volume_mount_with_colon_in_path() {
    // Windows-style path or path with colon
    let mount = "C:/Users/test:/app";
    let (host, container) = split_volume_mount(mount).unwrap();

    assert_eq!(host, "C");
    assert_eq!(container, "/Users/test:/app");
}

#[test]
fn test_parse_volume_mount_invalid() {
    let mount = "invalid-no-colon";
    assert!(split_volume_mount(mount).is_none());
}

#[test]
fn test_run_args_missing_image_rejected() {
    let json = obj(vec![
        ("command", jarr(vec!["sh"])),
        ("env_vars", jarr(vec![])),
        ("volume_mounts", jarr(vec![])),
    ]);
    assert!(docker_run_args_from_json(&json).is_none());
}

#[test]
fn test_logs_args_bad_tail_rejected() {
    let json = obj(vec![
        ("container_id", jstr("abc")),
        ("tail_lines", jstr("ten")),
    ]);
    assert!(docker_logs_args_from_json(&json).is_none());
    let too_big = obj(vec![
        ("container_id", jstr("abc")),
        ("tail_lines", JsonValue::Num("99999999999999999999999".to_string())),
    ]);
    assert!(docker_logs_args_from_json(&too_big).is_none());
}

#[test]
fn test_run_config_splits_mounts() {
    let args = DockerRunArgs {
        image: "alpine".to_string(),
        command: None,
        env_vars: vec![],
        volume_mounts: vec!["/a:/b".to_string(), "no-colon".to_string()],
        name: None,
    };
    let config = docker_agent::dispatch::docker_run_config(args);
    assert_eq!(config.volume_mounts, vec![("/a".to_string(), "/b".to_string())]);
}

#[test]
fn test_logs_query_parses_since() {
    let args = docker_agent::tools::DockerLogsArgs {
        container_id: "abc".to_string(),
        since: Some("2024-01-01T00:00:00Z".to_string()),
        tail_lines: None,
        stdout: None,
        stderr: None,
    };
    let query = docker_agent::dispatch::docker_logs_query(args);
    assert_eq!(query.since, Some(1704067200));
    assert!(query.include_stdout);
    assert!(query.include_stderr);
}

#[test]
fn test_render_docker_logs_formats_timestamp() {
    let logs = docker_agent::containers::LogsOutput {
        stdout: vec!["line1".to_string()],
        stderr: vec![],
        timestamp: Some(1704067200),
    };
    let text = docker_agent::dispatch::render_docker_logs(logs);
    let parsed = docker_agent::parse::parse_json_text(&text).unwrap();
    assert_eq!(as_text(field(&parsed, "timestamp")), "2024-01-01T00:00:00Z");
    assert_eq!(texts(field(&parsed, "stdout")), vec!["line1"]);
}

#[test]
fn test_render_docker_list() {
    let containers = vec![docker_agent::containers::ContainerState {
        id: "abc".to_string(),
        name: "web".to_string(),
        image: "nginx".to_string(),
        started_at: 1704067200,
        status: docker_agent::containers::ContainerStatus::Running,
    }];
    let text = docker_agent::dispatch::render_docker_list(&containers);
    let parsed = docker_agent::parse::parse_json_text(&text).unwrap();
    let list = match field(&parsed, "containers") {
        JsonValue::Arr(items) => items.clone(),
        _ => panic!("containers is not a list"),
    };
    assert_eq!(list.len(), 1);
    assert_eq!(as_text(field(&list[0], "status")), "running");
    assert_eq!(as_text(field(&list[0], "started_at")), "2024-01-01T00:00:00Z");
}

#[test]
fn test_docker_tool_enum_serialize() {
    let tool = DockerTool::DockerRun(DockerRunArgs {
        image: "alpine".to_string(),
        command: None,
        env_vars: vec![],
        volume_mounts: vec![],
        name: None,
    });

    let json = tool.to_json();
    assert_eq!(as_text(field(&json, "name")), "docker_run");
    assert_eq!(as_text(field(field(&json, "arguments"), "image")), "alpine");
}

#[test]
fn test_tool_json_agrees_with_serde() {
    let tool = DockerTool::DockerStop(docker_agent::tools::DockerStopArgs {
        container_id: "abc".to_string(),
    });
    let text = json_to_string(&tool.to_json());
    let parsed: serde_json::Value = serde_json::from_str(&text).unwrap();
    assert_eq!(parsed["name"], "docker_stop");
    assert_eq!(parsed["arguments"]["container_id"], "abc");
}
