//! The protocol dispatcher.
//!
//! A request is routed by method name to one of `initialize`,
//! `tools/list`, `tools/call` and `ping`; any other method is answered
//! with a method-not-found error.  A `tools/call` request is further
//! routed by tool name: bad arguments are a params error, an unknown tool
//! is a tool-level failure reported inside a success envelope, and a
//! well-formed invocation is handed to the container backend.  The
//! backend's outcome is rendered here, so everything but the backend call
//! itself is verified.

use crate::containers::ContainerState;
use crate::containers::ContainerStatus;
use crate::containers::LogQuery;
use crate::containers::LogsOutput;
use crate::containers::StartConfig;
use crate::containers::find_char;
use crate::containers::split_volume_mount;
use crate::json::JsonV;
use crate::json::JsonValue;
use crate::json::clone_json;
use crate::json::get_field;
use crate::json::json_get;
use crate::json::jv;
use crate::json::jv_arr;
use crate::json::jv_fields;
use crate::json::jv_obj;
use crate::json::lemma_jv_elems;
use crate::json::push_field;
use crate::json::wf_json;
use crate::json::lemma_wf_elems_all;
use crate::json::lemma_wf_fields_all;
use crate::rpc::INVALID_PARAMS;
use crate::rpc::JsonRpcRequest;
use crate::rpc::JsonRpcResponse;
use crate::rpc::METHOD_NOT_FOUND;
use crate::rpc::PARSE_ERROR;
use crate::rpc::resp_wf;
use crate::tools::DockerLogsArgs;
use crate::tools::DockerRunArgs;
use crate::tools::DockerRunResult;
use crate::tools::DockerTool;
use crate::tools::DockerLogsResult;
use crate::tools::ToolResult;
use crate::tools::ToolV;
use crate::tools::docker_exec_args_from_json;
use crate::tools::docker_logs_args_from_json;
use crate::tools::docker_run_args_from_json;
use crate::tools::docker_stop_args_from_json;
use crate::tools::exec_args_of;
use crate::tools::logs_args_of;
use crate::tools::logs_result_jv;
use crate::tools::run_args_of;
use crate::tools::stop_args_of;
use crate::tools::strs_view;
use crate::tools::tool_view;
use vstd::prelude::*;
use vstd::string::*;

verus! {

/// What the text of an instant is.  Relied on through
/// `format_rfc3339_secs`; the text depends on the timestamp alone.
pub uninterp spec fn rfc3339_text(t: i64) -> Seq<char>;

/// What an instant text denotes, if anything.  Relied on through
/// `parse_rfc3339_secs`; the instant depends on the text alone.
pub uninterp spec fn rfc3339_secs(s: Seq<char>) -> Option<i64>;

/// Relies on `time::OffsetDateTime::parse` with the well-known RFC 3339
/// format, and `unix_timestamp`: the instant named by the text, as
/// seconds since the Unix epoch, or nothing for text that is not a valid
/// RFC 3339 instant.  The result depends on the text alone.
#[verifier::external_body]
fn parse_rfc3339_secs(s: &str) -> (r: Option<i64>)
    ensures
        r == rfc3339_secs(s@),
{
    match time::OffsetDateTime::parse(s, &time::format_description::well_known::Rfc3339) {
        Ok(d) => Some(d.unix_timestamp()),
        Err(_) => None,
    }
}

/// Relies on `time::OffsetDateTime::from_unix_timestamp` and `format`
/// with the well-known RFC 3339 format: the text of the instant, or an
/// empty string where the timestamp or the formatting is out of range.
/// The result depends on the timestamp alone.
#[verifier::external_body]
fn format_rfc3339_secs(t: i64) -> (r: String)
    ensures
        r@ == rfc3339_text(t),
{
    time::OffsetDateTime::from_unix_timestamp(t)
        .ok()
        .and_then(|d| d.format(&time::format_description::well_known::Rfc3339).ok())
        .unwrap_or_default()
}

/// What the dispatcher decides to do with one request: answer it, or
/// invoke a tool and answer with the rendered outcome.
#[derive(Debug)]
pub enum RoutePlan {
    Reply(JsonRpcResponse),
    Invoke(Option<JsonValue>, DockerTool),
}

/// The tool name of a `tools/call`: the `name` field, or empty.
pub open spec fn tool_call_name(params: JsonV) -> Seq<char> {
    match json_get(params, "name"@) {
        Option::Some(JsonV::Str(s)) => s,
        _ => Seq::empty(),
    }
}

/// The arguments of a `tools/call`: the `arguments` field, or an empty
/// object.
pub open spec fn tool_call_args(params: JsonV) -> JsonV {
    match json_get(params, "arguments"@) {
        Option::Some(a) => a,
        Option::None => JsonV::Obj(Seq::empty()),
    }
}

/// What a `tools/call` resolves to.
pub enum PlanV {
    Invoke(ToolV),
    BadParams,
    Unknown(Seq<char>),
}

/// How a `tools/call` with the given params is resolved: by tool name,
/// then by argument shape.
pub open spec fn tools_call_plan(params: JsonV) -> PlanV {
    let nm = tool_call_name(params);
    let ar = tool_call_args(params);
    if nm == "docker_run"@ {
        match run_args_of(ar) {
            Option::Some(t) => PlanV::Invoke(ToolV::Run(t)),
            Option::None => PlanV::BadParams,
        }
    } else if nm == "docker_logs"@ {
        match logs_args_of(ar) {
            Option::Some(t) => PlanV::Invoke(ToolV::Logs(t)),
            Option::None => PlanV::BadParams,
        }
    } else if nm == "docker_exec"@ {
        match exec_args_of(ar) {
            Option::Some(t) => PlanV::Invoke(ToolV::Exec(t)),
            Option::None => PlanV::BadParams,
        }
    } else if nm == "docker_stop"@ {
        match stop_args_of(ar) {
            Option::Some(cid) => PlanV::Invoke(ToolV::Stop(cid)),
            Option::None => PlanV::BadParams,
        }
    } else if nm == "docker_list"@ {
        PlanV::Invoke(ToolV::List)
    } else {
        PlanV::Unknown(nm)
    }
}

/// The result document of a tool reply: one text content block, with the
/// failure flag set on a tool-level failure.
pub open spec fn tool_reply_jv(text: Seq<char>, is_err: bool) -> JsonV {
    JsonV::Obj(
        seq![
            (
                "content"@,
                JsonV::Arr(
                    seq![
                        JsonV::Obj(
                            seq![("type"@, JsonV::Str("text"@)), ("text"@, JsonV::Str(text))],
                        ),
                    ],
                ),
            ),
        ] + (if is_err {
            seq![("isError"@, JsonV::Bool(true))]
        } else {
            Seq::empty()
        }),
    )
}

/// The success envelope that reports a tool outcome: the output text on
/// success, `Error: ` and the failure text with the failure flag
/// otherwise.
pub fn finish_tools_call(
    id: Option<JsonValue>,
    outcome: Result<String, String>,
) -> (r: JsonRpcResponse)
    ensures
        r.jsonrpc@ == "2.0"@,
        r.id == id,
        r.error is None,
        r.result is Some,
        jv(r.result->0) == (match outcome {
            Result::Ok(c) => tool_reply_jv(c@, false),
            Result::Err(e) => tool_reply_jv("Error: "@ + e@, true),
        }),
        (match id {
            Option::Some(v) => wf_json(jv(v)),
            Option::None => true,
        }) ==> resp_wf(r),
{
    let (text, is_err): (String, bool) = match outcome {
        Result::Ok(c) => (c, false),
        Result::Err(e) => (String::from_str("Error: ").concat(e.as_str()), true),
    };
    let ghost gtext = text@;
    let mut block: Vec<(String, JsonValue)> = Vec::new();
    push_field(&mut block, "type", JsonValue::Str(String::from_str("text")));
    push_field(&mut block, "text", JsonValue::Str(text));
    proof {
        assert(jv_obj(block) =~= seq![
            ("type"@, JsonV::Str("text"@)),
            ("text"@, JsonV::Str(gtext)),
        ]);
    }
    let mut content: Vec<JsonValue> = Vec::new();
    content.push(JsonValue::Obj(block));
    proof {
        lemma_jv_elems(content@, 0);
        assert(jv_arr(content) =~= seq![
            JsonV::Obj(seq![("type"@, JsonV::Str("text"@)), ("text"@, JsonV::Str(gtext))]),
        ]);
    }
    let mut fields: Vec<(String, JsonValue)> = Vec::new();
    push_field(&mut fields, "content", JsonValue::Arr(content));
    if is_err {
        push_field(&mut fields, "isError", JsonValue::Bool(true));
    }
    proof {
        assert(jv_obj(fields) =~= (match tool_reply_jv(gtext, is_err) {
            JsonV::Obj(fs) => fs,
            _ => Seq::empty(),
        }));
    }
    let reply = JsonValue::Obj(fields);
    proof {
        lemma_wf_tool_reply(gtext, is_err);
    }
    JsonRpcResponse::success(id, reply)
}

/// A tool reply document is well-formed.
proof fn lemma_wf_tool_reply(text: Seq<char>, is_err: bool)
    ensures
        wf_json(tool_reply_jv(text, is_err)),
{
    let bf = seq![("type"@, JsonV::Str("text"@)), ("text"@, JsonV::Str(text))];
    assert forall|q: int| 0 <= q < bf.len() implies wf_json(#[trigger] bf[q].1) by {
        if q == 0 {
            assert(bf[q].1 == JsonV::Str("text"@));
        } else {
            assert(bf[q].1 == JsonV::Str(text));
        }
    }
    lemma_wf_fields_all(bf, 0);
    let block = JsonV::Obj(bf);
    let items = seq![block];
    assert forall|q: int| 0 <= q < items.len() implies wf_json(#[trigger] items[q]) by {
        assert(items[q] == block);
    }
    lemma_wf_elems_all(items, 0);
    let tf = (match tool_reply_jv(text, is_err) {
        JsonV::Obj(fs) => fs,
        _ => Seq::empty(),
    });
    assert forall|q: int| 0 <= q < tf.len() implies wf_json(#[trigger] tf[q].1) by {
        if q == 0 {
            assert(tf[q].1 == JsonV::Arr(items));
        } else {
            assert(tf[q].1 == JsonV::Bool(true));
        }
    }
    lemma_wf_fields_all(tf, 0);
}

/// A property of an input schema: a type and a description.
pub open spec fn prop_jv(ty: Seq<char>, desc: Seq<char>) -> JsonV {
    JsonV::Obj(seq![("type"@, JsonV::Str(ty)), ("description"@, JsonV::Str(desc))])
}

/// A string-array property of an input schema.
pub open spec fn arr_prop_jv(desc: Seq<char>) -> JsonV {
    JsonV::Obj(
        seq![
            ("type"@, JsonV::Str("array"@)),
            ("items"@, JsonV::Obj(seq![("type"@, JsonV::Str("string"@))])),
            ("description"@, JsonV::Str(desc)),
        ],
    )
}

/// An object input schema with the given properties and required names.
pub open spec fn schema_jv(props: Seq<(Seq<char>, JsonV)>, required: Option<Seq<Seq<char>>>) -> JsonV {
    JsonV::Obj(
        seq![("type"@, JsonV::Str("object"@)), ("properties"@, JsonV::Obj(props))] + (
        match required {
            Option::Some(names) => seq![
                ("required"@, JsonV::Arr(Seq::new(names.len(), |i: int| JsonV::Str(names[i])))),
            ],
            Option::None => Seq::empty(),
        }),
    )
}

/// One catalog entry: a tool name, a description, and an input schema.
pub open spec fn tool_entry_jv(name: Seq<char>, desc: Seq<char>, schema: JsonV) -> JsonV {
    JsonV::Obj(
        seq![
            ("name"@, JsonV::Str(name)),
            ("description"@, JsonV::Str(desc)),
            ("inputSchema"@, schema),
        ],
    )
}

/// The static catalog of callable tools.
pub open spec fn catalog_jv() -> Seq<JsonV> {
    seq![
        tool_entry_jv(
            "docker_run"@,
            "Start a long-running Docker container"@,
            schema_jv(
                seq![
                    ("image"@, prop_jv("string"@, "Docker image to run"@)),
                    ("command"@, arr_prop_jv("Command to run"@)),
                    ("env_vars"@, arr_prop_jv("Environment variables (KEY=value)"@)),
                    ("volume_mounts"@, arr_prop_jv("Volume mounts (host:container)"@)),
                    ("name"@, prop_jv("string"@, "Container name"@)),
                ],
                Some(seq!["image"@]),
            ),
        ),
        tool_entry_jv(
            "docker_logs"@,
            "Fetch logs from a running container (supports incremental fetching)"@,
            schema_jv(
                seq![
                    ("container_id"@, prop_jv("string"@, "Container ID"@)),
                    ("since"@, prop_jv("string"@, "ISO8601 timestamp to fetch logs since"@)),
                    ("tail_lines"@, prop_jv("integer"@, "Number of lines from end"@)),
                    ("stdout"@, prop_jv("boolean"@, "Include stdout (default: true)"@)),
                    ("stderr"@, prop_jv("boolean"@, "Include stderr (default: true)"@)),
                ],
                Some(seq!["container_id"@]),
            ),
        ),
        tool_entry_jv(
            "docker_exec"@,
            "Execute a one-off command in a running container"@,
            schema_jv(
                seq![
                    ("container_id"@, prop_jv("string"@, "Container ID"@)),
                    ("command"@, prop_jv("string"@, "Command to execute"@)),
                ],
                Some(seq!["container_id"@, "command"@]),
            ),
        ),
        tool_entry_jv(
            "docker_stop"@,
            "Stop and remove a container"@,
            schema_jv(
                seq![("container_id"@, prop_jv("string"@, "Container ID"@))],
                Some(seq!["container_id"@]),
            ),
        ),
        tool_entry_jv(
            "docker_list"@,
            "List all tracked containers"@,
            schema_jv(Seq::empty(), None),
        ),
    ]
}

/// The `tools/list` result document.
pub open spec fn tools_list_result_jv() -> JsonV {
    JsonV::Obj(seq![("tools"@, JsonV::Arr(catalog_jv()))])
}

fn make_prop(ty: &str, desc: &str) -> (r: JsonValue)
    ensures
        jv(r) == prop_jv(ty@, desc@),
        wf_json(jv(r)),
{
    let mut fields: Vec<(String, JsonValue)> = Vec::new();
    push_field(&mut fields, "type", JsonValue::Str(String::from_str(ty)));
    push_field(&mut fields, "description", JsonValue::Str(String::from_str(desc)));
    proof {
        assert(jv_obj(fields) =~= seq![("type"@, JsonV::Str(ty@)), ("description"@, JsonV::Str(desc@))]);
        lemma_wf_str_fields(jv_obj(fields));
    }
    JsonValue::Obj(fields)
}

/// Every field of this object holds a string or another document known
/// well-formed; used for the catalog's literal objects.
proof fn lemma_wf_str_fields(fields: Seq<(Seq<char>, JsonV)>)
    requires
        forall|q: int| 0 <= q < fields.len() ==> wf_json(#[trigger] fields[q].1),
    ensures
        wf_json(JsonV::Obj(fields)),
{
    lemma_wf_fields_all(fields, 0);
}

proof fn lemma_wf_str_items(items: Seq<JsonV>)
    requires
        forall|q: int| 0 <= q < items.len() ==> wf_json(#[trigger] items[q]),
    ensures
        wf_json(JsonV::Arr(items)),
{
    lemma_wf_elems_all(items, 0);
}

fn make_arr_prop(desc: &str) -> (r: JsonValue)
    ensures
        jv(r) == arr_prop_jv(desc@),
        wf_json(jv(r)),
{
    let mut inner: Vec<(String, JsonValue)> = Vec::new();
    push_field(&mut inner, "type", JsonValue::Str(String::from_str("string")));
    proof {
        assert(jv_obj(inner) =~= seq![("type"@, JsonV::Str("string"@))]);
        lemma_wf_str_fields(jv_obj(inner));
    }
    let items = JsonValue::Obj(inner);
    let mut fields: Vec<(String, JsonValue)> = Vec::new();
    push_field(&mut fields, "type", JsonValue::Str(String::from_str("array")));
    push_field(&mut fields, "items", items);
    push_field(&mut fields, "description", JsonValue::Str(String::from_str(desc)));
    proof {
        assert(jv_obj(fields) =~= (match arr_prop_jv(desc@) {
            JsonV::Obj(fs) => fs,
            _ => Seq::empty(),
        }));
        lemma_wf_str_fields(jv_obj(fields));
    }
    JsonValue::Obj(fields)
}

fn make_required(names: &Vec<String>) -> (r: JsonValue)
    ensures
        jv(r) == JsonV::Arr(Seq::new(strs_view(*names).len(), |i: int| JsonV::Str(strs_view(*names)[i]))),
        wf_json(jv(r)),
{
    let n = names.len();
    let mut items: Vec<JsonValue> = Vec::new();
    let mut k: usize = 0;
    while k < n
        invariant
            k <= n,
            n == names@.len(),
            items@.len() == k,
            forall|q: int| 0 <= q < k ==> jv(items@[q]) == JsonV::Str(names@[q]@),
        decreases n - k,
    {
        items.push(JsonValue::Str(names[k].clone()));
        k = k + 1;
    }
    proof {
        lemma_jv_elems(items@, 0);
        assert(jv_arr(items) =~= Seq::new(strs_view(*names).len(), |i: int| JsonV::Str(
            strs_view(*names)[i],
        )));
        lemma_wf_str_items(jv_arr(items));
    }
    JsonValue::Arr(items)
}

fn make_schema(props: Vec<(String, JsonValue)>, required: Option<Vec<String>>) -> (r: JsonValue)
    requires
        forall|q: int| 0 <= q < props@.len() ==> wf_json(jv(#[trigger] props@[q].1)),
    ensures
        jv(r) == schema_jv(
            jv_obj(props),
            (match required {
                Option::Some(names) => Option::Some(strs_view(names)),
                Option::None => Option::None,
            }),
        ),
        wf_json(jv(r)),
{
    let ghost gprops = jv_obj(props);
    let ghost greq = (match required {
        Option::Some(ref names) => Option::Some(strs_view(*names)),
        Option::None => Option::<Seq<Seq<char>>>::None,
    });
    proof {
        crate::json::lemma_jv_fields(props@, 0);
        assert forall|q: int| 0 <= q < gprops.len() implies wf_json(#[trigger] gprops[q].1) by {
            assert(gprops[q] == crate::json::jv_field(props@[q]));
        }
        lemma_wf_str_fields(gprops);
    }
    let properties = JsonValue::Obj(props);
    let mut fields: Vec<(String, JsonValue)> = Vec::new();
    push_field(&mut fields, "type", JsonValue::Str(String::from_str("object")));
    push_field(&mut fields, "properties", properties);
    match required {
        Option::Some(names) => {
            let req = make_required(&names);
            push_field(&mut fields, "required", req);
        },
        Option::None => {},
    }
    proof {
        assert(jv_obj(fields) =~= (match schema_jv(gprops, greq) {
            JsonV::Obj(fs) => fs,
            _ => Seq::empty(),
        }));
        assert forall|q: int| 0 <= q < jv_obj(fields).len() implies wf_json(
            #[trigger] jv_obj(fields)[q].1,
        ) by {
        }
        lemma_wf_str_fields(jv_obj(fields));
    }
    JsonValue::Obj(fields)
}

fn make_tool_entry(name: &str, desc: &str, schema: JsonValue) -> (r: JsonValue)
    requires
        wf_json(jv(schema)),
    ensures
        jv(r) == tool_entry_jv(name@, desc@, jv(schema)),
        wf_json(jv(r)),
{
    let ghost gschema = jv(schema);
    let mut fields: Vec<(String, JsonValue)> = Vec::new();
    push_field(&mut fields, "name", JsonValue::Str(String::from_str(name)));
    push_field(&mut fields, "description", JsonValue::Str(String::from_str(desc)));
    push_field(&mut fields, "inputSchema", schema);
    proof {
        assert(jv_obj(fields) =~= (match tool_entry_jv(name@, desc@, gschema) {
            JsonV::Obj(fs) => fs,
            _ => Seq::empty(),
        }));
        lemma_wf_str_fields(jv_obj(fields));
    }
    JsonValue::Obj(fields)
}

/// The dispatch of one `tools/call`.
pub fn handle_tools_call(id: Option<JsonValue>, params: &JsonValue) -> (r: RoutePlan)
    ensures
        (match tools_call_plan(jv(*params)) {
            PlanV::Invoke(tv) => (r matches RoutePlan::Invoke(pid, t) && pid == id && tool_view(t)
                == tv),
            PlanV::BadParams => (r matches RoutePlan::Reply(resp) && resp.id == id
                && resp.result is None && resp.error is Some && resp.error->0.code
                == INVALID_PARAMS && ((match id {
                Option::Some(v) => wf_json(jv(v)),
                Option::None => true,
            }) ==> resp_wf(resp))),
            PlanV::Unknown(nm) => (r matches RoutePlan::Reply(resp) && resp.id == id
                && resp.error is None && resp.result is Some && jv(resp.result->0)
                == tool_reply_jv("Error: "@ + ("Unknown tool: "@ + nm), true) && ((match id {
                Option::Some(v) => wf_json(jv(v)),
                Option::None => true,
            }) ==> resp_wf(resp))),
        }),
{
    let name: String = match get_field(params, "name") {
        Option::Some(JsonValue::Str(s)) => s.clone(),
        _ => String::new(),
    };
    let arguments: JsonValue = match get_field(params, "arguments") {
        Option::Some(a) => clone_json(a),
        Option::None => JsonValue::Obj(Vec::new()),
    };
    proof {
        assert(jv_fields(Seq::<(String, JsonValue)>::empty(), 0) =~= Seq::<
            (Seq<char>, JsonV),
        >::empty());
        assert(name@ == tool_call_name(jv(*params)));
        assert(jv(arguments) == tool_call_args(jv(*params)));
    }
    if crate::text::str_eq("docker_run", name.as_str()) {
        match docker_run_args_from_json(&arguments) {
            Option::Some(a) => RoutePlan::Invoke(id, DockerTool::DockerRun(a)),
            Option::None => RoutePlan::Reply(
                JsonRpcResponse::error(id, INVALID_PARAMS, "Invalid params"),
            ),
        }
    } else if crate::text::str_eq("docker_logs", name.as_str()) {
        match docker_logs_args_from_json(&arguments) {
            Option::Some(a) => RoutePlan::Invoke(id, DockerTool::DockerLogs(a)),
            Option::None => RoutePlan::Reply(
                JsonRpcResponse::error(id, INVALID_PARAMS, "Invalid params"),
            ),
        }
    } else if crate::text::str_eq("docker_exec", name.as_str()) {
        match docker_exec_args_from_json(&arguments) {
            Option::Some(a) => RoutePlan::Invoke(id, DockerTool::DockerExec(a)),
            Option::None => RoutePlan::Reply(
                JsonRpcResponse::error(id, INVALID_PARAMS, "Invalid params"),
            ),
        }
    } else if crate::text::str_eq("docker_stop", name.as_str()) {
        match docker_stop_args_from_json(&arguments) {
            Option::Some(a) => RoutePlan::Invoke(id, DockerTool::DockerStop(a)),
            Option::None => RoutePlan::Reply(
                JsonRpcResponse::error(id, INVALID_PARAMS, "Invalid params"),
            ),
        }
    } else if crate::text::str_eq("docker_list", name.as_str()) {
        RoutePlan::Invoke(id, DockerTool::DockerList)
    } else {
        let msg = String::from_str("Unknown tool: ").concat(name.as_str());
        RoutePlan::Reply(finish_tools_call(id, Err(msg)))
    }
}

/// The `initialize` result document: the protocol version, the
/// capabilities, and the server identity.
pub open spec fn initialize_result_jv() -> JsonV {
    JsonV::Obj(
        seq![
            ("protocolVersion"@, JsonV::Str("2024-11-05"@)),
            ("capabilities"@, JsonV::Obj(seq![("tools"@, JsonV::Obj(Seq::empty()))])),
            (
                "serverInfo"@,
                JsonV::Obj(
                    seq![
                        ("name"@, JsonV::Str("docker-agent"@)),
                        ("version"@, JsonV::Str("0.1.0"@)),
                    ],
                ),
            ),
        ],
    )
}

/// The view of an optional id document.
pub open spec fn id_view(o: Option<JsonValue>) -> Option<JsonV> {
    match o {
        Option::Some(v) => Some(jv(v)),
        Option::None => None,
    }
}

/// Whether an optional id document is well-formed.
pub open spec fn opt_id_wf(o: Option<JsonV>) -> bool {
    match o {
        Option::Some(v) => wf_json(v),
        Option::None => true,
    }
}

/// The `initialize` answer: a success envelope that echoes the id and
/// carries the fixed capability descriptor.
pub fn handle_initialize(id: Option<JsonValue>) -> (r: JsonRpcResponse)
    ensures
        r.jsonrpc@ == "2.0"@,
        r.id == id,
        r.error is None,
        r.result is Some,
        jv(r.result->0) == initialize_result_jv(),
        opt_id_wf(id_view(id)) ==> resp_wf(r),
{
    let mut caps: Vec<(String, JsonValue)> = Vec::new();
    push_field(&mut caps, "tools", JsonValue::Obj(Vec::new()));
    proof {
        assert(jv_obj(caps) =~= seq![("tools"@, JsonV::Obj(Seq::<(Seq<char>, JsonV)>::empty()))]);
    }
    let mut info: Vec<(String, JsonValue)> = Vec::new();
    push_field(&mut info, "name", JsonValue::Str(String::from_str("docker-agent")));
    push_field(&mut info, "version", JsonValue::Str(String::from_str("0.1.0")));
    proof {
        assert(jv_obj(info) =~= seq![
            ("name"@, JsonV::Str("docker-agent"@)),
            ("version"@, JsonV::Str("0.1.0"@)),
        ]);
    }
    let mut fields: Vec<(String, JsonValue)> = Vec::new();
    push_field(&mut fields, "protocolVersion", JsonValue::Str(String::from_str("2024-11-05")));
    push_field(&mut fields, "capabilities", JsonValue::Obj(caps));
    push_field(&mut fields, "serverInfo", JsonValue::Obj(info));
    proof {
        assert(jv_obj(fields) =~= (match initialize_result_jv() {
            JsonV::Obj(fs) => fs,
            _ => Seq::empty(),
        }));
        lemma_wf_initialize_result();
    }
    JsonRpcResponse::success(id, JsonValue::Obj(fields))
}

proof fn lemma_wf_initialize_result()
    ensures
        wf_json(initialize_result_jv()),
{
    let caps = JsonV::Obj(seq![("tools"@, JsonV::Obj(Seq::<(Seq<char>, JsonV)>::empty()))]);
    lemma_wf_fields_all(Seq::<(Seq<char>, JsonV)>::empty(), 0);
    assert forall|q: int| 0 <= q < 1 implies wf_json(
        #[trigger] seq![("tools"@, JsonV::Obj(Seq::<(Seq<char>, JsonV)>::empty()))][q].1,
    ) by {
    }
    lemma_wf_fields_all(seq![("tools"@, JsonV::Obj(Seq::<(Seq<char>, JsonV)>::empty()))], 0);
    let info_fs = seq![("name"@, JsonV::Str("docker-agent"@)), ("version"@, JsonV::Str("0.1.0"@))];
    assert forall|q: int| 0 <= q < info_fs.len() implies wf_json(#[trigger] info_fs[q].1) by {
        if q == 0 {
            assert(info_fs[q].1 == JsonV::Str("docker-agent"@));
        } else {
            assert(info_fs[q].1 == JsonV::Str("0.1.0"@));
        }
    }
    lemma_wf_fields_all(info_fs, 0);
    let top = (match initialize_result_jv() {
        JsonV::Obj(fs) => fs,
        _ => Seq::empty(),
    });
    assert forall|q: int| 0 <= q < top.len() implies wf_json(#[trigger] top[q].1) by {
        if q == 0 {
            assert(top[q].1 == JsonV::Str("2024-11-05"@));
        } else if q == 1 {
            assert(top[q].1 == caps);
        } else {
            assert(top[q].1 == JsonV::Obj(info_fs));
        }
    }
    lemma_wf_fields_all(top, 0);
}

/// The `tools/list` answer: a success envelope that echoes the id and
/// carries the static catalog.
pub fn handle_tools_list(id: Option<JsonValue>) -> (r: JsonRpcResponse)
    ensures
        r.jsonrpc@ == "2.0"@,
        r.id == id,
        r.error is None,
        r.result is Some,
        jv(r.result->0) == tools_list_result_jv(),
        opt_id_wf(id_view(id)) ==> resp_wf(r),
{
    let mut run_props: Vec<(String, JsonValue)> = Vec::new();
    push_field(&mut run_props, "image", make_prop("string", "Docker image to run"));
    push_field(&mut run_props, "command", make_arr_prop("Command to run"));
    push_field(&mut run_props, "env_vars", make_arr_prop("Environment variables (KEY=value)"));
    push_field(&mut run_props, "volume_mounts", make_arr_prop("Volume mounts (host:container)"));
    push_field(&mut run_props, "name", make_prop("string", "Container name"));
    proof {
        lemma_props_wf(run_props@);
    }
    proof {
        assert(jv_obj(run_props) =~= seq![
            ("image"@, prop_jv("string"@, "Docker image to run"@)),
            ("command"@, arr_prop_jv("Command to run"@)),
            ("env_vars"@, arr_prop_jv("Environment variables (KEY=value)"@)),
            ("volume_mounts"@, arr_prop_jv("Volume mounts (host:container)"@)),
            ("name"@, prop_jv("string"@, "Container name"@)),
        ]);
    }
    let mut run_req: Vec<String> = Vec::new();
    run_req.push(String::from_str("image"));
    proof {
        assert(strs_view(run_req) =~= seq!["image"@]);
    }
    let run_schema = make_schema(run_props, Some(run_req));

    let mut logs_props: Vec<(String, JsonValue)> = Vec::new();
    push_field(&mut logs_props, "container_id", make_prop("string", "Container ID"));
    push_field(&mut logs_props, "since", make_prop("string", "ISO8601 timestamp to fetch logs since"));
    push_field(&mut logs_props, "tail_lines", make_prop("integer", "Number of lines from end"));
    push_field(&mut logs_props, "stdout", make_prop("boolean", "Include stdout (default: true)"));
    push_field(&mut logs_props, "stderr", make_prop("boolean", "Include stderr (default: true)"));
    proof {
        lemma_props_wf(logs_props@);
    }
    proof {
        assert(jv_obj(logs_props) =~= seq![
            ("container_id"@, prop_jv("string"@, "Container ID"@)),
            ("since"@, prop_jv("string"@, "ISO8601 timestamp to fetch logs since"@)),
            ("tail_lines"@, prop_jv("integer"@, "Number of lines from end"@)),
            ("stdout"@, prop_jv("boolean"@, "Include stdout (default: true)"@)),
            ("stderr"@, prop_jv("boolean"@, "Include stderr (default: true)"@)),
        ]);
    }
    let mut logs_req: Vec<String> = Vec::new();
    logs_req.push(String::from_str("container_id"));
    proof {
        assert(strs_view(logs_req) =~= seq!["container_id"@]);
    }
    let logs_schema = make_schema(logs_props, Some(logs_req));

    let mut exec_props: Vec<(String, JsonValue)> = Vec::new();
    push_field(&mut exec_props, "container_id", make_prop("string", "Container ID"));
    push_field(&mut exec_props, "command", make_prop("string", "Command to execute"));
    proof {
        lemma_props_wf(exec_props@);
    }
    proof {
        assert(jv_obj(exec_props) =~= seq![
            ("container_id"@, prop_jv("string"@, "Container ID"@)),
            ("command"@, prop_jv("string"@, "Command to execute"@)),
        ]);
    }
    let mut exec_req: Vec<String> = Vec::new();
    exec_req.push(String::from_str("container_id"));
    exec_req.push(String::from_str("command"));
    proof {
        assert(strs_view(exec_req) =~= seq!["container_id"@, "command"@]);
    }
    let exec_schema = make_schema(exec_props, Some(exec_req));

    let mut stop_props: Vec<(String, JsonValue)> = Vec::new();
    push_field(&mut stop_props, "container_id", make_prop("string", "Container ID"));
    proof {
        lemma_props_wf(stop_props@);
    }
    proof {
        assert(jv_obj(stop_props) =~= seq![
            ("container_id"@, prop_jv("string"@, "Container ID"@)),
        ]);
    }
    let mut stop_req: Vec<String> = Vec::new();
    stop_req.push(String::from_str("container_id"));
    proof {
        assert(strs_view(stop_req) =~= seq!["container_id"@]);
    }
    let stop_schema = make_schema(stop_props, Some(stop_req));

    let list_props: Vec<(String, JsonValue)> = Vec::new();
    proof {
        assert(jv_obj(list_props) =~= Seq::<(Seq<char>, JsonV)>::empty());
    }
    let list_schema = make_schema(list_props, None);

    let mut entries: Vec<JsonValue> = Vec::new();
    entries.push(make_tool_entry("docker_run", "Start a long-running Docker container", run_schema));
    entries.push(make_tool_entry(
        "docker_logs",
        "Fetch logs from a running container (supports incremental fetching)",
        logs_schema,
    ));
    entries.push(make_tool_entry("docker_exec", "Execute a one-off command in a running container", exec_schema));
    entries.push(make_tool_entry("docker_stop", "Stop and remove a container", stop_schema));
    entries.push(make_tool_entry("docker_list", "List all tracked containers", list_schema));
    proof {
        lemma_jv_elems(entries@, 0);
        assert(jv_arr(entries) =~= catalog_jv());
        assert forall|q: int| 0 <= q < jv_arr(entries).len() implies wf_json(
            #[trigger] jv_arr(entries)[q],
        ) by {
            assert(jv_arr(entries)[q] == jv(entries@[q]));
        }
        lemma_wf_str_items(jv_arr(entries));
    }
    let mut fields: Vec<(String, JsonValue)> = Vec::new();
    push_field(&mut fields, "tools", JsonValue::Arr(entries));
    proof {
        assert(jv_obj(fields) =~= (match tools_list_result_jv() {
            JsonV::Obj(fs) => fs,
            _ => Seq::empty(),
        }));
        lemma_wf_str_fields(jv_obj(fields));
    }
    JsonRpcResponse::success(id, JsonValue::Obj(fields))
}

/// Every property value pushed by the catalog builders is well-formed.
proof fn lemma_props_wf(props: Seq<(String, JsonValue)>)
    requires
        forall|q: int|
            0 <= q < jv_fields(props, 0).len() ==> wf_json(#[trigger] jv_fields(props, 0)[q].1),
    ensures
        forall|q: int| 0 <= q < props.len() ==> wf_json(jv(#[trigger] props[q].1)),
{
    crate::json::lemma_jv_fields(props, 0);
    assert forall|q: int| 0 <= q < props.len() implies wf_json(jv(#[trigger] props[q].1)) by {
        assert(jv_fields(props, 0)[q] == crate::json::jv_field(props[q]));
        assert(wf_json(jv_fields(props, 0)[q].1));
        assert(jv_fields(props, 0)[q].1 == jv(props[q].1));
    }
}

/// What the dispatcher answers, by method name: the fixed `initialize`
/// descriptor, the static catalog, an empty `ping` result, the resolved
/// tool call, or a method-not-found error.
pub open spec fn route_matches(
    r: RoutePlan,
    id: Option<JsonV>,
    method: Seq<char>,
    params: JsonV,
) -> bool {
    if method == "initialize"@ {
        &&& r matches RoutePlan::Reply(resp)
        &&& id_view(resp.id) == id
        &&& resp.error is None
        &&& resp.result is Some
        &&& jv(resp.result->0) == initialize_result_jv()
        &&& (opt_id_wf(id) ==> resp_wf(resp))
    } else if method == "tools/list"@ {
        &&& r matches RoutePlan::Reply(resp)
        &&& id_view(resp.id) == id
        &&& resp.error is None
        &&& resp.result is Some
        &&& jv(resp.result->0) == tools_list_result_jv()
        &&& (opt_id_wf(id) ==> resp_wf(resp))
    } else if method == "tools/call"@ {
        match tools_call_plan(params) {
            PlanV::Invoke(tv) => {
                &&& r matches RoutePlan::Invoke(pid, t)
                &&& id_view(pid) == id
                &&& tool_view(t) == tv
            },
            PlanV::BadParams => {
                &&& r matches RoutePlan::Reply(resp)
                &&& id_view(resp.id) == id
                &&& resp.result is None
                &&& resp.error is Some
                &&& resp.error->0.code == INVALID_PARAMS
                &&& (opt_id_wf(id) ==> resp_wf(resp))
            },
            PlanV::Unknown(nm) => {
                &&& r matches RoutePlan::Reply(resp)
                &&& id_view(resp.id) == id
                &&& resp.error is None
                &&& resp.result is Some
                &&& jv(resp.result->0) == tool_reply_jv("Error: "@ + ("Unknown tool: "@ + nm), true)
                &&& (opt_id_wf(id) ==> resp_wf(resp))
            },
        }
    } else if method == "ping"@ {
        &&& r matches RoutePlan::Reply(resp)
        &&& id_view(resp.id) == id
        &&& resp.error is None
        &&& resp.result is Some
        &&& jv(resp.result->0) == JsonV::Obj(Seq::empty())
        &&& (opt_id_wf(id) ==> resp_wf(resp))
    } else {
        &&& r matches RoutePlan::Reply(resp)
        &&& id_view(resp.id) == id
        &&& resp.result is None
        &&& resp.error is Some
        &&& resp.error->0.code == METHOD_NOT_FOUND
        &&& resp.error->0.message@ == "Method not found"@
        &&& (opt_id_wf(id) ==> resp_wf(resp))
    }
}

/// Routes one request by its method name.
pub fn handle_request(req: JsonRpcRequest) -> (r: RoutePlan)
    ensures
        route_matches(r, id_view(req.id), req.method@, jv(req.params)),
{
    if crate::text::str_eq("initialize", req.method.as_str()) {
        RoutePlan::Reply(handle_initialize(req.id))
    } else if crate::text::str_eq("tools/list", req.method.as_str()) {
        RoutePlan::Reply(handle_tools_list(req.id))
    } else if crate::text::str_eq("tools/call", req.method.as_str()) {
        handle_tools_call(req.id, &req.params)
    } else if crate::text::str_eq("ping", req.method.as_str()) {
        let empty = JsonValue::Obj(Vec::new());
        proof {
            assert(jv(empty) == JsonV::Obj(jv_fields(Seq::<(String, JsonValue)>::empty(), 0)));
            assert(jv_fields(Seq::<(String, JsonValue)>::empty(), 0) =~= Seq::<
                (Seq<char>, JsonV),
            >::empty());
            lemma_wf_fields_all(Seq::<(Seq<char>, JsonV)>::empty(), 0);
        }
        RoutePlan::Reply(JsonRpcResponse::success(req.id, empty))
    } else {
        RoutePlan::Reply(JsonRpcResponse::error(req.id, METHOD_NOT_FOUND, "Method not found"))
    }
}

/// A well-formed document yields a well-formed id and params when read
/// as a request envelope.
pub proof fn lemma_request_parts_wf(j: JsonV)
    requires
        wf_json(j),
    ensures
        (match crate::rpc::request_of(j) {
            Option::Some((ver, id, m, params)) => opt_id_wf(id) && wf_json(params),
            Option::None => true,
        }),
{
    match j {
        JsonV::Obj(fields) => {
            crate::json::lemma_obj_lookup_wf(fields, "id"@, 0);
            crate::json::lemma_obj_lookup_wf(fields, "params"@, 0);
        },
        _ => {},
    }
}

/// A parse-error answer: code `PARSE_ERROR` with an absent id, since no
/// id could be read.
pub open spec fn parse_error_reply(r: RoutePlan) -> bool {
    &&& r matches RoutePlan::Reply(resp)
    &&& resp.id is None
    &&& resp.result is None
    &&& resp.error is Some
    &&& resp.error->0.code == PARSE_ERROR
    &&& resp_wf(resp)
}

/// What one line of the stream surface is answered with.
pub open spec fn line_matches(r: RoutePlan, text: Seq<char>) -> bool {
    match crate::json::sp_text(text) {
        Option::None => parse_error_reply(r),
        Option::Some(doc) => match crate::rpc::request_of(doc) {
            Option::None => parse_error_reply(r),
            Option::Some((ver, id, m, params)) => route_matches(r, id, m, params),
        },
    }
}

/// One line of the stream surface: a blank line is skipped; an
/// unparsable line is answered with a parse error carrying no id; a
/// request is routed.
pub fn handle_line(line: &str) -> (r: Option<RoutePlan>)
    ensures
        (line@.len() == 0) == (r is None),
        (match r {
            Option::Some(a) => line_matches(a, line@),
            Option::None => true,
        }),
        (match r {
            Option::Some(RoutePlan::Reply(resp)) => resp_wf(resp),
            _ => true,
        }),
{
    if line.is_empty() {
        return None;
    }
    match crate::parse::parse_json_text(line) {
        Option::None => Some(
            RoutePlan::Reply(JsonRpcResponse::error(None, PARSE_ERROR, "Parse error")),
        ),
        Option::Some(doc) => {
            match crate::rpc::request_from_json(&doc) {
                Option::None => Some(
                    RoutePlan::Reply(JsonRpcResponse::error(None, PARSE_ERROR, "Parse error")),
                ),
                Option::Some(req) => {
                    proof {
                        lemma_request_parts_wf(jv(doc));
                    }
                    Some(handle_request(req))
                },
            }
        },
    }
}

/// The mount pairs of a list of mount texts: each text is split at its
/// first colon, and a text without a colon is dropped.
pub open spec fn split_mounts_from(ms: Seq<Seq<char>>, k: int) -> Seq<(Seq<char>, Seq<char>)>
    decreases ms.len() - k,
{
    if 0 <= k < ms.len() {
        let m = ms[k];
        let c = find_char(m, ':', 0);
        (if c < m.len() {
            seq![(m.subrange(0, c), m.subrange(c + 1, m.len() as int))]
        } else {
            Seq::empty()
        }) + split_mounts_from(ms, k + 1)
    } else {
        Seq::empty()
    }
}

/// The character sequences of a vector of path pairs.
pub open spec fn pairs_view(v: Vec<(String, String)>) -> Seq<(Seq<char>, Seq<char>)> {
    Seq::new(v@.len(), |i: int| (v@[i].0@, v@[i].1@))
}

/// The start configuration for accepted run arguments.
pub fn docker_run_config(args: DockerRunArgs) -> (r: StartConfig)
    ensures
        r.image == args.image,
        r.command == args.command,
        r.env_vars == args.env_vars,
        r.name == args.name,
        pairs_view(r.volume_mounts) == split_mounts_from(strs_view(args.volume_mounts), 0),
{
    let ghost mv = strs_view(args.volume_mounts);
    let n = args.volume_mounts.len();
    let mut mounts: Vec<(String, String)> = Vec::new();
    let mut k: usize = 0;
    while k < n
        invariant
            k <= n,
            n == args.volume_mounts@.len(),
            mv == strs_view(args.volume_mounts),
            split_mounts_from(mv, 0) == pairs_view(mounts) + split_mounts_from(mv, k as int),
        decreases n - k,
    {
        let ghost before = pairs_view(mounts);
        match split_volume_mount(args.volume_mounts[k].as_str()) {
            Option::Some((h, c)) => {
                let ghost gh = h@;
                let ghost gc = c@;
                mounts.push((h, c));
                proof {
                    assert(pairs_view(mounts) =~= before.push((gh, gc)));
                    assert(mv[k as int] == args.volume_mounts@[k as int]@);
                    assert(split_mounts_from(mv, k as int) == seq![(gh, gc)] + split_mounts_from(
                        mv,
                        k + 1,
                    ));
                    assert(before + (seq![(gh, gc)] + split_mounts_from(mv, k + 1))
                        =~= before.push((gh, gc)) + split_mounts_from(mv, k + 1));
                }
            },
            Option::None => {
                proof {
                    assert(mv[k as int] == args.volume_mounts@[k as int]@);
                    assert(split_mounts_from(mv, k as int) == split_mounts_from(mv, k + 1));
                    assert(Seq::<(Seq<char>, Seq<char>)>::empty() + split_mounts_from(mv, k + 1)
                        =~= split_mounts_from(mv, k + 1));
                }
            },
        }
        k = k + 1;
    }
    proof {
        assert(pairs_view(mounts) + Seq::<(Seq<char>, Seq<char>)>::empty() =~= pairs_view(mounts));
    }
    StartConfig {
        image: args.image,
        command: args.command,
        env_vars: args.env_vars,
        volume_mounts: mounts,
        name: args.name,
    }
}

/// The log query for accepted logs arguments: the `since` text is read
/// as an RFC 3339 instant, and unreadable text is dropped; stdout and
/// stderr default to on.
pub fn docker_logs_query(args: DockerLogsArgs) -> (r: LogQuery)
    ensures
        r.container_id == args.container_id,
        r.since == (match args.since {
            Option::Some(s) => rfc3339_secs(s@),
            Option::None => Option::<i64>::None,
        }),
        r.tail_lines == args.tail_lines,
        r.include_stdout == (match args.stdout {
            Option::Some(b) => b,
            Option::None => true,
        }),
        r.include_stderr == (match args.stderr {
            Option::Some(b) => b,
            Option::None => true,
        }),
{
    let since: Option<i64> = match &args.since {
        Option::Some(s) => parse_rfc3339_secs(s.as_str()),
        Option::None => None,
    };
    let include_stdout = match args.stdout {
        Option::Some(b) => b,
        Option::None => true,
    };
    let include_stderr = match args.stderr {
        Option::Some(b) => b,
        Option::None => true,
    };
    LogQuery {
        container_id: args.container_id,
        since,
        tail_lines: args.tail_lines,
        include_stdout,
        include_stderr,
    }
}

/// The rendered outcome of a successful container start.
pub fn render_docker_run(container_id: &str) -> (r: String)
    ensures
        r@ == crate::json::ser_value(
            JsonV::Obj(
                seq![
                    ("success"@, JsonV::Bool(true)),
                    ("container_id"@, JsonV::Str(container_id@)),
                    ("message"@, JsonV::Str("Container started: "@ + container_id@)),
                ],
            ),
        ),
{
    let message = String::from_str("Container started: ").concat(container_id);
    let result = DockerRunResult {
        success: true,
        container_id: String::from_str(container_id),
        message,
    };
    let j = result.to_json();
    crate::json::json_to_string(&j)
}

/// The rendered outcome of a successful log fetch: the timestamp is
/// written as RFC 3339 text, or JSON null when absent.
pub fn render_docker_logs(logs: LogsOutput) -> (r: String)
    ensures
        r@ == crate::json::ser_value(
            JsonV::Obj(
                seq![
                    ("success"@, JsonV::Bool(true)),
                    ("stdout"@, crate::tools::arr_of_strs(strs_view(logs.stdout))),
                    ("stderr"@, crate::tools::arr_of_strs(strs_view(logs.stderr))),
                    (
                        "timestamp"@,
                        (match logs.timestamp {
                            Option::Some(t) => JsonV::Str(rfc3339_text(t)),
                            Option::None => JsonV::Null,
                        }),
                    ),
                ],
            ),
        ),
{
    let timestamp: Option<String> = match logs.timestamp {
        Option::Some(t) => Some(format_rfc3339_secs(t)),
        Option::None => None,
    };
    let result = DockerLogsResult {
        success: true,
        stdout: logs.stdout,
        stderr: logs.stderr,
        timestamp,
    };
    let j = result.to_json();
    proof {
        assert((match logs_result_jv(result) {
            JsonV::Obj(fs) => fs,
            _ => Seq::empty(),
        }) =~= seq![
            ("success"@, JsonV::Bool(true)),
            ("stdout"@, crate::tools::arr_of_strs(strs_view(logs.stdout))),
            ("stderr"@, crate::tools::arr_of_strs(strs_view(logs.stderr))),
            (
                "timestamp"@,
                (match logs.timestamp {
                    Option::Some(t) => JsonV::Str(rfc3339_text(t)),
                    Option::None => JsonV::Null,
                }),
            ),
        ]);
    }
    crate::json::json_to_string(&j)
}

/// The rendered outcome of a successful in-container command.
pub fn render_docker_exec(output: String) -> (r: String)
    ensures
        r@ == crate::json::ser_value(
            JsonV::Obj(
                seq![("success"@, JsonV::Bool(true)), ("output"@, JsonV::Str(output@))],
            ),
        ),
{
    let result = ToolResult { success: true, output, error: None };
    let j = result.to_json();
    crate::json::json_to_string(&j)
}

/// The rendered outcome of a successful container stop.
pub fn render_docker_stop(container_id: &str) -> (r: String)
    ensures
        r@ == crate::json::ser_value(
            JsonV::Obj(
                seq![
                    ("success"@, JsonV::Bool(true)),
                    (
                        "output"@,
                        JsonV::Str(("Container "@ + container_id@) + " stopped"@),
                    ),
                ],
            ),
        ),
{
    let output = String::from_str("Container ").concat(container_id).concat(" stopped");
    let result = ToolResult { success: true, output, error: None };
    let j = result.to_json();
    crate::json::json_to_string(&j)
}

/// The wire text of a container's status.
pub open spec fn status_text(s: ContainerStatus) -> Seq<char> {
    match s {
        ContainerStatus::Running => "running"@,
        ContainerStatus::Stopped => "stopped"@,
        ContainerStatus::Exited(code) => "exited"@,
        ContainerStatus::Error(msg) => "error"@,
    }
}

/// The document for one tracked container.
pub open spec fn container_jv(c: ContainerState) -> JsonV {
    JsonV::Obj(
        seq![
            ("id"@, JsonV::Str(c.id@)),
            ("name"@, JsonV::Str(c.name@)),
            ("image"@, JsonV::Str(c.image@)),
            ("started_at"@, JsonV::Str(rfc3339_text(c.started_at))),
            ("status"@, JsonV::Str(status_text(c.status))),
        ],
    )
}

fn status_to_string(s: &ContainerStatus) -> (r: String)
    ensures
        r@ == status_text(*s),
{
    match s {
        ContainerStatus::Running => String::from_str("running"),
        ContainerStatus::Stopped => String::from_str("stopped"),
        ContainerStatus::Exited(_) => String::from_str("exited"),
        ContainerStatus::Error(_) => String::from_str("error"),
    }
}

fn container_to_json(c: &ContainerState) -> (r: JsonValue)
    ensures
        jv(r) == container_jv(*c),
{
    let mut fields: Vec<(String, JsonValue)> = Vec::new();
    push_field(&mut fields, "id", JsonValue::Str(c.id.clone()));
    push_field(&mut fields, "name", JsonValue::Str(c.name.clone()));
    push_field(&mut fields, "image", JsonValue::Str(c.image.clone()));
    push_field(&mut fields, "started_at", JsonValue::Str(format_rfc3339_secs(c.started_at)));
    let st = status_to_string(&c.status);
    push_field(&mut fields, "status", JsonValue::Str(st));
    proof {
        assert(jv_obj(fields) =~= (match container_jv(*c) {
            JsonV::Obj(fs) => fs,
            _ => Seq::empty(),
        }));
    }
    JsonValue::Obj(fields)
}

/// The rendered listing of all tracked containers.
pub fn render_docker_list(containers: &Vec<ContainerState>) -> (r: String)
    ensures
        r@ == crate::json::ser_value(
            JsonV::Obj(
                seq![
                    (
                        "containers"@,
                        JsonV::Arr(
                            Seq::new(containers@.len(), |i: int| container_jv(containers@[i])),
                        ),
                    ),
                ],
            ),
        ),
{
    let n = containers.len();
    let mut items: Vec<JsonValue> = Vec::new();
    let mut k: usize = 0;
    while k < n
        invariant
            k <= n,
            n == containers@.len(),
            items@.len() == k,
            forall|q: int| 0 <= q < k ==> jv(items@[q]) == container_jv(containers@[q]),
        decreases n - k,
    {
        items.push(container_to_json(&containers[k]));
        k = k + 1;
    }
    proof {
        lemma_jv_elems(items@, 0);
        assert(jv_arr(items) =~= Seq::new(containers@.len(), |i: int| container_jv(
            containers@[i],
        )));
    }
    let mut fields: Vec<(String, JsonValue)> = Vec::new();
    push_field(&mut fields, "containers", JsonValue::Arr(items));
    proof {
        assert(jv_obj(fields) =~= seq![
            (
                "containers"@,
                JsonV::Arr(Seq::new(containers@.len(), |i: int| container_jv(containers@[i]))),
            ),
        ]);
    }
    let j = JsonValue::Obj(fields);
    crate::json::json_to_string(&j)
}

} // verus!
