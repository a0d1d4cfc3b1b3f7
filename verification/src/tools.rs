//! Tool invocations and their argument and result shapes.
//!
//! Each argument type states exactly which documents it accepts: required
//! fields must be present with the right type, optional fields may be
//! absent or JSON null, and anything else is a params error.  Each result
//! type states exactly the document it serializes to.

use crate::json::JsonV;
use crate::json::JsonValue;
use crate::json::all_digits;
use crate::json::dec_val;
use crate::json::get_field;
use crate::json::json_as_u64;
use crate::json::json_get;
use crate::json::jv;
use crate::json::jv_arr;
use crate::json::jv_obj;
use crate::json::lemma_jv_elems;
use crate::json::push_field;
use vstd::prelude::*;
use vstd::string::*;

verus! {

/// Arguments for starting a container.
#[derive(Debug, Clone)]
pub struct DockerRunArgs {
    pub image: String,
    pub command: Option<Vec<String>>,
    pub env_vars: Vec<String>,
    pub volume_mounts: Vec<String>,
    pub name: Option<String>,
}

/// Arguments for fetching logs.
#[derive(Debug, Clone)]
pub struct DockerLogsArgs {
    pub container_id: String,
    pub since: Option<String>,
    pub tail_lines: Option<u64>,
    pub stdout: Option<bool>,
    pub stderr: Option<bool>,
}

/// Arguments for running one command in a container.
#[derive(Debug, Clone)]
pub struct DockerExecArgs {
    pub container_id: String,
    pub command: String,
}

/// Arguments for stopping a container.
#[derive(Debug, Clone)]
pub struct DockerStopArgs {
    pub container_id: String,
}

/// One tool invocation, named as on the wire.
#[derive(Debug, Clone)]
pub enum DockerTool {
    DockerRun(DockerRunArgs),
    DockerLogs(DockerLogsArgs),
    DockerExec(DockerExecArgs),
    DockerStop(DockerStopArgs),
    DockerList,
}

/// A plain tool result: output text, or a failure message.
#[derive(Debug, Clone)]
pub struct ToolResult {
    pub success: bool,
    pub output: String,
    pub error: Option<String>,
}

/// The result of starting a container.
#[derive(Debug, Clone)]
pub struct DockerRunResult {
    pub success: bool,
    pub container_id: String,
    pub message: String,
}

/// The result of fetching logs.
#[derive(Debug, Clone)]
pub struct DockerLogsResult {
    pub success: bool,
    pub stdout: Vec<String>,
    pub stderr: Vec<String>,
    pub timestamp: Option<String>,
}

/// The character sequences of a vector of strings.
pub open spec fn strs_view(v: Vec<String>) -> Seq<Seq<char>> {
    Seq::new(v@.len(), |i: int| v@[i]@)
}

/// The strings of a document list, if every element is a string.
pub open spec fn str_items_of(items: Seq<JsonV>, k: int) -> Option<Seq<Seq<char>>>
    decreases items.len() - k,
{
    if 0 <= k < items.len() {
        match items[k] {
            JsonV::Str(s) => match str_items_of(items, k + 1) {
                Option::Some(rest) => Some(seq![s] + rest),
                Option::None => None,
            },
            _ => None,
        }
    } else {
        Some(Seq::empty())
    }
}

pub open spec fn str_list_of(j: JsonV) -> Option<Seq<Seq<char>>> {
    match j {
        JsonV::Arr(items) => str_items_of(items, 0),
        _ => None,
    }
}

/// An optional string field: absent and null mean none.
pub open spec fn opt_str_of(o: Option<JsonV>) -> Option<Option<Seq<char>>> {
    match o {
        Option::None => Some(Option::None),
        Option::Some(JsonV::Null) => Some(Option::None),
        Option::Some(JsonV::Str(s)) => Some(Option::Some(s)),
        _ => None,
    }
}

/// An optional boolean field: absent and null mean none.
pub open spec fn opt_bool_of(o: Option<JsonV>) -> Option<Option<bool>> {
    match o {
        Option::None => Some(Option::None),
        Option::Some(JsonV::Null) => Some(Option::None),
        Option::Some(JsonV::Bool(b)) => Some(Option::Some(b)),
        _ => None,
    }
}

/// An optional unsigned field: a plain run of digits whose value fits.
pub open spec fn opt_u64_of(o: Option<JsonV>) -> Option<Option<nat>> {
    match o {
        Option::None => Some(Option::None),
        Option::Some(JsonV::Null) => Some(Option::None),
        Option::Some(JsonV::Num(s)) => if all_digits(s) && dec_val(s) <= u64::MAX {
            Some(Option::Some(dec_val(s)))
        } else {
            None
        },
        _ => None,
    }
}

/// An optional list-of-strings field: absent and null mean none.
pub open spec fn opt_str_list_of(o: Option<JsonV>) -> Option<Option<Seq<Seq<char>>>> {
    match o {
        Option::None => Some(Option::None),
        Option::Some(JsonV::Null) => Some(Option::None),
        Option::Some(a) => match str_list_of(a) {
            Option::Some(xs) => Some(Option::Some(xs)),
            Option::None => None,
        },
    }
}

/// A required string field.
pub open spec fn req_str_of(o: Option<JsonV>) -> Option<Seq<char>> {
    match o {
        Option::Some(JsonV::Str(s)) => Some(s),
        _ => None,
    }
}

/// A required list-of-strings field.
pub open spec fn req_str_list_of(o: Option<JsonV>) -> Option<Seq<Seq<char>>> {
    match o {
        Option::Some(a) => str_list_of(a),
        _ => None,
    }
}

/// Which documents are accepted as run arguments, and as what.
pub open spec fn run_args_of(j: JsonV) -> Option<
    (Seq<char>, Option<Seq<Seq<char>>>, Seq<Seq<char>>, Seq<Seq<char>>, Option<Seq<char>>),
> {
    if !(j is Obj) {
        None
    } else {
        match (
            req_str_of(json_get(j, "image"@)),
            opt_str_list_of(json_get(j, "command"@)),
            req_str_list_of(json_get(j, "env_vars"@)),
            req_str_list_of(json_get(j, "volume_mounts"@)),
            opt_str_of(json_get(j, "name"@)),
        ) {
            (
                Option::Some(img),
                Option::Some(cmd),
                Option::Some(env),
                Option::Some(vm),
                Option::Some(nm),
            ) => Some((img, cmd, env, vm, nm)),
            _ => None,
        }
    }
}

/// Which documents are accepted as logs arguments, and as what.
pub open spec fn logs_args_of(j: JsonV) -> Option<
    (Seq<char>, Option<Seq<char>>, Option<nat>, Option<bool>, Option<bool>),
> {
    if !(j is Obj) {
        None
    } else {
        match (
            req_str_of(json_get(j, "container_id"@)),
            opt_str_of(json_get(j, "since"@)),
            opt_u64_of(json_get(j, "tail_lines"@)),
            opt_bool_of(json_get(j, "stdout"@)),
            opt_bool_of(json_get(j, "stderr"@)),
        ) {
            (
                Option::Some(cid),
                Option::Some(since),
                Option::Some(tail),
                Option::Some(so),
                Option::Some(se),
            ) => Some((cid, since, tail, so, se)),
            _ => None,
        }
    }
}

/// Which documents are accepted as exec arguments, and as what.
pub open spec fn exec_args_of(j: JsonV) -> Option<(Seq<char>, Seq<char>)> {
    if !(j is Obj) {
        None
    } else {
        match (req_str_of(json_get(j, "container_id"@)), req_str_of(json_get(j, "command"@))) {
            (Option::Some(cid), Option::Some(cmd)) => Some((cid, cmd)),
            _ => None,
        }
    }
}

/// Which documents are accepted as stop arguments, and as what.
pub open spec fn stop_args_of(j: JsonV) -> Option<Seq<char>> {
    if !(j is Obj) {
        None
    } else {
        req_str_of(json_get(j, "container_id"@))
    }
}

spec fn strlist_cont(pre: Seq<Seq<char>>, o: Option<Seq<Seq<char>>>) -> Option<Seq<Seq<char>>> {
    match o {
        Option::Some(rest) => Some(pre + rest),
        Option::None => None,
    }
}

/// The strings of a document, if it is a list of strings.
#[verifier::loop_isolation(false)]
fn string_list_from(v: &JsonValue) -> (r: Option<Vec<String>>)
    ensures
        (match r {
            Option::Some(xs) => str_list_of(jv(*v)) == Some(strs_view(xs)),
            Option::None => str_list_of(jv(*v)) is None,
        }),
{
    match v {
        JsonValue::Arr(items) => {
            proof {
                lemma_jv_elems(items@, 0);
            }
            let ghost m = jv_arr(*items);
            let n = items.len();
            let mut out: Vec<String> = Vec::new();
            let mut k: usize = 0;
            while k < n
                invariant
                    k <= n,
                    out@.len() == k,
                    str_items_of(m, 0) == strlist_cont(strs_view(out), str_items_of(m, k as int)),
                decreases n - k,
            {
                match &items[k] {
                    JsonValue::Str(s) => {
                        let ghost before = out@;
                        proof {
                            assert(m[k as int] == jv(items@[k as int]));
                            assert(m[k as int] == JsonV::Str(s@));
                        }
                        out.push(s.clone());
                        proof {
                            assert(strs_view(out) =~= Seq::new(before.len(), |i: int| before[i]@)
                                .push(s@));
                            assert(strlist_cont(strs_view(out), str_items_of(m, k + 1))
                                == strlist_cont(
                                Seq::new(before.len(), |i: int| before[i]@),
                                str_items_of(m, k as int),
                            )) by {
                                if str_items_of(m, k + 1) is Some {
                                    let rest = str_items_of(m, k + 1)->0;
                                    assert(Seq::new(before.len(), |i: int| before[i]@).push(s@)
                                        + rest =~= Seq::new(before.len(), |i: int| before[i]@) + (
                                    seq![s@] + rest));
                                }
                            }
                        }
                    },
                    _ => {
                        proof {
                            assert(m[k as int] == jv(items@[k as int]));
                            assert(!(m[k as int] is Str));
                            assert(str_items_of(m, k as int) is None);
                        }
                        return None;
                    },
                }
                k = k + 1;
            }
            proof {
                assert(str_items_of(m, n as int) == Some(Seq::<Seq<char>>::empty()));
                assert(strs_view(out) + Seq::<Seq<char>>::empty() =~= strs_view(out));
            }
            Some(out)
        },
        _ => None,
    }
}

/// The run arguments written in the document, if it accepts them.
pub fn docker_run_args_from_json(v: &JsonValue) -> (r: Option<DockerRunArgs>)
    ensures
        (match r {
            Option::Some(a) => run_args_of(jv(*v)) == Some(
                (
                    a.image@,
                    (match a.command {
                        Option::Some(c) => Option::Some(strs_view(c)),
                        Option::None => Option::<Seq<Seq<char>>>::None,
                    }),
                    strs_view(a.env_vars),
                    strs_view(a.volume_mounts),
                    (match a.name {
                        Option::Some(nm) => Option::Some(nm@),
                        Option::None => Option::<Seq<char>>::None,
                    }),
                ),
            ),
            Option::None => run_args_of(jv(*v)) is None,
        }),
{
    if !is_obj(v) {
        return None;
    }
    let image: String = match get_field(v, "image") {
        Option::Some(JsonValue::Str(s)) => s.clone(),
        _ => {
            return None;
        },
    };
    let command: Option<Vec<String>> = match get_field(v, "command") {
        Option::None => None,
        Option::Some(JsonValue::Null) => None,
        Option::Some(a) => match string_list_from(a) {
            Option::Some(xs) => Some(xs),
            Option::None => {
                return None;
            },
        },
    };
    let env_vars: Vec<String> = match get_field(v, "env_vars") {
        Option::Some(a) => match string_list_from(a) {
            Option::Some(xs) => xs,
            Option::None => {
                return None;
            },
        },
        _ => {
            return None;
        },
    };
    let volume_mounts: Vec<String> = match get_field(v, "volume_mounts") {
        Option::Some(a) => match string_list_from(a) {
            Option::Some(xs) => xs,
            Option::None => {
                return None;
            },
        },
        _ => {
            return None;
        },
    };
    let name: Option<String> = match get_field(v, "name") {
        Option::None => None,
        Option::Some(JsonValue::Null) => None,
        Option::Some(JsonValue::Str(s)) => Some(s.clone()),
        _ => {
            return None;
        },
    };
    Some(DockerRunArgs { image, command, env_vars, volume_mounts, name })
}

/// The logs arguments written in the document, if it accepts them.
pub fn docker_logs_args_from_json(v: &JsonValue) -> (r: Option<DockerLogsArgs>)
    ensures
        (match r {
            Option::Some(a) => logs_args_of(jv(*v)) == Some(
                (
                    a.container_id@,
                    (match a.since {
                        Option::Some(s) => Option::Some(s@),
                        Option::None => Option::<Seq<char>>::None,
                    }),
                    (match a.tail_lines {
                        Option::Some(t) => Option::Some(t as nat),
                        Option::None => Option::<nat>::None,
                    }),
                    a.stdout,
                    a.stderr,
                ),
            ),
            Option::None => logs_args_of(jv(*v)) is None,
        }),
{
    if !is_obj(v) {
        return None;
    }
    let container_id: String = match get_field(v, "container_id") {
        Option::Some(JsonValue::Str(s)) => s.clone(),
        _ => {
            return None;
        },
    };
    let since: Option<String> = match get_field(v, "since") {
        Option::None => None,
        Option::Some(JsonValue::Null) => None,
        Option::Some(JsonValue::Str(s)) => Some(s.clone()),
        _ => {
            return None;
        },
    };
    let tail_lines: Option<u64> = match get_field(v, "tail_lines") {
        Option::None => None,
        Option::Some(JsonValue::Null) => None,
        Option::Some(x) => {
            let parsed = json_as_u64(x);
            match parsed {
                Option::Some(t) => Some(t),
                Option::None => {
                    return None;
                },
            }
        },
    };
    let stdout: Option<bool> = match get_field(v, "stdout") {
        Option::None => None,
        Option::Some(JsonValue::Null) => None,
        Option::Some(JsonValue::Bool(b)) => Some(*b),
        _ => {
            return None;
        },
    };
    let stderr: Option<bool> = match get_field(v, "stderr") {
        Option::None => None,
        Option::Some(JsonValue::Null) => None,
        Option::Some(JsonValue::Bool(b)) => Some(*b),
        _ => {
            return None;
        },
    };
    Some(DockerLogsArgs { container_id, since, tail_lines, stdout, stderr })
}

/// The exec arguments written in the document, if it accepts them.
pub fn docker_exec_args_from_json(v: &JsonValue) -> (r: Option<DockerExecArgs>)
    ensures
        (match r {
            Option::Some(a) => exec_args_of(jv(*v)) == Some((a.container_id@, a.command@)),
            Option::None => exec_args_of(jv(*v)) is None,
        }),
{
    if !is_obj(v) {
        return None;
    }
    let container_id: String = match get_field(v, "container_id") {
        Option::Some(JsonValue::Str(s)) => s.clone(),
        _ => {
            return None;
        },
    };
    let command: String = match get_field(v, "command") {
        Option::Some(JsonValue::Str(s)) => s.clone(),
        _ => {
            return None;
        },
    };
    Some(DockerExecArgs { container_id, command })
}

/// The stop arguments written in the document, if it accepts them.
pub fn docker_stop_args_from_json(v: &JsonValue) -> (r: Option<DockerStopArgs>)
    ensures
        (match r {
            Option::Some(a) => stop_args_of(jv(*v)) == Some(a.container_id@),
            Option::None => stop_args_of(jv(*v)) is None,
        }),
{
    if !is_obj(v) {
        return None;
    }
    let container_id: String = match get_field(v, "container_id") {
        Option::Some(JsonValue::Str(s)) => s.clone(),
        _ => {
            return None;
        },
    };
    Some(DockerStopArgs { container_id })
}

fn is_obj(v: &JsonValue) -> (r: bool)
    ensures
        r == (jv(*v) is Obj),
{
    match v {
        JsonValue::Obj(_) => true,
        _ => false,
    }
}

/// The view of run arguments, as the grammar names them.
pub open spec fn run_args_view(a: DockerRunArgs) -> (
    Seq<char>,
    Option<Seq<Seq<char>>>,
    Seq<Seq<char>>,
    Seq<Seq<char>>,
    Option<Seq<char>>,
) {
    (
        a.image@,
        (match a.command {
            Option::Some(c) => Option::Some(strs_view(c)),
            Option::None => Option::None,
        }),
        strs_view(a.env_vars),
        strs_view(a.volume_mounts),
        (match a.name {
            Option::Some(nm) => Option::Some(nm@),
            Option::None => Option::None,
        }),
    )
}

/// A document list of strings.
pub open spec fn arr_of_strs(xs: Seq<Seq<char>>) -> JsonV {
    JsonV::Arr(Seq::new(xs.len(), |i: int| JsonV::Str(xs[i])))
}

/// The document a plain tool result serializes to: the error is skipped
/// when absent.
pub open spec fn tool_result_jv(r: ToolResult) -> JsonV {
    JsonV::Obj(
        seq![("success"@, JsonV::Bool(r.success)), ("output"@, JsonV::Str(r.output@))] + (
        match r.error {
            Option::Some(e) => seq![("error"@, JsonV::Str(e@))],
            Option::None => Seq::empty(),
        }),
    )
}

/// The document a run result serializes to.
pub open spec fn run_result_jv(r: DockerRunResult) -> JsonV {
    JsonV::Obj(
        seq![
            ("success"@, JsonV::Bool(r.success)),
            ("container_id"@, JsonV::Str(r.container_id@)),
            ("message"@, JsonV::Str(r.message@)),
        ],
    )
}

/// The document a logs result serializes to: an absent timestamp is
/// written as JSON null.
pub open spec fn logs_result_jv(r: DockerLogsResult) -> JsonV {
    JsonV::Obj(
        seq![
            ("success"@, JsonV::Bool(r.success)),
            ("stdout"@, arr_of_strs(strs_view(r.stdout))),
            ("stderr"@, arr_of_strs(strs_view(r.stderr))),
            (
                "timestamp"@,
                (match r.timestamp {
                    Option::Some(t) => JsonV::Str(t@),
                    Option::None => JsonV::Null,
                }),
            ),
        ],
    )
}

/// The document run arguments serialize to: an absent option and an
/// empty list are skipped.
pub open spec fn run_args_jv(a: DockerRunArgs) -> JsonV {
    JsonV::Obj(
        seq![("image"@, JsonV::Str(a.image@))] + (match a.command {
            Option::Some(c) => seq![("command"@, arr_of_strs(strs_view(c)))],
            Option::None => Seq::empty(),
        }) + (if strs_view(a.env_vars).len() == 0 {
            Seq::empty()
        } else {
            seq![("env_vars"@, arr_of_strs(strs_view(a.env_vars)))]
        }) + (if strs_view(a.volume_mounts).len() == 0 {
            Seq::empty()
        } else {
            seq![("volume_mounts"@, arr_of_strs(strs_view(a.volume_mounts)))]
        }) + (match a.name {
            Option::Some(nm) => seq![("name"@, JsonV::Str(nm@))],
            Option::None => Seq::empty(),
        }),
    )
}

/// The document list for a vector of strings.
fn strs_to_json(xs: &Vec<String>) -> (r: JsonValue)
    ensures
        jv(r) == arr_of_strs(strs_view(*xs)),
{
    let n = xs.len();
    let mut items: Vec<JsonValue> = Vec::new();
    let mut k: usize = 0;
    while k < n
        invariant
            k <= n,
            n == xs@.len(),
            items@.len() == k,
            forall|q: int| 0 <= q < k ==> jv(items@[q]) == JsonV::Str(xs@[q]@),
        decreases n - k,
    {
        items.push(JsonValue::Str(xs[k].clone()));
        k = k + 1;
    }
    proof {
        lemma_jv_elems(items@, 0);
        assert(jv_arr(items) =~= Seq::new(strs_view(*xs).len(), |i: int| JsonV::Str(
            strs_view(*xs)[i],
        )));
    }
    JsonValue::Arr(items)
}

impl ToolResult {
    /// The document this result serializes to.
    pub fn to_json(&self) -> (r: JsonValue)
        ensures
            jv(r) == tool_result_jv(*self),
    {
        let mut fields: Vec<(String, JsonValue)> = Vec::new();
        push_field(&mut fields, "success", JsonValue::Bool(self.success));
        push_field(&mut fields, "output", JsonValue::Str(self.output.clone()));
        match &self.error {
            Option::Some(e) => {
                push_field(&mut fields, "error", JsonValue::Str(e.clone()));
            },
            Option::None => {},
        }
        proof {
            assert(jv_obj(fields) =~= (match tool_result_jv(*self) {
                JsonV::Obj(fs) => fs,
                _ => Seq::empty(),
            }));
        }
        JsonValue::Obj(fields)
    }
}

impl DockerRunResult {
    /// The document this result serializes to.
    pub fn to_json(&self) -> (r: JsonValue)
        ensures
            jv(r) == run_result_jv(*self),
    {
        let mut fields: Vec<(String, JsonValue)> = Vec::new();
        push_field(&mut fields, "success", JsonValue::Bool(self.success));
        push_field(&mut fields, "container_id", JsonValue::Str(self.container_id.clone()));
        push_field(&mut fields, "message", JsonValue::Str(self.message.clone()));
        proof {
            assert(jv_obj(fields) =~= (match run_result_jv(*self) {
                JsonV::Obj(fs) => fs,
                _ => Seq::empty(),
            }));
        }
        JsonValue::Obj(fields)
    }
}

impl DockerLogsResult {
    /// The document this result serializes to.
    pub fn to_json(&self) -> (r: JsonValue)
        ensures
            jv(r) == logs_result_jv(*self),
    {
        let mut fields: Vec<(String, JsonValue)> = Vec::new();
        push_field(&mut fields, "success", JsonValue::Bool(self.success));
        let so = strs_to_json(&self.stdout);
        push_field(&mut fields, "stdout", so);
        let se = strs_to_json(&self.stderr);
        push_field(&mut fields, "stderr", se);
        match &self.timestamp {
            Option::Some(t) => {
                push_field(&mut fields, "timestamp", JsonValue::Str(t.clone()));
            },
            Option::None => {
                push_field(&mut fields, "timestamp", JsonValue::Null);
            },
        }
        proof {
            assert(jv_obj(fields) =~= (match logs_result_jv(*self) {
                JsonV::Obj(fs) => fs,
                _ => Seq::empty(),
            }));
        }
        JsonValue::Obj(fields)
    }
}

impl DockerRunArgs {
    /// The document these arguments serialize to.
    pub fn to_json(&self) -> (r: JsonValue)
        ensures
            jv(r) == run_args_jv(*self),
    {
        let mut fields: Vec<(String, JsonValue)> = Vec::new();
        push_field(&mut fields, "image", JsonValue::Str(self.image.clone()));
        match &self.command {
            Option::Some(c) => {
                let cj = strs_to_json(c);
                push_field(&mut fields, "command", cj);
            },
            Option::None => {},
        }
        if self.env_vars.len() > 0 {
            let ej = strs_to_json(&self.env_vars);
            push_field(&mut fields, "env_vars", ej);
        }
        if self.volume_mounts.len() > 0 {
            let vj = strs_to_json(&self.volume_mounts);
            push_field(&mut fields, "volume_mounts", vj);
        }
        match &self.name {
            Option::Some(nm) => {
                push_field(&mut fields, "name", JsonValue::Str(nm.clone()));
            },
            Option::None => {},
        }
        proof {
            assert(jv_obj(fields) =~= (match run_args_jv(*self) {
                JsonV::Obj(fs) => fs,
                _ => Seq::empty(),
            }));
        }
        JsonValue::Obj(fields)
    }
}

/// The document logs arguments serialize to: absent options are skipped.
pub open spec fn logs_args_jv(a: DockerLogsArgs) -> JsonV {
    JsonV::Obj(
        seq![("container_id"@, JsonV::Str(a.container_id@))] + (match a.since {
            Option::Some(s) => seq![("since"@, JsonV::Str(s@))],
            Option::None => Seq::empty(),
        }) + (match a.tail_lines {
            Option::Some(t) => seq![
                ("tail_lines"@, JsonV::Num(crate::json::dec_digits(t as nat))),
            ],
            Option::None => Seq::empty(),
        }) + (match a.stdout {
            Option::Some(b) => seq![("stdout"@, JsonV::Bool(b))],
            Option::None => Seq::empty(),
        }) + (match a.stderr {
            Option::Some(b) => seq![("stderr"@, JsonV::Bool(b))],
            Option::None => Seq::empty(),
        }),
    )
}

/// The document exec arguments serialize to.
pub open spec fn exec_args_jv(a: DockerExecArgs) -> JsonV {
    JsonV::Obj(
        seq![
            ("container_id"@, JsonV::Str(a.container_id@)),
            ("command"@, JsonV::Str(a.command@)),
        ],
    )
}

/// The document stop arguments serialize to.
pub open spec fn stop_args_jv(a: DockerStopArgs) -> JsonV {
    JsonV::Obj(seq![("container_id"@, JsonV::Str(a.container_id@))])
}

/// The tagged document a tool invocation serializes to: the tool name
/// under `name`, its arguments under `arguments`, and no arguments for
/// the listing tool.
pub open spec fn tool_jv(t: DockerTool) -> JsonV {
    match t {
        DockerTool::DockerRun(a) => JsonV::Obj(
            seq![("name"@, JsonV::Str("docker_run"@)), ("arguments"@, run_args_jv(a))],
        ),
        DockerTool::DockerLogs(a) => JsonV::Obj(
            seq![("name"@, JsonV::Str("docker_logs"@)), ("arguments"@, logs_args_jv(a))],
        ),
        DockerTool::DockerExec(a) => JsonV::Obj(
            seq![("name"@, JsonV::Str("docker_exec"@)), ("arguments"@, exec_args_jv(a))],
        ),
        DockerTool::DockerStop(a) => JsonV::Obj(
            seq![("name"@, JsonV::Str("docker_stop"@)), ("arguments"@, stop_args_jv(a))],
        ),
        DockerTool::DockerList => JsonV::Obj(seq![("name"@, JsonV::Str("docker_list"@))]),
    }
}

impl DockerLogsArgs {
    /// The document these arguments serialize to.
    pub fn to_json(&self) -> (r: JsonValue)
        ensures
            jv(r) == logs_args_jv(*self),
    {
        let mut fields: Vec<(String, JsonValue)> = Vec::new();
        push_field(&mut fields, "container_id", JsonValue::Str(self.container_id.clone()));
        match &self.since {
            Option::Some(s) => {
                push_field(&mut fields, "since", JsonValue::Str(s.clone()));
            },
            Option::None => {},
        }
        match self.tail_lines {
            Option::Some(t) => {
                push_field(&mut fields, "tail_lines", crate::json::uint_to_json(t));
            },
            Option::None => {},
        }
        match self.stdout {
            Option::Some(b) => {
                push_field(&mut fields, "stdout", JsonValue::Bool(b));
            },
            Option::None => {},
        }
        match self.stderr {
            Option::Some(b) => {
                push_field(&mut fields, "stderr", JsonValue::Bool(b));
            },
            Option::None => {},
        }
        proof {
            assert(jv_obj(fields) =~= (match logs_args_jv(*self) {
                JsonV::Obj(fs) => fs,
                _ => Seq::empty(),
            }));
        }
        JsonValue::Obj(fields)
    }
}

impl DockerExecArgs {
    /// The document these arguments serialize to.
    pub fn to_json(&self) -> (r: JsonValue)
        ensures
            jv(r) == exec_args_jv(*self),
    {
        let mut fields: Vec<(String, JsonValue)> = Vec::new();
        push_field(&mut fields, "container_id", JsonValue::Str(self.container_id.clone()));
        push_field(&mut fields, "command", JsonValue::Str(self.command.clone()));
        proof {
            assert(jv_obj(fields) =~= (match exec_args_jv(*self) {
                JsonV::Obj(fs) => fs,
                _ => Seq::empty(),
            }));
        }
        JsonValue::Obj(fields)
    }
}

impl DockerStopArgs {
    /// The document these arguments serialize to.
    pub fn to_json(&self) -> (r: JsonValue)
        ensures
            jv(r) == stop_args_jv(*self),
    {
        let mut fields: Vec<(String, JsonValue)> = Vec::new();
        push_field(&mut fields, "container_id", JsonValue::Str(self.container_id.clone()));
        proof {
            assert(jv_obj(fields) =~= (match stop_args_jv(*self) {
                JsonV::Obj(fs) => fs,
                _ => Seq::empty(),
            }));
        }
        JsonValue::Obj(fields)
    }
}

impl DockerTool {
    /// The tagged document this invocation serializes to.
    pub fn to_json(&self) -> (r: JsonValue)
        ensures
            jv(r) == tool_jv(*self),
    {
        let mut fields: Vec<(String, JsonValue)> = Vec::new();
        match self {
            DockerTool::DockerRun(a) => {
                push_field(&mut fields, "name", JsonValue::Str(String::from_str("docker_run")));
                let args = a.to_json();
                push_field(&mut fields, "arguments", args);
            },
            DockerTool::DockerLogs(a) => {
                push_field(&mut fields, "name", JsonValue::Str(String::from_str("docker_logs")));
                let args = a.to_json();
                push_field(&mut fields, "arguments", args);
            },
            DockerTool::DockerExec(a) => {
                push_field(&mut fields, "name", JsonValue::Str(String::from_str("docker_exec")));
                let args = a.to_json();
                push_field(&mut fields, "arguments", args);
            },
            DockerTool::DockerStop(a) => {
                push_field(&mut fields, "name", JsonValue::Str(String::from_str("docker_stop")));
                let args = a.to_json();
                push_field(&mut fields, "arguments", args);
            },
            DockerTool::DockerList => {
                push_field(&mut fields, "name", JsonValue::Str(String::from_str("docker_list")));
            },
        }
        proof {
            assert(jv_obj(fields) =~= (match tool_jv(*self) {
                JsonV::Obj(fs) => fs,
                _ => Seq::empty(),
            }));
        }
        JsonValue::Obj(fields)
    }
}

/// The view of logs arguments, as the grammar names them.
pub open spec fn logs_args_view(a: DockerLogsArgs) -> (
    Seq<char>,
    Option<Seq<char>>,
    Option<nat>,
    Option<bool>,
    Option<bool>,
) {
    (
        a.container_id@,
        (match a.since {
            Option::Some(s) => Option::Some(s@),
            Option::None => Option::None,
        }),
        (match a.tail_lines {
            Option::Some(t) => Option::Some(t as nat),
            Option::None => Option::None,
        }),
        a.stdout,
        a.stderr,
    )
}

/// One tool invocation, as the grammar names it.
pub enum ToolV {
    Run((Seq<char>, Option<Seq<Seq<char>>>, Seq<Seq<char>>, Seq<Seq<char>>, Option<Seq<char>>)),
    Logs((Seq<char>, Option<Seq<char>>, Option<nat>, Option<bool>, Option<bool>)),
    Exec((Seq<char>, Seq<char>)),
    Stop(Seq<char>),
    List,
}

pub open spec fn tool_view(t: DockerTool) -> ToolV {
    match t {
        DockerTool::DockerRun(a) => ToolV::Run(run_args_view(a)),
        DockerTool::DockerLogs(a) => ToolV::Logs(logs_args_view(a)),
        DockerTool::DockerExec(a) => ToolV::Exec((a.container_id@, a.command@)),
        DockerTool::DockerStop(a) => ToolV::Stop(a.container_id@),
        DockerTool::DockerList => ToolV::List,
    }
}

/// Which documents are accepted as a tagged tool invocation: a `name`
/// field carrying the tag, and an `arguments` field in the shape the
/// named tool demands (none for the listing tool).
pub open spec fn tool_of(j: JsonV) -> Option<ToolV> {
    match json_get(j, "name"@) {
        Option::Some(JsonV::Str(tag)) => {
            if tag == "docker_run"@ {
                match json_get(j, "arguments"@) {
                    Option::Some(a) => match run_args_of(a) {
                        Option::Some(t) => Some(ToolV::Run(t)),
                        Option::None => None,
                    },
                    Option::None => None,
                }
            } else if tag == "docker_logs"@ {
                match json_get(j, "arguments"@) {
                    Option::Some(a) => match logs_args_of(a) {
                        Option::Some(t) => Some(ToolV::Logs(t)),
                        Option::None => None,
                    },
                    Option::None => None,
                }
            } else if tag == "docker_exec"@ {
                match json_get(j, "arguments"@) {
                    Option::Some(a) => match exec_args_of(a) {
                        Option::Some(t) => Some(ToolV::Exec(t)),
                        Option::None => None,
                    },
                    Option::None => None,
                }
            } else if tag == "docker_stop"@ {
                match json_get(j, "arguments"@) {
                    Option::Some(a) => match stop_args_of(a) {
                        Option::Some(cid) => Some(ToolV::Stop(cid)),
                        Option::None => None,
                    },
                    Option::None => None,
                }
            } else if tag == "docker_list"@ {
                Some(ToolV::List)
            } else {
                None
            }
        },
        _ => None,
    }
}

impl DockerTool {
    /// The tool invocation written in the document, if it is one.
    pub fn from_json(v: &JsonValue) -> (r: Option<DockerTool>)
        ensures
            (match r {
                Option::Some(t) => tool_of(jv(*v)) == Some(tool_view(t)),
                Option::None => tool_of(jv(*v)) is None,
            }),
    {
        let tag: String = match get_field(v, "name") {
            Option::Some(JsonValue::Str(s)) => s.clone(),
            _ => {
                return None;
            },
        };
        if crate::text::str_eq("docker_run", tag.as_str()) {
            match get_field(v, "arguments") {
                Option::Some(a) => match docker_run_args_from_json(a) {
                    Option::Some(args) => Some(DockerTool::DockerRun(args)),
                    Option::None => None,
                },
                Option::None => None,
            }
        } else if crate::text::str_eq("docker_logs", tag.as_str()) {
            match get_field(v, "arguments") {
                Option::Some(a) => match docker_logs_args_from_json(a) {
                    Option::Some(args) => Some(DockerTool::DockerLogs(args)),
                    Option::None => None,
                },
                Option::None => None,
            }
        } else if crate::text::str_eq("docker_exec", tag.as_str()) {
            match get_field(v, "arguments") {
                Option::Some(a) => match docker_exec_args_from_json(a) {
                    Option::Some(args) => Some(DockerTool::DockerExec(args)),
                    Option::None => None,
                },
                Option::None => None,
            }
        } else if crate::text::str_eq("docker_stop", tag.as_str()) {
            match get_field(v, "arguments") {
                Option::Some(a) => match docker_stop_args_from_json(a) {
                    Option::Some(args) => Some(DockerTool::DockerStop(args)),
                    Option::None => None,
                },
                Option::None => None,
            }
        } else if crate::text::str_eq("docker_list", tag.as_str()) {
            Some(DockerTool::DockerList)
        } else {
            None
        }
    }
}

} // verus!
