//! Per-request decisions of the HTTP surface.
//!
//! Every request first has its origin validated; a rejected request
//! is answered with a forbidden status before any other work, and in
//! particular before any session store change.  POST carries one
//! JSON-RPC request, with a session created on `initialize`; GET opens a
//! subscription for a live session; DELETE terminates one.  The HTTP
//! framing itself lives outside the library and only carries these
//! decisions out.

use crate::dispatch::RoutePlan;
use crate::dispatch::handle_request;
use crate::dispatch::id_view;
use crate::dispatch::initialize_result_jv;
use crate::dispatch::route_matches;
use crate::json::JsonValue;
use crate::json::jv;
use crate::json::sp_text;
use crate::rpc::JsonRpcResponse;
use crate::rpc::PARSE_ERROR;
use crate::rpc::request_of;
use crate::rpc::resp_wf;
use crate::session::AppState;
use crate::session::SseMessage;
use crate::text::seq_contains;
use crate::text::seq_starts_with;
use crate::text::str_contains;
use crate::text::str_eq;
use crate::text::str_starts_with;
use crate::tools::DockerTool;
use crate::tools::strs_view;
use vstd::prelude::*;
use vstd::string::*;

verus! {

/// Whether the origin stands in the allow-list at or after `k`.
pub open spec fn in_allow_list(list: Seq<Seq<char>>, o: Seq<char>, k: int) -> bool
    decreases list.len() - k,
{
    if 0 <= k < list.len() {
        list[k] == o || in_allow_list(list, o, k + 1)
    } else {
        false
    }
}

/// Whether a request origin is allowed: no origin always is; with
/// an allow-list, exact membership; without one, only localhost origins.
pub open spec fn origin_ok(origin: Option<Seq<char>>, allowed: Option<Seq<Seq<char>>>) -> bool {
    match origin {
        Option::None => true,
        Option::Some(o) => match allowed {
            Option::Some(list) => in_allow_list(list, o, 0),
            Option::None => seq_starts_with(o, "http://localhost"@) || seq_starts_with(
                o,
                "http://127.0.0.1"@,
            ) || seq_starts_with(o, "https://localhost"@) || seq_starts_with(
                o,
                "https://127.0.0.1"@,
            ),
        },
    }
}

/// The view of an optional header value.
pub open spec fn hdr_view(h: Option<&str>) -> Option<Seq<char>> {
    match h {
        Option::Some(s) => Some(s@),
        Option::None => None,
    }
}

/// The view of an optional allow-list.
pub open spec fn allow_view(a: Option<Vec<String>>) -> Option<Seq<Seq<char>>> {
    match a {
        Option::Some(list) => Some(strs_view(list)),
        Option::None => None,
    }
}

/// The origin rule, applied before any other work on a request.
pub fn validate_origin(origin: Option<&str>, allowed_origins: &Option<Vec<String>>) -> (r: bool)
    ensures
        r == origin_ok(hdr_view(origin), allow_view(*allowed_origins)),
{
    let o: &str = match origin {
        Option::Some(x) => x,
        Option::None => {
            assert(origin_ok(hdr_view(origin), allow_view(*allowed_origins)));
            return true;
        },
    };
    assert(hdr_view(origin) == Some(o@));
    match allowed_origins {
        Option::Some(list) => {
            assert(allow_view(*allowed_origins) == Some(strs_view(*list)));
            let hit = origin_in_list(o, list);
            hit
        },
        Option::None => {
            assert(allow_view(*allowed_origins) is None);
            let hit = str_starts_with(o, "http://localhost") || str_starts_with(
                o,
                "http://127.0.0.1",
            ) || str_starts_with(o, "https://localhost") || str_starts_with(
                o,
                "https://127.0.0.1",
            );
            assert(origin_ok(hdr_view(origin), allow_view(*allowed_origins)) == hit);
            hit
        },
    }
}

fn origin_in_list(o: &str, list: &Vec<String>) -> (r: bool)
    ensures
        r == in_allow_list(strs_view(*list), o@, 0),
{
    let n = list.len();
    let mut k: usize = 0;
    while k < n
        invariant
            k <= n,
            n == list@.len(),
            in_allow_list(strs_view(*list), o@, 0) == in_allow_list(strs_view(*list), o@, k as int),
        decreases n - k,
    {
        if str_eq(list[k].as_str(), o) {
            assert(strs_view(*list)[k as int] == o@);
            return true;
        }
        assert(strs_view(*list)[k as int] != o@);
        k = k + 1;
    }
    false
}

/// What a POST is answered with.
#[derive(Debug)]
pub enum PostAction {
    /// The origin was refused: forbidden, nothing else done.
    Forbidden,
    /// The body is not a request: a bad-request status with this
    /// parse-error envelope.
    BadRequest(JsonRpcResponse),
    /// An accepted `initialize`: the fresh session id, carried in the
    /// session header, and the response envelope.
    Initialized(String, JsonRpcResponse),
    /// A fully handled request.
    Reply(JsonRpcResponse),
    /// A tool invocation for the container backend; its outcome is
    /// rendered by `finish_tools_call`.
    Invoke(Option<JsonValue>, DockerTool),
}

/// A parse-failure POST answer: the parse-error code with an absent id.
pub open spec fn post_parse_error(resp: JsonRpcResponse) -> bool {
    &&& resp.id is None
    &&& resp.result is None
    &&& resp.error is Some
    &&& resp.error->0.code == PARSE_ERROR
    &&& resp_wf(resp)
}

/// What a POST with the given state and body must be answered with.
pub open spec fn post_matches(
    pre: AppState,
    post: AppState,
    body: Seq<char>,
    r: PostAction,
) -> bool {
    match sp_text(body) {
        Option::None => (r matches PostAction::BadRequest(resp) && post_parse_error(resp) && post
            == pre),
        Option::Some(doc) => match request_of(doc) {
            Option::None => (r matches PostAction::BadRequest(resp) && post_parse_error(resp)
                && post == pre),
            Option::Some((ver, id, m, params)) => {
                if m == "initialize"@ {
                    &&& r matches PostAction::Initialized(sid, resp)
                    &&& post.has_session(sid@)
                    &&& (forall|s: Seq<char>|
                        #[trigger] post.has_session(s) == (pre.has_session(s) || s == sid@))
                    &&& id_view(resp.id) == id
                    &&& resp.error is None
                    &&& resp.result is Some
                    &&& jv(resp.result->0) == initialize_result_jv()
                    &&& (crate::dispatch::opt_id_wf(id) ==> resp_wf(resp))
                } else {
                    &&& post == pre
                    &&& (match r {
                        PostAction::Reply(resp) => route_matches(
                            RoutePlan::Reply(resp),
                            id,
                            m,
                            params,
                        ),
                        PostAction::Invoke(pid, t) => route_matches(
                            RoutePlan::Invoke(pid, t),
                            id,
                            m,
                            params,
                        ),
                        _ => false,
                    })
                }
            },
        },
    }
}

/// One POST request: origin validation first, then parsing, then a session
/// for `initialize`, then the dispatcher.
pub fn handle_post(state: &mut AppState, origin: Option<&str>, body: &str) -> (r: PostAction)
    requires
        old(state).wf(),
    ensures
        final(state).wf(),
        final(state).allowed_origins == old(state).allowed_origins,
        !origin_ok(hdr_view(origin), allow_view(old(state).allowed_origins)) ==> (
        r is Forbidden && *final(state) == *old(state)),
        origin_ok(hdr_view(origin), allow_view(old(state).allowed_origins)) ==> post_matches(
            *old(state),
            *final(state),
            body@,
            r,
        ),
        (match r {
            PostAction::BadRequest(resp) => resp_wf(resp),
            PostAction::Initialized(sid, resp) => resp_wf(resp),
            PostAction::Reply(resp) => resp_wf(resp),
            _ => true,
        }),
{
    if !validate_origin(origin, &state.allowed_origins) {
        return PostAction::Forbidden;
    }
    match crate::parse::parse_json_text(body) {
        Option::None => PostAction::BadRequest(
            JsonRpcResponse::error(None, PARSE_ERROR, "Parse error"),
        ),
        Option::Some(doc) => {
            match crate::rpc::request_from_json(&doc) {
                Option::None => PostAction::BadRequest(
                    JsonRpcResponse::error(None, PARSE_ERROR, "Parse error"),
                ),
                Option::Some(req) => {
                    proof {
                        crate::dispatch::lemma_request_parts_wf(jv(doc));
                    }
                    if str_eq("initialize", req.method.as_str()) {
                        let session_id = state.create_session();
                        let resp = crate::dispatch::handle_initialize(req.id);
                        PostAction::Initialized(session_id, resp)
                    } else {
                        match handle_request(req) {
                            RoutePlan::Reply(resp) => PostAction::Reply(resp),
                            RoutePlan::Invoke(pid, t) => PostAction::Invoke(pid, t),
                        }
                    }
                },
            }
        },
    }
}

/// What a GET is answered with.
#[derive(Debug)]
pub enum GetAction {
    /// The origin was refused.
    Forbidden,
    /// The request does not accept an event stream.
    NotAcceptable,
    /// No session header was given.
    MissingSession,
    /// The named session is not held.
    NotFound,
    /// The opened subscription; it observes every later publish on the
    /// session's channel, in order, minus what a lagging consumer loses.
    Stream(tokio::sync::broadcast::Receiver<SseMessage>),
}

/// One GET request: origin validation, the `Accept` header, the session
/// header, then a subscription to the named live session.
pub fn handle_get(
    state: &AppState,
    origin: Option<&str>,
    accept: Option<&str>,
    session_id: Option<&str>,
) -> (r: GetAction)
    ensures
        !origin_ok(hdr_view(origin), allow_view(state.allowed_origins)) ==> r is Forbidden,
        origin_ok(hdr_view(origin), allow_view(state.allowed_origins)) ==> (match accept {
            Option::None => r is NotAcceptable,
            Option::Some(a) => if !seq_contains(a@, "text/event-stream"@) {
                r is NotAcceptable
            } else {
                match session_id {
                    Option::None => r is MissingSession,
                    Option::Some(sid) => if state.has_session(sid@) {
                        r is Stream
                    } else {
                        r is NotFound
                    },
                }
            },
        }),
{
    if !validate_origin(origin, &state.allowed_origins) {
        return GetAction::Forbidden;
    }
    let ok_accept = match accept {
        Option::Some(a) => str_contains(a, "text/event-stream"),
        Option::None => false,
    };
    if !ok_accept {
        return GetAction::NotAcceptable;
    }
    match session_id {
        Option::None => GetAction::MissingSession,
        Option::Some(sid) => {
            match state.subscribe(sid) {
                Option::Some(rx) => GetAction::Stream(rx),
                Option::None => GetAction::NotFound,
            }
        },
    }
}

/// What a DELETE is answered with.
#[derive(Debug)]
pub enum DeleteAction {
    /// The origin was refused.
    Forbidden,
    /// No session header was given.
    MissingSession,
    /// The session existed and is now removed.
    Terminated,
    /// The named session is not held.
    NotFound,
}

/// One DELETE request: origin validation, the session header, then
/// permanent removal of the named session.
pub fn handle_delete(
    state: &mut AppState,
    origin: Option<&str>,
    session_id: Option<&str>,
) -> (r: DeleteAction)
    requires
        old(state).wf(),
    ensures
        final(state).wf(),
        final(state).allowed_origins == old(state).allowed_origins,
        !origin_ok(hdr_view(origin), allow_view(old(state).allowed_origins)) ==> (
        r is Forbidden && *final(state) == *old(state)),
        origin_ok(hdr_view(origin), allow_view(old(state).allowed_origins)) ==> (match session_id {
            Option::None => r is MissingSession && *final(state) == *old(state),
            Option::Some(sid) => {
                &&& (r is Terminated) == old(state).has_session(sid@)
                &&& (r is NotFound) == !old(state).has_session(sid@)
                &&& !final(state).has_session(sid@)
                &&& (forall|s: Seq<char>|
                    s != sid@ ==> #[trigger] final(state).has_session(s) == old(
                        state,
                    ).has_session(s))
            },
        }),
{
    if !validate_origin(origin, &state.allowed_origins) {
        return DeleteAction::Forbidden;
    }
    match session_id {
        Option::None => DeleteAction::MissingSession,
        Option::Some(sid) => {
            if state.remove_session(sid) {
                DeleteAction::Terminated
            } else {
                proof {
                    assert(!old(state).has_session(sid@));
                }
                DeleteAction::NotFound
            }
        },
    }
}

} // verus!
