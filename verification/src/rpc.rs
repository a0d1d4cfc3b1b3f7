//! JSON-RPC 2.0 envelopes.
//!
//! A request carries an optional id, a method name, and params of any
//! shape; a response echoes the id and carries exactly one of a result or
//! an error.  `response_jv` defines the exact document a response
//! serializes to, with absent fields skipped.

use crate::json::JsonV;
use crate::json::JsonValue;
use crate::json::clone_json;
use crate::json::dec_int;
use crate::json::get_field;
use crate::json::int_to_json;
use crate::json::json_get;
use crate::json::obj_lookup;
use crate::json::obj_lookup_from;
use crate::json::lemma_lookup_concat;
use crate::json::jv;
use crate::json::jv_fields;
use crate::json::jv_obj;
use crate::json::lemma_jv_fields_push;
use crate::json::wf_json;
use vstd::prelude::*;
use vstd::string::*;

verus! {

/// The request body could not be parsed as JSON.
pub const PARSE_ERROR: i32 = -32700;

/// The body parsed, but is not a valid request envelope.
pub const INVALID_REQUEST: i32 = -32600;

/// The request names a method this server does not have.
pub const METHOD_NOT_FOUND: i32 = -32601;

/// The params do not fit the named method or tool.
pub const INVALID_PARAMS: i32 = -32602;

/// The server failed while handling a valid request.
pub const INTERNAL_ERROR: i32 = -32603;

/// A JSON-RPC 2.0 error object.
#[derive(Debug)]
pub struct JsonRpcError {
    pub code: i32,
    pub message: String,
    pub data: Option<JsonValue>,
}

/// A JSON-RPC 2.0 response envelope.
#[derive(Debug)]
pub struct JsonRpcResponse {
    pub jsonrpc: &'static str,
    pub id: Option<JsonValue>,
    pub result: Option<JsonValue>,
    pub error: Option<JsonRpcError>,
}

/// A JSON-RPC 2.0 request envelope.
#[derive(Debug)]
pub struct JsonRpcRequest {
    pub jsonrpc: String,
    pub id: Option<JsonValue>,
    pub method: String,
    pub params: JsonValue,
}

/// A response in the shape the protocol demands: the version string is
/// `2.0`, exactly one of result and error is set, and every held document
/// is well-formed.
pub open spec fn resp_wf(r: JsonRpcResponse) -> bool {
    &&& r.jsonrpc@ == "2.0"@
    &&& ((r.result is Some) != (r.error is Some))
    &&& (match r.id {
        Option::Some(v) => wf_json(jv(v)),
        Option::None => true,
    })
    &&& (match r.result {
        Option::Some(v) => wf_json(jv(v)),
        Option::None => true,
    })
    &&& (match r.error {
        Option::Some(e) => (match e.data {
            Option::Some(d) => wf_json(jv(d)),
            Option::None => true,
        }),
        Option::None => true,
    })
}

/// The document an error object serializes to.
pub open spec fn error_jv(e: JsonRpcError) -> JsonV {
    JsonV::Obj(
        seq![("code"@, JsonV::Num(dec_int(e.code as int))), ("message"@, JsonV::Str(e.message@))]
            + (match e.data {
            Option::Some(d) => seq![("data"@, jv(d))],
            Option::None => Seq::empty(),
        }),
    )
}

/// The document a response serializes to: `jsonrpc` always, then `id`,
/// `result` and `error`, each skipped when absent.
pub open spec fn response_fields(r: JsonRpcResponse) -> Seq<(Seq<char>, JsonV)> {
    seq![("jsonrpc"@, JsonV::Str(r.jsonrpc@))] + (match r.id {
        Option::Some(v) => seq![("id"@, jv(v))],
        Option::None => Seq::empty(),
    }) + (match r.result {
        Option::Some(v) => seq![("result"@, jv(v))],
        Option::None => Seq::empty(),
    }) + (match r.error {
        Option::Some(e) => seq![("error"@, error_jv(e))],
        Option::None => Seq::empty(),
    })
}

pub open spec fn response_jv(r: JsonRpcResponse) -> JsonV {
    JsonV::Obj(response_fields(r))
}

impl JsonRpcResponse {
    /// The success envelope: the echoed id and the given result, no error.
    pub fn success(id: Option<JsonValue>, result: JsonValue) -> (r: JsonRpcResponse)
        ensures
            r.jsonrpc@ == "2.0"@,
            r.id == id,
            r.result == Some(result),
            r.error is None,
            (match id {
                Option::Some(v) => wf_json(jv(v)),
                Option::None => true,
            }) && wf_json(jv(result)) ==> resp_wf(r),
    {
        JsonRpcResponse { jsonrpc: "2.0", id, result: Some(result), error: None }
    }

    /// The error envelope: the echoed id and an error object with the
    /// given code and message, no result.
    pub fn error(id: Option<JsonValue>, code: i32, message: &str) -> (r: JsonRpcResponse)
        ensures
            r.jsonrpc@ == "2.0"@,
            r.id == id,
            r.result is None,
            r.error is Some,
            r.error->0.code == code,
            r.error->0.message@ == message@,
            r.error->0.data is None,
            (match id {
                Option::Some(v) => wf_json(jv(v)),
                Option::None => true,
            }) ==> resp_wf(r),
    {
        JsonRpcResponse {
            jsonrpc: "2.0",
            id,
            result: None,
            error: Some(
                JsonRpcError { code, message: String::from_str(message), data: None },
            ),
        }
    }

    /// The document this response serializes to.
    pub fn to_json(&self) -> (r: JsonValue)
        ensures
            jv(r) == response_jv(*self),
    {
        let mut fields: Vec<(String, JsonValue)> = Vec::new();
        fields.push((String::from_str("jsonrpc"), JsonValue::Str(String::from_str(self.jsonrpc))));
        proof {
            lemma_jv_fields_push(Seq::empty(), fields@[0]);
            assert(jv_fields(fields@, 0) =~= seq![("jsonrpc"@, JsonV::Str(self.jsonrpc@))]);
        }
        match &self.id {
            Option::Some(v) => {
                let ghost before = fields@;
                fields.push((String::from_str("id"), clone_json(v)));
                proof {
                    lemma_jv_fields_push(before, fields@[fields@.len() - 1]);
                }
            },
            Option::None => {},
        }
        proof {
            assert(jv_fields(fields@, 0) =~= seq![("jsonrpc"@, JsonV::Str(self.jsonrpc@))]
                + (match self.id {
                Option::Some(v) => seq![("id"@, jv(v))],
                Option::None => Seq::empty(),
            }));
        }
        let ghost mid = jv_fields(fields@, 0);
        match &self.result {
            Option::Some(v) => {
                let ghost before = fields@;
                fields.push((String::from_str("result"), clone_json(v)));
                proof {
                    lemma_jv_fields_push(before, fields@[fields@.len() - 1]);
                }
            },
            Option::None => {},
        }
        proof {
            assert(jv_fields(fields@, 0) =~= mid + (match self.result {
                Option::Some(v) => seq![("result"@, jv(v))],
                Option::None => Seq::empty(),
            }));
        }
        let ghost mid2 = jv_fields(fields@, 0);
        match &self.error {
            Option::Some(e) => {
                let ghost before = fields@;
                let ejson = error_to_json(e);
                fields.push((String::from_str("error"), ejson));
                proof {
                    lemma_jv_fields_push(before, fields@[fields@.len() - 1]);
                }
            },
            Option::None => {},
        }
        proof {
            assert(jv_fields(fields@, 0) =~= mid2 + (match self.error {
                Option::Some(e) => seq![("error"@, error_jv(e))],
                Option::None => Seq::empty(),
            }));
            assert(jv_obj(fields) =~= response_fields(*self));
        }
        JsonValue::Obj(fields)
    }
}

/// The document an error object serializes to.
fn error_to_json(e: &JsonRpcError) -> (r: JsonValue)
    ensures
        jv(r) == error_jv(*e),
{
    let mut fields: Vec<(String, JsonValue)> = Vec::new();
    fields.push((String::from_str("code"), int_to_json(e.code as i64)));
    proof {
        lemma_jv_fields_push(Seq::empty(), fields@[0]);
    }
    let ghost one = jv_fields(fields@, 0);
    let ghost before2 = fields@;
    fields.push((String::from_str("message"), JsonValue::Str(e.message.clone())));
    proof {
        lemma_jv_fields_push(before2, fields@[1]);
        assert(jv_fields(fields@, 0) =~= seq![
            ("code"@, JsonV::Num(dec_int(e.code as int))),
            ("message"@, JsonV::Str(e.message@)),
        ]);
    }
    let ghost two = jv_fields(fields@, 0);
    match &e.data {
        Option::Some(d) => {
            let ghost before = fields@;
            fields.push((String::from_str("data"), clone_json(d)));
            proof {
                lemma_jv_fields_push(before, fields@[fields@.len() - 1]);
            }
        },
        Option::None => {},
    }
    proof {
        assert(jv_fields(fields@, 0) =~= two + (match e.data {
            Option::Some(d) => seq![("data"@, jv(d))],
            Option::None => Seq::empty(),
        }));
        assert(jv_obj(fields) =~= (match error_jv(*e) {
            JsonV::Obj(fs) => fs,
            _ => Seq::empty(),
        }));
    }
    JsonValue::Obj(fields)
}

/// Reading a response's serialized document back yields exactly one of
/// `result` and `error`, never both, matching the skip-if-absent
/// writing; the id is present exactly when the response carries one, and
/// every present field reads back as what was written.
pub proof fn lemma_response_round_trip(r: JsonRpcResponse)
    requires
        resp_wf(r),
    ensures
        (json_get(response_jv(r), "result"@) is Some) != (json_get(response_jv(r), "error"@) is Some),
        (json_get(response_jv(r), "result"@) is Some) == (r.result is Some),
        (json_get(response_jv(r), "error"@) is Some) == (r.error is Some),
        (json_get(response_jv(r), "id"@) is Some) == (r.id is Some),
        json_get(response_jv(r), "jsonrpc"@) == Some(JsonV::Str("2.0"@)),
        (match r.result {
            Option::Some(v) => json_get(response_jv(r), "result"@) == Some(jv(v)),
            Option::None => true,
        }),
        (match r.error {
            Option::Some(e) => json_get(response_jv(r), "error"@) == Some(error_jv(e)),
            Option::None => true,
        }),
        (match r.id {
            Option::Some(v) => json_get(response_jv(r), "id"@) == Some(jv(v)),
            Option::None => true,
        }),
{
    reveal_strlit("jsonrpc");
    reveal_strlit("id");
    reveal_strlit("result");
    reveal_strlit("error");
    reveal_strlit("2.0");
    let fs = response_fields(r);
    let id_part: Seq<(Seq<char>, JsonV)> = (match r.id {
        Option::Some(v) => seq![("id"@, jv(v))],
        Option::None => Seq::empty(),
    });
    let result_part: Seq<(Seq<char>, JsonV)> = (match r.result {
        Option::Some(v) => seq![("result"@, jv(v))],
        Option::None => Seq::empty(),
    });
    let error_part: Seq<(Seq<char>, JsonV)> = (match r.error {
        Option::Some(e) => seq![("error"@, error_jv(e))],
        Option::None => Seq::empty(),
    });
    let head: Seq<(Seq<char>, JsonV)> = seq![("jsonrpc"@, JsonV::Str(r.jsonrpc@))];
    assert(fs =~= head + (id_part + (result_part + error_part)));
    assert("jsonrpc"@.len() == 7 && "id"@.len() == 2 && "result"@.len() == 6 && "error"@.len()
        == 5 && "2.0"@.len() == 3);
    assert forall|key: Seq<char>|
        key == "jsonrpc"@ || key == "id"@ || key == "result"@ || key == "error"@ implies
        #[trigger] obj_lookup(fs, key) == lookup_shape(r, key) by {
        lemma_lookup_concat(head, id_part + (result_part + error_part), key);
        lemma_lookup_concat(id_part, result_part + error_part, key);
        lemma_lookup_concat(result_part, error_part, key);
        lemma_lookup_single(("jsonrpc"@, JsonV::Str(r.jsonrpc@)), key);
        match r.id {
            Option::Some(v) => lemma_lookup_single(("id"@, jv(v)), key),
            Option::None => lemma_lookup_empty(key),
        }
        match r.result {
            Option::Some(v) => lemma_lookup_single(("result"@, jv(v)), key),
            Option::None => lemma_lookup_empty(key),
        }
        match r.error {
            Option::Some(e) => lemma_lookup_single(("error"@, error_jv(e)), key),
            Option::None => lemma_lookup_empty(key),
        }
        assert(obj_lookup(fs, key) == obj_lookup(
            head + (id_part + (result_part + error_part)),
            key,
        ));
    }
    assert(obj_lookup(fs, "jsonrpc"@) == lookup_shape(r, "jsonrpc"@));
    assert(obj_lookup(fs, "id"@) == lookup_shape(r, "id"@));
    assert(obj_lookup(fs, "result"@) == lookup_shape(r, "result"@));
    assert(obj_lookup(fs, "error"@) == lookup_shape(r, "error"@));
}

proof fn lemma_lookup_single(p: (Seq<char>, JsonV), key: Seq<char>)
    ensures
        obj_lookup(seq![p], key) == (if p.0 == key {
            Option::Some(p.1)
        } else {
            Option::<JsonV>::None
        }),
{
    assert(obj_lookup_from(seq![p], key, 1) is None);
}

proof fn lemma_lookup_empty(key: Seq<char>)
    ensures
        obj_lookup(Seq::<(Seq<char>, JsonV)>::empty(), key) is None,
{
}

/// What looking up one of the four field names in a response's document
/// finds.
pub open spec fn lookup_shape(r: JsonRpcResponse, key: Seq<char>) -> Option<JsonV> {
    if key == "jsonrpc"@ {
        Some(JsonV::Str(r.jsonrpc@))
    } else if key == "id"@ {
        match r.id {
            Option::Some(v) => Some(jv(v)),
            Option::None => None,
        }
    } else if key == "result"@ {
        match r.result {
            Option::Some(v) => Some(jv(v)),
            Option::None => None,
        }
    } else if key == "error"@ {
        match r.error {
            Option::Some(e) => Some(error_jv(e)),
            Option::None => None,
        }
    } else {
        None
    }
}


proof fn lemma_wf_fields_concat(a: Seq<(Seq<char>, JsonV)>, b: Seq<(Seq<char>, JsonV)>)
    requires
        forall|q: int| 0 <= q < a.len() ==> wf_json(#[trigger] a[q].1),
        forall|q: int| 0 <= q < b.len() ==> wf_json(#[trigger] b[q].1),
    ensures
        forall|q: int| 0 <= q < (a + b).len() ==> wf_json(#[trigger] (a + b)[q].1),
{
    assert forall|q: int| 0 <= q < (a + b).len() implies wf_json(#[trigger] (a + b)[q].1) by {
        if q < a.len() {
            assert((a + b)[q] == a[q]);
        } else {
            assert((a + b)[q] == b[q - a.len()]);
        }
    }
}

/// The document of a well-shaped response is well-formed.
pub proof fn lemma_wf_response(r: JsonRpcResponse)
    requires
        resp_wf(r),
    ensures
        wf_json(response_jv(r)),
{
    let head: Seq<(Seq<char>, JsonV)> = seq![("jsonrpc"@, JsonV::Str(r.jsonrpc@))];
    let id_part: Seq<(Seq<char>, JsonV)> = (match r.id {
        Option::Some(v) => seq![("id"@, jv(v))],
        Option::None => Seq::empty(),
    });
    let result_part: Seq<(Seq<char>, JsonV)> = (match r.result {
        Option::Some(v) => seq![("result"@, jv(v))],
        Option::None => Seq::empty(),
    });
    let error_part: Seq<(Seq<char>, JsonV)> = (match r.error {
        Option::Some(e) => seq![("error"@, error_jv(e))],
        Option::None => Seq::empty(),
    });
    assert(forall|q: int| 0 <= q < head.len() ==> wf_json(#[trigger] head[q].1));
    assert(forall|q: int| 0 <= q < id_part.len() ==> wf_json(#[trigger] id_part[q].1));
    assert(forall|q: int| 0 <= q < result_part.len() ==> wf_json(#[trigger] result_part[q].1));
    match r.error {
        Option::Some(e) => {
            lemma_wf_error(e);
            assert(error_part[0].1 == error_jv(e));
        },
        Option::None => {},
    }
    assert(forall|q: int| 0 <= q < error_part.len() ==> wf_json(#[trigger] error_part[q].1));
    lemma_wf_fields_concat(head, id_part);
    lemma_wf_fields_concat(head + id_part, result_part);
    lemma_wf_fields_concat(head + id_part + result_part, error_part);
    crate::json::lemma_wf_fields_all(head + id_part + result_part + error_part, 0);
    assert(response_fields(r) == head + id_part + result_part + error_part);
}

/// The document of an error object is well-formed.
proof fn lemma_wf_error(e: JsonRpcError)
    requires
        (match e.data {
            Option::Some(d) => wf_json(jv(d)),
            Option::None => true,
        }),
    ensures
        wf_json(error_jv(e)),
{
    let head: Seq<(Seq<char>, JsonV)> = seq![
        ("code"@, JsonV::Num(dec_int(e.code as int))),
        ("message"@, JsonV::Str(e.message@)),
    ];
    let data_part: Seq<(Seq<char>, JsonV)> = (match e.data {
        Option::Some(d) => seq![("data"@, jv(d))],
        Option::None => Seq::empty(),
    });
    crate::json::lemma_dec_int_token(e.code as int);
    assert forall|q: int| 0 <= q < head.len() implies wf_json(#[trigger] head[q].1) by {
        if q == 0 {
            assert(head[q].1 == JsonV::Num(dec_int(e.code as int)));
        } else {
            assert(head[q].1 == JsonV::Str(e.message@));
        }
    }
    assert(forall|q: int| 0 <= q < data_part.len() ==> wf_json(#[trigger] data_part[q].1));
    lemma_wf_fields_concat(head, data_part);
    crate::json::lemma_wf_fields_all(head + data_part, 0);
}

/// The round trip of a response on the wire: its serialized text parses
/// back to exactly its document, in which exactly one of `result` and
/// `error` stands, the absent one skipped.
pub proof fn lemma_response_text_round_trip(r: JsonRpcResponse)
    requires
        resp_wf(r),
    ensures
        crate::json::sp_text(crate::json::ser_value(response_jv(r))) == Some(response_jv(r)),
        (json_get(response_jv(r), "result"@) is Some) != (json_get(response_jv(r), "error"@) is Some),
{
    lemma_wf_response(r);
    crate::json::lemma_codec_round_trip(response_jv(r));
    lemma_response_round_trip(r);
}

/// What a document must hold to be a request envelope: a string
/// `jsonrpc`, a string `method`, an id that is absent when missing or
/// JSON null, and params that default to JSON null.
pub open spec fn request_of(j: JsonV) -> Option<(Seq<char>, Option<JsonV>, Seq<char>, JsonV)> {
    match j {
        JsonV::Obj(fields) => {
            match (json_get(j, "jsonrpc"@), json_get(j, "method"@)) {
                (Option::Some(JsonV::Str(ver)), Option::Some(JsonV::Str(m))) => {
                    let id = (match json_get(j, "id"@) {
                        Option::Some(JsonV::Null) => Option::None,
                        other => other,
                    });
                    let params = (match json_get(j, "params"@) {
                        Option::Some(p) => p,
                        Option::None => JsonV::Null,
                    });
                    Some((ver, id, m, params))
                },
                _ => None,
            }
        },
        _ => None,
    }
}

/// The request written in the document, if it is a valid envelope.
pub fn request_from_json(v: &JsonValue) -> (r: Option<JsonRpcRequest>)
    ensures
        (match r {
            Option::Some(req) => request_of(jv(*v)) == Some(
                (
                    req.jsonrpc@,
                    (match req.id {
                        Option::Some(x) => Option::Some(jv(x)),
                        Option::None => Option::<JsonV>::None,
                    }),
                    req.method@,
                    jv(req.params),
                ),
            ),
            Option::None => request_of(jv(*v)) is None,
        }),
{
    let ver: String = match get_field(v, "jsonrpc") {
        Option::Some(JsonValue::Str(s)) => s.clone(),
        _ => {
            return None;
        },
    };
    let method: String = match get_field(v, "method") {
        Option::Some(JsonValue::Str(s)) => s.clone(),
        _ => {
            return None;
        },
    };
    let id: Option<JsonValue> = match get_field(v, "id") {
        Option::Some(JsonValue::Null) => None,
        Option::Some(x) => Some(clone_json(x)),
        Option::None => None,
    };
    let params: JsonValue = match get_field(v, "params") {
        Option::Some(p) => clone_json(p),
        Option::None => JsonValue::Null,
    };
    Some(JsonRpcRequest { jsonrpc: ver, id, method, params })
}

} // verus!
