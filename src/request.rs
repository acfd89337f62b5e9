//! Reading a request out of a parsed message.
use vstd::prelude::*;
use crate::json::{Json, JsonValue, lemma_view_fields, member, opt_view, view_fields};
use crate::text::text_eq;

verus! {

/// One inbound message. A request without `id` is a notification.
pub struct Request {
    pub jsonrpc: String,
    pub method: String,
    pub params: JsonValue,
    pub id: Option<JsonValue>,
}

pub struct RequestModel {
    pub jsonrpc: Seq<char>,
    pub method: Seq<char>,
    pub params: Json,
    pub id: Option<Json>,
}

impl View for Request {
    type V = RequestModel;

    open spec fn view(&self) -> RequestModel {
        RequestModel {
            jsonrpc: self.jsonrpc@,
            method: self.method@,
            params: self.params@,
            id: opt_view(self.id),
        }
    }
}

/// The request that a message holds: an object whose `jsonrpc` and `method`
/// are strings. An absent `params` reads as null; an absent or null `id`
/// makes the message a notification.
pub open spec fn spec_parse_request(v: Json) -> Option<RequestModel> {
    match v {
        Json::Object(f) => match (member(f, "jsonrpc"@), member(f, "method"@)) {
            (Some(Json::Str(j)), Some(Json::Str(m))) => Some(
                RequestModel {
                    jsonrpc: j,
                    method: m,
                    params: match member(f, "params"@) {
                        Some(p) => p,
                        None => Json::Null,
                    },
                    id: match member(f, "id"@) {
                        Some(Json::Null) => None,
                        Some(x) => Some(x),
                        None => None,
                    },
                },
            ),
            _ => None,
        },
        _ => None,
    }
}

/// The values of the members `jsonrpc`, `method`, `params` and `id`.
fn take_request_members(fields: Vec<(String, JsonValue)>) -> (r: (
    Option<JsonValue>,
    Option<JsonValue>,
    Option<JsonValue>,
    Option<JsonValue>,
))
    ensures
        opt_view(r.0) == member(view_fields(fields@), "jsonrpc"@),
        opt_view(r.1) == member(view_fields(fields@), "method"@),
        opt_view(r.2) == member(view_fields(fields@), "params"@),
        opt_view(r.3) == member(view_fields(fields@), "id"@),
{
    let ghost all = view_fields(fields@);
    let mut rest = fields;
    let mut jsonrpc: Option<JsonValue> = None;
    let mut method: Option<JsonValue> = None;
    let mut params: Option<JsonValue> = None;
    let mut id: Option<JsonValue> = None;
    proof {
        lemma_view_fields(rest@);
        assert(all.skip(all.len() as int) =~= Seq::empty());
    }
    while rest.len() > 0
        invariant
            all.len() == fields@.len(),
            view_fields(rest@) == all.take(rest@.len() as int),
            rest@.len() <= all.len(),
            opt_view(jsonrpc) == member(all.skip(rest@.len() as int), "jsonrpc"@),
            opt_view(method) == member(all.skip(rest@.len() as int), "method"@),
            opt_view(params) == member(all.skip(rest@.len() as int), "params"@),
            opt_view(id) == member(all.skip(rest@.len() as int), "id"@),
        decreases rest@.len(),
    {
        let ghost n = rest@.len() as int;
        let ghost before = rest@;
        let (k, val) = rest.pop().unwrap();
        proof {
            lemma_view_fields(before);
            lemma_view_fields(rest@);
            assert(view_fields(rest@) =~= all.take(n - 1));
            assert(before[n - 1] == (k, val));
            assert(all.take(n)[n - 1] == all[n - 1]);
            assert(view_fields(before)[n - 1] == (k@, val@));
            assert(all[n - 1] == (k@, val@));
            let suffix = all.skip(n - 1);
            assert(suffix.drop_first() =~= all.skip(n));
            assert(suffix[0] == all[n - 1]);
            reveal_strlit("jsonrpc");
            reveal_strlit("method");
            reveal_strlit("params");
            reveal_strlit("id");
            assert("jsonrpc"@[0] != "method"@[0] && "jsonrpc"@[0] != "params"@[0]);
            assert("method"@[0] != "params"@[0] && "method"@.len() != "id"@.len());
            assert("params"@.len() != "id"@.len() && "jsonrpc"@.len() != "id"@.len());
        }
        if text_eq(k.as_str(), "jsonrpc") {
            jsonrpc = Some(val);
        } else if text_eq(k.as_str(), "method") {
            method = Some(val);
        } else if text_eq(k.as_str(), "params") {
            params = Some(val);
        } else if text_eq(k.as_str(), "id") {
            id = Some(val);
        }
    }
    assert(all.skip(0) =~= all);
    (jsonrpc, method, params, id)
}

/// Reads the request that `v` holds; `None` where `v` is no request.
pub fn parse_request(v: JsonValue) -> (r: Option<Request>)
    ensures
        match r {
            Some(req) => spec_parse_request(v@) == Some(req@),
            None => spec_parse_request(v@) is None,
        },
{
    match v {
        JsonValue::Object(fields) => {
            let (jsonrpc, method, params, id) = take_request_members(fields);
            match (jsonrpc, method) {
                (Some(JsonValue::Str(j)), Some(JsonValue::Str(m))) => {
                    let params = match params {
                        Some(p) => p,
                        None => JsonValue::Null,
                    };
                    let id = match id {
                        Some(JsonValue::Null) => None,
                        Some(x) => Some(x),
                        None => None,
                    };
                    Some(Request { jsonrpc: j, method: m, params, id })
                },
                _ => None,
            }
        },
        _ => None,
    }
}

impl Request {
    /// Whether this request asks for a response.
    pub fn is_call(&self) -> (r: bool)
        ensures
            r == self@.id is Some,
    {
        self.id.is_some()
    }
}

} // verus!
