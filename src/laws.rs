//! What holds of the dispatcher over whole conversations.
use vstd::prelude::*;
use crate::dispatch::{
    Method, StepModel, emitted, envelope, failure_json, not_found_text, spec_handle,
    spec_handle_message, spec_method, text_arg,
};
use crate::json::{Json, member};
use crate::registry::{CATALOG_SIZE, catalog, spec_tool_kind, tools_list_json};
use crate::request::{RequestModel, spec_parse_request};

verus! {

/// The responses written for a stream of lines, in order. A line is `None`
/// where its text is no JSON at all; `outcomes[i]` is what the tool returned
/// where line `i` runs one.
pub open spec fn session(lines: Seq<Option<Json>>, outcomes: Seq<Result<Seq<char>, Seq<char>>>) -> Seq<Json>
    decreases lines.len(),
{
    if lines.len() == 0 {
        Seq::empty()
    } else {
        let before = session(lines.drop_last(), outcomes.drop_last());
        let step = match lines.last() {
            Some(v) => spec_handle_message(v),
            None => StepModel::Rejected,
        };
        match emitted(step, outcomes.last()) {
            Some(r) => before.push(r),
            None => before,
        }
    }
}

/// The `id` of a line that holds a request with one.
pub open spec fn call_id(line: Option<Json>) -> Option<Json> {
    match line {
        Some(v) => match spec_parse_request(v) {
            Some(req) => req.id,
            None => None,
        },
        None => None,
    }
}

/// The ids of the calls among `lines`, in order.
pub open spec fn call_ids(lines: Seq<Option<Json>>) -> Seq<Json>
    decreases lines.len(),
{
    if lines.len() == 0 {
        Seq::empty()
    } else {
        match call_id(lines.last()) {
            Some(id) => call_ids(lines.drop_last()).push(id),
            None => call_ids(lines.drop_last()),
        }
    }
}

proof fn lemma_envelope_id(id: Json, result: Json)
    ensures
        envelope(id, result).at("id"@) == id,
        envelope(id, result).at("result"@) == result,
{
    reveal_strlit("jsonrpc");
    reveal_strlit("id");
    reveal_strlit("result");
    let f = envelope(id, result)->Object_0;
    let g = f.drop_first();
    let h = g.drop_first();
    assert(f[0].0.len() == 7 && g[0].0.len() == 2 && h[0].0.len() == 6);
    assert(member(g, "id"@) == Some(id));
    assert(member(f, "id"@) == member(g, "id"@));
    assert(member(h, "result"@) == Some(result));
    assert(member(g, "result"@) == member(h, "result"@));
    assert(member(f, "result"@) == member(g, "result"@));
}

proof fn lemma_envelope_ids(id: Json)
    ensures
        forall|result: Json| #[trigger] envelope(id, result).at("id"@) == id,
{
    assert forall|result: Json| #[trigger] envelope(id, result).at("id"@) == id by {
        lemma_envelope_id(id, result);
    }
}

/// A request with an `id` is answered by exactly one response, which carries
/// that `id` unchanged, whatever its tool returns; a request without one is
/// never answered.
pub proof fn lemma_one_response_per_call(req: RequestModel, outcome: Result<Seq<char>, Seq<char>>)
    ensures
        req.id is Some ==> (emitted(spec_handle(req), outcome) matches Some(r) && r.at("id"@)
            == req.id->0),
        req.id is None ==> emitted(spec_handle(req), outcome) is None,
{
    if let Some(id) = req.id {
        lemma_envelope_ids(id);
    }
}

/// Over a whole stream, the responses answer the calls one for one, in the
/// order the calls came, each with its call's `id`; notifications and lines
/// that hold no request add nothing and do not stop the lines after them.
pub proof fn lemma_session_answers_calls_in_order(
    lines: Seq<Option<Json>>,
    outcomes: Seq<Result<Seq<char>, Seq<char>>>,
)
    requires
        outcomes.len() == lines.len(),
    ensures
        session(lines, outcomes).len() == call_ids(lines).len(),
        forall|k: int|
            0 <= k < call_ids(lines).len() ==> #[trigger] session(lines, outcomes)[k].at("id"@)
                == call_ids(lines)[k],
    decreases lines.len(),
{
    if lines.len() > 0 {
        lemma_session_answers_calls_in_order(lines.drop_last(), outcomes.drop_last());
        match lines.last() {
            Some(v) => match spec_parse_request(v) {
                Some(req) => lemma_one_response_per_call(req, outcomes.last()),
                None => {},
            },
            None => {},
        }
    }
}

/// `tools/list` answers every caller with the same full catalog, in its fixed order.
pub proof fn lemma_tools_list_stable(
    a: RequestModel,
    b: RequestModel,
    oa: Result<Seq<char>, Seq<char>>,
    ob: Result<Seq<char>, Seq<char>>,
)
    requires
        a.id is Some,
        b.id is Some,
        spec_method(a.method) == Method::ToolsList,
        spec_method(b.method) == Method::ToolsList,
    ensures
        emitted(spec_handle(a), oa) matches Some(ra) && emitted(spec_handle(b), ob) matches Some(
            rb,
        ) && ra.at("result"@) == rb.at("result"@) && ra.at("result"@) == tools_list_json(),
        tools_list_json().at("tools"@) matches Json::Array(tools) && tools.len() == CATALOG_SIZE
            && tools.len() == catalog().len(),
{
    lemma_envelope_id(a.id->0, tools_list_json());
    lemma_envelope_id(b.id->0, tools_list_json());
}

/// A call naming a tool outside the catalog is answered with a failure that
/// says the tool was not found.
pub proof fn lemma_unknown_tool(req: RequestModel, outcome: Result<Seq<char>, Seq<char>>)
    requires
        req.id is Some,
        spec_method(req.method) == Method::ToolsCall,
        spec_tool_kind(text_arg(req.params, "name"@)) is None,
    ensures
        emitted(spec_handle(req), outcome) matches Some(r) && r.at("result"@) == failure_json(
            not_found_text(text_arg(req.params, "name"@)),
        ) && r.at("result"@).at("isError"@) == Json::Bool(true),
{
    let t = not_found_text(text_arg(req.params, "name"@));
    lemma_envelope_id(req.id->0, failure_json(t));
    assert(member(failure_json(t)->Object_0, "isError"@) == Some(Json::Bool(true)));
}

} // verus!
