//! Turning one request into zero or one responses.
use vstd::prelude::*;
use vstd::string::*;
use crate::json::{Json, JsonValue, push_item, push_member, text_value};
use crate::registry::{ToolKind, spec_tool_kind, tool_kind, tools_list_json, tools_list_result};
use crate::request::{Request, RequestModel, parse_request, spec_parse_request};
use crate::text::text_eq;

verus! {

/// The methods of the protocol.
#[derive(PartialEq, Eq, Structural, Clone, Copy, Debug)]
pub enum Method {
    Initialize,
    ToolsList,
    ToolsCall,
    /// Any other method: answered with an empty result.
    Other,
}

pub open spec fn spec_method(m: Seq<char>) -> Method {
    if m == "initialize"@ {
        Method::Initialize
    } else if m == "tools/list"@ {
        Method::ToolsList
    } else if m == "tools/call"@ {
        Method::ToolsCall
    } else {
        Method::Other
    }
}

/// The method that the name `m` denotes.
pub fn method_of(m: &str) -> (r: Method)
    ensures
        r == spec_method(m@),
{
    if text_eq(m, "initialize") {
        Method::Initialize
    } else if text_eq(m, "tools/list") {
        Method::ToolsList
    } else if text_eq(m, "tools/call") {
        Method::ToolsCall
    } else {
        Method::Other
    }
}

/// A tool invocation with its arguments read from the request.
pub enum ToolCall {
    GetTags { url: String, limit: Option<u64> },
    GetChangelog { url: String, start_tag: String, end_tag: String },
    GetReadme { url: String },
    GetFileTree { url: String, branch: Option<String> },
    GetFileContent { url: String, path: String, branch: Option<String> },
    SearchRepository { url: String, query: String },
}

pub enum ToolCallModel {
    GetTags { url: Seq<char>, limit: Option<nat> },
    GetChangelog { url: Seq<char>, start_tag: Seq<char>, end_tag: Seq<char> },
    GetReadme { url: Seq<char> },
    GetFileTree { url: Seq<char>, branch: Option<Seq<char>> },
    GetFileContent { url: Seq<char>, path: Seq<char>, branch: Option<Seq<char>> },
    SearchRepository { url: Seq<char>, query: Seq<char> },
}

pub open spec fn opt_text(o: Option<String>) -> Option<Seq<char>> {
    match o {
        Some(s) => Some(s@),
        None => None,
    }
}

impl View for ToolCall {
    type V = ToolCallModel;

    open spec fn view(&self) -> ToolCallModel {
        match self {
            ToolCall::GetTags { url, limit } => ToolCallModel::GetTags {
                url: url@,
                limit: match limit {
                    Some(n) => Some(*n as nat),
                    None => None,
                },
            },
            ToolCall::GetChangelog { url, start_tag, end_tag } => ToolCallModel::GetChangelog {
                url: url@,
                start_tag: start_tag@,
                end_tag: end_tag@,
            },
            ToolCall::GetReadme { url } => ToolCallModel::GetReadme { url: url@ },
            ToolCall::GetFileTree { url, branch } => ToolCallModel::GetFileTree {
                url: url@,
                branch: opt_text(*branch),
            },
            ToolCall::GetFileContent { url, path, branch } => ToolCallModel::GetFileContent {
                url: url@,
                path: path@,
                branch: opt_text(*branch),
            },
            ToolCall::SearchRepository { url, query } => ToolCallModel::SearchRepository {
                url: url@,
                query: query@,
            },
        }
    }
}

/// A text argument; absent or not a string, it reads as empty.
pub open spec fn text_arg(args: Json, key: Seq<char>) -> Seq<char> {
    match args.at(key).str_of() {
        Some(s) => s,
        None => Seq::empty(),
    }
}

/// The arguments of a call, read by the schema of its tool.
pub open spec fn spec_extract(k: ToolKind, args: Json) -> ToolCallModel {
    match k {
        ToolKind::GetTags => ToolCallModel::GetTags {
            url: text_arg(args, "url"@),
            limit: args.at("limit"@).u64_of(),
        },
        ToolKind::GetChangelog => ToolCallModel::GetChangelog {
            url: text_arg(args, "url"@),
            start_tag: text_arg(args, "start_tag"@),
            end_tag: text_arg(args, "end_tag"@),
        },
        ToolKind::GetReadme => ToolCallModel::GetReadme { url: text_arg(args, "url"@) },
        ToolKind::GetFileTree => ToolCallModel::GetFileTree {
            url: text_arg(args, "url"@),
            branch: args.at("branch"@).str_of(),
        },
        ToolKind::GetFileContent => ToolCallModel::GetFileContent {
            url: text_arg(args, "url"@),
            path: text_arg(args, "path"@),
            branch: args.at("branch"@).str_of(),
        },
        ToolKind::SearchRepository => ToolCallModel::SearchRepository {
            url: text_arg(args, "url"@),
            query: text_arg(args, "query"@),
        },
    }
}

/// The value of member `key` of `args`, where there is one.
fn arg<'a>(args: &'a JsonValue, key: &str) -> (r: Option<&'a JsonValue>)
    ensures
        match r {
            Some(v) => args@.at(key@) == v@ && args@.get(key@) is Some,
            None => args@.at(key@) == Json::Null,
        },
{
    args.get(key)
}

/// A text argument, or the empty text.
pub fn arg_text(args: &JsonValue, key: &str) -> (r: String)
    ensures
        r@ == text_arg(args@, key@),
{
    match arg(args, key) {
        Some(v) => match v.as_str() {
            Some(s) => s.to_owned(),
            None => String::new(),
        },
        None => String::new(),
    }
}

/// A text argument, where one is given.
pub fn arg_opt_text(args: &JsonValue, key: &str) -> (r: Option<String>)
    ensures
        opt_text(r) == args@.at(key@).str_of(),
{
    match arg(args, key) {
        Some(v) => match v.as_str() {
            Some(s) => Some(s.to_owned()),
            None => None,
        },
        None => None,
    }
}

/// A non-negative integer argument, where one is given.
pub fn arg_u64(args: &JsonValue, key: &str) -> (r: Option<u64>)
    ensures
        match r {
            Some(n) => args@.at(key@).u64_of() == Some(n as nat),
            None => args@.at(key@).u64_of() is None,
        },
{
    match arg(args, key) {
        Some(v) => v.as_u64(),
        None => None,
    }
}

/// Reads the arguments of a call to tool `k` from `args`, substituting the
/// defaults for what is absent.
pub fn extract_call(k: ToolKind, args: &JsonValue) -> (r: ToolCall)
    ensures
        r@ == spec_extract(k, args@),
{
    match k {
        ToolKind::GetTags => ToolCall::GetTags { url: arg_text(args, "url"), limit: arg_u64(args, "limit") },
        ToolKind::GetChangelog => ToolCall::GetChangelog {
            url: arg_text(args, "url"),
            start_tag: arg_text(args, "start_tag"),
            end_tag: arg_text(args, "end_tag"),
        },
        ToolKind::GetReadme => ToolCall::GetReadme { url: arg_text(args, "url") },
        ToolKind::GetFileTree => ToolCall::GetFileTree {
            url: arg_text(args, "url"),
            branch: arg_opt_text(args, "branch"),
        },
        ToolKind::GetFileContent => ToolCall::GetFileContent {
            url: arg_text(args, "url"),
            path: arg_text(args, "path"),
            branch: arg_opt_text(args, "branch"),
        },
        ToolKind::SearchRepository => ToolCall::SearchRepository {
            url: arg_text(args, "url"),
            query: arg_text(args, "query"),
        },
    }
}

pub const PROTOCOL_VERSION: &'static str = "2024-11-05";
pub const SERVER_NAME: &'static str = "rust-git-mcp";
pub const SERVER_VERSION: &'static str = "0.2.0";

/// A response: the protocol tag, the request's `id` as it came, and a result.
pub open spec fn envelope(id: Json, result: Json) -> Json {
    Json::Object(seq![("jsonrpc"@, Json::Str("2.0"@)), ("id"@, id), ("result"@, result)])
}

/// The result of `initialize`: the protocol version, capabilities and server identity.
pub open spec fn initialize_json() -> Json {
    Json::Object(
        seq![
            ("protocolVersion"@, Json::Str(PROTOCOL_VERSION@)),
            ("capabilities"@, Json::Object(seq![("tools"@, Json::Object(Seq::empty()))])),
            ("serverInfo"@, Json::Object(
                seq![("name"@, Json::Str(SERVER_NAME@)), ("version"@, Json::Str(SERVER_VERSION@))],
            )),
        ],
    )
}

/// A content list holding one text block.
pub open spec fn text_content(t: Seq<char>) -> Json {
    Json::Array(seq![Json::Object(seq![("type"@, Json::Str("text"@)), ("text"@, Json::Str(t))])])
}

/// The result of a tool call that succeeded with payload text `t`.
pub open spec fn success_json(t: Seq<char>) -> Json {
    Json::Object(seq![("content"@, text_content(t))])
}

/// The result of a tool call that failed for reason `t`.
pub open spec fn failure_json(t: Seq<char>) -> Json {
    Json::Object(seq![("isError"@, Json::Bool(true)), ("content"@, text_content(t))])
}

/// The result of a call that names a tool outside the catalog.
pub open spec fn not_found_text(name: Seq<char>) -> Seq<char> {
    "Tool '"@ + name + "' not found"@
}

/// What a tool's outcome becomes in a response.
pub open spec fn outcome_json(outcome: Result<Seq<char>, Seq<char>>) -> Json {
    match outcome {
        Ok(t) => success_json(t),
        Err(e) => failure_json(e),
    }
}

/// What the dispatcher decides for one line.
pub enum Step {
    /// The line holds no request: it is logged and skipped.
    Rejected,
    /// A notification that needs no action.
    Ignore,
    /// The client's `notifications/initialized`: acknowledged in the log only.
    Initialized,
    /// A response to write.
    Reply(JsonValue),
    /// A tool to run; its outcome goes to `tool_response` with this `id`.
    Invoke(JsonValue, ToolCall),
}

pub enum StepModel {
    Rejected,
    Ignore,
    Initialized,
    Reply(Json),
    Invoke(Json, ToolCallModel),
}

impl View for Step {
    type V = StepModel;

    open spec fn view(&self) -> StepModel {
        match self {
            Step::Rejected => StepModel::Rejected,
            Step::Ignore => StepModel::Ignore,
            Step::Initialized => StepModel::Initialized,
            Step::Reply(v) => StepModel::Reply(v@),
            Step::Invoke(id, c) => StepModel::Invoke(id@, c@),
        }
    }
}

/// The decision for one request.
pub open spec fn spec_handle(req: RequestModel) -> StepModel {
    match req.id {
        None => if req.method == "notifications/initialized"@ {
            StepModel::Initialized
        } else {
            StepModel::Ignore
        },
        Some(id) => match spec_method(req.method) {
            Method::Initialize => StepModel::Reply(envelope(id, initialize_json())),
            Method::ToolsList => StepModel::Reply(envelope(id, tools_list_json())),
            Method::ToolsCall => {
                let name = text_arg(req.params, "name"@);
                match spec_tool_kind(name) {
                    Some(k) => StepModel::Invoke(id, spec_extract(k, req.params.at("arguments"@))),
                    None => StepModel::Reply(envelope(id, failure_json(not_found_text(name)))),
                }
            },
            Method::Other => StepModel::Reply(envelope(id, Json::Object(Seq::empty()))),
        },
    }
}

/// The decision for one parsed message.
pub open spec fn spec_handle_message(v: Json) -> StepModel {
    match spec_parse_request(v) {
        Some(req) => spec_handle(req),
        None => StepModel::Rejected,
    }
}

/// The response that a decision leads to, given what the tool returned (used
/// only where a tool runs). `None`: nothing is written.
pub open spec fn emitted(step: StepModel, outcome: Result<Seq<char>, Seq<char>>) -> Option<Json> {
    match step {
        StepModel::Reply(r) => Some(r),
        StepModel::Invoke(id, _) => Some(envelope(id, outcome_json(outcome))),
        _ => None,
    }
}

fn envelope_value(id: JsonValue, result: JsonValue) -> (r: JsonValue)
    ensures
        r@ == envelope(id@, result@),
{
    let mut fields: Vec<(String, JsonValue)> = Vec::new();
    push_member(&mut fields, "jsonrpc", text_value("2.0"));
    push_member(&mut fields, "id", id);
    push_member(&mut fields, "result", result);
    let r = JsonValue::Object(fields);
    assert(r@->Object_0 =~= envelope(id@, result@)->Object_0);
    r
}

fn empty_object() -> (r: JsonValue)
    ensures
        r@ == Json::Object(Seq::empty()),
{
    let fields: Vec<(String, JsonValue)> = Vec::new();
    let r = JsonValue::Object(fields);
    assert(r@->Object_0 =~= Seq::<(Seq<char>, Json)>::empty());
    r
}

/// The result of `initialize`.
pub fn initialize_result() -> (r: JsonValue)
    ensures
        r@ == initialize_json(),
{
    let mut caps: Vec<(String, JsonValue)> = Vec::new();
    push_member(&mut caps, "tools", empty_object());
    let mut info: Vec<(String, JsonValue)> = Vec::new();
    push_member(&mut info, "name", text_value(SERVER_NAME));
    push_member(&mut info, "version", text_value(SERVER_VERSION));
    let caps_value = JsonValue::Object(caps);
    let info_value = JsonValue::Object(info);
    assert(caps_value@->Object_0 =~= initialize_json()->Object_0[1].1->Object_0);
    assert(info_value@->Object_0 =~= initialize_json()->Object_0[2].1->Object_0);
    let mut fields: Vec<(String, JsonValue)> = Vec::new();
    push_member(&mut fields, "protocolVersion", text_value(PROTOCOL_VERSION));
    push_member(&mut fields, "capabilities", caps_value);
    push_member(&mut fields, "serverInfo", info_value);
    let r = JsonValue::Object(fields);
    assert(r@->Object_0 =~= initialize_json()->Object_0);
    r
}

fn text_content_value(t: String) -> (r: JsonValue)
    ensures
        r@ == text_content(t@),
{
    let mut block: Vec<(String, JsonValue)> = Vec::new();
    push_member(&mut block, "type", text_value("text"));
    let ghost tv = t@;
    push_member(&mut block, "text", JsonValue::Str(t));
    let block_value = JsonValue::Object(block);
    assert(block_value@->Object_0 =~= seq![("type"@, Json::Str("text"@)), ("text"@, Json::Str(tv))]);
    let mut items: Vec<JsonValue> = Vec::new();
    push_item(&mut items, block_value);
    let r = JsonValue::Array(items);
    assert(r@->Array_0 =~= text_content(tv)->Array_0);
    r
}

/// The result of a tool call, from what the tool returned: its payload text,
/// or the reason it failed.
pub fn outcome_result(outcome: Result<String, String>) -> (r: JsonValue)
    ensures
        r@ == outcome_json(match outcome {
            Ok(t) => Ok(t@),
            Err(e) => Err(e@),
        }),
{
    let mut fields: Vec<(String, JsonValue)> = Vec::new();
    match outcome {
        Ok(t) => {
            let ghost tv = t@;
            push_member(&mut fields, "content", text_content_value(t));
            let r = JsonValue::Object(fields);
            assert(r@->Object_0 =~= success_json(tv)->Object_0);
            r
        },
        Err(e) => {
            let ghost ev = e@;
            push_member(&mut fields, "isError", JsonValue::Bool(true));
            push_member(&mut fields, "content", text_content_value(e));
            let r = JsonValue::Object(fields);
            assert(r@->Object_0 =~= failure_json(ev)->Object_0);
            r
        },
    }
}

/// The response to a tool call with `id`, from what the tool returned.
pub fn tool_response(id: JsonValue, outcome: Result<String, String>) -> (r: JsonValue)
    ensures
        r@ == envelope(id@, outcome_json(match outcome {
            Ok(t) => Ok(t@),
            Err(e) => Err(e@),
        })),
{
    envelope_value(id, outcome_result(outcome))
}

/// The text of the failure for a tool name outside the catalog.
pub fn not_found_message(name: &str) -> (r: String)
    ensures
        r@ == not_found_text(name@),
{
    let mut t = "Tool '".to_owned();
    t.append(name);
    t.append("' not found");
    t
}

/// Decides what one request leads to.
pub fn handle_request(req: Request) -> (r: Step)
    ensures
        r@ == spec_handle(req@),
{
    let Request { jsonrpc: _, method, params, id } = req;
    match id {
        None => if text_eq(method.as_str(), "notifications/initialized") {
            Step::Initialized
        } else {
            Step::Ignore
        },
        Some(id) => match method_of(method.as_str()) {
            Method::Initialize => Step::Reply(envelope_value(id, initialize_result())),
            Method::ToolsList => Step::Reply(envelope_value(id, tools_list_result())),
            Method::ToolsCall => {
                let name = arg_text(&params, "name");
                match tool_kind(name.as_str()) {
                    Some(k) => {
                        let call = match arg(&params, "arguments") {
                            Some(args) => extract_call(k, args),
                            None => extract_call(k, &JsonValue::Null),
                        };
                        Step::Invoke(id, call)
                    },
                    None => Step::Reply(
                        envelope_value(id, outcome_result(Err(not_found_message(name.as_str())))),
                    ),
                }
            },
            Method::Other => Step::Reply(envelope_value(id, empty_object())),
        },
    }
}

/// Decides what one parsed message leads to.
pub fn handle_message(v: JsonValue) -> (r: Step)
    ensures
        r@ == spec_handle_message(v@),
{
    match parse_request(v) {
        Some(req) => handle_request(req),
        None => Step::Rejected,
    }
}

} // verus!
