use rust_git_mcp::dispatch::{
    handle_message, not_found_message, tool_response, Step, ToolCall,
};
use rust_git_mcp::json::JsonValue;
use rust_git_mcp::registry::{describe, is_known, list_tools, tool_kind, ToolKind, CATALOG_SIZE};
use rust_git_mcp::request::parse_request;
use serde_json::Value;

fn to_library(v: Value) -> JsonValue {
    match v {
        Value::Null => JsonValue::Null,
        Value::Bool(b) => JsonValue::Bool(b),
        Value::Number(n) => JsonValue::Number(n.to_string()),
        Value::String(s) => JsonValue::Str(s),
        Value::Array(items) => JsonValue::Array(items.into_iter().map(to_library).collect()),
        Value::Object(map) => {
            JsonValue::Object(map.into_iter().map(|(k, v)| (k, to_library(v))).collect())
        }
    }
}

fn to_serde(v: JsonValue) -> Value {
    match v {
        JsonValue::Null => Value::Null,
        JsonValue::Bool(b) => Value::Bool(b),
        JsonValue::Number(text) => serde_json::from_str::<Value>(&text).unwrap(),
        JsonValue::Str(s) => Value::String(s),
        JsonValue::Array(items) => Value::Array(items.into_iter().map(to_serde).collect()),
        JsonValue::Object(fields) => {
            Value::Object(fields.into_iter().map(|(k, v)| (k, to_serde(v))).collect())
        }
    }
}

/// Runs one input line as the server does; `None` where nothing is written.
/// A tool that would run answers with `outcome`.
fn respond(line: &str, outcome: Result<String, String>) -> Option<Value> {
    let parsed: Value = match serde_json::from_str(line) {
        Ok(v) => v,
        Err(_) => return None,
    };
    match handle_message(to_library(parsed)) {
        Step::Reply(r) => Some(to_serde(r)),
        Step::Invoke(id, _) => Some(to_serde(tool_response(id, outcome))),
        _ => None,
    }
}

fn step_of(line: &str) -> Step {
    handle_message(to_library(serde_json::from_str(line).unwrap()))
}

#[test]
fn initialize_reports_server_identity() {
    let r = respond(r#"{"jsonrpc":"2.0","method":"initialize","id":1}"#, Ok(String::new())).unwrap();
    assert_eq!(r["id"], Value::from(1));
    assert_eq!(r["jsonrpc"], "2.0");
    assert_eq!(r["result"]["serverInfo"]["name"], "rust-git-mcp");
    assert_eq!(r["result"]["serverInfo"]["version"], "0.2.0");
    assert_eq!(r["result"]["protocolVersion"], "2024-11-05");
    assert!(r["result"]["capabilities"]["tools"].is_object());
    assert!(r.to_string().contains("\"id\":1"));
}

#[test]
fn tools_list_returns_whole_catalog() {
    let r = respond(r#"{"jsonrpc":"2.0","method":"tools/list","id":2}"#, Ok(String::new())).unwrap();
    let tools = r["result"]["tools"].as_array().unwrap();
    assert_eq!(tools.len(), CATALOG_SIZE);
    assert_eq!(tools.len(), 6);
    let names: Vec<&str> = tools.iter().map(|t| t["name"].as_str().unwrap()).collect();
    assert_eq!(
        names,
        vec!["get_tags", "get_changelog", "get_readme", "get_file_tree", "get_file_content", "search_repository"]
    );
    assert_eq!(tools[0]["inputSchema"]["type"], "object");
    assert_eq!(tools[0]["inputSchema"]["required"], serde_json::from_str::<Value>(r#"["url"]"#).unwrap());
    assert_eq!(tools[0]["inputSchema"]["properties"]["limit"]["type"], "integer");
    assert_eq!(tools[4]["inputSchema"]["required"], serde_json::from_str::<Value>(r#"["url","path"]"#).unwrap());
    assert_eq!(tools[4]["inputSchema"]["properties"]["path"]["description"], "Path to the file (e.g., 'src/main.cpp' or 'module.prop')");
}

#[test]
fn tools_list_is_stable_across_calls() {
    let a = respond(r#"{"jsonrpc":"2.0","method":"tools/list","id":2}"#, Ok(String::new())).unwrap();
    let b = respond(r#"{"jsonrpc":"2.0","method":"tools/list","id":"x"}"#, Ok(String::new())).unwrap();
    assert_eq!(a["result"], b["result"]);
    assert_eq!(b["id"], "x");
}

#[test]
fn unknown_tool_is_reported_as_error() {
    let r = respond(
        r#"{"jsonrpc":"2.0","method":"tools/call","params":{"name":"nope","arguments":{}},"id":3}"#,
        Ok(String::new()),
    )
    .unwrap();
    assert_eq!(r["id"], 3);
    assert_eq!(r["result"]["isError"], true);
    assert_eq!(r["result"]["content"][0]["type"], "text");
    assert_eq!(r["result"]["content"][0]["text"], "Tool 'nope' not found");
}

#[test]
fn missing_tool_name_reads_as_empty() {
    let r = respond(r#"{"jsonrpc":"2.0","method":"tools/call","id":9}"#, Ok(String::new())).unwrap();
    assert_eq!(r["result"]["content"][0]["text"], "Tool '' not found");
}

#[test]
fn back_to_back_requests_answered_in_order() {
    let lines = [
        r#"{"jsonrpc":"2.0","method":"initialize","id":5}"#,
        r#"{"jsonrpc":"2.0","method":"tools/list","id":6}"#,
    ];
    let out: Vec<Value> = lines.iter().filter_map(|l| respond(l, Ok(String::new()))).collect();
    assert_eq!(out.len(), 2);
    assert_eq!(out[0]["id"], 5);
    assert_eq!(out[1]["id"], 6);
}

#[test]
fn notifications_get_no_response() {
    assert!(respond(r#"{"jsonrpc":"2.0","method":"notifications/initialized"}"#, Ok(String::new())).is_none());
    assert!(respond(r#"{"jsonrpc":"2.0","method":"tools/list"}"#, Ok(String::new())).is_none());
    assert!(respond(r#"{"jsonrpc":"2.0","method":"initialize","id":null}"#, Ok(String::new())).is_none());
    assert!(matches!(step_of(r#"{"jsonrpc":"2.0","method":"notifications/initialized"}"#), Step::Initialized));
    assert!(matches!(step_of(r#"{"jsonrpc":"2.0","method":"other/thing"}"#), Step::Ignore));
}

#[test]
fn malformed_lines_are_skipped_and_later_lines_answered() {
    let lines = [
        "this is not json",
        r#"{"jsonrpc":"2.0","id":4}"#,
        r#"[1,2,3]"#,
        r#"{"jsonrpc":"2.0","method":"initialize","id":7}"#,
    ];
    let out: Vec<Value> = lines.iter().filter_map(|l| respond(l, Ok(String::new()))).collect();
    assert_eq!(out.len(), 1);
    assert_eq!(out[0]["id"], 7);
    assert!(matches!(step_of(r#"{"jsonrpc":"2.0","id":4}"#), Step::Rejected));
    assert!(matches!(step_of(r#"{"method":"initialize","id":4}"#), Step::Rejected));
}

#[test]
fn ids_echo_with_their_type() {
    let r = respond(r#"{"jsonrpc":"2.0","method":"initialize","id":"abc"}"#, Ok(String::new())).unwrap();
    assert_eq!(r["id"], "abc");
    let r = respond(r#"{"jsonrpc":"2.0","method":"initialize","id":{"k":[1,2]}}"#, Ok(String::new())).unwrap();
    assert_eq!(r["id"], serde_json::from_str::<Value>(r#"{"k":[1,2]}"#).unwrap());
    let r = respond(r#"{"jsonrpc":"2.0","method":"initialize","id":-2.5}"#, Ok(String::new())).unwrap();
    assert_eq!(r["id"].to_string(), "-2.5");
}

#[test]
fn unknown_method_gets_empty_result() {
    let r = respond(r#"{"jsonrpc":"2.0","method":"ping","id":8}"#, Ok(String::new())).unwrap();
    assert_eq!(r["id"], 8);
    assert_eq!(r["result"], serde_json::from_str::<Value>("{}").unwrap());
}

#[test]
fn known_tool_is_invoked_with_schema_arguments() {
    let step = step_of(
        r#"{"jsonrpc":"2.0","method":"tools/call","params":{"name":"get_tags","arguments":{"url":"https://github.com/a/b","limit":5}},"id":10}"#,
    );
    match step {
        Step::Invoke(id, ToolCall::GetTags { url, limit }) => {
            assert_eq!(to_serde(id), Value::from(10));
            assert_eq!(url, "https://github.com/a/b");
            assert_eq!(limit, Some(5));
        }
        _ => panic!("expected a get_tags call"),
    }
    let step = step_of(
        r#"{"jsonrpc":"2.0","method":"tools/call","params":{"name":"get_file_content","arguments":{"path":7,"limit":-1}},"id":11}"#,
    );
    match step {
        Step::Invoke(_, ToolCall::GetFileContent { url, path, branch }) => {
            assert_eq!(url, "");
            assert_eq!(path, "");
            assert_eq!(branch, None);
        }
        _ => panic!("expected a get_file_content call"),
    }
    let step = step_of(
        r#"{"jsonrpc":"2.0","method":"tools/call","params":{"name":"get_tags","arguments":{"url":"u","limit":2.5}},"id":12}"#,
    );
    assert!(matches!(step, Step::Invoke(_, ToolCall::GetTags { limit: None, .. })));
    let step = step_of(
        r#"{"jsonrpc":"2.0","method":"tools/call","params":{"name":"get_file_tree","arguments":{"url":"u","branch":"dev"}},"id":13}"#,
    );
    match step {
        Step::Invoke(_, ToolCall::GetFileTree { url, branch }) => {
            assert_eq!(url, "u");
            assert_eq!(branch.as_deref(), Some("dev"));
        }
        _ => panic!("expected a get_file_tree call"),
    }
}

#[test]
fn tool_outcomes_become_envelopes() {
    let ok = to_serde(tool_response(JsonValue::Number("3".to_string()), Ok("{\"a\":1}".to_string())));
    assert_eq!(ok["id"], 3);
    assert_eq!(ok["result"]["content"][0]["text"], "{\"a\":1}");
    assert!(ok["result"].get("isError").is_none());
    let err = to_serde(tool_response(JsonValue::Str("q".to_string()), Err("API Error: 404 Not Found".to_string())));
    assert_eq!(err["id"], "q");
    assert_eq!(err["result"]["isError"], true);
    assert_eq!(err["result"]["content"][0]["text"], "API Error: 404 Not Found");
}

#[test]
fn registry_lookups() {
    assert!(is_known("get_readme"));
    assert!(!is_known("get_readme2"));
    assert!(!is_known(""));
    assert_eq!(tool_kind("search_repository"), Some(ToolKind::SearchRepository));
    assert_eq!(tool_kind("nope"), None);
    let d = describe("get_changelog").unwrap();
    assert_eq!(d.name, "get_changelog");
    assert_eq!(d.required, vec!["url", "start_tag", "end_tag"]);
    assert!(describe("nope").is_none());
    let all = list_tools();
    assert_eq!(all.len(), 6);
    assert_eq!(all[3].name, "get_file_tree");
    assert_eq!(not_found_message("x"), "Tool 'x' not found");
}

#[test]
fn request_fields_are_read() {
    let v = to_library(serde_json::from_str(r#"{"jsonrpc":"2.0","method":"m","params":{"a":1},"id":"i"}"#).unwrap());
    let req = parse_request(v).unwrap();
    assert_eq!(req.method, "m");
    assert_eq!(req.jsonrpc, "2.0");
    assert!(req.is_call());
    assert_eq!(to_serde(req.params)["a"], 1);
    let v = to_library(serde_json::from_str(r#"{"jsonrpc":"2.0","method":"m"}"#).unwrap());
    let req = parse_request(v).unwrap();
    assert!(matches!(req.params, JsonValue::Null));
    assert!(!req.is_call());
    let v = to_library(serde_json::from_str(r#"{"jsonrpc":2,"method":"m"}"#).unwrap());
    assert!(parse_request(v).is_none());
}
