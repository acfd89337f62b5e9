use rust_git_mcp::github::{
    changelog_url, clean_path, content_url, parse_github_url, readme_url, search_url, target_ref,
    tree_url,
};
use rust_git_mcp::json::{decimal_text, JsonValue};
use rust_git_mcp::registry::ToolKind;
use rust_git_mcp::tags::{sort_tags, trim_v};
use rust_git_mcp::tools::{
    apply_limit, changelog_result, content_result, cut_text, file_tree_result, http_failure,
    readme_result, search_result, tag_names, tags_result,
};
use serde_json::Value;

fn to_library(v: Value) -> JsonValue {
    match v {
        Value::Null => JsonValue::Null,
        Value::Bool(b) => JsonValue::Bool(b),
        Value::Number(n) => JsonValue::Number(n.to_string()),
        Value::String(s) => JsonValue::Str(s),
        Value::Array(items) => JsonValue::Array(items.into_iter().map(to_library).collect()),
        Value::Object(map) => {
            JsonValue::Object(map.into_iter().map(|(k, v)| (k, to_library(v))).collect())
        }
    }
}

fn to_serde(v: JsonValue) -> Value {
    match v {
        JsonValue::Null => Value::Null,
        JsonValue::Bool(b) => Value::Bool(b),
        JsonValue::Number(text) => serde_json::from_str::<Value>(&text).unwrap(),
        JsonValue::Str(s) => Value::String(s),
        JsonValue::Array(items) => Value::Array(items.into_iter().map(to_serde).collect()),
        JsonValue::Object(fields) => {
            Value::Object(fields.into_iter().map(|(k, v)| (k, to_serde(v))).collect())
        }
    }
}

fn json(text: &str) -> JsonValue {
    to_library(serde_json::from_str(text).unwrap())
}

fn strings(v: &[&str]) -> Vec<String> {
    v.iter().map(|s| s.to_string()).collect()
}

#[test]
fn tags_sort_versions_first_then_text_descending() {
    let input = strings(&["alpha", "v1.2.0", "1.10.0", "beta", "v1.9.3", "nightly", "2.0.0-rc.1", "2.0.0"]);
    let sorted = sort_tags(input);
    assert_eq!(
        sorted,
        strings(&["2.0.0", "2.0.0-rc.1", "1.10.0", "v1.9.3", "v1.2.0", "nightly", "beta", "alpha"])
    );
}

#[test]
fn tags_sort_edge_cases() {
    assert!(sort_tags(Vec::new()).is_empty());
    assert_eq!(sort_tags(strings(&["x"])), strings(&["x"]));
    assert_eq!(sort_tags(strings(&["vv1.0.0", "1.0", "B", "a"])), strings(&["vv1.0.0", "a", "B", "1.0"]));
    assert_eq!(trim_v("vvx1"), "x1");
    assert_eq!(trim_v("1v"), "1v");
}

#[test]
fn ls_remote_lines_give_tag_names() {
    let out = "abc\trefs/tags/v1.0.0\ndef\trefs/tags/refs/tags/x\r\nnotab\n\t\nghi\trefs/tags/v2\textra\n";
    assert_eq!(tag_names(out), strings(&["v1.0.0", "x", "", "", "v2"]));
    assert!(tag_names("").is_empty());
    assert_eq!(tag_names("a\tb"), strings(&["b"]));
}

#[test]
fn limit_keeps_the_front() {
    assert_eq!(apply_limit(strings(&["a", "b", "c"]), Some(2)), strings(&["a", "b"]));
    assert_eq!(apply_limit(strings(&["a", "b", "c"]), Some(3)), strings(&["a", "b", "c"]));
    assert_eq!(apply_limit(strings(&["a", "b", "c"]), Some(0)), Vec::<String>::new());
    assert_eq!(apply_limit(strings(&["a"]), None), strings(&["a"]));
}

#[test]
fn tags_payload_counts_and_orders() {
    let out = "h1\trefs/tags/v0.1.0\nh2\trefs/tags/v0.3.0\nh3\trefs/tags/v0.2.0\nh4\trefs/tags/latest\n";
    let r = to_serde(tags_result("https://github.com/o/r", Some(2), out));
    assert_eq!(r["repository"], "https://github.com/o/r");
    assert_eq!(r["count"], 2);
    assert_eq!(r["limit_applied"], 2);
    assert_eq!(r["tags"], serde_json::from_str::<Value>(r#"["v0.3.0","v0.2.0"]"#).unwrap());
    let r = to_serde(tags_result("u", None, out));
    assert_eq!(r["count"], 4);
    assert!(r["limit_applied"].is_null());
    assert_eq!(r["tags"][3], "latest");
}

#[test]
fn github_urls_are_parsed() {
    assert_eq!(
        parse_github_url("https://github.com/rust-lang/cargo.git"),
        Ok(("rust-lang".to_string(), "cargo".to_string()))
    );
    assert_eq!(
        parse_github_url("https://github.com/serde-rs/json"),
        Ok(("serde-rs".to_string(), "json".to_string()))
    );
    assert_eq!(parse_github_url("https://gitlab.com/a/b"), Err("Invalid GitHub URL".to_string()));
    assert_eq!(parse_github_url("https://github.com/a/b/c"), Err("Invalid GitHub URL".to_string()));
}

#[test]
fn request_urls_are_built() {
    assert_eq!(changelog_url("o", "r", "v1", "v2"), "https://api.github.com/repos/o/r/compare/v1...v2");
    assert_eq!(readme_url("o", "r"), "https://api.github.com/repos/o/r/readme");
    assert_eq!(tree_url("o", "r", "HEAD"), "https://api.github.com/repos/o/r/git/trees/HEAD?recursive=1");
    assert_eq!(content_url("o", "r", "src/a.rs", "main"), "https://api.github.com/repos/o/r/contents/src/a.rs?ref=main");
    assert_eq!(
        search_url("fn main", "o", "r"),
        "https://api.github.com/search/code?q=fn%20main%20repo%3Ao%2Fr&per_page=10"
    );
    assert_eq!(target_ref(None), "HEAD");
    assert_eq!(target_ref(Some("dev")), "dev");
    assert_eq!(clean_path("//src/lib.rs"), "src/lib.rs");
    assert_eq!(clean_path("a/"), "a/");
}

#[test]
fn changelog_lines_from_commits() {
    let body = json(
        r#"{"commits":[
            {"commit":{"message":"Fix bug\r\n\nmore","author":{"date":"2024-01-02T03:04:05Z"}}},
            {"commit":{"message":"Only line"}},
            {}
        ]}"#,
    );
    let r = to_serde(changelog_result("u", "v1", "v2", &body).unwrap());
    assert_eq!(r["from"], "v1");
    assert_eq!(r["to"], "v2");
    assert_eq!(
        r["changes"],
        serde_json::from_str::<Value>(r#"["[2024-01-02] Fix bug","[] Only line","[] "]"#).unwrap()
    );
    assert_eq!(changelog_result("u", "a", "b", &json(r#"{"message":"x"}"#)).err(), Some("No commits found".to_string()));
}

#[test]
fn file_tree_lists_entries() {
    let body = json(r#"{"tree":[{"path":"src","type":"tree"},{"path":"src/a.rs","type":"blob"},{"type":"blob"}]}"#);
    let r = to_serde(file_tree_result("u", "HEAD", &body).unwrap());
    assert_eq!(r["ref"], "HEAD");
    assert_eq!(r["files"], serde_json::from_str::<Value>(r#"["src/","src/a.rs",""]"#).unwrap());
    assert_eq!(file_tree_result("u", "HEAD", &json("{}")).err(), Some("Invalid tree response".to_string()));
}

#[test]
fn file_tree_is_cut_after_limit() {
    let items: Vec<String> = (0..1001).map(|i| format!(r#"{{"path":"f{}","type":"blob"}}"#, i)).collect();
    let body = json(&format!(r#"{{"tree":[{}]}}"#, items.join(",")));
    let r = to_serde(file_tree_result("u", "main", &body).unwrap());
    let files = r["files"].as_array().unwrap();
    assert_eq!(files.len(), 1001);
    assert_eq!(files[999], "f999");
    assert_eq!(files[1000], "... [TRUNCATED]");
    let items: Vec<String> = (0..1000).map(|i| format!(r#"{{"path":"f{}"}}"#, i)).collect();
    let body = json(&format!(r#"{{"tree":[{}]}}"#, items.join(",")));
    let r = to_serde(file_tree_result("u", "main", &body).unwrap());
    assert_eq!(r["files"].as_array().unwrap().len(), 1000);
}

#[test]
fn search_hits_are_listed() {
    let body = json(r#"{"items":[{"path":"a.rs","html_url":"https://x/a"},{"html_url":5}]}"#);
    let r = to_serde(search_result("u", "q", &body).unwrap());
    assert_eq!(r["query"], "q");
    assert_eq!(r["count_found"], 2);
    assert_eq!(r["results"][0]["path"], "a.rs");
    assert_eq!(r["results"][0]["url"], "https://x/a");
    assert_eq!(r["results"][1]["path"], "unknown");
    assert_eq!(r["results"][1]["url"], "");
    assert_eq!(
        search_result("u", "q", &json(r#"{"items":{}}"#)).err(),
        Some("No items found in search response".to_string())
    );
}

#[test]
fn readme_is_cut_at_limit() {
    let short = "hello";
    let r = to_serde(readme_result("u", short));
    assert_eq!(r["type"], "readme");
    assert_eq!(r["content"], "hello");
    let long = "a".repeat(20001);
    let r = to_serde(readme_result("u", &long));
    assert_eq!(r["content"], format!("{}... [TRUNCATED]", "a".repeat(20000)));
    let exact = "b".repeat(20000);
    assert_eq!(to_serde(readme_result("u", &exact))["content"], exact.as_str());
}

#[test]
fn file_content_is_cut_at_limit() {
    let r = to_serde(content_result("u", "p", "HEAD", "body"));
    assert_eq!(r["is_truncated"], false);
    assert_eq!(r["content"], "body");
    assert_eq!(r["path"], "p");
    let long = "c".repeat(30005);
    let r = to_serde(content_result("u", "p", "main", &long));
    assert_eq!(r["is_truncated"], true);
    assert_eq!(r["content"], format!("{}... \n[TRUNCATED]", "c".repeat(30000)));
}

#[test]
fn cut_falls_on_character_boundary() {
    assert_eq!(cut_text("abc", 3), None);
    assert_eq!(cut_text("abcd", 3), Some("abc".to_string()));
    assert_eq!(cut_text("aé", 2), Some("a".to_string()));
    assert_eq!(cut_text("€€", 4), Some("€".to_string()));
}

#[test]
fn http_failures_name_the_status() {
    assert_eq!(http_failure(ToolKind::GetChangelog, "404 Not Found"), "API Error: 404 Not Found");
    assert_eq!(http_failure(ToolKind::GetReadme, "403 Forbidden"), "Error: 403 Forbidden");
    assert_eq!(http_failure(ToolKind::GetFileTree, "500"), "Error: 500");
    assert_eq!(http_failure(ToolKind::GetFileContent, "404"), "Gagal membaca file: 404");
    assert_eq!(
        http_failure(ToolKind::SearchRepository, "422"),
        "Search API Error: 422 (Search requires Auth & Valid Repo)"
    );
}

#[test]
fn numbers_and_decimals() {
    assert_eq!(decimal_text(0), "0");
    assert_eq!(decimal_text(1234567890), "1234567890");
    assert_eq!(decimal_text(u64::MAX), "18446744073709551615");
    assert_eq!(json("18446744073709551615").as_u64(), Some(u64::MAX));
    assert_eq!(json("7").as_u64(), Some(7));
    assert_eq!(json("-7").as_u64(), None);
    assert_eq!(json("7.5").as_u64(), None);
    assert_eq!(json("\"7\"").as_u64(), None);
    assert_eq!(json(r#"{"a":1}"#).get("a").and_then(|v| v.as_u64()), Some(1));
    assert!(json(r#"{"a":1}"#).get("b").is_none());
}
