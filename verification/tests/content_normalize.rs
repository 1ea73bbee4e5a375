use praxis_ai_filters::content_normalize::{
    default_max_body_bytes, ContentNormalizeConfig, ContentNormalizeFilter,
};
use praxis_ai_filters::filter::{BodyAccess, BodyMode, FilterAction};

fn make_filter() -> ContentNormalizeFilter {
    ContentNormalizeFilter::from_config(ContentNormalizeConfig {
        max_body_bytes: default_max_body_bytes(),
    })
    .ok()
    .unwrap()
}

fn run(input: &str) -> (serde_json::Value, bool) {
    let filter = make_filter();
    let original: serde_json::Value = serde_json::from_str(input).unwrap();
    let raw = serde_json::to_vec(&original).unwrap();
    let mut body = Some(raw.clone());
    let action = filter.on_request_body(&mut body, true).ok().unwrap();
    assert!(matches!(action, FilterAction::Continue));
    let out = body.unwrap();
    let result: serde_json::Value = serde_json::from_slice(&out).unwrap();
    (result.clone(), result != original)
}

#[test]
fn filter_name() {
    let filter = make_filter();
    assert_eq!(filter.name(), "content_normalize");
}

#[test]
fn default_config() {
    let filter = make_filter();
    assert_eq!(filter.request_body_access(), BodyAccess::ReadWrite);
    assert!(matches!(
        filter.request_body_mode(),
        BodyMode::StreamBuffer { max_bytes: Some(limit) } if limit > 0
    ));
    assert_eq!(default_max_body_bytes(), 4_194_304);
}

#[test]
fn rewrites_server_tool_use_to_tool_use() {
    let (result, mutated) = run(
        r#"{"model":"Qwen/Qwen3.8-27B-FP8","max_tokens":64,"messages":[{"role":"user","content":[
            {"type":"text","text":"search for it"},
            {"type":"server_tool_use","id":"toolu_srv","name":"web_search","input":{"query":"test"}}]}]}"#,
    );
    assert!(mutated, "should have mutated the body");
    let blocks = result["messages"][0]["content"].as_array().unwrap();
    assert_eq!(blocks[0]["type"], "text");
    assert_eq!(blocks[1]["type"], "tool_use");
    assert_eq!(blocks[1]["name"], "web_search");
    assert_eq!(blocks[1]["id"], "toolu_srv");
    assert_eq!(blocks[1]["input"]["query"], "test");
}

#[test]
fn rewrites_server_tool_result_to_tool_result() {
    let (result, mutated) = run(
        r#"{"messages":[{"role":"user","content":[
            {"type":"server_tool_result","tool_use_id":"toolu_srv","content":"found"}]}]}"#,
    );
    assert!(mutated);
    let blocks = result["messages"][0]["content"].as_array().unwrap();
    assert_eq!(blocks[0]["type"], "tool_result");
    assert_eq!(blocks[0]["tool_use_id"], "toolu_srv");
}

#[test]
fn rewrites_tool_reference_inside_tool_result() {
    let (result, mutated) = run(
        r#"{"messages":[{"role":"user","content":[
            {"type":"tool_result","tool_use_id":"t1","content":[
                {"type":"text","text":"ok"},
                {"type":"tool_reference","tool_name":"grep"}]}]}]}"#,
    );
    assert!(mutated);
    let inner = result["messages"][0]["content"][0]["content"].as_array().unwrap();
    assert_eq!(inner[0]["type"], "text");
    assert_eq!(inner[0]["text"], "ok");
    assert_eq!(inner[1]["type"], "text");
    assert_eq!(inner[1]["text"], "[tool_reference: grep]");
    assert!(inner[1].get("tool_name").is_none(), "replaced block keeps only type and text");
}

#[test]
fn unknown_type_becomes_text_with_best_label() {
    let (result, mutated) = run(
        r#"{"messages":[{"role":"assistant","content":[
            {"type":"mcp_call","name":"lookup"},
            {"type":"web_fetch"},
            {"type":"document","text":"body text"}]}]}"#,
    );
    assert!(mutated);
    let blocks = result["messages"][0]["content"].as_array().unwrap();
    assert_eq!(blocks[0]["type"], "text");
    assert_eq!(blocks[0]["text"], "[mcp_call: lookup]");
    assert_eq!(blocks[1]["text"], "[web_fetch]");
    assert_eq!(blocks[2]["text"], "body text");
}

#[test]
fn noop_on_supported_types_only() {
    let input = r#"{"messages":[{"role":"user","content":[
        {"type":"text","text":"hi"},{"type":"image","source":{}},
        {"type":"thinking","thinking":"..."}]}]}"#;
    let filter = make_filter();
    let raw = input.as_bytes().to_vec();
    let mut body = Some(raw.clone());
    filter.on_request_body(&mut body, true).ok().unwrap();
    assert_eq!(body, Some(raw), "supported bodies are left byte for byte");
}

#[test]
fn noop_on_non_json_and_before_end_of_stream() {
    let filter = make_filter();
    let mut body = Some(b"not json".to_vec());
    filter.on_request_body(&mut body, true).ok().unwrap();
    assert_eq!(body, Some(b"not json".to_vec()));
    let raw = br#"{"messages":[{"role":"user","content":[{"type":"server_tool_use"}]}]}"#.to_vec();
    let mut body = Some(raw.clone());
    filter.on_request_body(&mut body, false).ok().unwrap();
    assert_eq!(body, Some(raw));
    let mut none: Option<Vec<u8>> = None;
    filter.on_request_body(&mut none, true).ok().unwrap();
    assert!(none.is_none());
}

#[test]
fn noop_on_string_content_and_missing_messages() {
    let filter = make_filter();
    for input in [
        r#"{"messages":[{"role":"user","content":"plain"}]}"#,
        r#"{"model":"x"}"#,
        r#"{"messages":"nope"}"#,
    ] {
        let raw = input.as_bytes().to_vec();
        let mut body = Some(raw.clone());
        filter.on_request_body(&mut body, true).ok().unwrap();
        assert_eq!(body, Some(raw));
    }
}

#[test]
fn top_level_tool_reference_is_kept() {
    let (out, changed) = run(r#"{"messages":[{"role":"user","content":[{"type":"tool_reference","tool_name":"Read"}]}]}"#);
    assert!(!changed);
    assert_eq!(out["messages"][0]["content"][0]["type"], "tool_reference");
}
