use praxis_ai_filters::filter::{BodyAccess, BodyMode, FilterAction};
use praxis_ai_filters::token_usage::stream_usage::{
    default_max_body_bytes, StreamUsageConfig, StreamUsageInjectFilter,
};

fn make_filter() -> StreamUsageInjectFilter {
    StreamUsageInjectFilter::from_config(StreamUsageConfig { max_body_bytes: default_max_body_bytes() })
        .ok()
        .unwrap()
}

fn run(path: &str, input: &str) -> (serde_json::Value, bool) {
    let filter = make_filter();
    let raw = input.as_bytes().to_vec();
    let mut body = Some(raw.clone());
    let action = filter.on_request_body(path, &mut body, true).ok().unwrap();
    assert!(matches!(action, FilterAction::Continue));
    let out = body.unwrap();
    let changed = out != raw;
    (serde_json::from_slice(&out).unwrap(), changed)
}

#[test]
fn tests_filter_name() {
    let filter = make_filter();
    assert_eq!(filter.name(), "stream_usage_inject");
}

#[test]
fn tests_default_config() {
    let filter = make_filter();
    assert_eq!(filter.request_body_access(), BodyAccess::ReadWrite);
    assert!(matches!(
        filter.request_body_mode(),
        BodyMode::StreamBuffer { max_bytes: Some(limit) } if limit > 0
    ));
}

#[test]
fn injects_when_streaming_without_stream_options() {
    let (result, changed) = run("/v1/chat/completions", r#"{"model":"gpt-4o","stream":true,"messages":[]}"#);
    assert!(changed);
    assert_eq!(result["stream_options"]["include_usage"], true);
    assert_eq!(result["model"], "gpt-4o");
}

#[test]
fn preserves_existing_stream_options_fields() {
    let (result, changed) = run(
        "/v1/chat/completions",
        r#"{"stream":true,"stream_options":{"other":1,"include_usage":false}}"#,
    );
    assert!(changed);
    assert_eq!(result["stream_options"]["include_usage"], true);
    assert_eq!(result["stream_options"]["other"], 1);
}

#[test]
fn noop_when_already_present_or_not_streaming() {
    for input in [
        r#"{"stream":true,"stream_options":{"include_usage":true}}"#,
        r#"{"stream":false}"#,
        r#"{"model":"x"}"#,
    ] {
        let (_, changed) = run("/v1/chat/completions", input);
        assert!(!changed, "{input}");
    }
}

#[test]
fn noop_on_responses_api() {
    let (result, changed) = run("/v1/responses", r#"{"stream":true}"#);
    assert!(!changed);
    assert!(result.get("stream_options").is_none());
}

#[test]
fn non_object_stream_options_is_an_error() {
    let filter = make_filter();
    let raw = br#"{"stream":true,"stream_options":5}"#.to_vec();
    let mut body = Some(raw.clone());
    let r = filter.on_request_body("/v1/chat/completions", &mut body, true);
    assert!(r.is_err());
    assert_eq!(body, Some(raw));
}

#[test]
fn gracefully_handles_non_json() {
    let filter = make_filter();
    let mut body = Some(b"garbage".to_vec());
    assert!(filter.on_request_body("/v1/chat/completions", &mut body, true).is_ok());
    assert_eq!(body, Some(b"garbage".to_vec()));
}

#[test]
fn injection_succeeds_and_rewrites_the_body() {
    let (out, changed) = run("/v1/chat/completions", r#"{"model":"m","stream":true,"temperature":0.7}"#);
    assert!(changed);
    assert_eq!(out["stream_options"]["include_usage"], true);
    assert_eq!(out["temperature"], 0.7);
}
