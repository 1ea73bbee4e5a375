use praxis_ai_filters::filter::{Headers, Metadata};
use praxis_ai_filters::token_usage::count::{
    load_sse_scan_state, save_sse_scan_state, SseScanState, decode_hex, is_event_stream_content_type, is_json_content_type, push_hex, ProviderKind,
    SseEvents, TokenCountConfig, TokenCountFilter, DEFAULT_MAX_BODY_BYTES, DEFAULT_MAX_SCRATCH_BYTES,
};

fn filter(provider: ProviderKind) -> TokenCountFilter {
    TokenCountFilter::from_config(TokenCountConfig {
        provider,
        max_body_bytes: DEFAULT_MAX_BODY_BYTES,
        max_scratch_bytes: DEFAULT_MAX_SCRATCH_BYTES,
    })
    .ok()
    .unwrap()
}

fn json_headers() -> Headers {
    Headers { entries: vec![("content-type".to_owned(), Some("application/json".to_owned()))] }
}

fn sse_headers() -> Headers {
    Headers { entries: vec![("content-type".to_owned(), Some("text/event-stream".to_owned()))] }
}

fn no_events() -> SseEvents {
    SseEvents { payloads: Vec::new(), dropped_tail: false }
}

fn meta(m: &Metadata, k: &str) -> Option<String> {
    m.get(k).cloned()
}

#[test]
fn is_event_stream_recognizes_variants() {
    assert!(is_event_stream_content_type("text/event-stream"), "exact match");
    assert!(
        is_event_stream_content_type("text/event-stream; charset=utf-8"),
        "with charset"
    );
    assert!(is_event_stream_content_type("Text/Event-Stream"), "mixed case");
    assert!(is_event_stream_content_type("TEXT/EVENT-STREAM"), "uppercase");
    assert!(
        !is_event_stream_content_type("application/json"),
        "json should not match"
    );
}

#[test]
fn is_json_recognizes_variants() {
    assert!(is_json_content_type("application/json"), "exact match");
    assert!(is_json_content_type("application/json; charset=utf-8"), "with charset");
    assert!(is_json_content_type("Application/JSON"), "mixed case");
    assert!(!is_json_content_type("text/event-stream"), "SSE should not match");
}

#[test]
fn decode_hex_rejects_odd_length() {
    assert!(decode_hex("abc").is_none(), "odd-length hex should return None");
}

#[test]
fn decode_hex_rejects_invalid_chars() {
    assert!(decode_hex("zz").is_none(), "invalid hex chars should return None");
}

#[test]
fn decode_hex_roundtrips() {
    let data = b"hello world";
    let mut encoded = String::new();
    push_hex(&mut encoded, data);
    assert_eq!(encoded, "68656c6c6f20776f726c64");
    let decoded = decode_hex(&encoded).unwrap();
    assert_eq!(decoded, data.to_vec(), "hex roundtrip should preserve data");
}

#[test]
fn for_path_resolves_openai_dialects() {
    assert_eq!(
        ProviderKind::for_path("/v1/responses"),
        Some(ProviderKind::OpenAi),
        "Responses endpoint meters with the OpenAI parser"
    );
    assert_eq!(
        ProviderKind::for_path("/v1/chat/completions"),
        Some(ProviderKind::OpenAi)
    );
    assert_eq!(ProviderKind::for_path("/v1/completions"), Some(ProviderKind::OpenAi));
    assert_eq!(
        ProviderKind::for_path("/openai/deployments/gpt/chat/completions"),
        Some(ProviderKind::OpenAi),
        "Azure OpenAI paths share the OpenAI schema"
    );
}

#[test]
fn for_path_resolves_vendor_dialects() {
    assert_eq!(ProviderKind::for_path("/v1/messages"), Some(ProviderKind::Anthropic));
    assert_eq!(
        ProviderKind::for_path("/v1beta/models/gemini:generateContent"),
        Some(ProviderKind::Google)
    );
    assert_eq!(
        ProviderKind::for_path("/v1beta/models/gemini:streamGenerateContent"),
        Some(ProviderKind::Google)
    );
    assert_eq!(
        ProviderKind::for_path("/model/sonnet/converse"),
        Some(ProviderKind::Bedrock)
    );
    assert_eq!(
        ProviderKind::for_path("/model/sonnet/converse-stream"),
        Some(ProviderKind::Bedrock)
    );
    assert_eq!(
        ProviderKind::for_path("/model/titan/invoke"),
        Some(ProviderKind::BedrockInvokeModel)
    );
    assert_eq!(
        ProviderKind::for_path("/model/titan/invoke-with-response-stream"),
        Some(ProviderKind::BedrockInvokeModel)
    );
}

#[test]
fn for_path_skips_unmeterable_paths() {
    assert_eq!(ProviderKind::for_path("/v1/models"), None, "catalog has no usage");
    assert_eq!(ProviderKind::for_path("/health"), None);
    assert_eq!(
        ProviderKind::for_path("/v1/messages/count_tokens"),
        None,
        "token estimates are not inference and must not meter"
    );
}

#[test]
fn provider_kind_meta_roundtrips() {
    for kind in [
        ProviderKind::OpenAi,
        ProviderKind::Anthropic,
        ProviderKind::Google,
        ProviderKind::Bedrock,
        ProviderKind::BedrockInvokeModel,
        ProviderKind::Azure,
    ] {
        assert_eq!(
            ProviderKind::from_meta(kind.as_str()),
            Some(kind),
            "resolved kinds must survive the metadata round-trip"
        );
    }
    assert_eq!(
        ProviderKind::from_meta("auto"),
        None,
        "auto never stashes itself as a resolved kind"
    );
}

#[test]
fn openai_json_response_publishes_counts() {
    let f = filter(ProviderKind::OpenAi);
    let mut m = Metadata::new();
    f.on_response(&mut m, "/v1/chat/completions", Some(200), &json_headers());
    let body = br#"{"id":"x","usage":{"prompt_tokens":10,"completion_tokens":20,"total_tokens":30}}"#;
    f.on_response_body(&mut m, Some(body), true, &no_events());
    assert_eq!(meta(&m, "token.input").as_deref(), Some("10"));
    assert_eq!(meta(&m, "token.output").as_deref(), Some("20"));
    assert_eq!(meta(&m, "token.total").as_deref(), Some("30"));
    assert!(
        m.entries().iter().all(|(k, _)| !k.starts_with("token_count.")),
        "working state is cleared at the end of the body"
    );
    assert!(meta(&m, "token.status").is_none());
}

#[test]
fn json_response_split_across_chunks() {
    let f = filter(ProviderKind::Anthropic);
    let mut m = Metadata::new();
    f.on_response(&mut m, "/v1/messages", Some(200), &json_headers());
    let first = br#"{"usage":{"input_tokens":5,"#;
    let second = br#""output_tokens":7}}"#;
    f.on_response_body(&mut m, Some(first), false, &no_events());
    f.on_response_body(&mut m, Some(second), true, &no_events());
    assert_eq!(meta(&m, "token.input").as_deref(), Some("5"));
    assert_eq!(meta(&m, "token.output").as_deref(), Some("7"));
    assert_eq!(meta(&m, "token.total").as_deref(), Some("12"));
}

#[test]
fn json_overflow_marks_status() {
    let f = TokenCountFilter::from_config(TokenCountConfig {
        provider: ProviderKind::OpenAi,
        max_body_bytes: 8,
        max_scratch_bytes: DEFAULT_MAX_SCRATCH_BYTES,
    })
    .ok()
    .unwrap();
    let mut m = Metadata::new();
    f.on_response(&mut m, "/v1/chat/completions", Some(200), &json_headers());
    f.on_response_body(&mut m, Some(b"0123456789"), false, &no_events());
    assert_eq!(meta(&m, "token.status").as_deref(), Some("overflow"));
    assert!(m.entries().iter().all(|(k, _)| !k.starts_with("token_count.")));
}

#[test]
fn error_status_is_not_metered() {
    let f = filter(ProviderKind::OpenAi);
    let mut m = Metadata::new();
    f.on_response(&mut m, "/v1/chat/completions", Some(500), &json_headers());
    assert!(m.entries().is_empty());
}

#[test]
fn sse_stream_merges_partial_counts_by_max() {
    let f = filter(ProviderKind::Anthropic);
    let mut m = Metadata::new();
    f.on_response(&mut m, "/v1/messages", Some(200), &sse_headers());
    let start = br#"{"type":"message_start","message":{"usage":{"input_tokens":25,"output_tokens":1}}}"#.to_vec();
    let delta = br#"{"type":"message_delta","usage":{"output_tokens":15}}"#.to_vec();
    let events = SseEvents { payloads: vec![start, delta], dropped_tail: false };
    f.on_response_body(&mut m, None, true, &events);
    assert_eq!(meta(&m, "token.input").as_deref(), Some("25"));
    assert_eq!(meta(&m, "token.output").as_deref(), Some("15"));
    assert_eq!(meta(&m, "token.total").as_deref(), Some("40"));
    assert!(m.entries().iter().all(|(k, _)| !k.starts_with("token_count.")));
}

#[test]
fn sse_dropped_tail_marks_overflow() {
    let f = filter(ProviderKind::OpenAi);
    let mut m = Metadata::new();
    f.on_response(&mut m, "/v1/chat/completions", Some(200), &sse_headers());
    let events = SseEvents { payloads: Vec::new(), dropped_tail: true };
    f.on_response_body(&mut m, None, true, &events);
    assert_eq!(meta(&m, "token.status").as_deref(), Some("overflow"));
}

#[test]
fn bedrock_invoke_model_reads_headers() {
    let f = filter(ProviderKind::BedrockInvokeModel);
    let mut m = Metadata::new();
    let headers = Headers {
        entries: vec![
            ("x-amzn-bedrock-input-token-count".to_owned(), Some("11".to_owned())),
            ("x-amzn-bedrock-output-token-count".to_owned(), Some("4".to_owned())),
        ],
    };
    f.on_response(&mut m, "/model/titan/invoke", Some(200), &headers);
    assert_eq!(meta(&m, "token.input").as_deref(), Some("11"));
    assert_eq!(meta(&m, "token.output").as_deref(), Some("4"));
    assert_eq!(meta(&m, "token.total").as_deref(), Some("15"));
}

#[test]
fn zero_scratch_limit_rejected() {
    let r = TokenCountFilter::from_config(TokenCountConfig {
        provider: ProviderKind::OpenAi,
        max_body_bytes: DEFAULT_MAX_BODY_BYTES,
        max_scratch_bytes: 0,
    });
    assert_eq!(
        r.err().unwrap().to_string(),
        "token_count: 'max_scratch_bytes' must be greater than 0"
    );
}

#[test]
fn scan_state_survives_between_callbacks() {
    let mut m = Metadata::new();
    m.insert("token_count.sse_data_hex".to_owned(), "ff".to_owned());
    let state = SseScanState {
        line_buf: b"data: {\"a\"".to_vec(),
        data_buf: Vec::new(),
        has_data: true,
        prev_cr: false,
        scratch_bytes: 12,
        skip: "none".to_owned(),
        tail: "event".to_owned(),
    };
    save_sse_scan_state(&mut m, &state);
    assert!(m.get("token_count.sse_data_hex").is_none(), "an empty buffer removes its key");
    let back = load_sse_scan_state(&m);
    assert_eq!(back.line_buf, state.line_buf);
    assert!(back.data_buf.is_empty());
    assert!(back.has_data);
    assert!(!back.prev_cr);
    assert_eq!(back.scratch_bytes, 12);
    assert_eq!(back.skip, "none");
    assert_eq!(back.tail, "event");
    let fresh = load_sse_scan_state(&Metadata::new());
    assert!(fresh.line_buf.is_empty() && !fresh.has_data && fresh.scratch_bytes == 0 && fresh.skip.is_empty());
}

fn filter_with_limits(provider: ProviderKind, max_body_bytes: usize, max_scratch_bytes: usize) -> Result<TokenCountFilter, String> {
    TokenCountFilter::from_config(TokenCountConfig { provider, max_body_bytes, max_scratch_bytes })
        .map_err(|e| e.to_string())
}

#[test]
fn from_config_with_valid_provider() {
    let filter = filter(ProviderKind::from_meta("openai").unwrap());
    assert_eq!(filter.name(), "token_count", "filter name should match");
}

#[test]
fn from_config_all_providers() {
    for provider in [
        ProviderKind::OpenAi,
        ProviderKind::Anthropic,
        ProviderKind::Google,
        ProviderKind::Bedrock,
        ProviderKind::BedrockInvokeModel,
        ProviderKind::Azure,
        ProviderKind::Auto,
    ] {
        let result = filter_with_limits(provider, DEFAULT_MAX_BODY_BYTES, DEFAULT_MAX_SCRATCH_BYTES);
        assert!(result.is_ok(), "provider '{}' should be accepted", provider.as_str());
    }
}

#[test]
fn from_config_rejects_unknown_provider() {
    assert!(ProviderKind::from_meta("unknown").is_none(), "unknown provider should be rejected");
}

#[test]
fn on_response_body_noop_without_mode() {
    let f = filter(ProviderKind::OpenAi);
    let mut m = Metadata::new();
    let action = f.on_response_body(&mut m, Some(b"hello"), true, &no_events());
    assert!(matches!(action, praxis_ai_filters::filter::FilterAction::Continue), "should return Continue without mode");
    assert!(meta(&m, "token.input").is_none(), "should not set any token metadata without mode");
}

#[test]
fn max_body_bytes_configurable_via_yaml() {
    let filter = filter_with_limits(ProviderKind::OpenAi, 4096, DEFAULT_MAX_SCRATCH_BYTES).unwrap();
    assert_eq!(filter.name(), "token_count");
}

#[test]
fn max_scratch_bytes_configurable_via_yaml() {
    let filter = filter_with_limits(ProviderKind::OpenAi, DEFAULT_MAX_BODY_BYTES, 512).unwrap();
    assert_eq!(filter.name(), "token_count");
}

#[test]
fn from_config_rejects_zero_max_body_bytes() {
    match filter_with_limits(ProviderKind::OpenAi, 0, DEFAULT_MAX_SCRATCH_BYTES) {
        Err(err) => assert!(err.contains("max_body_bytes"), "should reject zero max_body_bytes: {err}"),
        Ok(_) => panic!("should reject zero max_body_bytes"),
    }
}

#[test]
fn from_config_rejects_zero_max_scratch_bytes() {
    match filter_with_limits(ProviderKind::OpenAi, DEFAULT_MAX_BODY_BYTES, 0) {
        Err(err) => assert!(err.contains("max_scratch_bytes"), "should reject zero max_scratch_bytes: {err}"),
        Ok(_) => panic!("should reject zero max_scratch_bytes"),
    }
}

#[test]
fn from_config_rejects_max_body_bytes_above_ceiling() {
    match filter_with_limits(ProviderKind::OpenAi, 67108865, DEFAULT_MAX_SCRATCH_BYTES) {
        Err(err) => assert!(err.contains("exceeds maximum"), "should reject max_body_bytes above 64 MiB: {err}"),
        Ok(_) => panic!("should reject max_body_bytes above 64 MiB"),
    }
}

#[test]
fn from_config_rejects_max_scratch_bytes_above_ceiling() {
    match filter_with_limits(ProviderKind::OpenAi, DEFAULT_MAX_BODY_BYTES, 67108865) {
        Err(err) => assert!(
            err.contains("max_scratch_bytes") && err.contains("exceeds maximum"),
            "should reject max_scratch_bytes above 64 MiB: {err}"
        ),
        Ok(_) => panic!("should reject max_scratch_bytes above 64 MiB"),
    }
}

#[test]
fn bedrock_invoke_model_response_body_access_is_none() {
    let f = filter(ProviderKind::BedrockInvokeModel);
    assert_eq!(f.response_body_access(), praxis_ai_filters::filter::BodyAccess::NoAccess);
}

#[test]
fn other_providers_response_body_access_is_read_only() {
    let f = filter(ProviderKind::OpenAi);
    assert_eq!(f.response_body_access(), praxis_ai_filters::filter::BodyAccess::ReadOnly);
}

#[test]
fn on_response_body_noop_for_bedrock_invoke_model() {
    let f = filter(ProviderKind::BedrockInvokeModel);
    let mut m = Metadata::new();
    let action = f.on_response_body(&mut m, None, true, &no_events());
    assert!(matches!(action, praxis_ai_filters::filter::FilterAction::Continue));
    assert!(meta(&m, "token.input").is_none());
}

#[test]
fn merging_counts_in_either_order_agrees() {
    let mut a = Metadata::new();
    a.insert("other".to_owned(), "x".to_owned());
    let mut b = Metadata::new();
    b.insert("other".to_owned(), "x".to_owned());
    praxis_ai_filters::token_usage::count::merge_accumulated_count(&mut a, "token_count.input", 7);
    praxis_ai_filters::token_usage::count::merge_accumulated_count(&mut a, "token_count.input", 3);
    praxis_ai_filters::token_usage::count::merge_accumulated_count(&mut b, "token_count.input", 3);
    praxis_ai_filters::token_usage::count::merge_accumulated_count(&mut b, "token_count.input", 7);
    assert_eq!(a.entries(), b.entries());
    assert_eq!(meta(&a, "token_count.input").as_deref(), Some("7"));
}
