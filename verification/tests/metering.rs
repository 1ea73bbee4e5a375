use praxis_ai_filters::filter::{FilterAction, Headers, Metadata};
use praxis_ai_filters::json::{get, to_json_bytes, JsonValue};
use praxis_ai_filters::metering::{
    build_balance_url, build_error_event, build_usage_event, capture_identity, classify_response,
    default_feature_key, default_identity_header_prefix, default_source, default_timeout_seconds,
    default_true, extract_model_from_bytes, filter_state_key, parse_balance_result,
    percent_encode_segment, read_token_meta, record_response, timeout_millis, CalloutOutcome,
    EventContext, ExternalMeteringConfig, ExternalMeteringFilter, MeteringState, TokenCounts,
    CE_TYPE_ERROR, CE_TYPE_USAGE,
};

fn config() -> ExternalMeteringConfig {
    ExternalMeteringConfig {
        metering_url: "http://metering-service:8080".to_owned(),
        timeout_seconds: default_timeout_seconds(),
        feature_key: default_feature_key(),
        source: default_source(),
        fail_open: default_true(),
        identity_header_prefix: default_identity_header_prefix(),
        default_username: None,
        default_model: None,
    }
}

fn filter_with(cfg: ExternalMeteringConfig) -> ExternalMeteringFilter {
    ExternalMeteringFilter::from_config(cfg).ok().unwrap()
}

fn headers(entries: &[(&str, &str)]) -> Headers {
    Headers { entries: entries.iter().map(|(k, v)| (k.to_string(), Some(v.to_string()))).collect() }
}

fn meta(entries: &[(&str, &str)]) -> Metadata {
    Metadata::from_entries(entries.iter().map(|(k, v)| (k.to_string(), v.to_string())).collect())
}

fn as_json(v: &JsonValue) -> serde_json::Value {
    serde_json::from_slice(&to_json_bytes(v).unwrap()).unwrap()
}

fn state_for(username: &str, model: &str) -> MeteringState {
    MeteringState {
        group: "eng".to_owned(),
        is_error: false,
        model: model.to_owned(),
        response_status: 0,
        subscription: "sub".to_owned(),
        user_agent: "curl/8".to_owned(),
        username: username.to_owned(),
    }
}

#[test]
fn valid_config_parses() {
    let filter = filter_with(config());
    assert_eq!(filter.name(), "external_metering");
    assert!(filter.default_username.is_none());
    assert!(filter.default_model.is_none());
    assert_eq!(timeout_millis(5), 5000);
    assert_eq!(timeout_millis(u64::MAX), u64::MAX);
}

#[test]
fn config_errors() {
    let mut cfg = config();
    cfg.identity_header_prefix = String::new();
    assert_eq!(
        ExternalMeteringFilter::from_config(cfg).err().unwrap().to_string(),
        "external_metering: identity_header_prefix must not be empty"
    );
    let mut cfg = config();
    cfg.metering_url = String::new();
    assert_eq!(
        ExternalMeteringFilter::from_config(cfg).err().unwrap().to_string(),
        "external_metering: metering_url must not be empty"
    );
    let mut cfg = config();
    cfg.timeout_seconds = 0;
    assert_eq!(
        ExternalMeteringFilter::from_config(cfg).err().unwrap().to_string(),
        "external_metering: timeout_seconds must be greater than 0"
    );
}

#[test]
fn balance_response_decisions() {
    assert!(matches!(
        parse_balance_result(br#"{"hasAccess": true, "balance": 9000.0, "usage": 1000.0}"#, true),
        FilterAction::Continue
    ));
    match parse_balance_result(br#"{"hasAccess": false, "balance": 0.0}"#, true) {
        FilterAction::Reject(r) => {
            assert_eq!(r.status, 429);
            assert_eq!(r.body.unwrap(), b"token budget exhausted".to_vec());
        },
        _ => panic!("no access must reject"),
    }
    assert!(matches!(parse_balance_result(b"not json", true), FilterAction::Continue));
    match parse_balance_result(b"not json", false) {
        FilterAction::Reject(r) => {
            assert_eq!(r.status, 503);
            assert_eq!(r.body.unwrap(), b"metering system unavailable".to_vec());
        },
        _ => panic!("fail-closed must reject"),
    }
    assert!(matches!(parse_balance_result(b"", true), FilterAction::Continue));
    assert!(matches!(parse_balance_result(b"", false), FilterAction::Reject(_)));
    assert!(matches!(parse_balance_result(b"{}", true), FilterAction::Continue));
    assert!(matches!(parse_balance_result(b"[true]", false), FilterAction::Continue));
}

#[test]
fn callout_outcomes_decide() {
    let mut cfg = config();
    cfg.fail_open = false;
    let closed = filter_with(cfg);
    assert!(matches!(closed.balance_decision(&CalloutOutcome::Failed), FilterAction::Reject(_)));
    let rejected = classify_response(500, b"{}".to_vec());
    assert!(matches!(rejected, CalloutOutcome::Rejected { status: 500, .. }));
    assert!(matches!(closed.balance_decision(&rejected), FilterAction::Reject(_)));
    let ok = classify_response(200, br#"{"hasAccess":true}"#.to_vec());
    assert!(matches!(closed.balance_decision(&ok), FilterAction::Continue));
    let open = filter_with(config());
    assert!(matches!(open.balance_decision(&CalloutOutcome::Failed), FilterAction::Continue));
}

#[test]
fn balance_url_encodes_special_chars() {
    let url = build_balance_url("http://metering:8080", "user@example.com", "inference-tokens", "gpt-4o");
    assert_eq!(
        url,
        "http://metering:8080/api/v1/customers/user%40example.com/entitlements/inference-tokens/value?model=gpt-4o"
    );
    assert_eq!(percent_encode_segment("a b/c?é"), "a%20b%2Fc%3F%C3%A9");
}

#[test]
fn balance_url_strips_trailing_slash() {
    let url = build_balance_url("http://metering:8080//", "testuser", "tokens", "llama");
    assert!(url.starts_with("http://metering:8080/api/"));
    assert!(!url.contains("//api/"));
}

#[test]
fn usage_event_has_correct_structure() {
    let state = state_for("testuser", "gpt-4");
    let tokens = TokenCounts { input: 100, output: 50, total: 150, cache_read: 80, cache_write: 20 };
    let ctx = EventContext { duration_ms: 500, event_id: "evt-1", provider: "openai", source: "ai-gateway", state: &state };
    let event = as_json(&build_usage_event(&ctx, &tokens));
    assert_eq!(event["specversion"], "1.0");
    assert_eq!(event["id"], "evt-1");
    assert_eq!(event["type"], CE_TYPE_USAGE);
    assert_eq!(event["subject"], "testuser");
    assert_eq!(event["datacontenttype"], "application/json");
    assert_eq!(event["data"]["prompt_tokens"], 100);
    assert_eq!(event["data"]["completion_tokens"], 50);
    assert_eq!(event["data"]["total_tokens"], 150);
    assert_eq!(event["data"]["cached_input_tokens"], 80);
    assert_eq!(event["data"]["cache_creation_tokens"], 20);
    assert_eq!(event["data"]["duration_ms"], 500);
    assert_eq!(event["data"]["model"], "gpt-4");
    assert_eq!(event["data"]["provider"], "openai");
    assert!(event["time"].as_str().unwrap().len() > 0);
}

#[test]
fn error_event_has_correct_structure() {
    let mut state = state_for("testuser", "gpt-4");
    state.is_error = true;
    state.response_status = 500;
    let ctx = EventContext { duration_ms: 1, event_id: "evt-2", provider: "", source: "s", state: &state };
    let event = as_json(&build_error_event(&ctx));
    assert_eq!(event["type"], CE_TYPE_ERROR);
    assert_eq!(event["data"]["status_code"], 500);
    assert_eq!(event["data"]["user"], "testuser");
}

#[test]
fn captures_tenant_headers_with_default_prefix() {
    let h = headers(&[
        ("x-tenant-username", "alice"),
        ("x-tenant-group", "engineering"),
        ("x-tenant-subscription", "sub-42"),
        ("x-tenant-model", "gpt-4"),
        ("user-agent", "curl/8"),
    ]);
    let mut removed: Vec<String> = Vec::new();
    let state = capture_identity(&h, &Metadata::new(), "x-tenant-", &mut removed);
    assert_eq!(state.username, "alice");
    assert_eq!(state.group, "engineering");
    assert_eq!(state.subscription, "sub-42");
    assert_eq!(state.model, "gpt-4");
    assert_eq!(state.user_agent, "curl/8");
    assert!(removed.contains(&"x-tenant-username".to_owned()));
    assert!(removed.contains(&"authorization".to_owned()));
    assert!(removed.contains(&"x-api-key".to_owned()));
    assert!(removed.contains(&"accept-encoding".to_owned()));
}

#[test]
fn custom_prefix_and_missing_username() {
    let h = headers(&[("X-Maas-Username", "bob")]);
    let mut removed: Vec<String> = Vec::new();
    let state = capture_identity(&h, &Metadata::new(), "X-MAAS-", &mut removed);
    assert_eq!(state.username, "bob");
    let state = capture_identity(&headers(&[]), &Metadata::new(), "x-tenant-", &mut removed);
    assert!(state.username.is_empty());
}

#[test]
fn verified_identity_ignores_forged_headers_and_guard_metadata() {
    let h = headers(&[("x-tenant-subscription", "sub-forged"), ("x-tenant-model", "model-forged")]);
    let m = meta(&[
        ("x-tenant-username", "alice"),
        ("x-tenant-group", "engineering"),
        ("identity.x-tenant-subscription", "sub-forged"),
        ("identity.x-tenant-model", "model-forged"),
    ]);
    let mut removed: Vec<String> = Vec::new();
    let state = capture_identity(&h, &m, "x-tenant-", &mut removed);
    assert_eq!(state.username, "alice");
    assert_eq!(state.group, "engineering");
    assert!(state.subscription.is_empty());
    assert!(state.model.is_empty());
    assert!(removed.contains(&"x-tenant-subscription".to_owned()), "still stripped");
}

#[test]
fn guard_metadata_supplies_identity_and_blocks_raw_headers() {
    let m = meta(&[
        ("identity.x-tenant-username", "bob"),
        ("identity.x-tenant-group", "ml"),
        ("identity.x-tenant-model", "sonnet-3"),
    ]);
    let mut removed: Vec<String> = Vec::new();
    let state = capture_identity(&headers(&[("x-tenant-subscription", "raw-sub")]), &m, "x-tenant-", &mut removed);
    assert_eq!(state.username, "bob");
    assert_eq!(state.group, "ml");
    assert_eq!(state.model, "sonnet-3");
    assert!(state.subscription.is_empty());
}

#[test]
fn group_falls_back_to_subscription() {
    let h = headers(&[("x-tenant-username", "alice"), ("x-tenant-subscription", "sub-99")]);
    let mut removed: Vec<String> = Vec::new();
    let state = capture_identity(&h, &Metadata::new(), "x-tenant-", &mut removed);
    assert_eq!(state.group, "sub-99");
}

#[test]
fn model_extraction() {
    assert_eq!(extract_model_from_bytes(br#"{"model":"gpt-4","messages":[]}"#).as_deref(), Some("gpt-4"));
    assert_eq!(
        extract_model_from_bytes(br#"{ "model" : "sonnet-sonnet-4" , "stream": true }"#).as_deref(),
        Some("sonnet-sonnet-4")
    );
    assert_eq!(
        extract_model_from_bytes(br#"{"stream":true,"max_tokens":100,"model":"gpt-4o-mini"}"#).as_deref(),
        Some("gpt-4o-mini")
    );
    assert!(extract_model_from_bytes(br#"{"messages":[{"role":"user","content":"hi"}]}"#).is_none());
    assert!(extract_model_from_bytes(br#"{"model":"gpt-4"#).is_none());
    assert!(extract_model_from_bytes(&[0xFF_u8, 0xFE, 0x00, 0x01]).is_none());
    assert!(extract_model_from_bytes(br#"{"model":null}"#).is_none());
}

#[test]
fn reads_token_metadata() {
    let m = meta(&[("token.input", "150"), ("token.output", "80"), ("token.total", "+230"), ("token.cache_read", "x")]);
    assert_eq!(read_token_meta(&m, "token.input"), 150);
    assert_eq!(read_token_meta(&m, "token.output"), 80);
    assert_eq!(read_token_meta(&m, "token.total"), 230);
    assert_eq!(read_token_meta(&m, "token.cache_read"), 0);
    assert_eq!(read_token_meta(&m, "token.cache_write"), 0);
}

#[test]
fn skips_metering_when_no_identity_and_no_fallback() {
    let filter = filter_with(config());
    let mut m = Metadata::new();
    let mut removed: Vec<String> = Vec::new();
    assert!(filter.begin_request(&headers(&[]), &mut m, &mut removed).is_none());
    assert!(m.entries().is_empty());
}

#[test]
fn fallback_username_meters_and_records_model() {
    let mut cfg = config();
    cfg.default_username = Some("anonymous".to_owned());
    let filter = filter_with(cfg);
    let mut m = Metadata::new();
    let mut removed: Vec<String> = Vec::new();
    let state = filter
        .begin_request(&headers(&[("x-tenant-model", "gpt-4")]), &mut m, &mut removed)
        .unwrap();
    assert_eq!(state.username, "anonymous");
    assert_eq!(m.get("metering.model").map(|s| s.as_str()), Some("gpt-4"));
    assert_eq!(
        filter.balance_url_for(&state),
        "http://metering-service:8080/api/v1/customers/anonymous/entitlements/inference-tokens/value?model=gpt-4"
    );
}

#[test]
fn request_body_records_model_only_when_unresolved() {
    let filter = filter_with(config());
    let mut m = Metadata::new();
    let action = filter.on_request_body(&mut m, Some(br#"{"model":"llama"}"#));
    assert!(matches!(action, FilterAction::Release));
    assert_eq!(m.get("metering.model").map(|s| s.as_str()), Some("llama"));
    filter.on_request_body(&mut m, Some(br#"{"model":"other"}"#));
    assert_eq!(m.get("metering.model").map(|s| s.as_str()), Some("llama"));
}

#[test]
fn response_status_and_report() {
    let mut cfg = config();
    cfg.default_model = Some("unknown".to_owned());
    let filter = filter_with(cfg);
    let mut state = state_for("alice", "");
    record_response(&mut state, Some(502));
    assert!(state.is_error);
    assert_eq!(state.response_status, 502);
    let event = as_json(&filter.report(&Metadata::new(), state, "id-1", "openai", 7));
    assert_eq!(event["type"], CE_TYPE_ERROR);
    assert_eq!(event["data"]["model"], "unknown");
    let mut ok_state = state_for("alice", "");
    record_response(&mut ok_state, None);
    assert!(!ok_state.is_error);
    assert_eq!(ok_state.response_status, 0);
    let m = meta(&[("metering.model", "gpt-4"), ("token.input", "3")]);
    let event = as_json(&filter.report(&m, ok_state, "id-2", "openai", 7));
    assert_eq!(event["type"], CE_TYPE_USAGE);
    assert_eq!(event["data"]["model"], "gpt-4");
    assert_eq!(event["data"]["prompt_tokens"], 3);
    let (url, body) = filter.usage_report(&JsonValue::Null).unwrap();
    assert_eq!(url, "http://metering-service:8080/api/v1/events");
    assert_eq!(body, b"null".to_vec());
}

#[test]
fn state_key_defaults_to_zero() {
    assert_eq!(filter_state_key(Some(3)), 3);
    assert_eq!(filter_state_key(None), 0);
    assert!(get(&JsonValue::Null, "x").is_none());
}

#[test]
fn config_with_all_fields_parses() {
    let cfg = ExternalMeteringConfig {
        metering_url: "http://metering:8080".to_owned(),
        timeout_seconds: 10,
        feature_key: "custom-tokens".to_owned(),
        source: "my-gateway".to_owned(),
        fail_open: false,
        identity_header_prefix: "x-custom-".to_owned(),
        default_username: None,
        default_model: None,
    };
    let filter = filter_with(cfg);
    assert_eq!(filter.name(), "external_metering");
}

#[test]
fn config_with_fallbacks_parses() {
    let mut cfg = config();
    cfg.metering_url = "http://metering:8080".to_owned();
    cfg.default_username = Some("anonymous".to_owned());
    cfg.default_model = Some("unknown".to_owned());
    let filter = filter_with(cfg);
    assert_eq!(filter.default_username.as_deref(), Some("anonymous"));
    assert_eq!(filter.default_model.as_deref(), Some("unknown"));
}

#[test]
fn config_without_fallbacks_leaves_them_unset() {
    let mut cfg = config();
    cfg.metering_url = "http://metering:8080".to_owned();
    let filter = filter_with(cfg);
    assert!(filter.default_username.is_none());
    assert!(filter.default_model.is_none());
}

#[test]
fn config_empty_prefix_fails() {
    let mut cfg = config();
    cfg.metering_url = "http://metering:8080".to_owned();
    cfg.identity_header_prefix = String::new();
    assert!(ExternalMeteringFilter::from_config(cfg).is_err());
}

#[test]
fn config_missing_url_fails() {
    let mut cfg = config();
    cfg.metering_url = String::new();
    assert!(ExternalMeteringFilter::from_config(cfg).is_err());
}

#[test]
fn config_zero_timeout_fails() {
    let mut cfg = config();
    cfg.metering_url = "http://metering:8080".to_owned();
    cfg.timeout_seconds = 0;
    assert!(ExternalMeteringFilter::from_config(cfg).is_err());
}

#[test]
fn balance_response_has_access_continues() {
    let body = br#"{"hasAccess": true, "balance": 9000.0, "usage": 1000.0}"#;
    let action = parse_balance_result(body, true);
    assert!(matches!(action, FilterAction::Continue));
}

#[test]
fn balance_response_no_access_rejects() {
    let body = br#"{"hasAccess": false, "balance": 0.0, "usage": 10000.0}"#;
    let action = parse_balance_result(body, true);
    assert!(matches!(action, FilterAction::Reject(_)));
}

#[test]
fn balance_response_invalid_json_fail_open() {
    let body = b"not json";
    let action = parse_balance_result(body, true);
    assert!(matches!(action, FilterAction::Continue));
}

#[test]
fn balance_response_invalid_json_fail_closed() {
    let body = b"not json";
    let action = parse_balance_result(body, false);
    assert!(matches!(action, FilterAction::Reject(_)));
}

#[test]
fn balance_response_empty_body_fail_open() {
    let action = parse_balance_result(b"", true);
    assert!(matches!(action, FilterAction::Continue));
}

#[test]
fn balance_response_empty_body_fail_closed() {
    let action = parse_balance_result(b"", false);
    assert!(matches!(action, FilterAction::Reject(_)));
}

#[test]
fn strips_identity_and_auth_headers() {
    let h = headers(&[("x-tenant-username", "alice"), ("authorization", "Bearer sk-test")]);
    let mut removed: Vec<String> = Vec::new();
    let _state = capture_identity(&h, &Metadata::new(), "x-tenant-", &mut removed);
    assert!(removed.contains(&"x-tenant-username".to_owned()));
    assert!(removed.contains(&"authorization".to_owned()));
    assert!(removed.contains(&"x-api-key".to_owned()));
}

#[test]
fn custom_prefix_captures_correctly() {
    let h = headers(&[("x-myco-username", "bob")]);
    let mut removed: Vec<String> = Vec::new();
    let state = capture_identity(&h, &Metadata::new(), "x-myco-", &mut removed);
    assert_eq!(state.username, "bob");
}

#[test]
fn missing_username_returns_empty() {
    let mut removed: Vec<String> = Vec::new();
    let state = capture_identity(&headers(&[]), &Metadata::new(), "x-tenant-", &mut removed);
    assert!(state.username.is_empty());
}

#[test]
fn guard_metadata_supplies_identity_without_verified_claims() {
    let m = meta(&[
        ("identity.x-tenant-username", "bob"),
        ("identity.x-tenant-group", "ml"),
        ("identity.x-tenant-subscription", "sub-7"),
        ("identity.x-tenant-model", "sonnet-3"),
    ]);
    let mut removed: Vec<String> = Vec::new();
    let state = capture_identity(&headers(&[]), &m, "x-tenant-", &mut removed);
    assert_eq!(state.username, "bob");
    assert_eq!(state.group, "ml");
    assert_eq!(state.subscription, "sub-7");
    assert_eq!(state.model, "sonnet-3");
}

#[test]
fn guard_identity_blocks_raw_header_fallback() {
    let h = headers(&[("x-tenant-subscription", "raw-sub")]);
    let m = meta(&[("identity.x-tenant-username", "bob")]);
    let mut removed: Vec<String> = Vec::new();
    let state = capture_identity(&h, &m, "x-tenant-", &mut removed);
    assert_eq!(state.username, "bob");
    assert!(
        state.subscription.is_empty(),
        "raw header must be ignored when guard metadata identity exists: {}",
        state.subscription
    );
}

#[test]
fn strips_accept_encoding_to_keep_response_readable() {
    let h = headers(&[("x-tenant-username", "alice"), ("accept-encoding", "gzip, deflate, br")]);
    let mut removed: Vec<String> = Vec::new();
    let _state = capture_identity(&h, &Metadata::new(), "x-tenant-", &mut removed);
    assert!(removed.contains(&"accept-encoding".to_owned()));
}

#[test]
fn extracts_model_from_compact_json() {
    let body = br#"{"model":"gpt-4","messages":[]}"#;
    assert_eq!(extract_model_from_bytes(body).as_deref(), Some("gpt-4"));
}

#[test]
fn extracts_model_with_whitespace_around_colon() {
    let body = br#"{ "model" : "sonnet-sonnet-4" , "stream": true }"#;
    assert_eq!(extract_model_from_bytes(body).as_deref(), Some("sonnet-sonnet-4"));
}

#[test]
fn extracts_model_when_not_first_field() {
    let body = br#"{"stream":true,"max_tokens":100,"model":"gpt-4o-mini"}"#;
    assert_eq!(extract_model_from_bytes(body).as_deref(), Some("gpt-4o-mini"));
}

#[test]
fn extract_model_returns_none_when_absent() {
    let body = br#"{"messages":[{"role":"user","content":"hi"}]}"#;
    assert!(extract_model_from_bytes(body).is_none());
}

#[test]
fn extract_model_returns_none_on_truncated_chunk() {
    let body = br#"{"model":"gpt-4"#;
    assert!(extract_model_from_bytes(body).is_none());
}

#[test]
fn extract_model_returns_none_on_non_utf8() {
    let body = &[0xFF_u8, 0xFE, 0x00, 0x01];
    assert!(extract_model_from_bytes(body).is_none());
}

#[test]
fn extract_model_returns_none_on_non_string_value() {
    let body = br#"{"model":null}"#;
    assert!(extract_model_from_bytes(body).is_none());
}

#[test]
fn missing_token_metadata_returns_zero() {
    assert_eq!(read_token_meta(&Metadata::new(), "token.input"), 0);
}

#[test]
fn response_body_is_noop_before_end_of_stream() {
    let filter = filter_with(config());
    let mut slot = Some(state_for("alice", "gpt-4"));
    let (action, to_report) = filter.on_response_body(&mut slot, false);
    assert!(matches!(action, FilterAction::Continue));
    assert!(to_report.is_none());
    assert!(slot.is_some(), "state survives so the terminal chunk can still report usage");
}

#[test]
fn response_body_without_state_is_noop() {
    let filter = filter_with(config());
    let mut slot: Option<MeteringState> = None;
    let (action, to_report) = filter.on_response_body(&mut slot, true);
    assert!(matches!(action, FilterAction::Continue));
    assert!(to_report.is_none());
}

#[test]
fn response_body_end_of_stream_hands_state_to_report() {
    let filter = filter_with(config());
    let mut slot = Some(state_for("alice", "gpt-4"));
    let (_, to_report) = filter.on_response_body(&mut slot, true);
    assert_eq!(to_report.unwrap().username, "alice");
    assert!(slot.is_none());
    let mut anonymous = Some(state_for("", "gpt-4"));
    let (_, none) = filter.on_response_body(&mut anonymous, true);
    assert!(none.is_none());
    assert!(anonymous.is_none());
}
