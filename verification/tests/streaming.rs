use praxis_ai_filters::token_usage::streaming::{parse_anthropic_event, parse_bedrock_event};
use praxis_ai_filters::token_usage::StreamingTokens;

// -------------------------------------------------------------------------
// Anthropic: Malformed / Null
// -------------------------------------------------------------------------

#[test]
fn anthropic_missing_type_field_returns_none() {
    let event = br#"{"message":{"usage":{"input_tokens":25}}}"#;
    assert_eq!(parse_anthropic_event(event), StreamingTokens::none());
}

#[test]
fn anthropic_wrong_type_with_usage_returns_none() {
    let event = br#"{"type":"message_stop","message":{"usage":{"input_tokens":25}}}"#;
    assert_eq!(parse_anthropic_event(event), StreamingTokens::none());
}

#[test]
fn anthropic_message_start_with_null_message() {
    let event = br#"{"type":"message_start","message":null}"#;
    assert_eq!(parse_anthropic_event(event), StreamingTokens::none());
}

#[test]
fn anthropic_message_start_with_null_usage() {
    let event = br#"{"type":"message_start","message":{"usage":null}}"#;
    assert_eq!(parse_anthropic_event(event), StreamingTokens::none());
}

#[test]
fn anthropic_invalid_json_returns_none() {
    assert_eq!(parse_anthropic_event(b"not json"), StreamingTokens::none());
}

#[test]
fn anthropic_empty_returns_none() {
    assert_eq!(parse_anthropic_event(b""), StreamingTokens::none());
}

// -------------------------------------------------------------------------
// Bedrock: Malformed / Null
// -------------------------------------------------------------------------

#[test]
fn bedrock_null_metadata() {
    let event = br#"{"metadata":null}"#;
    assert_eq!(parse_bedrock_event(event), StreamingTokens::none());
}

#[test]
fn bedrock_null_usage_inside_metadata() {
    let event = br#"{"metadata":{"usage":null}}"#;
    assert_eq!(parse_bedrock_event(event), StreamingTokens::none());
}

#[test]
fn bedrock_invalid_json_returns_none() {
    assert_eq!(parse_bedrock_event(b"not json"), StreamingTokens::none());
}

#[test]
fn bedrock_empty_returns_none() {
    assert_eq!(parse_bedrock_event(b""), StreamingTokens::none());
}

// -------------------------------------------------------------------------
// Prompt cache breakdown
// -------------------------------------------------------------------------

#[test]
fn anthropic_message_start_reports_cache_breakdown() {
    let event = br#"{"type":"message_start","message":{"usage":{
        "input_tokens":10,
        "cache_creation_input_tokens":200,
        "cache_read_input_tokens":3000
    }}}"#;

    assert_eq!(
        parse_anthropic_event(event),
        StreamingTokens {
            input: Some(3210),
            output: None,
            cache_read: Some(3000),
            cache_write: Some(200),
            reasoning: None,
        }
    );
}

#[test]
fn anthropic_message_start_without_cache_reports_zero() {
    let event = br#"{"type":"message_start","message":{"usage":{"input_tokens":25}}}"#;

    let tokens = parse_anthropic_event(event);
    assert_eq!(tokens.input, Some(25));
    assert_eq!(tokens.output, None);
    assert_eq!(tokens.cache_read.unwrap_or(0), 0);
    assert_eq!(tokens.cache_write.unwrap_or(0), 0);
    assert_eq!(tokens.reasoning, None);
}

#[test]
fn anthropic_message_delta_reports_no_cache() {
    let event = br#"{"type":"message_delta","usage":{"output_tokens":42}}"#;

    assert_eq!(
        parse_anthropic_event(event),
        StreamingTokens {
            input: None,
            output: Some(42),
            cache_read: None,
            cache_write: None,
            reasoning: None,
        }
    );
}

#[test]
fn bedrock_metadata_reports_no_cache() {
    let event = br#"{"metadata":{"usage":{"inputTokens":7,"outputTokens":11}}}"#;

    assert_eq!(
        parse_bedrock_event(event),
        StreamingTokens {
            input: Some(7),
            output: Some(11),
            cache_read: None,
            cache_write: None,
            reasoning: None,
        }
    );
}
