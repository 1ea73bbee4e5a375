//! Streaming token extraction from individual SSE events, for providers that
//! spread token counts across several events.
use vstd::prelude::*;

use super::providers::{body_document, detail_u64, opt_view, or_zero};
use super::{no_streaming_tokens, StreamingTokens};
use crate::json::{
    is_object, member_opt_obj, member_opt_str, member_opt_u64, member_u64, parse_json, read_opt_obj,
    read_opt_str, read_opt_u64, read_u64, JsonSpec, JsonValue,
};
use crate::text;

verus! {

// -----------------------------------------------------------------------------
// Anthropic
// -----------------------------------------------------------------------------

/// The counts of a `message_start` usage object: input tokens (required)
/// and the two cache counts.
pub open spec fn start_usage(u: JsonSpec) -> Option<(u64, Option<u64>, Option<u64>)> {
    match (
        member_u64(u, "input_tokens"@),
        member_opt_u64(u, "cache_creation_input_tokens"@),
        member_opt_u64(u, "cache_read_input_tokens"@),
    ) {
        (Some(i), Some(cw), Some(cr)) => Some((i, cw, cr)),
        _ => None,
    }
}

/// The `message` member of a `message_start` event, decoded: `None` when it
/// fails to decode, `Some(None)` when it carries no usage.
pub open spec fn start_message(msg: Option<JsonSpec>) -> Option<
    Option<(u64, Option<u64>, Option<u64>)>,
> {
    match msg {
        None => Some(None),
        Some(m) => match member_opt_obj(m, "usage"@) {
            None => None,
            Some(None) => Some(None),
            Some(Some(u)) => match start_usage(u) {
                Some(x) => Some(Some(x)),
                None => None,
            },
        },
    }
}

/// Input and cache counts of an Anthropic `message_start` event. The input
/// count is the saturating sum of input and both cache counts; the cache
/// counts are kept where reported.
pub open spec fn anthropic_start(doc: JsonSpec) -> Option<StreamingTokens> {
    if doc is Obj {
        match (member_opt_str(doc, "type"@), member_opt_obj(doc, "message"@)) {
            (Some(ty), Some(msg)) => match start_message(msg) {
                Some(Some((i, cw, cr))) => if ty == Some("message_start"@) {
                    Some(
                        StreamingTokens {
                            input: Some(i.saturating_add(or_zero(cw)).saturating_add(or_zero(cr))),
                            cache_read: cr,
                            cache_write: cw,
                            ..no_streaming_tokens()
                        },
                    )
                } else {
                    None
                },
                _ => None,
            },
            _ => None,
        }
    } else {
        None
    }
}

/// The counts of a `message_delta` usage object: output tokens (required)
/// and `output_tokens_details.thinking_tokens`.
pub open spec fn delta_usage(u: JsonSpec) -> Option<(u64, Option<u64>)> {
    match (member_u64(u, "output_tokens"@), member_opt_obj(u, "output_tokens_details"@)) {
        (Some(o), Some(od)) => match detail_u64(od, "thinking_tokens"@) {
            Some(th) => Some((o, th)),
            None => None,
        },
        _ => None,
    }
}

/// Output and thinking counts of an Anthropic `message_delta` event.
pub open spec fn anthropic_delta(doc: JsonSpec) -> Option<StreamingTokens> {
    if doc is Obj {
        match (member_opt_str(doc, "type"@), member_opt_obj(doc, "usage"@)) {
            (Some(ty), Some(Some(u))) => match delta_usage(u) {
                Some((o, th)) => if ty == Some("message_delta"@) {
                    Some(StreamingTokens { output: Some(o), reasoning: th, ..no_streaming_tokens() })
                } else {
                    None
                },
                None => None,
            },
            _ => None,
        }
    } else {
        None
    }
}

/// Partial counts of an Anthropic streaming event: `message_start` gives
/// input and cache counts, `message_delta` gives output and thinking counts,
/// anything else gives nothing.
pub open spec fn anthropic_event(doc: Option<JsonSpec>) -> StreamingTokens {
    match doc {
        None => no_streaming_tokens(),
        Some(d) => match anthropic_start(d) {
            Some(t) => t,
            None => match anthropic_delta(d) {
                Some(t) => t,
                None => no_streaming_tokens(),
            },
        },
    }
}

/// Whether an optional string is the given literal.
fn opt_str_is(s: &Option<String>, lit: &str) -> (r: bool)
    ensures
        r == (match s {
            Some(x) => x@ == lit@,
            None => false,
        }),
{
    match s {
        Some(x) => text::str_eq(x.as_str(), lit),
        None => false,
    }
}

/// Reads the `message_start` counts of a decoded event.
pub fn read_anthropic_start(doc: &JsonValue) -> (r: Option<StreamingTokens>)
    ensures
        r == anthropic_start(doc@),
{
    if !is_object(doc) {
        return None;
    }
    let ty = read_opt_str(doc, "type");
    let msg = read_opt_obj(doc, "message");
    match (ty, msg) {
        (Some(ty), Some(msg)) => {
            let decoded: Option<Option<(u64, Option<u64>, Option<u64>)>> = match msg {
                None => Some(None),
                Some(m) => match read_opt_obj(m, "usage") {
                    None => None,
                    Some(None) => Some(None),
                    Some(Some(u)) => match (
                        read_u64(u, "input_tokens"),
                        read_opt_u64(u, "cache_creation_input_tokens"),
                        read_opt_u64(u, "cache_read_input_tokens"),
                    ) {
                        (Some(i), Some(cw), Some(cr)) => Some(Some((i, cw, cr))),
                        _ => None,
                    },
                },
            };
            assert(decoded == start_message(opt_view(msg)));
            match decoded {
                Some(Some((i, cw, cr))) => {
                    if opt_str_is(&ty, "message_start") {
                        let w = match cw {
                            Some(x) => x,
                            None => 0,
                        };
                        let rd = match cr {
                            Some(x) => x,
                            None => 0,
                        };
                        Some(
                            StreamingTokens {
                                input: Some(i.saturating_add(w).saturating_add(rd)),
                                output: None,
                                cache_read: cr,
                                cache_write: cw,
                                reasoning: None,
                            },
                        )
                    } else {
                        None
                    }
                },
                _ => None,
            }
        },
        _ => None,
    }
}

/// Reads the `message_delta` counts of a decoded event.
pub fn read_anthropic_delta(doc: &JsonValue) -> (r: Option<StreamingTokens>)
    ensures
        r == anthropic_delta(doc@),
{
    if !is_object(doc) {
        return None;
    }
    let ty = read_opt_str(doc, "type");
    let usage = read_opt_obj(doc, "usage");
    match (ty, usage) {
        (Some(ty), Some(Some(u))) => {
            let o = read_u64(u, "output_tokens");
            let od = read_opt_obj(u, "output_tokens_details");
            let decoded: Option<(u64, Option<u64>)> = match (o, od) {
                (Some(o), Some(od)) => match od {
                    Some(d) => match read_opt_u64(d, "thinking_tokens") {
                        Some(th) => Some((o, th)),
                        None => None,
                    },
                    None => Some((o, None)),
                },
                _ => None,
            };
            assert(decoded == delta_usage(u@));
            match decoded {
                Some((o, th)) => {
                    if opt_str_is(&ty, "message_delta") {
                        Some(
                            StreamingTokens {
                                input: None,
                                output: Some(o),
                                cache_read: None,
                                cache_write: None,
                                reasoning: th,
                            },
                        )
                    } else {
                        None
                    }
                },
                None => None,
            }
        },
        _ => None,
    }
}

/// Parses Anthropic streaming events for partial token counts.
pub fn parse_anthropic_event(data: &[u8]) -> (r: StreamingTokens)
    ensures
        r == anthropic_event(body_document(data@)),
{
    let doc = match parse_json(data) {
        Some(d) => d,
        None => return StreamingTokens::none(),
    };
    if let Some(t) = read_anthropic_start(&doc) {
        return t;
    }
    match read_anthropic_delta(&doc) {
        Some(t) => t,
        None => StreamingTokens::none(),
    }
}

// -----------------------------------------------------------------------------
// Bedrock ConverseStream
// -----------------------------------------------------------------------------

/// Input and output counts of a Bedrock `ConverseStream` metadata event
/// (`metadata.usage.inputTokens` / `outputTokens`); nothing for any other
/// event, and no cache breakdown.
pub open spec fn bedrock_event(doc: Option<JsonSpec>) -> StreamingTokens {
    match doc {
        Some(d) => if d is Obj {
            match member_opt_obj(d, "metadata"@) {
                Some(Some(md)) => match member_opt_obj(md, "usage"@) {
                    Some(Some(u)) => match (
                        member_u64(u, "inputTokens"@),
                        member_u64(u, "outputTokens"@),
                    ) {
                        (Some(i), Some(o)) => StreamingTokens {
                            input: Some(i),
                            output: Some(o),
                            ..no_streaming_tokens()
                        },
                        _ => no_streaming_tokens(),
                    },
                    _ => no_streaming_tokens(),
                },
                _ => no_streaming_tokens(),
            }
        } else {
            no_streaming_tokens()
        },
        None => no_streaming_tokens(),
    }
}

/// Parses Bedrock `ConverseStream` metadata events for token counts.
pub fn parse_bedrock_event(data: &[u8]) -> (r: StreamingTokens)
    ensures
        r == bedrock_event(body_document(data@)),
{
    let doc = match parse_json(data) {
        Some(d) => d,
        None => return StreamingTokens::none(),
    };
    if !is_object(&doc) {
        return StreamingTokens::none();
    }
    match read_opt_obj(&doc, "metadata") {
        Some(Some(md)) => match read_opt_obj(md, "usage") {
            Some(Some(u)) => match (read_u64(u, "inputTokens"), read_u64(u, "outputTokens")) {
                (Some(i), Some(o)) => StreamingTokens {
                    input: Some(i),
                    output: Some(o),
                    cache_read: None,
                    cache_write: None,
                    reasoning: None,
                },
                _ => StreamingTokens::none(),
            },
            _ => StreamingTokens::none(),
        },
        _ => StreamingTokens::none(),
    }
}

} // verus!
