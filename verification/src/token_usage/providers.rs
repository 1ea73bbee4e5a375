//! Provider-specific response parsing for the token usage filters.
//!
//! Each provider's usage object is read member by member the way serde's
//! derived `Deserialize` reads the provider's struct: a missing required
//! count, or a member of the wrong type, makes that whole format fail.
use vstd::prelude::*;

use super::{usage_new, TokenUsage};
use crate::json::{
    is_object, json_parse, member, member_opt_obj, member_opt_u64, member_u64, parse_json, read_opt_obj,
    read_opt_u64, read_u64, JsonSpec, JsonValue,
};

verus! {

/// The JSON document in a body, by content (`None` when it does not parse).
pub open spec fn body_document(body: Seq<u8>) -> Option<JsonSpec> {
    match json_parse(body) {
        Some(v) => Some(v@),
        None => None,
    }
}

/// An `Option<u64>` member of an optional details object.
pub open spec fn detail_u64(d: Option<JsonSpec>, key: Seq<char>) -> Option<Option<u64>> {
    match d {
        Some(o) => member_opt_u64(o, key),
        None => Some(None),
    }
}

/// A count the provider may have omitted, read as zero when it did.
pub open spec fn or_zero(v: Option<u64>) -> u64 {
    match v {
        Some(x) => x,
        None => 0,
    }
}

/// The usage object under `key` of a document struct whose only read member
/// is that `Option` of a struct: present when the document decodes and the
/// member is an object.
pub open spec fn usage_member(doc: JsonSpec, key: Seq<char>) -> Option<JsonSpec> {
    if doc is Obj {
        match member_opt_obj(doc, key) {
            Some(Some(u)) => Some(u),
            _ => None,
        }
    } else {
        None
    }
}

// -----------------------------------------------------------------------------
// OpenAI / Azure
// -----------------------------------------------------------------------------

/// An OpenAI Chat Completions usage object: `prompt_tokens` and
/// `completion_tokens` required, `prompt_tokens_details.cached_tokens` as the
/// cache read count and `completion_tokens_details.reasoning_tokens` as the
/// reasoning count.
pub open spec fn openai_chat_usage(u: JsonSpec) -> Option<TokenUsage> {
    match (
        member_u64(u, "prompt_tokens"@),
        member_u64(u, "completion_tokens"@),
        member_opt_u64(u, "total_tokens"@),
        member_opt_obj(u, "prompt_tokens_details"@),
        member_opt_obj(u, "completion_tokens_details"@),
    ) {
        (Some(p), Some(c), Some(t), Some(pd), Some(cd)) => match (
            detail_u64(pd, "cached_tokens"@),
            detail_u64(cd, "reasoning_tokens"@),
        ) {
            (Some(cached), Some(reasoning)) => Some(
                TokenUsage { cache_read: cached, cache_write: None, reasoning, ..usage_new(p, c, t) },
            ),
            _ => None,
        },
        _ => None,
    }
}

/// An OpenAI Responses API usage object: `input_tokens` and `output_tokens`
/// required, the cache breakdown under `input_tokens_details` and the
/// reasoning count under `output_tokens_details`.
pub open spec fn responses_usage(u: JsonSpec) -> Option<TokenUsage> {
    match (
        member_u64(u, "input_tokens"@),
        member_u64(u, "output_tokens"@),
        member_opt_u64(u, "total_tokens"@),
        member_opt_obj(u, "input_tokens_details"@),
        member_opt_obj(u, "output_tokens_details"@),
    ) {
        (Some(i), Some(o), Some(t), Some(idt), Some(odt)) => match (
            detail_u64(idt, "cached_tokens"@),
            detail_u64(idt, "cache_write_tokens"@),
            detail_u64(odt, "reasoning_tokens"@),
        ) {
            (Some(cr), Some(cw), Some(r)) => Some(
                TokenUsage { cache_read: cr, cache_write: cw, reasoning: r, ..usage_new(i, o, t) },
            ),
            _ => None,
        },
        _ => None,
    }
}

/// Usage from a Chat Completions body (top-level `usage`).
pub open spec fn openai_chat(doc: JsonSpec) -> Option<TokenUsage> {
    match usage_member(doc, "usage"@) {
        Some(u) => openai_chat_usage(u),
        None => None,
    }
}

/// Usage from a Responses API response object (top-level `usage`).
pub open spec fn responses_direct(doc: JsonSpec) -> Option<TokenUsage> {
    match usage_member(doc, "usage"@) {
        Some(u) => responses_usage(u),
        None => None,
    }
}

/// Usage from a Responses API streaming event (`response.usage`).
pub open spec fn responses_wrapped(doc: JsonSpec) -> Option<TokenUsage> {
    match usage_member(doc, "response"@) {
        Some(r) => match usage_member(r, "usage"@) {
            Some(u) => responses_usage(u),
            None => None,
        },
        None => None,
    }
}

/// OpenAI / Azure usage: the Chat Completions format first, then a
/// Responses API response, then a Responses API event wrapper.
pub open spec fn openai_usage(doc: Option<JsonSpec>) -> Option<TokenUsage> {
    match doc {
        None => None,
        Some(d) => match openai_chat(d) {
            Some(u) => Some(u),
            None => match responses_direct(d) {
                Some(u) => Some(u),
                None => responses_wrapped(d),
            },
        },
    }
}

// -----------------------------------------------------------------------------
// Anthropic
// -----------------------------------------------------------------------------

/// An Anthropic usage object. `input_tokens` excludes cached tokens, so the
/// input count is the saturating sum of all three input fields; the cache
/// counts are kept as a breakdown, and `output_tokens_details.thinking_tokens`
/// is the reasoning count.
pub open spec fn anthropic_usage(u: JsonSpec) -> Option<TokenUsage> {
    match (
        member_u64(u, "input_tokens"@),
        member_u64(u, "output_tokens"@),
        member_opt_u64(u, "cache_creation_input_tokens"@),
        member_opt_u64(u, "cache_read_input_tokens"@),
        member_opt_obj(u, "output_tokens_details"@),
    ) {
        (Some(i), Some(o), Some(cw), Some(cr), Some(od)) => match detail_u64(
            od,
            "thinking_tokens"@,
        ) {
            Some(th) => Some(
                TokenUsage {
                    cache_read: cr,
                    cache_write: cw,
                    reasoning: th,
                    ..usage_new(
                        i.saturating_add(or_zero(cw)).saturating_add(or_zero(cr)),
                        o,
                        None,
                    )
                },
            ),
            None => None,
        },
        _ => None,
    }
}

/// Anthropic usage from a body (top-level `usage`).
pub open spec fn anthropic_doc(doc: Option<JsonSpec>) -> Option<TokenUsage> {
    match doc {
        Some(d) => match usage_member(d, "usage"@) {
            Some(u) => anthropic_usage(u),
            None => None,
        },
        None => None,
    }
}

// -----------------------------------------------------------------------------
// Google Gemini
// -----------------------------------------------------------------------------

/// A Gemini `usageMetadata` object. The total falls back to prompt plus
/// candidates plus thoughts (saturating) when `totalTokenCount` is absent.
pub open spec fn google_usage(u: JsonSpec) -> Option<TokenUsage> {
    match (
        member_u64(u, "promptTokenCount"@),
        member_u64(u, "candidatesTokenCount"@),
        member_opt_u64(u, "totalTokenCount"@),
        member_opt_u64(u, "cachedContentTokenCount"@),
        member_opt_u64(u, "thoughtsTokenCount"@),
    ) {
        (Some(p), Some(c), Some(t), Some(cached), Some(thoughts)) => {
            let total = match t {
                Some(t) => t,
                None => p.saturating_add(c).saturating_add(or_zero(thoughts)),
            };
            Some(
                TokenUsage {
                    cache_read: cached,
                    cache_write: None,
                    reasoning: thoughts,
                    ..usage_new(p, c, Some(total))
                },
            )
        },
        _ => None,
    }
}

/// Gemini usage from a body (`usageMetadata`).
pub open spec fn google_doc(doc: Option<JsonSpec>) -> Option<TokenUsage> {
    match doc {
        Some(d) => match usage_member(d, "usageMetadata"@) {
            Some(u) => google_usage(u),
            None => None,
        },
        None => None,
    }
}

// -----------------------------------------------------------------------------
// AWS Bedrock
// -----------------------------------------------------------------------------

/// A Bedrock Converse usage object (`inputTokens`, `outputTokens`, optional
/// `totalTokens`); it carries no cache or reasoning breakdown.
pub open spec fn converse_usage(u: JsonSpec) -> Option<TokenUsage> {
    match (
        member_u64(u, "inputTokens"@),
        member_u64(u, "outputTokens"@),
        member_opt_u64(u, "totalTokens"@),
    ) {
        (Some(i), Some(o), Some(t)) => Some(usage_new(i, o, t)),
        _ => None,
    }
}

/// Bedrock usage: the Converse format first, then Anthropic messages via `InvokeModel`
/// in the Anthropic format.
pub open spec fn bedrock_doc(doc: Option<JsonSpec>) -> Option<TokenUsage> {
    match doc {
        Some(d) => match usage_member(d, "usage"@) {
            Some(u) => match converse_usage(u) {
                Some(x) => Some(x),
                None => anthropic_doc(doc),
            },
            None => anthropic_doc(doc),
        },
        None => None,
    }
}

/// A Responses API body (a top-level `usage` object with `input_tokens` and
/// `output_tokens`, and no Chat Completions `prompt_tokens`) is metered by
/// the OpenAI/Azure parser: the input and output counts are the body's, the
/// total is the body's `total_tokens` or else input plus output (capped at
/// `u64::MAX`), and `output_tokens_details.reasoning_tokens`, where given, is
/// the reasoning count.
pub proof fn lemma_responses_body_metered(d: JsonSpec, u: JsonSpec, i: u64, o: u64)
    requires
        d is Obj,
        member(d, "usage"@) == Some(u),
        u is Obj,
        member(u, "prompt_tokens"@) is None,
        member_u64(u, "input_tokens"@) == Some(i),
        member_u64(u, "output_tokens"@) == Some(o),
        member(u, "total_tokens"@) is None || member_u64(u, "total_tokens"@) is Some,
        member(u, "input_tokens_details"@) is None,
        member(u, "output_tokens_details"@) is None || (member(u, "output_tokens_details"@) matches Some(
            od,
        ) && od is Obj && member_u64(od, "reasoning_tokens"@) is Some),
    ensures
        openai_usage(Some(d)) matches Some(r) && r.input == i && r.output == o && r.total == (
        match member_u64(u, "total_tokens"@) {
            Some(t) => t as int,
            None => if i + o > u64::MAX {
                u64::MAX as int
            } else {
                i + o
            },
        }) && (member(u, "output_tokens_details"@) matches Some(od) ==> r.reasoning == member_u64(
            od,
            "reasoning_tokens"@,
        )),
{
}

// -----------------------------------------------------------------------------
// Executable readers
// -----------------------------------------------------------------------------

/// The optional details object as content.
pub open spec fn opt_view(d: Option<&JsonValue>) -> Option<JsonSpec> {
    match d {
        Some(x) => Some(x@),
        None => None,
    }
}

/// Reads an `Option<u64>` member of an optional details object.
pub fn read_detail_u64(d: Option<&JsonValue>, key: &str) -> (r: Option<Option<u64>>)
    ensures
        r == detail_u64(opt_view(d), key@),
{
    match d {
        Some(o) => read_opt_u64(o, key),
        None => Some(None),
    }
}

/// Reads the usage object under `key` of a document.
pub fn read_usage_member<'a>(doc: &'a JsonValue, key: &str) -> (r: Option<&'a JsonValue>)
    ensures
        opt_view(r) == usage_member(doc@, key@),
{
    if is_object(doc) {
        match read_opt_obj(doc, key) {
            Some(Some(u)) => Some(u),
            _ => None,
        }
    } else {
        None
    }
}

/// Reads an OpenAI Chat Completions usage object.
pub fn read_openai_chat_usage(u: &JsonValue) -> (r: Option<TokenUsage>)
    ensures
        r == openai_chat_usage(u@),
{
    let p = read_u64(u, "prompt_tokens");
    let c = read_u64(u, "completion_tokens");
    let t = read_opt_u64(u, "total_tokens");
    let pd = read_opt_obj(u, "prompt_tokens_details");
    let cd = read_opt_obj(u, "completion_tokens_details");
    match (p, c, t, pd, cd) {
        (Some(p), Some(c), Some(t), Some(pd), Some(cd)) => {
            match (read_detail_u64(pd, "cached_tokens"), read_detail_u64(cd, "reasoning_tokens")) {
                (Some(cached), Some(reasoning)) => Some(
                    TokenUsage::new(p, c, t).with_cache(cached, None).with_reasoning(reasoning),
                ),
                _ => None,
            }
        },
        _ => None,
    }
}

/// Reads an OpenAI Responses API usage object.
pub fn read_responses_usage(u: &JsonValue) -> (r: Option<TokenUsage>)
    ensures
        r == responses_usage(u@),
{
    let i = read_u64(u, "input_tokens");
    let o = read_u64(u, "output_tokens");
    let t = read_opt_u64(u, "total_tokens");
    let idt = read_opt_obj(u, "input_tokens_details");
    let odt = read_opt_obj(u, "output_tokens_details");
    match (i, o, t, idt, odt) {
        (Some(i), Some(o), Some(t), Some(idt), Some(odt)) => {
            match (
                read_detail_u64(idt, "cached_tokens"),
                read_detail_u64(idt, "cache_write_tokens"),
                read_detail_u64(odt, "reasoning_tokens"),
            ) {
                (Some(cr), Some(cw), Some(r)) => Some(
                    TokenUsage::new(i, o, t).with_cache(cr, cw).with_reasoning(r),
                ),
                _ => None,
            }
        },
        _ => None,
    }
}

/// Parses the OpenAI / Azure response format: Chat Completions usage, a
/// Responses API response, or a Responses API event wrapper.
pub fn parse_openai(body: &[u8]) -> (r: Option<TokenUsage>)
    ensures
        r == openai_usage(body_document(body@)),
{
    let doc = match parse_json(body) {
        Some(d) => d,
        None => return None,
    };
    if let Some(u) = read_usage_member(&doc, "usage") {
        if let Some(usage) = read_openai_chat_usage(u) {
            return Some(usage);
        }
    }
    if let Some(u) = read_usage_member(&doc, "usage") {
        if let Some(usage) = read_responses_usage(u) {
            return Some(usage);
        }
    }
    match read_usage_member(&doc, "response") {
        Some(resp) => match read_usage_member(resp, "usage") {
            Some(u) => read_responses_usage(u),
            None => None,
        },
        None => None,
    }
}

/// Reads an Anthropic usage object.
pub fn read_anthropic_usage(u: &JsonValue) -> (r: Option<TokenUsage>)
    ensures
        r == anthropic_usage(u@),
{
    let i = read_u64(u, "input_tokens");
    let o = read_u64(u, "output_tokens");
    let cw = read_opt_u64(u, "cache_creation_input_tokens");
    let cr = read_opt_u64(u, "cache_read_input_tokens");
    let od = read_opt_obj(u, "output_tokens_details");
    match (i, o, cw, cr, od) {
        (Some(i), Some(o), Some(cw), Some(cr), Some(od)) => {
            match read_detail_u64(od, "thinking_tokens") {
                Some(th) => {
                    let w = match cw {
                        Some(x) => x,
                        None => 0,
                    };
                    let rd = match cr {
                        Some(x) => x,
                        None => 0,
                    };
                    let input = i.saturating_add(w).saturating_add(rd);
                    Some(TokenUsage::new(input, o, None).with_cache(cr, cw).with_reasoning(th))
                },
                None => None,
            }
        },
        _ => None,
    }
}

/// Parses the Anthropic response format.
pub fn parse_anthropic(body: &[u8]) -> (r: Option<TokenUsage>)
    ensures
        r == anthropic_doc(body_document(body@)),
{
    match parse_json(body) {
        Some(doc) => match read_usage_member(&doc, "usage") {
            Some(u) => read_anthropic_usage(u),
            None => None,
        },
        None => None,
    }
}

/// Reads a Gemini `usageMetadata` object.
pub fn read_google_usage(u: &JsonValue) -> (r: Option<TokenUsage>)
    ensures
        r == google_usage(u@),
{
    let p = read_u64(u, "promptTokenCount");
    let c = read_u64(u, "candidatesTokenCount");
    let t = read_opt_u64(u, "totalTokenCount");
    let cached = read_opt_u64(u, "cachedContentTokenCount");
    let thoughts = read_opt_u64(u, "thoughtsTokenCount");
    match (p, c, t, cached, thoughts) {
        (Some(p), Some(c), Some(t), Some(cached), Some(thoughts)) => {
            let total = match t {
                Some(t) => t,
                None => {
                    let th = match thoughts {
                        Some(x) => x,
                        None => 0,
                    };
                    p.saturating_add(c).saturating_add(th)
                },
            };
            Some(TokenUsage::new(p, c, Some(total)).with_cache(cached, None).with_reasoning(thoughts))
        },
        _ => None,
    }
}

/// Parses the Google Gemini response format.
pub fn parse_google(body: &[u8]) -> (r: Option<TokenUsage>)
    ensures
        r == google_doc(body_document(body@)),
{
    match parse_json(body) {
        Some(doc) => match read_usage_member(&doc, "usageMetadata") {
            Some(u) => read_google_usage(u),
            None => None,
        },
        None => None,
    }
}

/// Reads a Bedrock Converse usage object.
pub fn read_converse_usage(u: &JsonValue) -> (r: Option<TokenUsage>)
    ensures
        r == converse_usage(u@),
{
    match (read_u64(u, "inputTokens"), read_u64(u, "outputTokens"), read_opt_u64(u, "totalTokens")) {
        (Some(i), Some(o), Some(t)) => Some(TokenUsage::new(i, o, t)),
        _ => None,
    }
}

/// Parses the AWS Bedrock response format: Converse first, then Anthropic messages via
/// `InvokeModel` in the Anthropic format.
pub fn parse_bedrock(body: &[u8]) -> (r: Option<TokenUsage>)
    ensures
        r == bedrock_doc(body_document(body@)),
{
    let doc = match parse_json(body) {
        Some(d) => d,
        None => return None,
    };
    if let Some(u) = read_usage_member(&doc, "usage") {
        if let Some(usage) = read_converse_usage(u) {
            return Some(usage);
        }
    }
    match read_usage_member(&doc, "usage") {
        Some(u) => read_anthropic_usage(u),
        None => None,
    }
}

} // verus!
