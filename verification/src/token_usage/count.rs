//! The `token_count` filter: extracts token usage from AI inference
//! responses (JSON bodies, SSE event payloads, or Bedrock `InvokeModel`
//! headers) and publishes unified counts to request metadata.
//!
//! Working state lives in metadata under `token_count.*` and is cleared once
//! the response ends.
use vstd::prelude::*;

use super::providers::{
    anthropic_doc, bedrock_doc, body_document, google_doc, openai_usage, parse_anthropic,
    parse_bedrock, parse_google, parse_openai,
};
use super::streaming::{anthropic_event, bedrock_event, parse_anthropic_event, parse_bedrock_event};
use super::{
    no_streaming_tokens, publish_token_usage, set_token_status_overflow, set_token_usage,
    usage_new, with_count, with_optional_count, with_token_counts, with_usage, StreamingTokens,
    TokenUsage, META_TOKEN_INPUT, META_TOKEN_OUTPUT, META_TOKEN_STATUS, META_TOKEN_TOTAL,
    TOKEN_STATUS_OVERFLOW,
};
use crate::filter::{
    is_success, meta_get, meta_insert, meta_remove_prefixed, validate_max_body_bytes, BodyAccess,
    BodyMode, FilterAction, FilterError, Headers, Metadata, MAX_JSON_BODY_BYTES,
    body_limit_too_large_message, header_text, usize_to_decimal, zero_body_limit_message,
};
use crate::json::JsonSpec;
use crate::text;

verus! {

// -----------------------------------------------------------------------------
// Constants
// -----------------------------------------------------------------------------

/// Default maximum bytes for non-streaming JSON body accumulation (1 MiB).
pub const DEFAULT_MAX_BODY_BYTES: usize = 1_048_576;

/// Default maximum scratch bytes for SSE scanner state (64 KiB).
pub const DEFAULT_MAX_SCRATCH_BYTES: usize = 65_536;

/// Metadata key prefix for all `token_count` working state.
pub const META_PREFIX: &'static str = "token_count.";

/// Metadata key for the extraction mode (`sse` or `json`).
pub const META_MODE: &'static str = "token_count.mode";

/// Metadata key for the provider resolved per response by `provider: auto`.
pub const META_PROVIDER: &'static str = "token_count.provider";

/// Metadata key for accumulated input tokens (streaming).
pub const META_INPUT: &'static str = "token_count.input";

/// Metadata key for accumulated output tokens (streaming).
pub const META_OUTPUT: &'static str = "token_count.output";

/// Metadata key for the provider-supplied or parser-computed total (streaming).
pub const META_TOTAL: &'static str = "token_count.total";

/// Metadata key for accumulated prompt cache reads (streaming).
pub const META_CACHE_READ: &'static str = "token_count.cache_read";

/// Metadata key for accumulated prompt cache writes (streaming).
pub const META_CACHE_WRITE: &'static str = "token_count.cache_write";

/// Metadata key for accumulated reasoning / thinking tokens (streaming).
pub const META_REASONING: &'static str = "token_count.reasoning";

/// Metadata key for the hex-encoded JSON body buffer (non-streaming).
pub const META_BUF_HEX: &'static str = "token_count.buf_hex";

/// Metadata key for the byte count of the buffered body (non-streaming).
pub const META_BUF_BYTES: &'static str = "token_count.buf_bytes";

/// Bedrock `InvokeModel` response header carrying the input token count.
pub const HEADER_BEDROCK_INPUT: &'static str = "x-amzn-bedrock-input-token-count";

/// Bedrock `InvokeModel` response header carrying the output token count.
pub const HEADER_BEDROCK_OUTPUT: &'static str = "x-amzn-bedrock-output-token-count";

/// Default for `max_body_bytes`.
pub fn default_max_body_bytes() -> (r: usize)
    ensures
        r == DEFAULT_MAX_BODY_BYTES,
{
    DEFAULT_MAX_BODY_BYTES
}

/// Default for `max_scratch_bytes`.
pub fn default_max_scratch_bytes() -> (r: usize)
    ensures
        r == DEFAULT_MAX_SCRATCH_BYTES,
{
    DEFAULT_MAX_SCRATCH_BYTES
}

// -----------------------------------------------------------------------------
// Provider kind
// -----------------------------------------------------------------------------

/// Provider and transport shape selected by the `token_count` configuration.
#[derive(Debug, Clone, Copy, PartialEq, Eq, Structural)]
pub enum ProviderKind {
    /// OpenAI Chat Completions / Responses API.
    OpenAi,
    /// Anthropic Messages API.
    Anthropic,
    /// Google Gemini API.
    Google,
    /// AWS Bedrock Converse API.
    Bedrock,
    /// AWS Bedrock `InvokeModel` token headers.
    BedrockInvokeModel,
    /// Azure OpenAI, which uses the OpenAI response schema.
    Azure,
    /// Select the parser per request from the endpoint path.
    Auto,
}

/// The response dialect a request endpoint path answers in; `None` for
/// paths with no meterable usage (including `/v1/messages/count_tokens`).
pub open spec fn provider_for_path(path: Seq<char>) -> Option<ProviderKind> {
    if text::is_suffix("/responses"@, path) || text::is_suffix("/chat/completions"@, path)
        || text::is_suffix("/completions"@, path) {
        Some(ProviderKind::OpenAi)
    } else if text::is_suffix("/messages"@, path) {
        Some(ProviderKind::Anthropic)
    } else if text::is_suffix(":generateContent"@, path) || text::is_suffix(
        ":streamGenerateContent"@,
        path,
    ) {
        Some(ProviderKind::Google)
    } else if text::is_suffix("/converse"@, path) || text::is_suffix("/converse-stream"@, path) {
        Some(ProviderKind::Bedrock)
    } else if text::is_suffix("/invoke"@, path) || text::is_suffix(
        "/invoke-with-response-stream"@,
        path,
    ) {
        Some(ProviderKind::BedrockInvokeModel)
    } else {
        None
    }
}

/// The stable name of a provider kind.
pub open spec fn provider_name(p: ProviderKind) -> Seq<char> {
    match p {
        ProviderKind::OpenAi => "openai"@,
        ProviderKind::Anthropic => "anthropic"@,
        ProviderKind::Google => "google"@,
        ProviderKind::Bedrock => "bedrock"@,
        ProviderKind::BedrockInvokeModel => "bedrock_invoke_model"@,
        ProviderKind::Azure => "azure"@,
        ProviderKind::Auto => "auto"@,
    }
}

/// The resolved provider a stored name denotes; `auto` is never stored.
pub open spec fn provider_from_name(v: Seq<char>) -> Option<ProviderKind> {
    if v == "openai"@ {
        Some(ProviderKind::OpenAi)
    } else if v == "anthropic"@ {
        Some(ProviderKind::Anthropic)
    } else if v == "google"@ {
        Some(ProviderKind::Google)
    } else if v == "bedrock"@ {
        Some(ProviderKind::Bedrock)
    } else if v == "bedrock_invoke_model"@ {
        Some(ProviderKind::BedrockInvokeModel)
    } else if v == "azure"@ {
        Some(ProviderKind::Azure)
    } else {
        None
    }
}

/// Complete usage a provider's parser finds in a document.
pub open spec fn provider_usage(p: ProviderKind, doc: Option<JsonSpec>) -> Option<TokenUsage> {
    match p {
        ProviderKind::OpenAi | ProviderKind::Azure => openai_usage(doc),
        ProviderKind::Anthropic => anthropic_doc(doc),
        ProviderKind::Google => google_doc(doc),
        ProviderKind::Bedrock => bedrock_doc(doc),
        ProviderKind::BedrockInvokeModel | ProviderKind::Auto => None,
    }
}

/// Partial counts a provider's streaming parser finds in an event.
pub open spec fn provider_stream_tokens(p: ProviderKind, doc: Option<JsonSpec>) -> StreamingTokens {
    match p {
        ProviderKind::Anthropic => anthropic_event(doc),
        ProviderKind::Bedrock => bedrock_event(doc),
        _ => no_streaming_tokens(),
    }
}

impl ProviderKind {
    /// Resolves the response dialect from a request endpoint path.
    pub fn for_path(path: &str) -> (r: Option<ProviderKind>)
        ensures
            r == provider_for_path(path@),
    {
        if text::ends_with(path, "/responses") || text::ends_with(path, "/chat/completions")
            || text::ends_with(path, "/completions") {
            Some(ProviderKind::OpenAi)
        } else if text::ends_with(path, "/messages") {
            Some(ProviderKind::Anthropic)
        } else if text::ends_with(path, ":generateContent") || text::ends_with(
            path,
            ":streamGenerateContent",
        ) {
            Some(ProviderKind::Google)
        } else if text::ends_with(path, "/converse") || text::ends_with(path, "/converse-stream") {
            Some(ProviderKind::Bedrock)
        } else if text::ends_with(path, "/invoke") || text::ends_with(
            path,
            "/invoke-with-response-stream",
        ) {
            Some(ProviderKind::BedrockInvokeModel)
        } else {
            None
        }
    }

    /// Stable name for round-tripping through metadata.
    pub fn as_str(self) -> (r: &'static str)
        ensures
            r@ == provider_name(self),
    {
        match self {
            ProviderKind::OpenAi => "openai",
            ProviderKind::Anthropic => "anthropic",
            ProviderKind::Google => "google",
            ProviderKind::Bedrock => "bedrock",
            ProviderKind::BedrockInvokeModel => "bedrock_invoke_model",
            ProviderKind::Azure => "azure",
            ProviderKind::Auto => "auto",
        }
    }

    /// Inverse of [`Self::as_str`], for the value stashed by `Auto`.
    pub fn from_meta(value: &str) -> (r: Option<ProviderKind>)
        ensures
            r == provider_from_name(value@),
    {
        if text::str_eq(value, "openai") {
            Some(ProviderKind::OpenAi)
        } else if text::str_eq(value, "anthropic") {
            Some(ProviderKind::Anthropic)
        } else if text::str_eq(value, "google") {
            Some(ProviderKind::Google)
        } else if text::str_eq(value, "bedrock") {
            Some(ProviderKind::Bedrock)
        } else if text::str_eq(value, "bedrock_invoke_model") {
            Some(ProviderKind::BedrockInvokeModel)
        } else if text::str_eq(value, "azure") {
            Some(ProviderKind::Azure)
        } else {
            None
        }
    }

    /// Extracts complete usage from a JSON response or final SSE payload.
    pub fn extract_token_usage(self, body: &[u8]) -> (r: Option<TokenUsage>)
        ensures
            r == provider_usage(self, body_document(body@)),
    {
        match self {
            ProviderKind::OpenAi | ProviderKind::Azure => parse_openai(body),
            ProviderKind::Anthropic => parse_anthropic(body),
            ProviderKind::Google => parse_google(body),
            ProviderKind::Bedrock => parse_bedrock(body),
            ProviderKind::BedrockInvokeModel | ProviderKind::Auto => None,
        }
    }

    /// Extracts partial usage from providers that split counts across events.
    pub fn extract_streaming_tokens(self, event_data: &[u8]) -> (r: StreamingTokens)
        ensures
            r == provider_stream_tokens(self, body_document(event_data@)),
    {
        match self {
            ProviderKind::Anthropic => parse_anthropic_event(event_data),
            ProviderKind::Bedrock => parse_bedrock_event(event_data),
            _ => StreamingTokens::none(),
        }
    }
}

/// Every resolved provider survives the metadata round trip, and `auto` is
/// never read back as a resolved provider.
pub proof fn lemma_provider_name_roundtrip(p: ProviderKind)
    ensures
        p != ProviderKind::Auto ==> provider_from_name(provider_name(p)) == Some(p),
        provider_from_name("auto"@) is None,
{
    reveal_strlit("openai");
    reveal_strlit("anthropic");
    reveal_strlit("google");
    reveal_strlit("bedrock");
    reveal_strlit("bedrock_invoke_model");
    reveal_strlit("azure");
    reveal_strlit("auto");
    assert("openai"@[0] != "anthropic"@[0]);
    assert("openai"@[0] != "google"@[0]);
    assert("openai"@[0] != "bedrock"@[0]);
    assert("openai"@[0] != "bedrock_invoke_model"@[0]);
    assert("openai"@[0] != "azure"@[0]);
    assert("openai"@[0] != "auto"@[0]);
    assert("anthropic"@[0] != "google"@[0]);
    assert("anthropic"@[1] != "auto"@[1]);
    assert("anthropic"@[0] != "bedrock"@[0]);
    assert("anthropic"@[0] != "bedrock_invoke_model"@[0]);
    assert("anthropic"@[1] != "azure"@[1]);
    assert("google"@[0] != "bedrock"@[0]);
    assert("google"@[0] != "bedrock_invoke_model"@[0]);
    assert("google"@[0] != "azure"@[0]);
    assert("google"@[0] != "auto"@[0]);
    assert("bedrock"@.len() != "bedrock_invoke_model"@.len());
    assert("bedrock"@[0] != "azure"@[0]);
    assert("bedrock"@[0] != "auto"@[0]);
    assert("bedrock_invoke_model"@[0] != "azure"@[0]);
    assert("bedrock_invoke_model"@[0] != "auto"@[0]);
    assert("azure"@[1] != "auto"@[1]);
}

// -----------------------------------------------------------------------------
// Content types
// -----------------------------------------------------------------------------

/// The media type of a content-type value: the text before the first `;`.
pub open spec fn media_part(ct: Seq<char>) -> Seq<char> {
    if exists|i: int| 0 <= i < ct.len() && ct[i] == ';' {
        let i = choose|i: int|
            0 <= i < ct.len() && ct[i] == ';' && forall|j: int| 0 <= j < i ==> ct[j] != ';';
        ct.take(i)
    } else {
        ct
    }
}

/// Whether a content-type value's trimmed media type is `target`,
/// ignoring ASCII case.
pub open spec fn media_is(ct: Seq<char>, target: Seq<char>) -> bool {
    text::ascii_lower_seq(text::trim_seq(media_part(ct))) == text::ascii_lower_seq(target)
}

/// The characters before the first `;`.
fn media_chars(ct: &str) -> (r: Vec<char>)
    ensures
        r@ == media_part(ct@),
{
    let cs = text::chars_of(ct);
    let mut i: usize = 0;
    while i < cs.len()
        invariant
            cs@ == ct@,
            i <= cs.len(),
            forall|j: int| 0 <= j < i ==> cs@[j] != ';',
        decreases cs.len() - i,
    {
        if cs[i] == ';' {
            let ghost k = choose|k: int|
                0 <= k < ct@.len() && ct@[k] == ';' && forall|j: int| 0 <= j < k ==> ct@[j] != ';';
            assert(k == i) by {
                if k < i {
                } else if k > i {
                }
            }
            return text::copy_range(cs.as_slice(), 0, i);
        }
        i = i + 1;
    }
    text::copy_range(cs.as_slice(), 0, cs.len())
}

/// Whether a content-type value's media type is `target`.
fn media_matches(ct: &str, target: &str) -> (r: bool)
    ensures
        r == media_is(ct@, target@),
{
    let media = media_chars(ct);
    let trimmed = text::trim_chars(media.as_slice());
    let t = text::chars_of(target);
    text::chars_eq_ignore_ascii_case(trimmed.as_slice(), t.as_slice())
}

/// Whether a content-type header value indicates `text/event-stream`.
pub fn is_event_stream_content_type(ct: &str) -> (r: bool)
    ensures
        r == media_is(ct@, "text/event-stream"@),
{
    media_matches(ct, "text/event-stream")
}

/// Whether a content-type header value indicates `application/json`.
pub fn is_json_content_type(ct: &str) -> (r: bool)
    ensures
        r == media_is(ct@, "application/json"@),
{
    media_matches(ct, "application/json")
}

// -----------------------------------------------------------------------------
// Hex encoding
// -----------------------------------------------------------------------------

/// The lowercase hex digit for a nibble.
pub open spec fn hex_char(n: u8) -> char {
    if n < 10 {
        ((n + 48) as u32) as char
    } else {
        ((n + 87) as u32) as char
    }
}

/// Lowercase hex text of bytes, two digits per byte.
pub open spec fn hex_text(data: Seq<u8>) -> Seq<char>
    decreases data.len(),
{
    if data.len() == 0 {
        Seq::empty()
    } else {
        hex_text(data.drop_last()).push(hex_char(data.last() / 16)).push(
            hex_char(data.last() % 16),
        )
    }
}

/// Value of a lowercase hex digit (`0`-`9`, `a`-`f` only).
pub open spec fn hex_value(c: char) -> Option<u8> {
    if '0' <= c && c <= '9' {
        Some(((c as u32) - 48) as u8)
    } else if 'a' <= c && c <= 'f' {
        Some(((c as u32) - 87) as u8)
    } else {
        None
    }
}

/// Bytes of lowercase hex text: `None` for odd length or any other digit.
pub open spec fn hex_decode(h: Seq<char>) -> Option<Seq<u8>>
    decreases h.len(),
{
    if h.len() % 2 != 0 {
        None
    } else if h.len() == 0 {
        Some(Seq::empty())
    } else {
        match (
            hex_decode(h.take(h.len() - 2)),
            hex_value(h[h.len() - 2]),
            hex_value(h[h.len() - 1]),
        ) {
            (Some(p), Some(hi), Some(lo)) => Some(p.push((hi * 16 + lo) as u8)),
            _ => None,
        }
    }
}

/// The value of a lowercase hex digit.
pub fn hex_digit(b: u8) -> (r: Option<u8>)
    ensures
        r == hex_value(b as char),
{
    if 48 <= b && b <= 57 {
        Some(b - 48)
    } else if 97 <= b && b <= 102 {
        Some(b - 87)
    } else {
        None
    }
}

/// The value of a lowercase hex digit character.
fn hex_digit_char(c: char) -> (r: Option<u8>)
    ensures
        r == hex_value(c),
{
    if '0' <= c && c <= '9' {
        Some((c as u32 - 48) as u8)
    } else if 'a' <= c && c <= 'f' {
        Some((c as u32 - 87) as u8)
    } else {
        None
    }
}

/// The lowercase hex digit for a nibble.
fn hex_char_of(n: u8) -> (r: char)
    requires
        n < 16,
    ensures
        r == hex_char(n),
{
    if n < 10 {
        ascii_char((n + 48) as u32)
    } else {
        ascii_char((n + 87) as u32)
    }
}

/// The character with an ASCII code point.
fn ascii_char(v: u32) -> (r: char)
    requires
        v < 128,
    ensures
        r == v as char,
{
    let c: char = v as u8 as char;
    assert(c == v as char) by {
        assert((v as u8) as u32 == v);
    }
    c
}

/// Appends the lowercase hex text of `data` to `out`.
pub fn push_hex(out: &mut String, data: &[u8])
    ensures
        final(out)@ == old(out)@ + hex_text(data@),
{
    let mut i: usize = 0;
    while i < data.len()
        invariant
            i <= data.len(),
            out@ == old(out)@ + hex_text(data@.take(i as int)),
        decreases data.len() - i,
    {
        let b = data[i];
        text::push_char(out, hex_char_of(b / 16));
        text::push_char(out, hex_char_of(b % 16));
        assert(data@.take(i as int + 1).drop_last() =~= data@.take(i as int));
        i = i + 1;
    }
    assert(data@.take(data.len() as int) =~= data@);
}

/// Inverse of the hex encoding.
pub fn decode_hex(hex: &str) -> (r: Option<Vec<u8>>)
    ensures
        match r {
            Some(b) => hex_decode(hex@) == Some(b@),
            None => hex_decode(hex@) is None,
        },
{
    let cs = text::chars_of(hex);
    if cs.len() % 2 != 0 {
        return None;
    }
    let mut out: Vec<u8> = Vec::new();
    let mut i: usize = 0;
    while i < cs.len()
        invariant
            cs@ == hex@,
            cs.len() % 2 == 0,
            i <= cs.len(),
            i % 2 == 0,
            hex_decode(cs@.take(i as int)) == Some(out@),
        decreases cs.len() - i,
    {
        let hi_c = cs[i];
        let lo_c = cs[i + 1];
        let hi = hex_digit_char(hi_c);
        let lo = hex_digit_char(lo_c);
        assert(cs@.take(i as int + 2).take(i as int) =~= cs@.take(i as int));
        assert(cs@.take(i as int + 2)[i as int] == hi_c);
        assert(cs@.take(i as int + 2)[i as int + 1] == lo_c);
        match (hi, lo) {
            (Some(h), Some(l)) => {
                out.push(h * 16 + l);
            },
            _ => {
                proof {
                    lemma_hex_decode_prefix_none(cs@, i as int + 2);
                }
                return None;
            },
        }
        i = i + 2;
    }
    assert(cs@.take(cs.len() as int) =~= cs@);
    Some(out)
}

/// A failing even-length prefix makes the whole text fail.
proof fn lemma_hex_decode_prefix_none(h: Seq<char>, k: int)
    requires
        h.len() % 2 == 0,
        k % 2 == 0,
        0 < k <= h.len(),
        hex_decode(h.take(k)) is None,
    ensures
        hex_decode(h) is None,
    decreases h.len(),
{
    if k < h.len() {
        assert(h.take(h.len() - 2).take(k) =~= h.take(k));
        lemma_hex_decode_prefix_none(h.take(h.len() - 2), k);
    } else {
        assert(h.take(k) =~= h);
    }
}

/// Hex text decodes back to the bytes it encodes.
pub proof fn lemma_hex_roundtrip(data: Seq<u8>)
    ensures
        hex_text(data).len() == 2 * data.len(),
        hex_decode(hex_text(data)) == Some(data),
    decreases data.len(),
{
    if data.len() > 0 {
        let p = data.drop_last();
        lemma_hex_roundtrip(p);
        let h = hex_text(data);
        let b = data.last();
        assert(h.take(h.len() - 2) =~= hex_text(p));
        let hi = b / 16;
        let lo = b % 16;
        assert(hex_value(hex_char(hi)) == Some(hi)) by {
            if hi < 10 {
                assert((((hi + 48) as u32) as char) as u32 == (hi + 48) as u32);
            } else {
                assert((((hi + 87) as u32) as char) as u32 == (hi + 87) as u32);
            }
        }
        assert(hex_value(hex_char(lo)) == Some(lo)) by {
            if lo < 10 {
                assert((((lo + 48) as u32) as char) as u32 == (lo + 48) as u32);
            } else {
                assert((((lo + 87) as u32) as char) as u32 == (lo + 87) as u32);
            }
        }
        assert(p.push(b) =~= data);
    }
}

// -----------------------------------------------------------------------------
// Configuration
// -----------------------------------------------------------------------------

/// Configuration of the `token_count` filter.
pub struct TokenCountConfig {
    /// AI provider whose response format to parse.
    pub provider: ProviderKind,
    /// Maximum bytes to buffer for a non-streaming JSON response.
    pub max_body_bytes: usize,
    /// Maximum scratch bytes per SSE event before it is discarded.
    pub max_scratch_bytes: usize,
}

/// The message for a zero `max_scratch_bytes`.
pub open spec fn zero_scratch_message() -> Seq<char> {
    "token_count: 'max_scratch_bytes' must be greater than 0"@
}

/// The message for a `max_scratch_bytes` above the ceiling.
pub open spec fn scratch_too_large_message(value: usize) -> Seq<char> {
    "token_count: max_scratch_bytes ("@ + text::decimal(value as nat) + ") exceeds maximum ("@
        + text::decimal(MAX_JSON_BODY_BYTES as nat) + ")"@
}

/// Rejects a `max_scratch_bytes` that is zero or above the 64 MiB ceiling.
pub fn validate_max_scratch_bytes(value: usize) -> (r: Result<(), FilterError>)
    ensures
        value == 0 ==> (r matches Err(e) && e.message@ == zero_scratch_message()),
        value > MAX_JSON_BODY_BYTES ==> (r matches Err(e) && e.message@
            == scratch_too_large_message(value)),
        0 < value <= MAX_JSON_BODY_BYTES ==> r is Ok,
{
    if value == 0 {
        return Err(FilterError::new(text::owned("token_count: 'max_scratch_bytes' must be greater than 0")));
    }
    if value > MAX_JSON_BODY_BYTES {
        let m = text::concat("token_count: max_scratch_bytes (", usize_to_decimal(value).as_str());
        let m = text::concat(m.as_str(), ") exceeds maximum (");
        let m = text::concat(m.as_str(), usize_to_decimal(MAX_JSON_BODY_BYTES).as_str());
        let m = text::concat(m.as_str(), ")");
        return Err(FilterError::new(m));
    }
    Ok(())
}

/// Extracts token usage from AI inference responses and writes unified
/// counts to request metadata.
pub struct TokenCountFilter {
    /// Which provider's response format to parse.
    pub provider: ProviderKind,
    /// Maximum bytes to buffer for a non-streaming JSON response.
    pub max_body_bytes: usize,
    /// Maximum scratch bytes per SSE event before it is discarded.
    pub max_scratch_bytes: usize,
}

/// Payloads the SSE scanner recovered from the chunks seen so far, and
/// whether the stream's last action was discarding an oversized event.
pub struct SseEvents {
    pub payloads: Vec<Vec<u8>>,
    pub dropped_tail: bool,
}

impl TokenCountFilter {
    /// Creates the filter from its configuration: both capture limits must
    /// be greater than 0 and at most 64 MiB.
    pub fn from_config(cfg: TokenCountConfig) -> (r: Result<TokenCountFilter, FilterError>)
        ensures
            cfg.max_body_bytes == 0 ==> (r matches Err(e) && e.message@
                == zero_body_limit_message("token_count"@)),
            cfg.max_body_bytes > MAX_JSON_BODY_BYTES ==> (r matches Err(e) && e.message@
                == body_limit_too_large_message("token_count"@, cfg.max_body_bytes)),
            0 < cfg.max_body_bytes <= MAX_JSON_BODY_BYTES && cfg.max_scratch_bytes == 0 ==> (r matches Err(
                e,
            ) && e.message@ == zero_scratch_message()),
            0 < cfg.max_body_bytes <= MAX_JSON_BODY_BYTES && cfg.max_scratch_bytes
                > MAX_JSON_BODY_BYTES ==> (r matches Err(e) && e.message@
                == scratch_too_large_message(cfg.max_scratch_bytes)),
            r is Ok <==> (0 < cfg.max_body_bytes <= MAX_JSON_BODY_BYTES && 0 < cfg.max_scratch_bytes
                <= MAX_JSON_BODY_BYTES),
            r matches Ok(f) ==> f.provider == cfg.provider && f.max_body_bytes == cfg.max_body_bytes
                && f.max_scratch_bytes == cfg.max_scratch_bytes,
    {
        validate_max_body_bytes("token_count", cfg.max_body_bytes)?;
        validate_max_scratch_bytes(cfg.max_scratch_bytes)?;
        Ok(
            TokenCountFilter {
                provider: cfg.provider,
                max_body_bytes: cfg.max_body_bytes,
                max_scratch_bytes: cfg.max_scratch_bytes,
            },
        )
    }

    /// The filter's registered name.
    pub fn name(&self) -> (r: &'static str)
        ensures
            r@ == "token_count"@,
    {
        "token_count"
    }

    /// `bedrock_invoke_model` meters from headers and never reads the body.
    pub fn response_body_access(&self) -> (r: BodyAccess)
        ensures
            r == (if self.provider == ProviderKind::BedrockInvokeModel {
                BodyAccess::NoAccess
            } else {
                BodyAccess::ReadOnly
            }),
    {
        if self.provider == ProviderKind::BedrockInvokeModel {
            BodyAccess::NoAccess
        } else {
            BodyAccess::ReadOnly
        }
    }

    /// Response bodies are streamed chunk by chunk.
    pub fn response_body_mode(&self) -> (r: BodyMode)
        ensures
            r == BodyMode::Stream,
    {
        BodyMode::Stream
    }

    /// The request phase does nothing.
    pub fn on_request(&self, _ctx: &mut Metadata) -> (r: FilterAction)
        ensures
            r is Continue,
            final(_ctx)@ == old(_ctx)@,
    {
        FilterAction::Continue
    }

    /// Response headers: skips non-success responses; resolves the parser
    /// for `auto` from the request path; meters Bedrock `InvokeModel` from
    /// its headers; otherwise records the body extraction mode from the
    /// content type (and, for `auto`, the resolved parser).
    pub fn on_response(&self, ctx: &mut Metadata, path: &str, status: Option<u16>, headers: &Headers) -> (r:
        FilterAction)
        ensures
            r is Continue,
            final(ctx)@ == response_head_effect(
                old(ctx)@,
                self.provider,
                path@,
                status,
                header_text(headers.entries@, "content-type"@),
                header_text(headers.entries@, HEADER_BEDROCK_INPUT@),
                header_text(headers.entries@, HEADER_BEDROCK_OUTPUT@),
            ),
    {
        let ok = match status {
            Some(s) => 200 <= s && s <= 299,
            None => false,
        };
        if !ok {
            return FilterAction::Continue;
        }
        let provider = match self.provider {
            ProviderKind::Auto => match ProviderKind::for_path(path) {
                Some(kind) => kind,
                None => return FilterAction::Continue,
            },
            other => other,
        };
        if provider == ProviderKind::BedrockInvokeModel {
            extract_bedrock_headers(
                ctx,
                headers.get_str(HEADER_BEDROCK_INPUT),
                headers.get_str(HEADER_BEDROCK_OUTPUT),
            );
            return FilterAction::Continue;
        }
        let ct = match headers.get_str("content-type") {
            Some(ct) => ct,
            None => return FilterAction::Continue,
        };
        if is_event_stream_content_type(ct.as_str()) {
            ctx.set(META_MODE, text::owned("sse"));
        } else if is_json_content_type(ct.as_str()) {
            ctx.set(META_MODE, text::owned("json"));
        } else {
            return FilterAction::Continue;
        }
        if self.provider == ProviderKind::Auto {
            ctx.set(META_PROVIDER, text::owned(provider.as_str()));
        }
        FilterAction::Continue
    }

    /// Response body: resolves the parser (for `auto`, the one stored by
    /// `on_response`; nothing happens when none was stored), then runs the
    /// extraction path for the recorded mode. SSE payloads come from the
    /// stream scanner in `sse`.
    pub fn on_response_body(
        &self,
        ctx: &mut Metadata,
        body: Option<&[u8]>,
        end_of_stream: bool,
        sse: &SseEvents,
    ) -> (r: FilterAction)
        ensures
            r is Continue,
            final(ctx)@ == response_body_effect(
                old(ctx)@,
                self.provider,
                self.max_body_bytes,
                opt_bytes(body),
                end_of_stream,
                payloads_view(sse.payloads@),
                sse.dropped_tail,
            ),
    {
        let provider = match self.provider {
            ProviderKind::Auto => {
                let stored = match ctx.get(META_PROVIDER) {
                    Some(v) => ProviderKind::from_meta(v.as_str()),
                    None => None,
                };
                match stored {
                    Some(kind) => kind,
                    None => return FilterAction::Continue,
                }
            },
            other => other,
        };
        if provider == ProviderKind::BedrockInvokeModel {
            return FilterAction::Continue;
        }
        let is_sse = match ctx.get(META_MODE) {
            Some(m) => text::str_eq(m.as_str(), "sse"),
            None => false,
        };
        let is_json = match ctx.get(META_MODE) {
            Some(m) => text::str_eq(m.as_str(), "json"),
            None => false,
        };
        if is_sse {
            handle_sse_events(ctx, &sse.payloads, end_of_stream, sse.dropped_tail, provider);
        } else if is_json {
            handle_json_body(ctx, body, end_of_stream, provider, self.max_body_bytes);
        }
        FilterAction::Continue
    }
}

/// Bytes of an optional body chunk.
pub open spec fn opt_bytes(b: Option<&[u8]>) -> Option<Seq<u8>> {
    match b {
        Some(x) => Some(x@),
        None => None,
    }
}

/// The payloads as byte sequences.
pub open spec fn payloads_view(ps: Seq<Vec<u8>>) -> Seq<Seq<u8>> {
    Seq::new(ps.len(), |i: int| ps[i]@)
}

/// Metadata after the response headers (see [`TokenCountFilter::on_response`]).
pub open spec fn response_head_effect(
    m: Seq<(Seq<char>, Seq<char>)>,
    configured: ProviderKind,
    path: Seq<char>,
    status: Option<u16>,
    content_type: Option<Seq<char>>,
    bedrock_input: Option<Seq<char>>,
    bedrock_output: Option<Seq<char>>,
) -> Seq<(Seq<char>, Seq<char>)> {
    let ok = match status {
        Some(s) => is_success(s),
        None => false,
    };
    let resolved = match configured {
        ProviderKind::Auto => provider_for_path(path),
        other => Some(other),
    };
    if !ok {
        m
    } else {
        match resolved {
            None => m,
            Some(p) => if p == ProviderKind::BedrockInvokeModel {
                bedrock_headers_effect(m, bedrock_input, bedrock_output)
            } else {
                match content_type {
                    None => m,
                    Some(ct) => {
                        let mode = if media_is(ct, "text/event-stream"@) {
                            Some("sse"@)
                        } else if media_is(ct, "application/json"@) {
                            Some("json"@)
                        } else {
                            None
                        };
                        match mode {
                            None => m,
                            Some(md) => {
                                let m1 = meta_insert(m, META_MODE@, md);
                                if configured == ProviderKind::Auto {
                                    meta_insert(m1, META_PROVIDER@, provider_name(p))
                                } else {
                                    m1
                                }
                            },
                        }
                    },
                }
            },
        }
    }
}

/// A count parsed from optional text.
pub open spec fn parse_count(v: Option<Seq<char>>) -> Option<u64> {
    match v {
        Some(s) => text::parse_u64_spec(s),
        None => None,
    }
}

/// Metadata after reading Bedrock `InvokeModel` header counts: both must be
/// present decimal numbers, and then input, output and their sum are
/// published; otherwise nothing changes.
pub open spec fn bedrock_headers_effect(
    m: Seq<(Seq<char>, Seq<char>)>,
    input: Option<Seq<char>>,
    output: Option<Seq<char>>,
) -> Seq<(Seq<char>, Seq<char>)> {
    match (parse_count(input), parse_count(output)) {
        (Some(i), Some(o)) => with_token_counts(m, i, o, None),
        _ => m,
    }
}

/// Reads Bedrock `InvokeModel` token counts from response headers; no-op if
/// either header is absent or unparseable.
pub fn extract_bedrock_headers(ctx: &mut Metadata, input: Option<&String>, output: Option<&String>)
    ensures
        final(ctx)@ == bedrock_headers_effect(
            old(ctx)@,
            match input {
                Some(s) => Some(s@),
                None => None,
            },
            match output {
                Some(s) => Some(s@),
                None => None,
            },
        ),
{
    let i = match input {
        Some(s) => text::parse_u64(s.as_str()),
        None => None,
    };
    let o = match output {
        Some(s) => text::parse_u64(s.as_str()),
        None => None,
    };
    if let (Some(i), Some(o)) = (i, o) {
        set_token_usage(ctx, i, o, None);
    }
}

// -----------------------------------------------------------------------------
// JSON (non-streaming) path
// -----------------------------------------------------------------------------

/// A `usize` parsed from text the way std's `str::parse::<usize>` does.
pub open spec fn parse_usize_spec(s: Seq<char>) -> Option<usize> {
    match text::parse_u64_spec(s) {
        Some(v) => if v <= usize::MAX {
            Some(v as usize)
        } else {
            None
        },
        None => None,
    }
}

/// Bytes buffered so far (0 when unrecorded or unreadable).
pub open spec fn buffered_bytes(m: Seq<(Seq<char>, Seq<char>)>) -> usize {
    match meta_get(m, META_BUF_BYTES@) {
        Some(v) => match parse_usize_spec(v) {
            Some(n) => n,
            None => 0,
        },
        None => 0,
    }
}

/// The hex buffer so far (empty when unrecorded).
pub open spec fn buffered_hex(m: Seq<(Seq<char>, Seq<char>)>) -> Seq<char> {
    match meta_get(m, META_BUF_HEX@) {
        Some(h) => h,
        None => Seq::empty(),
    }
}

/// Whether a chunk still fits under the capture limit.
pub open spec fn chunk_fits(m: Seq<(Seq<char>, Seq<char>)>, chunk: Seq<u8>, max: usize) -> bool {
    buffered_total(m, chunk) <= max
}

/// The byte count with a chunk added, saturating at `usize::MAX`.
pub open spec fn buffered_total(m: Seq<(Seq<char>, Seq<char>)>, chunk: Seq<u8>) -> int {
    let t = buffered_bytes(m) as int + chunk.len();
    if t > usize::MAX {
        usize::MAX as int
    } else {
        t
    }
}

/// Metadata with a chunk appended to the hex buffer and the byte count updated.
pub open spec fn accumulated_chunk(m: Seq<(Seq<char>, Seq<char>)>, chunk: Seq<u8>) -> Seq<
    (Seq<char>, Seq<char>),
> {
    meta_insert(
        meta_insert(m, META_BUF_HEX@, buffered_hex(m) + hex_text(chunk)),
        META_BUF_BYTES@,
        text::decimal(buffered_total(m, chunk) as nat),
    )
}

/// Metadata after the end of a JSON response: the buffered body is decoded
/// and parsed, its usage (if any) published.
pub open spec fn json_end_effect(m: Seq<(Seq<char>, Seq<char>)>, p: ProviderKind) -> Seq<
    (Seq<char>, Seq<char>),
> {
    match meta_get(m, META_BUF_HEX@) {
        Some(h) => match hex_decode(h) {
            Some(data) => match provider_usage(p, body_document(data)) {
                Some(u) => with_usage(m, u),
                None => m,
            },
            None => m,
        },
        None => m,
    }
}

/// Metadata after one JSON body callback. A chunk that overflows the
/// capture limit records `token.status: overflow` and drops all working
/// state; otherwise the chunk is buffered, and at the end of the stream the
/// usage is published and the working state dropped.
pub open spec fn json_body_effect(
    m: Seq<(Seq<char>, Seq<char>)>,
    chunk: Option<Seq<u8>>,
    end_of_stream: bool,
    p: ProviderKind,
    max: usize,
) -> Seq<(Seq<char>, Seq<char>)> {
    let overflow = match chunk {
        Some(c) => !chunk_fits(m, c, max),
        None => false,
    };
    if overflow {
        meta_remove_prefixed(
            meta_insert(m, META_TOKEN_STATUS@, TOKEN_STATUS_OVERFLOW@),
            META_PREFIX@,
        )
    } else {
        let m1 = match chunk {
            Some(c) => accumulated_chunk(m, c),
            None => m,
        };
        if end_of_stream {
            meta_remove_prefixed(json_end_effect(m1, p), META_PREFIX@)
        } else {
            m1
        }
    }
}

/// Parses a `usize` the way std's `str::parse::<usize>` does.
fn parse_usize(s: &str) -> (r: Option<usize>)
    ensures
        r == parse_usize_spec(s@),
{
    match text::parse_u64(s) {
        Some(v) => if v <= usize::MAX as u64 {
            Some(v as usize)
        } else {
            None
        },
        None => None,
    }
}

/// Accumulates raw bytes as hex (so chunk boundaries cannot split a UTF-8
/// code point). Returns `false`, changing nothing, if the byte limit would
/// be exceeded.
pub fn accumulate_response_hex(ctx: &mut Metadata, chunk: &[u8], max_bytes: usize) -> (r: bool)
    ensures
        r == chunk_fits(old(ctx)@, chunk@, max_bytes),
        r ==> final(ctx)@ == accumulated_chunk(old(ctx)@, chunk@),
        !r ==> final(ctx)@ == old(ctx)@,
{
    let existing: usize = match ctx.get(META_BUF_BYTES) {
        Some(v) => match parse_usize(v.as_str()) {
            Some(n) => n,
            None => 0,
        },
        None => 0,
    };
    if existing.saturating_add(chunk.len()) > max_bytes {
        return false;
    }
    let mut hex_buf = match ctx.get(META_BUF_HEX) {
        Some(h) => h.clone(),
        None => String::new(),
    };
    push_hex(&mut hex_buf, chunk);
    ctx.set(META_BUF_HEX, hex_buf);
    let new_total = existing.saturating_add(chunk.len());
    ctx.set(META_BUF_BYTES, usize_to_decimal(new_total));
    true
}

/// Parses buffered JSON usage and publishes it; a body carrying no
/// recognizable usage records nothing.
pub fn record_json_usage(ctx: &mut Metadata, provider: ProviderKind, data: &[u8])
    ensures
        final(ctx)@ == (match provider_usage(provider, body_document(data@)) {
            Some(u) => with_usage(old(ctx)@, u),
            None => old(ctx)@,
        }),
{
    if let Some(usage) = provider.extract_token_usage(data) {
        publish_token_usage(ctx, usage);
    }
}

/// Removes all `token_count.*` working state.
pub fn clear_all_metadata(ctx: &mut Metadata)
    ensures
        final(ctx)@ == meta_remove_prefixed(old(ctx)@, META_PREFIX@),
{
    ctx.remove_prefixed(META_PREFIX);
}

/// Accumulates JSON body chunks and extracts token usage on completion.
pub fn handle_json_body(
    ctx: &mut Metadata,
    body: Option<&[u8]>,
    end_of_stream: bool,
    provider: ProviderKind,
    max_body_bytes: usize,
)
    ensures
        final(ctx)@ == json_body_effect(
            old(ctx)@,
            opt_bytes(body),
            end_of_stream,
            provider,
            max_body_bytes,
        ),
{
    if let Some(chunk) = body {
        if !accumulate_response_hex(ctx, chunk, max_body_bytes) {
            set_token_status_overflow(ctx);
            clear_all_metadata(ctx);
            return;
        }
    }
    if end_of_stream {
        let data = match ctx.get(META_BUF_HEX) {
            Some(hex) => decode_hex(hex.as_str()),
            None => None,
        };
        if let Some(data) = data {
            record_json_usage(ctx, provider, data.as_slice());
        }
        clear_all_metadata(ctx);
    }
}

// -----------------------------------------------------------------------------
// SSE (streaming) path
// -----------------------------------------------------------------------------

/// The `[DONE]` sentinel payload.
pub open spec fn done_sentinel() -> Seq<u8> {
    seq![91u8, 68u8, 79u8, 78u8, 69u8, 93u8]
}

/// A streaming accumulator, parsed.
pub open spec fn accumulated(m: Seq<(Seq<char>, Seq<char>)>, key: Seq<char>) -> Option<u64> {
    parse_count(meta_get(m, key))
}

/// Metadata after merging a reported count into its accumulator via max.
pub open spec fn merged(m: Seq<(Seq<char>, Seq<char>)>, key: Seq<char>, v: u64) -> Seq<
    (Seq<char>, Seq<char>),
> {
    let existing = match accumulated(m, key) {
        Some(e) => e,
        None => 0,
    };
    with_count(
        m,
        key,
        if existing >= v {
            existing
        } else {
            v
        },
    )
}

/// Metadata after merging an optional count (unchanged when unreported).
pub open spec fn merged_reported(
    m: Seq<(Seq<char>, Seq<char>)>,
    key: Seq<char>,
    v: Option<u64>,
) -> Seq<(Seq<char>, Seq<char>)> {
    match v {
        Some(v) => merged(m, key, v),
        None => m,
    }
}

/// Metadata after an event with partial counts.
pub open spec fn partial_effect(m: Seq<(Seq<char>, Seq<char>)>, t: StreamingTokens) -> Seq<
    (Seq<char>, Seq<char>),
> {
    merged_reported(
        merged_reported(
            merged_reported(
                merged_reported(merged_reported(m, META_INPUT@, t.input), META_OUTPUT@, t.output),
                META_CACHE_READ@,
                t.cache_read,
            ),
            META_CACHE_WRITE@,
            t.cache_write,
        ),
        META_REASONING@,
        t.reasoning,
    )
}

/// Metadata after an event with complete usage: the counts replace the
/// accumulators, the breakdowns only where reported.
pub open spec fn complete_effect(m: Seq<(Seq<char>, Seq<char>)>, u: TokenUsage) -> Seq<
    (Seq<char>, Seq<char>),
> {
    with_optional_count(
        with_optional_count(
            with_optional_count(
                with_count(
                    with_count(with_count(m, META_INPUT@, u.input), META_OUTPUT@, u.output),
                    META_TOTAL@,
                    u.total,
                ),
                META_CACHE_READ@,
                u.cache_read,
            ),
            META_CACHE_WRITE@,
            u.cache_write,
        ),
        META_REASONING@,
        u.reasoning,
    )
}

/// Metadata after one SSE data payload: `[DONE]` is ignored; complete usage
/// wins over partial counts.
pub open spec fn payload_effect(m: Seq<(Seq<char>, Seq<char>)>, payload: Seq<u8>, p: ProviderKind) -> Seq<
    (Seq<char>, Seq<char>),
> {
    if payload == done_sentinel() {
        m
    } else {
        match provider_usage(p, body_document(payload)) {
            Some(u) => complete_effect(m, u),
            None => partial_effect(m, provider_stream_tokens(p, body_document(payload))),
        }
    }
}

/// Metadata after payloads, processed in order.
pub open spec fn payloads_effect(m: Seq<(Seq<char>, Seq<char>)>, ps: Seq<Seq<u8>>, p: ProviderKind) -> Seq<
    (Seq<char>, Seq<char>),
>
    decreases ps.len(),
{
    if ps.len() == 0 {
        m
    } else {
        payload_effect(payloads_effect(m, ps.drop_last(), p), ps.last(), p)
    }
}

/// The usage the accumulators hold: missing input or output read as zero,
/// a missing total computed from them.
pub open spec fn accumulated_usage(m: Seq<(Seq<char>, Seq<char>)>) -> TokenUsage {
    TokenUsage {
        cache_read: accumulated(m, META_CACHE_READ@),
        cache_write: accumulated(m, META_CACHE_WRITE@),
        reasoning: accumulated(m, META_REASONING@),
        ..usage_new(
            match accumulated(m, META_INPUT@) {
                Some(v) => v,
                None => 0,
            },
            match accumulated(m, META_OUTPUT@) {
                Some(v) => v,
                None => 0,
            },
            accumulated(m, META_TOTAL@),
        )
    }
}

/// Metadata after the end of a stream: overflow status when the stream ended
/// after dropping an oversized event, then the accumulators published when
/// any input or output count arrived.
pub open spec fn finalized(m: Seq<(Seq<char>, Seq<char>)>, dropped_tail: bool) -> Seq<
    (Seq<char>, Seq<char>),
> {
    let has = meta_get(m, META_INPUT@) is Some || meta_get(m, META_OUTPUT@) is Some;
    let m1 = if dropped_tail {
        meta_insert(m, META_TOKEN_STATUS@, TOKEN_STATUS_OVERFLOW@)
    } else {
        m
    };
    if has {
        with_usage(m1, accumulated_usage(m1))
    } else {
        m1
    }
}

/// Metadata after one SSE body callback.
pub open spec fn sse_body_effect(
    m: Seq<(Seq<char>, Seq<char>)>,
    ps: Seq<Seq<u8>>,
    end_of_stream: bool,
    dropped_tail: bool,
    p: ProviderKind,
) -> Seq<(Seq<char>, Seq<char>)> {
    let m1 = payloads_effect(m, ps, p);
    if end_of_stream {
        meta_remove_prefixed(finalized(m1, dropped_tail), META_PREFIX@)
    } else {
        m1
    }
}

/// Metadata after one response body callback.
pub open spec fn response_body_effect(
    m: Seq<(Seq<char>, Seq<char>)>,
    configured: ProviderKind,
    max_body_bytes: usize,
    chunk: Option<Seq<u8>>,
    end_of_stream: bool,
    ps: Seq<Seq<u8>>,
    dropped_tail: bool,
) -> Seq<(Seq<char>, Seq<char>)> {
    let provider = match configured {
        ProviderKind::Auto => match meta_get(m, META_PROVIDER@) {
            Some(v) => provider_from_name(v),
            None => None,
        },
        other => Some(other),
    };
    match provider {
        None => m,
        Some(p) => if p == ProviderKind::BedrockInvokeModel {
            m
        } else if meta_get(m, META_MODE@) == Some("sse"@) {
            sse_body_effect(m, ps, end_of_stream, dropped_tail, p)
        } else if meta_get(m, META_MODE@) == Some("json"@) {
            json_body_effect(m, chunk, end_of_stream, p, max_body_bytes)
        } else {
            m
        },
    }
}

/// Reads an accumulated count, `None` when no event reported it.
pub fn read_accumulated(ctx: &Metadata, key: &str) -> (r: Option<u64>)
    ensures
        r == accumulated(ctx@, key@),
{
    match ctx.get(key) {
        Some(v) => text::parse_u64(v.as_str()),
        None => None,
    }
}

/// Merges one count into its accumulator via max: right for providers that
/// report running totals and for those that report each count once.
pub fn merge_accumulated_count(ctx: &mut Metadata, key: &str, value: u64)
    ensures
        final(ctx)@ == merged(old(ctx)@, key@, value),
{
    let existing = match read_accumulated(ctx, key) {
        Some(e) => e,
        None => 0,
    };
    let new_value = if existing >= value {
        existing
    } else {
        value
    };
    super::set_count(ctx, key, new_value);
}

/// Merges one count, skipping counts the event omitted.
pub fn merge_reported_count(ctx: &mut Metadata, key: &str, value: Option<u64>)
    ensures
        final(ctx)@ == merged_reported(old(ctx)@, key@, value),
{
    if let Some(v) = value {
        merge_accumulated_count(ctx, key, v);
    }
}

/// Stores one optional streaming accumulator; skips omitted counts.
pub fn store_optional_count(ctx: &mut Metadata, key: &str, value: Option<u64>)
    ensures
        final(ctx)@ == with_optional_count(old(ctx)@, key@, value),
{
    super::set_optional_count(ctx, key, value);
}

/// Tries complete usage extraction (OpenAI, Google, Azure final events).
pub fn try_complete_usage(ctx: &mut Metadata, payload: &[u8], provider: ProviderKind) -> (r: bool)
    ensures
        r == provider_usage(provider, body_document(payload@)) is Some,
        final(ctx)@ == (match provider_usage(provider, body_document(payload@)) {
            Some(u) => complete_effect(old(ctx)@, u),
            None => old(ctx)@,
        }),
{
    let usage = match provider.extract_token_usage(payload) {
        Some(u) => u,
        None => return false,
    };
    super::set_count(ctx, META_INPUT, usage.input_tokens());
    super::set_count(ctx, META_OUTPUT, usage.output_tokens());
    super::set_count(ctx, META_TOTAL, usage.total_tokens());
    store_optional_count(ctx, META_CACHE_READ, usage.cache_read_tokens());
    store_optional_count(ctx, META_CACHE_WRITE, usage.cache_write_tokens());
    store_optional_count(ctx, META_REASONING, usage.reasoning_tokens());
    true
}

/// Tries partial extraction (Anthropic, Bedrock streaming).
pub fn try_partial_usage(ctx: &mut Metadata, payload: &[u8], provider: ProviderKind)
    ensures
        final(ctx)@ == partial_effect(
            old(ctx)@,
            provider_stream_tokens(provider, body_document(payload@)),
        ),
{
    let tokens = provider.extract_streaming_tokens(payload);
    merge_reported_count(ctx, META_INPUT, tokens.input);
    merge_reported_count(ctx, META_OUTPUT, tokens.output);
    merge_reported_count(ctx, META_CACHE_READ, tokens.cache_read);
    merge_reported_count(ctx, META_CACHE_WRITE, tokens.cache_write);
    merge_reported_count(ctx, META_REASONING, tokens.reasoning);
}

/// Whether a payload is the `[DONE]` sentinel.
fn is_done_sentinel(payload: &[u8]) -> (r: bool)
    ensures
        r == (payload@ == done_sentinel()),
{
    if payload.len() != 6 {
        return false;
    }
    let r = payload[0] == 91 && payload[1] == 68 && payload[2] == 79 && payload[3] == 78
        && payload[4] == 69 && payload[5] == 93;
    if r {
        assert(payload@ =~= done_sentinel());
    } else {
        assert(payload@ != done_sentinel()) by {
            if payload@ == done_sentinel() {
                assert(payload@[0] == 91 && payload@[5] == 93);
            }
        }
    }
    r
}

/// Tries to extract token usage from a single SSE data payload.
pub fn process_sse_payload(ctx: &mut Metadata, payload: &[u8], provider: ProviderKind)
    ensures
        final(ctx)@ == payload_effect(old(ctx)@, payload@, provider),
{
    if is_done_sentinel(payload) {
        return;
    }
    if try_complete_usage(ctx, payload, provider) {
        return;
    }
    try_partial_usage(ctx, payload, provider);
}

/// Publishes the streaming accumulators to the well-known `token.*` keys.
pub fn publish_accumulated_streaming_usage(ctx: &mut Metadata)
    ensures
        final(ctx)@ == with_usage(old(ctx)@, accumulated_usage(old(ctx)@)),
{
    let input = match read_accumulated(ctx, META_INPUT) {
        Some(v) => v,
        None => 0,
    };
    let output = match read_accumulated(ctx, META_OUTPUT) {
        Some(v) => v,
        None => 0,
    };
    let usage = TokenUsage::new(input, output, read_accumulated(ctx, META_TOTAL)).with_cache(
        read_accumulated(ctx, META_CACHE_READ),
        read_accumulated(ctx, META_CACHE_WRITE),
    ).with_reasoning(read_accumulated(ctx, META_REASONING));
    publish_token_usage(ctx, usage);
}

/// Writes accumulated streaming counts to the well-known metadata keys,
/// marking overflow when the stream ended after an oversized event.
pub fn finalize_streaming_counts(ctx: &mut Metadata, dropped_tail: bool)
    ensures
        final(ctx)@ == finalized(old(ctx)@, dropped_tail),
{
    let has_accumulated = ctx.contains_key(META_INPUT) || ctx.contains_key(META_OUTPUT);
    if dropped_tail {
        set_token_status_overflow(ctx);
    }
    if has_accumulated {
        publish_accumulated_streaming_usage(ctx);
    }
}

/// Processes the SSE payloads of one body callback and, at the end of the
/// stream, finalizes the counts and drops the working state.
pub fn handle_sse_events(
    ctx: &mut Metadata,
    payloads: &Vec<Vec<u8>>,
    end_of_stream: bool,
    dropped_tail: bool,
    provider: ProviderKind,
)
    ensures
        final(ctx)@ == sse_body_effect(
            old(ctx)@,
            payloads_view(payloads@),
            end_of_stream,
            dropped_tail,
            provider,
        ),
{
    let ghost start = ctx@;
    let mut i: usize = 0;
    while i < payloads.len()
        invariant
            i <= payloads.len(),
            ctx@ == payloads_effect(start, payloads_view(payloads@).take(i as int), provider),
        decreases payloads.len() - i,
    {
        assert(payloads_view(payloads@).take(i as int + 1).drop_last() =~= payloads_view(
            payloads@,
        ).take(i as int));
        process_sse_payload(ctx, payloads[i].as_slice(), provider);
        i = i + 1;
    }
    assert(payloads_view(payloads@).take(payloads.len() as int) =~= payloads_view(payloads@));
    if end_of_stream {
        finalize_streaming_counts(ctx, dropped_tail);
        clear_all_metadata(ctx);
    }
}

// -----------------------------------------------------------------------------
// SSE scanner state between body callbacks
// -----------------------------------------------------------------------------

/// Metadata key for the SSE scanner's line buffer (hex).
pub const META_SSE_LINE_BUF: &'static str = "token_count.sse_line_buf_hex";

/// Metadata key for the SSE scanner's data buffer (hex).
pub const META_SSE_DATA_HEX: &'static str = "token_count.sse_data_hex";

/// Metadata key for the SSE scanner's `has_data` flag.
pub const META_SSE_HAS_DATA: &'static str = "token_count.sse_has_data";

/// Metadata key for the SSE scanner's `prev_cr` flag.
pub const META_SSE_PREV_CR: &'static str = "token_count.sse_prev_cr";

/// Metadata key for the SSE scanner's scratch byte count.
pub const META_SSE_SCRATCH: &'static str = "token_count.sse_scratch_bytes";

/// Metadata key for the SSE scanner's oversized-event skip phase.
pub const META_SSE_SKIP: &'static str = "token_count.sse_skip";

/// Metadata key recording whether the stream's last action was discarding
/// an oversized event.
pub const META_SSE_DROPPED_TAIL: &'static str = "token_count.sse_dropped_tail";

/// The SSE scanner's state, carried between body callbacks in metadata.
/// The skip phase and the tail marker are held by the names the scanner
/// stores them under (empty when absent).
pub struct SseScanState {
    /// Bytes of the current, unterminated line.
    pub line_buf: Vec<u8>,
    /// Data of the event being assembled.
    pub data_buf: Vec<u8>,
    /// Whether the current event has a data line.
    pub has_data: bool,
    /// Whether the previous chunk ended in a carriage return.
    pub prev_cr: bool,
    /// Scratch bytes held for the current event.
    pub scratch_bytes: usize,
    /// The skip phase.
    pub skip: String,
    /// The tail marker.
    pub tail: String,
}

/// Bytes stored hex-encoded under `key` (empty when absent or unreadable).
pub open spec fn hex_field(m: Seq<(Seq<char>, Seq<char>)>, key: Seq<char>) -> Seq<u8> {
    match meta_get(m, key) {
        Some(h) => match hex_decode(h) {
            Some(d) => d,
            None => Seq::empty(),
        },
        None => Seq::empty(),
    }
}

/// A flag stored under `key`: set only by the text `true`.
pub open spec fn flag_field(m: Seq<(Seq<char>, Seq<char>)>, key: Seq<char>) -> bool {
    meta_get(m, key) == Some("true"@)
}

/// A count stored under `key` (0 when absent or unreadable).
pub open spec fn count_field(m: Seq<(Seq<char>, Seq<char>)>, key: Seq<char>) -> usize {
    match meta_get(m, key) {
        Some(v) => match parse_usize_spec(v) {
            Some(n) => n,
            None => 0,
        },
        None => 0,
    }
}

/// A text stored under `key` (empty when absent).
pub open spec fn text_field(m: Seq<(Seq<char>, Seq<char>)>, key: Seq<char>) -> Seq<char> {
    match meta_get(m, key) {
        Some(v) => v,
        None => Seq::empty(),
    }
}

/// The text of a flag.
pub open spec fn flag_text(b: bool) -> Seq<char> {
    if b {
        "true"@
    } else {
        "false"@
    }
}

/// Metadata with bytes stored hex-encoded under `key`, or the key removed
/// for no bytes.
pub open spec fn with_hex(m: Seq<(Seq<char>, Seq<char>)>, key: Seq<char>, data: Seq<u8>) -> Seq<
    (Seq<char>, Seq<char>),
> {
    if data.len() == 0 {
        crate::filter::meta_remove(m, key)
    } else {
        meta_insert(m, key, hex_text(data))
    }
}

/// Metadata after saving the scanner state.
pub open spec fn saved_scan_state(m: Seq<(Seq<char>, Seq<char>)>, s: SseScanState) -> Seq<
    (Seq<char>, Seq<char>),
> {
    let m1 = with_hex(with_hex(m, META_SSE_LINE_BUF@, s.line_buf@), META_SSE_DATA_HEX@, s.data_buf@);
    let m2 = meta_insert(
        meta_insert(m1, META_SSE_HAS_DATA@, flag_text(s.has_data)),
        META_SSE_PREV_CR@,
        flag_text(s.prev_cr),
    );
    meta_insert(
        meta_insert(
            meta_insert(m2, META_SSE_SCRATCH@, text::decimal(s.scratch_bytes as nat)),
            META_SSE_SKIP@,
            s.skip@,
        ),
        META_SSE_DROPPED_TAIL@,
        s.tail@,
    )
}

/// Whether a state is what the metadata holds.
pub open spec fn loaded_scan_state(s: SseScanState, m: Seq<(Seq<char>, Seq<char>)>) -> bool {
    &&& s.line_buf@ == hex_field(m, META_SSE_LINE_BUF@)
    &&& s.data_buf@ == hex_field(m, META_SSE_DATA_HEX@)
    &&& s.has_data == flag_field(m, META_SSE_HAS_DATA@)
    &&& s.prev_cr == flag_field(m, META_SSE_PREV_CR@)
    &&& s.scratch_bytes == count_field(m, META_SSE_SCRATCH@)
    &&& s.skip@ == text_field(m, META_SSE_SKIP@)
    &&& s.tail@ == text_field(m, META_SSE_DROPPED_TAIL@)
}

/// Reads hex-encoded bytes.
fn read_hex_field(ctx: &Metadata, key: &str) -> (r: Vec<u8>)
    ensures
        r@ == hex_field(ctx@, key@),
{
    match ctx.get(key) {
        Some(h) => match decode_hex(h.as_str()) {
            Some(d) => d,
            None => Vec::new(),
        },
        None => Vec::new(),
    }
}

/// Reads a flag.
fn read_flag_field(ctx: &Metadata, key: &str) -> (r: bool)
    ensures
        r == flag_field(ctx@, key@),
{
    match ctx.get(key) {
        Some(v) => text::str_eq(v.as_str(), "true"),
        None => false,
    }
}

/// Reads a text.
fn read_text_field(ctx: &Metadata, key: &str) -> (r: String)
    ensures
        r@ == text_field(ctx@, key@),
{
    match ctx.get(key) {
        Some(v) => text::owned(v.as_str()),
        None => String::new(),
    }
}

/// Loads the scanner state from the metadata.
pub fn load_sse_scan_state(ctx: &Metadata) -> (r: SseScanState)
    ensures
        loaded_scan_state(r, ctx@),
{
    let scratch_bytes = match ctx.get(META_SSE_SCRATCH) {
        Some(v) => match parse_usize(v.as_str()) {
            Some(n) => n,
            None => 0,
        },
        None => 0,
    };
    SseScanState {
        line_buf: read_hex_field(ctx, META_SSE_LINE_BUF),
        data_buf: read_hex_field(ctx, META_SSE_DATA_HEX),
        has_data: read_flag_field(ctx, META_SSE_HAS_DATA),
        prev_cr: read_flag_field(ctx, META_SSE_PREV_CR),
        scratch_bytes,
        skip: read_text_field(ctx, META_SSE_SKIP),
        tail: read_text_field(ctx, META_SSE_DROPPED_TAIL),
    }
}

/// Stores bytes hex-encoded under `key`, removing the key for no bytes.
pub fn set_hex_metadata(ctx: &mut Metadata, key: &str, data: &[u8])
    ensures
        final(ctx)@ == with_hex(old(ctx)@, key@, data@),
{
    if data.len() == 0 {
        ctx.remove(key);
    } else {
        let mut hex = String::new();
        push_hex(&mut hex, data);
        ctx.insert(text::owned(key), hex);
    }
}

/// The text of a flag.
fn flag_string(b: bool) -> (r: String)
    ensures
        r@ == flag_text(b),
{
    if b {
        text::owned("true")
    } else {
        text::owned("false")
    }
}

/// Saves the scanner state to the metadata.
pub fn save_sse_scan_state(ctx: &mut Metadata, state: &SseScanState)
    ensures
        final(ctx)@ == saved_scan_state(old(ctx)@, *state),
{
    set_hex_metadata(ctx, META_SSE_LINE_BUF, state.line_buf.as_slice());
    set_hex_metadata(ctx, META_SSE_DATA_HEX, state.data_buf.as_slice());
    ctx.insert(text::owned(META_SSE_HAS_DATA), flag_string(state.has_data));
    ctx.insert(text::owned(META_SSE_PREV_CR), flag_string(state.prev_cr));
    ctx.insert(text::owned(META_SSE_SCRATCH), usize_to_decimal(state.scratch_bytes));
    ctx.insert(text::owned(META_SSE_SKIP), text::owned(state.skip.as_str()));
    ctx.insert(text::owned(META_SSE_DROPPED_TAIL), text::owned(state.tail.as_str()));
}

// -----------------------------------------------------------------------------
// Laws
// -----------------------------------------------------------------------------

/// Merging a reported count keeps the larger of the accumulated and the
/// reported value: accumulators never decrease across partial events.
pub proof fn lemma_merge_is_max(m: Seq<(Seq<char>, Seq<char>)>, key: Seq<char>, v: u64)
    ensures
        accumulated(merged(m, key, v), key) == Some(
            match accumulated(m, key) {
                Some(e) => if e >= v {
                    e
                } else {
                    v
                },
                None => v,
            },
        ),
        accumulated(m, key) matches Some(e) ==> accumulated(merged(m, key, v), key)->0 >= e,
        accumulated(merged(m, key, v), key)->0 >= v,
{
    let existing = match accumulated(m, key) {
        Some(e) => e,
        None => 0,
    };
    let n = if existing >= v {
        existing
    } else {
        v
    };
    crate::filter::lemma_meta_get_after_insert(m, key, text::decimal(n as nat), key);
    text::lemma_parse_decimal(n);
}

/// Merging two reported counts leaves the same metadata in either order:
/// the accumulator ends at the largest of the earlier value and both counts.
pub proof fn lemma_merge_commutes(m: Seq<(Seq<char>, Seq<char>)>, key: Seq<char>, a: u64, b: u64)
    ensures
        merged(merged(m, key, a), key, b) == merged(merged(m, key, b), key, a),
{
    lemma_merge_is_max(m, key, a);
    lemma_merge_is_max(m, key, b);
    let e = match accumulated(m, key) {
        Some(e) => e,
        None => 0,
    };
    let ea: u64 = if e >= a { e } else { a };
    let eb: u64 = if e >= b { e } else { b };
    let top: u64 = if ea >= b { ea } else { b };
    assert(top == (if eb >= a { eb } else { a }));
    crate::filter::lemma_meta_insert_twice(m, key, text::decimal(ea as nat), text::decimal(top as nat));
    crate::filter::lemma_meta_insert_twice(m, key, text::decimal(eb as nat), text::decimal(top as nat));
}

/// Writing an optional count leaves every other key reading as before.
proof fn lemma_get_through_optional(
    m: Seq<(Seq<char>, Seq<char>)>,
    key: Seq<char>,
    v: Option<u64>,
    other: Seq<char>,
)
    requires
        other != key,
    ensures
        meta_get(with_optional_count(m, key, v), other) == meta_get(m, other),
{
    if let Some(x) = v {
        crate::filter::lemma_meta_get_after_insert(m, key, text::decimal(x as nat), other);
    }
}

/// Writing a count makes the key read back as that count, and leaves every
/// other key reading as before.
proof fn lemma_get_through_count(m: Seq<(Seq<char>, Seq<char>)>, key: Seq<char>, v: u64, other: Seq<char>)
    ensures
        meta_get(with_count(m, key, v), key) == Some(text::decimal(v as nat)),
        other != key ==> meta_get(with_count(m, key, v), other) == meta_get(m, other),
{
    crate::filter::lemma_meta_get_after_insert(m, key, text::decimal(v as nat), other);
}

/// An event with complete usage leaves the accumulators holding exactly
/// that usage's input, output and total.
pub proof fn lemma_complete_usage_accumulated(m: Seq<(Seq<char>, Seq<char>)>, u: TokenUsage)
    ensures
        accumulated(complete_effect(m, u), META_INPUT@) == Some(u.input),
        accumulated(complete_effect(m, u), META_OUTPUT@) == Some(u.output),
        accumulated(complete_effect(m, u), META_TOTAL@) == Some(u.total),
{
    let i = META_INPUT@;
    let o = META_OUTPUT@;
    let t = META_TOTAL@;
    let cr = META_CACHE_READ@;
    let cw = META_CACHE_WRITE@;
    let r = META_REASONING@;
    reveal_strlit("token_count.input");
    reveal_strlit("token_count.output");
    reveal_strlit("token_count.total");
    reveal_strlit("token_count.cache_read");
    reveal_strlit("token_count.cache_write");
    reveal_strlit("token_count.reasoning");
    assert(i[12] != t[12] && i.len() != o.len() && o.len() != t.len());
    assert(i.len() != cr.len() && i.len() != cw.len() && i.len() != r.len());
    assert(o.len() != cr.len() && o.len() != cw.len() && o.len() != r.len());
    assert(t.len() != cr.len() && t.len() != cw.len() && t.len() != r.len());
    let a = with_count(m, i, u.input);
    let b = with_count(a, o, u.output);
    let c = with_count(b, t, u.total);
    let d = with_optional_count(c, cr, u.cache_read);
    let e = with_optional_count(d, cw, u.cache_write);
    let f = with_optional_count(e, r, u.reasoning);
    assert(f == complete_effect(m, u));
    lemma_get_through_count(m, i, u.input, i);
    lemma_get_through_count(a, o, u.output, i);
    lemma_get_through_count(a, o, u.output, o);
    lemma_get_through_count(b, t, u.total, i);
    lemma_get_through_count(b, t, u.total, o);
    lemma_get_through_count(b, t, u.total, t);
    lemma_get_through_optional(c, cr, u.cache_read, i);
    lemma_get_through_optional(c, cr, u.cache_read, o);
    lemma_get_through_optional(c, cr, u.cache_read, t);
    lemma_get_through_optional(d, cw, u.cache_write, i);
    lemma_get_through_optional(d, cw, u.cache_write, o);
    lemma_get_through_optional(d, cw, u.cache_write, t);
    lemma_get_through_optional(e, r, u.reasoning, i);
    lemma_get_through_optional(e, r, u.reasoning, o);
    lemma_get_through_optional(e, r, u.reasoning, t);
    text::lemma_parse_decimal(u.input);
    text::lemma_parse_decimal(u.output);
    text::lemma_parse_decimal(u.total);
}

/// A stream whose last event carries complete usage publishes, at its end,
/// exactly that usage's input, output and total (the provider's total, not
/// a sum recomputed from input and output).
pub proof fn lemma_complete_usage_published(
    m: Seq<(Seq<char>, Seq<char>)>,
    ps: Seq<Seq<u8>>,
    p: ProviderKind,
    u: TokenUsage,
)
    requires
        ps.len() > 0,
        ps.last() != done_sentinel(),
        provider_usage(p, body_document(ps.last())) == Some(u),
    ensures
        ({
            let end = sse_body_effect(m, ps, true, false, p);
            &&& meta_get(end, META_TOKEN_INPUT@) == Some(text::decimal(u.input as nat))
            &&& meta_get(end, META_TOKEN_OUTPUT@) == Some(text::decimal(u.output as nat))
            &&& meta_get(end, META_TOKEN_TOTAL@) == Some(text::decimal(u.total as nat))
        }),
{
    let m0 = payloads_effect(m, ps.drop_last(), p);
    let m1 = payloads_effect(m, ps, p);
    assert(m1 == complete_effect(m0, u));
    lemma_complete_usage_accumulated(m0, u);
    let acc = accumulated_usage(m1);
    assert(acc.input == u.input && acc.output == u.output && acc.total == u.total);
    let ti = META_TOKEN_INPUT@;
    let to = META_TOKEN_OUTPUT@;
    let tt = META_TOKEN_TOTAL@;
    let tcr = super::META_TOKEN_CACHE_READ@;
    let tcw = super::META_TOKEN_CACHE_WRITE@;
    let tr = super::META_TOKEN_REASONING@;
    reveal_strlit("token.input");
    reveal_strlit("token.output");
    reveal_strlit("token.total");
    reveal_strlit("token.cache_read");
    reveal_strlit("token.cache_write");
    reveal_strlit("token.reasoning");
    reveal_strlit("token_count.");
    assert(ti[6] != tt[6] && ti.len() != to.len() && to.len() != tt.len());
    assert(ti.len() != tcr.len() && ti.len() != tcw.len() && ti.len() != tr.len());
    assert(to.len() != tcr.len() && to.len() != tcw.len() && to.len() != tr.len());
    assert(tt.len() != tcr.len() && tt.len() != tcw.len() && tt.len() != tr.len());
    let a = with_count(m1, ti, acc.input);
    let b = with_count(a, to, acc.output);
    let c = with_count(b, tt, acc.total);
    let d = with_optional_count(c, tcr, acc.cache_read);
    let e = with_optional_count(d, tcw, acc.cache_write);
    let f = with_optional_count(e, tr, acc.reasoning);
    assert(f == finalized(m1, false));
    lemma_get_through_count(m1, ti, acc.input, ti);
    lemma_get_through_count(a, to, acc.output, ti);
    lemma_get_through_count(a, to, acc.output, to);
    lemma_get_through_count(b, tt, acc.total, ti);
    lemma_get_through_count(b, tt, acc.total, to);
    lemma_get_through_count(b, tt, acc.total, tt);
    lemma_get_through_optional(c, tcr, acc.cache_read, ti);
    lemma_get_through_optional(c, tcr, acc.cache_read, to);
    lemma_get_through_optional(c, tcr, acc.cache_read, tt);
    lemma_get_through_optional(d, tcw, acc.cache_write, ti);
    lemma_get_through_optional(d, tcw, acc.cache_write, to);
    lemma_get_through_optional(d, tcw, acc.cache_write, tt);
    lemma_get_through_optional(e, tr, acc.reasoning, ti);
    lemma_get_through_optional(e, tr, acc.reasoning, to);
    lemma_get_through_optional(e, tr, acc.reasoning, tt);
    let pre = META_PREFIX@;
    assert(!text::is_prefix(pre, ti)) by {
        assert(ti.len() < pre.len());
    }
    assert(!text::is_prefix(pre, tt)) by {
        assert(tt.len() < pre.len());
    }
    assert(!text::is_prefix(pre, to)) by {
        assert(to.subrange(0, pre.len() as int)[5] != pre[5]);
    }
    crate::filter::lemma_meta_remove_where_keeps(f, crate::filter::key_matches(pre, true), ti);
    crate::filter::lemma_meta_remove_where_keeps(f, crate::filter::key_matches(pre, true), to);
    crate::filter::lemma_meta_remove_where_keeps(f, crate::filter::key_matches(pre, true), tt);
}

/// At the end of a response body whose extraction mode is known, the
/// filter's `token_count.` working state is gone.
pub proof fn lemma_end_of_stream_clears_working_state(
    m: Seq<(Seq<char>, Seq<char>)>,
    configured: ProviderKind,
    max_body_bytes: usize,
    chunk: Option<Seq<u8>>,
    ps: Seq<Seq<u8>>,
    dropped_tail: bool,
    p: ProviderKind,
)
    requires
        p != ProviderKind::BedrockInvokeModel,
        match configured {
            ProviderKind::Auto => meta_get(m, META_PROVIDER@) matches Some(v) && provider_from_name(v)
                == Some(p),
            other => other == p,
        },
        meta_get(m, META_MODE@) == Some("sse"@) || meta_get(m, META_MODE@) == Some("json"@),
    ensures
        ({
            let r = response_body_effect(m, configured, max_body_bytes, chunk, true, ps, dropped_tail);
            forall|i: int| 0 <= i < r.len() ==> !text::is_prefix(META_PREFIX@, #[trigger] r[i].0)
        }),
{
    let r = response_body_effect(m, configured, max_body_bytes, chunk, true, ps, dropped_tail);
    if meta_get(m, META_MODE@) == Some("sse"@) {
        crate::filter::lemma_remove_prefixed_clears(
            finalized(payloads_effect(m, ps, p), dropped_tail),
            META_PREFIX@,
        );
    } else {
        let overflow = match chunk {
            Some(c) => !chunk_fits(m, c, max_body_bytes),
            None => false,
        };
        if overflow {
            crate::filter::lemma_remove_prefixed_clears(
                meta_insert(m, META_TOKEN_STATUS@, TOKEN_STATUS_OVERFLOW@),
                META_PREFIX@,
            );
        } else {
            let m1 = match chunk {
                Some(c) => accumulated_chunk(m, c),
                None => m,
            };
            crate::filter::lemma_remove_prefixed_clears(json_end_effect(m1, p), META_PREFIX@);
        }
    }
}

/// A JSON body chunk that would exceed the capture limit leaves
/// `token.status: overflow` behind, so consumers can tell "counts
/// unavailable" from "no counts reported".
pub proof fn lemma_json_overflow_marks_status(
    m: Seq<(Seq<char>, Seq<char>)>,
    chunk: Seq<u8>,
    end_of_stream: bool,
    p: ProviderKind,
    max: usize,
)
    requires
        !chunk_fits(m, chunk, max),
    ensures
        json_body_effect(m, Some(chunk), end_of_stream, p, max).contains(
            (META_TOKEN_STATUS@, TOKEN_STATUS_OVERFLOW@),
        ),
{
    let m1 = meta_insert(m, META_TOKEN_STATUS@, TOKEN_STATUS_OVERFLOW@);
    crate::filter::lemma_first_entry_bounds(m, META_TOKEN_STATUS@);
    let i = match crate::filter::first_entry(m, META_TOKEN_STATUS@) {
        Some(i) => i,
        None => m.len() as int,
    };
    assert(m1[i] == (META_TOKEN_STATUS@, TOKEN_STATUS_OVERFLOW@));
    assert(!text::is_prefix(META_PREFIX@, META_TOKEN_STATUS@)) by {
        reveal_strlit("token.status");
        reveal_strlit("token_count.");
        assert(META_TOKEN_STATUS@[5] != META_PREFIX@[5]);
    }
    crate::filter::lemma_remove_prefixed_clears(m1, META_PREFIX@);
}

/// Reading a key through `with_hex` of another key.
proof fn lemma_get_through_hex(
    m: Seq<(Seq<char>, Seq<char>)>,
    key: Seq<char>,
    data: Seq<u8>,
    other: Seq<char>,
)
    requires
        other != key,
    ensures
        meta_get(with_hex(m, key, data), other) == meta_get(m, other),
{
    if data.len() == 0 {
        crate::filter::lemma_meta_remove_where_keeps(
            m,
            crate::filter::key_matches(key, false),
            other,
        );
    } else {
        crate::filter::lemma_meta_get_after_insert(m, key, hex_text(data), other);
    }
}

/// Reading bytes back through `with_hex` of the same key.
proof fn lemma_hex_field_written(m: Seq<(Seq<char>, Seq<char>)>, key: Seq<char>, data: Seq<u8>)
    ensures
        hex_field(with_hex(m, key, data), key) == data,
{
    if data.len() == 0 {
        crate::filter::lemma_meta_remove_absent(m, key);
        assert(data =~= Seq::<u8>::empty());
    } else {
        crate::filter::lemma_meta_get_after_insert(m, key, hex_text(data), key);
        lemma_hex_roundtrip(data);
    }
}

/// Saving the scanner state and loading it back gives the same state: the
/// scanner resumes each body callback exactly where the previous one
/// stopped.
pub proof fn lemma_scan_state_roundtrip(m: Seq<(Seq<char>, Seq<char>)>, s: SseScanState)
    ensures
        ({
            let saved = saved_scan_state(m, s);
            &&& hex_field(saved, META_SSE_LINE_BUF@) == s.line_buf@
            &&& hex_field(saved, META_SSE_DATA_HEX@) == s.data_buf@
            &&& flag_field(saved, META_SSE_HAS_DATA@) == s.has_data
            &&& flag_field(saved, META_SSE_PREV_CR@) == s.prev_cr
            &&& count_field(saved, META_SSE_SCRATCH@) == s.scratch_bytes
            &&& text_field(saved, META_SSE_SKIP@) == s.skip@
            &&& text_field(saved, META_SSE_DROPPED_TAIL@) == s.tail@
        }),
{
    let l = META_SSE_LINE_BUF@;
    let d = META_SSE_DATA_HEX@;
    let h = META_SSE_HAS_DATA@;
    let p = META_SSE_PREV_CR@;
    let c = META_SSE_SCRATCH@;
    let k = META_SSE_SKIP@;
    let t = META_SSE_DROPPED_TAIL@;
    reveal_strlit("token_count.sse_line_buf_hex");
    reveal_strlit("token_count.sse_data_hex");
    reveal_strlit("token_count.sse_has_data");
    reveal_strlit("token_count.sse_prev_cr");
    reveal_strlit("token_count.sse_scratch_bytes");
    reveal_strlit("token_count.sse_skip");
    reveal_strlit("token_count.sse_dropped_tail");
    reveal_strlit("true");
    reveal_strlit("false");
    assert(l[16] != d[16] && l[16] != h[16] && l[16] != p[16] && l[16] != c[16] && l[16] != k[16]
        && l[16] != t[16]);
    assert(d[16] != h[16] && d[16] != p[16] && d[16] != c[16] && d[16] != k[16] && d[17] != t[17]);
    assert(h[16] != p[16] && h[16] != c[16] && h[16] != k[16] && h[16] != t[16]);
    assert(p[16] != c[16] && p[16] != k[16] && p[16] != t[16]);
    assert(c.len() != k.len() && c[16] != t[16]);
    assert(k.len() != t.len());
    let x = with_hex(m, l, s.line_buf@);
    let m1 = with_hex(x, d, s.data_buf@);
    let a = meta_insert(m1, h, flag_text(s.has_data));
    let m2 = meta_insert(a, p, flag_text(s.prev_cr));
    let b = meta_insert(m2, c, text::decimal(s.scratch_bytes as nat));
    let e = meta_insert(b, k, s.skip@);
    let saved = meta_insert(e, t, s.tail@);
    assert(saved == saved_scan_state(m, s));
    // The tail and the skip phase.
    crate::filter::lemma_meta_get_after_insert(e, t, s.tail@, k);
    crate::filter::lemma_meta_get_after_insert(b, k, s.skip@, k);
    // The scratch count.
    crate::filter::lemma_meta_get_after_insert(e, t, s.tail@, c);
    crate::filter::lemma_meta_get_after_insert(b, k, s.skip@, c);
    crate::filter::lemma_meta_get_after_insert(m2, c, text::decimal(s.scratch_bytes as nat), c);
    text::lemma_parse_decimal(s.scratch_bytes as u64);
    // The flags.
    crate::filter::lemma_meta_get_after_insert(e, t, s.tail@, p);
    crate::filter::lemma_meta_get_after_insert(b, k, s.skip@, p);
    crate::filter::lemma_meta_get_after_insert(m2, c, text::decimal(s.scratch_bytes as nat), p);
    crate::filter::lemma_meta_get_after_insert(a, p, flag_text(s.prev_cr), p);
    crate::filter::lemma_meta_get_after_insert(e, t, s.tail@, h);
    crate::filter::lemma_meta_get_after_insert(b, k, s.skip@, h);
    crate::filter::lemma_meta_get_after_insert(m2, c, text::decimal(s.scratch_bytes as nat), h);
    crate::filter::lemma_meta_get_after_insert(a, p, flag_text(s.prev_cr), h);
    crate::filter::lemma_meta_get_after_insert(m1, h, flag_text(s.has_data), h);
    assert("false"@ != "true"@) by {
        assert("false"@.len() != "true"@.len());
    }
    // The buffers.
    crate::filter::lemma_meta_get_after_insert(e, t, s.tail@, d);
    crate::filter::lemma_meta_get_after_insert(b, k, s.skip@, d);
    crate::filter::lemma_meta_get_after_insert(m2, c, text::decimal(s.scratch_bytes as nat), d);
    crate::filter::lemma_meta_get_after_insert(a, p, flag_text(s.prev_cr), d);
    crate::filter::lemma_meta_get_after_insert(m1, h, flag_text(s.has_data), d);
    lemma_hex_field_written(x, d, s.data_buf@);
    crate::filter::lemma_meta_get_after_insert(e, t, s.tail@, l);
    crate::filter::lemma_meta_get_after_insert(b, k, s.skip@, l);
    crate::filter::lemma_meta_get_after_insert(m2, c, text::decimal(s.scratch_bytes as nat), l);
    crate::filter::lemma_meta_get_after_insert(a, p, flag_text(s.prev_cr), l);
    crate::filter::lemma_meta_get_after_insert(m1, h, flag_text(s.has_data), l);
    lemma_get_through_hex(x, d, s.data_buf@, l);
    lemma_hex_field_written(m, l, s.line_buf@);
}

} // verus!
