//! Token usage extraction: provider response parsing, normalized counts and
//! the metadata keys they are published under.
//!
//! Counts are carried as a [`TokenUsage`]; the `token_count` filter writes
//! them to request metadata as `token.input`, `token.output`, `token.total`
//! and, where the provider reported them, the prompt cache and reasoning
//! breakdowns.
use vstd::prelude::*;

use crate::filter::{meta_insert, Metadata};
use crate::text;

pub mod count;
pub mod providers;
pub mod stream_usage;
pub mod streaming;

verus! {

/// Metadata key for the input token count.
pub const META_TOKEN_INPUT: &'static str = "token.input";

/// Metadata key for the output token count.
pub const META_TOKEN_OUTPUT: &'static str = "token.output";

/// Metadata key for the total token count.
pub const META_TOKEN_TOTAL: &'static str = "token.total";

/// Metadata key signaling that usage could not be captured because the
/// response exceeded the configured capture limit.
pub const META_TOKEN_STATUS: &'static str = "token.status";

/// Value of `token.status` when capture was abandoned for size.
pub const TOKEN_STATUS_OVERFLOW: &'static str = "overflow";

/// Metadata key for input tokens served from the provider's prompt cache.
pub const META_TOKEN_CACHE_READ: &'static str = "token.cache_read";

/// Metadata key for input tokens written to the provider's prompt cache.
pub const META_TOKEN_CACHE_WRITE: &'static str = "token.cache_write";

/// Metadata key for reasoning / thinking tokens.
pub const META_TOKEN_REASONING: &'static str = "token.reasoning";

/// Unified token usage extracted from an AI provider response.
///
/// The cache and reasoning counts are `None` when the provider did not
/// report them, which is distinct from a reported zero.
#[derive(Debug, Clone, Copy, PartialEq, Eq)]
pub struct TokenUsage {
    /// Tokens in the input/prompt, cached tokens included.
    pub input: u64,
    /// Tokens in the output/completion.
    pub output: u64,
    /// Total tokens.
    pub total: u64,
    /// Input tokens served from the provider's prompt cache.
    pub cache_read: Option<u64>,
    /// Input tokens written to the provider's prompt cache.
    pub cache_write: Option<u64>,
    /// Reasoning / thinking tokens.
    pub reasoning: Option<u64>,
}

/// Usage with no cache or reasoning breakdown, the total computed as the
/// saturating sum of input and output when the provider omitted it.
pub open spec fn usage_new(input: u64, output: u64, total: Option<u64>) -> TokenUsage {
    TokenUsage {
        input,
        output,
        total: match total {
            Some(t) => t,
            None => input.saturating_add(output),
        },
        cache_read: None,
        cache_write: None,
        reasoning: None,
    }
}

impl TokenUsage {
    /// Creates normalized usage, computing a saturating total when omitted.
    pub fn new(input: u64, output: u64, total: Option<u64>) -> (r: TokenUsage)
        ensures
            r == usage_new(input, output, total),
    {
        let total = match total {
            Some(t) => t,
            None => input.saturating_add(output),
        };
        TokenUsage { input, output, total, cache_read: None, cache_write: None, reasoning: None }
    }

    /// Attaches prompt cache counts, which break down the input.
    pub fn with_cache(self, cache_read: Option<u64>, cache_write: Option<u64>) -> (r: TokenUsage)
        ensures
            r == (TokenUsage { cache_read, cache_write, ..self }),
    {
        TokenUsage { cache_read, cache_write, ..self }
    }

    /// Attaches reasoning / thinking tokens.
    pub fn with_reasoning(self, reasoning: Option<u64>) -> (r: TokenUsage)
        ensures
            r == (TokenUsage { reasoning, ..self }),
    {
        TokenUsage { reasoning, ..self }
    }

    /// The normalized input token count, cached tokens included.
    pub fn input_tokens(self) -> (r: u64)
        ensures
            r == self.input,
    {
        self.input
    }

    /// The normalized output token count.
    pub fn output_tokens(self) -> (r: u64)
        ensures
            r == self.output,
    {
        self.output
    }

    /// The provider-supplied or computed total token count.
    pub fn total_tokens(self) -> (r: u64)
        ensures
            r == self.total,
    {
        self.total
    }

    /// Input tokens served from the prompt cache, if reported.
    pub fn cache_read_tokens(self) -> (r: Option<u64>)
        ensures
            r == self.cache_read,
    {
        self.cache_read
    }

    /// Input tokens written to the prompt cache, if reported.
    pub fn cache_write_tokens(self) -> (r: Option<u64>)
        ensures
            r == self.cache_write,
    {
        self.cache_write
    }

    /// Reasoning / thinking tokens, if reported.
    pub fn reasoning_tokens(self) -> (r: Option<u64>)
        ensures
            r == self.reasoning,
    {
        self.reasoning
    }
}

/// Token counts recovered from a single streaming event; every count is
/// optional because providers omit the ones that did not change.
#[derive(Debug, Clone, Copy, PartialEq, Eq)]
pub struct StreamingTokens {
    pub input: Option<u64>,
    pub output: Option<u64>,
    pub cache_read: Option<u64>,
    pub cache_write: Option<u64>,
    pub reasoning: Option<u64>,
}

/// An event that reported nothing.
pub open spec fn no_streaming_tokens() -> StreamingTokens {
    StreamingTokens {
        input: None,
        output: None,
        cache_read: None,
        cache_write: None,
        reasoning: None,
    }
}

impl StreamingTokens {
    /// An event that reported nothing.
    pub fn none() -> (r: StreamingTokens)
        ensures
            r == no_streaming_tokens(),
    {
        StreamingTokens {
            input: None,
            output: None,
            cache_read: None,
            cache_write: None,
            reasoning: None,
        }
    }
}

// -----------------------------------------------------------------------------
// Publishing to metadata
// -----------------------------------------------------------------------------

/// `m` with `key` set to the decimal text of `v`.
pub open spec fn with_count(m: Seq<(Seq<char>, Seq<char>)>, key: Seq<char>, v: u64) -> Seq<
    (Seq<char>, Seq<char>),
> {
    meta_insert(m, key, text::decimal(v as nat))
}

/// `m` with `key` set where a count was reported, unchanged otherwise.
pub open spec fn with_optional_count(
    m: Seq<(Seq<char>, Seq<char>)>,
    key: Seq<char>,
    v: Option<u64>,
) -> Seq<(Seq<char>, Seq<char>)> {
    match v {
        Some(v) => with_count(m, key, v),
        None => m,
    }
}

/// `m` with the input, output and total counts published.
pub open spec fn with_token_counts(
    m: Seq<(Seq<char>, Seq<char>)>,
    input: u64,
    output: u64,
    total: Option<u64>,
) -> Seq<(Seq<char>, Seq<char>)> {
    let t = match total {
        Some(t) => t,
        None => input.saturating_add(output),
    };
    with_count(
        with_count(with_count(m, META_TOKEN_INPUT@, input), META_TOKEN_OUTPUT@, output),
        META_TOKEN_TOTAL@,
        t,
    )
}

/// `m` with a whole usage published: counts, then the cache breakdown, then
/// the reasoning count, each breakdown only where reported.
pub open spec fn with_usage(m: Seq<(Seq<char>, Seq<char>)>, u: TokenUsage) -> Seq<
    (Seq<char>, Seq<char>),
> {
    with_optional_count(
        with_optional_count(
            with_optional_count(
                with_token_counts(m, u.input, u.output, Some(u.total)),
                META_TOKEN_CACHE_READ@,
                u.cache_read,
            ),
            META_TOKEN_CACHE_WRITE@,
            u.cache_write,
        ),
        META_TOKEN_REASONING@,
        u.reasoning,
    )
}

/// Writes one count as decimal text.
pub fn set_count(ctx: &mut Metadata, key: &str, v: u64)
    ensures
        final(ctx)@ == with_count(old(ctx)@, key@, v),
{
    ctx.set(key, text::u64_to_decimal(v));
}

/// Writes one optional count; skips the key when the provider omitted it.
pub fn set_optional_count(ctx: &mut Metadata, key: &str, value: Option<u64>)
    ensures
        final(ctx)@ == with_optional_count(old(ctx)@, key@, value),
{
    if let Some(v) = value {
        set_count(ctx, key, v);
    }
}

/// Stores normalized token usage for downstream filters.
pub fn set_token_usage(ctx: &mut Metadata, input: u64, output: u64, total: Option<u64>)
    ensures
        final(ctx)@ == with_token_counts(old(ctx)@, input, output, total),
{
    let total = match total {
        Some(t) => t,
        None => input.saturating_add(output),
    };
    set_count(ctx, META_TOKEN_INPUT, input);
    set_count(ctx, META_TOKEN_OUTPUT, output);
    set_count(ctx, META_TOKEN_TOTAL, total);
}

/// Marks token usage as unavailable because the capture limit was exceeded.
pub fn set_token_status_overflow(ctx: &mut Metadata)
    ensures
        final(ctx)@ == meta_insert(old(ctx)@, META_TOKEN_STATUS@, TOKEN_STATUS_OVERFLOW@),
{
    ctx.set(META_TOKEN_STATUS, text::owned(TOKEN_STATUS_OVERFLOW));
}

/// Stores the prompt cache breakdown, each count only where reported.
pub fn set_cache_token_usage(ctx: &mut Metadata, cache_read: Option<u64>, cache_write: Option<u64>)
    ensures
        final(ctx)@ == with_optional_count(
            with_optional_count(old(ctx)@, META_TOKEN_CACHE_READ@, cache_read),
            META_TOKEN_CACHE_WRITE@,
            cache_write,
        ),
{
    set_optional_count(ctx, META_TOKEN_CACHE_READ, cache_read);
    set_optional_count(ctx, META_TOKEN_CACHE_WRITE, cache_write);
}

/// Stores reasoning / thinking tokens when the provider reported them.
pub fn set_reasoning_token_usage(ctx: &mut Metadata, reasoning: Option<u64>)
    ensures
        final(ctx)@ == with_optional_count(old(ctx)@, META_TOKEN_REASONING@, reasoning),
{
    set_optional_count(ctx, META_TOKEN_REASONING, reasoning);
}

/// Writes normalized totals plus any reported cache and reasoning breakdowns.
pub fn publish_token_usage(ctx: &mut Metadata, usage: TokenUsage)
    ensures
        final(ctx)@ == with_usage(old(ctx)@, usage),
{
    set_token_usage(ctx, usage.input_tokens(), usage.output_tokens(), Some(usage.total_tokens()));
    set_cache_token_usage(ctx, usage.cache_read_tokens(), usage.cache_write_tokens());
    set_reasoning_token_usage(ctx, usage.reasoning_tokens());
}

} // verus!
