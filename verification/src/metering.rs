//! The `external_metering` filter: pre-request balance checks and
//! post-response token usage reporting, as CloudEvents, to an external
//! metering service.
//!
//! Token counts are read from the metadata that `token_count` publishes
//! (`token.input`, `token.output`, `token.total`, `token.cache_read`,
//! `token.cache_write`). This module holds every decision the filter makes;
//! the HTTP calls themselves are made by the caller, which hands the outcome
//! back (see [`CalloutOutcome`]).
use vstd::prelude::*;
use vstd::utf8::{decode_utf8, encode_utf8, valid_utf8};

use crate::filter::{
    entries_view, header_text, meta_get, meta_insert, utf8_bytes, FilterAction, FilterError, Headers,
    Metadata, Rejection, BodyAccess, BodyMode,
};
use crate::json::{add_member, object, str_value, to_json_bytes, json_bytes, JsonNumber, JsonSpec, JsonValue};
use crate::text::{self, ascii_lower_seq, decimal, is_prefix, parse_u64_spec, strings_view};
use crate::token_usage::{
    META_TOKEN_CACHE_READ, META_TOKEN_CACHE_WRITE, META_TOKEN_INPUT, META_TOKEN_OUTPUT,
    META_TOKEN_TOTAL,
};

verus! {

// -----------------------------------------------------------------------------
// Configuration
// -----------------------------------------------------------------------------

/// Default HTTP timeout for metering service calls (seconds).
pub const DEFAULT_TIMEOUT_SECONDS: u64 = 5;

/// Milliseconds in one second.
pub const MILLIS_PER_SECOND: u64 = 1000;

/// `CloudEvents` spec version.
pub const CE_SPEC_VERSION: &'static str = "1.0";

/// `CloudEvent` type for provider error responses.
pub const CE_TYPE_ERROR: &'static str = "inference.request.error";

/// `CloudEvent` type for successful token usage.
pub const CE_TYPE_USAGE: &'static str = "inference.tokens.used";

/// Metadata key holding the resolved model name.
pub const META_METERING_MODEL: &'static str = "metering.model";

/// Status returned when the tenant has no remaining token budget.
pub const STATUS_BUDGET_EXHAUSTED: u16 = 429;

/// Status returned when metering is unreachable and `fail_open` is off.
pub const STATUS_METERING_UNAVAILABLE: u16 = 503;

/// Configuration of the `external_metering` filter.
pub struct ExternalMeteringConfig {
    /// Base URL of the external metering service.
    pub metering_url: String,
    /// HTTP timeout in seconds for all metering calls.
    pub timeout_seconds: u64,
    /// Entitlement feature key used in the balance check path.
    pub feature_key: String,
    /// `CloudEvents` `source` field value.
    pub source: String,
    /// Whether requests proceed when the metering service is unavailable.
    pub fail_open: bool,
    /// Prefix of the tenant identity headers to capture and strip.
    pub identity_header_prefix: String,
    /// Username metered when no identity is present; unset: not metered.
    pub default_username: Option<String>,
    /// Model reported when none is known.
    pub default_model: Option<String>,
}

/// Default for `timeout_seconds`.
pub fn default_timeout_seconds() -> (r: u64)
    ensures
        r == DEFAULT_TIMEOUT_SECONDS,
{
    DEFAULT_TIMEOUT_SECONDS
}

/// Default for `feature_key`.
pub fn default_feature_key() -> (r: String)
    ensures
        r@ == "inference-tokens"@,
{
    text::owned("inference-tokens")
}

/// Default for `source`.
pub fn default_source() -> (r: String)
    ensures
        r@ == "ai-gateway"@,
{
    text::owned("ai-gateway")
}

/// Default for `fail_open`.
pub fn default_true() -> (r: bool)
    ensures
        r,
{
    true
}

/// Default for `identity_header_prefix`.
pub fn default_identity_header_prefix() -> (r: String)
    ensures
        r@ == "x-tenant-"@,
{
    text::owned("x-tenant-")
}

/// What validation of a configuration gives: the first problem, if any.
pub open spec fn config_error(cfg: ExternalMeteringConfig) -> Option<Seq<char>> {
    if cfg.metering_url@.len() == 0 {
        Some("external_metering: metering_url must not be empty"@)
    } else if cfg.timeout_seconds == 0 {
        Some("external_metering: timeout_seconds must be greater than 0"@)
    } else if cfg.identity_header_prefix@.len() == 0 {
        Some("external_metering: identity_header_prefix must not be empty"@)
    } else {
        None
    }
}

/// Validates a configuration.
pub fn validate_config(cfg: &ExternalMeteringConfig) -> (r: Result<(), FilterError>)
    ensures
        match r {
            Ok(()) => config_error(*cfg) is None,
            Err(e) => config_error(*cfg) == Some(e.message@),
        },
{
    if cfg.metering_url.as_str().is_empty() {
        return Err(FilterError::new(text::owned("external_metering: metering_url must not be empty")));
    }
    if cfg.timeout_seconds == 0 {
        return Err(
            FilterError::new(text::owned("external_metering: timeout_seconds must be greater than 0")),
        );
    }
    if cfg.identity_header_prefix.as_str().is_empty() {
        return Err(
            FilterError::new(
                text::owned("external_metering: identity_header_prefix must not be empty"),
            ),
        );
    }
    Ok(())
}

/// The callout timeout in milliseconds: the configured seconds times 1000,
/// saturating at `u64::MAX`.
pub fn timeout_millis(timeout_seconds: u64) -> (r: u64)
    ensures
        r == (if timeout_seconds * 1000 > u64::MAX {
            u64::MAX as int
        } else {
            timeout_seconds * 1000
        }),
{
    if timeout_seconds > u64::MAX / MILLIS_PER_SECOND {
        u64::MAX
    } else {
        timeout_seconds * MILLIS_PER_SECOND
    }
}

/// Integrates with an external metering service: its settings.
pub struct ExternalMeteringFilter {
    /// Model reported when neither the identity nor the body reveals one.
    pub default_model: Option<String>,
    /// Username reported when no identity is present; unset: not metered.
    pub default_username: Option<String>,
    /// Whether to admit requests when the metering service is unreachable.
    pub fail_open: bool,
    /// Entitlement feature key used in the balance check path.
    pub feature_key: String,
    /// Prefix of the tenant identity headers to capture and strip.
    pub identity_header_prefix: String,
    /// Base URL of the external metering service.
    pub metering_url: String,
    /// `CloudEvents` `source` attribute for emitted events.
    pub source: String,
}

// -----------------------------------------------------------------------------
// Balance check decisions
// -----------------------------------------------------------------------------

/// How a metering callout ended.
pub enum CalloutOutcome {
    /// The service answered with a 2xx status.
    Success { status: u16, body: Vec<u8> },
    /// The request failed at the transport level.
    Failed,
    /// The service answered with another status.
    Rejected { status: u16, body: Vec<u8> },
}

/// Classifies a response: 2xx is a success, anything else a rejection.
pub fn classify_response(status: u16, body: Vec<u8>) -> (r: CalloutOutcome)
    ensures
        200 <= status < 300 ==> (r matches CalloutOutcome::Success { status: s, body: b } && s
            == status && b@ == body@),
        !(200 <= status < 300) ==> (r matches CalloutOutcome::Rejected { status: s, body: b } && s
            == status && b@ == body@),
{
    if 200 <= status && status < 300 {
        CalloutOutcome::Success { status, body }
    } else {
        CalloutOutcome::Rejected { status, body }
    }
}

/// The bytes of a rejection body text.
pub open spec fn text_bytes(s: Seq<char>) -> Seq<u8> {
    encode_utf8(s)
}

/// Whether an action is a rejection with the given status and body text and
/// no headers.
pub open spec fn is_rejection(a: FilterAction, status: u16, body: Seq<char>) -> bool {
    a matches FilterAction::Reject(rej) && rej.status == status && rej.headers.len() == 0
        && crate::filter::body_bytes(rej.body) == Some(text_bytes(body))
}

/// A rejection with a text body.
fn reject_with(status: u16, body: &str) -> (r: FilterAction)
    ensures
        is_rejection(r, status, body@),
{
    FilterAction::Reject(Rejection { status, headers: Vec::new(), body: Some(utf8_bytes(body)) })
}

/// Rejects with 429: the tenant has no remaining token budget.
pub fn reject_budget_exhausted() -> (r: FilterAction)
    ensures
        is_rejection(r, STATUS_BUDGET_EXHAUSTED, "token budget exhausted"@),
{
    reject_with(STATUS_BUDGET_EXHAUSTED, "token budget exhausted")
}

/// Rejects with 503: metering could not authorize the request.
pub fn reject_unavailable() -> (r: FilterAction)
    ensures
        is_rejection(r, STATUS_METERING_UNAVAILABLE, "metering system unavailable"@),
{
    reject_with(STATUS_METERING_UNAVAILABLE, "metering system unavailable")
}

/// Admits the request when failing open, rejects it with 503 otherwise.
pub fn admit_or_reject(fail_open: bool) -> (r: FilterAction)
    ensures
        fail_open ==> r is Continue,
        !fail_open ==> is_rejection(r, STATUS_METERING_UNAVAILABLE, "metering system unavailable"@),
{
    if fail_open {
        FilterAction::Continue
    } else {
        reject_unavailable()
    }
}

/// `hasAccess` as serde's derived `Deserialize` reads a struct with one
/// required `bool` field: from an object, or from an array of exactly one
/// element; `None` where that fails.
pub open spec fn balance_field(doc: JsonSpec) -> Option<bool> {
    match doc {
        JsonSpec::Obj(_) => match crate::json::member(doc, "hasAccess"@) {
            Some(JsonSpec::Bool(b)) => Some(b),
            _ => None,
        },
        JsonSpec::Arr(items) => if items.len() == 1 {
            match items[0] {
                JsonSpec::Bool(b) => Some(b),
                _ => None,
            }
        } else {
            None
        },
        _ => None,
    }
}

/// What a balance body says: `None` for an empty or unreadable body,
/// otherwise whether the tenant has access.
pub open spec fn balance_of(body: Seq<u8>) -> Option<bool> {
    if body.len() == 0 {
        None
    } else {
        match crate::json::json_parse(body) {
            Some(v) => balance_field(v@),
            None => None,
        }
    }
}

/// Decodes a balance payload.
pub fn decode_balance(body: &[u8]) -> (r: Option<bool>)
    ensures
        r == balance_of(body@),
{
    if body.len() == 0 {
        return None;
    }
    let v = match crate::json::parse_json(body) {
        Some(v) => v,
        None => return None,
    };
    match &v {
        JsonValue::Obj(f) => {
            proof {
                crate::json::lemma_obj_view(*f);
            }
            crate::json::read_bool(&v, "hasAccess")
        },
        JsonValue::Arr(items) => {
            proof {
                crate::json::lemma_arr_view(*items);
            }
            if items.len() == 1 {
                match &items[0] {
                    JsonValue::Bool(b) => Some(*b),
                    _ => None,
                }
            } else {
                None
            }
        },
        _ => None,
    }
}

/// What the filter does with a balance answer.
pub open spec fn balance_action_ok(a: FilterAction, body: Seq<u8>, fail_open: bool) -> bool {
    match balance_of(body) {
        Some(true) => a is Continue,
        Some(false) => is_rejection(a, STATUS_BUDGET_EXHAUSTED, "token budget exhausted"@),
        None => if fail_open {
            a is Continue
        } else {
            is_rejection(a, STATUS_METERING_UNAVAILABLE, "metering system unavailable"@)
        },
    }
}

/// Interprets a balance check response body.
pub fn parse_balance_result(body: &[u8], fail_open: bool) -> (r: FilterAction)
    ensures
        balance_action_ok(r, body@, fail_open),
{
    match decode_balance(body) {
        None => admit_or_reject(fail_open),
        Some(true) => FilterAction::Continue,
        Some(false) => reject_budget_exhausted(),
    }
}

impl ExternalMeteringFilter {
    /// Builds the filter settings from a validated configuration.
    pub fn from_config(cfg: ExternalMeteringConfig) -> (r: Result<ExternalMeteringFilter, FilterError>)
        ensures
            match r {
                Err(e) => config_error(cfg) == Some(e.message@),
                Ok(f) => {
                    &&& config_error(cfg) is None
                    &&& f.metering_url@ == cfg.metering_url@
                    &&& f.feature_key@ == cfg.feature_key@
                    &&& f.source@ == cfg.source@
                    &&& f.fail_open == cfg.fail_open
                    &&& f.identity_header_prefix@ == cfg.identity_header_prefix@
                    &&& f.default_username == cfg.default_username
                    &&& f.default_model == cfg.default_model
                },
            },
    {
        validate_config(&cfg)?;
        Ok(
            ExternalMeteringFilter {
                default_model: cfg.default_model,
                default_username: cfg.default_username,
                fail_open: cfg.fail_open,
                feature_key: cfg.feature_key,
                identity_header_prefix: cfg.identity_header_prefix,
                metering_url: cfg.metering_url,
                source: cfg.source,
            },
        )
    }

    /// The filter's registered name.
    pub fn name(&self) -> (r: &'static str)
        ensures
            r@ == "external_metering"@,
    {
        "external_metering"
    }

    /// Request bodies are read, chunk by chunk.
    pub fn request_body_access(&self) -> (r: BodyAccess)
        ensures
            r == BodyAccess::ReadOnly,
    {
        BodyAccess::ReadOnly
    }

    /// Request bodies stream.
    pub fn request_body_mode(&self) -> (r: BodyMode)
        ensures
            r == BodyMode::Stream,
    {
        BodyMode::Stream
    }

    /// Response bodies are read, chunk by chunk.
    pub fn response_body_access(&self) -> (r: BodyAccess)
        ensures
            r == BodyAccess::ReadOnly,
    {
        BodyAccess::ReadOnly
    }

    /// Response bodies stream.
    pub fn response_body_mode(&self) -> (r: BodyMode)
        ensures
            r == BodyMode::Stream,
    {
        BodyMode::Stream
    }

    /// The action when the balance check cannot be completed.
    pub fn on_metering_unavailable(&self) -> (r: FilterAction)
        ensures
            self.fail_open ==> r is Continue,
            !self.fail_open ==> is_rejection(
                r,
                STATUS_METERING_UNAVAILABLE,
                "metering system unavailable"@,
            ),
    {
        admit_or_reject(self.fail_open)
    }

    /// The action for the outcome of a balance check: a 2xx answer is read,
    /// anything else counts as the service being unavailable.
    pub fn balance_decision(&self, outcome: &CalloutOutcome) -> (r: FilterAction)
        ensures
            outcome matches CalloutOutcome::Success { body, .. } ==> balance_action_ok(
                r,
                body@,
                self.fail_open,
            ),
            !(outcome is Success) ==> (self.fail_open ==> r is Continue) && (!self.fail_open
                ==> is_rejection(r, STATUS_METERING_UNAVAILABLE, "metering system unavailable"@)),
    {
        match outcome {
            CalloutOutcome::Success { body, .. } => parse_balance_result(body.as_slice(), self.fail_open),
            CalloutOutcome::Failed => self.on_metering_unavailable(),
            CalloutOutcome::Rejected { .. } => self.on_metering_unavailable(),
        }
    }
}

// -----------------------------------------------------------------------------
// Identity capture
// -----------------------------------------------------------------------------

/// Tenant identity as carried by metadata or headers.
pub struct Identity {
    /// Value of `{prefix}group`.
    pub group: String,
    /// Value of `{prefix}model`.
    pub model: String,
    /// Value of `{prefix}subscription`.
    pub subscription: String,
    /// Value of `{prefix}username`.
    pub username: String,
}

/// The content of an identity: (group, model, subscription, username).
pub open spec fn id_view(i: Identity) -> (Seq<char>, Seq<char>, Seq<char>, Seq<char>) {
    (i.group@, i.model@, i.subscription@, i.username@)
}

/// The metadata value under `k`, or `d`.
pub open spec fn meta_or(m: Seq<(Seq<char>, Seq<char>)>, k: Seq<char>, d: Seq<char>) -> Seq<char> {
    match meta_get(m, k) {
        Some(v) => v,
        None => d,
    }
}

/// The four identity values read from metadata keys `{base}group`,
/// `{base}model`, `{base}subscription` and `{base}username`, each falling
/// back to the value in `d`.
pub open spec fn meta_identity(
    m: Seq<(Seq<char>, Seq<char>)>,
    base: Seq<char>,
    d: (Seq<char>, Seq<char>, Seq<char>, Seq<char>),
) -> (Seq<char>, Seq<char>, Seq<char>, Seq<char>) {
    (
        meta_or(m, base + "group"@, d.0),
        meta_or(m, base + "model"@, d.1),
        meta_or(m, base + "subscription"@, d.2),
        meta_or(m, base + "username"@, d.3),
    )
}

/// The text of a header value, empty where it is not text.
pub open spec fn value_text(v: Option<String>) -> Seq<char> {
    match v {
        Some(s) => s@,
        None => Seq::empty(),
    }
}

/// One raw header applied to an identity: a `{prefix}{field}` header fills
/// that field where it is still empty.
pub open spec fn apply_header(
    pl: Seq<char>,
    e: (String, Option<String>),
    id: (Seq<char>, Seq<char>, Seq<char>, Seq<char>),
) -> (Seq<char>, Seq<char>, Seq<char>, Seq<char>) {
    let kl = ascii_lower_seq(e.0@);
    if is_prefix(pl, kl) {
        let suffix = kl.subrange(pl.len() as int, kl.len() as int);
        let val = value_text(e.1);
        if suffix == "group"@ && id.0.len() == 0 {
            (val, id.1, id.2, id.3)
        } else if suffix == "model"@ && id.1.len() == 0 {
            (id.0, val, id.2, id.3)
        } else if suffix == "subscription"@ && id.2.len() == 0 {
            (id.0, id.1, val, id.3)
        } else if suffix == "username"@ && id.3.len() == 0 {
            (id.0, id.1, id.2, val)
        } else {
            id
        }
    } else {
        id
    }
}

/// Raw headers applied in order.
pub open spec fn header_identity(
    pl: Seq<char>,
    h: Seq<(String, Option<String>)>,
    id: (Seq<char>, Seq<char>, Seq<char>, Seq<char>),
) -> (Seq<char>, Seq<char>, Seq<char>, Seq<char>)
    decreases h.len(),
{
    if h.len() == 0 {
        id
    } else {
        apply_header(pl, h.last(), header_identity(pl, h.drop_last(), id))
    }
}

/// The names of the headers whose ASCII-lowercased name starts with `pl`,
/// in order.
pub open spec fn prefixed_names(pl: Seq<char>, h: Seq<(String, Option<String>)>) -> Seq<Seq<char>>
    decreases h.len(),
{
    if h.len() == 0 {
        Seq::empty()
    } else {
        let rest = prefixed_names(pl, h.drop_last());
        if is_prefix(pl, ascii_lower_seq(h.last().0@)) {
            rest.push(h.last().0@)
        } else {
            rest
        }
    }
}

/// The identity, resolved in three tiers: unnamespaced metadata (verified
/// claims) first; when that gives no username, the `identity.`-namespaced
/// metadata; when still no username, the raw headers.
pub open spec fn resolved_identity(
    prefix: Seq<char>,
    m: Seq<(Seq<char>, Seq<char>)>,
    h: Seq<(String, Option<String>)>,
) -> (Seq<char>, Seq<char>, Seq<char>, Seq<char>) {
    let pl = ascii_lower_seq(prefix);
    let empty = Seq::<char>::empty();
    let t1 = meta_identity(m, pl, (empty, empty, empty, empty));
    if t1.3.len() > 0 {
        t1
    } else {
        let t2 = meta_identity(m, "identity."@ + pl, t1);
        if t2.3.len() == 0 {
            header_identity(pl, h, t2)
        } else {
            t2
        }
    }
}

/// Reads a metadata value into `field` where the key is present.
fn fill_from_meta(field: &mut String, metadata: &Metadata, key: &str)
    ensures
        final(field)@ == meta_or(metadata@, key@, old(field)@),
{
    match metadata.get(key) {
        Some(v) => {
            *field = text::owned(v.as_str());
        },
        None => {},
    }
}

/// Reads the four identity keys under `base` from the metadata.
fn fill_identity_from_meta(id: &mut Identity, metadata: &Metadata, base: &str)
    ensures
        id_view(*final(id)) == meta_identity(metadata@, base@, id_view(*old(id))),
{
    let k = text::concat(base, "group");
    fill_from_meta(&mut id.group, metadata, k.as_str());
    let k = text::concat(base, "model");
    fill_from_meta(&mut id.model, metadata, k.as_str());
    let k = text::concat(base, "subscription");
    fill_from_meta(&mut id.subscription, metadata, k.as_str());
    let k = text::concat(base, "username");
    fill_from_meta(&mut id.username, metadata, k.as_str());
}

/// Applies one raw header to the identity.
fn apply_raw_header(id: &mut Identity, pl: &str, name: &String, value: &Option<String>)
    ensures
        id_view(*final(id)) == apply_header(pl@, (*name, *value), id_view(*old(id))),
{
    let kl = text::to_ascii_lowercase(name.as_str());
    if !text::starts_with(kl.as_str(), pl) {
        return;
    }
    let kc = text::chars_of(kl.as_str());
    let pc = text::chars_of(pl);
    let suffix = text::string_from_chars(text::copy_range(kc.as_slice(), pc.len(), kc.len()).as_slice());
    let val = match value {
        Some(v) => text::owned(v.as_str()),
        None => String::new(),
    };
    if text::str_eq(suffix.as_str(), "group") && id.group.as_str().is_empty() {
        id.group = val;
    } else if text::str_eq(suffix.as_str(), "model") && id.model.as_str().is_empty() {
        id.model = val;
    } else if text::str_eq(suffix.as_str(), "subscription") && id.subscription.as_str().is_empty() {
        id.subscription = val;
    } else if text::str_eq(suffix.as_str(), "username") && id.username.as_str().is_empty() {
        id.username = val;
    }
}

/// Reads the identity in three tiers and lists the identity headers for
/// removal, whichever tier supplied the identity.
pub fn read_identity_headers(
    headers: &Headers,
    metadata: &Metadata,
    prefix: &str,
    to_remove: &mut Vec<String>,
) -> (r: Identity)
    ensures
        id_view(r) == resolved_identity(prefix@, metadata@, headers.entries@),
        strings_view(final(to_remove)@) == strings_view(old(to_remove)@) + prefixed_names(
            ascii_lower_seq(prefix@),
            headers.entries@,
        ),
{
    let pl = text::to_ascii_lowercase(prefix);
    let mut id = Identity {
        group: String::new(),
        model: String::new(),
        subscription: String::new(),
        username: String::new(),
    };
    fill_identity_from_meta(&mut id, metadata, pl.as_str());
    let verified = !id.username.as_str().is_empty();
    if !verified {
        let base = text::concat("identity.", pl.as_str());
        fill_identity_from_meta(&mut id, metadata, base.as_str());
    }
    let use_headers = !verified && id.username.as_str().is_empty();
    let ghost h = headers.entries@;
    let ghost id0 = id_view(id);
    let ghost r0 = strings_view(to_remove@);
    let mut i: usize = 0;
    while i < headers.entries.len()
        invariant
            i <= headers.entries.len(),
            h == headers.entries@,
            use_headers ==> id_view(id) == header_identity(pl@, h.take(i as int), id0),
            !use_headers ==> id_view(id) == id0,
            strings_view(to_remove@) == r0 + prefixed_names(pl@, h.take(i as int)),
        decreases headers.entries.len() - i,
    {
        proof {
            assert(h.take(i as int + 1).drop_last() =~= h.take(i as int));
            assert(h.take(i as int + 1).last() == h[i as int]);
        }
        let name = &headers.entries[i].0;
        if use_headers {
            apply_raw_header(&mut id, pl.as_str(), name, &headers.entries[i].1);
        }
        let kl = text::to_ascii_lowercase(name.as_str());
        if text::starts_with(kl.as_str(), pl.as_str()) {
            let ghost before = to_remove@;
            to_remove.push(text::owned(name.as_str()));
            assert(strings_view(to_remove@) =~= strings_view(before).push(name@));
        }
        i = i + 1;
    }
    assert(h.take(h.len() as int) =~= h);
    id
}

/// Per-request identity state captured in the request phase and consumed
/// in the response phase.
pub struct MeteringState {
    /// Tenant group, falling back to the subscription when absent.
    pub group: String,
    /// Whether the upstream returned a non-success status.
    pub is_error: bool,
    /// Model attributed to this request.
    pub model: String,
    /// Upstream response status, reported on error events.
    pub response_status: u16,
    /// Tenant subscription identifier.
    pub subscription: String,
    /// Client user agent.
    pub user_agent: String,
    /// Tenant username; empty means the request is not metered.
    pub username: String,
}

/// The user agent header text, or empty.
pub open spec fn user_agent_of(h: Seq<(String, Option<String>)>) -> Seq<char> {
    match header_text(h, "user-agent"@) {
        Some(v) => v,
        None => Seq::empty(),
    }
}

/// Whether a state holds the captured identity: the resolved values, the
/// group falling back to the subscription, the user agent, and no response
/// yet.
pub open spec fn captured(s: MeteringState, prefix: Seq<char>, m: Seq<(Seq<char>, Seq<char>)>, h: Seq<
    (String, Option<String>),
>) -> bool {
    let id = resolved_identity(prefix, m, h);
    &&& s.group@ == (if id.0.len() == 0 {
        id.2
    } else {
        id.0
    })
    &&& s.model@ == id.1
    &&& s.subscription@ == id.2
    &&& s.username@ == id.3
    &&& s.user_agent@ == user_agent_of(h)
    &&& !s.is_error
    &&& s.response_status == 0
}

/// The headers always removed: client credentials, and `accept-encoding` so
/// that the upstream answers uncompressed and usage stays readable.
pub open spec fn credential_headers() -> Seq<Seq<char>> {
    seq!["authorization"@, "accept-encoding"@, "x-api-key"@]
}

/// Captures the tenant identity and lists the identity headers and client
/// credentials for removal.
pub fn capture_identity(
    headers: &Headers,
    metadata: &Metadata,
    prefix: &str,
    to_remove: &mut Vec<String>,
) -> (r: MeteringState)
    ensures
        captured(r, prefix@, metadata@, headers.entries@),
        strings_view(final(to_remove)@) == strings_view(old(to_remove)@) + prefixed_names(
            ascii_lower_seq(prefix@),
            headers.entries@,
        ) + credential_headers(),
{
    let user_agent = match headers.get_str("user-agent") {
        Some(v) => text::owned(v.as_str()),
        None => String::new(),
    };
    let mut identity = read_identity_headers(headers, metadata, prefix, to_remove);
    strip_client_credentials(to_remove);
    if identity.group.as_str().is_empty() {
        identity.group = text::owned(identity.subscription.as_str());
    }
    MeteringState {
        group: identity.group,
        is_error: false,
        model: identity.model,
        response_status: 0,
        subscription: identity.subscription,
        user_agent,
        username: identity.username,
    }
}

/// Lists client-supplied credentials (and `accept-encoding`) for removal.
pub fn strip_client_credentials(to_remove: &mut Vec<String>)
    ensures
        strings_view(final(to_remove)@) == strings_view(old(to_remove)@) + credential_headers(),
{
    to_remove.push(text::owned("authorization"));
    to_remove.push(text::owned("accept-encoding"));
    to_remove.push(text::owned("x-api-key"));
    assert(strings_view(to_remove@) =~= strings_view(old(to_remove)@) + credential_headers());
}

// -----------------------------------------------------------------------------
// Model from the request body
// -----------------------------------------------------------------------------

/// The position of the first occurrence of `needle` in `hay`.
#[verifier::opaque]
pub open spec fn first_occurrence(hay: Seq<char>, needle: Seq<char>) -> Option<int> {
    if exists|i: int| text::occurs_at(hay, needle, i) {
        Some(
            choose|i: int|
                text::occurs_at(hay, needle, i) && forall|j: int|
                    0 <= j < i ==> !text::occurs_at(hay, needle, j),
        )
    } else {
        None
    }
}

/// Position of the first occurrence of `needle` in `hay`.
fn find_first(hay: &[char], needle: &[char]) -> (r: Option<usize>)
    ensures
        r matches Some(i) ==> text::occurs_at(hay@, needle@, i as int),
        match r {
            Some(i) => first_occurrence(hay@, needle@) == Some(i as int),
            None => first_occurrence(hay@, needle@) is None,
        },
{
    let r = text::find_chars(hay, needle);
    proof {
        reveal(first_occurrence);
    }
    match r {
        Some(i) => proof {
            let c = choose|k: int|
                text::occurs_at(hay@, needle@, k) && forall|j: int|
                    0 <= j < k ==> !text::occurs_at(hay@, needle@, j);
            assert(text::occurs_at(hay@, needle@, i as int));
            assert(text::occurs_at(hay@, needle@, c) && forall|j: int|
                0 <= j < c ==> !text::occurs_at(hay@, needle@, j));
            if c < i {
                assert(!text::occurs_at(hay@, needle@, c));
            } else if c > i {
                assert(!text::occurs_at(hay@, needle@, i as int));
            }
        },
        None => {},
    }
    r
}

/// The `"model"` key.
pub open spec fn model_key() -> Seq<char> {
    seq!['"', 'm', 'o', 'd', 'e', 'l', '"']
}

/// What follows a `"model"` key: optional whitespace, `:`, optional
/// whitespace and `"`, then the characters up to the next `"`; `None` where
/// any of these is missing.
pub open spec fn model_value_after(a: Seq<char>) -> Option<Seq<char>> {
    let b = text::trim_start_seq(a);
    if b.len() > 0 && b[0] == ':' {
        let c = text::trim_start_seq(b.subrange(1, b.len() as int));
        if c.len() > 0 && c[0] == '"' {
            let d = c.subrange(1, c.len() as int);
            match first_occurrence(d, seq!['"']) {
                Some(e) => Some(d.subrange(0, e)),
                None => None,
            }
        } else {
            None
        }
    } else {
        None
    }
}

/// The value of the first `"model": "..."` pair in a text.
pub open spec fn model_in_text(t: Seq<char>) -> Option<Seq<char>> {
    match first_occurrence(t, model_key()) {
        None => None,
        Some(p) => model_value_after(t.subrange(p + 7, t.len() as int)),
    }
}

/// The model named by a body chunk: `None` for a chunk that is not UTF-8.
pub open spec fn model_in_bytes(bytes: Seq<u8>) -> Option<Seq<char>> {
    if valid_utf8(bytes) {
        model_in_text(decode_utf8(bytes))
    } else {
        None
    }
}

/// The text of a byte slice, where it is UTF-8.
///
/// Calls std's `str::from_utf8`, which succeeds exactly on valid UTF-8 and
/// then reads the characters that the bytes encode; the contract says so.
#[verifier::external_body]
fn utf8_text(bytes: &[u8]) -> (r: Option<String>)
    ensures
        r is Some <==> valid_utf8(bytes@),
        r matches Some(s) ==> s@ == decode_utf8(bytes@),
{
    std::str::from_utf8(bytes).ok().map(|s| s.to_owned())
}

/// Extracts the `model` value from a JSON body chunk without parsing it
/// whole.
pub fn extract_model_from_bytes(bytes: &[u8]) -> (r: Option<String>)
    ensures
        match r {
            Some(m) => model_in_bytes(bytes@) == Some(m@),
            None => model_in_bytes(bytes@) is None,
        },
{
    let t = match utf8_text(bytes) {
        Some(t) => t,
        None => return None,
    };
    let tc = text::chars_of(t.as_str());
    let key: Vec<char> = text::chars_of("\"model\"");
    proof {
        reveal_strlit("\"model\"");
        assert(key@ =~= model_key());
    }
    let p = match find_first(tc.as_slice(), key.as_slice()) {
        Some(p) => p,
        None => return None,
    };
    assert(text::occurs_at(tc@, key@, p as int));
    assert(key@.len() == 7);
    let n = tc.len();
    assert(p + 7 <= n);
    let start: usize = p + 7;
    let a = text::copy_range(tc.as_slice(), start, tc.len());
    value_after_key(a.as_slice())
}

/// Reads the quoted value that follows a `"model"` key.
fn value_after_key(a: &[char]) -> (r: Option<String>)
    ensures
        match r {
            Some(m) => model_value_after(a@) == Some(m@),
            None => model_value_after(a@) is None,
        },
{
    let sa = text::leading_spaces(a);
    let b = text::copy_range(a, sa, a.len());
    assert(b@ == text::trim_start_seq(a@));
    if !(b.len() > 0 && b[0] == ':') {
        return None;
    }
    let b1 = text::copy_range(b.as_slice(), 1, b.len());
    let sc = text::leading_spaces(b1.as_slice());
    let c = text::copy_range(b1.as_slice(), sc, b1.len());
    assert(c@ == text::trim_start_seq(b@.subrange(1, b@.len() as int)));
    if !(c.len() > 0 && c[0] == '"') {
        return None;
    }
    let d = text::copy_range(c.as_slice(), 1, c.len());
    let mut quote: Vec<char> = Vec::new();
    quote.push('"');
    assert(quote@ =~= seq!['"']);
    let e = match find_first(d.as_slice(), quote.as_slice()) {
        Some(e) => e,
        None => return None,
    };
    let v = text::copy_range(d.as_slice(), 0, e);
    Some(text::string_from_chars(v.as_slice()))
}

// -----------------------------------------------------------------------------
// Balance check URL
// -----------------------------------------------------------------------------

/// ASCII bytes escaped in a path segment: the controls and
/// ``space " # % / : < > ? @ ` { }``.
pub open spec fn in_path_segment_set(b: u8) -> bool {
    b < 0x20 || b == 0x7f || b == 0x20 || b == 0x22 || b == 0x23 || b == 0x25 || b == 0x2f || b
        == 0x3a || b == 0x3c || b == 0x3e || b == 0x3f || b == 0x40 || b == 0x60 || b == 0x7b || b
        == 0x7d
}

/// Uppercase hex digit.
pub open spec fn upper_hex(d: u8) -> char {
    if d < 10 {
        (d + 48) as char
    } else {
        (d + 55) as char
    }
}

/// One byte, percent-encoded: non-ASCII bytes and bytes of the set become
/// `%XX` (uppercase), the others stay as they are.
pub open spec fn encode_byte(b: u8) -> Seq<char> {
    if b < 128 && !in_path_segment_set(b) {
        seq![b as char]
    } else {
        seq!['%', upper_hex(b / 16), upper_hex(b % 16)]
    }
}

/// Bytes, percent-encoded one by one.
pub open spec fn encode_bytes(bs: Seq<u8>) -> Seq<char>
    decreases bs.len(),
{
    if bs.len() == 0 {
        Seq::empty()
    } else {
        encode_bytes(bs.drop_last()) + encode_byte(bs.last())
    }
}

/// A value percent-encoded for a path segment (UTF-8 bytes, as
/// `percent_encoding::utf8_percent_encode` does with this set).
pub open spec fn path_segment_encode(s: Seq<char>) -> Seq<char> {
    encode_bytes(encode_utf8(s))
}

/// The uppercase hex digit of `d < 16`.
fn upper_hex_char(d: u8) -> (r: char)
    requires
        d < 16,
    ensures
        r == upper_hex(d),
{
    if d < 10 {
        (d + 48) as char
    } else {
        (d + 55) as char
    }
}

/// Percent-encodes a value for a path segment.
pub fn percent_encode_segment(s: &str) -> (r: String)
    ensures
        r@ == path_segment_encode(s@),
{
    let bytes = utf8_bytes(s);
    let mut out = String::new();
    let mut i: usize = 0;
    while i < bytes.len()
        invariant
            i <= bytes.len(),
            out@ == encode_bytes(bytes@.take(i as int)),
        decreases bytes.len() - i,
    {
        let b = bytes[i];
        proof {
            assert(bytes@.take(i as int + 1).drop_last() =~= bytes@.take(i as int));
        }
        if b < 128 && !(b < 0x20 || b == 0x7f || b == 0x20 || b == 0x22 || b == 0x23 || b == 0x25
            || b == 0x2f || b == 0x3a || b == 0x3c || b == 0x3e || b == 0x3f || b == 0x40 || b == 0x60
            || b == 0x7b || b == 0x7d) {
            text::push_char(&mut out, b as char);
        } else {
            text::push_char(&mut out, '%');
            text::push_char(&mut out, upper_hex_char(b / 16));
            text::push_char(&mut out, upper_hex_char(b % 16));
        }
        assert(out@ =~= encode_bytes(bytes@.take(i as int + 1)));
        i = i + 1;
    }
    assert(bytes@.take(bytes@.len() as int) =~= bytes@);
    out
}

/// `s` without its trailing `c` characters (std's `trim_end_matches`).
pub open spec fn trim_trailing(s: Seq<char>, c: char) -> Seq<char>
    decreases s.len(),
{
    if s.len() > 0 && s.last() == c {
        trim_trailing(s.drop_last(), c)
    } else {
        s
    }
}

/// Copies `s` without its trailing `/` characters.
pub fn trim_trailing_slashes(s: &str) -> (r: String)
    ensures
        r@ == trim_trailing(s@, '/'),
{
    let cs = text::chars_of(s);
    let mut n: usize = cs.len();
    assert(cs@.take(cs.len() as int) =~= cs@);
    while n > 0 && cs[n - 1] == '/'
        invariant
            n <= cs.len(),
            trim_trailing(cs@, '/') == trim_trailing(cs@.take(n as int), '/'),
        decreases n,
    {
        assert(cs@.take(n as int).drop_last() =~= cs@.take(n - 1));
        n = n - 1;
    }
    let r = text::copy_range(cs.as_slice(), 0, n);
    assert(r@ =~= cs@.take(n as int));
    text::string_from_chars(r.as_slice())
}

/// The entitlement balance check URL.
pub open spec fn balance_url(base: Seq<char>, customer: Seq<char>, feature: Seq<char>, model: Seq<
    char,
>) -> Seq<char> {
    trim_trailing(base, '/') + "/api/v1/customers/"@ + path_segment_encode(customer)
        + "/entitlements/"@ + path_segment_encode(feature) + "/value?model="@
        + path_segment_encode(model)
}

/// Builds the entitlement balance check URL for a tenant and model.
pub fn build_balance_url(base_url: &str, customer_id: &str, feature_key: &str, model: &str) -> (r:
    String)
    ensures
        r@ == balance_url(base_url@, customer_id@, feature_key@, model@),
{
    let base = trim_trailing_slashes(base_url);
    let u = text::concat(base.as_str(), "/api/v1/customers/");
    let u = text::concat(u.as_str(), percent_encode_segment(customer_id).as_str());
    let u = text::concat(u.as_str(), "/entitlements/");
    let u = text::concat(u.as_str(), percent_encode_segment(feature_key).as_str());
    let u = text::concat(u.as_str(), "/value?model=");
    text::concat(u.as_str(), percent_encode_segment(model).as_str())
}

// -----------------------------------------------------------------------------
// Token counts
// -----------------------------------------------------------------------------

/// A numeric metadata value: the value parsed as `u64`, zero when absent or
/// not a number.
pub open spec fn token_meta(m: Seq<(Seq<char>, Seq<char>)>, key: Seq<char>) -> u64 {
    match meta_get(m, key) {
        Some(v) => match parse_u64_spec(v) {
            Some(n) => n,
            None => 0,
        },
        None => 0,
    }
}

/// Reads a numeric metadata value, defaulting to zero.
pub fn read_token_meta(metadata: &Metadata, key: &str) -> (r: u64)
    ensures
        r == token_meta(metadata@, key@),
{
    match metadata.get(key) {
        Some(v) => match text::parse_u64(v.as_str()) {
            Some(n) => n,
            None => 0,
        },
        None => 0,
    }
}

/// Token counts published by the `token_count` filter.
pub struct TokenCounts {
    /// Completion tokens.
    pub output: u64,
    /// Prompt tokens.
    pub input: u64,
    /// Total tokens billed.
    pub total: u64,
    /// Prompt tokens served from the provider's cache; a subset of `input`.
    pub cache_read: u64,
    /// Prompt tokens written to the provider's cache; a subset of `input`.
    pub cache_write: u64,
}

impl TokenCounts {
    /// Reads the counts that `token_count` left in the metadata.
    pub fn read(metadata: &Metadata) -> (r: TokenCounts)
        ensures
            r.input == token_meta(metadata@, META_TOKEN_INPUT@),
            r.output == token_meta(metadata@, META_TOKEN_OUTPUT@),
            r.total == token_meta(metadata@, META_TOKEN_TOTAL@),
            r.cache_read == token_meta(metadata@, META_TOKEN_CACHE_READ@),
            r.cache_write == token_meta(metadata@, META_TOKEN_CACHE_WRITE@),
    {
        TokenCounts {
            input: read_token_meta(metadata, META_TOKEN_INPUT),
            output: read_token_meta(metadata, META_TOKEN_OUTPUT),
            total: read_token_meta(metadata, META_TOKEN_TOTAL),
            cache_read: read_token_meta(metadata, META_TOKEN_CACHE_READ),
            cache_write: read_token_meta(metadata, META_TOKEN_CACHE_WRITE),
        }
    }
}

// -----------------------------------------------------------------------------
// CloudEvents
// -----------------------------------------------------------------------------

/// Fields shared by the usage and error events.
pub struct EventContext<'a> {
    /// Wall-clock duration of the proxied request.
    pub duration_ms: u64,
    /// Unique `CloudEvents` `id`.
    pub event_id: &'a str,
    /// Upstream cluster the request was routed to.
    pub provider: &'a str,
    /// Configured `CloudEvents` `source`.
    pub source: &'a str,
    /// Captured tenant identity.
    pub state: &'a MeteringState,
}

/// A JSON number of a `u64`.
pub open spec fn num(n: u64) -> JsonSpec {
    JsonSpec::Num(Some(n), text::decimal(n as nat))
}

/// The `CloudEvents` envelope for a request state (with `model` as its
/// model), written at `time`, with `extra` members after the attribution
/// fields of `data`.
pub open spec fn event_doc(
    st: MeteringState,
    model: Seq<char>,
    event_id: Seq<char>,
    source: Seq<char>,
    provider: Seq<char>,
    duration_ms: u64,
    event_type: Seq<char>,
    time: Seq<char>,
    extra: Seq<(Seq<char>, JsonSpec)>,
) -> JsonSpec {
    JsonSpec::Obj(
        seq![
            ("specversion"@, JsonSpec::Str("1.0"@)),
            ("id"@, JsonSpec::Str(event_id)),
            ("source"@, JsonSpec::Str(source)),
            ("type"@, JsonSpec::Str(event_type)),
            ("subject"@, JsonSpec::Str(st.username@)),
            ("time"@, JsonSpec::Str(time)),
            ("datacontenttype"@, JsonSpec::Str("application/json"@)),
            (
                "data"@,
                JsonSpec::Obj(
                    seq![
                        ("user"@, JsonSpec::Str(st.username@)),
                        ("group"@, JsonSpec::Str(st.group@)),
                        ("subscription"@, JsonSpec::Str(st.subscription@)),
                        ("provider"@, JsonSpec::Str(provider)),
                        ("model"@, JsonSpec::Str(model)),
                        ("duration_ms"@, num(duration_ms)),
                        ("user_agent"@, JsonSpec::Str(st.user_agent@)),
                    ] + extra,
                ),
            ),
        ],
    )
}

/// The envelope for an event context.
pub open spec fn envelope_doc(
    ctx: EventContext,
    event_type: Seq<char>,
    time: Seq<char>,
    extra: Seq<(Seq<char>, JsonSpec)>,
) -> JsonSpec {
    event_doc(
        *ctx.state,
        ctx.state.model@,
        ctx.event_id@,
        ctx.source@,
        ctx.provider@,
        ctx.duration_ms,
        event_type,
        time,
        extra,
    )
}

/// The usage members of an `inference.tokens.used` event.
pub open spec fn usage_members(t: TokenCounts) -> Seq<(Seq<char>, JsonSpec)> {
    seq![
        ("prompt_tokens"@, num(t.input)),
        ("completion_tokens"@, num(t.output)),
        ("total_tokens"@, num(t.total)),
        ("cached_input_tokens"@, num(t.cache_read)),
        ("cache_creation_tokens"@, num(t.cache_write)),
    ]
}

/// The usage members for the counts in the metadata.
pub open spec fn metadata_usage_members(m: Seq<(Seq<char>, Seq<char>)>) -> Seq<(Seq<char>, JsonSpec)> {
    seq![
        ("prompt_tokens"@, num(token_meta(m, META_TOKEN_INPUT@))),
        ("completion_tokens"@, num(token_meta(m, META_TOKEN_OUTPUT@))),
        ("total_tokens"@, num(token_meta(m, META_TOKEN_TOTAL@))),
        ("cached_input_tokens"@, num(token_meta(m, META_TOKEN_CACHE_READ@))),
        ("cache_creation_tokens"@, num(token_meta(m, META_TOKEN_CACHE_WRITE@))),
    ]
}

/// The status member of an `inference.request.error` event.
pub open spec fn error_members(status: u16) -> Seq<(Seq<char>, JsonSpec)> {
    seq![("status_code"@, num(status as u64))]
}

/// The current time in RFC 3339 form.
///
/// Calls `chrono::Utc::now().to_rfc3339()`; the result depends on the
/// clock, so nothing is claimed of it.
#[verifier::external_body]
fn now_rfc3339() -> String {
    chrono::Utc::now().to_rfc3339()
}

/// Builds the envelope at a given time.
pub fn envelope_at(
    ctx: &EventContext,
    event_type: &str,
    time: &str,
    extra: Vec<(String, JsonValue)>,
) -> (r: JsonValue)
    ensures
        r@ == envelope_doc(*ctx, event_type@, time@, crate::json::fields_view(extra@)),
{
    let st = ctx.state;
    let mut data: Vec<(String, JsonValue)> = Vec::new();
    add_member(&mut data, "user", str_value(st.username.as_str()));
    add_member(&mut data, "group", str_value(st.group.as_str()));
    add_member(&mut data, "subscription", str_value(st.subscription.as_str()));
    add_member(&mut data, "provider", str_value(ctx.provider));
    add_member(&mut data, "model", str_value(st.model.as_str()));
    add_member(&mut data, "duration_ms", JsonValue::Num(JsonNumber::from_u64(ctx.duration_ms)));
    add_member(&mut data, "user_agent", str_value(st.user_agent.as_str()));
    let ghost d0 = crate::json::fields_view(data@);
    let mut extra = extra;
    let ghost e0 = crate::json::fields_view(extra@);
    data.append(&mut extra);
    assert(crate::json::fields_view(data@) =~= d0 + e0);
    let mut top: Vec<(String, JsonValue)> = Vec::new();
    add_member(&mut top, "specversion", str_value(CE_SPEC_VERSION));
    add_member(&mut top, "id", str_value(ctx.event_id));
    add_member(&mut top, "source", str_value(ctx.source));
    add_member(&mut top, "type", str_value(event_type));
    add_member(&mut top, "subject", str_value(st.username.as_str()));
    add_member(&mut top, "time", str_value(time));
    add_member(&mut top, "datacontenttype", str_value("application/json"));
    add_member(&mut top, "data", object(data));
    let r = object(top);
    proof {
        reveal_strlit("1.0");
        assert(crate::json::fields_view(top@) =~= envelope_doc(
            *ctx,
            event_type@,
            time@,
            e0,
        )->Obj_0) by {
            assert(d0 + e0 =~= (seq![
                ("user"@, JsonSpec::Str(st.username@)),
                ("group"@, JsonSpec::Str(st.group@)),
                ("subscription"@, JsonSpec::Str(st.subscription@)),
                ("provider"@, JsonSpec::Str(ctx.provider@)),
                ("model"@, JsonSpec::Str(st.model@)),
                ("duration_ms"@, num(ctx.duration_ms)),
                ("user_agent"@, JsonSpec::Str(st.user_agent@)),
            ] + e0));
        }
    }
    r
}

/// Builds the `CloudEvents` envelope, stamped with the current time, with
/// `extra` members appended to `data`.
pub fn build_envelope(ctx: &EventContext, event_type: &str, extra: Vec<(String, JsonValue)>) -> (r:
    JsonValue)
    ensures
        exists|t: Seq<char>|
            r@ == #[trigger] envelope_doc(*ctx, event_type@, t, crate::json::fields_view(extra@)),
{
    let time = now_rfc3339();
    envelope_at(ctx, event_type, time.as_str(), extra)
}

/// Builds an `inference.tokens.used` event.
pub fn build_usage_event(ctx: &EventContext, tokens: &TokenCounts) -> (r: JsonValue)
    ensures
        exists|t: Seq<char>|
            r@ == #[trigger] envelope_doc(*ctx, CE_TYPE_USAGE@, t, usage_members(*tokens)),
{
    let mut extra: Vec<(String, JsonValue)> = Vec::new();
    add_member(&mut extra, "prompt_tokens", JsonValue::Num(JsonNumber::from_u64(tokens.input)));
    add_member(&mut extra, "completion_tokens", JsonValue::Num(JsonNumber::from_u64(tokens.output)));
    add_member(&mut extra, "total_tokens", JsonValue::Num(JsonNumber::from_u64(tokens.total)));
    add_member(
        &mut extra,
        "cached_input_tokens",
        JsonValue::Num(JsonNumber::from_u64(tokens.cache_read)),
    );
    add_member(
        &mut extra,
        "cache_creation_tokens",
        JsonValue::Num(JsonNumber::from_u64(tokens.cache_write)),
    );
    assert(crate::json::fields_view(extra@) =~= usage_members(*tokens));
    build_envelope(ctx, CE_TYPE_USAGE, extra)
}

/// Builds an `inference.request.error` event.
pub fn build_error_event(ctx: &EventContext) -> (r: JsonValue)
    ensures
        exists|t: Seq<char>|
            r@ == #[trigger] envelope_doc(
                *ctx,
                CE_TYPE_ERROR@,
                t,
                error_members(ctx.state.response_status),
            ),
{
    let mut extra: Vec<(String, JsonValue)> = Vec::new();
    add_member(
        &mut extra,
        "status_code",
        JsonValue::Num(JsonNumber::from_u64(ctx.state.response_status as u64)),
    );
    assert(crate::json::fields_view(extra@) =~= error_members(ctx.state.response_status));
    build_envelope(ctx, CE_TYPE_ERROR, extra)
}

// -----------------------------------------------------------------------------
// The filter's hooks
// -----------------------------------------------------------------------------

/// Key under which a filter instance stores its per-request state.
pub fn filter_state_key(id: Option<usize>) -> (r: usize)
    ensures
        r == (match id {
            Some(i) => i,
            None => 0,
        }),
{
    match id {
        Some(i) => i,
        None => 0,
    }
}

/// The username a request is metered under: its own, else the configured
/// default; `None` where the request is not metered.
pub open spec fn metered_username(
    st_username: Seq<char>,
    default_username: Option<String>,
) -> Option<Seq<char>> {
    if st_username.len() > 0 {
        Some(st_username)
    } else {
        match default_username {
            Some(d) => Some(d@),
            None => None,
        }
    }
}

/// Records the upstream status: `0` and no error where there was no
/// response head; otherwise the status, and an error unless it is 2xx.
pub fn record_response(state: &mut MeteringState, status: Option<u16>)
    ensures
        final(state).response_status == (match status {
            Some(s) => s,
            None => 0,
        }),
        final(state).is_error == (match status {
            Some(s) => !crate::filter::is_success(s),
            None => false,
        }),
        final(state).group == old(state).group,
        final(state).model == old(state).model,
        final(state).subscription == old(state).subscription,
        final(state).user_agent == old(state).user_agent,
        final(state).username == old(state).username,
{
    match status {
        Some(s) => {
            state.response_status = s;
            state.is_error = !(200 <= s && s <= 299);
        },
        None => {
            state.response_status = 0;
            state.is_error = false;
        },
    }
}

/// The model reported for a state: its own, else the one recorded in the
/// metadata, else the configured default, else none.
pub open spec fn report_model(
    st_model: Seq<char>,
    m: Seq<(Seq<char>, Seq<char>)>,
    default_model: Option<String>,
) -> Seq<char> {
    if st_model.len() > 0 {
        st_model
    } else {
        match meta_get(m, META_METERING_MODEL@) {
            Some(v) => v,
            None => match default_model {
                Some(d) => d@,
                None => st_model,
            },
        }
    }
}

/// The event type reported for a request.
pub open spec fn report_type(is_error: bool) -> Seq<char> {
    if is_error {
        CE_TYPE_ERROR@
    } else {
        CE_TYPE_USAGE@
    }
}

/// The members an event adds to its `data`: the status for an error, the
/// token counts from the metadata otherwise.
pub open spec fn report_members(st: MeteringState, m: Seq<(Seq<char>, Seq<char>)>) -> Seq<
    (Seq<char>, JsonSpec),
> {
    if st.is_error {
        error_members(st.response_status)
    } else {
        metadata_usage_members(m)
    }
}

/// The usage report endpoint.
pub open spec fn events_url(base: Seq<char>) -> Seq<char> {
    trim_trailing(base, '/') + "/api/v1/events"@
}

impl ExternalMeteringFilter {
    /// The request phase up to the balance check: captures the identity,
    /// lists identity headers and credentials for removal, and gives the
    /// state to meter, or `None` where the request is not metered (no
    /// username and no default). A known model is recorded in the metadata.
    pub fn begin_request(
        &self,
        headers: &Headers,
        metadata: &mut Metadata,
        to_remove: &mut Vec<String>,
    ) -> (r: Option<MeteringState>)
        ensures
            strings_view(final(to_remove)@) == strings_view(old(to_remove)@) + prefixed_names(
                ascii_lower_seq(self.identity_header_prefix@),
                headers.entries@,
            ) + credential_headers(),
            ({
                let id = resolved_identity(self.identity_header_prefix@, old(metadata)@, headers.entries@);
                match metered_username(id.3, self.default_username) {
                    None => r is None && final(metadata)@ == old(metadata)@,
                    Some(u) => r matches Some(st) && st.username@ == u && st.model@ == id.1
                        && st.subscription@ == id.2 && st.group@ == (if id.0.len() == 0 {
                        id.2
                    } else {
                        id.0
                    }) && st.user_agent@ == user_agent_of(headers.entries@) && !st.is_error
                        && st.response_status == 0 && final(metadata)@ == (if id.1.len() > 0 {
                        meta_insert(old(metadata)@, META_METERING_MODEL@, id.1)
                    } else {
                        old(metadata)@
                    }),
                }
            }),
    {
        let mut state = capture_identity(
            headers,
            metadata,
            self.identity_header_prefix.as_str(),
            to_remove,
        );
        if state.username.as_str().is_empty() {
            match &self.default_username {
                Some(d) => {
                    state.username = text::owned(d.as_str());
                },
                None => return None,
            }
        }
        if !state.model.as_str().is_empty() {
            metadata.insert(text::owned(META_METERING_MODEL), text::owned(state.model.as_str()));
        }
        Some(state)
    }

    /// The balance check URL for a metered request.
    pub fn balance_url_for(&self, state: &MeteringState) -> (r: String)
        ensures
            r@ == balance_url(self.metering_url@, state.username@, self.feature_key@, state.model@),
    {
        build_balance_url(
            self.metering_url.as_str(),
            state.username.as_str(),
            self.feature_key.as_str(),
            state.model.as_str(),
        )
    }

    /// Request body hook: where no model is recorded yet, records the one
    /// this chunk names; the body is released unchanged.
    pub fn on_request_body(&self, metadata: &mut Metadata, body: Option<&[u8]>) -> (r: FilterAction)
        ensures
            r is Release,
            meta_get(old(metadata)@, META_METERING_MODEL@) is None && body is Some && model_in_bytes(
                body->0@,
            ) is Some ==> final(metadata)@ == meta_insert(
                old(metadata)@,
                META_METERING_MODEL@,
                model_in_bytes(body->0@)->0,
            ),
            !(meta_get(old(metadata)@, META_METERING_MODEL@) is None && body is Some
                && model_in_bytes(body->0@) is Some) ==> final(metadata)@ == old(metadata)@,
    {
        let unresolved = !metadata.contains_key(META_METERING_MODEL);
        if unresolved {
            match body {
                Some(chunk) => match extract_model_from_bytes(chunk) {
                    Some(m) => {
                        metadata.insert(text::owned(META_METERING_MODEL), m);
                    },
                    None => {},
                },
                None => {},
            }
        }
        FilterAction::Release
    }

    /// Builds the terminal event for a completed request: an error event
    /// for an upstream error, otherwise a usage event with the token counts
    /// from the metadata; the model falls back to the recorded one, then to
    /// the configured default.
    pub fn report(
        &self,
        metadata: &Metadata,
        state: MeteringState,
        event_id: &str,
        provider: &str,
        duration_ms: u64,
    ) -> (r: JsonValue)
        ensures
            exists|t: Seq<char>|
                r@ == #[trigger] event_doc(
                    state,
                    report_model(state.model@, metadata@, self.default_model),
                    event_id@,
                    self.source@,
                    provider@,
                    duration_ms,
                    report_type(state.is_error),
                    t,
                    report_members(state, metadata@),
                ),
    {
        let ghost orig = state;
        let mut state = state;
        if state.model.as_str().is_empty() {
            match metadata.get(META_METERING_MODEL) {
                Some(m) => {
                    state.model = text::owned(m.as_str());
                },
                None => match &self.default_model {
                    Some(d) => {
                        state.model = text::owned(d.as_str());
                    },
                    None => {},
                },
            }
        }
        let event_ctx = EventContext {
            duration_ms,
            event_id,
            provider,
            source: self.source.as_str(),
            state: &state,
        };
        assert(state.model@ == report_model(orig.model@, metadata@, self.default_model));
        if state.is_error {
            let r = build_error_event(&event_ctx);
            proof {
                let t = choose|t: Seq<char>|
                    r@ == #[trigger] envelope_doc(
                        event_ctx,
                        CE_TYPE_ERROR@,
                        t,
                        error_members(event_ctx.state.response_status),
                    );
                assert(r@ == event_doc(
                    orig,
                    report_model(orig.model@, metadata@, self.default_model),
                    event_id@,
                    self.source@,
                    provider@,
                    duration_ms,
                    report_type(orig.is_error),
                    t,
                    report_members(orig, metadata@),
                ));
            }
            r
        } else {
            let tokens = TokenCounts::read(metadata);
            let r = build_usage_event(&event_ctx, &tokens);
            proof {
                let t = choose|t: Seq<char>|
                    r@ == #[trigger] envelope_doc(event_ctx, CE_TYPE_USAGE@, t, usage_members(tokens));
                assert(usage_members(tokens) =~= metadata_usage_members(metadata@));
                assert(r@ == event_doc(
                    orig,
                    report_model(orig.model@, metadata@, self.default_model),
                    event_id@,
                    self.source@,
                    provider@,
                    duration_ms,
                    report_type(orig.is_error),
                    t,
                    report_members(orig, metadata@),
                ));
            }
            r
        }
    }

    /// The usage report delivery: the events endpoint and the serialized
    /// event, or `None` where the event does not serialize.
    pub fn usage_report(&self, event: &JsonValue) -> (r: Option<(String, Vec<u8>)>)
        ensures
            r is Some <==> json_bytes(event@) is Some,
            r matches Some(p) ==> p.0@ == events_url(self.metering_url@) && json_bytes(event@)
                == Some(p.1@),
    {
        let body = match to_json_bytes(event) {
            Some(b) => b,
            None => return None,
        };
        let base = trim_trailing_slashes(self.metering_url.as_str());
        Some((text::concat(base.as_str(), "/api/v1/events"), body))
    }

    /// Response body hook: before the end of the stream the request's state
    /// is kept for the terminal chunk; at the end it is taken, and handed
    /// back for reporting where it carries a username. The body always
    /// continues unchanged.
    pub fn on_response_body(&self, state: &mut Option<MeteringState>, end_of_stream: bool) -> (r: (
        FilterAction,
        Option<MeteringState>,
    ))
        ensures
            r.0 is Continue,
            !end_of_stream ==> *final(state) == *old(state) && r.1 is None,
            end_of_stream ==> *final(state) is None && r.1 == match *old(state) {
                Some(s) => if s.username@.len() > 0 {
                    Some(s)
                } else {
                    None
                },
                None => None,
            },
    {
        if !end_of_stream {
            return (FilterAction::Continue, None);
        }
        let mut taken: Option<MeteringState> = None;
        std::mem::swap(&mut taken, state);
        match taken {
            Some(s) => if s.username.as_str().is_empty() {
                (FilterAction::Continue, None)
            } else {
                (FilterAction::Continue, Some(s))
            },
            None => (FilterAction::Continue, None),
        }
    }
}

// -----------------------------------------------------------------------------
// Laws
// -----------------------------------------------------------------------------

/// Whenever the metadata supplies a username (from verified claims, or
/// from headers the identity guard captured), the raw request headers play
/// no part in the identity: a client cannot spoof identity with forged
/// headers.
pub proof fn lemma_metadata_identity_ignores_headers(
    prefix: Seq<char>,
    m: Seq<(Seq<char>, Seq<char>)>,
    h1: Seq<(String, Option<String>)>,
    h2: Seq<(String, Option<String>)>,
)
    requires
        ({
            let pl = ascii_lower_seq(prefix);
            meta_or(m, pl + "username"@, Seq::empty()).len() > 0 || meta_or(
                m,
                "identity."@ + pl + "username"@,
                Seq::empty(),
            ).len() > 0
        }),
    ensures
        resolved_identity(prefix, m, h1) == resolved_identity(prefix, m, h2),
{
    let pl = ascii_lower_seq(prefix);
    assert("identity."@ + pl + "username"@ =~= ("identity."@ + pl) + "username"@);
}

/// A character that percent-encoding may emit: ASCII outside the escaped
/// set (hex digits included), or the `%` of an escape.
pub open spec fn encoded_char_ok(c: char) -> bool {
    (c as u32) < 128 && !in_path_segment_set(c as u8) || c == '%'
}

/// Encoded output only holds characters outside the escaped set, besides
/// the `%` of the escapes.
proof fn lemma_encode_bytes_chars(bs: Seq<u8>)
    ensures
        forall|i: int|
            0 <= i < encode_bytes(bs).len() ==> encoded_char_ok(#[trigger] encode_bytes(bs)[i]),
    decreases bs.len(),
{
    if bs.len() > 0 {
        lemma_encode_bytes_chars(bs.drop_last());
        let b = bs.last();
        let rest = encode_bytes(bs.drop_last());
        let e = encode_byte(b);
        assert forall|d: u8| d < 16 implies encoded_char_ok(#[trigger] upper_hex(d)) by {
            if d < 10 {
                assert((d + 48) as char as u32 == d + 48);
            } else {
                assert((d + 55) as char as u32 == d + 55);
            }
            assert((upper_hex(d) as u32) as u8 == upper_hex(d) as u32);
        }
        assert(b / 16 < 16);
        assert(b % 16 < 16);
        assert forall|i: int| 0 <= i < e.len() implies encoded_char_ok(#[trigger] e[i]) by {
            if b < 128 && !in_path_segment_set(b) {
                assert(e[i] == b as char);
                assert((b as char) as u32 == b);
            }
        }
        assert forall|i: int| 0 <= i < encode_bytes(bs).len() implies encoded_char_ok(
            #[trigger] encode_bytes(bs)[i],
        ) by {
            if i < rest.len() {
                assert(encode_bytes(bs)[i] == rest[i]);
            } else {
                assert(encode_bytes(bs)[i] == e[i - rest.len()]);
            }
        }
    }
}

/// A percent-encoded value cannot change the shape of the balance check
/// URL: it holds no `/`, `?`, `#`, `@`, `:` or space.
pub proof fn lemma_encoded_segment_keeps_url_shape(s: Seq<char>)
    ensures
        forall|i: int|
            0 <= i < path_segment_encode(s).len() ==> {
                let c = #[trigger] path_segment_encode(s)[i];
                c != '/' && c != '?' && c != '#' && c != '@' && c != ':' && c != ' '
            },
{
    lemma_encode_bytes_chars(encode_utf8(s));
}

} // verus!
