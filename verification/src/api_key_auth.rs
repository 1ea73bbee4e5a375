//! The `api_key_auth` filter: validates API keys against an external key
//! service and writes the verified identity to the request metadata.
//!
//! The key is read from the configured header (a `Bearer ` prefix is
//! dropped), validated by `POST {validate_url}` with `{"key": "..."}`, and
//! cached; the service answers `{"valid": true, "username": "...",
//! "groups": [...], "subscription": "..."}`. The HTTP call and the cache
//! store are made by the caller; this module decides from their results.
use vstd::prelude::*;

use crate::filter::{
    header_text, is_success, meta_insert, utf8_bytes, valid_header_name, FilterAction, FilterError,
    Headers, Metadata, Rejection,
};
use crate::json::{
    add_member, json_bytes, json_parse, member, object, str_value, to_json_bytes, JsonSpec, JsonValue,
};
use crate::text::{self, join_commas, join_with_commas, strings_view, unicode_lowercase};

verus! {

// -----------------------------------------------------------------------------
// Configuration
// -----------------------------------------------------------------------------

/// Configuration of the `api_key_auth` filter.
pub struct ApiKeyAuthConfig {
    /// URL of the key validation endpoint.
    pub validate_url: String,
    /// Header to read the API key from.
    pub token_header: String,
    /// How long to cache valid keys (seconds).
    pub cache_ttl_seconds: u64,
    /// HTTP timeout for the validation callout (seconds).
    pub timeout_seconds: u64,
}

/// Default header for API key extraction.
pub fn default_token_header() -> (r: String)
    ensures
        r@ == "x-api-key"@,
{
    text::owned("x-api-key")
}

/// Default cache TTL: 5 minutes.
pub fn default_cache_ttl() -> (r: u64)
    ensures
        r == 300,
{
    300
}

/// Default callout timeout: 5 seconds.
pub fn default_timeout() -> (r: u64)
    ensures
        r == 5,
{
    5
}

/// What validation of a configuration gives: the first problem, if any.
pub open spec fn config_error(cfg: ApiKeyAuthConfig) -> Option<Seq<char>> {
    if cfg.validate_url@.len() == 0 {
        Some("api_key_auth: validate_url must not be empty"@)
    } else if cfg.timeout_seconds == 0 {
        Some("api_key_auth: timeout_seconds must be greater than 0"@)
    } else {
        None
    }
}

/// Validates a configuration.
pub fn validate_config(cfg: &ApiKeyAuthConfig) -> (r: Result<(), String>)
    ensures
        match r {
            Ok(()) => config_error(*cfg) is None,
            Err(m) => config_error(*cfg) == Some(m@),
        },
{
    if cfg.validate_url.as_str().is_empty() {
        return Err(text::owned("api_key_auth: validate_url must not be empty"));
    }
    if cfg.timeout_seconds == 0 {
        return Err(text::owned("api_key_auth: timeout_seconds must be greater than 0"));
    }
    Ok(())
}

/// Validates API keys and injects the verified identity into the metadata.
pub struct ApiKeyAuthFilter {
    /// URL of the validation endpoint.
    pub validate_url: String,
    /// Header to read the API key from, lowercase.
    pub token_header: String,
    /// Cache TTL in seconds.
    pub cache_ttl_seconds: u64,
}

/// A validated identity.
pub struct CachedIdentity {
    /// Extracted username.
    pub username: String,
    /// Extracted groups, joined with commas.
    pub group: String,
    /// Extracted subscription.
    pub subscription: String,
}

// -----------------------------------------------------------------------------
// The validation answer
// -----------------------------------------------------------------------------

/// A list of strings, where every item is one.
pub open spec fn str_list(v: JsonSpec) -> Option<Seq<Seq<char>>> {
    match v {
        JsonSpec::Arr(items) => if forall|i: int| 0 <= i < items.len() ==> #[trigger] items[i] is Str {
            Some(Seq::new(items.len(), |i: int| items[i]->Str_0))
        } else {
            None
        },
        _ => None,
    }
}

/// A `String` field with a default: absent is empty, a string is read,
/// anything else fails.
pub open spec fn default_str(v: Option<JsonSpec>) -> Option<Seq<char>> {
    match v {
        None => Some(Seq::empty()),
        Some(JsonSpec::Str(s)) => Some(s),
        _ => None,
    }
}

/// A `Vec<String>` field with a default: absent is empty.
pub open spec fn default_str_list(v: Option<JsonSpec>) -> Option<Seq<Seq<char>>> {
    match v {
        None => Some(Seq::empty()),
        Some(l) => str_list(l),
    }
}

/// The answer's fields (valid, username, groups, subscription) from their
/// raw values, where each reads.
pub open spec fn validation_fields(
    valid: Option<JsonSpec>,
    username: Option<JsonSpec>,
    groups: Option<JsonSpec>,
    subscription: Option<JsonSpec>,
) -> Option<(bool, Seq<char>, Seq<Seq<char>>, Seq<char>)> {
    match (valid, default_str(username), default_str_list(groups), default_str(subscription)) {
        (Some(JsonSpec::Bool(b)), Some(u), Some(g), Some(s)) => Some((b, u, g, s)),
        _ => None,
    }
}

/// The item at `i`, if there is one.
pub open spec fn item(items: Seq<JsonSpec>, i: int) -> Option<JsonSpec> {
    if 0 <= i < items.len() {
        Some(items[i])
    } else {
        None
    }
}

/// The validation answer as serde's derived `Deserialize` reads it: from
/// an object by name (`username`, `groups` and `subscription` defaulting
/// when absent), or from an array of one to four values in field order.
pub open spec fn validation_answer(doc: JsonSpec) -> Option<(bool, Seq<char>, Seq<Seq<char>>, Seq<char>)> {
    match doc {
        JsonSpec::Obj(_) => validation_fields(
            member(doc, "valid"@),
            member(doc, "username"@),
            member(doc, "groups"@),
            member(doc, "subscription"@),
        ),
        JsonSpec::Arr(items) => if 1 <= items.len() <= 4 {
            validation_fields(item(items, 0), item(items, 1), item(items, 2), item(items, 3))
        } else {
            None
        },
        _ => None,
    }
}

/// The identity a validation response grants: for a 2xx answer that reads
/// and says `valid`, the username, the groups joined with commas and the
/// subscription.
pub open spec fn granted_identity(status: u16, body: Seq<u8>) -> Option<
    (Seq<char>, Seq<char>, Seq<char>),
> {
    if !is_success(status) {
        None
    } else {
        match json_parse(body) {
            Some(v) => match validation_answer(v@) {
                Some((true, u, g, s)) => Some((u, join_commas(g), s)),
                _ => None,
            },
            None => None,
        }
    }
}

/// Reads a `String` field with a default.
fn read_default_str(v: Option<&JsonValue>) -> (r: Option<String>)
    ensures
        match r {
            Some(s) => default_str(
                match v {
                    Some(x) => Some(x@),
                    None => None,
                },
            ) == Some(s@),
            None => default_str(
                match v {
                    Some(x) => Some(x@),
                    None => None,
                },
            ) is None,
        },
{
    match v {
        None => Some(String::new()),
        Some(JsonValue::Str(s)) => Some(text::owned(s.as_str())),
        _ => None,
    }
}

/// Reads a `Vec<String>` field with a default.
fn read_default_str_list(v: Option<&JsonValue>) -> (r: Option<Vec<String>>)
    ensures
        match r {
            Some(l) => default_str_list(
                match v {
                    Some(x) => Some(x@),
                    None => None,
                },
            ) == Some(strings_view(l@)),
            None => default_str_list(
                match v {
                    Some(x) => Some(x@),
                    None => None,
                },
            ) is None,
        },
{
    match v {
        None => {
            let l: Vec<String> = Vec::new();
            assert(strings_view(l@) =~= Seq::<Seq<char>>::empty());
            Some(l)
        },
        Some(JsonValue::Arr(items)) => {
            proof {
                crate::json::lemma_arr_view(*items);
            }
            let ghost iv = crate::json::items_view(items@);
            let mut out: Vec<String> = Vec::new();
            let mut i: usize = 0;
            while i < items.len()
                invariant
                    i <= items.len(),
                    iv == crate::json::items_view(items@),
                    match v {
                        Some(x) => x@ == JsonSpec::Arr(iv),
                        None => false,
                    },
                    out.len() == i,
                    forall|j: int| 0 <= j < i ==> #[trigger] iv[j] is Str && iv[j]->Str_0 == out@[j]@,
                decreases items.len() - i,
            {
                match &items[i] {
                    JsonValue::Str(s) => {
                        out.push(text::owned(s.as_str()));
                    },
                    _ => {
                        assert(!(iv[i as int] is Str));
                        return None;
                    },
                }
                i = i + 1;
            }
            assert(strings_view(out@) =~= Seq::new(iv.len(), |k: int| iv[k]->Str_0));
            Some(out)
        },
        Some(_) => None,
    }
}

/// The raw value at position `i` of an array.
fn item_at(items: &Vec<JsonValue>, i: usize) -> (r: Option<&JsonValue>)
    ensures
        match r {
            Some(x) => item(crate::json::items_view(items@), i as int) == Some(x@),
            None => item(crate::json::items_view(items@), i as int) is None,
        },
{
    if i < items.len() {
        Some(&items[i])
    } else {
        None
    }
}

/// Reads the four fields from their raw values.
fn read_validation_fields(
    valid: Option<&JsonValue>,
    username: Option<&JsonValue>,
    groups: Option<&JsonValue>,
    subscription: Option<&JsonValue>,
) -> (r: Option<(bool, String, Vec<String>, String)>)
    ensures
        ({
            let spec_of = |x: Option<&JsonValue>|
                match x {
                    Some(v) => Some(v@),
                    None => None,
                };
            match r {
                Some(t) => validation_fields(
                    spec_of(valid),
                    spec_of(username),
                    spec_of(groups),
                    spec_of(subscription),
                ) == Some((t.0, t.1@, strings_view(t.2@), t.3@)),
                None => validation_fields(
                    spec_of(valid),
                    spec_of(username),
                    spec_of(groups),
                    spec_of(subscription),
                ) is None,
            }
        }),
{
    let v = match valid {
        Some(JsonValue::Bool(b)) => *b,
        _ => return None,
    };
    let u = match read_default_str(username) {
        Some(u) => u,
        None => return None,
    };
    let g = match read_default_str_list(groups) {
        Some(g) => g,
        None => return None,
    };
    let s = match read_default_str(subscription) {
        Some(s) => s,
        None => return None,
    };
    Some((v, u, g, s))
}

/// The identity a validation response grants.
pub fn identity_from_validation(status: u16, body: &[u8]) -> (r: Option<CachedIdentity>)
    ensures
        match r {
            Some(id) => granted_identity(status, body@) == Some(
                (id.username@, id.group@, id.subscription@),
            ),
            None => granted_identity(status, body@) is None,
        },
{
    if !(200 <= status && status <= 299) {
        return None;
    }
    let doc = match crate::json::parse_json(body) {
        Some(d) => d,
        None => return None,
    };
    let fields = match &doc {
        JsonValue::Obj(f) => {
            proof {
                crate::json::lemma_obj_view(*f);
            }
            read_validation_fields(
                crate::json::get(&doc, "valid"),
                crate::json::get(&doc, "username"),
                crate::json::get(&doc, "groups"),
                crate::json::get(&doc, "subscription"),
            )
        },
        JsonValue::Arr(items) => {
            proof {
                crate::json::lemma_arr_view(*items);
            }
            if 1 <= items.len() && items.len() <= 4 {
                read_validation_fields(
                    item_at(items, 0),
                    item_at(items, 1),
                    item_at(items, 2),
                    item_at(items, 3),
                )
            } else {
                None
            }
        },
        _ => None,
    };
    match fields {
        Some((true, username, groups, subscription)) => Some(
            CachedIdentity { username, group: join_with_commas(&groups), subscription },
        ),
        _ => None,
    }
}

/// The validation request body `{"key": key}`, serialized.
pub fn validation_request_body(key: &str) -> (r: Option<Vec<u8>>)
    ensures
        match json_bytes(JsonSpec::Obj(seq![("key"@, JsonSpec::Str(key@))])) {
            Some(b) => r matches Some(rb) && rb@ == b,
            None => r is None,
        },
{
    let mut f: Vec<(String, JsonValue)> = Vec::new();
    add_member(&mut f, "key", str_value(key));
    let doc = object(f);
    assert(crate::json::fields_view(f@) =~= seq![("key"@, JsonSpec::Str(key@))]);
    to_json_bytes(&doc)
}

// -----------------------------------------------------------------------------
// The filter
// -----------------------------------------------------------------------------

/// Whether an action rejects with 401 and the given body, carrying the
/// `WWW-Authenticate` challenge `challenge`.
pub open spec fn is_unauthorized(a: FilterAction, message: Seq<char>, challenge: Seq<char>) -> bool {
    a matches FilterAction::Reject(rej) && rej.status == 401 && rej.headers.len() == 1
        && rej.headers@[0].0@ == "WWW-Authenticate"@ && rej.headers@[0].1@ == challenge
        && crate::filter::body_bytes(rej.body) == Some(vstd::utf8::encode_utf8(message))
}

/// Rejects with 401 Unauthorized and an `ApiKey` challenge.
pub fn reject_unauthorized(message: &str) -> (r: FilterAction)
    ensures
        is_unauthorized(r, message@, "ApiKey"@),
{
    let mut headers: Vec<(String, String)> = Vec::new();
    headers.push((text::owned("WWW-Authenticate"), text::owned("ApiKey")));
    FilterAction::Reject(Rejection { status: 401, headers, body: Some(utf8_bytes(message)) })
}

/// Whether an entry is fresh: younger than the TTL.
pub open spec fn fresh(elapsed_nanos: u128, ttl_seconds: u64) -> bool {
    elapsed_nanos < ttl_seconds * 1_000_000_000
}

/// The key the request carries: the header text without a `Bearer `
/// prefix; `Err` with the rejection message where it is missing or empty.
pub open spec fn api_key_of(h: Seq<(String, Option<String>)>, header: Seq<char>) -> Result<
    Seq<char>,
    Seq<char>,
> {
    match crate::filter::header_index(h, header) {
        None => Err("missing API key"@),
        Some(i) => {
            let raw = match h[i].1 {
                Some(v) => v@,
                None => Seq::empty(),
            };
            let key = if text::is_prefix("Bearer "@, raw) {
                raw.subrange(7, raw.len() as int)
            } else {
                raw
            };
            if key.len() == 0 {
                Err("empty API key"@)
            } else {
                Ok(key)
            }
        },
    }
}

/// The metadata after granting an identity.
pub open spec fn identity_meta(
    m: Seq<(Seq<char>, Seq<char>)>,
    id: (Seq<char>, Seq<char>, Seq<char>),
) -> Seq<(Seq<char>, Seq<char>)> {
    let m1 = meta_insert(meta_insert(m, "x-tenant-username"@, id.0), "x-tenant-group"@, id.1);
    if id.2.len() > 0 {
        meta_insert(m1, "x-tenant-subscription"@, id.2)
    } else {
        m1
    }
}

impl ApiKeyAuthFilter {
    /// Builds the filter from a validated configuration, lowercasing the
    /// header name.
    pub fn from_config(cfg: ApiKeyAuthConfig) -> (r: Result<ApiKeyAuthFilter, FilterError>)
        ensures
            match r {
                Err(e) => config_error(cfg) == Some(e.message@),
                Ok(f) => config_error(cfg) is None && f.validate_url@ == cfg.validate_url@
                    && f.token_header@ == unicode_lowercase(cfg.token_header@)
                    && f.cache_ttl_seconds == cfg.cache_ttl_seconds,
            },
    {
        match validate_config(&cfg) {
            Ok(()) => {},
            Err(m) => return Err(FilterError::new(m)),
        }
        Ok(
            ApiKeyAuthFilter {
                validate_url: cfg.validate_url,
                token_header: text::to_lowercase(cfg.token_header.as_str()),
                cache_ttl_seconds: cfg.cache_ttl_seconds,
            },
        )
    }

    /// The filter's registered name.
    pub fn name(&self) -> (r: &'static str)
        ensures
            r@ == "api_key_auth"@,
    {
        "api_key_auth"
    }

    /// Whether a cached entry of this age may still be used.
    pub fn is_fresh(&self, elapsed_nanos: u128) -> (r: bool)
        ensures
            r == fresh(elapsed_nanos, self.cache_ttl_seconds),
    {
        let ttl: u128 = self.cache_ttl_seconds as u128 * 1_000_000_000u128;
        elapsed_nanos < ttl
    }

    /// Reads the API key from the configured header; a missing or empty key
    /// is rejected with 401.
    pub fn extract_api_key(&self, headers: &Headers) -> (r: Result<String, FilterAction>)
        ensures
            match api_key_of(headers.entries@, self.token_header@) {
                Ok(k) => r matches Ok(key) && key@ == k,
                Err(m) => r matches Err(a) && is_unauthorized(a, m, "ApiKey"@),
            },
    {
        let mut i: usize = 0;
        while i < headers.entries.len()
            invariant
                i <= headers.entries.len(),
                forall|j: int| 0 <= j < i ==> headers.entries@[j].0@ != self.token_header@,
            decreases headers.entries.len() - i,
        {
            if text::str_eq(headers.entries[i].0.as_str(), self.token_header.as_str()) {
                proof {
                    crate::filter::lemma_header_index(
                        headers.entries@,
                        self.token_header@,
                        i as int,
                    );
                }
                let raw = match &headers.entries[i].1 {
                    Some(v) => text::owned(v.as_str()),
                    None => String::new(),
                };
                let key = if text::starts_with(raw.as_str(), "Bearer ") {
                    let cs = text::chars_of(raw.as_str());
                    proof {
                        reveal_strlit("Bearer ");
                    }
                    text::string_from_chars(text::copy_range(cs.as_slice(), 7, cs.len()).as_slice())
                } else {
                    raw
                };
                if key.as_str().is_empty() {
                    return Err(reject_unauthorized("empty API key"));
                }
                return Ok(key);
            }
            i = i + 1;
        }
        proof {
            crate::filter::lemma_header_index(headers.entries@, self.token_header@, i as int);
        }
        Err(reject_unauthorized("missing API key"))
    }

    /// Grants a validated identity: lists the key header for removal (where
    /// it is a valid header name) and writes the identity to the metadata.
    pub fn grant(&self, identity: &CachedIdentity, metadata: &mut Metadata, to_remove: &mut Vec<String>) -> (r:
        FilterAction)
        ensures
            r is Continue,
            final(metadata)@ == identity_meta(
                old(metadata)@,
                (identity.username@, identity.group@, identity.subscription@),
            ),
            valid_header_name(self.token_header@) ==> strings_view(final(to_remove)@) == strings_view(
                old(to_remove)@,
            ).push(self.token_header@),
            !valid_header_name(self.token_header@) ==> final(to_remove)@ == old(to_remove)@,
    {
        if crate::filter::is_valid_header_name(self.token_header.as_str()) {
            to_remove.push(text::owned(self.token_header.as_str()));
            assert(strings_view(to_remove@) =~= strings_view(old(to_remove)@).push(
                self.token_header@,
            ));
        }
        metadata.set("x-tenant-username", text::owned(identity.username.as_str()));
        metadata.set("x-tenant-group", text::owned(identity.group.as_str()));
        if !identity.subscription.as_str().is_empty() {
            metadata.set("x-tenant-subscription", text::owned(identity.subscription.as_str()));
        }
        FilterAction::Continue
    }

    /// The answer when the key service does not grant an identity.
    pub fn on_invalid_key(&self) -> (r: FilterAction)
        ensures
            is_unauthorized(r, "invalid API key"@, "ApiKey"@),
    {
        reject_unauthorized("invalid API key")
    }
}

} // verus!
