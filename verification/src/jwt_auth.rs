//! The `jwt_auth` filter: validates bearer tokens against the keys of a
//! JWKS endpoint and writes configured claims to the request metadata.
//!
//! The token's `kid` selects the signing key; the signature, expiry,
//! not-before, issuer and audience are checked by `jsonwebtoken`; the
//! configured claims are then copied into the metadata (never into
//! upstream headers, where they would leak). Fetching and caching the key
//! set is done by the caller, which asks [`key_lookup_plan`] when to refresh
//! and turns a fetched set into entries with [`keys_from_jwk_set`].
use jsonwebtoken::jwk::{AlgorithmParameters, KeyAlgorithm};
use jsonwebtoken::{Algorithm, Validation};
use std::collections::HashSet;
use vstd::prelude::*;

use crate::filter::{
    header_text, meta_insert, utf8_bytes, valid_header_name, FilterAction, FilterError, Headers,
    Metadata, Rejection,
};
use crate::json::{fields_view, first_key, json_text, member, to_json_text, JsonSpec, JsonValue};

use crate::text::{self, chars_eq_ignore_ascii_case, join_commas, strings_view, unicode_lowercase};

verus! {

// -----------------------------------------------------------------------------
// Configuration
// -----------------------------------------------------------------------------

/// Configuration of the `jwt_auth` filter.
pub struct JwtAuthConfig {
    /// URL of the JWKS endpoint.
    pub jwks_url: String,
    /// Expected `iss` claim, if any.
    pub issuer: Option<String>,
    /// Expected `aud` claim, if any.
    pub audience: Option<String>,
    /// Claim name to metadata key, in the order they are applied.
    pub claim_headers: Vec<(String, String)>,
    /// Header to read the bearer token from.
    pub token_header: String,
}

/// Default bearer token header.
pub fn default_token_header() -> (r: String)
    ensures
        r@ == "authorization"@,
{
    text::owned("authorization")
}

/// What validation of a configuration gives: the first problem, if any.
pub open spec fn config_error(cfg: JwtAuthConfig) -> Option<Seq<char>> {
    if cfg.jwks_url@.len() == 0 {
        Some("jwt_auth: jwks_url must not be empty"@)
    } else if cfg.claim_headers.len() == 0 {
        Some("jwt_auth: claim_headers must have at least one mapping"@)
    } else {
        None
    }
}

/// Validates a configuration.
pub fn validate_config(cfg: &JwtAuthConfig) -> (r: Result<(), String>)
    ensures
        match r {
            Ok(()) => config_error(*cfg) is None,
            Err(m) => config_error(*cfg) == Some(m@),
        },
{
    if cfg.jwks_url.as_str().is_empty() {
        return Err(text::owned("jwt_auth: jwks_url must not be empty"));
    }
    if cfg.claim_headers.len() == 0 {
        return Err(text::owned("jwt_auth: claim_headers must have at least one mapping"));
    }
    Ok(())
}

// -----------------------------------------------------------------------------
// Keys
// -----------------------------------------------------------------------------

/// The `alg` a JWK declares.
#[derive(Debug, Clone, Copy, PartialEq, Eq, Structural)]
pub enum JwkKeyAlgorithm {
    RS256,
    RS384,
    RS512,
    ES256,
    ES384,
    /// Any other algorithm.
    Other,
}

/// The key type of a JWK.
#[derive(Debug, Clone, Copy, PartialEq, Eq, Structural)]
pub enum JwkKeyType {
    Rsa,
    EllipticCurve,
    /// Any other key type.
    Other,
}

/// A signature algorithm this filter verifies.
#[derive(Debug, Clone, Copy, PartialEq, Eq, Structural)]
pub enum JwtAlgorithm {
    RS256,
    RS384,
    RS512,
    ES256,
    ES384,
}

/// The algorithm a key verifies: the declared one where supported; where
/// none is declared (Azure AD omits it), RS256 for RSA keys and ES256 for
/// elliptic-curve keys; `None` where the key is skipped.
pub open spec fn algorithm_for(declared: Option<JwkKeyAlgorithm>, key_type: JwkKeyType) -> Option<
    JwtAlgorithm,
> {
    match declared {
        Some(JwkKeyAlgorithm::RS256) => Some(JwtAlgorithm::RS256),
        Some(JwkKeyAlgorithm::RS384) => Some(JwtAlgorithm::RS384),
        Some(JwkKeyAlgorithm::RS512) => Some(JwtAlgorithm::RS512),
        Some(JwkKeyAlgorithm::ES256) => Some(JwtAlgorithm::ES256),
        Some(JwkKeyAlgorithm::ES384) => Some(JwtAlgorithm::ES384),
        Some(JwkKeyAlgorithm::Other) => None,
        None => match key_type {
            JwkKeyType::Rsa => Some(JwtAlgorithm::RS256),
            JwkKeyType::EllipticCurve => Some(JwtAlgorithm::ES256),
            JwkKeyType::Other => None,
        },
    }
}

/// Selects the algorithm a key verifies.
pub fn select_algorithm(declared: Option<JwkKeyAlgorithm>, key_type: JwkKeyType) -> (r: Option<
    JwtAlgorithm,
>)
    ensures
        r == algorithm_for(declared, key_type),
{
    match declared {
        Some(JwkKeyAlgorithm::RS256) => Some(JwtAlgorithm::RS256),
        Some(JwkKeyAlgorithm::RS384) => Some(JwtAlgorithm::RS384),
        Some(JwkKeyAlgorithm::RS512) => Some(JwtAlgorithm::RS512),
        Some(JwkKeyAlgorithm::ES256) => Some(JwtAlgorithm::ES256),
        Some(JwkKeyAlgorithm::ES384) => Some(JwtAlgorithm::ES384),
        Some(JwkKeyAlgorithm::Other) => None,
        None => match key_type {
            JwkKeyType::Rsa => Some(JwtAlgorithm::RS256),
            JwkKeyType::EllipticCurve => Some(JwtAlgorithm::ES256),
            JwkKeyType::Other => None,
        },
    }
}

/// How a key of the fetched set enters the cache: under its `kid`, with
/// its algorithm; `None` for a key without `kid` or without a supported
/// algorithm.
pub fn jwk_entry_plan(
    kid: Option<String>,
    declared: Option<JwkKeyAlgorithm>,
    key_type: JwkKeyType,
) -> (r: Option<(String, JwtAlgorithm)>)
    ensures
        match (kid, algorithm_for(declared, key_type)) {
            (Some(k), Some(a)) => r matches Some(p) && p.0@ == k@ && p.1 == a,
            _ => r is None,
        },
{
    let k = match kid {
        Some(k) => k,
        None => return None,
    };
    match select_algorithm(declared, key_type) {
        Some(a) => Some((k, a)),
        None => None,
    }
}

/// Minimum interval between key set refreshes (seconds).
pub const REFRESH_COOLDOWN_SECS: u64 = 30;

/// How long fetched keys are trusted without a refresh (seconds).
pub const KEY_TTL_SECS: u64 = 300;

/// Largest key set response accepted (1 MiB).
pub const MAX_JWKS_BYTES: usize = 1_048_576;

/// Where a key lookup takes its key from.
#[derive(Debug, Clone, Copy, PartialEq, Eq, Structural)]
pub enum KeyLookup {
    /// Answer from the cached keys as they are.
    Cached,
    /// Refresh the key set first (and fall back to the stale keys if the
    /// refresh fails).
    Refresh,
}

/// The lookup plan: a cached key within the TTL is used; otherwise the key
/// set is refreshed unless the last refresh is within the cooldown.
pub open spec fn lookup_plan(since_refresh_nanos: Option<u128>, kid_cached: bool) -> KeyLookup {
    match since_refresh_nanos {
        Some(e) => if (e < KEY_TTL_SECS * 1_000_000_000 && kid_cached) || e < REFRESH_COOLDOWN_SECS
            * 1_000_000_000 {
            KeyLookup::Cached
        } else {
            KeyLookup::Refresh
        },
        None => KeyLookup::Refresh,
    }
}

/// Decides whether a key lookup refreshes the key set, from the time since
/// the last refresh (`None`: never) and whether the `kid` is cached.
pub fn key_lookup_plan(since_refresh_nanos: Option<u128>, kid_cached: bool) -> (r: KeyLookup)
    ensures
        r == lookup_plan(since_refresh_nanos, kid_cached),
{
    match since_refresh_nanos {
        Some(e) => {
            if (e < 300_000_000_000u128 && kid_cached) || e < 30_000_000_000u128 {
                KeyLookup::Cached
            } else {
                KeyLookup::Refresh
            }
        },
        None => KeyLookup::Refresh,
    }
}

/// Refuses a key set response above 1 MiB.
pub fn check_jwks_size(len: usize) -> (r: Result<(), String>)
    ensures
        len <= MAX_JWKS_BYTES ==> r is Ok,
        len > MAX_JWKS_BYTES ==> (r matches Err(m) && m@ == "JWKS response too large: "@
            + text::decimal(len as nat) + " bytes"@),
{
    if len > MAX_JWKS_BYTES {
        let m = text::concat("JWKS response too large: ", crate::filter::usize_to_decimal(len).as_str());
        return Err(text::concat(m.as_str(), " bytes"));
    }
    Ok(())
}

// -----------------------------------------------------------------------------
// Outside types and calls
// -----------------------------------------------------------------------------

/// `jsonwebtoken::DecodingKey`, carried through opaquely.
#[verifier::external_type_specification]
#[verifier::external_body]
pub struct ExDecodingKey(jsonwebtoken::DecodingKey);

/// `jsonwebtoken::Validation`, carried through opaquely.
#[verifier::external_type_specification]
#[verifier::external_body]
pub struct ExValidation(jsonwebtoken::Validation);

/// The `kid` of a token's header, where `jsonwebtoken::decode_header`
/// reads the header (`None` where it fails).
pub uninterp spec fn header_kid(token: Seq<char>) -> Option<Option<Seq<char>>>;

/// Reads the `kid` from a token's header.
///
/// Calls `jsonwebtoken::decode_header` and picks the header's `kid`; the
/// result depends on the token alone and is named (`header_kid`).
#[verifier::external_body]
fn decode_header_kid(token: &str) -> (r: Option<Option<String>>)
    ensures
        match r {
            Some(Some(k)) => header_kid(token@) == Some(Some(k@)),
            Some(None) => header_kid(token@) == Some(None::<Seq<char>>),
            None => header_kid(token@) is None,
        },
{
    jsonwebtoken::decode_header(token).ok().map(|h| h.kid)
}

/// The claims a token carries: its payload segment, decoded and parsed as
/// JSON. A function of the token alone.
pub uninterp spec fn token_claims(token: Seq<char>) -> JsonValue;

/// An optional text by its characters.
pub open spec fn opt_string_view(s: Option<String>) -> Option<Seq<char>> {
    match s {
        Some(t) => Some(t@),
        None => None,
    }
}

/// The checks a token must pass besides its signature, as plain values.
#[derive(Debug, Clone)]
pub struct ValidationRules {
    /// The signature algorithm the key verifies.
    pub algorithm: JwtAlgorithm,
    /// Whether the `exp` claim is checked against the clock.
    pub validate_exp: bool,
    /// Whether the `nbf` claim is checked against the clock.
    pub validate_nbf: bool,
    /// The issuer the `iss` claim must name, where one is required.
    pub issuer: Option<String>,
    /// The audience the `aud` claim must name, where one is required.
    pub audience: Option<String>,
    /// Whether the `aud` claim is checked.
    pub validate_aud: bool,
}

/// Whether an `iss` or `aud` claim names `expected`, as jsonwebtoken's
/// validation reads it: a string must equal it, an array of strings must
/// hold it (an empty array names nothing, and with no name expected any
/// string or array of strings is refused); a claim that is absent, `null`
/// or of another shape is not checked.
pub open spec fn claim_names(claim: Option<JsonSpec>, expected: Option<Seq<char>>) -> bool {
    match claim {
        Some(JsonSpec::Str(s)) => expected == Some(s),
        Some(JsonSpec::Arr(items)) => (forall|k: int| 0 <= k < items.len() ==> #[trigger] items[k] is Str)
            ==> (expected matches Some(e) && items.contains(JsonSpec::Str(e))),
        _ => true,
    }
}

/// What claims that `jsonwebtoken::decode` accepts under the rules satisfy,
/// whatever the clock says: `exp` is present as a number (it is a required
/// claim), the issuer is named where one is required, and the audience is
/// named where it is checked.
pub open spec fn claims_meet_rules(c: JsonSpec, rules: ValidationRules) -> bool {
    &&& member(c, "exp"@) matches Some(JsonSpec::Num(_, _))
    &&& rules.issuer matches Some(i) ==> claim_names(member(c, "iss"@), Some(i@))
    &&& rules.validate_aud ==> claim_names(member(c, "aud"@), opt_string_view(rules.audience))
}

/// The `alg` of a token's header as jsonwebtoken reads it (the algorithm's
/// name, such as `RS256`), or `None` where the header does not decode. A
/// function of the token alone.
pub uninterp spec fn header_alg(token: Seq<char>) -> Option<Seq<char>>;

/// The name of a signature algorithm.
pub open spec fn algorithm_name(a: JwtAlgorithm) -> Seq<char> {
    match a {
        JwtAlgorithm::RS256 => "RS256"@,
        JwtAlgorithm::RS384 => "RS384"@,
        JwtAlgorithm::RS512 => "RS512"@,
        JwtAlgorithm::ES256 => "ES256"@,
        JwtAlgorithm::ES384 => "ES384"@,
    }
}

/// Verifies a token under a set of rules and returns its claims.
///
/// Builds the `jsonwebtoken::Validation` for the rules (`Validation::new`
/// with the algorithm, then the expiry, not-before and audience switches,
/// the rule's issuer as the accepted issuers and its audience, if any, as
/// the accepted audiences) and calls `jsonwebtoken::decode::<Value>`.
/// Whether it succeeds depends on the clock (expiry, not-before), so that is
/// not claimed. A token it accepts declares the rules' algorithm in its
/// header (`Validation::new` lists only that algorithm, and `decode` refuses
/// a header `alg` outside the list); the claims it returns are the token's
/// payload (`token_claims`) and meet what `validate` checks apart from the
/// clock (`claims_meet_rules`).
#[verifier::external_body]
fn decode_claims(token: &str, key: &jsonwebtoken::DecodingKey, rules: &ValidationRules) -> (r: Option<
    JsonValue,
>)
    ensures
        r matches Some(c) ==> c == token_claims(token@) && claims_meet_rules(c@, *rules),
        r is Some ==> header_alg(token@) == Some(algorithm_name(rules.algorithm)),
{
    let mut v = Validation::new(match rules.algorithm {
        JwtAlgorithm::RS256 => Algorithm::RS256,
        JwtAlgorithm::RS384 => Algorithm::RS384,
        JwtAlgorithm::RS512 => Algorithm::RS512,
        JwtAlgorithm::ES256 => Algorithm::ES256,
        JwtAlgorithm::ES384 => Algorithm::ES384,
    });
    v.validate_exp = rules.validate_exp;
    v.validate_nbf = rules.validate_nbf;
    v.validate_aud = rules.validate_aud;
    v.iss = rules.issuer.clone().map(|i| HashSet::from([i]));
    v.aud = Some(rules.audience.iter().cloned().collect());
    let d = jsonwebtoken::decode::<serde_json::Value>(token, key, &v).ok()?;
    Some(crate::json::from_document(d.claims))
}

/// Whether `serde_json` decodes a body as a `jsonwebtoken::jwk::JwkSet`.
pub uninterp spec fn jwk_set_parses(body: Seq<u8>) -> bool;

/// One key of a decoded set, as plain values: its `kid`, the algorithm it
/// declares, its key type, and whether `DecodingKey::from_jwk` accepts it.
pub type JwkSummary = (Option<Seq<char>>, Option<JwkKeyAlgorithm>, JwkKeyType, bool);

/// The keys of the `jsonwebtoken::jwk::JwkSet` that `serde_json` decodes a
/// body as, in order, each as a [`JwkSummary`].
pub uninterp spec fn jwk_summaries(body: Seq<u8>) -> Seq<JwkSummary>;

/// Decodes a key set document and counts its keys.
///
/// Calls `serde_json::from_slice::<jsonwebtoken::jwk::JwkSet>`; whether it
/// succeeds depends on the body alone (`jwk_set_parses`), and on success the
/// count is that of the named keys. The decoder's message is not stated.
#[verifier::external_body]
fn parse_jwk_set(body: &[u8]) -> (r: Result<usize, String>)
    ensures
        r is Ok <==> jwk_set_parses(body@),
        r matches Ok(n) ==> n == jwk_summaries(body@).len(),
{
    serde_json::from_slice::<jsonwebtoken::jwk::JwkSet>(body).map(|s| s.keys.len()).map_err(
        |e| e.to_string(),
    )
}

/// The `kid` (`common.key_id`) of the `i`-th key of a decodable set, read by
/// decoding the set with `serde_json::from_slice::<JwkSet>`.
#[verifier::external_body]
fn jwk_key_id(body: &[u8], i: usize) -> (r: Option<String>)
    requires
        jwk_set_parses(body@),
        i < jwk_summaries(body@).len(),
    ensures
        opt_string_view(r) == jwk_summaries(body@)[i as int].0,
{
    let set = serde_json::from_slice::<jsonwebtoken::jwk::JwkSet>(body).ok();
    set.and_then(|s| s.keys.into_iter().nth(i)).and_then(|k| k.common.key_id)
}

/// The algorithm the `i`-th key of a decodable set declares
/// (`common.key_algorithm`), by variant.
#[verifier::external_body]
fn jwk_declared_algorithm(body: &[u8], i: usize) -> (r: Option<JwkKeyAlgorithm>)
    requires
        jwk_set_parses(body@),
        i < jwk_summaries(body@).len(),
    ensures
        r == jwk_summaries(body@)[i as int].1,
{
    let set = serde_json::from_slice::<jsonwebtoken::jwk::JwkSet>(body).ok();
    match set.and_then(|s| s.keys.into_iter().nth(i)).and_then(|k| k.common.key_algorithm) {
        None => None,
        Some(KeyAlgorithm::RS256) => Some(JwkKeyAlgorithm::RS256),
        Some(KeyAlgorithm::RS384) => Some(JwkKeyAlgorithm::RS384),
        Some(KeyAlgorithm::RS512) => Some(JwkKeyAlgorithm::RS512),
        Some(KeyAlgorithm::ES256) => Some(JwkKeyAlgorithm::ES256),
        Some(KeyAlgorithm::ES384) => Some(JwkKeyAlgorithm::ES384),
        Some(_) => Some(JwkKeyAlgorithm::Other),
    }
}

/// The key type of the `i`-th key of a decodable set (its `algorithm`
/// parameters), by variant.
#[verifier::external_body]
fn jwk_key_type(body: &[u8], i: usize) -> (r: JwkKeyType)
    requires
        jwk_set_parses(body@),
        i < jwk_summaries(body@).len(),
    ensures
        r == jwk_summaries(body@)[i as int].2,
{
    let set = serde_json::from_slice::<jsonwebtoken::jwk::JwkSet>(body).ok();
    match set.and_then(|s| s.keys.into_iter().nth(i)).map(|k| k.algorithm) {
        Some(AlgorithmParameters::RSA(_)) => JwkKeyType::Rsa,
        Some(AlgorithmParameters::EllipticCurve(_)) => JwkKeyType::EllipticCurve,
        _ => JwkKeyType::Other,
    }
}

/// The decoding key of the `i`-th key of a decodable set
/// (`jsonwebtoken::DecodingKey::from_jwk`), `None` where its material does
/// not decode.
#[verifier::external_body]
fn decoding_key_from_jwk(body: &[u8], i: usize) -> (r: Option<jsonwebtoken::DecodingKey>)
    requires
        jwk_set_parses(body@),
        i < jwk_summaries(body@).len(),
    ensures
        r is Some == jwk_summaries(body@)[i as int].3,
{
    let set = serde_json::from_slice::<jsonwebtoken::jwk::JwkSet>(body).ok();
    set.and_then(|s| s.keys.into_iter().nth(i)).and_then(|k| jsonwebtoken::DecodingKey::from_jwk(&k).ok())
}

/// The message for a key set that does not decode.
pub open spec fn jwks_parse_failed(m: Seq<char>) -> bool {
    exists|e: Seq<char>| m == "JWKS parse failed: "@ + e
}

/// The cache entry a key gives: its `kid` and algorithm, where it has a
/// `kid`, a supported algorithm and decodable material.
pub open spec fn summary_entry(s: JwkSummary) -> Option<(Seq<char>, JwtAlgorithm)> {
    match (s.0, algorithm_for(s.1, s.2)) {
        (Some(k), Some(a)) => if s.3 {
            Some((k, a))
        } else {
            None
        },
        _ => None,
    }
}

/// The cache entries of a key set, in the set's order.
pub open spec fn planned_entries(sums: Seq<JwkSummary>) -> Seq<(Seq<char>, JwtAlgorithm)>
    decreases sums.len(),
{
    if sums.len() == 0 {
        Seq::empty()
    } else {
        let before = planned_entries(sums.drop_last());
        match summary_entry(sums.last()) {
            Some(e) => before.push(e),
            None => before,
        }
    }
}

/// Cache entries by `kid` and algorithm.
pub open spec fn key_entries_view(v: Seq<(String, jsonwebtoken::DecodingKey, JwtAlgorithm)>) -> Seq<
    (Seq<char>, JwtAlgorithm),
> {
    Seq::new(v.len(), |i: int| (v[i].0@, v[i].2))
}

/// Turns a fetched key set body into cache entries: a body above 1 MiB is
/// refused, then the set is decoded, and each key with a `kid`, a supported
/// algorithm (see [`jwk_entry_plan`]) and decodable material becomes an
/// entry, in the set's order; other keys are skipped.
pub fn keys_from_jwk_set(body: &[u8]) -> (r: Result<
    Vec<(String, jsonwebtoken::DecodingKey, JwtAlgorithm)>,
    String,
>)
    ensures
        body@.len() > MAX_JWKS_BYTES ==> (r matches Err(m) && m@ == "JWKS response too large: "@
            + text::decimal(body@.len()) + " bytes"@),
        body@.len() <= MAX_JWKS_BYTES ==> (r is Ok <==> jwk_set_parses(body@)),
        body@.len() <= MAX_JWKS_BYTES && !jwk_set_parses(body@) ==> (r matches Err(m)
            && jwks_parse_failed(m@)),
        r matches Ok(v) ==> key_entries_view(v@) == planned_entries(jwk_summaries(body@)),
{
    check_jwks_size(body.len())?;
    let n = match parse_jwk_set(body) {
        Ok(n) => n,
        Err(e) => {
            return Err(text::concat("JWKS parse failed: ", e.as_str()));
        },
    };
    let ghost sums = jwk_summaries(body@);
    let mut entries: Vec<(String, jsonwebtoken::DecodingKey, JwtAlgorithm)> = Vec::new();
    let mut i: usize = 0;
    while i < n
        invariant
            i <= n,
            n == sums.len(),
            sums == jwk_summaries(body@),
            jwk_set_parses(body@),
            key_entries_view(entries@) == planned_entries(sums.take(i as int)),
        decreases n - i,
    {
        proof {
            assert(sums.take(i as int + 1).drop_last() =~= sums.take(i as int));
            assert(sums.take(i as int + 1).last() == sums[i as int]);
        }
        let planned = jwk_entry_plan(
            jwk_key_id(body, i),
            jwk_declared_algorithm(body, i),
            jwk_key_type(body, i),
        );
        match planned {
            Some((kid, alg)) => match decoding_key_from_jwk(body, i) {
                Some(key) => {
                    let ghost before = entries@;
                    entries.push((kid, key, alg));
                    proof {
                        assert(key_entries_view(entries@) =~= key_entries_view(before).push(
                            (kid@, alg),
                        ));
                    }
                },
                None => {},
            },
            None => {},
        }
        i = i + 1;
    }
    proof {
        assert(sums.take(n as int) =~= sums);
    }
    Ok(entries)
}

// -----------------------------------------------------------------------------
// Claims
// -----------------------------------------------------------------------------

/// The claim named `name`, where the claims are an object that has it.
pub open spec fn claim_value(claims: JsonValue, name: Seq<char>) -> Option<JsonValue> {
    match claims {
        JsonValue::Obj(fields) => match first_key(fields_view(fields@), name) {
            Some(i) => Some(fields@[i].1),
            None => None,
        },
        _ => None,
    }
}

/// The string items of an array, in order.
pub open spec fn string_items(items: Seq<JsonValue>) -> Seq<Seq<char>>
    decreases items.len(),
{
    if items.len() == 0 {
        Seq::empty()
    } else {
        let rest = string_items(items.drop_last());
        match items.last() {
            JsonValue::Str(s) => rest.push(s@),
            _ => rest,
        }
    }
}

/// The metadata text of a claim: a string as it is, an array as its string
/// items joined with commas, anything else as compact JSON.
pub open spec fn claim_text(v: JsonValue) -> Seq<char> {
    match v {
        JsonValue::Str(s) => s@,
        JsonValue::Arr(items) => join_commas(string_items(items@)),
        _ => json_text(v@),
    }
}

/// The metadata after copying the mapped claims, in order.
pub open spec fn claims_meta(
    claims: JsonValue,
    mapping: Seq<(String, String)>,
    m: Seq<(Seq<char>, Seq<char>)>,
) -> Seq<(Seq<char>, Seq<char>)>
    decreases mapping.len(),
{
    if mapping.len() == 0 {
        m
    } else {
        let m1 = claims_meta(claims, mapping.drop_last(), m);
        match claim_value(claims, mapping.last().0@) {
            Some(v) => meta_insert(m1, mapping.last().1@, claim_text(v)),
            None => m1,
        }
    }
}

/// The claim named `name`.
fn get_claim<'a>(claims: &'a JsonValue, name: &str) -> (r: Option<&'a JsonValue>)
    ensures
        match r {
            Some(v) => claim_value(*claims, name@) == Some(*v),
            None => claim_value(*claims, name@) is None,
        },
{
    match claims {
        JsonValue::Obj(fields) => match crate::json::field_index(fields, name) {
            Some(i) => Some(&fields[i].1),
            None => None,
        },
        _ => None,
    }
}

/// The metadata text of a claim.
pub fn claim_to_text(v: &JsonValue) -> (r: String)
    ensures
        r@ == claim_text(*v),
{
    match v {
        JsonValue::Str(s) => text::owned(s.as_str()),
        JsonValue::Arr(items) => {
            let mut parts: Vec<String> = Vec::new();
            let mut i: usize = 0;
            while i < items.len()
                invariant
                    i <= items.len(),
                    strings_view(parts@) == string_items(items@.take(i as int)),
                decreases items.len() - i,
            {
                proof {
                    assert(items@.take(i as int + 1).drop_last() =~= items@.take(i as int));
                }
                match &items[i] {
                    JsonValue::Str(s) => {
                        let ghost before = parts@;
                        parts.push(text::owned(s.as_str()));
                        assert(strings_view(parts@) =~= strings_view(before).push(s@));
                    },
                    _ => {},
                }
                i = i + 1;
            }
            assert(items@.take(items@.len() as int) =~= items@);
            text::join_with_commas(&parts)
        },
        _ => to_json_text(v),
    }
}

/// Copies the mapped claims into the metadata.
pub fn apply_claims(claims: &JsonValue, mapping: &Vec<(String, String)>, metadata: &mut Metadata)
    ensures
        final(metadata)@ == claims_meta(*claims, mapping@, old(metadata)@),
{
    let ghost m0 = metadata@;
    let mut i: usize = 0;
    while i < mapping.len()
        invariant
            i <= mapping.len(),
            metadata@ == claims_meta(*claims, mapping@.take(i as int), m0),
        decreases mapping.len() - i,
    {
        proof {
            assert(mapping@.take(i as int + 1).drop_last() =~= mapping@.take(i as int));
        }
        match get_claim(claims, mapping[i].0.as_str()) {
            Some(v) => {
                let t = claim_to_text(v);
                metadata.insert(text::owned(mapping[i].1.as_str()), t);
            },
            None => {},
        }
        i = i + 1;
    }
    assert(mapping@.take(mapping@.len() as int) =~= mapping@);
}

// -----------------------------------------------------------------------------
// The filter
// -----------------------------------------------------------------------------

/// What the claims of an accepted token satisfy under this filter's
/// configuration: `exp` is present as a number, the configured issuer is
/// named by `iss`, and the configured audience by `aud` (see
/// [`claim_names`]).
pub open spec fn claims_accepted(c: JsonSpec, issuer: Option<String>, audience: Option<String>) -> bool {
    &&& member(c, "exp"@) matches Some(JsonSpec::Num(_, _))
    &&& issuer matches Some(i) ==> claim_names(member(c, "iss"@), Some(i@))
    &&& audience matches Some(a) ==> claim_names(member(c, "aud"@), Some(a@))
}

/// Validates JWT bearer tokens and writes verified claims to the metadata.
pub struct JwtAuthFilter {
    /// Expected issuer (`iss` claim).
    pub issuer: Option<String>,
    /// Expected audience (`aud` claim).
    pub audience: Option<String>,
    /// Claim name to metadata key.
    pub claim_headers: Vec<(String, String)>,
    /// Header to read the bearer token from, lowercase.
    pub token_header: String,
}

/// Whether an action rejects with 401, the given body and a `Bearer`
/// challenge.
pub open spec fn is_bearer_rejection(a: FilterAction, message: Seq<char>) -> bool {
    crate::api_key_auth::is_unauthorized(a, message, "Bearer"@)
}

/// Rejects with 401 Unauthorized and a `Bearer` challenge.
pub fn reject_unauthorized(message: &str) -> (r: FilterAction)
    ensures
        is_bearer_rejection(r, message@),
{
    let mut headers: Vec<(String, String)> = Vec::new();
    headers.push((text::owned("WWW-Authenticate"), text::owned("Bearer")));
    FilterAction::Reject(Rejection { status: 401, headers, body: Some(utf8_bytes(message)) })
}

/// The token a header value carries: the rest after a case-insensitive
/// `bearer ` prefix (when something follows it), else the whole non-empty
/// value.
pub open spec fn token_of_value(v: Seq<char>) -> Option<Seq<char>> {
    if v.len() > 7 && text::ascii_lower_seq(v.subrange(0, 7)) == "bearer "@ {
        Some(v.subrange(7, v.len() as int))
    } else if v.len() > 0 {
        Some(v)
    } else {
        None
    }
}

/// The token the request carries in `header`.
pub open spec fn token_of(h: Seq<(String, Option<String>)>, header: Seq<char>) -> Option<Seq<char>> {
    match header_text(h, header) {
        Some(v) => token_of_value(v),
        None => None,
    }
}

/// What the first step gives: the token and its `kid`, or the rejection
/// message.
pub open spec fn token_kid_step(h: Seq<(String, Option<String>)>, header: Seq<char>) -> Result<
    (Seq<char>, Seq<char>),
    Seq<char>,
> {
    match token_of(h, header) {
        None => Err("missing or malformed bearer token"@),
        Some(t) => match header_kid(t) {
            Some(Some(k)) => Ok((t, k)),
            _ => Err("invalid token"@),
        },
    }
}

impl JwtAuthFilter {
    /// Builds the filter from a validated configuration, lowercasing the
    /// header name.
    pub fn from_config(cfg: JwtAuthConfig) -> (r: Result<JwtAuthFilter, FilterError>)
        ensures
            match r {
                Err(e) => config_error(cfg) == Some(e.message@),
                Ok(f) => config_error(cfg) is None && f.issuer == cfg.issuer && f.audience
                    == cfg.audience && f.claim_headers == cfg.claim_headers && f.token_header@
                    == unicode_lowercase(cfg.token_header@),
            },
    {
        match validate_config(&cfg) {
            Ok(()) => {},
            Err(m) => return Err(FilterError::new(m)),
        }
        Ok(
            JwtAuthFilter {
                issuer: cfg.issuer,
                audience: cfg.audience,
                claim_headers: cfg.claim_headers,
                token_header: text::to_lowercase(cfg.token_header.as_str()),
            },
        )
    }

    /// The filter's registered name.
    pub fn name(&self) -> (r: &'static str)
        ensures
            r@ == "jwt_auth"@,
    {
        "jwt_auth"
    }

    /// Extracts the token from the configured header.
    pub fn extract_token(&self, headers: &Headers) -> (r: Option<String>)
        ensures
            match r {
                Some(t) => token_of(headers.entries@, self.token_header@) == Some(t@),
                None => token_of(headers.entries@, self.token_header@) is None,
            },
    {
        let v = match headers.get_str(self.token_header.as_str()) {
            Some(v) => v,
            None => return None,
        };
        let cs = text::chars_of(v.as_str());
        let prefix = text::chars_of("bearer ");
        proof {
            reveal_strlit("bearer ");
        }
        if cs.len() > 7 {
            let head = text::copy_range(cs.as_slice(), 0, 7);
            if chars_eq_ignore_ascii_case(head.as_slice(), prefix.as_slice()) {
                proof {
                    assert(text::ascii_lower_seq(prefix@) =~= prefix@);
                }
                let rest = text::copy_range(cs.as_slice(), 7, cs.len());
                return Some(text::string_from_chars(rest.as_slice()));
            }
            proof {
                assert(text::ascii_lower_seq(prefix@) =~= prefix@);
            }
        }
        if cs.len() > 0 {
            Some(text::owned(v.as_str()))
        } else {
            None
        }
    }

    /// The first step of a request: the token and the `kid` of its header,
    /// or the 401 answer.
    pub fn token_and_kid(&self, headers: &Headers) -> (r: Result<(String, String), FilterAction>)
        ensures
            match token_kid_step(headers.entries@, self.token_header@) {
                Ok((t, k)) => r matches Ok(p) && p.0@ == t && p.1@ == k,
                Err(m) => r matches Err(a) && is_bearer_rejection(a, m),
            },
    {
        let token = match self.extract_token(headers) {
            Some(t) => t,
            None => return Err(reject_unauthorized("missing or malformed bearer token")),
        };
        match decode_header_kid(token.as_str()) {
            Some(Some(kid)) => Ok((token, kid)),
            _ => Err(reject_unauthorized("invalid token")),
        }
    }

    /// The answer when no key is known for the `kid`.
    pub fn on_unknown_key(&self) -> (r: FilterAction)
        ensures
            is_bearer_rejection(r, "invalid token"@),
    {
        reject_unauthorized("invalid token")
    }

    /// The checks a token must pass: expiry and not-before always; the
    /// issuer and the audience where configured.
    pub fn validation_rules(&self, algorithm: JwtAlgorithm) -> (r: ValidationRules)
        ensures
            r.algorithm == algorithm,
            r.validate_exp,
            r.validate_nbf,
            opt_string_view(r.issuer) == opt_string_view(self.issuer),
            opt_string_view(r.audience) == opt_string_view(self.audience),
            r.validate_aud == self.audience is Some,
    {
        let issuer = match &self.issuer {
            Some(i) => Some(text::owned(i.as_str())),
            None => None,
        };
        let audience = match &self.audience {
            Some(a) => Some(text::owned(a.as_str())),
            None => None,
        };
        let validate_aud = audience.is_some();
        ValidationRules { algorithm, validate_exp: true, validate_nbf: true, issuer, audience, validate_aud }
    }

    /// Verifies the token with the key under [`Self::validation_rules`] for
    /// the key's algorithm; on success copies the mapped claims of the
    /// token into the metadata and lists the token header for removal,
    /// otherwise rejects with 401.
    pub fn verify(
        &self,
        token: &str,
        key: &jsonwebtoken::DecodingKey,
        algorithm: JwtAlgorithm,
        metadata: &mut Metadata,
        to_remove: &mut Vec<String>,
    ) -> (r: FilterAction)
        ensures
            r is Continue || is_bearer_rejection(r, "invalid token"@),
            is_bearer_rejection(r, "invalid token"@) ==> final(metadata)@ == old(metadata)@
                && final(to_remove)@ == old(to_remove)@,
            r is Continue ==> final(metadata)@ == claims_meta(
                token_claims(token@),
                self.claim_headers@,
                old(metadata)@,
            ),
            r is Continue ==> claims_accepted(token_claims(token@)@, self.issuer, self.audience),
            r is Continue ==> header_alg(token@) == Some(algorithm_name(algorithm)),
            r is Continue ==> (valid_header_name(self.token_header@) ==> strings_view(
                final(to_remove)@,
            ) == strings_view(old(to_remove)@).push(self.token_header@)),
            r is Continue ==> (!valid_header_name(self.token_header@) ==> final(to_remove)@ == old(
                to_remove,
            )@),
    {
        let rules = self.validation_rules(algorithm);
        let claims = match decode_claims(token, key, &rules) {
            Some(c) => c,
            None => return reject_unauthorized("invalid token"),
        };
        self.accept_claims(&claims, metadata, to_remove)
    }

    /// Accepts verified claims: copies the mapped claims into the metadata
    /// and lists the token header for removal (where it is a valid name).
    pub fn accept_claims(&self, claims: &JsonValue, metadata: &mut Metadata, to_remove: &mut Vec<String>) -> (r:
        FilterAction)
        ensures
            r is Continue,
            final(metadata)@ == claims_meta(*claims, self.claim_headers@, old(metadata)@),
            valid_header_name(self.token_header@) ==> strings_view(final(to_remove)@) == strings_view(
                old(to_remove)@,
            ).push(self.token_header@),
            !valid_header_name(self.token_header@) ==> final(to_remove)@ == old(to_remove)@,
    {
        apply_claims(claims, &self.claim_headers, metadata);
        if crate::filter::is_valid_header_name(self.token_header.as_str()) {
            to_remove.push(text::owned(self.token_header.as_str()));
            assert(strings_view(to_remove@) =~= strings_view(old(to_remove)@).push(
                self.token_header@,
            ));
        }
        FilterAction::Continue
    }
}

} // verus!
