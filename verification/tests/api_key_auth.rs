use praxis_ai_filters::api_key_auth::{
    default_cache_ttl, default_timeout, default_token_header, identity_from_validation,
    validation_request_body, ApiKeyAuthConfig, ApiKeyAuthFilter, CachedIdentity,
};
use praxis_ai_filters::filter::{FilterAction, Headers, Metadata};

fn config(url: &str) -> ApiKeyAuthConfig {
    ApiKeyAuthConfig {
        validate_url: url.to_owned(),
        token_header: default_token_header(),
        cache_ttl_seconds: default_cache_ttl(),
        timeout_seconds: default_timeout(),
    }
}

fn filter() -> ApiKeyAuthFilter {
    ApiKeyAuthFilter::from_config(config("http://maas-api:8080/validate")).ok().unwrap()
}

fn headers(entries: &[(&str, &str)]) -> Headers {
    Headers { entries: entries.iter().map(|(k, v)| (k.to_string(), Some(v.to_string()))).collect() }
}

fn assert_unauthorized(a: FilterAction, body: &str) {
    match a {
        FilterAction::Reject(r) => {
            assert_eq!(r.status, 401);
            assert_eq!(r.headers, vec![("WWW-Authenticate".to_owned(), "ApiKey".to_owned())]);
            assert_eq!(r.body.unwrap(), body.as_bytes().to_vec());
        },
        _ => panic!("expected a 401"),
    }
}

#[test]
fn config_rejects_empty_validate_url() {
    let err = ApiKeyAuthFilter::from_config(config("")).err().unwrap();
    assert!(err.to_string().contains("validate_url must not be empty"));
    let mut cfg = config("http://x");
    cfg.timeout_seconds = 0;
    assert_eq!(
        ApiKeyAuthFilter::from_config(cfg).err().unwrap().to_string(),
        "api_key_auth: timeout_seconds must be greater than 0"
    );
}

#[test]
fn header_name_is_lowercased() {
    let mut cfg = config("http://x");
    cfg.token_header = "X-Api-Key".to_owned();
    let f = ApiKeyAuthFilter::from_config(cfg).ok().unwrap();
    assert_eq!(f.token_header, "x-api-key");
    assert_eq!(f.name(), "api_key_auth");
}

#[test]
fn missing_and_empty_keys_rejected() {
    let f = filter();
    assert_unauthorized(f.extract_api_key(&headers(&[])).err().unwrap(), "missing API key");
    assert_unauthorized(f.extract_api_key(&headers(&[("x-api-key", "")])).err().unwrap(), "empty API key");
    assert_unauthorized(
        f.extract_api_key(&headers(&[("x-api-key", "Bearer ")])).err().unwrap(),
        "empty API key",
    );
}

#[test]
fn key_extraction_strips_bearer() {
    let f = filter();
    assert_eq!(f.extract_api_key(&headers(&[("x-api-key", "sk-oai-test123")])).ok().unwrap(), "sk-oai-test123");
    assert_eq!(f.extract_api_key(&headers(&[("x-api-key", "Bearer sk-1")])).ok().unwrap(), "sk-1");
    assert_eq!(f.extract_api_key(&headers(&[("x-api-key", "bearer sk-1")])).ok().unwrap(), "bearer sk-1");
}

#[test]
fn validation_answers() {
    let id = identity_from_validation(
        200,
        br#"{"valid":true,"username":"yossi","groups":["ai-eng","ops"],"subscription":"enterprise"}"#,
    )
    .unwrap();
    assert_eq!(id.username, "yossi");
    assert_eq!(id.group, "ai-eng,ops");
    assert_eq!(id.subscription, "enterprise");
    assert!(identity_from_validation(200, br#"{"valid":false,"username":"x"}"#).is_none());
    assert!(identity_from_validation(401, br#"{"valid":true}"#).is_none());
    assert!(identity_from_validation(200, b"garbage").is_none());
    assert!(identity_from_validation(200, br#"{"valid":true,"groups":[1]}"#).is_none());
    let bare = identity_from_validation(200, br#"{"valid":true}"#).unwrap();
    assert_eq!(bare.username, "");
    assert_eq!(bare.group, "");
}

#[test]
fn valid_key_writes_metadata_and_strips_header() {
    let f = filter();
    let mut m = Metadata::new();
    let mut removed: Vec<String> = Vec::new();
    let id = CachedIdentity {
        username: "yossi".to_owned(),
        group: "ai-eng".to_owned(),
        subscription: "enterprise".to_owned(),
    };
    assert!(matches!(f.grant(&id, &mut m, &mut removed), FilterAction::Continue));
    assert_eq!(m.get("x-tenant-username").map(|s| s.as_str()), Some("yossi"));
    assert_eq!(m.get("x-tenant-group").map(|s| s.as_str()), Some("ai-eng"));
    assert_eq!(m.get("x-tenant-subscription").map(|s| s.as_str()), Some("enterprise"));
    assert_eq!(removed, vec!["x-api-key".to_owned()]);
    let mut m = Metadata::new();
    let no_sub = CachedIdentity { username: "a".to_owned(), group: String::new(), subscription: String::new() };
    f.grant(&no_sub, &mut m, &mut removed);
    assert!(m.get("x-tenant-subscription").is_none());
}

#[test]
fn cache_freshness_and_request_body() {
    let f = filter();
    assert!(f.is_fresh(0));
    assert!(f.is_fresh(299_999_999_999));
    assert!(!f.is_fresh(300_000_000_000));
    let body = validation_request_body("sk-1").unwrap();
    assert_eq!(body, br#"{"key":"sk-1"}"#.to_vec());
    assert_unauthorized(f.on_invalid_key(), "invalid API key");
}
