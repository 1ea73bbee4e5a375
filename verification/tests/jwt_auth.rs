use praxis_ai_filters::filter::{FilterAction, Headers, Metadata};
use praxis_ai_filters::json::parse_json;
use praxis_ai_filters::jwt_auth::{
    check_jwks_size, claim_to_text, keys_from_jwk_set, default_token_header, key_lookup_plan, select_algorithm,
    JwkKeyAlgorithm, JwkKeyType, JwtAlgorithm, JwtAuthConfig, JwtAuthFilter, KeyLookup,
};

fn config(url: &str, claims: &[(&str, &str)]) -> JwtAuthConfig {
    JwtAuthConfig {
        jwks_url: url.to_owned(),
        issuer: None,
        audience: None,
        claim_headers: claims.iter().map(|(a, b)| (a.to_string(), b.to_string())).collect(),
        token_header: default_token_header(),
    }
}

fn filter(token_header: &str) -> JwtAuthFilter {
    let mut cfg = config("http://keycloak:8080/certs", &[("preferred_username", "x-tenant-username"), ("groups", "x-tenant-group")]);
    cfg.token_header = token_header.to_owned();
    JwtAuthFilter::from_config(cfg).ok().unwrap()
}

fn headers(entries: &[(&str, &str)]) -> Headers {
    Headers { entries: entries.iter().map(|(k, v)| (k.to_string(), Some(v.to_string()))).collect() }
}

#[test]
fn config_rejects_empty_jwks_url() {
    let err = JwtAuthFilter::from_config(config("", &[("preferred_username", "x-tenant-username")])).err().unwrap();
    assert!(err.to_string().contains("jwks_url must not be empty"));
}

#[test]
fn config_rejects_empty_claim_headers() {
    let err = JwtAuthFilter::from_config(config("http://keycloak:8080/certs", &[])).err().unwrap();
    assert!(err.to_string().contains("claim_headers must have at least one"));
}

#[test]
fn bearer_prefix_extraction() {
    let f = filter("Authorization");
    assert_eq!(f.token_header, "authorization");
    assert_eq!(f.extract_token(&headers(&[("authorization", "Bearer abc.def.ghi")])).as_deref(), Some("abc.def.ghi"));
    assert_eq!(f.extract_token(&headers(&[("authorization", "BEARER abc")])).as_deref(), Some("abc"));
    assert_eq!(f.extract_token(&headers(&[("authorization", "Bearer ")])).as_deref(), Some("Bearer "));
    assert_eq!(f.extract_token(&headers(&[("authorization", "raw-token")])).as_deref(), Some("raw-token"));
    assert!(f.extract_token(&headers(&[("authorization", "")])).is_none());
    assert!(f.extract_token(&headers(&[])).is_none());
}

#[test]
fn missing_or_garbage_token_rejected() {
    let f = filter("authorization");
    match f.token_and_kid(&headers(&[])).err().unwrap() {
        FilterAction::Reject(r) => {
            assert_eq!(r.status, 401);
            assert_eq!(r.headers, vec![("WWW-Authenticate".to_owned(), "Bearer".to_owned())]);
            assert_eq!(r.body.unwrap(), b"missing or malformed bearer token".to_vec());
        },
        _ => panic!("expected 401"),
    }
    match f.token_and_kid(&headers(&[("authorization", "Bearer not-a-jwt")])).err().unwrap() {
        FilterAction::Reject(r) => assert_eq!(r.body.unwrap(), b"invalid token".to_vec()),
        _ => panic!("expected 401"),
    }
}

#[test]
fn kid_is_read_from_the_header() {
    // {"alg":"RS256","typ":"JWT","kid":"k1"} . {} . signature
    let token = "eyJhbGciOiJSUzI1NiIsInR5cCI6IkpXVCIsImtpZCI6ImsxIn0.e30.c2ln";
    let f = filter("authorization");
    let (t, kid) = f.token_and_kid(&headers(&[("authorization", &format!("Bearer {token}"))])).ok().unwrap();
    assert_eq!(t, token);
    assert_eq!(kid, "k1");
    // Same header without a kid.
    let no_kid = "eyJhbGciOiJSUzI1NiIsInR5cCI6IkpXVCJ9.e30.c2ln";
    assert!(f.token_and_kid(&headers(&[("authorization", no_kid)])).is_err());
}

#[test]
fn claims_are_written_to_metadata() {
    let f = filter("x-api-key");
    let claims = parse_json(br#"{"preferred_username":"yossi","groups":["ai-eng","ops",3],"sub":"u1"}"#).unwrap();
    let mut m = Metadata::new();
    let mut removed: Vec<String> = Vec::new();
    assert!(matches!(f.accept_claims(&claims, &mut m, &mut removed), FilterAction::Continue));
    assert_eq!(m.get("x-tenant-username").map(|s| s.as_str()), Some("yossi"));
    assert_eq!(m.get("x-tenant-group").map(|s| s.as_str()), Some("ai-eng,ops"));
    assert_eq!(removed, vec!["x-api-key".to_owned()]);
}

#[test]
fn claim_text_forms() {
    assert_eq!(claim_to_text(&parse_json(b"\"a\"").unwrap()), "a");
    assert_eq!(claim_to_text(&parse_json(br#"["a","b"]"#).unwrap()), "a,b");
    assert_eq!(claim_to_text(&parse_json(b"42").unwrap()), "42");
    assert_eq!(claim_to_text(&parse_json(br#"{"x":true}"#).unwrap()), r#"{"x":true}"#);
}

#[test]
fn algorithm_selection() {
    assert_eq!(select_algorithm(Some(JwkKeyAlgorithm::RS384), JwkKeyType::Rsa), Some(JwtAlgorithm::RS384));
    assert_eq!(select_algorithm(None, JwkKeyType::Rsa), Some(JwtAlgorithm::RS256));
    assert_eq!(select_algorithm(None, JwkKeyType::EllipticCurve), Some(JwtAlgorithm::ES256));
    assert_eq!(select_algorithm(None, JwkKeyType::Other), None);
    assert_eq!(select_algorithm(Some(JwkKeyAlgorithm::Other), JwkKeyType::Rsa), None);
}

#[test]
fn key_refresh_plan() {
    assert_eq!(key_lookup_plan(None, false), KeyLookup::Refresh);
    assert_eq!(key_lookup_plan(Some(1_000_000_000), true), KeyLookup::Cached);
    assert_eq!(key_lookup_plan(Some(1_000_000_000), false), KeyLookup::Cached);
    assert_eq!(key_lookup_plan(Some(60_000_000_000), false), KeyLookup::Refresh);
    assert_eq!(key_lookup_plan(Some(60_000_000_000), true), KeyLookup::Cached);
    assert_eq!(key_lookup_plan(Some(400_000_000_000), true), KeyLookup::Refresh);
    assert!(check_jwks_size(1_048_576).is_ok());
    assert_eq!(check_jwks_size(1_048_577).err().unwrap(), "JWKS response too large: 1048577 bytes");
}

#[test]
fn jwk_set_entries_follow_kid_algorithm_and_material() {
    let body = br#"{"keys":[
        {"kty":"RSA","kid":"k1","alg":"RS256","n":"AQAB","e":"AQAB"},
        {"kty":"RSA","n":"AQAB","e":"AQAB"},
        {"kty":"EC","kid":"k3","crv":"P-256","x":"AQAB","y":"AQAB"},
        {"kty":"RSA","kid":"k4","alg":"PS256","n":"AQAB","e":"AQAB"},
        {"kty":"oct","kid":"k5","k":"AQAB"},
        {"kty":"RSA","kid":"k6","alg":"RS384","n":"!!!","e":"AQAB"},
        {"kty":"RSA","kid":"k7","n":"AQAB","e":"AQAB"}
    ]}"#;
    let entries = keys_from_jwk_set(body).unwrap();
    let summary: Vec<(String, JwtAlgorithm)> = entries.into_iter().map(|(k, _, a)| (k, a)).collect();
    assert_eq!(
        summary,
        vec![
            ("k1".to_owned(), JwtAlgorithm::RS256),
            ("k3".to_owned(), JwtAlgorithm::ES256),
            ("k7".to_owned(), JwtAlgorithm::RS256),
        ]
    );
}

#[test]
fn jwk_set_errors() {
    let err = keys_from_jwk_set(b"not json").err().unwrap();
    assert!(err.starts_with("JWKS parse failed: "), "{err}");
    let big = vec![b' '; 1_048_577];
    assert_eq!(keys_from_jwk_set(&big).err().unwrap(), "JWKS response too large: 1048577 bytes");
    assert!(keys_from_jwk_set(br#"{"keys":[]}"#).unwrap().is_empty());
}

#[test]
fn validation_rules_follow_configuration() {
    let f = filter("authorization");
    let rules = f.validation_rules(JwtAlgorithm::ES256);
    assert_eq!(rules.algorithm, JwtAlgorithm::ES256);
    assert!(rules.validate_exp && rules.validate_nbf);
    assert!(rules.issuer.is_none() && rules.audience.is_none() && !rules.validate_aud);
    let mut cfg = config("http://idp/certs", &[("sub", "x-user")]);
    cfg.issuer = Some("https://idp".to_owned());
    cfg.audience = Some("gateway".to_owned());
    let f = JwtAuthFilter::from_config(cfg).ok().unwrap();
    let rules = f.validation_rules(JwtAlgorithm::RS256);
    assert_eq!(rules.issuer.as_deref(), Some("https://idp"));
    assert_eq!(rules.audience.as_deref(), Some("gateway"));
    assert!(rules.validate_aud);
}

#[test]
fn verify_rejects_a_token_that_does_not_decode() {
    let body = br#"{"keys":[{"kty":"RSA","kid":"k1","alg":"RS256","n":"AQAB","e":"AQAB"}]}"#;
    let (_, key, alg) = keys_from_jwk_set(body).unwrap().into_iter().next().unwrap();
    let f = filter("authorization");
    let mut meta = Metadata::new();
    let mut removed: Vec<String> = Vec::new();
    match f.verify("not-a-jwt", &key, alg, &mut meta, &mut removed) {
        FilterAction::Reject(r) => assert_eq!(r.status, 401),
        _ => panic!("an undecodable token must be rejected"),
    }
    assert!(meta.entries().is_empty());
    assert!(removed.is_empty());
}
