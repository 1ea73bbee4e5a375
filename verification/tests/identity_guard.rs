use praxis_ai_filters::filter::{FilterAction, Headers, Metadata};
use praxis_ai_filters::identity_guard::{
    default_namespace, IdentityHeaderGuardConfig, IdentityHeaderGuardFilter,
};

fn make_filter(prefix: &str, namespace: &str) -> IdentityHeaderGuardFilter {
    IdentityHeaderGuardFilter::from_config(IdentityHeaderGuardConfig {
        prefix: prefix.to_owned(),
        metadata_namespace: namespace.to_owned(),
    })
    .ok()
    .unwrap()
}

fn headers(entries: &[(&str, Option<&str>)]) -> Headers {
    Headers {
        entries: entries.iter().map(|(k, v)| (k.to_string(), v.map(|s| s.to_string()))).collect(),
    }
}

#[test]
fn from_config_minimal() {
    let filter = make_filter("x-tenant-", &default_namespace());
    assert_eq!(filter.name(), "identity_header_guard");
    assert_eq!(filter.namespace, "identity");
}

#[test]
fn from_config_rejects_empty_prefix_and_namespace() {
    let err = IdentityHeaderGuardFilter::from_config(IdentityHeaderGuardConfig {
        prefix: String::new(),
        metadata_namespace: "identity".to_owned(),
    })
    .err()
    .unwrap();
    assert!(err.to_string().contains("prefix must not be empty"));
    let err = IdentityHeaderGuardFilter::from_config(IdentityHeaderGuardConfig {
        prefix: "x-".to_owned(),
        metadata_namespace: String::new(),
    })
    .err()
    .unwrap();
    assert_eq!(err.to_string(), "identity_header_guard: metadata_namespace must not be empty");
}

#[test]
fn prefix_is_lowercased() {
    let filter = make_filter("X-Tenant-", "identity");
    assert_eq!(filter.prefix, "x-tenant-");
}

#[test]
fn captures_and_strips_prefixed_headers() {
    let filter = make_filter("x-tenant-", "identity");
    let h = headers(&[
        ("x-tenant-username", Some("alice")),
        ("content-type", Some("application/json")),
        ("x-tenant-group", Some("engineering")),
    ]);
    let mut meta = Metadata::new();
    let mut removed: Vec<String> = Vec::new();
    let action = filter.on_request(&h, &mut meta, &mut removed).ok().unwrap();
    assert!(matches!(action, FilterAction::Continue));
    assert_eq!(meta.get("identity.x-tenant-username").map(|s| s.as_str()), Some("alice"));
    assert_eq!(meta.get("identity.x-tenant-group").map(|s| s.as_str()), Some("engineering"));
    assert!(meta.get("identity.content-type").is_none());
    assert_eq!(removed, vec!["x-tenant-username".to_owned(), "x-tenant-group".to_owned()]);
}

#[test]
fn non_text_values_are_stripped_but_not_captured() {
    let filter = make_filter("x-maas-", "maas");
    let h = headers(&[("x-maas-user", None)]);
    let mut meta = Metadata::new();
    let mut removed: Vec<String> = Vec::new();
    filter.on_request(&h, &mut meta, &mut removed).ok().unwrap();
    assert!(meta.entries().is_empty());
    assert_eq!(removed, vec!["x-maas-user".to_owned()]);
}

#[test]
fn later_header_value_wins() {
    let filter = make_filter("x-tenant-", "identity");
    let h = headers(&[("x-tenant-group", Some("a")), ("x-tenant-group", Some("b"))]);
    let mut meta = Metadata::new();
    let mut removed: Vec<String> = Vec::new();
    filter.on_request(&h, &mut meta, &mut removed).ok().unwrap();
    assert_eq!(meta.get("identity.x-tenant-group").map(|s| s.as_str()), Some("b"));
    assert_eq!(removed.len(), 2);
}

#[test]
fn from_config_full() {
    let filter = make_filter("x-maas-", "maas");
    assert_eq!(filter.name(), "identity_header_guard", "full config should parse");
}

#[test]
fn from_config_rejects_empty_prefix() {
    match IdentityHeaderGuardFilter::from_config(IdentityHeaderGuardConfig {
        prefix: String::new(),
        metadata_namespace: default_namespace(),
    }) {
        Err(err) => assert!(
            err.to_string().contains("prefix must not be empty"),
            "error should mention prefix: {}",
            err.to_string()
        ),
        Ok(_) => panic!("empty prefix should be rejected"),
    }
}

#[test]
fn from_config_defaults_namespace_to_identity() {
    let filter = make_filter("x-tenant-", &default_namespace());
    assert_eq!(filter.name(), "identity_header_guard");
    assert_eq!(filter.namespace, "identity");
}
