use praxis_ai_filters::filter::{BodyAccess, FilterAction, Metadata};
use praxis_ai_filters::model_access::{
    default_group_metadata_key, default_max_body_bytes, validate_config, AccessMode, GroupOverride,
    ModelAccessConfig, ModelAccessFilter, ModelPattern,
};

fn strings(v: &[&str]) -> Vec<String> {
    v.iter().map(|s| s.to_string()).collect()
}

fn config(mode: AccessMode, models: &[&str], overrides: Vec<GroupOverride>) -> ModelAccessConfig {
    ModelAccessConfig {
        mode,
        models: strings(models),
        overrides,
        max_body_bytes: default_max_body_bytes(),
        group_metadata_key: default_group_metadata_key(),
    }
}

fn make_filter_simple(mode: AccessMode, models: &[&str]) -> ModelAccessFilter {
    ModelAccessFilter::from_config(config(mode, models, Vec::new())).ok().unwrap()
}

fn run_with_model(filter: &ModelAccessFilter, model: &str, group: Option<&str>) -> FilterAction {
    let body = format!(r#"{{"model":"{model}","messages":[]}}"#);
    let mut meta = Metadata::new();
    if let Some(g) = group {
        meta.insert("x-tenant-group".to_owned(), g.to_owned());
    }
    filter.on_request(Some(body.as_bytes()), &meta).ok().unwrap()
}

#[test]
fn from_config_denylist() {
    let filter = make_filter_simple(AccessMode::Denylist, &["o3-pro"]);
    assert_eq!(filter.name(), "model_access");
    assert_eq!(filter.request_body_access(), BodyAccess::ReadOnly);
}

#[test]
fn from_config_rejects_empty_override_groups() {
    let cfg = config(
        AccessMode::Denylist,
        &["test"],
        vec![GroupOverride { groups: Vec::new(), mode: AccessMode::Allowlist, models: strings(&["*"]) }],
    );
    assert_eq!(validate_config(&cfg), Err("override[0]: groups must not be empty".to_owned()));
    assert!(ModelAccessFilter::from_config(cfg).is_err());
}

#[test]
fn from_config_rejects_empty_override_models_and_nothing_configured() {
    let cfg = config(
        AccessMode::Denylist,
        &[],
        vec![
            GroupOverride { groups: strings(&["a"]), mode: AccessMode::Allowlist, models: strings(&["*"]) },
            GroupOverride { groups: strings(&["b"]), mode: AccessMode::Allowlist, models: Vec::new() },
        ],
    );
    assert_eq!(validate_config(&cfg), Err("override[1]: models must not be empty".to_owned()));
    let cfg = config(AccessMode::Denylist, &[], Vec::new());
    assert_eq!(
        validate_config(&cfg),
        Err("at least one of models or overrides must be non-empty".to_owned())
    );
}

#[test]
fn denylist_blocks_exact_and_prefix_matches() {
    let filter = make_filter_simple(AccessMode::Denylist, &["o3-pro", "sonnet-opus-*"]);
    match run_with_model(&filter, "o3-pro", None) {
        FilterAction::Reject(r) => {
            assert_eq!(r.status, 403);
            assert_eq!(r.body.unwrap(), b"model 'o3-pro' is not permitted by access policy".to_vec());
        },
        _ => panic!("denied model should be rejected"),
    }
    assert!(matches!(
        run_with_model(&filter, "sonnet-opus-4-20250514", None),
        FilterAction::Reject(_)
    ));
    assert!(matches!(run_with_model(&filter, "sonnet-fable-5", None), FilterAction::Continue));
}

#[test]
fn allowlist_allows_only_listed() {
    let filter = make_filter_simple(AccessMode::Allowlist, &["gpt-4o", "sonnet-fable-5"]);
    assert!(matches!(run_with_model(&filter, "sonnet-fable-5", None), FilterAction::Continue));
    assert!(matches!(run_with_model(&filter, "o3-pro", None), FilterAction::Reject(_)));
}

#[test]
fn group_override_first_match_wins() {
    let cfg = config(
        AccessMode::Denylist,
        &["sonnet-fable-*"],
        vec![
            GroupOverride {
                groups: strings(&["ai-eng", "executive"]),
                mode: AccessMode::Allowlist,
                models: strings(&["*"]),
            },
            GroupOverride { groups: strings(&["ai-eng"]), mode: AccessMode::Denylist, models: strings(&["*"]) },
        ],
    );
    let filter = ModelAccessFilter::from_config(cfg).ok().unwrap();
    assert!(matches!(run_with_model(&filter, "sonnet-fable-5", Some("ai-eng")), FilterAction::Continue));
    assert!(matches!(run_with_model(&filter, "sonnet-fable-5", Some("sales")), FilterAction::Reject(_)));
    assert!(matches!(run_with_model(&filter, "sonnet-fable-5", None), FilterAction::Reject(_)));
    assert!(matches!(run_with_model(&filter, "gpt-4o", Some("sales")), FilterAction::Continue));
}

#[test]
fn unreadable_body_or_missing_model_is_allowed() {
    let filter = make_filter_simple(AccessMode::Allowlist, &["gpt-4o"]);
    let meta = Metadata::new();
    for body in [&b"not json"[..], br#"{"messages":[]}"#, br#"{"model":null}"#, br#"{"model":7}"#] {
        assert!(matches!(filter.on_request(Some(body), &meta).ok().unwrap(), FilterAction::Continue));
    }
    assert!(matches!(filter.on_request(None, &meta).ok().unwrap(), FilterAction::Continue));
    assert!(matches!(
        filter.on_request(Some(&br#"["o3-pro"]"#[..]), &meta).ok().unwrap(),
        FilterAction::Reject(_)
    ));
}

#[test]
fn patterns_compile_as_globs() {
    assert!(ModelPattern::from_str("*").matches("anything"));
    assert!(ModelPattern::from_str("gpt-*").matches("gpt-4o"));
    assert!(!ModelPattern::from_str("gpt-*").matches("o3"));
    assert!(ModelPattern::from_str("o3").matches("o3"));
    assert!(!ModelPattern::from_str("o3").matches("o3-pro"));
    assert!(ModelPattern::from_str("a**").matches("a*b"));
    assert!(!ModelPattern::from_str("a**").matches("ab"));
}

#[test]
fn allowlist_and_denylist_are_complementary() {
    let allow = make_filter_simple(AccessMode::Allowlist, &["gpt-*", "o3"]);
    let deny = make_filter_simple(AccessMode::Denylist, &["gpt-*", "o3"]);
    for model in ["gpt-4o", "o3", "o3-pro", "sonnet"] {
        let a = matches!(run_with_model(&allow, model, None), FilterAction::Continue);
        let d = matches!(run_with_model(&deny, model, None), FilterAction::Continue);
        assert_ne!(a, d, "{model}");
    }
}

#[test]
fn from_config_with_overrides() {
    let cfg = config(
        AccessMode::Denylist,
        &["sonnet-fable-*"],
        vec![GroupOverride { groups: strings(&["ai-eng"]), mode: AccessMode::Allowlist, models: strings(&["*"]) }],
    );
    let filter = ModelAccessFilter::from_config(cfg).ok().unwrap();
    assert_eq!(filter.name(), "model_access");
}
