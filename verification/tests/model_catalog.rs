use praxis_ai_filters::filter::{BodyAccess, FilterAction};
use praxis_ai_filters::model_catalog::{
    default_owned_by, default_path, rfc3339, CatalogFormat, ModelCatalogConfig, ModelCatalogFilter,
    ModelEntry,
};

fn entry(id: &str) -> ModelEntry {
    ModelEntry { id: id.to_owned(), owned_by: default_owned_by(), display_name: None, created: 0 }
}

fn make_filter(format: CatalogFormat, models: Vec<ModelEntry>) -> ModelCatalogFilter {
    ModelCatalogFilter::from_config(ModelCatalogConfig { format, path: default_path(), models })
        .ok()
        .unwrap()
}

fn serve(filter: &ModelCatalogFilter, method: &str, path: &str) -> Option<serde_json::Value> {
    match filter.on_request(method, path).ok().unwrap() {
        FilterAction::Terminal(t) => {
            assert_eq!(t.status, 200);
            assert_eq!(
                t.headers,
                vec![("content-type".to_owned(), "application/json".to_owned())]
            );
            Some(serde_json::from_slice(&t.body).unwrap())
        },
        FilterAction::Continue => None,
        _ => panic!("unexpected action"),
    }
}

#[test]
fn from_config_openai_default() {
    let filter = make_filter(CatalogFormat::Openai, vec![entry("llama-3.1-8b-instruct")]);
    assert_eq!(filter.name(), "model_catalog");
    assert_eq!(filter.request_body_access(), BodyAccess::NoAccess);
}

#[test]
fn from_config_rejects_empty_models() {
    let r = ModelCatalogFilter::from_config(ModelCatalogConfig {
        format: CatalogFormat::Openai,
        path: default_path(),
        models: Vec::new(),
    });
    assert_eq!(r.err().unwrap().to_string(), "models must not be empty");
}

#[test]
fn from_config_rejects_non_absolute_path() {
    let r = ModelCatalogFilter::from_config(ModelCatalogConfig {
        format: CatalogFormat::Openai,
        path: "v1/models".to_owned(),
        models: vec![entry("m")],
    });
    assert_eq!(r.err().unwrap().to_string(), "path must start with '/', got 'v1/models'");
}

#[test]
fn from_config_rejects_empty_id() {
    let r = ModelCatalogFilter::from_config(ModelCatalogConfig {
        format: CatalogFormat::Openai,
        path: default_path(),
        models: vec![entry("a"), entry("")],
    });
    assert_eq!(r.err().unwrap().to_string(), "models[1]: id must not be empty");
}

#[test]
fn ignores_non_get_and_other_paths() {
    let filter = make_filter(CatalogFormat::Openai, vec![entry("m")]);
    assert!(serve(&filter, "POST", "/v1/models").is_none());
    assert!(serve(&filter, "GET", "/v1/chat/completions").is_none());
}

#[test]
fn serves_configured_path() {
    let filter = ModelCatalogFilter::from_config(ModelCatalogConfig {
        format: CatalogFormat::Openai,
        path: "/models".to_owned(),
        models: vec![entry("m")],
    })
    .ok()
    .unwrap();
    assert!(serve(&filter, "GET", "/models").is_some());
}

#[test]
fn openai_envelope_shape() {
    let filter = make_filter(
        CatalogFormat::Openai,
        vec![ModelEntry {
            id: "llama-3.1-8b-instruct".to_owned(),
            owned_by: "acme".to_owned(),
            display_name: None,
            created: 1_700_000_000,
        }],
    );
    let v = serve(&filter, "GET", "/v1/models").unwrap();
    assert_eq!(v["object"], "list");
    assert_eq!(v["data"][0]["id"], "llama-3.1-8b-instruct");
    assert_eq!(v["data"][0]["object"], "model");
    assert_eq!(v["data"][0]["owned_by"], "acme");
    assert_eq!(v["data"][0]["created"], 1_700_000_000);
}

#[test]
fn anthropic_envelope_shape() {
    let filter = make_filter(
        CatalogFormat::Anthropic,
        vec![ModelEntry {
            id: "sonnet-internal".to_owned(),
            owned_by: default_owned_by(),
            display_name: Some("Sonnet (internal)".to_owned()),
            created: 1_700_000_000,
        }],
    );
    let v = serve(&filter, "GET", "/v1/models").unwrap();
    assert_eq!(v["has_more"], false);
    assert_eq!(v["first_id"], "sonnet-internal");
    assert_eq!(v["last_id"], "sonnet-internal");
    assert_eq!(v["data"][0]["type"], "model");
    assert_eq!(v["data"][0]["id"], "sonnet-internal");
    assert_eq!(v["data"][0]["display_name"], "Sonnet (internal)");
    assert_eq!(v["data"][0]["created_at"], "2023-11-14T22:13:20Z");
}

#[test]
fn anthropic_display_name_defaults_to_id() {
    let filter = make_filter(CatalogFormat::Anthropic, vec![entry("bare-model")]);
    let v = serve(&filter, "GET", "/v1/models").unwrap();
    assert_eq!(v["data"][0]["display_name"], "bare-model");
    assert_eq!(v["data"][0]["created_at"], "1970-01-01T00:00:00Z");
}

#[test]
fn lists_all_configured_models_in_order() {
    let filter = make_filter(
        CatalogFormat::Openai,
        vec![entry("llama-3.1-8b-instruct"), entry("mistral-7b-instruct"), entry("sonnet-internal")],
    );
    let v = serve(&filter, "GET", "/v1/models").unwrap();
    let ids: Vec<String> = v["data"]
        .as_array()
        .unwrap()
        .iter()
        .map(|m| m["id"].as_str().unwrap().to_owned())
        .collect();
    assert_eq!(ids, vec!["llama-3.1-8b-instruct", "mistral-7b-instruct", "sonnet-internal"]);
    assert_eq!(v["data"][1]["owned_by"], "praxis");
}

#[test]
fn rfc3339_formats_and_falls_back_to_epoch() {
    assert_eq!(rfc3339(0), "1970-01-01T00:00:00Z");
    assert_eq!(rfc3339(1_700_000_000), "2023-11-14T22:13:20Z");
    assert_eq!(rfc3339(i64::MAX), "1970-01-01T00:00:00Z");
}
