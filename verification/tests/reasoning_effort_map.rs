use praxis_ai_filters::filter::FilterAction;
use praxis_ai_filters::reasoning_effort_map::{
    default_effort_values, default_max_body_bytes, ReasoningEffortMapConfig, ReasoningEffortMapFilter,
};

const QWEN: &str = "Inferact/Qwen3.8-Flash-Next-NVFP4";

fn make_filter_with(values: Vec<(String, String)>) -> ReasoningEffortMapFilter {
    ReasoningEffortMapFilter::from_config(ReasoningEffortMapConfig {
        models: vec![QWEN.to_owned()],
        values,
        max_body_bytes: default_max_body_bytes(),
    })
    .ok()
    .unwrap()
}

fn run(filter: &ReasoningEffortMapFilter, input: &str) -> (serde_json::Value, bool) {
    let raw = input.as_bytes().to_vec();
    let mut body = Some(raw.clone());
    let action = filter.on_request_body(&mut body, true).ok().unwrap();
    assert!(matches!(action, FilterAction::Continue));
    let out = body.unwrap();
    (serde_json::from_slice(&out).unwrap(), out != raw)
}

#[test]
fn chat_top_level_high_becomes_xhigh() {
    let filter = make_filter_with(default_effort_values());
    let (result, mutated) = run(
        &filter,
        r#"{"model":"Inferact/Qwen3.8-Flash-Next-NVFP4","reasoning_effort":"high","messages":[{"role":"user","content":"hi"}]}"#,
    );
    assert!(mutated);
    assert_eq!(result["reasoning_effort"], "xhigh");
    assert_eq!(result["model"], QWEN);
}

#[test]
fn responses_reasoning_effort_high_becomes_xhigh() {
    let filter = make_filter_with(default_effort_values());
    let (result, mutated) = run(
        &filter,
        r#"{"model":"Inferact/Qwen3.8-Flash-Next-NVFP4","reasoning":{"effort":"high","summary":"auto"},"input":"hi"}"#,
    );
    assert!(mutated);
    assert_eq!(result["reasoning"]["effort"], "xhigh");
    assert_eq!(result["reasoning"]["summary"], "auto");
}

#[test]
fn both_shapes_mapped_and_minimal_becomes_low() {
    let filter = make_filter_with(default_effort_values());
    let (result, mutated) = run(
        &filter,
        r#"{"model":"Inferact/Qwen3.8-Flash-Next-NVFP4","reasoning_effort":"high","reasoning":{"effort":"minimal"},"messages":[]}"#,
    );
    assert!(mutated);
    assert_eq!(result["reasoning_effort"], "xhigh");
    assert_eq!(result["reasoning"]["effort"], "low");
}

#[test]
fn accepted_and_unmapped_values_untouched() {
    let filter = make_filter_with(default_effort_values());
    for value in ["xhigh", "medium", "low", "ultra"] {
        let input = format!(r#"{{"model":"{QWEN}","reasoning_effort":"{value}","messages":[]}}"#);
        let (result, mutated) = run(&filter, &input);
        assert!(!mutated, "{value}");
        assert_eq!(result["reasoning_effort"], value);
    }
}

#[test]
fn other_models_untouched() {
    let filter = make_filter_with(default_effort_values());
    for input in [
        r#"{"model":"gpt-5.6-luna","reasoning_effort":"high","messages":[]}"#,
        r#"{"reasoning_effort":"high","messages":[]}"#,
    ] {
        let (result, mutated) = run(&filter, input);
        assert!(!mutated);
        assert_eq!(result["reasoning_effort"], "high");
    }
}

#[test]
fn non_string_effort_ignored() {
    let filter = make_filter_with(default_effort_values());
    for input in [
        r#"{"model":"Inferact/Qwen3.8-Flash-Next-NVFP4","reasoning_effort":7}"#,
        r#"{"model":"Inferact/Qwen3.8-Flash-Next-NVFP4","reasoning_effort":null}"#,
        r#"{"model":"Inferact/Qwen3.8-Flash-Next-NVFP4","reasoning":"high"}"#,
        r#"{"model":"Inferact/Qwen3.8-Flash-Next-NVFP4","reasoning":{"effort":3}}"#,
    ] {
        let (_, mutated) = run(&filter, input);
        assert!(!mutated, "{input}");
    }
}

#[test]
fn custom_values_replace_defaults_and_identity_is_no_mutation() {
    let filter = make_filter_with(vec![("high".to_owned(), "medium".to_owned())]);
    let (result, mutated) = run(
        &filter,
        r#"{"model":"Inferact/Qwen3.8-Flash-Next-NVFP4","reasoning_effort":"high"}"#,
    );
    assert!(mutated);
    assert_eq!(result["reasoning_effort"], "medium");
    let (_, mutated) = run(
        &filter,
        r#"{"model":"Inferact/Qwen3.8-Flash-Next-NVFP4","reasoning_effort":"minimal"}"#,
    );
    assert!(!mutated);
    let identity = make_filter_with(vec![("high".to_owned(), "high".to_owned())]);
    let (_, mutated) = run(
        &identity,
        r#"{"model":"Inferact/Qwen3.8-Flash-Next-NVFP4","reasoning_effort":"high"}"#,
    );
    assert!(!mutated);
}

#[test]
fn non_json_body_passes_through() {
    let filter = make_filter_with(default_effort_values());
    let mut body = Some(b"not json at all".to_vec());
    filter.on_request_body(&mut body, true).ok().unwrap();
    assert_eq!(body, Some(b"not json at all".to_vec()));
}

#[test]
fn empty_models_rejected_at_config() {
    let err = ReasoningEffortMapFilter::from_config(ReasoningEffortMapConfig {
        models: Vec::new(),
        values: default_effort_values(),
        max_body_bytes: default_max_body_bytes(),
    })
    .err()
    .unwrap();
    assert_eq!(err.to_string(), "reasoning_effort_map: `models` must list at least one model");
}

#[test]
fn default_values_are_the_documented_map() {
    assert_eq!(
        default_effort_values(),
        vec![("high".to_owned(), "xhigh".to_owned()), ("minimal".to_owned(), "low".to_owned())]
    );
}
