use open_ai_compatible::catalog::{
    AvailableModel, CatalogRecord, ModelCapabilities, ResolvedModel, capabilities_for_tokens,
    resolve_record,
};
use open_ai_compatible::discovery::{
    base_api_url_of, base_models_from_records, bearer_header_value, is_success_status,
    models_listing_uri, providers_uri,
};

fn caps_none() -> ModelCapabilities {
    ModelCapabilities {
        tools: false,
        images: false,
        parallel_tool_calls: false,
        prompt_cache_key: false,
        chat_completions: true,
    }
}

fn record(
    key: &str,
    model: Option<&str>,
    name: Option<&str>,
    visible: Option<bool>,
    max_input_tokens: Option<u64>,
    max_output_tokens: Option<u64>,
    capabilities: Vec<&str>,
) -> CatalogRecord {
    CatalogRecord {
        key: key.to_string(),
        model: model.map(|s| s.to_string()),
        name: name.map(|s| s.to_string()),
        visible,
        max_input_tokens,
        max_output_tokens,
        capabilities: capabilities.into_iter().map(|s| s.to_string()).collect(),
    }
}

#[test]
fn tool_calling_token_implies_tools_case_insensitive() {
    let caps = capabilities_for_tokens(&vec!["TOOL-CALLING".to_string()]);
    assert!(caps.tools);
    assert!(caps.parallel_tool_calls);
    assert!(!caps.images);
    assert!(!caps.prompt_cache_key);
    assert!(caps.chat_completions);
}

#[test]
fn vision_token_implies_images() {
    let caps = capabilities_for_tokens(&vec!["Vision".to_string(), "other".to_string()]);
    assert!(caps.images);
    assert!(!caps.tools);
    assert!(!caps.parallel_tool_calls);
}

#[test]
fn no_tokens_no_capabilities() {
    let caps = capabilities_for_tokens(&vec![]);
    assert!(!caps.tools && !caps.images && !caps.parallel_tool_calls);
    assert!(caps.chat_completions);
}

#[test]
fn zero_max_input_tokens_falls_back() {
    let m = resolve_record(record("k", None, None, None, Some(0), None, vec![])).unwrap();
    assert_eq!(m.max_tokens, 200000);
}

#[test]
fn missing_max_input_tokens_falls_back() {
    let m = resolve_record(record("k", None, None, None, None, None, vec![])).unwrap();
    assert_eq!(m.max_tokens, 200000);
}

#[test]
fn positive_max_input_tokens_kept() {
    let m = resolve_record(record("k", None, None, None, Some(4096), None, vec![])).unwrap();
    assert_eq!(m.max_tokens, 4096);
}

#[test]
fn zero_max_output_tokens_becomes_absent() {
    let m = resolve_record(record("k", None, None, None, Some(1), Some(0), vec![])).unwrap();
    assert_eq!(m.max_output_tokens, None);
    assert_eq!(m.max_completion_tokens, None);
}

#[test]
fn positive_max_output_tokens_kept() {
    let m = resolve_record(record("k", None, None, None, Some(1), Some(8192), vec![])).unwrap();
    assert_eq!(m.max_output_tokens, Some(8192));
    assert_eq!(m.max_completion_tokens, Some(8192));
}

#[test]
fn invisible_record_resolves_to_nothing() {
    assert!(resolve_record(record("k", None, None, Some(false), None, None, vec![])).is_none());
    assert!(resolve_record(record("k", None, None, Some(true), None, None, vec![])).is_some());
    assert!(resolve_record(record("k", None, None, None, None, None, vec![])).is_some());
}

#[test]
fn missing_upstream_id_falls_back_to_key() {
    let m = resolve_record(record("the-key", None, None, None, None, None, vec![])).unwrap();
    assert_eq!(m.id, "the-key");
    assert_eq!(m.request_model, "the-key");
    let m = resolve_record(record("the-key", Some("real-id"), None, None, None, None, vec![]))
        .unwrap();
    assert_eq!(m.id, "real-id");
    assert_eq!(m.request_model, "real-id");
}

#[test]
fn invisible_record_never_in_catalog() {
    let models = base_models_from_records(vec![
        record("a", None, Some("A"), None, None, None, vec![]),
        record("b", None, Some("B"), Some(false), None, None, vec![]),
    ]);
    assert_eq!(models.len(), 1);
    assert_eq!(models[0].id, "a");
}

#[test]
fn sort_places_default_first_then_display_names() {
    let models = base_models_from_records(vec![
        record("z", None, Some("Zed"), None, None, None, vec![]),
        record(
            "minimax/minimax-m2.5",
            None,
            Some("Default Model"),
            None,
            None,
            None,
            vec![],
        ),
        record("a", None, Some("Alpha"), None, None, None, vec![]),
    ]);
    let ids: Vec<&str> = models.iter().map(|m| m.id.as_str()).collect();
    assert_eq!(ids, vec!["minimax/minimax-m2.5", "a", "z"]);
}

#[test]
fn sort_key_falls_back_to_upstream_id() {
    let models = base_models_from_records(vec![
        record("b", None, None, None, None, None, vec![]),
        record("a", None, None, None, None, None, vec![]),
    ]);
    let ids: Vec<&str> = models.iter().map(|m| m.id.as_str()).collect();
    assert_eq!(ids, vec!["a", "b"]);
}

#[test]
fn from_available_model_maps_fields() {
    let m = ResolvedModel::from_available_model(AvailableModel {
        name: "m1".to_string(),
        display_name: Some("Model One".to_string()),
        max_tokens: 1000,
        max_output_tokens: Some(10),
        max_completion_tokens: None,
        capabilities: caps_none(),
    });
    assert_eq!(m.id, "m1");
    assert_eq!(m.request_model, "m1");
    assert_eq!(m.display_name.as_deref(), Some("Model One"));
    assert_eq!(m.max_tokens, 1000);
    assert_eq!(m.max_output_tokens, Some(10));
    assert!(m.provider_override.is_none());
}

#[test]
fn base_url_strips_trailing_slashes_and_v1() {
    assert_eq!(base_api_url_of("https://nano-gpt.com/api/v1"), "https://nano-gpt.com/api");
    assert_eq!(base_api_url_of("https://nano-gpt.com/api/v1/"), "https://nano-gpt.com/api");
    assert_eq!(base_api_url_of("https://nano-gpt.com/api///"), "https://nano-gpt.com/api");
    assert_eq!(base_api_url_of("https://nano-gpt.com/api"), "https://nano-gpt.com/api");
    assert_eq!(base_api_url_of(""), "");
}

#[test]
fn models_listing_uri_shape() {
    assert_eq!(
        models_listing_uri("https://nano-gpt.com/api/v1"),
        "https://nano-gpt.com/api/models?detailed=true"
    );
}

#[test]
fn providers_uri_percent_encodes_model_id() {
    assert_eq!(
        providers_uri("https://nano-gpt.com/api/v1", "minimax/minimax-m2.5"),
        "https://nano-gpt.com/api/models/minimax%2Fminimax-m2.5/providers"
    );
}

#[test]
fn bearer_header_only_for_non_empty_key() {
    assert_eq!(bearer_header_value(Some("secret")), Some("Bearer secret".to_string()));
    assert_eq!(bearer_header_value(Some("")), None);
    assert_eq!(bearer_header_value(None), None);
}

#[test]
fn success_status_is_the_two_hundreds() {
    assert!(is_success_status(200));
    assert!(is_success_status(299));
    assert!(!is_success_status(199));
    assert!(!is_success_status(300));
    assert!(!is_success_status(404));
}
