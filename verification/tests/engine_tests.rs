use open_ai_compatible::catalog::{AvailableModel, ModelCapabilities, ResolvedModel};
use open_ai_compatible::credentials::{CredentialState, api_key_env_var_name};
use open_ai_compatible::engine::{Engine, ProviderSettings};
use open_ai_compatible::routing::{routing_options_from_response, ProviderEntry, zip_routing};

fn caps() -> ModelCapabilities {
    ModelCapabilities {
        tools: false,
        images: false,
        parallel_tool_calls: false,
        prompt_cache_key: false,
        chat_completions: true,
    }
}

fn model(id: &str, display: Option<&str>) -> ResolvedModel {
    ResolvedModel {
        id: id.to_string(),
        request_model: id.to_string(),
        display_name: display.map(|s| s.to_string()),
        max_tokens: 200000,
        max_output_tokens: None,
        max_completion_tokens: None,
        capabilities: caps(),
        provider_override: None,
    }
}

fn available(name: &str, display: Option<&str>) -> AvailableModel {
    AvailableModel {
        name: name.to_string(),
        display_name: display.map(|s| s.to_string()),
        max_tokens: 1000,
        max_output_tokens: None,
        max_completion_tokens: None,
        capabilities: caps(),
    }
}

fn settings(url: &str, models: Vec<AvailableModel>) -> ProviderSettings {
    ProviderSettings { api_url: url.to_string(), available_models: models }
}

fn nanogpt_engine() -> Engine {
    Engine::new(
        "nanogpt".to_string(),
        settings("https://nano-gpt.com/api/v1", vec![]),
        None,
    )
}

fn entry(provider: &str, available: bool) -> ProviderEntry {
    ProviderEntry { provider: provider.to_string(), available }
}

#[test]
fn merged_catalog_ids_are_unique() {
    let mut engine = nanogpt_engine();
    engine.settings.available_models = vec![available("m1", Some("Static One")), available("x", None)];
    let plan = engine.set_api_key(Some("key".to_string())).unwrap();
    engine.apply_stage1(plan.generation, vec![model("m1", Some("Dynamic One")), model("m2", None)]);
    let merged = engine.resolved_models();
    let ids: Vec<&str> = merged.iter().map(|m| m.id.as_str()).collect();
    assert_eq!(ids, vec!["m1", "m2", "x"]);
    for i in 0..ids.len() {
        for j in 0..ids.len() {
            if i != j {
                assert_ne!(ids[i], ids[j]);
            }
        }
    }
}

#[test]
fn static_model_never_overrides_discovered() {
    let mut engine = nanogpt_engine();
    engine.settings.available_models = vec![available("m1", Some("Static One"))];
    let plan = engine.set_api_key(Some("key".to_string())).unwrap();
    engine.apply_stage1(plan.generation, vec![model("m1", Some("Dynamic One"))]);
    let merged = engine.resolved_models();
    assert_eq!(merged.len(), 1);
    assert_eq!(merged[0].display_name.as_deref(), Some("Dynamic One"));
}

#[test]
fn static_models_fill_gaps_in_order() {
    let mut engine = nanogpt_engine();
    engine.settings.available_models = vec![available("s2", None), available("s1", None)];
    let plan = engine.set_api_key(Some("key".to_string())).unwrap();
    engine.apply_stage1(plan.generation, vec![model("d1", None)]);
    let merged = engine.resolved_models();
    let ids: Vec<&str> = merged.iter().map(|m| m.id.as_str()).collect();
    assert_eq!(ids, vec!["d1", "s2", "s1"]);
}

#[test]
fn default_model_prefers_base_default_entry() {
    let mut engine = nanogpt_engine();
    let plan = engine.set_api_key(Some("key".to_string())).unwrap();
    let mut routed = model("minimax/minimax-m2.5@b", Some("Default via b"));
    routed.request_model = "minimax/minimax-m2.5".to_string();
    routed.provider_override = Some("b".to_string());
    engine.apply_stage1(
        plan.generation,
        vec![model("a", Some("Alpha")), routed, model("minimax/minimax-m2.5", Some("Default"))],
    );
    let d = engine.default_model().unwrap();
    assert_eq!(d.id, "minimax/minimax-m2.5");
    assert!(d.provider_override.is_none());
}

#[test]
fn default_model_falls_back_to_first() {
    let mut engine = nanogpt_engine();
    let plan = engine.set_api_key(Some("key".to_string())).unwrap();
    engine.apply_stage1(plan.generation, vec![model("a", Some("Alpha")), model("z", Some("Zed"))]);
    let d = engine.default_model().unwrap();
    assert_eq!(d.id, "a");
    assert!(engine.default_model().is_some());
}

#[test]
fn default_model_none_on_empty_catalog() {
    let engine = nanogpt_engine();
    assert!(engine.default_model().is_none());
}

#[test]
fn set_then_reset_leaves_unauthenticated_and_empty() {
    let mut engine = nanogpt_engine();
    let plan = engine.set_api_key(Some("key".to_string()));
    let stale = plan.unwrap();
    let none_plan = engine.set_api_key(None);
    assert!(none_plan.is_none());
    assert!(!engine.is_authenticated());
    // The superseded cycle completes late; its write must be discarded.
    engine.apply_stage1(stale.generation, vec![model("m1", None)]);
    assert!(engine.resolved_models().is_empty());
    assert!(!engine.is_authenticated());
}

#[test]
fn stale_generation_never_overwrites_fresher_cycle() {
    let mut engine = nanogpt_engine();
    let plan1 = engine.set_api_key(Some("key1".to_string())).unwrap();
    let plan2 = engine.set_api_key(Some("key2".to_string())).unwrap();
    engine.apply_stage1(plan2.generation, vec![model("fresh", None)]);
    engine.apply_stage1(plan1.generation, vec![model("stale", None)]);
    let ids: Vec<String> = engine.resolved_models().iter().map(|m| m.id.clone()).collect();
    assert_eq!(ids, vec!["fresh".to_string()]);
}

#[test]
fn empty_api_key_counts_as_no_key() {
    let mut engine = nanogpt_engine();
    let plan = engine.set_api_key(Some("".to_string()));
    assert!(plan.is_none());
    assert!(!engine.is_authenticated());
}

#[test]
fn non_dynamic_provider_never_fetches() {
    let mut engine = Engine::new(
        "some-openai-compatible".to_string(),
        settings("https://example.com/v1", vec![available("s", None)]),
        None,
    );
    let plan = engine.set_api_key(Some("key".to_string()));
    assert!(plan.is_none());
    assert!(engine.is_authenticated());
    let merged = engine.resolved_models();
    assert_eq!(merged.len(), 1);
    assert_eq!(merged[0].id, "s");
}

#[test]
fn unchanged_settings_do_not_restart_discovery() {
    let mut engine = nanogpt_engine();
    let plan = engine.set_api_key(Some("key".to_string())).unwrap();
    engine.apply_stage1(plan.generation, vec![model("m", None)]);
    let (changed, new_plan) =
        engine.settings_changed(settings("https://nano-gpt.com/api/v1", vec![]));
    assert!(!changed);
    assert!(new_plan.is_none());
    assert_eq!(engine.resolved_models().len(), 1);
}

#[test]
fn url_change_invalidates_stored_key() {
    let mut engine = nanogpt_engine();
    engine.set_api_key(Some("key".to_string()));
    assert!(engine.is_authenticated());
    let (changed, plan) = engine.settings_changed(settings("https://other.example/v1", vec![]));
    assert!(changed);
    assert!(plan.is_none());
    assert!(!engine.is_authenticated());
    assert!(engine.resolved_models().is_empty());
}

#[test]
fn authentication_is_idempotent_once_loaded() {
    let mut engine = nanogpt_engine();
    engine.complete_authentication(Some("loaded".to_string()));
    assert!(engine.is_authenticated());
    engine.complete_authentication(None);
    assert!(engine.is_authenticated());
}

#[test]
fn side_channel_mirrors_key_for_dynamic_provider() {
    let mut engine = nanogpt_engine();
    engine.set_api_key(Some("key".to_string()));
    assert_eq!(engine.side_channel.as_deref(), Some("key"));
    engine.set_api_key(None);
    assert_eq!(engine.side_channel, None);
}

#[test]
fn credential_state_prefers_stored_key_over_fallback() {
    let mut creds = CredentialState::new("u".to_string(), Some("env-key".to_string()));
    assert!(creds.is_authenticated());
    assert_eq!(creds.current_key().as_deref(), Some("env-key"));
    creds.set_key(Some("stored".to_string()));
    assert_eq!(creds.current_key().as_deref(), Some("stored"));
    creds.set_key(None);
    assert_eq!(creds.current_key().as_deref(), Some("env-key"));
}

#[test]
fn env_var_name_is_upper_snake_of_provider_id() {
    assert_eq!(api_key_env_var_name("nanogpt"), "NANOGPT_API_KEY");
    assert_eq!(api_key_env_var_name("my-provider"), "MY_PROVIDER_API_KEY");
}

#[test]
fn routing_options_sorted_deduplicated_available_only() {
    let options = routing_options_from_response(
        true,
        vec![entry("b", true), entry("a", true), entry("c", false), entry("a", true), entry("", true)],
    );
    assert_eq!(options, vec!["a".to_string(), "b".to_string()]);
}

#[test]
fn routing_options_empty_when_selection_unsupported() {
    let options = routing_options_from_response(false, vec![entry("a", true)]);
    assert!(options.is_empty());
}

#[test]
fn routing_expansion_orders_base_then_variants() {
    let mut engine = nanogpt_engine();
    let plan = engine.set_api_key(Some("key".to_string())).unwrap();
    let stage2 = engine
        .apply_stage1(plan.generation, vec![model("id", Some("Name"))])
        .unwrap();
    let options = routing_options_from_response(
        true,
        vec![entry("b", true), entry("a", true), entry("c", false)],
    );
    let pairs = zip_routing(stage2.models, vec![options]);
    engine.apply_stage2(stage2.generation, pairs);
    let merged = engine.resolved_models();
    let ids: Vec<&str> = merged.iter().map(|m| m.id.as_str()).collect();
    assert_eq!(ids, vec!["id", "id@a", "id@b"]);
    assert_eq!(merged[1].display_name.as_deref(), Some("Name via a"));
    assert_eq!(merged[1].provider_override.as_deref(), Some("a"));
    assert_eq!(merged[2].display_name.as_deref(), Some("Name via b"));
}

#[test]
fn one_failed_routing_fetch_leaves_other_variants_intact() {
    let mut engine = nanogpt_engine();
    let plan = engine.set_api_key(Some("key".to_string())).unwrap();
    let names = ["m1", "m2", "m3", "m4", "m5"];
    let stage2 = engine
        .apply_stage1(
            plan.generation,
            names.iter().map(|n| model(n, None)).collect(),
        )
        .unwrap();
    // The fetch for m3 failed and degrades to no routing options.
    let mut options: Vec<Vec<String>> = Vec::new();
    for n in names.iter() {
        if *n == "m3" {
            options.push(vec![]);
        } else {
            options.push(vec!["r".to_string()]);
        }
    }
    let pairs = zip_routing(stage2.models, options);
    engine.apply_stage2(stage2.generation, pairs);
    let ids: Vec<String> = engine.resolved_models().iter().map(|m| m.id.clone()).collect();
    assert_eq!(
        ids,
        vec!["m1", "m1@r", "m2", "m2@r", "m3", "m4", "m4@r", "m5", "m5@r"]
    );
}

#[test]
fn empty_routing_option_names_expand_to_nothing() {
    let pairs = zip_routing(vec![model("m", None)], vec![vec!["".to_string()]]);
    let mut engine = nanogpt_engine();
    let plan = engine.set_api_key(Some("key".to_string())).unwrap();
    engine.apply_stage1(plan.generation, vec![model("m", None)]);
    engine.apply_stage2(plan.generation, pairs);
    let ids: Vec<String> = engine.resolved_models().iter().map(|m| m.id.clone()).collect();
    assert_eq!(ids, vec!["m".to_string()]);
}
