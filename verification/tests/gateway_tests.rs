use open_ai_compatible::catalog::{ModelCapabilities, ResolvedModel};
use open_ai_compatible::fanout::FanOut;
use open_ai_compatible::gateway::{
    CompletionError, Protocol, RequestLimiter, prepare_dispatch, select_protocol,
};
use open_ai_compatible::handle::{DispatchOutcome, ModelHandle, ToolChoice};

fn caps(chat_completions: bool, tools: bool) -> ModelCapabilities {
    ModelCapabilities {
        tools,
        images: false,
        parallel_tool_calls: tools,
        prompt_cache_key: false,
        chat_completions,
    }
}

fn model(id: &str, provider_override: Option<&str>) -> ResolvedModel {
    ResolvedModel {
        id: id.to_string(),
        request_model: "base".to_string(),
        display_name: None,
        max_tokens: 200000,
        max_output_tokens: Some(64),
        max_completion_tokens: Some(64),
        capabilities: caps(true, true),
        provider_override: provider_override.map(|s| s.to_string()),
    }
}

fn handle(provider_override: Option<&str>) -> ModelHandle {
    ModelHandle::new(
        model("base", provider_override),
        "nanogpt".to_string(),
        "nanogpt".to_string(),
    )
}

#[test]
fn missing_key_is_refused_without_dispatch() {
    let err = prepare_dispatch("nanogpt", None, "https://u", &model("m", None)).err().unwrap();
    match err {
        CompletionError::NoApiKey { provider } => assert_eq!(provider, "nanogpt"),
        CompletionError::Upstream { .. } => panic!("expected NoApiKey"),
    }
}

#[test]
fn missing_key_refusal_releases_the_slot() {
    let mut h = handle(None);
    match h.try_dispatch(None, "https://u") {
        DispatchOutcome::Refused(CompletionError::NoApiKey { provider }) => {
            assert_eq!(provider, "nanogpt")
        },
        _ => panic!("expected a NoApiKey refusal"),
    }
    assert_eq!(h.limiter.in_flight, 0);
}

#[test]
fn dispatch_with_key_resolves_plan() {
    let plan = prepare_dispatch(
        "nanogpt",
        Some("secret".to_string()),
        "https://u/v1",
        &model("m", None),
    )
    .ok()
    .unwrap();
    assert_eq!(plan.api_key, "secret");
    assert_eq!(plan.api_url, "https://u/v1");
    assert_eq!(plan.request_model, "base");
    assert_eq!(plan.billing_mode, None);
    assert!(plan.extra_headers.is_empty());
    assert_eq!(plan.protocol, Protocol::ChatCompletions);
}

#[test]
fn routed_dispatch_forces_billing_and_headers() {
    let plan = prepare_dispatch(
        "nanogpt",
        Some("secret".to_string()),
        "https://u",
        &model("base@fast", Some("fast")),
    )
    .ok()
    .unwrap();
    assert_eq!(plan.billing_mode.as_deref(), Some("paygo"));
    assert_eq!(
        plan.extra_headers,
        vec![
            ("X-Provider".to_string(), "fast".to_string()),
            ("X-Billing-Mode".to_string(), "paygo".to_string()),
        ]
    );
}

#[test]
fn protocol_follows_capability_flag() {
    assert_eq!(select_protocol(&caps(true, false)), Protocol::ChatCompletions);
    assert_eq!(select_protocol(&caps(false, false)), Protocol::Responses);
}

#[test]
fn fifth_concurrent_dispatch_waits_for_a_slot() {
    let mut h = handle(None);
    for _ in 0..4 {
        match h.try_dispatch(Some("k".to_string()), "https://u") {
            DispatchOutcome::Dispatched(_) => {},
            _ => panic!("expected a dispatch"),
        }
    }
    assert_eq!(h.limiter.in_flight, 4);
    match h.try_dispatch(Some("k".to_string()), "https://u") {
        DispatchOutcome::MustWait => {},
        _ => panic!("the fifth dispatch must wait"),
    }
    assert_eq!(h.limiter.in_flight, 4);
    h.finish_dispatch();
    match h.try_dispatch(Some("k".to_string()), "https://u") {
        DispatchOutcome::Dispatched(_) => {},
        _ => panic!("a freed slot must be granted"),
    }
}

#[test]
fn limiter_counts_waiters() {
    let mut l = RequestLimiter::new(1);
    assert!(l.try_acquire());
    assert!(!l.try_acquire());
    assert_eq!(l.waiting, 1);
    l.leave_queue();
    l.release();
    assert!(l.try_acquire());
}

#[test]
fn handle_name_falls_back_to_request_model() {
    let h = handle(None);
    assert_eq!(h.name(), "base");
    let mut named = model("base", None);
    named.display_name = Some("Pretty".to_string());
    let h2 = ModelHandle::new(named, "p".to_string(), "p".to_string());
    assert_eq!(h2.name(), "Pretty");
}

#[test]
fn telemetry_id_includes_route() {
    assert_eq!(handle(None).telemetry_id(), "openai/base");
    assert_eq!(handle(Some("fast")).telemetry_id(), "openai/base@fast");
}

#[test]
fn tool_choice_support_follows_capabilities() {
    let h = handle(None);
    assert!(h.supports_tool_choice(ToolChoice::Auto));
    assert!(h.supports_tool_choice(ToolChoice::Any));
    assert!(h.supports_tool_choice(ToolChoice::NoTool));
    let mut no_tools = model("base", None);
    no_tools.capabilities = caps(true, false);
    let h2 = ModelHandle::new(no_tools, "p".to_string(), "p".to_string());
    assert!(!h2.supports_tool_choice(ToolChoice::Auto));
    assert!(!h2.supports_tool_choice(ToolChoice::Any));
    assert!(h2.supports_tool_choice(ToolChoice::NoTool));
}

#[test]
fn tokenizer_model_switches_at_six_figures() {
    let mut m = model("base", None);
    m.max_tokens = 100000;
    let h = ModelHandle::new(m, "p".to_string(), "p".to_string());
    assert_eq!(h.tokenizer_model(), "gpt-4o");
    let mut m2 = model("base", None);
    m2.max_tokens = 99999;
    let h2 = ModelHandle::new(m2, "p".to_string(), "p".to_string());
    assert_eq!(h2.tokenizer_model(), "gpt-4");
}

#[test]
fn fanout_never_exceeds_width() {
    let mut f = FanOut::new(10);
    let mut started = 0;
    while f.can_start() {
        f.start();
        started += 1;
    }
    assert_eq!(started, 8);
    assert_eq!(f.in_flight(), 8);
    f.finish();
    assert!(f.can_start());
    f.start();
    assert_eq!(f.in_flight(), 8);
    let mut finished = 1;
    while finished < 10 {
        f.finish();
        finished += 1;
        if f.can_start() {
            f.start();
        }
    }
    assert!(f.is_done());
}
