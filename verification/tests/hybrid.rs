use std::cell::RefCell;

use hybrid_router::config::{
    HybridProviderConfig, HybridRouteTarget, HybridTargetConfig, RouterConfig,
};
use hybrid_router::hybrid::{
    is_hybrid, resolve_hybrid_target, resolve_router_target, resolved_target_from_config,
    HybridError, HybridProvider, HybridResolvedRouter, HybridResolvedTarget, ProviderCapabilities,
    SelectedTarget, ROUTER_DEFAULT_SYSTEM_PROMPT,
};

struct MockProvider {
    response: String,
    seen_models: RefCell<Vec<String>>,
}

impl MockProvider {
    fn new(response: &str) -> Self {
        MockProvider { response: response.to_string(), seen_models: RefCell::new(Vec::new()) }
    }

    fn chat(&self, model: &str) -> String {
        self.seen_models.borrow_mut().push(model.to_string());
        self.response.clone()
    }
}

fn two_executors() -> HybridProvider<MockProvider> {
    HybridProvider::new(
        "lmstudio".into(),
        "qwen-edge".into(),
        MockProvider::new("edge answer"),
        "openrouter".into(),
        "remote-frontier".into(),
        MockProvider::new("frontier answer"),
        HybridRouteTarget::Frontier,
    )
}

fn chat(provider: &HybridProvider<MockProvider>, model: &str) -> String {
    let (_, target_model, executor) = provider.selected_provider(provider.select_target(model));
    executor.chat(target_model)
}

fn target(provider: &str, model: &str) -> HybridTargetConfig {
    HybridTargetConfig {
        provider: provider.into(),
        model: model.into(),
        api_key: None,
        api_url: None,
    }
}

fn hybrid(edge: HybridTargetConfig, frontier: HybridTargetConfig) -> HybridProviderConfig {
    HybridProviderConfig { enabled: true, edge, frontier }
}

fn router_without_overrides() -> RouterConfig {
    RouterConfig {
        provider: None,
        model: None,
        api_key: None,
        api_url: None,
        system_prompt: None,
        timeout_ms: 4_000,
        temperature_bits: 0.0f64.to_bits(),
        confidence_threshold_bits: 0.7f64.to_bits(),
        max_messages: 4,
        max_chars: 1_200,
    }
}

#[test]
fn hybrid_auto_falls_back_to_configured_target() {
    let provider = two_executors();
    assert_eq!(chat(&provider, "hybrid:auto"), "frontier answer");
    assert!(provider.edge.provider.seen_models.borrow().is_empty());
    assert_eq!(provider.frontier.provider.seen_models.borrow().as_slice(), &["remote-frontier"]);
}

#[test]
fn explicit_model_override_uses_selected_target() {
    let provider = two_executors();
    assert_eq!(chat(&provider, "hybrid:edge"), "edge answer");
    assert_eq!(provider.edge.provider.seen_models.borrow().as_slice(), &["qwen-edge"]);
    assert!(provider.frontier.provider.seen_models.borrow().is_empty());
}

#[test]
fn resolves_router_target_from_edge_by_default() {
    let hybrid = HybridProviderConfig {
        enabled: true,
        edge: HybridTargetConfig {
            provider: "lmstudio".into(),
            model: "qwen-edge".into(),
            api_key: None,
            api_url: Some("http://localhost:1234/v1".into()),
        },
        frontier: HybridTargetConfig {
            provider: "openrouter".into(),
            model: "remote-frontier".into(),
            api_key: None,
            api_url: None,
        },
    };

    let router = resolve_router_target(&router_without_overrides(), &hybrid, Some("global-key"))
        .expect("router target should resolve");

    assert_eq!(router.provider_name, "lmstudio");
    assert_eq!(router.model, "qwen-edge");
    assert_eq!(router.api_key.as_deref(), Some("global-key"));
    assert_eq!(router.api_url.as_deref(), Some("http://localhost:1234/v1"));
}

#[test]
fn explicit_targets_are_read_in_any_case_and_with_spaces() {
    let parse = HybridProvider::<()>::parse_explicit_target;
    assert_eq!(parse("hybrid:edge"), Some(HybridRouteTarget::Edge));
    assert_eq!(parse("hybrid:frontier"), Some(HybridRouteTarget::Frontier));
    assert_eq!(parse(" \tHybrid:EDGE\u{a0}\n"), Some(HybridRouteTarget::Edge));
    assert_eq!(parse("hybrid:auto"), None);
    assert_eq!(parse(""), None);
    assert_eq!(parse("hybrid: edge"), None);
    assert_eq!(parse("edge"), None);
}

#[test]
fn target_conversions_are_inverse() {
    for target in [HybridRouteTarget::Edge, HybridRouteTarget::Frontier] {
        assert_eq!(HybridRouteTarget::from(SelectedTarget::from(target)), target);
    }
    assert_eq!(SelectedTarget::from(HybridRouteTarget::Edge), SelectedTarget::Edge);
    assert_eq!(SelectedTarget::from(HybridRouteTarget::Frontier), SelectedTarget::Frontier);
}

#[test]
fn the_fallback_can_be_the_edge() {
    let provider = HybridProvider::new(
        "a".into(),
        "b".into(),
        1u8,
        "c".into(),
        "d".into(),
        2u8,
        HybridRouteTarget::Edge,
    );
    assert_eq!(provider.select_target("anything"), SelectedTarget::Edge);
    assert_eq!(provider.selected_provider(SelectedTarget::Edge), ("a", "b", &1u8));
    assert_eq!(provider.selected_provider(SelectedTarget::Frontier), ("c", "d", &2u8));
}

#[test]
fn either_executor_gives_the_provider_a_capability() {
    let none = ProviderCapabilities { native_tool_calling: false, vision: false };
    let tools = ProviderCapabilities { native_tool_calling: true, vision: false };
    let vision = ProviderCapabilities { native_tool_calling: false, vision: true };
    let both = ProviderCapabilities { native_tool_calling: true, vision: true };
    let combine = HybridProvider::<()>::combined_capabilities;
    assert_eq!(combine(none, none), none);
    assert_eq!(combine(tools, none), tools);
    assert_eq!(combine(none, vision), vision);
    assert_eq!(combine(vision, tools), both);
}

#[test]
fn targets_are_resolved_without_surrounding_space() {
    let config = HybridTargetConfig {
        provider: "  openrouter ".into(),
        model: "\tmodel\n".into(),
        api_key: Some("  own  ".into()),
        api_url: Some("   ".into()),
    };
    assert_eq!(
        resolved_target_from_config(&config, HybridRouteTarget::Frontier, Some("global")),
        Ok(HybridResolvedTarget {
            target: HybridRouteTarget::Frontier,
            provider_name: "openrouter".into(),
            model: "model".into(),
            api_key: Some("own".into()),
            api_url: None,
        })
    );
}

#[test]
fn a_blank_key_gives_way_to_the_global_one_as_it_is() {
    let mut config = target("p", "m");
    config.api_key = Some(" ".into());
    let resolved =
        resolved_target_from_config(&config, HybridRouteTarget::Edge, Some(" global ")).unwrap();
    assert_eq!(resolved.api_key.as_deref(), Some(" global "));
    let resolved = resolved_target_from_config(&config, HybridRouteTarget::Edge, None).unwrap();
    assert_eq!(resolved.api_key, None);
}

#[test]
fn bad_targets_are_refused() {
    let resolve = |provider: &str, model: &str| {
        resolved_target_from_config(&target(provider, model), HybridRouteTarget::Edge, None)
            .map(|resolved| resolved.model)
    };
    assert_eq!(resolve(" ", ""), Err(HybridError::EmptyTargetProvider));
    assert_eq!(resolve(" HyBrid ", ""), Err(HybridError::RecursiveTargetProvider));
    assert_eq!(resolve("p", " \n"), Err(HybridError::EmptyTargetModel));
    assert_eq!(resolve("p", "m"), Ok("m".to_string()));
}

#[test]
fn a_disabled_provider_resolves_nothing() {
    let mut config = hybrid(target("p", "m"), target("q", "n"));
    let resolve = |config: &HybridProviderConfig, target| {
        resolve_hybrid_target(config, target, None).map(|resolved| resolved.provider_name)
    };
    assert_eq!(resolve(&config, HybridRouteTarget::Edge), Ok("p".to_string()));
    assert_eq!(resolve(&config, HybridRouteTarget::Frontier), Ok("q".to_string()));
    config.enabled = false;
    assert_eq!(resolve(&config, HybridRouteTarget::Edge), Err(HybridError::Disabled));
    assert_eq!(
        resolve_router_target(&router_without_overrides(), &config, None),
        Err(HybridError::Disabled)
    );
}

#[test]
fn router_settings_come_before_those_of_the_edge() {
    let config = hybrid(target("p", "m"), target("q", "n"));
    let router = RouterConfig {
        provider: Some(" ollama ".into()),
        model: Some(" tiny ".into()),
        api_key: Some(" key ".into()),
        api_url: Some(" url ".into()),
        ..router_without_overrides()
    };
    assert_eq!(
        resolve_router_target(&router, &config, Some("global")),
        Ok(HybridResolvedRouter {
            provider_name: "ollama".into(),
            model: "tiny".into(),
            api_key: Some("key".into()),
            api_url: Some("url".into()),
        })
    );
}

#[test]
fn the_router_cannot_be_the_hybrid_provider() {
    let config = hybrid(target("p", "m"), target("q", "n"));
    let router = RouterConfig { provider: Some("HYBRID ".into()), ..router_without_overrides() };
    assert_eq!(
        resolve_router_target(&router, &config, None),
        Err(HybridError::RecursiveRouterProvider)
    );
    let broken = hybrid(target("p", ""), target("q", "n"));
    assert_eq!(
        resolve_router_target(&router, &broken, None),
        Err(HybridError::EmptyTargetModel)
    );
}

#[test]
fn errors_are_worded() {
    assert_eq!(
        HybridError::Disabled.message(),
        "provider 'hybrid' requires [hybrid].enabled = true"
    );
    assert_eq!(
        HybridError::EmptyTargetProvider.message(),
        "hybrid target provider must not be empty"
    );
    assert_eq!(
        HybridError::RecursiveTargetProvider.message(),
        "hybrid target provider cannot itself be 'hybrid'"
    );
    assert_eq!(
        HybridError::EmptyTargetModel.message(),
        "hybrid target model must not be empty"
    );
    assert_eq!(
        HybridError::RecursiveRouterProvider.message(),
        "router.provider cannot be 'hybrid'"
    );
    assert_eq!(
        HybridError::UnresolvedRouterModel.message(),
        "router.model could not be resolved; set [router].model or [hybrid.edge].model"
    );
}

#[test]
fn provider_names_are_compared_loosely() {
    assert!(is_hybrid("hybrid"));
    assert!(is_hybrid("\u{3000}Hybrid\r\n"));
    assert!(!is_hybrid("hybrid2"));
    assert!(!is_hybrid(""));
}

#[test]
fn the_default_system_prompt_asks_for_json() {
    assert!(ROUTER_DEFAULT_SYSTEM_PROMPT.starts_with("You are the routing controller"));
    assert!(ROUTER_DEFAULT_SYSTEM_PROMPT.contains("{\"target\":\"edge\"|\"frontier\","));
    assert!(ROUTER_DEFAULT_SYSTEM_PROMPT.ends_with("\"summary\":\"short explanation\"}."));
}
