//! The hybrid provider: which of its two executors a request goes to, and how the
//! configuration of an executor or of the router is resolved.

use vstd::prelude::*;
use crate::config::{HybridProviderConfig, HybridRouteTarget, HybridTargetConfig, RouterConfig};
use crate::text;

verus! {

/// What the router model is told where the configuration says nothing else.
pub const ROUTER_DEFAULT_SYSTEM_PROMPT: &'static str = "You are the routing controller for a hybrid AI assistant. Your only job is to classify the current user turn and return JSON only. Decide whether this turn should stay on the local edge executor or be handled by the frontier executor. Prefer edge only for brief, bounded requests with low ambiguity, low reasoning depth, and at most one straightforward local action. Prefer frontier for multi-step reasoning, planning, coding, research, comparisons, ambiguity, safety-sensitive judgement, or when confidence is not high. Return exactly this JSON schema: {\"target\":\"edge\"|\"frontier\",\"confidence\":0.0,\"reason_code\":\"trivial_reply|short_transform|host_action|multi_step|code_reasoning|ambiguous|safety_sensitive\",\"summary\":\"short explanation\"}.";

/// The executor that one request goes to.
#[derive(Debug, Clone, Copy, PartialEq, Eq, Structural)]
pub enum SelectedTarget {
    Edge,
    Frontier,
}

impl From<HybridRouteTarget> for SelectedTarget {
    fn from(value: HybridRouteTarget) -> (res: Self) {
        match value {
            HybridRouteTarget::Edge => SelectedTarget::Edge,
            HybridRouteTarget::Frontier => SelectedTarget::Frontier,
        }
    }
}

impl vstd::std_specs::convert::FromSpecImpl<HybridRouteTarget> for SelectedTarget {
    open spec fn obeys_from_spec() -> bool {
        true
    }

    open spec fn from_spec(value: HybridRouteTarget) -> Self {
        match value {
            HybridRouteTarget::Edge => SelectedTarget::Edge,
            HybridRouteTarget::Frontier => SelectedTarget::Frontier,
        }
    }
}

impl From<SelectedTarget> for HybridRouteTarget {
    fn from(value: SelectedTarget) -> (res: Self) {
        match value {
            SelectedTarget::Edge => HybridRouteTarget::Edge,
            SelectedTarget::Frontier => HybridRouteTarget::Frontier,
        }
    }
}

impl vstd::std_specs::convert::FromSpecImpl<SelectedTarget> for HybridRouteTarget {
    open spec fn obeys_from_spec() -> bool {
        true
    }

    open spec fn from_spec(value: SelectedTarget) -> Self {
        match value {
            SelectedTarget::Edge => HybridRouteTarget::Edge,
            SelectedTarget::Frontier => HybridRouteTarget::Frontier,
        }
    }
}

/// One executor: its names, and the handle `P` that reaches it.
pub struct TargetProvider<P> {
    pub provider_name: String,
    pub model: String,
    pub provider: P,
}

/// What an executor can do.
#[derive(Debug, Clone, Copy, PartialEq, Eq, Structural)]
pub struct ProviderCapabilities {
    pub native_tool_calling: bool,
    pub vision: bool,
}

/// Two executors, of which each request goes to one.
pub struct HybridProvider<P> {
    pub edge: TargetProvider<P>,
    pub frontier: TargetProvider<P>,
    pub fallback_target: SelectedTarget,
}

/// The target that a model name asks for by name, whatever the case of its letters and the
/// white space around it.
pub open spec fn explicit_target(model: Seq<char>) -> Option<HybridRouteTarget> {
    if text::lowercase(text::trim(model)) == "hybrid:edge"@ {
        Some(HybridRouteTarget::Edge)
    } else if text::lowercase(text::trim(model)) == "hybrid:frontier"@ {
        Some(HybridRouteTarget::Frontier)
    } else {
        None
    }
}

/// What either of two executors can do.
pub open spec fn capabilities_of_either(
    edge: ProviderCapabilities,
    frontier: ProviderCapabilities,
) -> ProviderCapabilities {
    ProviderCapabilities {
        native_tool_calling: edge.native_tool_calling || frontier.native_tool_calling,
        vision: edge.vision || frontier.vision,
    }
}

impl<P> HybridProvider<P> {
    /// The executor behind a target.
    pub open spec fn executor(self, target: SelectedTarget) -> TargetProvider<P> {
        match target {
            SelectedTarget::Edge => self.edge,
            SelectedTarget::Frontier => self.frontier,
        }
    }

    /// The target that a requested model leads to: the one that it names, else the fallback.
    pub open spec fn target_for(self, requested_model: Seq<char>) -> SelectedTarget {
        match explicit_target(requested_model) {
            Some(HybridRouteTarget::Edge) => SelectedTarget::Edge,
            Some(HybridRouteTarget::Frontier) => SelectedTarget::Frontier,
            None => self.fallback_target,
        }
    }

    /// A provider over the two executors.
    pub fn new(
        edge_provider_name: String,
        edge_model: String,
        edge_provider: P,
        frontier_provider_name: String,
        frontier_model: String,
        frontier_provider: P,
        fallback_target: HybridRouteTarget,
    ) -> (res: Self)
        ensures
            res.edge == (TargetProvider {
                provider_name: edge_provider_name,
                model: edge_model,
                provider: edge_provider,
            }),
            res.frontier == (TargetProvider {
                provider_name: frontier_provider_name,
                model: frontier_model,
                provider: frontier_provider,
            }),
            res.fallback_target is Edge <==> fallback_target is Edge,
    {
        HybridProvider {
            edge: TargetProvider {
                provider_name: edge_provider_name,
                model: edge_model,
                provider: edge_provider,
            },
            frontier: TargetProvider {
                provider_name: frontier_provider_name,
                model: frontier_model,
                provider: frontier_provider,
            },
            fallback_target: SelectedTarget::from(fallback_target),
        }
    }

    /// The target that a model name asks for by name.
    pub fn parse_explicit_target(model: &str) -> (res: Option<HybridRouteTarget>)
        ensures
            res == explicit_target(model@),
    {
        let name = text::trimmed(model);
        proof {
            reveal_strlit("hybrid:edge");
            reveal_strlit("hybrid:frontier");
            assert(text::lowercase("hybrid:edge"@) =~= "hybrid:edge"@);
            assert(text::lowercase("hybrid:frontier"@) =~= "hybrid:frontier"@);
        }
        if text::eq_ignore_ascii_case(name.as_str(), "hybrid:edge") {
            Some(HybridRouteTarget::Edge)
        } else if text::eq_ignore_ascii_case(name.as_str(), "hybrid:frontier") {
            Some(HybridRouteTarget::Frontier)
        } else {
            None
        }
    }

    /// The names and the handle of the executor behind a target.
    pub fn selected_provider(&self, target: SelectedTarget) -> (res: (&str, &str, &P))
        ensures
            res.0@ == self.executor(target).provider_name@,
            res.1@ == self.executor(target).model@,
            *res.2 == self.executor(target).provider,
    {
        match target {
            SelectedTarget::Edge => (
                self.edge.provider_name.as_str(),
                self.edge.model.as_str(),
                &self.edge.provider,
            ),
            SelectedTarget::Frontier => (
                self.frontier.provider_name.as_str(),
                self.frontier.model.as_str(),
                &self.frontier.provider,
            ),
        }
    }

    /// The target that a requested model leads to.
    pub fn select_target(&self, requested_model: &str) -> (res: SelectedTarget)
        ensures
            res == self.target_for(requested_model@),
    {
        match Self::parse_explicit_target(requested_model) {
            Some(target) => SelectedTarget::from(target),
            None => self.fallback_target,
        }
    }

    /// What the provider can do, given what its executors can do: whatever either can.
    pub fn combined_capabilities(
        edge: ProviderCapabilities,
        frontier: ProviderCapabilities,
    ) -> (res: ProviderCapabilities)
        ensures
            res.native_tool_calling == (edge.native_tool_calling || frontier.native_tool_calling),
            res.vision == (edge.vision || frontier.vision),
            res == capabilities_of_either(edge, frontier),
    {
        ProviderCapabilities {
            native_tool_calling: edge.native_tool_calling || frontier.native_tool_calling,
            vision: edge.vision || frontier.vision,
        }
    }
}

/// Why a configuration cannot be resolved.
#[derive(Debug, Clone, Copy, PartialEq, Eq, Structural)]
pub enum HybridError {
    /// The hybrid provider is switched off.
    Disabled,
    /// An executor names no provider.
    EmptyTargetProvider,
    /// An executor names the hybrid provider itself.
    RecursiveTargetProvider,
    /// An executor names no model.
    EmptyTargetModel,
    /// The router names the hybrid provider.
    RecursiveRouterProvider,
    /// Neither the router nor the edge executor names a model.
    UnresolvedRouterModel,
}

/// The wording of an error.
pub open spec fn error_message(error: HybridError) -> Seq<char> {
    match error {
        HybridError::Disabled => "provider 'hybrid' requires [hybrid].enabled = true"@,
        HybridError::EmptyTargetProvider => "hybrid target provider must not be empty"@,
        HybridError::RecursiveTargetProvider => "hybrid target provider cannot itself be 'hybrid'"@,
        HybridError::EmptyTargetModel => "hybrid target model must not be empty"@,
        HybridError::RecursiveRouterProvider => "router.provider cannot be 'hybrid'"@,
        HybridError::UnresolvedRouterModel => "router.model could not be resolved; set [router].model or [hybrid.edge].model"@,
    }
}

impl HybridError {
    /// The wording of the error.
    pub fn message(self) -> (res: &'static str)
        ensures
            res@ == error_message(self),
    {
        match self {
            HybridError::Disabled => "provider 'hybrid' requires [hybrid].enabled = true",
            HybridError::EmptyTargetProvider => "hybrid target provider must not be empty",
            HybridError::RecursiveTargetProvider => "hybrid target provider cannot itself be 'hybrid'",
            HybridError::EmptyTargetModel => "hybrid target model must not be empty",
            HybridError::RecursiveRouterProvider => "router.provider cannot be 'hybrid'",
            HybridError::UnresolvedRouterModel => "router.model could not be resolved; set [router].model or [hybrid.edge].model",
        }
    }
}

/// An executor with its settings resolved.
#[derive(Debug, Clone, PartialEq, Eq)]
pub struct HybridResolvedTarget {
    pub target: HybridRouteTarget,
    pub provider_name: String,
    pub model: String,
    pub api_key: Option<String>,
    pub api_url: Option<String>,
}

/// The router with its settings resolved.
#[derive(Debug, Clone, PartialEq, Eq)]
pub struct HybridResolvedRouter {
    pub provider_name: String,
    pub model: String,
    pub api_key: Option<String>,
    pub api_url: Option<String>,
}

/// The texts of a resolved executor.
#[verifier::ext_equal]
pub struct ResolvedTargetView {
    pub target: HybridRouteTarget,
    pub provider_name: Seq<char>,
    pub model: Seq<char>,
    pub api_key: Option<Seq<char>>,
    pub api_url: Option<Seq<char>>,
}

/// The texts of a resolved router.
#[verifier::ext_equal]
pub struct ResolvedRouterView {
    pub provider_name: Seq<char>,
    pub model: Seq<char>,
    pub api_key: Option<Seq<char>>,
    pub api_url: Option<Seq<char>>,
}

impl View for HybridResolvedTarget {
    type V = ResolvedTargetView;

    open spec fn view(&self) -> ResolvedTargetView {
        ResolvedTargetView {
            target: self.target,
            provider_name: self.provider_name@,
            model: self.model@,
            api_key: text::opt_text(self.api_key),
            api_url: text::opt_text(self.api_url),
        }
    }
}

impl View for HybridResolvedRouter {
    type V = ResolvedRouterView;

    open spec fn view(&self) -> ResolvedRouterView {
        ResolvedRouterView {
            provider_name: self.provider_name@,
            model: self.model@,
            api_key: text::opt_text(self.api_key),
            api_url: text::opt_text(self.api_url),
        }
    }
}

/// A provider name means the hybrid provider, whatever the case of its letters and the
/// white space around it.
pub open spec fn names_hybrid(provider: Seq<char>) -> bool {
    text::lowercase(text::trim(provider)) == "hybrid"@
}

/// An optional setting without the white space around it; a blank one is absent.
pub open spec fn setting(value: Option<Seq<char>>) -> Option<Seq<char>> {
    match value {
        Some(s) => if text::trim(s).len() > 0 {
            Some(text::trim(s))
        } else {
            None
        },
        None => None,
    }
}

/// `value` where it is there, else `other`.
pub open spec fn or_else(value: Option<Seq<char>>, other: Option<Seq<char>>) -> Option<Seq<char>> {
    if value is Some {
        value
    } else {
        other
    }
}

/// `value` where it is there, else `other`.
pub open spec fn or_text(value: Option<Seq<char>>, other: Seq<char>) -> Seq<char> {
    match value {
        Some(s) => s,
        None => other,
    }
}

/// What the configuration of one executor resolves to.
pub open spec fn target_from_config(
    config: HybridTargetConfig,
    target: HybridRouteTarget,
    global_api_key: Option<Seq<char>>,
) -> Result<ResolvedTargetView, HybridError> {
    if text::trim(config.provider@).len() == 0 {
        Err(HybridError::EmptyTargetProvider)
    } else if names_hybrid(config.provider@) {
        Err(HybridError::RecursiveTargetProvider)
    } else if text::trim(config.model@).len() == 0 {
        Err(HybridError::EmptyTargetModel)
    } else {
        Ok(
            ResolvedTargetView {
                target,
                provider_name: text::trim(config.provider@),
                model: text::trim(config.model@),
                api_key: or_else(setting(text::opt_text(config.api_key)), global_api_key),
                api_url: setting(text::opt_text(config.api_url)),
            },
        )
    }
}

/// What an executor of the hybrid provider resolves to.
pub open spec fn hybrid_target(
    hybrid: HybridProviderConfig,
    target: HybridRouteTarget,
    global_api_key: Option<Seq<char>>,
) -> Result<ResolvedTargetView, HybridError> {
    if hybrid.enabled {
        target_from_config(hybrid.target_config(target), target, global_api_key)
    } else {
        Err(HybridError::Disabled)
    }
}

/// What the router resolves to: its own settings, and the edge executor's where it has none.
pub open spec fn router_target(
    router: RouterConfig,
    hybrid: HybridProviderConfig,
    global_api_key: Option<Seq<char>>,
) -> Result<ResolvedRouterView, HybridError> {
    match hybrid_target(hybrid, HybridRouteTarget::Edge, global_api_key) {
        Err(error) => Err(error),
        Ok(edge) => {
            let provider_name = or_text(
                setting(text::opt_text(router.provider)),
                edge.provider_name,
            );
            let model = or_text(setting(text::opt_text(router.model)), edge.model);
            if names_hybrid(provider_name) {
                Err(HybridError::RecursiveRouterProvider)
            } else if text::trim(model).len() == 0 {
                Err(HybridError::UnresolvedRouterModel)
            } else {
                Ok(
                    ResolvedRouterView {
                        provider_name,
                        model,
                        api_key: or_else(setting(text::opt_text(router.api_key)), edge.api_key),
                        api_url: or_else(setting(text::opt_text(router.api_url)), edge.api_url),
                    },
                )
            }
        },
    }
}

/// Whether a provider name means the hybrid provider.
pub fn is_hybrid(provider_name: &str) -> (res: bool)
    ensures
        res == names_hybrid(provider_name@),
{
    proof {
        reveal_strlit("hybrid");
        assert(text::lowercase("hybrid"@) =~= "hybrid"@);
    }
    let name = text::trimmed(provider_name);
    text::eq_ignore_ascii_case(name.as_str(), "hybrid")
}

/// An optional setting without the white space around it; a blank one is absent.
fn trimmed_setting(value: &Option<String>) -> (res: Option<String>)
    ensures
        text::opt_text(res) == setting(text::opt_text(*value)),
{
    match value {
        Some(s) => {
            let s = text::trimmed(s.as_str());
            if s.as_str().is_empty() {
                None
            } else {
                Some(s)
            }
        },
        None => None,
    }
}

/// Resolves the configuration of one executor.
pub fn resolved_target_from_config(
    target: &HybridTargetConfig,
    route_target: HybridRouteTarget,
    global_api_key: Option<&str>,
) -> (res: Result<HybridResolvedTarget, HybridError>)
    ensures
        match res {
            Ok(resolved) => target_from_config(
                *target,
                route_target,
                text::opt_str_text(global_api_key),
            ) == Ok::<ResolvedTargetView, HybridError>(resolved@),
            Err(error) => target_from_config(
                *target,
                route_target,
                text::opt_str_text(global_api_key),
            ) == Err::<ResolvedTargetView, HybridError>(error),
        },
{
    let provider_name = text::trimmed(target.provider.as_str());
    let model = text::trimmed(target.model.as_str());

    if provider_name.as_str().is_empty() {
        return Err(HybridError::EmptyTargetProvider);
    }
    if is_hybrid(target.provider.as_str()) {
        return Err(HybridError::RecursiveTargetProvider);
    }
    if model.as_str().is_empty() {
        return Err(HybridError::EmptyTargetModel);
    }
    let api_key = match trimmed_setting(&target.api_key) {
        Some(key) => Some(key),
        None => match global_api_key {
            Some(key) => Some(key.to_owned()),
            None => None,
        },
    };
    let api_url = trimmed_setting(&target.api_url);
    Ok(HybridResolvedTarget { target: route_target, provider_name, model, api_key, api_url })
}

/// Resolves an executor of the hybrid provider.
pub fn resolve_hybrid_target(
    hybrid: &HybridProviderConfig,
    target: HybridRouteTarget,
    global_api_key: Option<&str>,
) -> (res: Result<HybridResolvedTarget, HybridError>)
    ensures
        match res {
            Ok(resolved) => hybrid_target(*hybrid, target, text::opt_str_text(global_api_key))
                == Ok::<ResolvedTargetView, HybridError>(resolved@),
            Err(error) => hybrid_target(*hybrid, target, text::opt_str_text(global_api_key))
                == Err::<ResolvedTargetView, HybridError>(error),
        },
{
    if !hybrid.enabled {
        return Err(HybridError::Disabled);
    }
    let config = match target {
        HybridRouteTarget::Edge => &hybrid.edge,
        HybridRouteTarget::Frontier => &hybrid.frontier,
    };
    resolved_target_from_config(config, target, global_api_key)
}

/// Resolves the router.
pub fn resolve_router_target(
    router: &RouterConfig,
    hybrid: &HybridProviderConfig,
    global_api_key: Option<&str>,
) -> (res: Result<HybridResolvedRouter, HybridError>)
    ensures
        match res {
            Ok(resolved) => router_target(*router, *hybrid, text::opt_str_text(global_api_key))
                == Ok::<ResolvedRouterView, HybridError>(resolved@),
            Err(error) => router_target(*router, *hybrid, text::opt_str_text(global_api_key))
                == Err::<ResolvedRouterView, HybridError>(error),
        },
{
    let edge = match resolve_hybrid_target(hybrid, HybridRouteTarget::Edge, global_api_key) {
        Ok(edge) => edge,
        Err(error) => return Err(error),
    };
    let provider_name = match trimmed_setting(&router.provider) {
        Some(provider_name) => provider_name,
        None => edge.provider_name,
    };
    let model = match trimmed_setting(&router.model) {
        Some(model) => model,
        None => edge.model,
    };

    if is_hybrid(provider_name.as_str()) {
        return Err(HybridError::RecursiveRouterProvider);
    }
    let trimmed_model = text::trimmed(model.as_str());
    if trimmed_model.as_str().is_empty() {
        return Err(HybridError::UnresolvedRouterModel);
    }
    let api_key = match trimmed_setting(&router.api_key) {
        Some(key) => Some(key),
        None => edge.api_key,
    };
    let api_url = match trimmed_setting(&router.api_url) {
        Some(url) => Some(url),
        None => edge.api_url,
    };
    Ok(HybridResolvedRouter { provider_name, model, api_key, api_url })
}

} // verus!
