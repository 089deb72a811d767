//! What the configuration of executors and router comes to, setting by setting.

use vstd::prelude::*;
use crate::config;
use crate::config::{HybridProviderConfig, HybridRouteTarget, HybridTargetConfig, RouterConfig};
use crate::hybrid;
use crate::hybrid::{
    HybridError, HybridProvider, HybridResolvedRouter, HybridResolvedTarget, ProviderCapabilities,
    ResolvedRouterView, ResolvedTargetView, SelectedTarget,
};
use crate::laws;
use crate::reply;
use crate::text;
use crate::text_laws;
use crate::text_lemmas;

verus! {

/// A setting is there and is not blank.
pub open spec fn is_given(value: Option<String>) -> bool {
    value is Some && !text_lemmas::is_blank(value->0@)
}

/// The settings of one executor.
pub open spec fn settings_of(
    hybrid: HybridProviderConfig,
    target: HybridRouteTarget,
) -> HybridTargetConfig {
    if target is Edge {
        hybrid.edge
    } else {
        hybrid.frontier
    }
}

/// The targets have the names "edge" and "frontier".
pub proof fn law_target_labels()
    ensures
        config::target_label(HybridRouteTarget::Edge) == "edge"@,
        config::target_label(HybridRouteTarget::Frontier) == "frontier"@,
{
}

/// A provider name means the hybrid provider if and only if, without the white space around
/// it and in lower case, it reads "hybrid".
pub proof fn law_hybrid_by_name(before: Seq<char>, name: Seq<char>, after: Seq<char>)
    requires
        text_lemmas::is_blank(before),
        text_lemmas::is_blank(after),
        name.len() == 0 || text_lemmas::is_tight(name),
    ensures
        hybrid::names_hybrid(before + name + after) <==> text::lowercase(name) == "hybrid"@,
{
    text_laws::law_trim_takes_the_padding(before, name, after);
}

/// A model pins a target if and only if, without the white space around it and in lower
/// case, it reads "hybrid:edge" or "hybrid:frontier".
pub proof fn law_explicit_model_by_name(before: Seq<char>, model: Seq<char>, after: Seq<char>)
    requires
        text_lemmas::is_blank(before),
        text_lemmas::is_blank(after),
        model.len() == 0 || text_lemmas::is_tight(model),
    ensures
        hybrid::explicit_target(before + model + after) == Some(HybridRouteTarget::Edge)
            <==> text::lowercase(model) == "hybrid:edge"@,
        hybrid::explicit_target(before + model + after) == Some(HybridRouteTarget::Frontier)
            <==> text::lowercase(model) == "hybrid:frontier"@,
{
    reveal_strlit("hybrid:edge");
    reveal_strlit("hybrid:frontier");
    assert("hybrid:edge"@.len() != "hybrid:frontier"@.len());
    text_laws::law_trim_takes_the_padding(before, model, after);
}

/// A reply names a target if and only if, without the white space around it and in lower
/// case, it reads "edge" or "frontier".
pub proof fn law_target_by_name(before: Seq<char>, name: Seq<char>, after: Seq<char>)
    requires
        text_lemmas::is_blank(before),
        text_lemmas::is_blank(after),
        name.len() == 0 || text_lemmas::is_tight(name),
    ensures
        reply::named_target(before + name + after) == Some(HybridRouteTarget::Edge)
            <==> text::lowercase(name) == "edge"@,
        reply::named_target(before + name + after) == Some(HybridRouteTarget::Frontier)
            <==> text::lowercase(name) == "frontier"@,
{
    reveal_strlit("edge");
    reveal_strlit("frontier");
    assert("edge"@.len() != "frontier"@.len());
    text_laws::law_trim_takes_the_padding(before, name, after);
}

/// Each target has its own executor, and a request goes to the target that its model names,
/// else to the fallback.
pub proof fn law_executor_of_a_request<P>(provider: HybridProvider<P>, model: Seq<char>)
    ensures
        provider.executor(SelectedTarget::Edge) == provider.edge,
        provider.executor(SelectedTarget::Frontier) == provider.frontier,
        hybrid::explicit_target(model) == Some(HybridRouteTarget::Edge) ==> provider.target_for(
            model,
        ) is Edge,
        hybrid::explicit_target(model) == Some(HybridRouteTarget::Frontier)
            ==> provider.target_for(model) is Frontier,
        hybrid::explicit_target(model) is None ==> provider.target_for(model)
            == provider.fallback_target,
{
}

/// The provider has a capability if and only if either executor has it, whatever the other
/// capability.
pub proof fn law_combined_capabilities(edge: ProviderCapabilities, frontier: ProviderCapabilities)
    ensures
        hybrid::capabilities_of_either(edge, frontier).native_tool_calling <==> {
            ||| edge.native_tool_calling
            ||| frontier.native_tool_calling
        },
        hybrid::capabilities_of_either(edge, frontier).vision <==> edge.vision || frontier.vision,
        hybrid::capabilities_of_either(edge, frontier) == hybrid::capabilities_of_either(
            frontier,
            edge,
        ),
{
}

/// A resolved executor has its names from its own configuration, and its key and URL too
/// where they are given there, all without the white space around them. A key that is not
/// given is the global one as it is; a URL that is not given is absent.
pub proof fn law_executor_settings(
    hybrid: HybridProviderConfig,
    target: HybridRouteTarget,
    global_api_key: Option<Seq<char>>,
)
    ensures
        hybrid::hybrid_target(hybrid, target, global_api_key) matches Ok(resolved) ==> {
            let settings = settings_of(hybrid, target);
            &&& resolved.target == target
            &&& resolved.provider_name == text::trim(settings.provider@)
            &&& resolved.model == text::trim(settings.model@)
            &&& is_given(settings.api_key) ==> resolved.api_key == Some(
                text::trim(settings.api_key->0@),
            )
            &&& !is_given(settings.api_key) ==> resolved.api_key == global_api_key
            &&& is_given(settings.api_url) ==> resolved.api_url == Some(
                text::trim(settings.api_url->0@),
            )
            &&& !is_given(settings.api_url) ==> resolved.api_url is None
        },
{
    let settings = settings_of(hybrid, target);
    if settings.api_key is Some {
        laws::lemma_trim_blank(settings.api_key->0@);
    }
    if settings.api_url is Some {
        laws::lemma_trim_blank(settings.api_url->0@);
    }
}

/// An executor is refused for the first of these: the hybrid provider is switched off, its
/// provider is blank, its provider is the hybrid one, its model is blank. For nothing else.
pub proof fn law_executor_refusals(
    hybrid: HybridProviderConfig,
    target: HybridRouteTarget,
    global_api_key: Option<Seq<char>>,
)
    ensures
        ({
            let result = hybrid::hybrid_target(hybrid, target, global_api_key);
            let settings = settings_of(hybrid, target);
            let no_provider = text_lemmas::is_blank(settings.provider@);
            let recursive = hybrid::names_hybrid(settings.provider@);
            let no_model = text_lemmas::is_blank(settings.model@);
            &&& result == Err::<ResolvedTargetView, HybridError>(HybridError::Disabled)
                <==> !hybrid.enabled
            &&& result == Err::<ResolvedTargetView, HybridError>(HybridError::EmptyTargetProvider)
                <==> hybrid.enabled && no_provider
            &&& result == Err::<ResolvedTargetView, HybridError>(
                HybridError::RecursiveTargetProvider,
            ) <==> hybrid.enabled && !no_provider && recursive
            &&& result == Err::<ResolvedTargetView, HybridError>(HybridError::EmptyTargetModel)
                <==> hybrid.enabled && !no_provider && !recursive && no_model
            &&& result is Ok <==> hybrid.enabled && !no_provider && !recursive && !no_model
        }),
{
    let settings = settings_of(hybrid, target);
    laws::lemma_trim_blank(settings.provider@);
    laws::lemma_trim_blank(settings.model@);
}

/// Each setting of the router is resolved on its own: the router's where it is given, else
/// the edge executor's, whichever of the others are given. A key given by neither is the
/// global one.
pub proof fn law_router_settings(
    router: RouterConfig,
    hybrid: HybridProviderConfig,
    global_api_key: Option<Seq<char>>,
)
    ensures
        hybrid::router_target(router, hybrid, global_api_key) matches Ok(resolved) ==> {
            let edge = hybrid.edge;
            &&& resolved.provider_name == text::trim(
                if is_given(router.provider) {
                    router.provider->0@
                } else {
                    edge.provider@
                },
            )
            &&& resolved.model == text::trim(
                if is_given(router.model) {
                    router.model->0@
                } else {
                    edge.model@
                },
            )
            &&& resolved.api_key == if is_given(router.api_key) {
                Some(text::trim(router.api_key->0@))
            } else if is_given(edge.api_key) {
                Some(text::trim(edge.api_key->0@))
            } else {
                global_api_key
            }
            &&& resolved.api_url == if is_given(router.api_url) {
                Some(text::trim(router.api_url->0@))
            } else if is_given(edge.api_url) {
                Some(text::trim(edge.api_url->0@))
            } else {
                None
            }
        },
{
    law_executor_settings(hybrid, HybridRouteTarget::Edge, global_api_key);
    lemma_given(router.provider);
    lemma_given(router.model);
    lemma_given(router.api_key);
    lemma_given(router.api_url);
}

/// A setting is present after trimming if and only if it is given.
proof fn lemma_given(value: Option<String>)
    ensures
        hybrid::setting(text::opt_text(value)) is Some <==> is_given(value),
{
    if value is Some {
        laws::lemma_trim_blank(value->0@);
    }
}

/// The router is refused for what the edge executor is refused for, and then for naming the
/// hybrid provider itself. For nothing else.
pub proof fn law_router_refusals(
    router: RouterConfig,
    hybrid: HybridProviderConfig,
    global_api_key: Option<Seq<char>>,
)
    ensures
        ({
            let result = hybrid::router_target(router, hybrid, global_api_key);
            let recursive = router.provider is Some && hybrid::names_hybrid(router.provider->0@);
            match hybrid::hybrid_target(hybrid, HybridRouteTarget::Edge, global_api_key) {
                Err(error) => result == Err::<ResolvedRouterView, HybridError>(error),
                Ok(_) => {
                    &&& recursive ==> result == Err::<ResolvedRouterView, HybridError>(
                        HybridError::RecursiveRouterProvider,
                    )
                    &&& !recursive ==> result is Ok
                },
            }
        }),
{
    laws::law_router_resolution(router, hybrid, global_api_key);
}

/// The texts of a resolved executor and of a resolved router are those of their settings.
pub proof fn law_resolved_views(executor: HybridResolvedTarget, router: HybridResolvedRouter)
    ensures
        executor@.target == executor.target,
        executor@.provider_name == executor.provider_name@,
        executor@.model == executor.model@,
        executor@.api_key == text::opt_text(executor.api_key),
        executor@.api_url == text::opt_text(executor.api_url),
        router@.provider_name == router.provider_name@,
        router@.model == router.model@,
        router@.api_key == text::opt_text(router.api_key),
        router@.api_url == text::opt_text(router.api_url),
{
}

} // verus!
