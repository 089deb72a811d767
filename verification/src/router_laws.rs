//! What becomes of a turn, gate by gate and outcome by outcome, down to the last field of the
//! decision.

use vstd::prelude::*;
use crate::compact;
use crate::confidence;
use crate::config::{HybridRouteTarget, RouterConfig};
use crate::hybrid;
use crate::hybrid::{HybridError, ROUTER_DEFAULT_SYSTEM_PROMPT};
use crate::hybrid_laws;
use crate::laws;
use crate::prompt;
use crate::reply;
use crate::router;
use crate::router::{
    ConsultationView, DecisionView, HybridRouterRequest, RouteEvent, RouteStep, RouterConsultation,
    RouterOutcome, StepView, TurnRouteDecision,
};
use crate::text;
use vstd::std_specs::cmp::PartialEqSpec;

verus! {

/// A decision for `target` with the names that the configuration gives it, or the reason for
/// which it cannot be had.
pub open spec fn decision_for(
    request: HybridRouterRequest,
    target: HybridRouteTarget,
    confidence_bits: u64,
    reason_code: Seq<char>,
    summary: Seq<char>,
    delegated_from_router: bool,
) -> Result<DecisionView, HybridError> {
    let settings = hybrid_laws::settings_of(*request.hybrid, target);
    match laws::target_of(request, target) {
        Err(error) => Err(error),
        Ok(_) => Ok(
            DecisionView {
                target,
                provider_name: text::trim(settings.provider@),
                model: text::trim(settings.model@),
                confidence_bits,
                reason_code,
                summary,
                delegated_from_router,
            },
        ),
    }
}

/// The turn is settled at once, in the way given.
pub open spec fn is_settled_by(
    request: HybridRouterRequest,
    decision: Result<DecisionView, HybridError>,
) -> bool {
    match decision {
        Ok(decision) => router::first_step(request) == Ok::<StepView, HybridError>(
            StepView::Decided(decision),
        ),
        Err(error) => router::first_step(request) == Err::<StepView, HybridError>(error),
    }
}

/// A turn of the hybrid provider, which is switched on.
pub open spec fn is_hybrid_turn(request: HybridRouterRequest) -> bool {
    hybrid::names_hybrid(request.requested_provider@) && request.hybrid.enabled
}

/// The names in a decision come from the settings of its target.
proof fn lemma_names(request: HybridRouterRequest)
    ensures
        forall|target: HybridRouteTarget|
            #[trigger] laws::target_of(request, target) matches Ok(resolved) ==> {
                let settings = hybrid_laws::settings_of(*request.hybrid, target);
                &&& resolved.provider_name == text::trim(settings.provider@)
                &&& resolved.model == text::trim(settings.model@)
            },
{
    let key = text::opt_str_text(request.global_api_key);
    hybrid_laws::law_executor_settings(*request.hybrid, HybridRouteTarget::Edge, key);
    hybrid_laws::law_executor_settings(*request.hybrid, HybridRouteTarget::Frontier, key);
}

/// A turn of the hybrid provider fails at once where that is switched off; a turn of another
/// provider does not.
pub proof fn law_disabled_provider(request: HybridRouterRequest)
    requires
        !request.hybrid.enabled,
    ensures
        hybrid::names_hybrid(request.requested_provider@) ==> router::first_step(request) == Err::<
            StepView,
            HybridError,
        >(HybridError::Disabled),
        !hybrid::names_hybrid(request.requested_provider@) ==> router::first_step(request) == Ok::<
            StepView,
            HybridError,
        >(StepView::NotHybrid),
{
}

/// A model that names a target settles the turn, with full confidence, whatever else holds.
pub proof fn law_explicit_model_settles(request: HybridRouterRequest, target: HybridRouteTarget)
    requires
        is_hybrid_turn(request),
        hybrid::explicit_target(request.requested_model@) == Some(target),
    ensures
        is_settled_by(
            request,
            decision_for(
                request,
                target,
                0x3ff0_0000_0000_0000,
                "explicit_model"@,
                "Pinned by explicit hybrid model selection"@,
                false,
            ),
        ),
{
    lemma_names(request);
}

/// Images settle a turn that no model name does.
pub proof fn law_images_settle(request: HybridRouterRequest)
    requires
        is_hybrid_turn(request),
        hybrid::explicit_target(request.requested_model@) is None,
        request.image_markers > 0,
    ensures
        is_settled_by(
            request,
            decision_for(
                request,
                HybridRouteTarget::Frontier,
                0x3ff0_0000_0000_0000,
                "vision_required"@,
                "Frontier selected because the turn contains image input"@,
                false,
            ),
        ),
{
    lemma_names(request);
}

/// A lease settles a turn that neither a model name nor an image does.
pub proof fn law_lease_settles(request: HybridRouterRequest)
    requires
        is_hybrid_turn(request),
        hybrid::explicit_target(request.requested_model@) is None,
        request.image_markers == 0,
        request.conversation.frontier_lease_remaining > 0,
    ensures
        is_settled_by(
            request,
            decision_for(
                request,
                HybridRouteTarget::Frontier,
                0x3ff0_0000_0000_0000,
                "frontier_lease"@,
                "Conversation remains pinned to frontier for "@ + text::decimal(
                    request.conversation.frontier_lease_remaining as nat,
                ) + " more follow-up turn(s)"@,
                false,
            ),
        ),
{
    lemma_names(request);
}

/// More than 2400 characters of compacted history settle a turn that no model name, no image
/// and no lease does.
pub proof fn law_size_settles(request: HybridRouterRequest)
    requires
        is_hybrid_turn(request),
        hybrid::explicit_target(request.requested_model@) is None,
        request.image_markers == 0,
        request.conversation.frontier_lease_remaining == 0,
        compact::working_set_chars(request.history@) > 2400,
    ensures
        is_settled_by(
            request,
            decision_for(
                request,
                HybridRouteTarget::Frontier,
                0x3ff0_0000_0000_0000,
                "prompt_too_large"@,
                "Bypassed router because local prompt estimate ("@ + text::decimal(
                    compact::estimated_chars(request.history@),
                ) + " chars) exceeds edge budget (2400)"@,
                false,
            ),
        ),
{
    lemma_names(request);
    let estimate = text::decimal(compact::estimated_chars(request.history@));
    reveal_strlit(" chars) exceeds edge budget (");
    reveal_strlit(")");
    reveal_strlit(" chars) exceeds edge budget (2400)");
    reveal_with_fuel(text::decimal, 4);
    assert(text::decimal(2400) =~= seq!['2', '4', '0', '0']);
    assert(" chars) exceeds edge budget ("@ + text::decimal(2400) + ")"@
        =~= " chars) exceeds edge budget (2400)"@);
    assert(router::size_summary(compact::estimated_chars(request.history@))
        =~= "Bypassed router because local prompt estimate ("@ + estimate + (
    " chars) exceeds edge budget ("@ + text::decimal(2400) + ")"@));
}

/// Every other turn is put to the router model, whatever is known of the conversation: no
/// model name and no image pins it, no lease is left, and the compacted history has at most
/// 2400 characters. The question holds the resolved router, the configured instructions or
/// the default ones, the prompt for the turn, and the configured limits. It fails only where
/// the router cannot be resolved.
pub proof fn law_open_turn_is_put_to_the_router(request: HybridRouterRequest)
    requires
        is_hybrid_turn(request),
        hybrid::explicit_target(request.requested_model@) is None,
        request.image_markers == 0,
        request.conversation.frontier_lease_remaining == 0,
        compact::working_set_chars(request.history@) <= 2400,
    ensures
        match hybrid::router_target(
            *request.router,
            *request.hybrid,
            text::opt_str_text(request.global_api_key),
        ) {
            Err(error) => router::first_step(request) == Err::<StepView, HybridError>(error),
            Ok(resolved) => {
                &&& router::first_step(request) matches Ok(StepView::Consult(question))
                &&& question.router == resolved
                &&& request.router.system_prompt matches Some(own) ==> question.system_prompt
                    == own@
                &&& request.router.system_prompt is None ==> question.system_prompt
                    == ROUTER_DEFAULT_SYSTEM_PROMPT@
                &&& question.prompt == prompt::router_prompt(
                    request.history@,
                    *request.router,
                    request.conversation,
                )
                &&& question.timeout_ms == request.router.timeout_ms
                &&& question.temperature_bits == request.router.temperature_bits
                &&& question.estimated_prompt_chars == compact::working_set_chars(request.history@)
            },
        },
{
}

/// The first step of a turn does not depend on whether it goes on a conversation, but for
/// the prompt of the question.
pub proof fn law_prior_history_settles_nothing(a: HybridRouterRequest, b: HybridRouterRequest)
    requires
        b == (HybridRouterRequest { conversation: b.conversation, ..a }),
        a.conversation.frontier_lease_remaining == b.conversation.frontier_lease_remaining,
    ensures
        match router::first_step(a) {
            Ok(StepView::Consult(question)) => router::first_step(b) matches Ok(
                StepView::Consult(other),
            ) && other == (ConsultationView { prompt: other.prompt, ..question }),
            _ => router::first_step(b) == router::first_step(a),
        },
{
}

/// The channel does not matter.
pub proof fn law_channel_does_not_matter(
    a: HybridRouterRequest,
    b: HybridRouterRequest,
    event: RouteEvent,
)
    requires
        b == (HybridRouterRequest { channel_name: b.channel_name, ..a }),
    ensures
        router::step_after(a, event) == router::step_after(b, event),
{
}

/// The steps of a turn are its first step, and its decision once the router was consulted.
pub proof fn law_steps(request: HybridRouterRequest, outcome: RouterOutcome)
    ensures
        router::step_after(request, RouteEvent::TurnReceived) == router::first_step(request),
        match router::concluded_decision(request, outcome) {
            Ok(decision) => router::step_after(request, RouteEvent::RouterConsulted(outcome))
                == Ok::<StepView, HybridError>(StepView::Decided(decision)),
            Err(error) => router::step_after(request, RouteEvent::RouterConsulted(outcome)) == Err::<
                StepView,
                HybridError,
            >(error),
        },
{
}

/// A reply with at least the configured confidence is followed in every part.
pub proof fn law_confident_reply_is_followed(request: HybridRouterRequest, outcome: RouterOutcome)
    requires
        outcome is Replied,
        confidence::is_at_least(
            outcome->payload.confidence_bits,
            request.router.confidence_threshold_bits,
        ),
    ensures
        ({
            let payload = outcome->payload;
            let target = if reply::named_target(payload.target@) == Some(HybridRouteTarget::Edge) {
                HybridRouteTarget::Edge
            } else {
                HybridRouteTarget::Frontier
            };
            router::concluded_decision(request, outcome) == decision_for(
                request,
                target,
                payload.confidence_bits,
                payload.reason_code@,
                payload.summary@,
                true,
            )
        }),
{
    lemma_names(request);
}

/// A reply with less confidence, or with one that is not a number, goes to the frontier
/// executor, with both confidences told.
pub proof fn law_unsure_reply_goes_to_frontier(request: HybridRouterRequest, outcome: RouterOutcome)
    requires
        outcome is Replied,
        !confidence::is_at_least(
            outcome->payload.confidence_bits,
            request.router.confidence_threshold_bits,
        ),
    ensures
        router::concluded_decision(request, outcome) == decision_for(
            request,
            HybridRouteTarget::Frontier,
            outcome->payload.confidence_bits,
            "low_confidence"@,
            "Router confidence "@ + outcome->confidence_text@ + " is below threshold "@
                + outcome->threshold_text@,
            false,
        ),
{
    lemma_names(request);
    laws::lemma_fallback_target();
}

/// A reply that cannot be read goes to the frontier executor, with its first 240 characters.
pub proof fn law_unreadable_reply_goes_to_frontier(
    request: HybridRouterRequest,
    outcome: RouterOutcome,
)
    requires
        outcome is Unreadable,
    ensures
        router::concluded_decision(request, outcome) == decision_for(
            request,
            HybridRouteTarget::Frontier,
            0,
            "router_invalid"@,
            "router returned invalid output: "@ + text::shortened(outcome->raw@, 240),
            false,
        ),
{
    lemma_names(request);
    laws::lemma_fallback_target();
}

/// A failed call goes to the frontier executor, with the reason given.
pub proof fn law_failed_call_goes_to_frontier(request: HybridRouterRequest, outcome: RouterOutcome)
    requires
        outcome is Failed,
    ensures
        router::concluded_decision(request, outcome) == decision_for(
            request,
            HybridRouteTarget::Frontier,
            0,
            "router_error"@,
            outcome->summary@,
            false,
        ),
{
    lemma_names(request);
    laws::lemma_fallback_target();
}

/// No answer in time goes to the frontier executor, with the time that was waited.
pub proof fn law_timeout_goes_to_frontier(request: HybridRouterRequest)
    ensures
        router::concluded_decision(request, RouterOutcome::TimedOut) == decision_for(
            request,
            HybridRouteTarget::Frontier,
            0,
            "router_timeout"@,
            "Router timed out after "@ + text::decimal(request.router.timeout_ms as nat) + "ms"@,
            false,
        ),
{
    lemma_names(request);
    laws::lemma_fallback_target();
}

/// A decision that is made without the router model has the target, the reason and the summary
/// that it is given, and full confidence.
pub proof fn law_explicit_decision(
    request: HybridRouterRequest,
    target: HybridRouteTarget,
    reason_code: Seq<char>,
    summary: Seq<char>,
)
    ensures
        router::explicit_decision(
            *request.hybrid,
            target,
            text::opt_str_text(request.global_api_key),
            reason_code,
            summary,
        ) == decision_for(request, target, 0x3ff0_0000_0000_0000, reason_code, summary, false),
{
    lemma_names(request);
}

/// A reply with enough confidence is accepted as it is. In any other case the frontier is
/// named in its place, with the reason, and with the confidence of the reply where there was
/// one, else none.
pub proof fn law_accepted_reply(outcome: RouterOutcome, router: RouterConfig)
    ensures
        ({
            let (accepted, own) = router::accepted_payload(outcome, router);
            match outcome {
                RouterOutcome::Replied { payload, confidence_text, threshold_text } => {
                    let enough = confidence::is_at_least(
                        payload.confidence_bits,
                        router.confidence_threshold_bits,
                    );
                    &&& own == enough
                    &&& accepted.confidence_bits == payload.confidence_bits
                    &&& enough ==> {
                        &&& accepted.target == payload.target@
                        &&& accepted.reason_code == payload.reason_code@
                        &&& accepted.summary == payload.summary@
                    }
                    &&& !enough ==> {
                        &&& accepted.target == "frontier"@
                        &&& accepted.reason_code == "low_confidence"@
                        &&& accepted.summary == "Router confidence "@ + confidence_text@
                            + " is below threshold "@ + threshold_text@
                    }
                },
                RouterOutcome::Unreadable { raw, error: _ } => {
                    &&& !own
                    &&& accepted.target == "frontier"@
                    &&& accepted.confidence_bits == 0
                    &&& accepted.reason_code == "router_invalid"@
                    &&& accepted.summary == "router returned invalid output: "@ + text::shortened(
                        raw@,
                        240,
                    )
                },
                RouterOutcome::Failed { summary } => {
                    &&& !own
                    &&& accepted.target == "frontier"@
                    &&& accepted.confidence_bits == 0
                    &&& accepted.reason_code == "router_error"@
                    &&& accepted.summary == summary@
                },
                RouterOutcome::TimedOut => {
                    &&& !own
                    &&& accepted.target == "frontier"@
                    &&& accepted.confidence_bits == 0
                    &&& accepted.reason_code == "router_timeout"@
                    &&& accepted.summary == "Router timed out after "@ + text::decimal(
                        router.timeout_ms as nat,
                    ) + "ms"@
                },
            }
        }),
{
}

/// A leased turn uses up one turn of the lease, any other frontier turn starts a lease of two
/// turns, and any other edge turn ends it, whatever else the decision says.
pub proof fn law_next_lease(decision: DecisionView, previous: nat)
    ensures
        decision.reason_code == "frontier_lease"@ && previous > 0 ==> router::next_lease(
            decision,
            previous,
        ) == previous - 1,
        decision.reason_code == "frontier_lease"@ && previous == 0 ==> router::next_lease(
            decision,
            previous,
        ) == 0,
        decision.reason_code != "frontier_lease"@ && decision.target is Frontier
            ==> router::next_lease(decision, previous) == 2,
        decision.reason_code != "frontier_lease"@ && decision.target is Edge ==> router::next_lease(
            decision,
            previous,
        ) == 0,
{
}

/// Two decisions are equal if and only if they agree in every part, where the confidences
/// agree as numbers: the same bits, or a zero each, and numbers at all.
pub proof fn law_same_decision(a: DecisionView, b: DecisionView)
    ensures
        router::is_same_decision(a, b) <==> {
            &&& a.target == b.target
            &&& a.provider_name == b.provider_name
            &&& a.model == b.model
            &&& a.reason_code == b.reason_code
            &&& a.summary == b.summary
            &&& a.delegated_from_router == b.delegated_from_router
            &&& confidence::is_number(a.confidence_bits)
            &&& a.confidence_bits == b.confidence_bits || {
                &&& a.confidence_bits == 0 || a.confidence_bits == 0x8000_0000_0000_0000
                &&& b.confidence_bits == 0 || b.confidence_bits == 0x8000_0000_0000_0000
            }
        },
{
}

/// Decisions are compared by what they hold: `==` says whether they agree in every part.
pub proof fn law_decisions_are_compared_by_their_parts(a: TurnRouteDecision, b: TurnRouteDecision)
    ensures
        TurnRouteDecision::obeys_eq_spec(),
        a.eq_spec(&b) <==> {
            &&& a.target == b.target
            &&& a.provider_name@ == b.provider_name@
            &&& a.model@ == b.model@
            &&& confidence::is_same_value(a.confidence_bits, b.confidence_bits)
            &&& a.reason_code@ == b.reason_code@
            &&& a.summary@ == b.summary@
            &&& a.delegated_from_router == b.delegated_from_router
        },
{
}

/// The texts of a decision, of a question and of a step are those of their parts.
pub proof fn law_step_views(decision: TurnRouteDecision, question: RouterConsultation)
    ensures
        decision@.target == decision.target,
        decision@.provider_name == decision.provider_name@,
        decision@.model == decision.model@,
        decision@.confidence_bits == decision.confidence_bits,
        decision@.reason_code == decision.reason_code@,
        decision@.summary == decision.summary@,
        decision@.delegated_from_router == decision.delegated_from_router,
        question@.router == question.router@,
        question@.system_prompt == question.system_prompt@,
        question@.prompt == question.prompt@,
        question@.timeout_ms == question.timeout_ms,
        question@.temperature_bits == question.temperature_bits,
        question@.estimated_prompt_chars == question.estimated_prompt_chars,
        RouteStep::NotHybrid@ is NotHybrid,
        RouteStep::Decided(decision)@ == StepView::Decided(decision@),
        RouteStep::Consult(question)@ == StepView::Consult(question@),
{
}

} // verus!
