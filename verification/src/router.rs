//! Which executor a turn goes to.
//!
//! A turn is settled without the router model where it can be: by the requested model, by
//! images in it, by a lease of the frontier executor, or by its size. Otherwise the router
//! model is consulted, and whatever goes wrong there leads to the frontier executor.

use vstd::prelude::*;
use crate::compact;
use crate::compact::estimate_router_working_set_chars;
use crate::confidence;
use crate::confidence::{at_least, same_value, FULL_CONFIDENCE_BITS, NO_CONFIDENCE_BITS};
use crate::config::{
    ChatMessage, HybridProviderConfig, HybridRouteTarget, RouterConfig, RouterConversationContext,
};
use crate::hybrid;
use crate::hybrid::{
    is_hybrid, resolve_hybrid_target, resolve_router_target, HybridError, HybridProvider,
    HybridResolvedRouter, ResolvedRouterView, ROUTER_DEFAULT_SYSTEM_PROMPT,
};
use crate::prompt;
use crate::prompt::build_router_prompt;
use crate::reply;
use crate::reply::{parse_target, PayloadView, RouterDecisionPayload, RouterReplyError};
use crate::text;

verus! {

/// The largest compacted history, in characters, that the edge executor is considered for.
pub const EDGE_PROMPT_BYPASS_CHARS: usize = 2_400;

/// The number of follow-up turns that stay with the frontier executor once it was chosen.
pub const FRONTIER_ROUTE_LEASE_TURNS: usize = 2;

/// The most characters of an invalid reply that a summary quotes.
pub const INVALID_REPLY_QUOTE_CHARS: usize = 240;

/// The executor of a turn, and how it was chosen.
#[derive(Debug, Clone)]
pub struct TurnRouteDecision {
    pub target: HybridRouteTarget,
    pub provider_name: String,
    pub model: String,
    /// The confidence, as an IEEE 754 double-precision bit pattern.
    pub confidence_bits: u64,
    pub reason_code: String,
    pub summary: String,
    pub delegated_from_router: bool,
}

/// The texts of a decision.
#[verifier::ext_equal]
pub struct DecisionView {
    pub target: HybridRouteTarget,
    pub provider_name: Seq<char>,
    pub model: Seq<char>,
    pub confidence_bits: u64,
    pub reason_code: Seq<char>,
    pub summary: Seq<char>,
    pub delegated_from_router: bool,
}

impl View for TurnRouteDecision {
    type V = DecisionView;

    open spec fn view(&self) -> DecisionView {
        DecisionView {
            target: self.target,
            provider_name: self.provider_name@,
            model: self.model@,
            confidence_bits: self.confidence_bits,
            reason_code: self.reason_code@,
            summary: self.summary@,
            delegated_from_router: self.delegated_from_router,
        }
    }
}

/// Two decisions are equal: their texts, their targets and their flags are the same, and
/// their confidences are equal as numbers.
pub open spec fn is_same_decision(a: DecisionView, b: DecisionView) -> bool {
    &&& a.target == b.target
    &&& a.provider_name == b.provider_name
    &&& a.model == b.model
    &&& confidence::is_same_value(a.confidence_bits, b.confidence_bits)
    &&& a.reason_code == b.reason_code
    &&& a.summary == b.summary
    &&& a.delegated_from_router == b.delegated_from_router
}

impl PartialEq for TurnRouteDecision {
    fn eq(&self, other: &Self) -> (res: bool) {
        self.target == other.target && text::same_text(
            self.provider_name.as_str(),
            other.provider_name.as_str(),
        ) && text::same_text(self.model.as_str(), other.model.as_str()) && same_value(
            self.confidence_bits,
            other.confidence_bits,
        ) && text::same_text(self.reason_code.as_str(), other.reason_code.as_str())
            && text::same_text(self.summary.as_str(), other.summary.as_str())
            && self.delegated_from_router == other.delegated_from_router
    }
}

impl vstd::std_specs::cmp::PartialEqSpecImpl for TurnRouteDecision {
    open spec fn obeys_eq_spec() -> bool {
        true
    }

    open spec fn eq_spec(&self, other: &Self) -> bool {
        is_same_decision(self@, other@)
    }
}

/// A turn to be routed.
#[derive(Debug, Clone)]
pub struct HybridRouterRequest<'a> {
    pub requested_provider: &'a str,
    pub requested_model: &'a str,
    pub global_api_key: Option<&'a str>,
    pub hybrid: &'a HybridProviderConfig,
    pub router: &'a RouterConfig,
    pub history: &'a [ChatMessage],
    /// The number of images that the history refers to.
    pub image_markers: usize,
    pub channel_name: &'a str,
    pub conversation: RouterConversationContext,
}

/// A question to the router model.
#[derive(Debug, Clone)]
pub struct RouterConsultation {
    pub router: HybridResolvedRouter,
    pub system_prompt: String,
    pub prompt: String,
    pub timeout_ms: u64,
    /// The sampling temperature, as an IEEE 754 double-precision bit pattern.
    pub temperature_bits: u64,
    pub estimated_prompt_chars: usize,
}

/// The texts of a question to the router model.
#[verifier::ext_equal]
pub struct ConsultationView {
    pub router: ResolvedRouterView,
    pub system_prompt: Seq<char>,
    pub prompt: Seq<char>,
    pub timeout_ms: u64,
    pub temperature_bits: u64,
    pub estimated_prompt_chars: nat,
}

impl View for RouterConsultation {
    type V = ConsultationView;

    open spec fn view(&self) -> ConsultationView {
        ConsultationView {
            router: self.router@,
            system_prompt: self.system_prompt@,
            prompt: self.prompt@,
            timeout_ms: self.timeout_ms,
            temperature_bits: self.temperature_bits,
            estimated_prompt_chars: self.estimated_prompt_chars as nat,
        }
    }
}

/// How the question to the router model ended.
#[derive(Debug, Clone)]
pub enum RouterOutcome {
    /// It was answered with a decision. The two texts are the confidence of the decision and
    /// the threshold, with two decimals.
    Replied { payload: RouterDecisionPayload, confidence_text: String, threshold_text: String },
    /// It was answered with `raw`, which holds no decision.
    Unreadable { raw: String, error: RouterReplyError },
    /// It failed, for the reason given, which holds no secrets.
    Failed { summary: String },
    /// There was no answer in time.
    TimedOut,
}

/// What has happened to a turn.
#[derive(Debug, Clone)]
pub enum RouteEvent {
    /// It has come in.
    TurnReceived,
    /// The router model was consulted.
    RouterConsulted(RouterOutcome),
}

/// What to do with a turn next.
#[derive(Debug, Clone)]
pub enum RouteStep {
    /// It is not for the hybrid provider.
    NotHybrid,
    /// The executor is settled.
    Decided(TurnRouteDecision),
    /// The router model is to be consulted.
    Consult(RouterConsultation),
}

/// The texts of a step.
#[verifier::ext_equal]
pub enum StepView {
    NotHybrid,
    Decided(DecisionView),
    Consult(ConsultationView),
}

impl View for RouteStep {
    type V = StepView;

    open spec fn view(&self) -> StepView {
        match self {
            RouteStep::NotHybrid => StepView::NotHybrid,
            RouteStep::Decided(decision) => StepView::Decided(decision@),
            RouteStep::Consult(consultation) => StepView::Consult(consultation@),
        }
    }
}

/// A decision with the executor's names resolved.
pub open spec fn resolved_decision(
    hybrid: HybridProviderConfig,
    target: HybridRouteTarget,
    global_api_key: Option<Seq<char>>,
    confidence_bits: u64,
    reason_code: Seq<char>,
    summary: Seq<char>,
    delegated_from_router: bool,
) -> Result<DecisionView, HybridError> {
    match hybrid::hybrid_target(hybrid, target, global_api_key) {
        Ok(resolved) => Ok(
            DecisionView {
                target,
                provider_name: resolved.provider_name,
                model: resolved.model,
                confidence_bits,
                reason_code,
                summary,
                delegated_from_router,
            },
        ),
        Err(error) => Err(error),
    }
}

/// A decision that was made without the router model.
pub open spec fn explicit_decision(
    hybrid: HybridProviderConfig,
    target: HybridRouteTarget,
    global_api_key: Option<Seq<char>>,
    reason_code: Seq<char>,
    summary: Seq<char>,
) -> Result<DecisionView, HybridError> {
    resolved_decision(
        hybrid,
        target,
        global_api_key,
        FULL_CONFIDENCE_BITS,
        reason_code,
        summary,
        false,
    )
}

/// The summary of a turn that a lease settles.
pub open spec fn lease_summary(remaining: nat) -> Seq<char> {
    "Conversation remains pinned to frontier for "@ + text::decimal(remaining)
        + " more follow-up turn(s)"@
}

/// The summary of a turn that its size settles.
pub open spec fn size_summary(estimated_chars: nat) -> Seq<char> {
    "Bypassed router because local prompt estimate ("@ + text::decimal(estimated_chars)
        + " chars) exceeds edge budget ("@ + text::decimal(EDGE_PROMPT_BYPASS_CHARS as nat) + ")"@
}

/// What settles a turn before the router model is consulted: the target, the reason code and
/// the summary. The first that applies counts: the requested model, images, the lease, size.
pub open spec fn settled_early(request: HybridRouterRequest) -> Option<
    (HybridRouteTarget, Seq<char>, Seq<char>),
> {
    let estimated_chars = compact::estimated_chars(request.history@);
    match hybrid::explicit_target(request.requested_model@) {
        Some(target) => Some(
            (target, "explicit_model"@, "Pinned by explicit hybrid model selection"@),
        ),
        None => if request.image_markers > 0 {
            Some(
                (
                    HybridRouteTarget::Frontier,
                    "vision_required"@,
                    "Frontier selected because the turn contains image input"@,
                ),
            )
        } else if request.conversation.frontier_lease_remaining > 0 {
            Some(
                (
                    HybridRouteTarget::Frontier,
                    "frontier_lease"@,
                    lease_summary(request.conversation.frontier_lease_remaining as nat),
                ),
            )
        } else if estimated_chars > EDGE_PROMPT_BYPASS_CHARS {
            Some((HybridRouteTarget::Frontier, "prompt_too_large"@, size_summary(estimated_chars)))
        } else {
            None
        },
    }
}

/// What the router model is told to be.
pub open spec fn system_prompt_text(router: RouterConfig) -> Seq<char> {
    match router.system_prompt {
        Some(system_prompt) => system_prompt@,
        None => ROUTER_DEFAULT_SYSTEM_PROMPT@,
    }
}

/// The question to the router model about a turn.
pub open spec fn consultation(request: HybridRouterRequest) -> Result<
    ConsultationView,
    HybridError,
> {
    match hybrid::router_target(
        *request.router,
        *request.hybrid,
        text::opt_str_text(request.global_api_key),
    ) {
        Ok(router) => Ok(
            ConsultationView {
                router,
                system_prompt: system_prompt_text(*request.router),
                prompt: prompt::router_prompt(
                    request.history@,
                    *request.router,
                    request.conversation,
                ),
                timeout_ms: request.router.timeout_ms,
                temperature_bits: request.router.temperature_bits,
                estimated_prompt_chars: compact::estimated_chars(request.history@),
            },
        ),
        Err(error) => Err(error),
    }
}

/// What to do with a turn that has come in.
pub open spec fn first_step(request: HybridRouterRequest) -> Result<StepView, HybridError> {
    if !hybrid::names_hybrid(request.requested_provider@) {
        Ok(StepView::NotHybrid)
    } else if !request.hybrid.enabled {
        Err(HybridError::Disabled)
    } else {
        match settled_early(request) {
            Some((target, reason_code, summary)) => match explicit_decision(
                *request.hybrid,
                target,
                text::opt_str_text(request.global_api_key),
                reason_code,
                summary,
            ) {
                Ok(decision) => Ok(StepView::Decided(decision)),
                Err(error) => Err(error),
            },
            None => match consultation(request) {
                Ok(consultation) => Ok(StepView::Consult(consultation)),
                Err(error) => Err(error),
            },
        }
    }
}

/// A decision for the frontier executor that takes the place of one by the router model.
pub open spec fn fallback_payload(
    confidence_bits: u64,
    reason_code: Seq<char>,
    summary: Seq<char>,
) -> PayloadView {
    PayloadView { target: "frontier"@, confidence_bits, reason_code, summary }
}

/// The decision that is acted on after the router model was consulted, and whether it is the
/// router model's own.
pub open spec fn accepted_payload(outcome: RouterOutcome, router: RouterConfig) -> (
    PayloadView,
    bool,
) {
    match outcome {
        RouterOutcome::Replied { payload, confidence_text, threshold_text } => {
            if confidence::is_at_least(payload.confidence_bits, router.confidence_threshold_bits) {
                (payload@, true)
            } else {
                (
                    fallback_payload(
                        payload.confidence_bits,
                        "low_confidence"@,
                        "Router confidence "@ + confidence_text@ + " is below threshold "@
                            + threshold_text@,
                    ),
                    false,
                )
            }
        },
        RouterOutcome::Unreadable { raw, error: _ } => (
            fallback_payload(
                NO_CONFIDENCE_BITS,
                "router_invalid"@,
                "router returned invalid output: "@ + text::shortened(
                    raw@,
                    INVALID_REPLY_QUOTE_CHARS as nat,
                ),
            ),
            false,
        ),
        RouterOutcome::Failed { summary } => (
            fallback_payload(NO_CONFIDENCE_BITS, "router_error"@, summary@),
            false,
        ),
        RouterOutcome::TimedOut => (
            fallback_payload(
                NO_CONFIDENCE_BITS,
                "router_timeout"@,
                "Router timed out after "@ + text::decimal(router.timeout_ms as nat) + "ms"@,
            ),
            false,
        ),
    }
}

/// The target that a decision of the router model means; the frontier where it names none.
pub open spec fn payload_target(payload: PayloadView) -> HybridRouteTarget {
    match reply::named_target(payload.target) {
        Some(target) => target,
        None => HybridRouteTarget::Frontier,
    }
}

/// The decision on a turn once the router model was consulted.
pub open spec fn concluded_decision(
    request: HybridRouterRequest,
    outcome: RouterOutcome,
) -> Result<DecisionView, HybridError> {
    let (payload, delegated_from_router) = accepted_payload(outcome, *request.router);
    resolved_decision(
        *request.hybrid,
        payload_target(payload),
        text::opt_str_text(request.global_api_key),
        payload.confidence_bits,
        payload.reason_code,
        payload.summary,
        delegated_from_router,
    )
}

/// What to do with a turn after an event.
pub open spec fn step_after(request: HybridRouterRequest, event: RouteEvent) -> Result<
    StepView,
    HybridError,
> {
    match event {
        RouteEvent::TurnReceived => first_step(request),
        RouteEvent::RouterConsulted(outcome) => match concluded_decision(request, outcome) {
            Ok(decision) => Ok(StepView::Decided(decision)),
            Err(error) => Err(error),
        },
    }
}

/// Whether a provider needs the instructions on tools in the prompt: the hybrid provider does.
pub fn hybrid_requires_prompt_tool_instructions(provider_name: &str) -> (res: bool)
    ensures
        res == hybrid::names_hybrid(provider_name@),
{
    is_hybrid(provider_name)
}

/// The number of follow-up turns that stay with the frontier executor after a decision.
pub open spec fn next_lease(decision: DecisionView, previous_remaining: nat) -> nat {
    if decision.reason_code == "frontier_lease"@ {
        if previous_remaining > 0 {
            (previous_remaining - 1) as nat
        } else {
            0
        }
    } else if decision.target is Frontier {
        FRONTIER_ROUTE_LEASE_TURNS as nat
    } else {
        0
    }
}

/// The number of follow-up turns that stay with the frontier executor after a decision: a
/// leased turn uses one up, any other frontier turn starts a lease, and an edge turn ends it.
pub fn next_frontier_lease_after_turn(
    decision: &TurnRouteDecision,
    previous_remaining: usize,
) -> (res: usize)
    ensures
        res == next_lease(decision@, previous_remaining as nat),
{
    if text::same_text(decision.reason_code.as_str(), "frontier_lease") {
        if previous_remaining > 0 {
            previous_remaining - 1
        } else {
            0
        }
    } else if matches!(decision.target, HybridRouteTarget::Frontier) {
        FRONTIER_ROUTE_LEASE_TURNS
    } else {
        0
    }
}

/// A decision that is made without the router model.
pub fn resolve_explicit_decision(
    hybrid: &HybridProviderConfig,
    target: HybridRouteTarget,
    global_api_key: Option<&str>,
    reason_code: &str,
    summary: &str,
) -> (res: Result<TurnRouteDecision, HybridError>)
    ensures
        match res {
            Ok(decision) => explicit_decision(
                *hybrid,
                target,
                text::opt_str_text(global_api_key),
                reason_code@,
                summary@,
            ) == Ok::<DecisionView, HybridError>(decision@),
            Err(error) => explicit_decision(
                *hybrid,
                target,
                text::opt_str_text(global_api_key),
                reason_code@,
                summary@,
            ) == Err::<DecisionView, HybridError>(error),
        },
{
    match resolve_hybrid_target(hybrid, target, global_api_key) {
        Ok(resolved) => Ok(
            TurnRouteDecision {
                target,
                provider_name: resolved.provider_name,
                model: resolved.model,
                confidence_bits: FULL_CONFIDENCE_BITS,
                reason_code: reason_code.to_owned(),
                summary: summary.to_owned(),
                delegated_from_router: false,
            },
        ),
        Err(error) => Err(error),
    }
}

/// A decision for the frontier executor that takes the place of one by the router model.
fn frontier_payload(confidence_bits: u64, reason_code: &str, summary: String) -> (res:
    RouterDecisionPayload)
    ensures
        res@ == fallback_payload(confidence_bits, reason_code@, summary@),
{
    RouterDecisionPayload {
        target: "frontier".to_owned(),
        confidence_bits,
        reason_code: reason_code.to_owned(),
        summary,
    }
}

/// The decision that is acted on after the router model was consulted, and whether it is the
/// router model's own.
pub fn accept_router_outcome(outcome: RouterOutcome, router: &RouterConfig) -> (res: (
    RouterDecisionPayload,
    bool,
))
    ensures
        (res.0@, res.1) == accepted_payload(outcome, *router),
{
    match outcome {
        RouterOutcome::Replied { payload, confidence_text, threshold_text } => {
            if at_least(payload.confidence_bits, router.confidence_threshold_bits) {
                (payload, true)
            } else {
                let mut summary = "Router confidence ".to_owned();
                summary.append(confidence_text.as_str());
                summary.append(" is below threshold ");
                summary.append(threshold_text.as_str());
                (frontier_payload(payload.confidence_bits, "low_confidence", summary), false)
            }
        },
        RouterOutcome::Unreadable { raw, error: _ } => {
            let mut summary = "router returned invalid output: ".to_owned();
            let quote = text::truncate_with_ellipsis(raw.as_str(), INVALID_REPLY_QUOTE_CHARS);
            summary.append(quote.as_str());
            (frontier_payload(NO_CONFIDENCE_BITS, "router_invalid", summary), false)
        },
        RouterOutcome::Failed { summary } => (
            frontier_payload(NO_CONFIDENCE_BITS, "router_error", summary),
            false,
        ),
        RouterOutcome::TimedOut => {
            let mut summary = "Router timed out after ".to_owned();
            let timeout = text::decimal_text(router.timeout_ms);
            summary.append(timeout.as_str());
            summary.append("ms");
            (frontier_payload(NO_CONFIDENCE_BITS, "router_timeout", summary), false)
        },
    }
}

/// The summary of a turn that a lease settles.
fn describe_lease(remaining: usize) -> (res: String)
    ensures
        res@ == lease_summary(remaining as nat),
{
    let mut summary = "Conversation remains pinned to frontier for ".to_owned();
    let turns = text::decimal_text(remaining as u64);
    summary.append(turns.as_str());
    summary.append(" more follow-up turn(s)");
    summary
}

/// The summary of a turn that its size settles.
fn describe_size(estimated_prompt_chars: usize) -> (res: String)
    ensures
        res@ == size_summary(estimated_prompt_chars as nat),
{
    let mut summary = "Bypassed router because local prompt estimate (".to_owned();
    let estimate = text::decimal_text(estimated_prompt_chars as u64);
    summary.append(estimate.as_str());
    summary.append(" chars) exceeds edge budget (");
    let budget = text::decimal_text(EDGE_PROMPT_BYPASS_CHARS as u64);
    summary.append(budget.as_str());
    summary.append(")");
    summary
}

/// The question to the router model about a turn whose size was estimated.
fn consult_router(request: &HybridRouterRequest, estimated_prompt_chars: usize) -> (res: Result<
    RouterConsultation,
    HybridError,
>)
    requires
        estimated_prompt_chars == compact::estimated_chars(request.history@),
    ensures
        match res {
            Ok(question) => consultation(*request) == Ok::<ConsultationView, HybridError>(
                question@,
            ),
            Err(error) => consultation(*request) == Err::<ConsultationView, HybridError>(error),
        },
{
    let router = match resolve_router_target(
        request.router,
        request.hybrid,
        request.global_api_key,
    ) {
        Ok(router) => router,
        Err(error) => return Err(error),
    };
    let prompt = build_router_prompt(request.history, request.router, request.conversation);
    let system_prompt = match &request.router.system_prompt {
        Some(system_prompt) => system_prompt.as_str().to_owned(),
        None => ROUTER_DEFAULT_SYSTEM_PROMPT.to_owned(),
    };
    Ok(
        RouterConsultation {
            router,
            system_prompt,
            prompt,
            timeout_ms: request.router.timeout_ms,
            temperature_bits: request.router.temperature_bits,
            estimated_prompt_chars,
        },
    )
}

/// Settles a turn that has come in, or asks for the router model to be consulted.
pub fn begin_turn_route(request: &HybridRouterRequest) -> (res: Result<RouteStep, HybridError>)
    ensures
        match res {
            Ok(step) => first_step(*request) == Ok::<StepView, HybridError>(step@),
            Err(error) => first_step(*request) == Err::<StepView, HybridError>(error),
        },
{
    if !is_hybrid(request.requested_provider) {
        return Ok(RouteStep::NotHybrid);
    }
    if !request.hybrid.enabled {
        return Err(HybridError::Disabled);
    }
    let decided = if let Some(target) = HybridProvider::<()>::parse_explicit_target(
        request.requested_model,
    ) {
        resolve_explicit_decision(
            request.hybrid,
            target,
            request.global_api_key,
            "explicit_model",
            "Pinned by explicit hybrid model selection",
        )
    } else if request.image_markers > 0 {
        resolve_explicit_decision(
            request.hybrid,
            HybridRouteTarget::Frontier,
            request.global_api_key,
            "vision_required",
            "Frontier selected because the turn contains image input",
        )
    } else if request.conversation.frontier_lease_remaining > 0 {
        let summary = describe_lease(request.conversation.frontier_lease_remaining);
        resolve_explicit_decision(
            request.hybrid,
            HybridRouteTarget::Frontier,
            request.global_api_key,
            "frontier_lease",
            summary.as_str(),
        )
    } else {
        let estimated_prompt_chars = estimate_router_working_set_chars(request.history);
        if estimated_prompt_chars <= EDGE_PROMPT_BYPASS_CHARS {
            return match consult_router(request, estimated_prompt_chars) {
                Ok(consultation) => Ok(RouteStep::Consult(consultation)),
                Err(error) => Err(error),
            };
        }
        let summary = describe_size(estimated_prompt_chars);
        resolve_explicit_decision(
            request.hybrid,
            HybridRouteTarget::Frontier,
            request.global_api_key,
            "prompt_too_large",
            summary.as_str(),
        )
    };
    match decided {
        Ok(decision) => Ok(RouteStep::Decided(decision)),
        Err(error) => Err(error),
    }
}

/// Settles a turn once the router model was consulted.
pub fn conclude_turn_route(request: &HybridRouterRequest, outcome: RouterOutcome) -> (res: Result<
    TurnRouteDecision,
    HybridError,
>)
    ensures
        match res {
            Ok(decision) => concluded_decision(*request, outcome) == Ok::<
                DecisionView,
                HybridError,
            >(decision@),
            Err(error) => concluded_decision(*request, outcome) == Err::<DecisionView, HybridError>(
                error,
            ),
        },
{
    let (payload, delegated_from_router) = accept_router_outcome(outcome, request.router);
    let target = match parse_target(payload.target.as_str()) {
        Some(target) => target,
        None => HybridRouteTarget::Frontier,
    };
    match resolve_hybrid_target(request.hybrid, target, request.global_api_key) {
        Ok(resolved) => Ok(
            TurnRouteDecision {
                target,
                provider_name: resolved.provider_name,
                model: resolved.model,
                confidence_bits: payload.confidence_bits,
                reason_code: payload.reason_code,
                summary: payload.summary,
                delegated_from_router,
            },
        ),
        Err(error) => Err(error),
    }
}

/// The next step towards the executor of a turn.
pub fn resolve_turn_route(request: &HybridRouterRequest, event: RouteEvent) -> (res: Result<
    RouteStep,
    HybridError,
>)
    ensures
        match res {
            Ok(step) => step_after(*request, event) == Ok::<StepView, HybridError>(step@),
            Err(error) => step_after(*request, event) == Err::<StepView, HybridError>(error),
        },
{
    match event {
        RouteEvent::TurnReceived => begin_turn_route(request),
        RouteEvent::RouterConsulted(outcome) => match conclude_turn_route(request, outcome) {
            Ok(decision) => Ok(RouteStep::Decided(decision)),
            Err(error) => Err(error),
        },
    }
}

} // verus!
