use hybrid_router::compact::{compact_message_for_local_model, estimate_router_working_set_chars};
use hybrid_router::config::{
    ChatMessage, HybridProviderConfig, HybridRouteTarget, HybridTargetConfig, RouterConfig,
    RouterConversationContext,
};
use hybrid_router::hybrid::{HybridError, ROUTER_DEFAULT_SYSTEM_PROMPT};
use hybrid_router::prompt::{build_router_prompt, render_router_prompt};
use hybrid_router::reply::{
    find_embedded_json, parse_router_response, parse_target, ReplyEvent, ReplyStep,
    RouterDecisionPayload, RouterReplyError,
};
use hybrid_router::router::{
    accept_router_outcome, begin_turn_route, conclude_turn_route,
    hybrid_requires_prompt_tool_instructions, next_frontier_lease_after_turn,
    resolve_explicit_decision, resolve_turn_route, HybridRouterRequest, RouteEvent, RouteStep,
    RouterOutcome, TurnRouteDecision,
};
use hybrid_router::tools::frontier_edge_only_excluded_tools;

fn message(role: &str, content: &str) -> ChatMessage {
    ChatMessage { role: role.to_string(), content: content.to_string() }
}

fn hybrid() -> HybridProviderConfig {
    HybridProviderConfig {
        enabled: true,
        edge: HybridTargetConfig {
            provider: "lmstudio".into(),
            model: "qwen-edge".into(),
            api_key: None,
            api_url: None,
        },
        frontier: HybridTargetConfig {
            provider: "openrouter".into(),
            model: "remote-frontier".into(),
            api_key: None,
            api_url: None,
        },
    }
}

fn router() -> RouterConfig {
    RouterConfig {
        provider: None,
        model: None,
        api_key: None,
        api_url: None,
        system_prompt: None,
        timeout_ms: 4_000,
        temperature_bits: 0.0f64.to_bits(),
        confidence_threshold_bits: 0.7f64.to_bits(),
        max_messages: 4,
        max_chars: 1_200,
    }
}

fn fresh() -> RouterConversationContext {
    RouterConversationContext { had_prior_history: false, frontier_lease_remaining: 0 }
}

fn request<'a>(
    hybrid: &'a HybridProviderConfig,
    router: &'a RouterConfig,
    history: &'a [ChatMessage],
) -> HybridRouterRequest<'a> {
    HybridRouterRequest {
        requested_provider: "hybrid",
        requested_model: "hybrid:auto",
        global_api_key: Some("global-key"),
        hybrid,
        router,
        history,
        image_markers: 0,
        channel_name: "cli",
        conversation: fresh(),
    }
}

fn decided(step: Result<RouteStep, HybridError>) -> TurnRouteDecision {
    match step {
        Ok(RouteStep::Decided(decision)) => decision,
        other => panic!("no decision: {other:?}"),
    }
}

fn payload(target: &str, confidence: f64) -> RouterDecisionPayload {
    RouterDecisionPayload {
        target: target.to_string(),
        confidence_bits: confidence.to_bits(),
        reason_code: "trivial_reply".to_string(),
        summary: "short".to_string(),
    }
}

fn replied(payload: RouterDecisionPayload, confidence: &str, threshold: &str) -> RouterOutcome {
    RouterOutcome::Replied {
        payload,
        confidence_text: confidence.to_string(),
        threshold_text: threshold.to_string(),
    }
}

/// Reads a decision from JSON text.
fn read_payload(json: &str) -> Option<RouterDecisionPayload> {
    let value: serde_json::Value = serde_json::from_str(json).ok()?;
    let field = |name: &str| value.get(name).and_then(|v| v.as_str()).map(str::to_string);
    Some(RouterDecisionPayload {
        target: field("target")?,
        confidence_bits: value.get("confidence")?.as_f64()?.to_bits(),
        reason_code: field("reason_code")?,
        summary: field("summary").unwrap_or_default(),
    })
}

/// Follows the steps to the end.
fn read_reply(raw: &str) -> Result<RouterDecisionPayload, RouterReplyError> {
    let mut event = ReplyEvent::Received;
    loop {
        event = match parse_router_response(raw, event) {
            ReplyStep::ParseWhole(json) => match read_payload(&json) {
                Some(payload) => ReplyEvent::WholeParsed(payload),
                None => ReplyEvent::WholeRejected,
            },
            ReplyStep::ParseEmbedded(json) => match read_payload(&json) {
                Some(payload) => ReplyEvent::EmbeddedParsed(payload),
                None => ReplyEvent::EmbeddedRejected,
            },
            ReplyStep::Accepted(payload) => return Ok(payload),
            ReplyStep::Rejected(error) => return Err(error),
        };
    }
}

#[test]
fn merges_frontier_excluded_tools_without_duplicates() {
    let merged = frontier_edge_only_excluded_tools(&["delegate".into(), "shell".into()]);
    assert!(merged.iter().any(|tool| tool == "delegate"));
    assert_eq!(
        merged
            .iter()
            .filter(|tool| tool.as_str() == "shell")
            .count(),
        1
    );
    assert!(merged.iter().any(|tool| tool == "file_read"));
}

#[test]
fn parses_embedded_router_json() {
    let parsed = read_reply(
        "result: {\"target\":\"edge\",\"confidence\":0.91,\"reason_code\":\"short_transform\",\"summary\":\"small\"}",
    )
    .expect("router json should parse");
    assert_eq!(parsed.target, "edge");
    assert_eq!(parsed.reason_code, "short_transform");
}

#[test]
fn excluded_tools_keep_their_order() {
    let merged = frontier_edge_only_excluded_tools(&["delegate".into(), "shell".into()]);
    assert_eq!(
        merged,
        [
            "delegate", "shell", "file_read", "file_write", "file_edit", "glob_search",
            "content_search", "pdf_read", "git_operations", "browser", "browser_open",
            "screenshot", "image_info", "proxy_config",
        ]
    );
    assert_eq!(frontier_edge_only_excluded_tools(&merged), merged);
    let doubled = ["x".to_string(), "x".to_string()];
    assert_eq!(frontier_edge_only_excluded_tools(&doubled).len(), 15);
    assert_eq!(frontier_edge_only_excluded_tools(&[]).len(), 13);
}

#[test]
fn a_plain_json_reply_is_read_whole() {
    let raw = "{\"target\":\"frontier\",\"confidence\":1,\"reason_code\":\"multi_step\"}";
    let parsed = read_reply(raw).unwrap();
    assert_eq!(parsed.target, "frontier");
    assert_eq!(parsed.confidence_bits, 1.0f64.to_bits());
    assert_eq!(parsed.summary, "");
}

#[test]
fn replies_without_a_decision_are_refused() {
    assert_eq!(read_reply("edge").unwrap_err(), RouterReplyError::NoJson);
    assert_eq!(read_reply("} {").unwrap_err(), RouterReplyError::NoJson);
    assert_eq!(read_reply("}{").unwrap_err(), RouterReplyError::NoJson);
    assert_eq!(
        read_reply("say {edge} please").unwrap_err(),
        RouterReplyError::InvalidEmbeddedJson
    );
    assert_eq!(RouterReplyError::NoJson.message(), "router did not return valid JSON");
    assert_eq!(
        RouterReplyError::InvalidEmbeddedJson.message(),
        "failed to parse embedded router JSON"
    );
}

#[test]
fn the_part_in_braces_is_the_widest() {
    assert_eq!(find_embedded_json("é {a} b {c} d").as_deref(), Some("{a} b {c}"));
    assert_eq!(find_embedded_json("{}").as_deref(), Some("{}"));
    assert_eq!(find_embedded_json("{"), None);
    assert_eq!(find_embedded_json(""), None);
}

#[test]
fn targets_are_read_loosely() {
    for target in [HybridRouteTarget::Edge, HybridRouteTarget::Frontier] {
        assert_eq!(parse_target(target.label()), Some(target));
    }
    assert_eq!(parse_target(" EDGE\n"), Some(HybridRouteTarget::Edge));
    assert_eq!(parse_target("Frontier"), Some(HybridRouteTarget::Frontier));
    assert_eq!(parse_target("edgy"), None);
    assert_eq!(parse_target(""), None);
}

#[test]
fn the_hybrid_provider_needs_tool_instructions() {
    assert!(hybrid_requires_prompt_tool_instructions(" Hybrid "));
    assert!(!hybrid_requires_prompt_tool_instructions("openrouter"));
}

#[test]
fn compaction_keeps_what_the_user_says() {
    let content = "[Memory context]\n- likes tea\n- lives in Rome\n\n[2026-03-12 10:00] Hello\r\n  there \n\n[Used tools: shell]\n[draft]\n- item\n";
    assert_eq!(
        compact_message_for_local_model(content, usize::MAX),
        "Hello there [draft] - item"
    );
    assert_eq!(compact_message_for_local_model(content, 8), "Hello th...");
    assert_eq!(compact_message_for_local_model(content, 6), "Hello...");
    assert_eq!(compact_message_for_local_model("", 10), "");
}

#[test]
fn a_memory_block_ends_at_a_blank_line() {
    let compact = |content: &str| compact_message_for_local_model(content, usize::MAX);
    assert_eq!(compact("[MEMORY CONTEXT]\n- a\nb\n- c\n\n- d"), "b - d");
    assert_eq!(compact("- a\n[Memory Context]\n- b"), "- a");
    assert_eq!(compact("[memory context] "), "");
    assert_eq!(compact("[memory context] x"), "x");
    assert_eq!(compact("[used tools: x]"), "[used tools: x]");
    assert_eq!(compact("[a] [b] c"), "[b] c");
    assert_eq!(compact("x [a] b"), "x [a] b");
}

#[test]
fn the_estimate_leaves_the_system_out() {
    let history = [
        message("system", "a very long system prompt"),
        message("user", " hello \n world "),
        message("assistant", "[Memory context]\n- x"),
        message("System", "äö"),
    ];
    assert_eq!(estimate_router_working_set_chars(&history), 11 + 2);
    assert_eq!(estimate_router_working_set_chars(&[]), 0);
}

#[test]
fn the_prompt_quotes_the_latest_messages() {
    let history = [
        message("user", "one"),
        message("system", "hidden"),
        message("assistant", "two"),
        message("user", "[Used tools: x]"),
        message("straße", "three"),
        message("user", "four\nlines"),
        message("user", "five"),
    ];
    let conversation =
        RouterConversationContext { had_prior_history: true, frontier_lease_remaining: 12 };
    let config = RouterConfig { max_messages: 3, ..router() };
    assert_eq!(
        build_router_prompt(&history, &config, conversation),
        "Route this user turn.\n\nMetadata:\n- has_prior_history: true\n- conversation_stage: continuation\n- estimated_recent_turns: 2\n- frontier_lease_remaining: 12\n\nRecent transcript:\nSTRASSE: three\nUSER: four lines\nUSER: five\n"
    );
    let config = RouterConfig { max_messages: 100, ..router() };
    let prompt = build_router_prompt(&history, &config, conversation);
    assert!(prompt.contains("transcript:\nASSISTANT: two\nSTRASSE: three\n"));
    let config = RouterConfig { max_messages: 0, ..router() };
    assert_eq!(
        build_router_prompt(&history, &config, fresh()),
        "Route this user turn.\n\nMetadata:\n- has_prior_history: false\n- conversation_stage: new_chat\n- estimated_recent_turns: 0\n- frontier_lease_remaining: 0\n\nRecent transcript:\n\n"
    );
}

#[test]
fn the_prompt_is_cut_to_its_limits() {
    let history = [message("user", &"x".repeat(300)), message("user", "y")];
    let prompt = build_router_prompt(&history, &router(), fresh());
    assert!(prompt.contains(&format!("USER: {}...\nUSER: y\n", "x".repeat(280))));
    assert!(!prompt.contains(&"x".repeat(281)));
    let config = RouterConfig { max_chars: 9, ..router() };
    let prompt = build_router_prompt(&history, &config, fresh());
    assert!(prompt.ends_with("Recent transcript:\nUSER: xxx...\n"));
    let long: Vec<ChatMessage> = (0..4).map(|_| message("user", &"x".repeat(400))).collect();
    let config = RouterConfig { max_chars: 5_000, max_messages: 9, ..router() };
    let prompt = build_router_prompt(&long, &config, fresh());
    let transcript = prompt.split_once("Recent transcript:\n").unwrap().1;
    assert_eq!(transcript.chars().count(), 4 * (6 + 283) + 3 + 1);
    let wide: Vec<ChatMessage> =
        (0..4).map(|_| message(&"role".repeat(20), &"x".repeat(400))).collect();
    let prompt = build_router_prompt(&wide, &config, fresh());
    let transcript = prompt.split_once("Recent transcript:\n").unwrap().1;
    assert_eq!(transcript.chars().count(), 1_200 + 3 + 1);
}

#[test]
fn the_prompt_is_rendered_from_its_parts() {
    assert_eq!(
        render_router_prompt(fresh(), 1, "USER: hi"),
        "Route this user turn.\n\nMetadata:\n- has_prior_history: false\n- conversation_stage: new_chat\n- estimated_recent_turns: 1\n- frontier_lease_remaining: 0\n\nRecent transcript:\nUSER: hi\n"
    );
}

#[test]
fn turns_of_other_providers_are_left_alone() {
    let (hybrid, router) = (hybrid(), router());
    let mut turn = request(&hybrid, &router, &[]);
    turn.requested_provider = "openrouter";
    assert!(matches!(
        resolve_turn_route(&turn, RouteEvent::TurnReceived),
        Ok(RouteStep::NotHybrid)
    ));
}

#[test]
fn a_disabled_provider_routes_nothing() {
    let (mut hybrid, router) = (hybrid(), router());
    hybrid.enabled = false;
    let turn = request(&hybrid, &router, &[]);
    assert_eq!(
        resolve_turn_route(&turn, RouteEvent::TurnReceived).unwrap_err(),
        HybridError::Disabled
    );
    assert_eq!(
        resolve_turn_route(&turn, RouteEvent::RouterConsulted(RouterOutcome::TimedOut))
            .unwrap_err(),
        HybridError::Disabled
    );
}

#[test]
fn an_explicit_model_pins_the_turn() {
    let (hybrid, router) = (hybrid(), router());
    let history = [message("user", &"x".repeat(5_000))];
    let mut turn = request(&hybrid, &router, &history);
    turn.requested_model = " Hybrid:Edge";
    turn.image_markers = 3;
    turn.conversation.frontier_lease_remaining = 2;
    assert_eq!(
        decided(resolve_turn_route(&turn, RouteEvent::TurnReceived)),
        TurnRouteDecision {
            target: HybridRouteTarget::Edge,
            provider_name: "lmstudio".into(),
            model: "qwen-edge".into(),
            confidence_bits: 1.0f64.to_bits(),
            reason_code: "explicit_model".into(),
            summary: "Pinned by explicit hybrid model selection".into(),
            delegated_from_router: false,
        }
    );
}

#[test]
fn images_lease_and_size_lead_to_the_frontier() {
    let (hybrid, router) = (hybrid(), router());
    let history = [message("user", &"x".repeat(2_401))];
    let mut turn = request(&hybrid, &router, &history);
    let decision = decided(begin_turn_route(&turn));
    assert_eq!(decision.reason_code, "prompt_too_large");
    assert_eq!(
        decision.summary,
        "Bypassed router because local prompt estimate (2401 chars) exceeds edge budget (2400)"
    );
    turn.conversation.frontier_lease_remaining = 2;
    let decision = decided(begin_turn_route(&turn));
    assert_eq!(decision.reason_code, "frontier_lease");
    assert_eq!(
        decision.summary,
        "Conversation remains pinned to frontier for 2 more follow-up turn(s)"
    );
    turn.image_markers = 1;
    let decision = decided(begin_turn_route(&turn));
    assert_eq!(decision.reason_code, "vision_required");
    assert_eq!(decision.summary, "Frontier selected because the turn contains image input");
    assert_eq!(decision.target, HybridRouteTarget::Frontier);
    assert_eq!(decision.model, "remote-frontier");
    assert!(!decision.delegated_from_router);
}

#[test]
fn an_open_turn_is_put_to_the_router() {
    let (hybrid, mut router) = (hybrid(), router());
    let history = [message("user", &"x".repeat(2_400))];
    router.temperature_bits = 0.3f64.to_bits();
    let turn = request(&hybrid, &router, &history);
    let question = match resolve_turn_route(&turn, RouteEvent::TurnReceived) {
        Ok(RouteStep::Consult(question)) => question,
        other => panic!("{other:?}"),
    };
    assert_eq!(question.router.provider_name, "lmstudio");
    assert_eq!(question.router.model, "qwen-edge");
    assert_eq!(question.router.api_key.as_deref(), Some("global-key"));
    assert_eq!(question.system_prompt, ROUTER_DEFAULT_SYSTEM_PROMPT);
    assert_eq!(question.prompt, build_router_prompt(&history, &router, fresh()));
    assert_eq!(question.timeout_ms, 4_000);
    assert_eq!(question.temperature_bits, 0.3f64.to_bits());
    assert_eq!(question.estimated_prompt_chars, 2_400);

    let router = RouterConfig { system_prompt: Some("route".into()), ..router };
    match begin_turn_route(&request(&hybrid, &router, &history)) {
        Ok(RouteStep::Consult(question)) => assert_eq!(question.system_prompt, "route"),
        other => panic!("{other:?}"),
    }
    let router = RouterConfig { provider: Some("hybrid".into()), ..router };
    assert_eq!(
        begin_turn_route(&request(&hybrid, &router, &history)).unwrap_err(),
        HybridError::RecursiveRouterProvider
    );
}

#[test]
fn a_confident_router_is_followed() {
    let (hybrid, router) = (hybrid(), router());
    let turn = request(&hybrid, &router, &[]);
    let outcome = replied(payload(" Edge ", 0.7), "0.70", "0.70");
    assert_eq!(
        decided(resolve_turn_route(&turn, RouteEvent::RouterConsulted(outcome))),
        TurnRouteDecision {
            target: HybridRouteTarget::Edge,
            provider_name: "lmstudio".into(),
            model: "qwen-edge".into(),
            confidence_bits: 0.7f64.to_bits(),
            reason_code: "trivial_reply".into(),
            summary: "short".into(),
            delegated_from_router: true,
        }
    );
    let unnamed = conclude_turn_route(&turn, replied(payload("moon", 0.9), "0.90", "0.70")).unwrap();
    assert_eq!(unnamed.target, HybridRouteTarget::Frontier);
    assert_eq!(unnamed.reason_code, "trivial_reply");
    assert!(unnamed.delegated_from_router);
}

#[test]
fn router_trouble_leads_to_the_frontier() {
    let (hybrid, router) = (hybrid(), router());
    let turn = request(&hybrid, &router, &[]);
    let long = format!("{} tail", "y".repeat(239));
    let cases = [
        (
            replied(payload("edge", 0.5), "0.50", "0.70"),
            0.5,
            "low_confidence",
            "Router confidence 0.50 is below threshold 0.70".to_string(),
        ),
        (
            RouterOutcome::Unreadable { raw: long, error: RouterReplyError::NoJson },
            0.0,
            "router_invalid",
            format!("router returned invalid output: {}...", "y".repeat(239)),
        ),
        (
            RouterOutcome::Failed { summary: "refused".into() },
            0.0,
            "router_error",
            "refused".to_string(),
        ),
        (
            RouterOutcome::TimedOut,
            0.0,
            "router_timeout",
            "Router timed out after 4000ms".to_string(),
        ),
    ];
    for (outcome, confidence, reason_code, summary) in cases {
        let decision = conclude_turn_route(&turn, outcome).unwrap();
        assert_eq!(decision.target, HybridRouteTarget::Frontier);
        assert_eq!(decision.provider_name, "openrouter");
        assert_eq!(decision.confidence_bits, f64::to_bits(confidence));
        assert_eq!(decision.reason_code, reason_code);
        assert_eq!(decision.summary, summary);
        assert!(!decision.delegated_from_router);
    }
}

#[test]
fn a_confidence_that_is_no_number_is_not_followed() {
    let (payload, followed) =
        accept_router_outcome(replied(payload("edge", f64::NAN), "NaN", "0.70"), &router());
    assert_eq!(payload.target, "frontier");
    assert_eq!(payload.reason_code, "low_confidence");
    assert!(!followed);
}

#[test]
fn an_unresolved_executor_is_an_error() {
    let (mut hybrid, router) = (hybrid(), router());
    hybrid.frontier.model = " ".into();
    let turn = request(&hybrid, &router, &[]);
    assert_eq!(
        conclude_turn_route(&turn, RouterOutcome::TimedOut),
        Err(HybridError::EmptyTargetModel)
    );
    assert!(conclude_turn_route(&turn, replied(payload("edge", 1.0), "1.00", "0.70")).is_ok());
    assert_eq!(
        resolve_explicit_decision(&hybrid, HybridRouteTarget::Frontier, None, "a", "b"),
        Err(HybridError::EmptyTargetModel)
    );
    let decision =
        resolve_explicit_decision(&hybrid, HybridRouteTarget::Edge, None, "a", "b").unwrap();
    assert_eq!((decision.reason_code.as_str(), decision.summary.as_str()), ("a", "b"));
}

#[test]
fn a_frontier_decision_leases_two_more_turns() {
    let (hybrid, router) = (hybrid(), router());
    let mut turn = request(&hybrid, &router, &[]);
    let first = conclude_turn_route(&turn, RouterOutcome::TimedOut).unwrap();
    let mut lease = next_frontier_lease_after_turn(&first, 0);
    assert_eq!(lease, 2);
    for remaining in [2, 1] {
        assert_eq!(lease, remaining);
        turn.conversation.frontier_lease_remaining = lease;
        let decision = decided(begin_turn_route(&turn));
        assert_eq!(decision.reason_code, "frontier_lease");
        lease = next_frontier_lease_after_turn(&decision, lease);
    }
    assert_eq!(lease, 0);
    turn.conversation.frontier_lease_remaining = lease;
    assert!(matches!(begin_turn_route(&turn), Ok(RouteStep::Consult(_))));
}

#[test]
fn an_edge_decision_ends_the_lease() {
    let (hybrid, router) = (hybrid(), router());
    let turn = request(&hybrid, &router, &[]);
    let mut edge = conclude_turn_route(&turn, replied(payload("edge", 1.0), "1.00", "0.70")).unwrap();
    assert_eq!(next_frontier_lease_after_turn(&edge, 2), 0);
    edge.reason_code = "frontier_lease".into();
    assert_eq!(next_frontier_lease_after_turn(&edge, 0), 0);
    assert_eq!(next_frontier_lease_after_turn(&edge, 5), 4);
}

#[test]
fn a_user_message_has_the_role_of_the_user() {
    assert_eq!(ChatMessage::user("hi"), message("user", "hi"));
}

#[test]
fn decisions_are_equal_as_floats_and_texts_are() {
    let decision = |confidence: f64| TurnRouteDecision {
        target: HybridRouteTarget::Edge,
        provider_name: "p".into(),
        model: "m".into(),
        confidence_bits: confidence.to_bits(),
        reason_code: "r".into(),
        summary: "s".into(),
        delegated_from_router: true,
    };
    for a in [0.0, -0.0, 0.5, 1.0, -1.0, f64::INFINITY, f64::NEG_INFINITY, f64::NAN] {
        for b in [0.0, -0.0, 0.5, 1.0, -1.0, f64::INFINITY, f64::NEG_INFINITY, f64::NAN] {
            assert_eq!(decision(a) == decision(b), a == b, "{a} {b}");
        }
    }
    let base = decision(0.5);
    let others = [
        TurnRouteDecision { target: HybridRouteTarget::Frontier, ..base.clone() },
        TurnRouteDecision { provider_name: "P".into(), ..base.clone() },
        TurnRouteDecision { model: "".into(), ..base.clone() },
        TurnRouteDecision { reason_code: "rr".into(), ..base.clone() },
        TurnRouteDecision { summary: "t".into(), ..base.clone() },
        TurnRouteDecision { delegated_from_router: false, ..base.clone() },
    ];
    for other in others {
        assert_ne!(base, other);
    }
}
