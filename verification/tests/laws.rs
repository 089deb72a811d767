use hybrid_router::compact::{compact_message_for_local_model, estimate_router_working_set_chars};
use hybrid_router::config::{
    ChatMessage, HybridProviderConfig, HybridRouteTarget, HybridTargetConfig, RouterConfig,
    RouterConversationContext,
};
use hybrid_router::hybrid::{resolve_hybrid_target, resolve_router_target};
use hybrid_router::prompt::build_router_prompt;
use hybrid_router::reply::{RouterDecisionPayload, RouterReplyError};
use hybrid_router::router::{
    next_frontier_lease_after_turn, resolve_turn_route, HybridRouterRequest, RouteEvent,
    RouteStep, RouterOutcome,
};
use hybrid_router::tools::frontier_edge_only_excluded_tools;

const CONTENTS: [&str; 9] = [
    "",
    " \n\t",
    "plain",
    "  two\r\nlines  ",
    "[Memory context]\n- a\n- b\n\nquestion?",
    "[Used tools: shell]\n",
    "[12:00] [draft] text",
    "a\n\n\u{2003}b\u{3000}\n[c] ",
    "\u{1f980} crab\n] x",
];

fn target(provider: &str, model: &str) -> HybridTargetConfig {
    HybridTargetConfig {
        provider: provider.into(),
        model: model.into(),
        api_key: None,
        api_url: None,
    }
}

fn hybrid() -> HybridProviderConfig {
    HybridProviderConfig {
        enabled: true,
        edge: target(" lmstudio ", " small "),
        frontier: target("openrouter", "large"),
    }
}

fn router() -> RouterConfig {
    RouterConfig {
        provider: None,
        model: Some("  ".into()),
        api_key: None,
        api_url: None,
        system_prompt: None,
        timeout_ms: 10,
        temperature_bits: 0,
        confidence_threshold_bits: 0.5f64.to_bits(),
        max_messages: 2,
        max_chars: 40,
    }
}

fn user(content: &str) -> ChatMessage {
    ChatMessage::user(content)
}

fn system(content: &str) -> ChatMessage {
    ChatMessage { role: "system".into(), content: content.into() }
}

#[test]
fn compacted_messages_are_one_tight_line() {
    for content in CONTENTS {
        let line = compact_message_for_local_model(content, usize::MAX);
        assert!(!line.contains('\n'));
        assert_eq!(line.trim(), line);
        assert!(line.chars().count() <= content.chars().count());
        for budget in [0, 1, 5] {
            let cut = compact_message_for_local_model(content, budget);
            assert!(cut.chars().count() <= budget + 3);
        }
    }
}

#[test]
fn memory_blocks_and_tool_traces_leave_no_trace() {
    for content in CONTENTS {
        let alone = compact_message_for_local_model(content, usize::MAX);
        for front in ["[Memory Context]\n- x\n  - y\n \n", "[Used tools: a, b]\n"] {
            let together = format!("{front}{content}");
            assert_eq!(compact_message_for_local_model(&together, usize::MAX), alone);
        }
    }
}

#[test]
fn messages_are_quoted_if_text_is_left_of_them() {
    let conversation =
        RouterConversationContext { had_prior_history: false, frontier_lease_remaining: 0 };
    for content in CONTENTS {
        let prompt = build_router_prompt(&[user(content)], &router(), conversation);
        let left = !compact_message_for_local_model(content, usize::MAX).is_empty();
        assert_eq!(prompt.contains("USER: "), left);
        assert_eq!(prompt.contains("estimated_recent_turns: 1"), left);
        let prompt = build_router_prompt(&[system(content)], &router(), conversation);
        assert!(!prompt.contains("SYSTEM"));
    }
}

#[test]
fn the_estimate_grows_with_the_history() {
    let mut history = Vec::new();
    let mut last = 0;
    for content in CONTENTS {
        history.push(user(content));
        let estimate = estimate_router_working_set_chars(&history);
        assert!(estimate >= last);
        history.push(system("not counted"));
        assert_eq!(estimate_router_working_set_chars(&history), estimate);
        last = estimate;
    }
}

#[test]
fn excluding_brings_no_duplicates() {
    let existing = ["browser".to_string(), "delegate".to_string()];
    let mut merged = frontier_edge_only_excluded_tools(&existing);
    assert_eq!(&merged[..2], &existing);
    let count = merged.len();
    merged.sort();
    merged.dedup();
    assert_eq!(merged.len(), count);
}

#[test]
fn names_are_resolved_tight() {
    let config = hybrid();
    let edge = resolve_hybrid_target(&config, HybridRouteTarget::Edge, Some("k")).unwrap();
    assert_eq!((edge.provider_name.as_str(), edge.model.as_str()), ("lmstudio", "small"));
    let resolved = resolve_router_target(&router(), &config, Some("k")).unwrap();
    assert_eq!(resolved.provider_name, edge.provider_name);
    assert_eq!(resolved.model, edge.model);
    assert_eq!(resolved.api_key, edge.api_key);
    assert_eq!(resolved.api_url, edge.api_url);
}

#[test]
fn a_valid_configuration_never_fails() {
    let (config, router) = (hybrid(), router());
    let long = [user(&"x".repeat(3_000))];
    let histories: [&[ChatMessage]; 2] = [&[], &long];
    for history in histories {
        for requested_model in ["hybrid:auto", "hybrid:edge", "hybrid:frontier"] {
            for lease in [0, 1, 2] {
                let turn = HybridRouterRequest {
                    requested_provider: "hybrid",
                    requested_model,
                    global_api_key: None,
                    hybrid: &config,
                    router: &router,
                    history,
                    image_markers: 0,
                    channel_name: "cli",
                    conversation: RouterConversationContext {
                        had_prior_history: true,
                        frontier_lease_remaining: lease,
                    },
                };
                let step = resolve_turn_route(&turn, RouteEvent::TurnReceived).unwrap();
                let open = requested_model == "hybrid:auto" && lease == 0 && history.is_empty();
                assert_eq!(matches!(step, RouteStep::Consult(_)), open);
                if let RouteStep::Decided(decision) = step {
                    assert!(next_frontier_lease_after_turn(&decision, lease) <= 2);
                    let edge = decision.target == HybridRouteTarget::Edge;
                    assert_eq!(edge, requested_model == "hybrid:edge");
                    assert_eq!(decision.model, if edge { "small" } else { "large" });
                }
            }
        }
    }
}

#[test]
fn the_edge_needs_a_confident_router() {
    let (config, router) = (hybrid(), router());
    let turn = HybridRouterRequest {
        requested_provider: "hybrid",
        requested_model: "",
        global_api_key: None,
        hybrid: &config,
        router: &router,
        history: &[],
        image_markers: 0,
        channel_name: "cli",
        conversation: RouterConversationContext {
            had_prior_history: false,
            frontier_lease_remaining: 0,
        },
    };
    let reply = |target: &str, confidence: f64| RouterOutcome::Replied {
        payload: RouterDecisionPayload {
            target: target.into(),
            confidence_bits: confidence.to_bits(),
            reason_code: "host_action".into(),
            summary: String::new(),
        },
        confidence_text: format!("{confidence:.2}"),
        threshold_text: "0.50".into(),
    };
    let cases = [
        (reply("edge", 0.5), true, true),
        (reply("edge", 0.49), false, false),
        (reply("edge", f64::NAN), false, false),
        (reply("frontier", 0.9), false, true),
        (
            RouterOutcome::Unreadable {
                raw: "?".into(),
                error: RouterReplyError::InvalidEmbeddedJson,
            },
            false,
            false,
        ),
        (RouterOutcome::Failed { summary: "x".into() }, false, false),
        (RouterOutcome::TimedOut, false, false),
    ];
    for (outcome, edge, delegated) in cases {
        match resolve_turn_route(&turn, RouteEvent::RouterConsulted(outcome)) {
            Ok(RouteStep::Decided(decision)) => {
                assert_eq!(decision.target == HybridRouteTarget::Edge, edge);
                assert_eq!(decision.delegated_from_router, delegated);
            }
            other => panic!("{other:?}"),
        }
    }
}
