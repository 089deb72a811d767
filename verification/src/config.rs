//! Configuration of the two executors, of the router, and of a chat message.

use vstd::prelude::*;

verus! {

/// The executor that handles a turn.
#[derive(Debug, Clone, Copy, PartialEq, Eq, Structural)]
pub enum HybridRouteTarget {
    /// The local model.
    Edge,
    /// The remote model.
    Frontier,
}

/// How the name of a target is spelled.
pub open spec fn target_label(target: HybridRouteTarget) -> Seq<char> {
    match target {
        HybridRouteTarget::Edge => "edge"@,
        HybridRouteTarget::Frontier => "frontier"@,
    }
}

impl HybridRouteTarget {
    /// The name of the target.
    pub fn label(self) -> (res: &'static str)
        ensures
            res@ == target_label(self),
    {
        match self {
            HybridRouteTarget::Edge => "edge",
            HybridRouteTarget::Frontier => "frontier",
        }
    }
}

/// How one executor is reached.
#[derive(Debug, Clone, PartialEq, Eq)]
pub struct HybridTargetConfig {
    pub provider: String,
    pub model: String,
    pub api_key: Option<String>,
    pub api_url: Option<String>,
}

/// The hybrid provider: both executors, and whether it is switched on.
#[derive(Debug, Clone, PartialEq, Eq)]
pub struct HybridProviderConfig {
    pub enabled: bool,
    pub edge: HybridTargetConfig,
    pub frontier: HybridTargetConfig,
}

impl HybridProviderConfig {
    /// The configuration of one executor.
    pub open spec fn target_config(self, target: HybridRouteTarget) -> HybridTargetConfig {
        match target {
            HybridRouteTarget::Edge => self.edge,
            HybridRouteTarget::Frontier => self.frontier,
        }
    }
}

/// How the router model is asked. An absent or blank connection setting is taken over from
/// the edge executor.
#[derive(Debug, Clone)]
pub struct RouterConfig {
    pub provider: Option<String>,
    pub model: Option<String>,
    pub api_key: Option<String>,
    pub api_url: Option<String>,
    pub system_prompt: Option<String>,
    pub timeout_ms: u64,
    /// The sampling temperature, as an IEEE 754 double-precision bit pattern.
    pub temperature_bits: u64,
    /// The least confidence that is acted on, as an IEEE 754 double-precision bit pattern.
    pub confidence_threshold_bits: u64,
    pub max_messages: usize,
    pub max_chars: usize,
}

/// One message of a conversation.
#[derive(Debug, Clone, PartialEq, Eq)]
pub struct ChatMessage {
    pub role: String,
    pub content: String,
}

impl ChatMessage {
    /// A message of the user.
    pub fn user(content: &str) -> (res: Self)
        ensures
            res.role@ == "user"@,
            res.content@ == content@,
    {
        ChatMessage { role: "user".to_owned(), content: content.to_owned() }
    }
}

/// What is known of a conversation when a turn comes in.
#[derive(Debug, Clone, Copy, PartialEq, Eq, Structural)]
pub struct RouterConversationContext {
    pub had_prior_history: bool,
    /// The number of follow-up turns that still stay with the frontier executor.
    pub frontier_lease_remaining: usize,
}

} // verus!
