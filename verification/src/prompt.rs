//! The prompt that asks the router model for a decision.

use vstd::prelude::*;
use crate::compact;
use crate::compact::compact_message_for_local_model;
use crate::config::{ChatMessage, RouterConfig, RouterConversationContext};
use crate::text;

verus! {

/// The most characters of transcript that the router sees, whatever the configuration says.
pub const ROUTER_HARD_MAX_CHARS: usize = 1_200;

/// The most messages that the router sees, whatever the configuration says.
pub const ROUTER_HARD_MAX_MESSAGES: usize = 4;

/// The most characters of one message that the router sees.
pub const ROUTER_MESSAGE_CHAR_BUDGET: usize = 280;

/// The lesser of two limits.
pub open spec fn lesser(a: usize, b: usize) -> usize {
    if a <= b {
        a
    } else {
        b
    }
}

/// A message as a line of the transcript.
pub open spec fn transcript_line(message: ChatMessage) -> Seq<char> {
    text::uppercase(message.role@) + ": "@ + text::shortened(
        compact::compacted(message.content@),
        ROUTER_MESSAGE_CHAR_BUDGET as nat,
    )
}

/// A message goes into the transcript: it is not the system's, and its line does not end
/// with the separator.
pub open spec fn is_quoted(message: ChatMessage) -> bool {
    message.role@ != "system"@ && !": "@.is_suffix_of(transcript_line(message))
}

/// The transcript lines of the messages that are quoted, in order.
pub open spec fn transcript_lines(history: Seq<ChatMessage>) -> Seq<Seq<char>>
    decreases history.len(),
{
    if history.len() == 0 {
        Seq::empty()
    } else if is_quoted(history.last()) {
        transcript_lines(history.drop_last()).push(transcript_line(history.last()))
    } else {
        transcript_lines(history.drop_last())
    }
}

/// The last `limit` of `lines`; all of them where there are no more.
pub open spec fn last_lines(lines: Seq<Seq<char>>, limit: nat) -> Seq<Seq<char>> {
    if lines.len() > limit {
        lines.skip(lines.len() - limit)
    } else {
        lines
    }
}

/// The transcript lines that the router sees.
pub open spec fn recent_lines(history: Seq<ChatMessage>, config: RouterConfig) -> Seq<Seq<char>> {
    last_lines(
        transcript_lines(history),
        lesser(config.max_messages, ROUTER_HARD_MAX_MESSAGES) as nat,
    )
}

/// The transcript that the router sees.
pub open spec fn transcript(history: Seq<ChatMessage>, config: RouterConfig) -> Seq<char> {
    text::shortened(
        text::join(recent_lines(history, config), "\n"@),
        lesser(config.max_chars, ROUTER_HARD_MAX_CHARS) as nat,
    )
}

/// The number of turns that `messages` messages come from: two make one, and an odd one
/// counts as a turn.
pub open spec fn turns_of(messages: nat) -> nat {
    (messages + 1) / 2
}

/// How a truth value is spelled.
pub open spec fn bool_text(b: bool) -> Seq<char> {
    if b {
        "true"@
    } else {
        "false"@
    }
}

/// How the stage of a conversation is spelled.
pub open spec fn stage_text(had_prior_history: bool) -> Seq<char> {
    if had_prior_history {
        "continuation"@
    } else {
        "new_chat"@
    }
}

/// The prompt made of its parts.
pub open spec fn prompt_text(
    conversation: RouterConversationContext,
    recent_turns: nat,
    transcript: Seq<char>,
) -> Seq<char> {
    "Route this user turn.\n\nMetadata:\n- has_prior_history: "@ + bool_text(
        conversation.had_prior_history,
    ) + "\n- conversation_stage: "@ + stage_text(conversation.had_prior_history)
        + "\n- estimated_recent_turns: "@ + text::decimal(recent_turns)
        + "\n- frontier_lease_remaining: "@ + text::decimal(
        conversation.frontier_lease_remaining as nat,
    ) + "\n\nRecent transcript:\n"@ + transcript + "\n"@
}

/// The prompt for a turn.
pub open spec fn router_prompt(
    history: Seq<ChatMessage>,
    config: RouterConfig,
    conversation: RouterConversationContext,
) -> Seq<char> {
    prompt_text(
        conversation,
        turns_of(recent_lines(history, config).len()),
        transcript(history, config),
    )
}

fn min_usize(a: usize, b: usize) -> (res: usize)
    ensures
        res == lesser(a, b),
{
    if a <= b {
        a
    } else {
        b
    }
}

/// The transcript lines of the messages that are quoted, in order.
fn compact_history(history: &[ChatMessage]) -> (res: Vec<String>)
    ensures
        text::texts(res@) == transcript_lines(history@),
{
    let mut res: Vec<String> = Vec::new();
    assert(text::texts(res@) =~= transcript_lines(history@.take(0)));
    let mut i: usize = 0;
    while i < history.len()
        invariant
            i <= history.len(),
            text::texts(res@) == transcript_lines(history@.take(i as int)),
        decreases history.len() - i,
    {
        assert(history@.take(i + 1).drop_last() == history@.take(i as int));
        if !text::same_text(history[i].role.as_str(), "system") {
            let mut line = text::to_upper(history[i].role.as_str());
            line.append(": ");
            let content = compact_message_for_local_model(
                history[i].content.as_str(),
                ROUTER_MESSAGE_CHAR_BUDGET,
            );
            line.append(content.as_str());
            if !text::ends_with(line.as_str(), ": ") {
                let ghost before = res@;
                res.push(line);
                assert(text::texts(res@) =~= text::texts(before).push(line@));
            }
        }
        i = i + 1;
    }
    assert(history@.take(history@.len() as int) == history@);
    res
}

/// The prompt made of its parts.
pub fn render_router_prompt(
    conversation: RouterConversationContext,
    recent_turns: usize,
    transcript: &str,
) -> (res: String)
    ensures
        res@ == prompt_text(conversation, recent_turns as nat, transcript@),
{
    let mut res = "Route this user turn.\n\nMetadata:\n- has_prior_history: ".to_owned();
    res.append(if conversation.had_prior_history { "true" } else { "false" });
    res.append("\n- conversation_stage: ");
    res.append(if conversation.had_prior_history { "continuation" } else { "new_chat" });
    res.append("\n- estimated_recent_turns: ");
    let turns = text::decimal_text(recent_turns as u64);
    res.append(turns.as_str());
    res.append("\n- frontier_lease_remaining: ");
    let lease = text::decimal_text(conversation.frontier_lease_remaining as u64);
    res.append(lease.as_str());
    res.append("\n\nRecent transcript:\n");
    res.append(transcript);
    res.append("\n");
    res
}

/// The prompt for a turn: what is known of the conversation, and its latest messages.
pub fn build_router_prompt(
    history: &[ChatMessage],
    config: &RouterConfig,
    conversation: RouterConversationContext,
) -> (res: String)
    ensures
        res@ == router_prompt(history@, *config, conversation),
{
    let compact_messages = compact_history(history);
    let limit = min_usize(config.max_messages, ROUTER_HARD_MAX_MESSAGES);
    let from: usize = if compact_messages.len() > limit {
        compact_messages.len() - limit
    } else {
        0
    };
    let ghost lines = text::texts(compact_messages@);
    assert(lines.skip(0) == lines);
    assert(lines.skip(from as int) == recent_lines(history@, *config));
    let recent = compact_messages.len() - from;
    let recent_turns: usize = recent / 2 + recent % 2;
    let joined = text::join_from(&compact_messages, from, "\n");
    let transcript = text::truncate_with_ellipsis(
        joined.as_str(),
        min_usize(config.max_chars, ROUTER_HARD_MAX_CHARS),
    );
    render_router_prompt(conversation, recent_turns, transcript.as_str())
}

} // verus!
