//! What the router model is shown, and where it stands in the prompt.

use vstd::prelude::*;
use crate::compact;
use crate::config::{ChatMessage, RouterConfig, RouterConversationContext};
use crate::laws;
use crate::prompt;
use crate::text;

verus! {

/// The prompt ends with the transcript, whatever is known of the conversation.
pub proof fn law_prompt_ends_with_the_transcript(
    history: Seq<ChatMessage>,
    config: RouterConfig,
    conversation: RouterConversationContext,
)
    ensures
        ("\n\nRecent transcript:\n"@ + prompt::transcript(history, config)
            + seq!['\n']).is_suffix_of(prompt::router_prompt(history, config, conversation)),
{
    reveal_strlit("\n");
    assert("\n"@ =~= seq!['\n']);
    let all = prompt::router_prompt(history, config, conversation);
    let end = "\n\nRecent transcript:\n"@ + prompt::transcript(history, config) + seq!['\n'];
    let front = "Route this user turn.\n\nMetadata:\n- has_prior_history: "@ + prompt::bool_text(
        conversation.had_prior_history,
    ) + "\n- conversation_stage: "@ + prompt::stage_text(conversation.had_prior_history)
        + "\n- estimated_recent_turns: "@ + text::decimal(
        prompt::turns_of(prompt::recent_lines(history, config).len()),
    ) + "\n- frontier_lease_remaining: "@ + text::decimal(
        conversation.frontier_lease_remaining as nat,
    );
    assert(all =~= front + end);
    assert(end =~= all.subrange(all.len() - end.len(), all.len() as int));
}

/// A prompt is made of what is known of the conversation, each thing on a line of its own
/// (whether it goes on or is new, the number of recent turns, the lease), and behind that of
/// the transcript, whatever these are.
pub proof fn law_prompt_of_its_parts(
    conversation: RouterConversationContext,
    turns: nat,
    transcript: Seq<char>,
)
    ensures
        ({
            let head = if conversation.had_prior_history {
                "Route this user turn.\n\nMetadata:\n- has_prior_history: true\n- conversation_stage: continuation\n- estimated_recent_turns: "@
            } else {
                "Route this user turn.\n\nMetadata:\n- has_prior_history: false\n- conversation_stage: new_chat\n- estimated_recent_turns: "@
            };
            prompt::prompt_text(conversation, turns, transcript) == head + text::decimal(turns)
                + "\n- frontier_lease_remaining: "@ + text::decimal(
                conversation.frontier_lease_remaining as nat,
            ) + "\n\nRecent transcript:\n"@ + transcript + seq!['\n']
        }),
{
    reveal_strlit("\n");
    reveal_strlit("true");
    reveal_strlit("false");
    reveal_strlit("continuation");
    reveal_strlit("new_chat");
    reveal_strlit("Route this user turn.\n\nMetadata:\n- has_prior_history: ");
    reveal_strlit("\n- conversation_stage: ");
    reveal_strlit("\n- estimated_recent_turns: ");
    reveal_strlit(
        "Route this user turn.\n\nMetadata:\n- has_prior_history: true\n- conversation_stage: continuation\n- estimated_recent_turns: ",
    );
    reveal_strlit(
        "Route this user turn.\n\nMetadata:\n- has_prior_history: false\n- conversation_stage: new_chat\n- estimated_recent_turns: ",
    );
    assert("\n"@ =~= seq!['\n']);
    let parts = "Route this user turn.\n\nMetadata:\n- has_prior_history: "@ + prompt::bool_text(
        conversation.had_prior_history,
    ) + "\n- conversation_stage: "@ + prompt::stage_text(conversation.had_prior_history)
        + "\n- estimated_recent_turns: "@;
    if conversation.had_prior_history {
        assert(parts
            =~= "Route this user turn.\n\nMetadata:\n- has_prior_history: true\n- conversation_stage: continuation\n- estimated_recent_turns: "@);
    } else {
        assert(parts
            =~= "Route this user turn.\n\nMetadata:\n- has_prior_history: false\n- conversation_stage: new_chat\n- estimated_recent_turns: "@);
    }
}

/// In front of the transcript stands what is known of the conversation, each thing on a line
/// of its own: whether it goes on or is new, the number of recent turns, and the lease.
pub proof fn law_prompt_names_the_conversation(
    history: Seq<ChatMessage>,
    config: RouterConfig,
    conversation: RouterConversationContext,
)
    ensures
        ({
            let head = if conversation.had_prior_history {
                "Route this user turn.\n\nMetadata:\n- has_prior_history: true\n- conversation_stage: continuation\n- estimated_recent_turns: "@
            } else {
                "Route this user turn.\n\nMetadata:\n- has_prior_history: false\n- conversation_stage: new_chat\n- estimated_recent_turns: "@
            };
            let turns = prompt::turns_of(prompt::recent_lines(history, config).len());
            (head + text::decimal(turns) + "\n- frontier_lease_remaining: "@ + text::decimal(
                conversation.frontier_lease_remaining as nat,
            ) + "\n\nRecent transcript:\n"@ + prompt::transcript(history, config)
                + seq!['\n']) == prompt::router_prompt(history, config, conversation)
        }),
{
    let turns = prompt::turns_of(prompt::recent_lines(history, config).len());
    law_prompt_of_its_parts(conversation, turns, prompt::transcript(history, config));
}

/// Two messages make a turn, and an odd one counts as one.
pub proof fn law_recent_turns(messages: nat)
    ensures
        2 * prompt::turns_of(messages) == messages || 2 * prompt::turns_of(messages) == messages + 1,
{
}

/// A message adds its line to the transcript if and only if it is not the system's and text
/// is left of it: its role in upper case, a colon and a blank, and its compacted text, of
/// which at most 280 characters stay.
pub proof fn law_message_adds_its_line(history: Seq<ChatMessage>, message: ChatMessage)
    ensures
        prompt::transcript_lines(Seq::empty()).len() == 0,
        message.role@ == "system"@ || compact::compacted(message.content@).len() == 0
            ==> prompt::transcript_lines(history.push(message)) == prompt::transcript_lines(history),
        message.role@ != "system"@ && compact::compacted(message.content@).len() > 0
            ==> prompt::transcript_lines(history.push(message)) == prompt::transcript_lines(
            history,
        ).push(
            text::uppercase(message.role@) + seq![':', ' '] + text::shortened(
                compact::compacted(message.content@),
                280,
            ),
        ),
{
    reveal_strlit(": ");
    assert(": "@ =~= seq![':', ' ']);
    assert(history.push(message).drop_last() =~= history);
    laws::law_message_is_quoted_if_text_is_left(message);
}

/// The router sees the latest lines: all of them where they are no more than four and than
/// the configured number, else that many.
pub proof fn law_latest_lines_are_shown(history: Seq<ChatMessage>, config: RouterConfig)
    ensures
        ({
            let lines = prompt::transcript_lines(history);
            let recent = prompt::recent_lines(history, config);
            &&& lines.len() <= 4 && lines.len() <= config.max_messages ==> recent == lines
            &&& lines.len() > config.max_messages && config.max_messages <= 4 ==> recent.len()
                == config.max_messages
            &&& lines.len() > 4 && config.max_messages >= 4 ==> recent.len() == 4
            &&& forall|i: int|
                0 <= i < recent.len() ==> #[trigger] recent[i] == lines[lines.len() - recent.len()
                    + i]
        }),
{
}

/// The transcript is made of those lines, each on a line of its own. It is whole where it has
/// no more than 1200 characters and than the configured number, else it is cut to the lesser.
pub proof fn law_transcript_shows_the_lines(history: Seq<ChatMessage>, config: RouterConfig)
    ensures
        ({
            let whole = text::join(prompt::recent_lines(history, config), seq!['\n']);
            let shown = prompt::transcript(history, config);
            &&& whole.len() <= 1200 && whole.len() <= config.max_chars ==> shown == whole
            &&& config.max_chars <= 1200 ==> shown == text::shortened(
                whole,
                config.max_chars as nat,
            )
            &&& config.max_chars >= 1200 ==> shown == text::shortened(whole, 1200)
        }),
{
    reveal_strlit("\n");
    assert("\n"@ =~= seq!['\n']);
}

/// The last message of the user is shown: the transcript of a conversation that fits ends
/// with its line.
pub proof fn law_last_message_is_shown(
    history: Seq<ChatMessage>,
    message: ChatMessage,
    config: RouterConfig,
)
    requires
        message.role@ != "system"@,
        compact::compacted(message.content@).len() > 0,
        config.max_messages > 0,
        text::join(prompt::recent_lines(history.push(message), config), seq!['\n']).len() <= 1200,
        text::join(prompt::recent_lines(history.push(message), config), seq!['\n']).len()
            <= config.max_chars,
    ensures
        (text::uppercase(message.role@) + seq![':', ' '] + text::shortened(
            compact::compacted(message.content@),
            280,
        )).is_suffix_of(prompt::transcript(history.push(message), config)),
{
    let line = text::uppercase(message.role@) + seq![':', ' '] + text::shortened(
        compact::compacted(message.content@),
        280,
    );
    let all = history.push(message);
    law_message_adds_its_line(history, message);
    law_latest_lines_are_shown(all, config);
    law_transcript_shows_the_lines(all, config);
    let recent = prompt::recent_lines(all, config);
    assert(recent[recent.len() - 1] == line);
    let shown = prompt::transcript(all, config);
    assert(line =~= shown.subrange(shown.len() - line.len(), shown.len() as int));
}

} // verus!
