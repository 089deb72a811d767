//! Compaction of a message for a small local model: remembered context, tool traces and
//! leading tags go, and what is left becomes one line.

use vstd::prelude::*;
use crate::config::ChatMessage;
use crate::text;

verus! {

/// A line, already trimmed, that opens a block of remembered context.
pub open spec fn opens_memory_block(line: Seq<char>) -> bool {
    text::lowercase(line) == "[memory context]"@
}

/// A line without the bracketed tag that it may start with.
pub open spec fn without_tag(line: Seq<char>) -> Seq<char> {
    if "["@.is_prefix_of(line) {
        match text::text_after(line, "] "@) {
            Some(tail) => text::trim(tail),
            None => line,
        }
    } else {
        line
    }
}

/// What is kept of `lines`, where `in_memory_block` says whether a block of remembered
/// context is open before them. A heading opens a block, a blank line closes it, and inside
/// it the list items are dropped. Blank lines, headings and tool traces are never kept.
pub open spec fn kept_lines(lines: Seq<Seq<char>>, in_memory_block: bool) -> Seq<Seq<char>>
    decreases lines.len(),
{
    if lines.len() == 0 {
        Seq::empty()
    } else {
        let line = text::trim(lines.first());
        let rest = lines.drop_first();
        if line.len() == 0 {
            kept_lines(rest, false)
        } else if opens_memory_block(line) {
            kept_lines(rest, true)
        } else if (in_memory_block && "- "@.is_prefix_of(line)) || "[Used tools:"@.is_prefix_of(
            line,
        ) || without_tag(line).len() == 0 {
            kept_lines(rest, in_memory_block)
        } else {
            seq![without_tag(line)] + kept_lines(rest, in_memory_block)
        }
    }
}

/// The text of a message as one line, without what a small model has no use for.
pub open spec fn compacted(content: Seq<char>) -> Seq<char> {
    text::join(kept_lines(text::lines(content), false), " "@)
}

/// A line without the bracketed tag that it may start with.
fn strip_tag(line: &str) -> (res: String)
    ensures
        res@ == without_tag(line@),
{
    if text::starts_with(line, "[") {
        match text::after_first(line, "] ") {
            Some(tail) => text::trimmed(tail.as_str()),
            None => line.to_owned(),
        }
    } else {
        line.to_owned()
    }
}

/// The text of a message as one line, whole.
fn compact_message(content: &str) -> (res: String)
    ensures
        res@ == compacted(content@),
{
    let raw_lines = text::split_lines(content);
    let mut kept: Vec<String> = Vec::new();
    let mut in_memory_block: bool = false;
    let ghost all = text::lines(content@);
    proof {
        reveal_strlit("[memory context]");
        assert(text::lowercase("[memory context]"@) =~= "[memory context]"@);
    }
    assert(text::texts(raw_lines@).skip(0) == all);
    assert(text::texts(kept@) + kept_lines(all, false) == kept_lines(all, false));
    let mut i: usize = 0;
    while i < raw_lines.len()
        invariant
            i <= raw_lines.len(),
            text::texts(raw_lines@) == all,
            text::lowercase("[memory context]"@) == "[memory context]"@,
            text::texts(kept@) + kept_lines(all.skip(i as int), in_memory_block) == kept_lines(
                all,
                false,
            ),
        decreases raw_lines.len() - i,
    {
        let ghost rest = all.skip(i as int);
        assert(rest.first() == raw_lines@[i as int]@);
        assert(rest.drop_first() == all.skip(i + 1));
        let line = text::trimmed(raw_lines[i].as_str());
        if line.as_str().is_empty() {
            in_memory_block = false;
        } else if text::eq_ignore_ascii_case(line.as_str(), "[memory context]") {
            in_memory_block = true;
        } else if in_memory_block && text::starts_with(line.as_str(), "- ") {
        } else if text::starts_with(line.as_str(), "[Used tools:") {
        } else {
            let normalized = strip_tag(line.as_str());
            if !normalized.as_str().is_empty() {
                let ghost before = kept@;
                kept.push(normalized);
                assert(text::texts(kept@) == text::texts(before).push(normalized@));
                assert(text::texts(kept@) + kept_lines(all.skip(i + 1), in_memory_block)
                    =~= text::texts(before) + (seq![normalized@] + kept_lines(
                    all.skip(i + 1),
                    in_memory_block,
                )));
            }
        }
        i = i + 1;
    }
    assert(text::texts(kept@) + kept_lines(all.skip(i as int), in_memory_block) =~= text::texts(
        kept@,
    ));
    assert(text::texts(kept@).skip(0) == text::texts(kept@));
    text::join_from(&kept, 0, " ")
}

/// The text of a message as one line of at most `max_chars` characters, with a mark where
/// it was cut.
pub fn compact_message_for_local_model(content: &str, max_chars: usize) -> (res: String)
    ensures
        res@ == text::shortened(compacted(content@), max_chars as nat),
{
    let line = compact_message(content);
    text::truncate_with_ellipsis(line.as_str(), max_chars)
}

/// The number of characters that the messages of `history` come to once compacted, without
/// those of the system.
pub open spec fn working_set_chars(history: Seq<ChatMessage>) -> nat
    decreases history.len(),
{
    if history.len() == 0 {
        0
    } else {
        let message = history.last();
        working_set_chars(history.drop_last()) + if message.role@ == "system"@ {
            0
        } else {
            compacted(message.content@).len()
        }
    }
}

/// The size of the compacted history in characters; `usize::MAX` where it does not fit.
pub open spec fn estimated_chars(history: Seq<ChatMessage>) -> nat {
    if working_set_chars(history) <= usize::MAX {
        working_set_chars(history)
    } else {
        usize::MAX as nat
    }
}

/// The size of the compacted history in characters; `usize::MAX` where it does not fit.
pub fn estimate_router_working_set_chars(history: &[ChatMessage]) -> (res: usize)
    ensures
        res == estimated_chars(history@),
{
    let mut total: usize = 0;
    let mut i: usize = 0;
    while i < history.len()
        invariant
            i <= history.len(),
            total == estimated_chars(history@.take(i as int)),
        decreases history.len() - i,
    {
        assert(history@.take(i + 1).drop_last() == history@.take(i as int));
        if !text::same_text(history[i].role.as_str(), "system") {
            let compact = compact_message(history[i].content.as_str());
            let count = text::chars_of(compact.as_str()).len();
            if count > usize::MAX - total {
                total = usize::MAX;
            } else {
                total = total + count;
            }
        }
        i = i + 1;
    }
    assert(history@.take(history@.len() as int) == history@);
    total
}

} // verus!
