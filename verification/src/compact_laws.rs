//! What compaction does to a message, line by line and character by character.
//!
//! A message is taken apart from its front: each law says what its first line contributes,
//! either at the very beginning or right behind a heading that opens a block of remembered
//! context.

use vstd::prelude::*;
use crate::compact;
use crate::config::ChatMessage;
use crate::laws;
use crate::text;
use crate::text_laws;
use crate::text_lemmas;

verus! {

/// A line with its line feed that is a heading of remembered context: the words in brackets,
/// in any case and with white space around.
pub open spec fn is_memory_heading(heading: Seq<char>) -> bool {
    &&& heading.len() > 0
    &&& heading.last() == '\n'
    &&& text_lemmas::lacks(heading.drop_last(), '\n')
    &&& text::lowercase(text::trim(heading.drop_last())) == "[memory context]"@
}

/// What a message is read behind: nothing, or a heading of remembered context.
pub open spec fn is_opening(opening: Seq<char>) -> bool {
    opening.len() == 0 || is_memory_heading(opening)
}

/// A line of text, `body`, with white space around it.
pub open spec fn is_line_of(line: Seq<char>, body: Seq<char>) -> bool {
    &&& text_lemmas::lacks(line, '\n')
    &&& text_lemmas::is_tight(body)
    &&& text::trim(line) == body
}

/// A closing bracket with a blank behind it stands at position `k`.
pub open spec fn ends_tag(s: Seq<char>, k: int) -> bool {
    s[k] == ']' && s[k + 1] == ' '
}

/// One text, and behind a blank the other, where there is one.
pub open spec fn then_text(first: Seq<char>, rest: Seq<char>) -> Seq<char> {
    if rest.len() == 0 {
        first
    } else {
        first + seq![' '] + rest
    }
}

/// Behind an opening, the lines of a message are read with the block open or not.
proof fn lemma_opening(opening: Seq<char>, message: Seq<char>)
    requires
        is_opening(opening),
    ensures
        compact::kept_lines(text::lines(opening + message), false) == compact::kept_lines(
            text::lines(message),
            opening.len() > 0,
        ),
{
    if opening.len() == 0 {
        assert(opening + message =~= message);
    } else {
        reveal_strlit("[memory context]");
        let line = opening.drop_last();
        text_laws::lemma_first_line(line, message);
        text_laws::lemma_trim_carriage_return(line);
        assert(line + seq!['\n'] + message =~= opening + message);
        let all = text::lines(opening + message);
        assert(all.drop_first() =~= text::lines(message));
        assert(text::lowercase(text::trim(line)).len() == text::trim(line).len());
    }
}

/// What is kept behind an opening comes to nothing if and only if no line is kept.
proof fn lemma_kept_text(message: Seq<char>, in_memory_block: bool)
    ensures
        ({
            let kept = compact::kept_lines(text::lines(message), in_memory_block);
            kept.len() == 0 <==> text::join(kept, " "@).len() == 0
        }),
{
    let lines = text::lines(message);
    text_lemmas::lemma_lines_lack_feed(message);
    laws::lemma_kept_lines(lines, in_memory_block, '\n');
    text_lemmas::lemma_join_tight(compact::kept_lines(lines, in_memory_block), " "@);
}

/// How the first line of a message bears on the others, behind an opening.
proof fn lemma_first_line_of(opening: Seq<char>, line: Seq<char>, rest: Seq<char>)
    requires
        is_opening(opening),
        text_lemmas::lacks(line, '\n'),
    ensures
        ({
            let body = text::trim(line);
            let open = opening.len() > 0;
            let all = compact::kept_lines(
                text::lines(opening + (line + seq!['\n'] + rest)),
                false,
            );
            let others = text::lines(rest);
            all == if body.len() == 0 {
                compact::kept_lines(others, false)
            } else if text::lowercase(body) == "[memory context]"@ {
                compact::kept_lines(others, true)
            } else if (open && "- "@.is_prefix_of(body)) || "[Used tools:"@.is_prefix_of(body)
                || compact::without_tag(body).len() == 0 {
                compact::kept_lines(others, open)
            } else {
                seq![compact::without_tag(body)] + compact::kept_lines(others, open)
            }
        }),
{
    lemma_opening(opening, line + seq!['\n'] + rest);
    text_laws::lemma_first_line(line, rest);
    text_laws::lemma_trim_carriage_return(line);
    let all = text::lines(line + seq!['\n'] + rest);
    assert(all.drop_first() =~= text::lines(rest));
    assert(all.first() == text::without_carriage_return(line));
}

/// A line whose text is kept stands before what is kept of the rest.
proof fn lemma_kept_first(opening: Seq<char>, line: Seq<char>, kept: Seq<char>, rest: Seq<char>)
    requires
        is_opening(opening),
        compact::kept_lines(text::lines(opening + (line + seq!['\n'] + rest)), false) == seq![kept]
            + compact::kept_lines(text::lines(rest), opening.len() > 0),
    ensures
        compact::compacted(opening + (line + seq!['\n'] + rest)) == then_text(
            kept,
            compact::compacted(opening + rest),
        ),
{
    reveal_strlit(" ");
    assert(" "@ =~= seq![' ']);
    lemma_opening(opening, rest);
    lemma_kept_text(rest, opening.len() > 0);
    text_lemmas::lemma_join_front(
        kept,
        compact::kept_lines(text::lines(rest), opening.len() > 0),
        " "@,
    );
}

/// A line that does not start with a bracket is no heading and no tool trace.
proof fn lemma_no_bracket(body: Seq<char>)
    requires
        body.len() > 0,
        body.first() != '[',
    ensures
        text::lowercase(body) != "[memory context]"@,
        !"[Used tools:"@.is_prefix_of(body),
        !"["@.is_prefix_of(body),
        compact::without_tag(body) == body,
{
    reveal_strlit("[");
    reveal_strlit("[Used tools:");
    reveal_strlit("[memory context]");
    assert(text::lowercase(body)[0] == text::ascii_lower(body[0]));
    if "[Used tools:"@.is_prefix_of(body) {
        assert("[Used tools:"@[0] == body.subrange(0, 12)[0]);
    }
    if "["@.is_prefix_of(body) {
        assert("["@[0] == body.subrange(0, 1)[0]);
    }
}

/// Nothing is left of nothing.
pub proof fn law_empty_message()
    ensures
        compact::compacted(Seq::empty()).len() == 0,
{
    assert(text::lines(Seq::<char>::empty()) =~= Seq::<Seq<char>>::empty());
}

/// A line whose text does not start with a bracket is kept whole, in front of what is kept
/// of the rest. In a block of remembered context that goes for a line that is no list item.
pub proof fn law_plain_line_is_kept_whole(
    opening: Seq<char>,
    line: Seq<char>,
    body: Seq<char>,
    rest: Seq<char>,
)
    requires
        is_opening(opening),
        is_line_of(line, body),
        body.first() != '[',
        opening.len() == 0 || !(body.len() > 1 && body[0] == '-' && body[1] == ' '),
    ensures
        compact::compacted(opening + (line + seq!['\n'] + rest)) == then_text(
            body,
            compact::compacted(opening + rest),
        ),
{
    reveal_strlit("- ");
    lemma_no_bracket(body);
    if "- "@.is_prefix_of(body) {
        assert("- "@[0] == body.subrange(0, 2)[0]);
        assert("- "@[1] == body.subrange(0, 2)[1]);
    }
    lemma_first_line_of(opening, line, rest);
    lemma_kept_first(opening, line, body, rest);
}

/// A message of one line that does not start with a bracket is compacted to its text, whole.
pub proof fn law_plain_message_is_kept_whole(before: Seq<char>, body: Seq<char>, after: Seq<char>)
    requires
        text_lemmas::is_blank(before),
        text_lemmas::is_blank(after),
        text_lemmas::is_tight(body),
        text_lemmas::lacks(before + body + after, '\n'),
        body.first() != '[',
    ensures
        compact::compacted(before + body + after) == body,
{
    let none = Seq::<char>::empty();
    let line = before + body + after;
    text_laws::law_trim_takes_the_padding(before, body, after);
    law_plain_line_is_kept_whole(none, line, body, none);
    law_final_line_feed_is_no_matter(line);
    law_empty_message();
    assert(none + (line + seq!['\n'] + none) =~= line + seq!['\n']);
    assert(none + none =~= none);
}

/// A heading of remembered context has no blank behind its closing bracket.
proof fn lemma_heading_has_no_tag(body: Seq<char>, k: int)
    requires
        text::lowercase(body) == "[memory context]"@,
        0 <= k < body.len() - 1,
    ensures
        body[k] != ']',
{
    reveal_strlit("[memory context]");
    let lower = text::lowercase(body);
    assert(lower.len() == body.len());
    assert(lower[k] == text::ascii_lower(body[k]));
    assert(k == 0 || k == 1 || k == 2 || k == 3 || k == 4 || k == 5 || k == 6 || k == 7 || k == 8
        || k == 9 || k == 10 || k == 11 || k == 12 || k == 13 || k == 14);
}

/// Where the first tag of a line ends.
proof fn lemma_tag_end(body: Seq<char>, at: int)
    requires
        0 <= at < body.len() - 1,
        ends_tag(body, at),
        forall|k: int| 0 <= k < at ==> !#[trigger] ends_tag(body, k),
    ensures
        text::text_after(body, "] "@) == Some(body.skip(at + 2)),
{
    reveal_strlit("] ");
    let before = body.take(at);
    let after = body.skip(at + 2);
    assert(before + "] "@ + after =~= body);
    assert forall|k: int| 0 <= k < before.len() implies !"] "@.is_prefix_of(
        #[trigger] (before + "] "@ + after).skip(k),
    ) by {
        assert(!ends_tag(body, k));
        if "] "@.is_prefix_of(body.skip(k)) {
            assert("] "@[0] == body.skip(k).subrange(0, 2)[0]);
            assert("] "@[1] == body.skip(k).subrange(0, 2)[1]);
        }
    }
    text_laws::law_text_after_a_pattern(before, "] "@, after);
}

/// Of a line that starts with a tag in brackets, what follows the tag is kept, without white
/// space around it, in front of what is kept of the rest. The tag ends with the first
/// closing bracket that a blank follows. A tool trace is no such line.
pub proof fn law_tag_is_dropped(
    opening: Seq<char>,
    line: Seq<char>,
    tag: Seq<char>,
    pad: Seq<char>,
    tail: Seq<char>,
    rest: Seq<char>,
)
    requires
        is_opening(opening),
        is_line_of(line, seq!['['] + tag + seq![']', ' '] + pad + tail),
        forall|k: int| 0 <= k < tag.len() - 1 ==> !#[trigger] ends_tag(tag, k),
        text_lemmas::is_blank(pad),
        text_lemmas::is_tight(tail),
        !"[Used tools:"@.is_prefix_of(seq!['['] + tag + seq![']', ' '] + pad + tail),
    ensures
        compact::compacted(opening + (line + seq!['\n'] + rest)) == then_text(
            tail,
            compact::compacted(opening + rest),
        ),
{
    reveal_strlit("- ");
    reveal_strlit("[");
    let body = seq!['['] + tag + seq![']', ' '] + pad + tail;
    let at: int = tag.len() + 1int;
    assert(ends_tag(body, at));
    assert forall|k: int| 0 <= k < at implies !#[trigger] ends_tag(body, k) by {
        if 0 < k < at - 1 {
            assert(!ends_tag(tag, k - 1));
            assert(body[k] == tag[k - 1]);
            assert(body[k + 1] == tag[k]);
        }
        if k == at - 1 {
            assert(body[k + 1] == ']');
        }
        if k == 0 {
            assert(body[0] == '[');
        }
    }
    lemma_tag_end(body, at);
    assert(body.skip(at + 2) =~= pad + tail + Seq::<char>::empty());
    text_laws::law_trim_takes_the_padding(pad, tail, Seq::empty());
    assert("["@ =~= body.subrange(0, 1));
    if text::lowercase(body) == "[memory context]"@ {
        lemma_heading_has_no_tag(body, at);
    }
    if "- "@.is_prefix_of(body) {
        assert("- "@[0] == body.subrange(0, 2)[0]);
    }
    lemma_first_line_of(opening, line, rest);
    lemma_kept_first(opening, line, tail, rest);
}

/// A line that starts with a bracket and holds no end of a tag is kept whole, unless it is a
/// heading of remembered context or a tool trace.
pub proof fn law_bracket_without_tag_is_kept_whole(
    opening: Seq<char>,
    line: Seq<char>,
    body: Seq<char>,
    rest: Seq<char>,
)
    requires
        is_opening(opening),
        is_line_of(line, body),
        body.first() == '[',
        forall|k: int| 0 <= k < body.len() - 1 ==> !#[trigger] ends_tag(body, k),
        text::lowercase(body) != "[memory context]"@,
        !"[Used tools:"@.is_prefix_of(body),
    ensures
        compact::compacted(opening + (line + seq!['\n'] + rest)) == then_text(
            body,
            compact::compacted(opening + rest),
        ),
{
    reveal_strlit("- ");
    reveal_strlit("] ");
    assert forall|k: int| 0 <= k <= body.len() implies !"] "@.is_prefix_of(
        #[trigger] body.skip(k),
    ) by {
        if "] "@.is_prefix_of(body.skip(k)) {
            assert("] "@[0] == body.skip(k).subrange(0, 2)[0]);
            assert("] "@[1] == body.skip(k).subrange(0, 2)[1]);
            assert(ends_tag(body, k));
        }
    }
    text_laws::law_no_text_after_a_missing_pattern(body, "] "@);
    if "- "@.is_prefix_of(body) {
        assert("- "@[0] == body.subrange(0, 2)[0]);
    }
    lemma_first_line_of(opening, line, rest);
    lemma_kept_first(opening, line, body, rest);
}

/// A tool trace is dropped, and nothing else with it.
pub proof fn law_tool_trace_is_dropped(
    opening: Seq<char>,
    line: Seq<char>,
    names: Seq<char>,
    rest: Seq<char>,
)
    requires
        is_opening(opening),
        is_line_of(line, "[Used tools:"@ + names),
    ensures
        compact::compacted(opening + (line + seq!['\n'] + rest)) == compact::compacted(
            opening + rest,
        ),
{
    reveal_strlit("[Used tools:");
    reveal_strlit("[memory context]");
    let body = "[Used tools:"@ + names;
    assert("[Used tools:"@ =~= body.subrange(0, 12));
    assert(text::lowercase(body)[1] == text::ascii_lower(body[1]));
    lemma_first_line_of(opening, line, rest);
    lemma_opening(opening, rest);
}

/// A list item in a block of remembered context is dropped, and the block stays open.
pub proof fn law_memory_item_is_dropped(
    heading: Seq<char>,
    line: Seq<char>,
    item: Seq<char>,
    rest: Seq<char>,
)
    requires
        is_memory_heading(heading),
        is_line_of(line, seq!['-', ' '] + item),
    ensures
        compact::compacted(heading + (line + seq!['\n'] + rest)) == compact::compacted(
            heading + rest,
        ),
{
    reveal_strlit("- ");
    let body = seq!['-', ' '] + item;
    lemma_no_bracket(body);
    assert("- "@ =~= body.subrange(0, 2));
    lemma_first_line_of(heading, line, rest);
    lemma_opening(heading, rest);
}

/// A blank line is dropped, and closes a block of remembered context.
pub proof fn law_blank_line_closes_the_block(opening: Seq<char>, line: Seq<char>, rest: Seq<char>)
    requires
        is_opening(opening),
        text_lemmas::lacks(line, '\n'),
        text_lemmas::is_blank(line),
    ensures
        compact::compacted(opening + (line + seq!['\n'] + rest)) == compact::compacted(rest),
{
    laws::lemma_trim_blank(line);
    lemma_first_line_of(opening, line, rest);
}

/// A second heading is dropped, and the block stays open.
pub proof fn law_second_heading_is_dropped(
    opening: Seq<char>,
    heading: Seq<char>,
    rest: Seq<char>,
)
    requires
        is_opening(opening),
        is_memory_heading(heading),
    ensures
        compact::compacted(opening + (heading + rest)) == compact::compacted(heading + rest),
{
    reveal_strlit("[memory context]");
    let line = heading.drop_last();
    assert(line + seq!['\n'] + rest =~= heading + rest);
    assert(text::lowercase(text::trim(line)).len() == text::trim(line).len());
    lemma_first_line_of(opening, line, rest);
    lemma_opening(heading, rest);
}

/// A heading of remembered context leaves nothing by itself.
pub proof fn law_heading_leaves_nothing(heading: Seq<char>)
    requires
        is_memory_heading(heading),
    ensures
        compact::compacted(heading).len() == 0,
{
    lemma_opening(heading, Seq::empty());
    assert(heading + Seq::<char>::empty() =~= heading);
    assert(text::lines(Seq::<char>::empty()) =~= Seq::<Seq<char>>::empty());
}

/// The last line matters only as far as trimming leaves it, and not at all where it is blank.
proof fn lemma_last_line(
    lines: Seq<Seq<char>>,
    a: Seq<char>,
    b: Seq<char>,
    in_memory_block: bool,
)
    requires
        text::trim(a) == text::trim(b),
    ensures
        compact::kept_lines(lines.push(a), in_memory_block) == compact::kept_lines(
            lines.push(b),
            in_memory_block,
        ),
        text::trim(a).len() == 0 ==> compact::kept_lines(lines.push(a), in_memory_block)
            == compact::kept_lines(lines, in_memory_block),
    decreases lines.len(),
{
    if lines.len() == 0 {
        assert(lines.push(a).drop_first() =~= Seq::<Seq<char>>::empty());
        assert(lines.push(b).drop_first() =~= Seq::<Seq<char>>::empty());
        assert(compact::kept_lines(lines.push(a).drop_first(), false) =~= Seq::<Seq<char>>::empty());
    } else {
        let rest = lines.drop_first();
        assert(lines.push(a).drop_first() =~= rest.push(a));
        assert(lines.push(b).drop_first() =~= rest.push(b));
        lemma_last_line(rest, a, b, false);
        lemma_last_line(rest, a, b, true);
    }
}

/// It is no matter whether the last line ends with a line feed.
pub proof fn law_final_line_feed_is_no_matter(content: Seq<char>)
    ensures
        compact::compacted(content + seq!['\n']) == compact::compacted(content),
{
    let none = Seq::<char>::empty();
    let from = text::last_index(content, '\n') + 1;
    text::lemma_last_index(content, '\n');
    let front = content.take(from);
    let last = content.skip(from);
    assert(front + last =~= content);
    assert(front + (last + seq!['\n']) =~= content + seq!['\n']);
    assert(text_lemmas::lacks(last, '\n'));
    if from > 0 {
        assert(front.last() == '\n');
        laws::lemma_lines_append(front, last);
        laws::lemma_lines_append(front, last + seq!['\n']);
    } else {
        assert(front =~= none);
        assert(content =~= last);
    }
    let lines = if from > 0 {
        text::lines(front)
    } else {
        Seq::empty()
    };
    let cut = text::without_carriage_return(last);
    text_laws::lemma_first_line(last, none);
    assert(last + seq!['\n'] + none =~= last + seq!['\n']);
    assert(text::lines(none) =~= Seq::<Seq<char>>::empty());
    assert(text::lines(content + seq!['\n']) =~= lines.push(cut));
    text_laws::lemma_trim_carriage_return(last);
    lemma_last_line(lines, cut, last, false);
    if last.len() == 0 {
        assert(text::lines(content) =~= lines);
        assert(text_lemmas::is_blank(last));
        laws::lemma_trim_blank(last);
    } else {
        text_lemmas::lemma_single_line(last);
        assert(text::lines(content) =~= lines.push(last));
    }
}

/// The size of a history is that of its parts: a message of the system counts nothing, any
/// other one the characters of its compacted text.
pub proof fn law_working_set_adds_up(
    front: Seq<ChatMessage>,
    back: Seq<ChatMessage>,
    message: ChatMessage,
)
    ensures
        compact::working_set_chars(front + back) == compact::working_set_chars(front)
            + compact::working_set_chars(back),
        message.role@ == "system"@ ==> compact::working_set_chars(seq![message]) == 0,
        message.role@ != "system"@ ==> compact::working_set_chars(seq![message])
            == compact::compacted(message.content@).len(),
        compact::working_set_chars(Seq::empty()) == 0,
    decreases back.len(),
{
    reveal_with_fuel(compact::working_set_chars, 2);
    assert(seq![message].drop_last() =~= Seq::<ChatMessage>::empty());
    if back.len() == 0 {
        assert(front + back =~= front);
    } else {
        law_working_set_adds_up(front, back.drop_last(), message);
        assert((front + back).drop_last() =~= front + back.drop_last());
        assert((front + back).last() == back.last());
    }
}

/// The estimate is the size itself wherever it fits.
pub proof fn law_estimate_is_the_size(history: Seq<ChatMessage>)
    ensures
        compact::working_set_chars(history) <= usize::MAX ==> compact::estimated_chars(history)
            == compact::working_set_chars(history),
        compact::working_set_chars(history) > usize::MAX ==> compact::estimated_chars(history)
            == usize::MAX,
{
}

} // verus!
