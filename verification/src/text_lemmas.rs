//! Facts about trimming, lines and joining.

use vstd::prelude::*;
use crate::text;

verus! {

/// No character of `s` is `c`.
pub open spec fn lacks(s: Seq<char>, c: char) -> bool {
    forall|i: int| 0 <= i < s.len() ==> s[i] != c
}

/// Every character of `s` is white space.
pub open spec fn is_blank(s: Seq<char>) -> bool {
    forall|i: int| 0 <= i < s.len() ==> text::is_white_space(#[trigger] s[i])
}

/// `s` has a first character, and neither it nor the last one is white space.
pub open spec fn is_tight(s: Seq<char>) -> bool {
    s.len() > 0 && !text::is_white_space(s.first()) && !text::is_white_space(s.last())
}

/// What `trim_start` leaves is the text behind its leading white space.
pub proof fn lemma_trim_start(s: Seq<char>)
    ensures
        text::trim_start(s).len() <= s.len(),
        text::trim_start(s) == s.skip(s.len() - text::trim_start(s).len()),
        is_blank(s.take(s.len() - text::trim_start(s).len())),
        text::trim_start(s).len() > 0 ==> !text::is_white_space(text::trim_start(s).first()),
    decreases s.len(),
{
    if s.len() > 0 && text::is_white_space(s.first()) {
        let rest = s.drop_first();
        lemma_trim_start(rest);
        let n = text::trim_start(s).len();
        assert(s.skip(s.len() - n) =~= rest.skip(rest.len() - n));
        let head = s.take(s.len() - n);
        assert forall|i: int| 0 <= i < head.len() implies text::is_white_space(
            #[trigger] head[i],
        ) by {
            if i > 0 {
                assert(head[i] == rest.take(rest.len() - n)[i - 1]);
            }
        }
    } else {
        assert(s.skip(0) =~= s);
    }
}

/// What `trim_end` leaves is the text before its trailing white space.
pub proof fn lemma_trim_end(s: Seq<char>)
    ensures
        text::trim_end(s).len() <= s.len(),
        text::trim_end(s) == s.take(text::trim_end(s).len() as int),
        is_blank(s.skip(text::trim_end(s).len() as int)),
        text::trim_end(s).len() > 0 ==> !text::is_white_space(text::trim_end(s).last()),
    decreases s.len(),
{
    if s.len() > 0 && text::is_white_space(s.last()) {
        let rest = s.drop_last();
        lemma_trim_end(rest);
        let n = text::trim_end(s).len() as int;
        assert(s.take(n) =~= rest.take(n));
        let tail = s.skip(n);
        assert forall|i: int| 0 <= i < tail.len() implies text::is_white_space(
            #[trigger] tail[i],
        ) by {
            if i < tail.len() - 1 {
                assert(tail[i] == rest.skip(n)[i]);
            }
        }
    } else {
        assert(s.take(s.len() as int) =~= s);
        assert(s.skip(s.len() as int) =~= Seq::<char>::empty());
    }
}

/// What `trim` leaves is a part of the text, and empty or tight.
pub proof fn lemma_trim(s: Seq<char>)
    ensures
        text::trim(s).len() <= s.len(),
        text::trim(s).len() > 0 ==> is_tight(text::trim(s)),
        ({
            let from = s.len() - text::trim_start(s).len();
            &&& 0 <= from <= s.len() - text::trim(s).len()
            &&& text::trim(s) == s.subrange(from, from + text::trim(s).len())
        }),
{
    let front = text::trim_start(s);
    lemma_trim_start(s);
    lemma_trim_end(front);
    let from = s.len() - front.len();
    assert(text::trim(s) =~= s.subrange(from, from + text::trim(s).len()));
    if text::trim(s).len() > 0 {
        assert(text::trim(s).first() == front.first());
    }
}

/// Trimming brings no new character in.
pub proof fn lemma_trim_lacks(s: Seq<char>, c: char)
    requires
        lacks(s, c),
    ensures
        lacks(text::trim(s), c),
{
    lemma_trim(s);
}

/// A text that ends with a character other than white space does not trim to nothing, and
/// a tight text trims to itself.
pub proof fn lemma_trim_keeps(s: Seq<char>)
    requires
        s.len() > 0,
        !text::is_white_space(s.last()),
    ensures
        text::trim(s).len() > 0,
        is_tight(s) ==> text::trim(s) == s,
{
    let front = text::trim_start(s);
    lemma_trim_start(s);
    if front.len() == 0 {
        assert(s.take(s.len() as int)[s.len() - 1] == s.last());
        assert(false);
    }
    assert(front.last() == s.last());
}

/// White space in front changes nothing for `trim_start`.
proof fn lemma_trim_start_padding(pad: Seq<char>, s: Seq<char>)
    requires
        is_blank(pad),
    ensures
        text::trim_start(pad + s) == text::trim_start(s),
    decreases pad.len(),
{
    if pad.len() == 0 {
        assert(pad + s =~= s);
    } else {
        assert((pad + s).first() == pad[0]);
        assert((pad + s).drop_first() =~= pad.drop_first() + s);
        assert(is_blank(pad.drop_first()));
        lemma_trim_start_padding(pad.drop_first(), s);
    }
}

/// White space behind changes nothing for `trim_end`.
proof fn lemma_trim_end_padding(s: Seq<char>, pad: Seq<char>)
    requires
        is_blank(pad),
    ensures
        text::trim_end(s + pad) == text::trim_end(s),
    decreases pad.len(),
{
    if pad.len() == 0 {
        assert(s + pad =~= s);
    } else {
        assert((s + pad).last() == pad[pad.len() - 1]);
        assert((s + pad).drop_last() =~= s + pad.drop_last());
        assert(is_blank(pad.drop_last()));
        lemma_trim_end_padding(s, pad.drop_last());
    }
}

/// What is behind does not matter to `trim_start`, once something is left before it.
proof fn lemma_trim_start_append(s: Seq<char>, tail: Seq<char>)
    requires
        text::trim_start(s).len() > 0,
    ensures
        text::trim_start(s + tail) == text::trim_start(s) + tail,
    decreases s.len(),
{
    assert((s + tail).first() == s.first());
    if text::is_white_space(s.first()) {
        assert((s + tail).drop_first() =~= s.drop_first() + tail);
        lemma_trim_start_append(s.drop_first(), tail);
    }
}

/// White space around a text changes nothing for `trim`.
pub proof fn lemma_trim_padding(before: Seq<char>, s: Seq<char>, after: Seq<char>)
    requires
        is_blank(before),
        is_blank(after),
    ensures
        text::trim(before + s + after) == text::trim(s),
{
    assert(before + s + after =~= before + (s + after));
    lemma_trim_start_padding(before, s + after);
    lemma_trim_start(s);
    if text::trim_start(s).len() > 0 {
        lemma_trim_start_append(s, after);
        lemma_trim_end_padding(text::trim_start(s), after);
    } else {
        assert(s.take(s.len() as int) =~= s);
        lemma_trim_start_padding(s, after);
        lemma_trim_start_padding(after, Seq::empty());
        assert(after + Seq::<char>::empty() =~= after);
    }
}

/// Joining from the front.
pub proof fn lemma_join_front(first: Seq<char>, rest: Seq<Seq<char>>, separator: Seq<char>)
    ensures
        text::join(seq![first] + rest, separator) == if rest.len() == 0 {
            first
        } else {
            first + separator + text::join(rest, separator)
        },
    decreases rest.len(),
{
    let all = seq![first] + rest;
    if rest.len() > 0 {
        assert(all.drop_last() =~= seq![first] + rest.drop_last());
        assert(all.last() == rest.last());
        lemma_join_front(first, rest.drop_last(), separator);
        if rest.len() == 1 {
            assert(all.drop_last() =~= seq![first]);
            assert(text::join(all.drop_last(), separator) == first);
        } else {
            assert(text::join(all, separator) =~= first + separator + text::join(rest, separator));
        }
    }
}

/// No line holds a line feed.
pub proof fn lemma_lines_lack_feed(s: Seq<char>)
    ensures
        forall|k: int| 0 <= k < text::lines(s).len() ==> lacks(#[trigger] text::lines(s)[k], '\n'),
    decreases s.len(),
{
    let end = text::first_index(s, '\n');
    text::lemma_first_index(s, '\n');
    if s.len() > 0 && end < s.len() {
        let first = text::without_carriage_return(s.take(end));
        let rest = text::lines(s.skip(end + 1));
        lemma_lines_lack_feed(s.skip(end + 1));
        assert forall|k: int| 0 <= k < text::lines(s).len() implies lacks(
            #[trigger] text::lines(s)[k],
            '\n',
        ) by {
            if k > 0 {
                assert(text::lines(s)[k] == rest[k - 1]);
            } else {
                assert(text::lines(s)[k] == first);
            }
        }
    }
}

/// The lines, joined by single characters, are no longer than the text.
pub proof fn lemma_lines_length(s: Seq<char>, separator: Seq<char>)
    requires
        separator.len() == 1,
    ensures
        text::join(text::lines(s), separator).len() <= s.len(),
    decreases s.len(),
{
    let end = text::first_index(s, '\n');
    text::lemma_first_index(s, '\n');
    if s.len() > 0 && end < s.len() {
        let first = text::without_carriage_return(s.take(end));
        lemma_lines_length(s.skip(end + 1), separator);
        lemma_join_front(first, text::lines(s.skip(end + 1)), separator);
    }
}

/// A text without line feeds is one line, or none where it is empty.
pub proof fn lemma_single_line(s: Seq<char>)
    requires
        s.len() > 0,
        lacks(s, '\n'),
    ensures
        text::lines(s) == seq![s],
{
    text::lemma_first_index(s, '\n');
}

/// Joining brings in no character but those of the parts and of the separator.
pub proof fn lemma_join_lacks(parts: Seq<Seq<char>>, separator: Seq<char>, c: char)
    requires
        lacks(separator, c),
        forall|k: int| 0 <= k < parts.len() ==> lacks(#[trigger] parts[k], c),
    ensures
        lacks(text::join(parts, separator), c),
    decreases parts.len(),
{
    if parts.len() > 1 {
        let shorter = parts.drop_last();
        assert forall|k: int| 0 <= k < shorter.len() implies lacks(#[trigger] shorter[k], c) by {
            assert(shorter[k] == parts[k]);
        }
        lemma_join_lacks(shorter, separator, c);
        assert(lacks(parts[parts.len() - 1], c));
    } else if parts.len() == 1 {
        assert(lacks(parts[0], c));
    }
}

/// Tight parts join to nothing or to a tight text.
pub proof fn lemma_join_tight(parts: Seq<Seq<char>>, separator: Seq<char>)
    requires
        forall|k: int| 0 <= k < parts.len() ==> is_tight(#[trigger] parts[k]),
    ensures
        parts.len() > 0 ==> is_tight(text::join(parts, separator)),
    decreases parts.len(),
{
    if parts.len() > 1 {
        let shorter = parts.drop_last();
        assert forall|k: int| 0 <= k < shorter.len() implies is_tight(#[trigger] shorter[k]) by {
            assert(shorter[k] == parts[k]);
        }
        lemma_join_tight(shorter, separator);
        assert(is_tight(parts[parts.len() - 1]));
        let front = text::join(shorter, separator);
        let all = text::join(parts, separator);
        assert(all == front + separator + parts.last());
        assert(all.first() == front.first());
        assert(all.last() == parts.last().last());
    } else if parts.len() == 1 {
        assert(is_tight(parts[0]));
    }
}

/// A shortened text is at most three characters over the limit, and empty only where the
/// text is.
pub proof fn lemma_shortened(s: Seq<char>, max_chars: nat)
    ensures
        text::shortened(s, max_chars).len() <= max_chars + 3,
        text::shortened(s, max_chars).len() == 0 <==> s.len() == 0,
        s.len() <= max_chars ==> text::shortened(s, max_chars) == s,
        s.len() > max_chars ==> text::shortened(s, max_chars).last() == '.',
{
    reveal_strlit("...");
    if s.len() > max_chars {
        lemma_trim_end(s.take(max_chars as int));
    }
}

} // verus!
