//! What the text operations do, character by character.

use vstd::prelude::*;
use crate::text;
use crate::text_lemmas;

verus! {

/// White space is what Unicode lists as such, by code point.
pub proof fn law_white_space(c: char)
    ensures
        text::is_white_space(c) <==> {
            ||| 9 <= c as int <= 13
            ||| c as int == 32
            ||| c as int == 133
            ||| c as int == 160
            ||| c as int == 5760
            ||| 8192 <= c as int <= 8202
            ||| c as int == 8232
            ||| c as int == 8233
            ||| c as int == 8239
            ||| c as int == 8287
            ||| c as int == 12288
        },
{
}

/// Trimming takes away exactly the white space around a text that has none at its own ends.
pub proof fn law_trim_takes_the_padding(before: Seq<char>, core: Seq<char>, after: Seq<char>)
    requires
        text_lemmas::is_blank(before),
        text_lemmas::is_blank(after),
        core.len() == 0 || text_lemmas::is_tight(core),
    ensures
        text::trim(before + core + after) == core,
{
    text_lemmas::lemma_trim_padding(before, core, after);
    if core.len() > 0 {
        text_lemmas::lemma_trim_keeps(core);
    } else {
        assert(text::trim_start(core) =~= core);
        assert(text::trim(core) =~= core);
    }
}

/// Every text is what trimming leaves of it, with white space around.
pub proof fn law_trim_leaves_the_core(s: Seq<char>) -> (parts: (Seq<char>, Seq<char>))
    ensures
        text_lemmas::is_blank(parts.0),
        text_lemmas::is_blank(parts.1),
        s == parts.0 + text::trim(s) + parts.1,
        text::trim(s).len() == 0 || text_lemmas::is_tight(text::trim(s)),
{
    let front = text::trim_start(s);
    text_lemmas::lemma_trim_start(s);
    text_lemmas::lemma_trim_end(front);
    text_lemmas::lemma_trim(s);
    let before = s.take(s.len() - front.len());
    let after = front.skip(text::trim(s).len() as int);
    assert(s =~= before + text::trim(s) + after);
    (before, after)
}

/// The 26 ASCII capitals become the small letters, back and forth, and nothing else changes.
pub proof fn law_ascii_case(c: char)
    ensures
        65 <= c as int <= 90 ==> text::ascii_lower(c) as int == c as int + 32,
        !(65 <= c as int <= 90) ==> text::ascii_lower(c) == c,
        97 <= c as int <= 122 ==> text::ascii_upper(c) as int == c as int - 32,
        !(97 <= c as int <= 122) ==> text::ascii_upper(c) == c,
        65 <= c as int <= 90 ==> text::ascii_upper(text::ascii_lower(c)) == c,
{
}

/// Lower case is made character by character.
pub proof fn law_lowercase(s: Seq<char>)
    ensures
        text::lowercase(s).len() == s.len(),
        forall|i: int|
            0 <= i < s.len() ==> #[trigger] text::lowercase(s)[i] == text::ascii_lower(s[i]),
{
}

/// Upper case of an ASCII text is made character by character, and that of any other text
/// is Unicode's.
pub proof fn law_uppercase(s: Seq<char>)
    ensures
        (forall|i: int| 0 <= i < s.len() ==> (#[trigger] s[i]) as int <= 127) ==> {
            &&& text::uppercase(s).len() == s.len()
            &&& forall|i: int|
                0 <= i < s.len() ==> #[trigger] text::uppercase(s)[i] == text::ascii_upper(s[i])
        },
        (exists|i: int| 0 <= i < s.len() && (#[trigger] s[i]) as int > 127) ==> text::uppercase(s)
            == text::unicode_uppercase(s),
{
}

/// What follows the first occurrence of a pattern is found.
pub proof fn law_text_after_a_pattern(before: Seq<char>, pattern: Seq<char>, after: Seq<char>)
    requires
        forall|k: int|
            0 <= k < before.len() ==> !pattern.is_prefix_of(
                #[trigger] (before + pattern + after).skip(k),
            ),
    ensures
        text::text_after(before + pattern + after, pattern) == Some(after),
{
    let s = before + pattern + after;
    let at = before.len() as int;
    text::lemma_first_match(s, pattern);
    assert(s.skip(at) =~= pattern + after);
    assert(pattern =~= s.skip(at).subrange(0, pattern.len() as int));
    match text::first_match(s, pattern) {
        Some(i) => {
            if i < at {
                assert(pattern.is_prefix_of(s.skip(i)));
            }
            if i > at {
                assert(!pattern.is_prefix_of(s.skip(at)));
            }
            assert(s.skip(i + pattern.len()) =~= after);
        },
        None => {
            assert(!pattern.is_prefix_of(s.skip(at)));
        },
    }
}

/// Nothing follows a pattern that does not occur.
pub proof fn law_no_text_after_a_missing_pattern(s: Seq<char>, pattern: Seq<char>)
    requires
        forall|k: int| 0 <= k <= s.len() ==> !pattern.is_prefix_of(#[trigger] s.skip(k)),
    ensures
        text::text_after(s, pattern) is None,
{
    text::lemma_first_match(s, pattern);
}

/// A line ends with a line feed, and a carriage return right before it is part of the end.
pub proof fn law_lines(line: Seq<char>, rest: Seq<char>)
    requires
        text_lemmas::lacks(line, '\n'),
    ensures
        text::lines(Seq::empty()).len() == 0,
        line.len() > 0 ==> text::lines(line) == seq![line],
        text::lines(line + seq!['\r', '\n'] + rest) == seq![line] + text::lines(rest),
        line.len() == 0 || line.last() != '\r' ==> text::lines(line + seq!['\n'] + rest) == seq![
            line,
        ] + text::lines(rest),
{
    if line.len() > 0 {
        text_lemmas::lemma_single_line(line);
    }
    lemma_first_line(line, rest);
    let longer = line.push('\r');
    lemma_first_line(longer, rest);
    assert(longer + seq!['\n'] + rest =~= line + seq!['\r', '\n'] + rest);
    assert(longer.drop_last() =~= line);
}

/// The first line of a text, and the others.
pub proof fn lemma_first_line(line: Seq<char>, rest: Seq<char>)
    requires
        text_lemmas::lacks(line, '\n'),
    ensures
        text::lines(line + seq!['\n'] + rest) == seq![text::without_carriage_return(line)]
            + text::lines(rest),
{
    let s = line + seq!['\n'] + rest;
    let at = line.len() as int;
    let end = text::first_index(s, '\n');
    text::lemma_first_index(s, '\n');
    assert(s[at] == '\n');
    if end < at {
        assert(s[end] == line[end]);
    }
    assert(end == at);
    assert(s.take(at) =~= line);
    assert(s.skip(at + 1) =~= rest);
}

/// A carriage return at the end makes no difference once a line is trimmed.
pub proof fn lemma_trim_carriage_return(line: Seq<char>)
    ensures
        text::trim(text::without_carriage_return(line)) == text::trim(line),
{
    if line.len() > 0 && line.last() == '\r' {
        let rest = line.drop_last();
        text_lemmas::lemma_trim_padding(Seq::empty(), rest, seq!['\r']);
        assert(Seq::<char>::empty() + rest + seq!['\r'] =~= line);
    }
}

/// Joining puts the separator between neighbours, and nowhere else.
pub proof fn law_join(
    front: Seq<Seq<char>>,
    back: Seq<Seq<char>>,
    part: Seq<char>,
    separator: Seq<char>,
)
    ensures
        text::join(Seq::empty(), separator).len() == 0,
        text::join(seq![part], separator) == part,
        front.len() > 0 && back.len() > 0 ==> text::join(front + back, separator) == text::join(
            front,
            separator,
        ) + separator + text::join(back, separator),
    decreases back.len(),
{
    if front.len() > 0 && back.len() > 0 {
        let all = front + back;
        assert(all.drop_last() =~= front + back.drop_last());
        assert(all.last() == back.last());
        if back.len() == 1 {
            assert(all.drop_last() =~= front);
        } else {
            law_join(front, back.drop_last(), part, separator);
            assert(text::join(all, separator) =~= text::join(front, separator) + separator
                + text::join(back, separator));
        }
    }
}

/// A text within the limit is left alone. Of a longer one the beginning stays, up to the
/// limit but without white space at its end, and three dots follow.
pub proof fn law_shortened(s: Seq<char>, max_chars: nat)
    ensures
        s.len() <= max_chars ==> text::shortened(s, max_chars) == s,
        s.len() > max_chars ==> {
            let kept = text::shortened(s, max_chars).len() - 3;
            &&& 0 <= kept <= max_chars
            &&& text::shortened(s, max_chars) == s.take(kept) + seq!['.', '.', '.']
            &&& text_lemmas::is_blank(s.subrange(kept, max_chars as int))
            &&& kept > 0 ==> !text::is_white_space(s[kept - 1])
        },
{
    reveal_strlit("...");
    if s.len() > max_chars {
        let head = s.take(max_chars as int);
        text_lemmas::lemma_trim_end(head);
        let kept = text::trim_end(head).len() as int;
        assert(text::shortened(s, max_chars).len() - 3 == kept);
        assert(head.take(kept) =~= s.take(kept));
        assert("..."@ =~= seq!['.', '.', '.']);
        assert(head.skip(kept) =~= s.subrange(kept, max_chars as int));
    }
}

/// The number that a text of decimal digits stands for.
pub open spec fn value_of(digits: Seq<char>) -> int
    decreases digits.len(),
{
    if digits.len() == 0 {
        0
    } else {
        value_of(digits.drop_last()) * 10 + (digits.last() as int - 48)
    }
}

/// A number is written in decimal digits that stand for it, without leading zeros.
pub proof fn law_decimal(n: nat)
    ensures
        value_of(text::decimal(n)) == n,
        text::decimal(n).len() > 0,
        forall|i: int|
            0 <= i < text::decimal(n).len() ==> 48 <= (#[trigger] text::decimal(n)[i]) as int <= 57,
        n > 0 ==> text::decimal(n).first() as int != 48,
    decreases n,
{
    reveal_with_fuel(value_of, 2);
    if n < 10 {
        assert(text::decimal(n).drop_last() =~= Seq::<char>::empty());
    } else {
        law_decimal(n / 10);
        assert(text::decimal(n).drop_last() =~= text::decimal(n / 10));
        assert(text::decimal(n).first() == text::decimal(n / 10).first());
    }
}

/// The views of strings and of optional strings are those of what they hold.
pub proof fn law_views(strings: Seq<String>, string: String, slice: &str)
    ensures
        text::texts(strings).len() == strings.len(),
        forall|i: int|
            0 <= i < strings.len() ==> #[trigger] text::texts(strings)[i] == strings[i]@,
        text::opt_text(Some(string)) == Some(string@),
        text::opt_text(None) is None,
        text::opt_str_text(Some(slice)) == Some(slice@),
        text::opt_str_text(None) is None,
{
}

} // verus!
