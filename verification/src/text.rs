//! Plain-text helpers over sequences of characters.

use vstd::prelude::*;
use vstd::slice::slice_subrange;

verus! {

/// `String::push` appends one character at the end and leaves the rest alone.
pub assume_specification[ String::push ](s: &mut String, ch: char)
    ensures
        final(s)@ == old(s)@.push(ch),
;

/// The characters with the Unicode `White_Space` property.
pub open spec fn is_white_space(c: char) -> bool {
    ||| '\u{9}' <= c <= '\u{d}'
    ||| c == '\u{20}'
    ||| c == '\u{85}'
    ||| c == '\u{a0}'
    ||| c == '\u{1680}'
    ||| '\u{2000}' <= c <= '\u{200a}'
    ||| c == '\u{2028}'
    ||| c == '\u{2029}'
    ||| c == '\u{202f}'
    ||| c == '\u{205f}'
    ||| c == '\u{3000}'
}

/// `s` without its leading white space.
pub open spec fn trim_start(s: Seq<char>) -> Seq<char>
    decreases s.len(),
{
    if s.len() > 0 && is_white_space(s.first()) {
        trim_start(s.drop_first())
    } else {
        s
    }
}

/// `s` without its trailing white space.
pub open spec fn trim_end(s: Seq<char>) -> Seq<char>
    decreases s.len(),
{
    if s.len() > 0 && is_white_space(s.last()) {
        trim_end(s.drop_last())
    } else {
        s
    }
}

/// `s` without white space at either end.
pub open spec fn trim(s: Seq<char>) -> Seq<char> {
    trim_end(trim_start(s))
}

fn white_space(c: char) -> (res: bool)
    ensures
        res == is_white_space(c),
{
    ('\u{9}' <= c && c <= '\u{d}') || c == '\u{20}' || c == '\u{85}' || c == '\u{a0}' || c
        == '\u{1680}' || ('\u{2000}' <= c && c <= '\u{200a}') || c == '\u{2028}' || c == '\u{2029}'
        || c == '\u{202f}' || c == '\u{205f}' || c == '\u{3000}'
}

/// The characters of `s`, in order.
pub fn chars_of(s: &str) -> (res: Vec<char>)
    ensures
        res@ == s@,
{
    let mut res: Vec<char> = Vec::new();
    for c in it: s.chars()
        invariant
            it.seq() == s@,
            res@ == s@.take(it.index()),
    {
        res.push(c);
    }
    assert(s@.take(s@.len() as int) == s@);
    res
}

/// The string made of `chars`, in order.
pub fn string_of(chars: &[char]) -> (res: String)
    ensures
        res@ == chars@,
{
    let mut res = String::new();
    let mut i: usize = 0;
    while i < chars.len()
        invariant
            i <= chars.len(),
            res@ == chars@.take(i as int),
        decreases chars.len() - i,
    {
        res.push(chars[i]);
        i = i + 1;
    }
    assert(chars@.take(chars@.len() as int) == chars@);
    res
}

fn trim_start_chars<'a>(s: &'a [char]) -> (res: &'a [char])
    ensures
        res@ == trim_start(s@),
{
    let mut i: usize = 0;
    assert(s@.skip(0) == s@);
    while i < s.len() && white_space(s[i])
        invariant
            i <= s.len(),
            trim_start(s@) == trim_start(s@.skip(i as int)),
        decreases s.len() - i,
    {
        assert(s@.skip(i as int).drop_first() == s@.skip(i + 1));
        i = i + 1;
    }
    assert(s@.subrange(i as int, s@.len() as int) == s@.skip(i as int));
    slice_subrange(s, i, s.len())
}

fn trim_end_chars<'a>(s: &'a [char]) -> (res: &'a [char])
    ensures
        res@ == trim_end(s@),
{
    let mut i: usize = s.len();
    assert(s@.take(s@.len() as int) == s@);
    while i > 0 && white_space(s[i - 1])
        invariant
            i <= s.len(),
            trim_end(s@) == trim_end(s@.take(i as int)),
        decreases i,
    {
        assert(s@.take(i as int).drop_last() == s@.take(i - 1));
        i = i - 1;
    }
    assert(s@.subrange(0, i as int) == s@.take(i as int));
    slice_subrange(s, 0, i)
}

/// `s` without white space at either end.
pub fn trimmed(s: &str) -> (res: String)
    ensures
        res@ == trim(s@),
{
    let chars = chars_of(s);
    string_of(trim_end_chars(trim_start_chars(chars.as_slice())))
}

/// `c` with an ASCII upper-case letter turned into its lower-case one.
pub open spec fn ascii_lower(c: char) -> char {
    if 'A' <= c <= 'Z' {
        (c as u32 + 32) as char
    } else {
        c
    }
}

/// `c` with an ASCII lower-case letter turned into its upper-case one.
pub open spec fn ascii_upper(c: char) -> char {
    if 'a' <= c <= 'z' {
        (c as u32 - 32) as char
    } else {
        c
    }
}

/// `s` with every ASCII upper-case letter turned into its lower-case one.
pub open spec fn lowercase(s: Seq<char>) -> Seq<char> {
    s.map_values(|c: char| ascii_lower(c))
}

/// Every character of `s` is ASCII.
pub open spec fn all_ascii(s: Seq<char>) -> bool {
    forall|i: int| 0 <= i < s.len() ==> #[trigger] s[i] <= '\u{7f}'
}

fn to_ascii_lower(c: char) -> (res: char)
    ensures
        res == ascii_lower(c),
{
    if 'A' <= c && c <= 'Z' {
        (c as u8 + 32) as char
    } else {
        c
    }
}

fn to_ascii_upper(c: char) -> (res: char)
    ensures
        res == ascii_upper(c),
{
    if 'a' <= c && c <= 'z' {
        (c as u8 - 32) as char
    } else {
        c
    }
}

/// Whether `a` and `b` are the same text.
pub fn same_text(a: &str, b: &str) -> (res: bool)
    ensures
        res == (a@ == b@),
{
    let x = chars_of(a);
    let y = chars_of(b);
    if x.len() != y.len() {
        return false;
    }
    let mut i: usize = 0;
    while i < x.len()
        invariant
            i <= x.len(),
            x.len() == y.len(),
            x@ == a@,
            y@ == b@,
            forall|k: int| 0 <= k < i ==> x@[k] == y@[k],
        decreases x.len() - i,
    {
        if x[i] != y[i] {
            assert(a@[i as int] != b@[i as int]);
            return false;
        }
        i = i + 1;
    }
    assert(x@ =~= y@);
    true
}

/// Whether `a` and `b` are the same text when ASCII letter case is ignored.
pub fn eq_ignore_ascii_case(a: &str, b: &str) -> (res: bool)
    ensures
        res == (lowercase(a@) == lowercase(b@)),
{
    let x = chars_of(a);
    let y = chars_of(b);
    if x.len() != y.len() {
        assert(lowercase(a@).len() != lowercase(b@).len());
        return false;
    }
    let mut i: usize = 0;
    while i < x.len()
        invariant
            i <= x.len(),
            x.len() == y.len(),
            x@ == a@,
            y@ == b@,
            forall|k: int| 0 <= k < i ==> ascii_lower(#[trigger] x@[k]) == ascii_lower(y@[k]),
        decreases x.len() - i,
    {
        if to_ascii_lower(x[i]) != to_ascii_lower(y[i]) {
            assert(lowercase(a@)[i as int] != lowercase(b@)[i as int]);
            return false;
        }
        i = i + 1;
    }
    assert(lowercase(a@) =~= lowercase(b@));
    true
}

/// Whether `s` starts with `prefix`.
pub fn starts_with(s: &str, prefix: &str) -> (res: bool)
    ensures
        res == prefix@.is_prefix_of(s@),
{
    let x = chars_of(s);
    let p = chars_of(prefix);
    matches_at(x.as_slice(), p.as_slice(), 0)
}

/// Whether `s` ends with `suffix`.
pub fn ends_with(s: &str, suffix: &str) -> (res: bool)
    ensures
        res == suffix@.is_suffix_of(s@),
{
    let x = chars_of(s);
    let p = chars_of(suffix);
    if p.len() > x.len() {
        return false;
    }
    let at: usize = x.len() - p.len();
    assert(x@.skip(at as int) == x@.subrange(at as int, x@.len() as int));
    assert(x@.skip(at as int).take(p@.len() as int) == x@.skip(at as int));
    matches_at(x.as_slice(), p.as_slice(), at)
}

/// Whether `pattern` stands in `s` at position `at`.
fn matches_at(s: &[char], pattern: &[char], at: usize) -> (res: bool)
    requires
        at <= s@.len(),
    ensures
        res == pattern@.is_prefix_of(s@.skip(at as int)),
{
    if pattern.len() > s.len() - at {
        return false;
    }
    let mut i: usize = 0;
    while i < pattern.len()
        invariant
            at <= s@.len(),
            i <= pattern.len() <= s.len() - at,
            forall|k: int| 0 <= k < i ==> pattern@[k] == s@[at + k],
        decreases pattern.len() - i,
    {
        if pattern[i] != s[at + i] {
            assert(pattern@[i as int] != s@.skip(at as int)[i as int]);
            assert(pattern@.is_prefix_of(s@.skip(at as int)) ==> pattern@[i as int] == s@.skip(
                at as int,
            ).take(pattern@.len() as int)[i as int]);
            return false;
        }
        i = i + 1;
    }
    assert(pattern@ =~= s@.skip(at as int).take(pattern@.len() as int));
    true
}

/// The position at which `pattern` first occurs in `s`, if it occurs.
pub open spec fn first_match(s: Seq<char>, pattern: Seq<char>) -> Option<int>
    decreases s.len(),
{
    if pattern.is_prefix_of(s) {
        Some(0)
    } else if s.len() == 0 {
        None
    } else {
        match first_match(s.drop_first(), pattern) {
            Some(i) => Some(i + 1),
            None => None,
        }
    }
}

/// What follows the first occurrence of `pattern` in `s`, if it occurs.
pub open spec fn text_after(s: Seq<char>, pattern: Seq<char>) -> Option<Seq<char>> {
    match first_match(s, pattern) {
        Some(i) => Some(s.skip(i + pattern.len())),
        None => None,
    }
}

/// A first match lies inside the text, shows the pattern, and has no match before it.
pub proof fn lemma_first_match(s: Seq<char>, pattern: Seq<char>)
    ensures
        match first_match(s, pattern) {
            Some(i) => {
                &&& 0 <= i <= s.len() - pattern.len()
                &&& pattern.is_prefix_of(s.skip(i))
                &&& forall|k: int| 0 <= k < i ==> !pattern.is_prefix_of(#[trigger] s.skip(k))
            },
            None => forall|k: int|
                0 <= k <= s.len() ==> !pattern.is_prefix_of(#[trigger] s.skip(k)),
        },
    decreases s.len(),
{
    assert(s.skip(0) == s);
    if !pattern.is_prefix_of(s) && s.len() > 0 {
        let rest = s.drop_first();
        lemma_first_match(rest, pattern);
        assert forall|k: int| 0 < k <= s.len() implies s.skip(k) == #[trigger] rest.skip(k - 1) by {
            assert(s.skip(k) =~= rest.skip(k - 1));
        }
        match first_match(rest, pattern) {
            Some(i) => {
                assert(s.skip(i + 1) == rest.skip(i));
                assert forall|k: int| 0 <= k < i + 1 implies !pattern.is_prefix_of(
                    #[trigger] s.skip(k),
                ) by {
                    if k > 0 {
                        assert(s.skip(k) == rest.skip(k - 1));
                    }
                }
            },
            None => {
                assert forall|k: int| 0 <= k <= s.len() implies !pattern.is_prefix_of(
                    #[trigger] s.skip(k),
                ) by {
                    if k > 0 {
                        assert(s.skip(k) == rest.skip(k - 1));
                    }
                }
            },
        }
    }
}

/// What follows the first occurrence of `pattern` in `s`, if it occurs.
pub fn after_first(s: &str, pattern: &str) -> (res: Option<String>)
    ensures
        match res {
            Some(tail) => text_after(s@, pattern@) == Some(tail@),
            None => text_after(s@, pattern@) is None,
        },
{
    let x = chars_of(s);
    let p = chars_of(pattern);
    proof {
        lemma_first_match(s@, pattern@);
    }
    let mut i: usize = 0;
    while i < x.len()
        invariant
            i <= x.len(),
            x@ == s@,
            p@ == pattern@,
            forall|k: int| 0 <= k < i ==> !p@.is_prefix_of(#[trigger] x@.skip(k)),
            match first_match(s@, pattern@) {
                Some(at) => {
                    &&& 0 <= at <= s@.len() - pattern@.len()
                    &&& pattern@.is_prefix_of(s@.skip(at))
                    &&& forall|k: int| 0 <= k < at ==> !pattern@.is_prefix_of(#[trigger] s@.skip(k))
                },
                None => forall|k: int|
                    0 <= k <= s@.len() ==> !pattern@.is_prefix_of(#[trigger] s@.skip(k)),
            },
        decreases x.len() - i,
    {
        if matches_at(x.as_slice(), p.as_slice(), i) {
            assert(first_match(s@, pattern@) == Some(i as int));
            let from: usize = i + p.len();
            assert(x@.subrange(from as int, x@.len() as int) == s@.skip(from as int));
            return Some(string_of(slice_subrange(x.as_slice(), from, x.len())));
        }
        i = i + 1;
    }
    if p.len() == 0 {
        assert(p@.is_prefix_of(x@.skip(i as int)));
        assert(first_match(s@, pattern@) == Some(i as int));
        assert(s@.skip(i as int) == Seq::<char>::empty());
        return Some(String::new());
    }
    None
}

/// The position of the first `c` in `s`; the length of `s` where there is none.
pub open spec fn first_index(s: Seq<char>, c: char) -> int
    decreases s.len(),
{
    if s.len() == 0 || s.first() == c {
        0
    } else {
        1 + first_index(s.drop_first(), c)
    }
}

/// The position of the last `c` in `s`; `-1` where there is none.
pub open spec fn last_index(s: Seq<char>, c: char) -> int
    decreases s.len(),
{
    if s.len() == 0 || s.last() == c {
        s.len() - 1
    } else {
        last_index(s.drop_last(), c)
    }
}

/// `first_index` names the least position that holds `c`.
pub proof fn lemma_first_index(s: Seq<char>, c: char)
    ensures
        0 <= first_index(s, c) <= s.len(),
        first_index(s, c) < s.len() ==> s[first_index(s, c)] == c,
        forall|k: int| 0 <= k < first_index(s, c) ==> s[k] != c,
    decreases s.len(),
{
    if s.len() > 0 && s.first() != c {
        let rest = s.drop_first();
        lemma_first_index(rest, c);
        assert forall|k: int| 0 <= k < first_index(s, c) implies s[k] != c by {
            if k > 0 {
                assert(s[k] == rest[k - 1]);
            }
        }
    }
}

/// `last_index` names the greatest position that holds `c`.
pub proof fn lemma_last_index(s: Seq<char>, c: char)
    ensures
        -1 <= last_index(s, c) < s.len(),
        last_index(s, c) >= 0 ==> s[last_index(s, c)] == c,
        forall|k: int| last_index(s, c) < k < s.len() ==> s[k] != c,
    decreases s.len(),
{
    if s.len() > 0 && s.last() != c {
        let rest = s.drop_last();
        lemma_last_index(rest, c);
        assert forall|k: int| last_index(s, c) < k < s.len() implies s[k] != c by {
            if k < s.len() - 1 {
                assert(s[k] == rest[k]);
            }
        }
    }
}

/// The position of the first `c` in `s`; the length of `s` where there is none.
pub fn find_char(s: &[char], c: char) -> (res: usize)
    ensures
        res == first_index(s@, c),
        res <= s@.len(),
{
    proof {
        lemma_first_index(s@, c);
    }
    let mut i: usize = 0;
    while i < s.len() && s[i] != c
        invariant
            i <= s.len(),
            forall|k: int| 0 <= k < i ==> s@[k] != c,
        decreases s.len() - i,
    {
        i = i + 1;
    }
    i
}

/// The position of the last `c` in `s`, if there is one.
pub fn rfind_char(s: &[char], c: char) -> (res: Option<usize>)
    ensures
        match res {
            Some(i) => i == last_index(s@, c) && i < s@.len(),
            None => last_index(s@, c) == -1,
        },
{
    proof {
        lemma_last_index(s@, c);
    }
    let mut i: usize = s.len();
    while i > 0
        invariant
            i <= s.len(),
            forall|k: int| i <= k < s@.len() ==> s@[k] != c,
            -1 <= last_index(s@, c) < s@.len(),
            last_index(s@, c) >= 0 ==> s@[last_index(s@, c)] == c,
            forall|k: int| last_index(s@, c) < k < s@.len() ==> s@[k] != c,
        decreases i,
    {
        i = i - 1;
        if s[i] == c {
            return Some(i);
        }
    }
    None
}

/// `s` without one carriage return at its end.
pub open spec fn without_carriage_return(s: Seq<char>) -> Seq<char> {
    if s.len() > 0 && s.last() == '\r' {
        s.drop_last()
    } else {
        s
    }
}

/// The lines of `s`. A line ends with a line feed, which may follow a carriage return;
/// neither belongs to the line, and no line follows a line feed at the very end.
pub open spec fn lines(s: Seq<char>) -> Seq<Seq<char>>
    decreases s.len(),
{
    let end = first_index(s, '\n');
    if s.len() == 0 {
        Seq::empty()
    } else if 0 <= end < s.len() {
        seq![without_carriage_return(s.take(end))] + lines(s.skip(end + 1))
    } else {
        seq![s]
    }
}

/// The texts of a sequence of strings.
pub open spec fn texts(strings: Seq<String>) -> Seq<Seq<char>> {
    strings.map_values(|s: String| s@)
}

/// The lines of `s`.
pub fn split_lines(s: &str) -> (res: Vec<String>)
    ensures
        texts(res@) == lines(s@),
{
    let chars = chars_of(s);
    let mut res: Vec<String> = Vec::new();
    let mut from: usize = 0;
    assert(chars@.skip(0) == s@);
    assert(texts(res@) + lines(s@) == lines(s@));
    while from < chars.len()
        invariant
            from <= chars.len(),
            texts(res@) + lines(chars@.skip(from as int)) == lines(s@),
        decreases chars.len() - from,
    {
        let rest = slice_subrange(chars.as_slice(), from, chars.len());
        assert(rest@ == chars@.skip(from as int));
        let ghost before = res@;
        let end = find_char(rest, '\n');
        if end == rest.len() {
            res.push(string_of(rest));
            from = chars.len();
            assert(texts(res@) == texts(before).push(rest@));
            assert(lines(chars@.skip(from as int)) == Seq::<Seq<char>>::empty());
            assert(texts(res@) + lines(chars@.skip(from as int)) =~= texts(before) + seq![rest@]);
        } else {
            let mut stop: usize = end;
            assert(rest@.subrange(0, end as int) == rest@.take(end as int));
            if end > 0 && rest[end - 1] == '\r' {
                stop = end - 1;
                assert(rest@.subrange(0, stop as int) == rest@.take(end as int).drop_last());
            }
            let line = string_of(slice_subrange(rest, 0, stop));
            assert(line@ == without_carriage_return(rest@.take(end as int)));
            res.push(line);
            from = from + end + 1;
            assert(rest@.skip(end + 1) == chars@.skip(from as int));
            assert(texts(res@) == texts(before).push(line@));
            assert(texts(res@) + lines(chars@.skip(from as int)) =~= texts(before) + (seq![line@]
                + lines(chars@.skip(from as int))));
        }
    }
    assert(chars@.skip(from as int) == Seq::<char>::empty());
    assert(texts(res@) + lines(chars@.skip(from as int)) =~= texts(res@));
    res
}

/// `parts` one after the other, with `separator` between neighbours.
pub open spec fn join(parts: Seq<Seq<char>>, separator: Seq<char>) -> Seq<char>
    decreases parts.len(),
{
    if parts.len() == 0 {
        Seq::empty()
    } else if parts.len() == 1 {
        parts[0]
    } else {
        join(parts.drop_last(), separator) + separator + parts.last()
    }
}

/// The strings from position `from` on, with `separator` between neighbours.
pub fn join_from(parts: &Vec<String>, from: usize, separator: &str) -> (res: String)
    requires
        from <= parts@.len(),
    ensures
        res@ == join(texts(parts@).skip(from as int), separator@),
{
    let mut res = String::new();
    let mut i: usize = from;
    let ghost all = texts(parts@).skip(from as int);
    assert(all.take(0) == Seq::<Seq<char>>::empty());
    while i < parts.len()
        invariant
            from <= i <= parts.len(),
            all == texts(parts@).skip(from as int),
            res@ == join(all.take(i - from), separator@),
        decreases parts.len() - i,
    {
        let ghost done = all.take(i - from);
        let ghost next = all.take(i + 1 - from);
        assert(next.drop_last() == done);
        assert(next.last() == parts@[i as int]@);
        if i > from {
            res.append(separator);
        }
        res.append(parts[i].as_str());
        assert(i == from ==> next =~= seq![parts@[i as int]@]);
        assert(res@ =~= join(next, separator@));
        i = i + 1;
    }
    assert(all.take(all.len() as int) == all);
    res
}

/// The first `max_chars` characters of `s`, without white space at their end and followed
/// by three dots; `s` itself where it is no longer than `max_chars`.
pub open spec fn shortened(s: Seq<char>, max_chars: nat) -> Seq<char> {
    if s.len() > max_chars {
        trim_end(s.take(max_chars as int)) + "..."@
    } else {
        s
    }
}

/// Cuts `s` to at most `max_chars` characters and marks a cut with three dots.
pub fn truncate_with_ellipsis(s: &str, max_chars: usize) -> (res: String)
    ensures
        res@ == shortened(s@, max_chars as nat),
{
    let chars = chars_of(s);
    if chars.len() > max_chars {
        assert(chars@.subrange(0, max_chars as int) == s@.take(max_chars as int));
        let mut res = string_of(trim_end_chars(slice_subrange(chars.as_slice(), 0, max_chars)));
        res.append("...");
        res
    } else {
        string_of(chars.as_slice())
    }
}

/// The decimal digit `d`.
pub open spec fn digit(d: nat) -> char {
    ('0' as u32 + d) as char
}

/// `n` in decimal notation.
pub open spec fn decimal(n: nat) -> Seq<char>
    decreases n,
{
    if n < 10 {
        seq![digit(n)]
    } else {
        decimal(n / 10).push(digit(n % 10))
    }
}

/// `n` in decimal notation.
pub fn decimal_text(n: u64) -> (res: String)
    ensures
        res@ == decimal(n as nat),
    decreases n,
{
    let last: u8 = (n % 10) as u8;
    let mut res = String::new();
    if n >= 10 {
        res = decimal_text(n / 10);
    }
    res.push((48u8 + last) as char);
    res
}

/// What `str::to_uppercase` makes of a text, by Unicode case mapping.
pub uninterp spec fn unicode_uppercase(s: Seq<char>) -> Seq<char>;

/// Calls `str::to_uppercase`, whose result depends on the text alone. What Unicode maps a
/// given text to is left to the name.
#[verifier::external_body]
fn to_unicode_uppercase(s: &str) -> (res: String)
    ensures
        res@ == unicode_uppercase(s@),
{
    s.to_uppercase()
}

/// `s` in upper case: letter by letter where it is ASCII, by Unicode case mapping elsewhere.
pub open spec fn uppercase(s: Seq<char>) -> Seq<char> {
    if all_ascii(s) {
        s.map_values(|c: char| ascii_upper(c))
    } else {
        unicode_uppercase(s)
    }
}

/// `s` in upper case.
pub fn to_upper(s: &str) -> (res: String)
    ensures
        res@ == uppercase(s@),
{
    let chars = chars_of(s);
    let mut res = String::new();
    let mut i: usize = 0;
    while i < chars.len()
        invariant
            i <= chars.len(),
            chars@ == s@,
            forall|k: int| 0 <= k < i ==> #[trigger] s@[k] <= '\u{7f}',
            res@ == s@.take(i as int).map_values(|c: char| ascii_upper(c)),
        decreases chars.len() - i,
    {
        if chars[i] > '\u{7f}' {
            return to_unicode_uppercase(s);
        }
        res.push(to_ascii_upper(chars[i]));
        i = i + 1;
        assert(res@ =~= s@.take(i as int).map_values(|c: char| ascii_upper(c)));
    }
    assert(s@.take(s@.len() as int) == s@);
    res
}

/// The text of an optional string.
pub open spec fn opt_text(s: Option<String>) -> Option<Seq<char>> {
    match s {
        Some(s) => Some(s@),
        None => None,
    }
}

/// The text of an optional string slice.
pub open spec fn opt_str_text(s: Option<&str>) -> Option<Seq<char>> {
    match s {
        Some(s) => Some(s@),
        None => None,
    }
}

} // verus!
