//! Text as sequences of characters: what is said of it, and the functions that cut, search and
//! print it.

use vstd::prelude::*;
use vstd::slice::{slice_subrange, slice_to_vec};

verus! {

/// The characters with the Unicode property `White_Space`.
pub open spec fn white_space(c: char) -> bool {
    ||| '\u{9}' <= c <= '\u{d}'
    ||| c == ' '
    ||| c == '\u{85}'
    ||| c == '\u{a0}'
    ||| c == '\u{1680}'
    ||| '\u{2000}' <= c <= '\u{200a}'
    ||| c == '\u{2028}'
    ||| c == '\u{2029}'
    ||| c == '\u{202f}'
    ||| c == '\u{205f}'
    ||| c == '\u{3000}'
}

/// `char::is_whitespace`: whether the character has the property `White_Space`.
pub assume_specification[ char::is_whitespace ](c: char) -> (result: bool)
    ensures
        result == white_space(c),
;

/// `String::push`: appends the character.
pub assume_specification[ String::push ](text: &mut String, c: char)
    ensures
        final(text)@ == old(text)@.push(c),
;

/// The position of the first `c` in `s`, or the length of `s` where there is none.
pub open spec fn first_index(s: Seq<char>, c: char) -> nat
    decreases s.len(),
{
    if s.len() == 0 || s[0] == c {
        0
    } else {
        1 + first_index(s.drop_first(), c)
    }
}

/// What `first_index` finds.
pub proof fn lemma_first_index(s: Seq<char>, c: char)
    ensures
        first_index(s, c) <= s.len(),
        first_index(s, c) < s.len() ==> s[first_index(s, c) as int] == c,
        forall|i: int| 0 <= i < first_index(s, c) ==> s[i] != c,
    decreases s.len(),
{
    if s.len() > 0 && s[0] != c {
        let rest = s.drop_first();
        lemma_first_index(rest, c);
        assert forall|i: int| 0 <= i < first_index(s, c) implies s[i] != c by {
            if i > 0 {
                assert(rest[i - 1] == s[i]);
            }
        }
    }
}

/// Only the first position of `c` has no `c` before it.
pub proof fn lemma_first_index_unique(s: Seq<char>, c: char, at: nat)
    requires
        at <= s.len(),
        at < s.len() ==> s[at as int] == c,
        forall|i: int| 0 <= i < at ==> s[i] != c,
    ensures
        first_index(s, c) == at,
{
    lemma_first_index(s, c);
    if at < first_index(s, c) {
        assert(s[at as int] != c);
    } else if first_index(s, c) < at {
        assert(s[first_index(s, c) as int] != c);
    }
}

/// A line without the carriage return that belongs to its line ending.
pub open spec fn without_carriage_return(line: Seq<char>) -> Seq<char> {
    if line.len() > 0 && line.last() == '\r' {
        line.drop_last()
    } else {
        line
    }
}

/// The lines of a text. A line ends at `\n` or `\r\n`; the last line needs no ending, and without
/// one it keeps all its characters.
pub open spec fn lines(s: Seq<char>) -> Seq<Seq<char>>
    decreases s.len(),
{
    let end = first_index(s, '\n') as int;
    if s.len() == 0 {
        seq![]
    } else if end >= s.len() {
        seq![s]
    } else {
        seq![without_carriage_return(s.take(end))] + lines(s.skip(end + 1))
    }
}

/// How many characters of white space `s` starts with.
pub open spec fn leading_space(s: Seq<char>) -> nat
    decreases s.len(),
{
    if s.len() == 0 || !white_space(s[0]) {
        0
    } else {
        1 + leading_space(s.drop_first())
    }
}

/// How many characters `s` starts with before its first white space.
pub open spec fn leading_word(s: Seq<char>) -> nat
    decreases s.len(),
{
    if s.len() == 0 || white_space(s[0]) {
        0
    } else {
        1 + leading_word(s.drop_first())
    }
}

/// `s` without white space at its end.
pub open spec fn trim_end(s: Seq<char>) -> Seq<char>
    decreases s.len(),
{
    if s.len() == 0 || !white_space(s.last()) {
        s
    } else {
        trim_end(s.drop_last())
    }
}

/// `s` without white space at its beginning.
pub open spec fn trim_start(s: Seq<char>) -> Seq<char> {
    s.skip(leading_space(s) as int)
}

/// `s` without white space at either end.
pub open spec fn trimmed(s: Seq<char>) -> Seq<char> {
    trim_end(trim_start(s))
}

/// The second of the words of `s` that white space keeps apart.
pub open spec fn second_word(s: Seq<char>) -> Option<Seq<char>> {
    let first = trim_start(s);
    let rest = trim_start(first.skip(leading_word(first) as int));
    if rest.len() == 0 {
        None
    } else {
        Some(rest.take(leading_word(rest) as int))
    }
}

/// Whether `needle` occurs in `s`.
pub open spec fn occurs(s: Seq<char>, needle: Seq<char>) -> bool {
    exists|at: int| #[trigger] occurs_at(s, needle, at)
}

/// Whether `needle` stands in `s` at position `at`.
pub open spec fn occurs_at(s: Seq<char>, needle: Seq<char>, at: int) -> bool {
    0 <= at && at + needle.len() <= s.len() && s.subrange(at, at + needle.len()) == needle
}

/// The texts of strings.
pub open spec fn views(strings: Seq<String>) -> Seq<Seq<char>> {
    Seq::new(strings.len(), |i: int| strings[i]@)
}

/// How many characters of white space stand at the beginning.
pub proof fn lemma_leading_space(s: Seq<char>)
    ensures
        leading_space(s) <= s.len(),
        forall|i: int| 0 <= i < leading_space(s) ==> white_space(s[i]),
        leading_space(s) < s.len() ==> !white_space(s[leading_space(s) as int]),
    decreases s.len(),
{
    if s.len() > 0 && white_space(s[0]) {
        let rest = s.drop_first();
        lemma_leading_space(rest);
        assert forall|i: int| 0 <= i < leading_space(s) implies white_space(s[i]) by {
            if i > 0 {
                assert(rest[i - 1] == s[i]);
            }
        }
    }
}

proof fn lemma_leading_space_unique(s: Seq<char>, at: nat)
    requires
        at <= s.len(),
        forall|i: int| 0 <= i < at ==> white_space(s[i]),
        at < s.len() ==> !white_space(s[at as int]),
    ensures
        leading_space(s) == at,
{
    lemma_leading_space(s);
    if at < leading_space(s) {
        assert(white_space(s[at as int]));
    } else if leading_space(s) < at {
        assert(white_space(s[leading_space(s) as int]));
    }
}

/// How long the word at the beginning is.
pub proof fn lemma_leading_word(s: Seq<char>)
    ensures
        leading_word(s) <= s.len(),
        forall|i: int| 0 <= i < leading_word(s) ==> !white_space(s[i]),
        leading_word(s) < s.len() ==> white_space(s[leading_word(s) as int]),
    decreases s.len(),
{
    if s.len() > 0 && !white_space(s[0]) {
        let rest = s.drop_first();
        lemma_leading_word(rest);
        assert forall|i: int| 0 <= i < leading_word(s) implies !white_space(s[i]) by {
            if i > 0 {
                assert(rest[i - 1] == s[i]);
            }
        }
    }
}

/// Only one length leaves a word whole and stops at white space.
pub proof fn lemma_leading_word_unique(s: Seq<char>, at: nat)
    requires
        at <= s.len(),
        forall|i: int| 0 <= i < at ==> !white_space(s[i]),
        at < s.len() ==> white_space(s[at as int]),
    ensures
        leading_word(s) == at,
{
    lemma_leading_word(s);
    if at < leading_word(s) {
        assert(!white_space(s[at as int]));
    } else if leading_word(s) < at {
        assert(!white_space(s[leading_word(s) as int]));
    }
}

/// The characters of a string slice.
pub fn chars_of(text: &str) -> (chars: Vec<char>)
    ensures
        chars@ == text@,
{
    let mut chars: Vec<char> = Vec::new();
    for c in it: text.chars()
        invariant
            chars@ == it.seq().take(it.index() as int),
            it.seq() == text@,
    {
        chars.push(c);
    }
    chars
}

/// The string made of the characters from `from` up to `to`.
pub fn text_of(chars: &Vec<char>, from: usize, to: usize) -> (text: String)
    requires
        from <= to <= chars@.len(),
    ensures
        text@ == chars@.subrange(from as int, to as int),
{
    let mut text = String::new();
    let mut i: usize = from;
    while i < to
        invariant
            from <= i <= to <= chars@.len(),
            text@ == chars@.subrange(from as int, i as int),
        decreases to - i,
    {
        text.push(chars[i]);
        i = i + 1;
    }
    text
}

/// The position of the first `c` at or after `from`, or the number of characters.
pub fn find_from(chars: &Vec<char>, from: usize, c: char) -> (at: usize)
    requires
        from <= chars@.len(),
    ensures
        from <= at <= chars@.len(),
        at - from == first_index(chars@.skip(from as int), c),
{
    let mut i: usize = from;
    while i < chars.len() && chars[i] != c
        invariant
            from <= i <= chars@.len(),
            forall|j: int| from <= j < i ==> chars@[j] != c,
        decreases chars@.len() - i,
    {
        i = i + 1;
    }
    proof {
        lemma_first_index_unique(chars@.skip(from as int), c, (i - from) as nat);
    }
    i
}

/// Splits a text into its lines.
pub fn split_lines(text: &str) -> (result: Vec<String>)
    ensures
        views(result@) == lines(text@),
{
    let chars = chars_of(text);
    let mut result: Vec<String> = Vec::new();
    let mut start: usize = 0;
    assert(chars@.skip(0) == chars@);
    assert(views(result@) + lines(chars@) == lines(chars@));
    while start < chars.len()
        invariant
            chars@ == text@,
            start <= chars@.len(),
            views(result@) + lines(chars@.skip(start as int)) == lines(text@),
        decreases chars@.len() - start,
    {
        let end = find_from(&chars, start, '\n');
        let ghost rest = chars@.skip(start as int);
        let ghost before = result@;
        if end == chars.len() {
            result.push(text_of(&chars, start, end));
            assert(chars@.subrange(start as int, end as int) == rest);
            start = end;
            assert(views(result@) == views(before).push(rest));
            assert(lines(rest) == seq![rest]);
            assert(lines(chars@.skip(start as int)) == Seq::<Seq<char>>::empty());
        } else {
            let strip = end > start && chars[end - 1] == '\r';
            let line_end: usize = if strip {
                end - 1
            } else {
                end
            };
            result.push(text_of(&chars, start, line_end));
            proof {
                lemma_first_index(rest, '\n');
                let line = rest.take(end - start);
                if strip {
                    assert(line.last() == '\r');
                }
                assert(chars@.subrange(start as int, line_end as int) == without_carriage_return(
                    line,
                ));
                assert(views(result@) == views(before).push(without_carriage_return(line)));
                assert(rest.skip(end - start + 1) == chars@.skip(end + 1));
            }
            start = end + 1;
        }
    }
    assert(lines(chars@.skip(start as int)) == Seq::<Seq<char>>::empty());
    result
}

/// Where the text without white space at either end begins and stops.
fn trim_bounds(chars: &Vec<char>) -> (bounds: (usize, usize))
    ensures
        bounds.0 <= bounds.1 <= chars@.len(),
        chars@.subrange(bounds.0 as int, bounds.1 as int) == trimmed(chars@),
{
    let mut start: usize = 0;
    while start < chars.len() && chars[start].is_whitespace()
        invariant
            start <= chars@.len(),
            forall|i: int| 0 <= i < start ==> white_space(chars@[i]),
        decreases chars@.len() - start,
    {
        start = start + 1;
    }
    proof {
        lemma_leading_space_unique(chars@, start as nat);
    }
    let mut end: usize = chars.len();
    assert(chars@.subrange(start as int, end as int) == trim_start(chars@));
    while end > start && chars[end - 1].is_whitespace()
        invariant
            start <= end <= chars@.len(),
            trim_end(chars@.subrange(start as int, end as int)) == trimmed(chars@),
        decreases end,
    {
        assert(chars@.subrange(start as int, end as int).drop_last() == chars@.subrange(
            start as int,
            end - 1,
        ));
        end = end - 1;
    }
    (start, end)
}

/// The text without white space at either end.
pub fn trim(chars: &Vec<char>) -> (text: String)
    ensures
        text@ == trimmed(chars@),
{
    let (start, end) = trim_bounds(chars);
    text_of(chars, start, end)
}

/// Part of a vector of characters.
pub fn part(chars: &Vec<char>, from: usize, to: usize) -> (result: Vec<char>)
    requires
        from <= to <= chars@.len(),
    ensures
        result@ == chars@.subrange(from as int, to as int),
{
    slice_to_vec(slice_subrange(chars.as_slice(), from, to))
}

/// The end of the white space that starts at `from`.
fn skip_space(chars: &Vec<char>, from: usize) -> (at: usize)
    requires
        from <= chars@.len(),
    ensures
        from <= at <= chars@.len(),
        at - from == leading_space(chars@.skip(from as int)),
{
    let mut i: usize = from;
    while i < chars.len() && chars[i].is_whitespace()
        invariant
            from <= i <= chars@.len(),
            forall|j: int| from <= j < i ==> white_space(chars@[j]),
        decreases chars@.len() - i,
    {
        i = i + 1;
    }
    proof {
        lemma_leading_space_unique(chars@.skip(from as int), (i - from) as nat);
    }
    i
}

/// The end of the word that starts at `from`.
fn skip_word(chars: &Vec<char>, from: usize) -> (at: usize)
    requires
        from <= chars@.len(),
    ensures
        from <= at <= chars@.len(),
        at - from == leading_word(chars@.skip(from as int)),
{
    let mut i: usize = from;
    while i < chars.len() && !chars[i].is_whitespace()
        invariant
            from <= i <= chars@.len(),
            forall|j: int| from <= j < i ==> !white_space(chars@[j]),
        decreases chars@.len() - i,
    {
        i = i + 1;
    }
    proof {
        lemma_leading_word_unique(chars@.skip(from as int), (i - from) as nat);
    }
    i
}

/// Finds the second word of a text.
pub fn find_second_word(chars: &Vec<char>) -> (word: Option<Vec<char>>)
    ensures
        match word {
            Some(w) => second_word(chars@) == Some(w@),
            None => second_word(chars@) is None,
        },
{
    let first = skip_space(chars, 0);
    let first_end = skip_word(chars, first);
    let second = skip_space(chars, first_end);
    let second_end = skip_word(chars, second);
    proof {
        let s = chars@;
        assert(s.skip(0) == s);
        assert(s.skip(first as int).skip(first_end - first) == s.skip(first_end as int));
        assert(s.skip(first_end as int).skip(second - first_end) == s.skip(second as int));
        assert(s.skip(second as int).take(second_end - second) == s.subrange(
            second as int,
            second_end as int,
        ));
    }
    if second == chars.len() {
        None
    } else {
        Some(part(chars, second, second_end))
    }
}

/// Whether two texts are the same.
pub fn same_text(left: &str, right: &str) -> (result: bool)
    ensures
        result == (left@ == right@),
{
    let l = chars_of(left);
    let r = chars_of(right);
    if l.len() != r.len() {
        return false;
    }
    let mut i: usize = 0;
    while i < l.len()
        invariant
            i <= l@.len(),
            l@.len() == r@.len(),
            forall|j: int| 0 <= j < i ==> l@[j] == r@[j],
            l@ == left@,
            r@ == right@,
        decreases l@.len() - i,
    {
        if l[i] != r[i] {
            assert(l@[i as int] != r@[i as int]);
            return false;
        }
        i = i + 1;
    }
    assert(l@ == r@);
    true
}

/// Whether `needle` stands in `chars` at position `at`.
fn stands_at(chars: &Vec<char>, needle: &Vec<char>, at: usize) -> (result: bool)
    requires
        at <= chars@.len(),
    ensures
        result == occurs_at(chars@, needle@, at as int),
{
    if needle.len() > chars.len() - at {
        return false;
    }
    let mut i: usize = 0;
    while i < needle.len()
        invariant
            i <= needle@.len(),
            at + needle@.len() <= chars.len(),
            forall|j: int| 0 <= j < i ==> chars@[at + j] == needle@[j],
        decreases needle@.len() - i,
    {
        if chars[at + i] != needle[i] {
            assert(chars@.subrange(at as int, at + needle@.len())[i as int] != needle@[i as int]);
            return false;
        }
        i = i + 1;
    }
    assert(chars@.subrange(at as int, at + needle@.len()) == needle@);
    true
}

/// Whether a text begins with `prefix`.
pub fn starts_with(text: &str, prefix: &str) -> (result: bool)
    ensures
        result == prefix@.is_prefix_of(text@),
{
    let result = stands_at(&chars_of(text), &chars_of(prefix), 0);
    assert(prefix@.len() <= text@.len() ==> text@.subrange(0, prefix@.len() as int) == text@.take(
        prefix@.len() as int,
    ));
    result
}

/// Whether `needle` occurs in a text.
pub fn contains(text: &str, needle: &str) -> (result: bool)
    ensures
        result == occurs(text@, needle@),
{
    let chars = chars_of(text);
    let wanted = chars_of(needle);
    let mut at: usize = 0;
    loop
        invariant
            at <= chars@.len(),
            chars@ == text@,
            wanted@ == needle@,
            forall|i: int| 0 <= i < at ==> !#[trigger] occurs_at(chars@, wanted@, i),
        decreases chars@.len() - at,
    {
        if stands_at(&chars, &wanted, at) {
            return true;
        }
        if at == chars.len() {
            return false;
        }
        at = at + 1;
    }
}

/// Whether a text is empty.
pub fn is_empty(text: &str) -> (empty: bool)
    ensures
        empty == (text@.len() == 0),
{
    text.as_bytes().len() == 0
}

/// Trimming takes the white space at both ends of a text away and nothing else.
pub proof fn law_trimming_takes_white_space(front: Seq<char>, kept: Seq<char>, back: Seq<char>)
    requires
        forall|i: int| 0 <= i < front.len() ==> white_space(#[trigger] front[i]),
        forall|i: int| 0 <= i < back.len() ==> white_space(#[trigger] back[i]),
        kept.len() > 0 ==> !white_space(kept[0]) && !white_space(kept.last()),
    ensures
        trimmed(front + kept + back) == kept,
    decreases back.len(),
{
    let s = front + kept + back;
    if kept.len() == 0 {
        assert forall|i: int| 0 <= i < s.len() implies white_space(#[trigger] s[i]) by {
            if i < front.len() {
                assert(s[i] == front[i]);
            } else {
                assert(s[i] == back[i - front.len()]);
            }
        }
        lemma_leading_space_unique(s, s.len());
        assert(trim_start(s) == kept);
    } else {
        assert forall|i: int| 0 <= i < front.len() implies white_space(s[i]) by {
            assert(s[i] == front[i]);
        }
        assert(s[front.len() as int] == kept[0]);
        lemma_leading_space_unique(s, front.len());
        assert(trim_start(s) == kept + back);
        lemma_trim_end(kept, back);
    }
}

proof fn lemma_trim_end(kept: Seq<char>, back: Seq<char>)
    requires
        forall|i: int| 0 <= i < back.len() ==> white_space(#[trigger] back[i]),
        kept.len() > 0,
        !white_space(kept.last()),
    ensures
        trim_end(kept + back) == kept,
    decreases back.len(),
{
    if back.len() == 0 {
        assert(kept + back == kept);
    } else {
        assert((kept + back).drop_last() == kept + back.drop_last());
        assert((kept + back).last() == back[back.len() - 1]);
        lemma_trim_end(kept, back.drop_last());
    }
}

/// The second word of a text is what stands behind the first word and the white space that follows
/// it, up to the next white space.
pub proof fn law_white_space_parts_words(
    front: Seq<char>,
    first: Seq<char>,
    between: Seq<char>,
    second: Seq<char>,
    back: Seq<char>,
)
    requires
        forall|i: int| 0 <= i < front.len() ==> white_space(#[trigger] front[i]),
        first.len() > 0,
        forall|i: int| 0 <= i < first.len() ==> !white_space(#[trigger] first[i]),
        second.len() > 0 ==> between.len() > 0,
        forall|i: int| 0 <= i < between.len() ==> white_space(#[trigger] between[i]),
        forall|i: int| 0 <= i < second.len() ==> !white_space(#[trigger] second[i]),
        second.len() == 0 ==> back.len() == 0,
        back.len() > 0 ==> white_space(back[0]),
    ensures
        second_word(front + first + between + second + back) == if second.len() > 0 {
            Some(second)
        } else {
            None
        },
{
    let s = front + first + between + second + back;
    let words = first + between + second + back;
    assert forall|i: int| 0 <= i < front.len() implies white_space(s[i]) by {
        assert(s[i] == front[i]);
    }
    assert(s[front.len() as int] == first[0]);
    lemma_leading_space_unique(s, front.len());
    assert(trim_start(s) == words);
    assert forall|i: int| 0 <= i < first.len() implies !white_space(words[i]) by {
        assert(words[i] == first[i]);
    }
    if between.len() > 0 {
        assert(words[first.len() as int] == between[0]);
    }
    lemma_leading_word_unique(words, first.len());
    let rest = between + second + back;
    assert(words.skip(first.len() as int) == rest);
    assert forall|i: int| 0 <= i < between.len() implies white_space(rest[i]) by {
        assert(rest[i] == between[i]);
    }
    if second.len() > 0 {
        assert(rest[between.len() as int] == second[0]);
    }
    lemma_leading_space_unique(rest, between.len());
    let tail = second + back;
    assert(trim_start(rest) == tail);
    if second.len() > 0 {
        assert forall|i: int| 0 <= i < second.len() implies !white_space(tail[i]) by {
            assert(tail[i] == second[i]);
        }
        if back.len() > 0 {
            assert(tail[second.len() as int] == back[0]);
        }
        lemma_leading_word_unique(tail, second.len());
        assert(tail.take(second.len() as int) == second);
    }
}

/// A line ends at a line feed; one carriage return before it belongs to the ending. What stands behind
/// the last line feed is a line too, as it is, unless nothing stands there.
pub proof fn law_line_feeds_end_lines(line: Seq<char>, rest: Seq<char>)
    requires
        forall|i: int| 0 <= i < line.len() ==> line[i] != '\n',
    ensures
        line.len() == 0 || line.last() != '\r' ==> lines(line + seq!['\n'] + rest) == seq![line]
            + lines(rest),
        lines(line + seq!['\r', '\n'] + rest) == seq![line] + lines(rest),
        line.len() > 0 ==> lines(line) == seq![line],
        lines(Seq::<char>::empty()).len() == 0,
{
    let bare = line + seq!['\n'] + rest;
    assert forall|i: int| 0 <= i < line.len() implies bare[i] != '\n' by {
        assert(bare[i] == line[i]);
    }
    lemma_first_index_unique(bare, '\n', line.len());
    assert(bare.take(line.len() as int) == line);
    assert(bare.skip(line.len() as int + 1) == rest);
    let full = line + seq!['\r', '\n'] + rest;
    let end = line.len() + 1;
    assert forall|i: int| 0 <= i < end implies full[i] != '\n' by {
        if i < line.len() {
            assert(full[i] == line[i]);
        }
    }
    lemma_first_index_unique(full, '\n', end);
    assert(full.take(end as int) == line.push('\r'));
    assert(without_carriage_return(full.take(end as int)) == line);
    assert(full.skip(end as int + 1) == rest);
    lemma_first_index_unique(line, '\n', line.len());
}

} // verus!
