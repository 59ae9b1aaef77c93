//! Text as sequences of characters: white space, lines and words.

use vstd::prelude::*;
use vstd::utf8::{decode_utf8, valid_utf8};

verus! {

/// Appends one character to a string, as `String::push` documents.
pub assume_specification[ String::push ](s: &mut String, c: char)
    ensures
        final(s)@ == old(s)@.push(c),
;

/// What is said of bytes that are not UTF-8.
pub uninterp spec fn utf8_failure(bytes: Seq<u8>) -> Seq<char>;

/// `String::from_utf8`: the text that UTF-8 bytes stand for, or what the error says. It depends on
/// the bytes alone, and there is a text exactly where the bytes are UTF-8.
#[verifier::external_body]
pub(crate) fn text_of_utf8(bytes: Vec<u8>) -> (r: Result<String, String>)
    ensures
        r is Ok <==> valid_utf8(bytes@),
        r matches Ok(text) ==> text@ == decode_utf8(bytes@),
        r matches Err(failure) ==> failure@ == utf8_failure(bytes@),
{
    String::from_utf8(bytes).map_err(|e| format!("{}", e))
}

/// Whether Unicode counts a character as a letter or a number.
pub uninterp spec fn letter_or_number(c: char) -> bool;

/// `char::is_alphanumeric`: it depends on the character alone. Of ASCII it holds for the letters and
/// the digits; it holds for no white space, which is neither alphabetic nor numeric in Unicode.
pub assume_specification[ char::is_alphanumeric ](c: char) -> (r: bool)
    ensures
        r == letter_or_number(c),
        c <= '\u{7f}' ==> r == ('0' <= c <= '9' || 'A' <= c <= 'Z' || 'a' <= c <= 'z'),
        is_white_space(c) ==> !r,
;

/// Whether a character is a letter or a number: in ASCII the letters and the digits, and beyond it
/// what Unicode counts as one, which is never white space.
pub open spec fn is_letter_or_number(c: char) -> bool {
    if c <= '\u{7f}' {
        '0' <= c <= '9' || 'A' <= c <= 'Z' || 'a' <= c <= 'z'
    } else {
        letter_or_number(c) && !is_white_space(c)
    }
}

/// The characters with the Unicode property `White_Space`.
pub open spec fn is_white_space(c: char) -> bool {
    ||| '\u{9}' <= c <= '\u{d}'
    ||| c == ' '
    ||| c == '\u{85}'
    ||| c == '\u{a0}'
    ||| c == '\u{1680}'
    ||| '\u{2000}' <= c <= '\u{200a}'
    ||| c == '\u{2028}'
    ||| c == '\u{2029}'
    ||| c == '\u{202f}'
    ||| c == '\u{205f}'
    ||| c == '\u{3000}'
}

/// Whether a character has the Unicode property `White_Space`.
pub fn white_space(c: char) -> (b: bool)
    ensures
        b == is_white_space(c),
{
    ('\u{9}' <= c && c <= '\u{d}') || c == ' ' || c == '\u{85}' || c == '\u{a0}' || c == '\u{1680}'
        || ('\u{2000}' <= c && c <= '\u{200a}') || c == '\u{2028}' || c == '\u{2029}' || c
        == '\u{202f}' || c == '\u{205f}' || c == '\u{3000}'
}

/// The characters of a string, one by one.
pub(crate) fn chars_of(s: &str) -> (r: Vec<char>)
    ensures
        r@ == s@,
{
    let mut r: Vec<char> = Vec::new();
    for c in it: s.chars()
        invariant
            r@ == s@.take(it.index() as int),
            it.seq() == s@,
    {
        r.push(c);
    }
    r
}

/// The string that consists of the given characters.
pub(crate) fn string_of(chars: &[char]) -> (s: String)
    ensures
        s@ == chars@,
{
    let mut s = String::new();
    for i in 0..chars.len()
        invariant
            s@ == chars@.take(i as int),
    {
        s.push(chars[i]);
    }
    s
}

/// What is left of a text after the white space at its start.
pub open spec fn trim_start(s: Seq<char>) -> Seq<char>
    decreases s.len(),
{
    if s.len() > 0 && is_white_space(s.first()) {
        trim_start(s.drop_first())
    } else {
        s
    }
}

/// What is left of a text before the white space at its end.
pub open spec fn trim_end(s: Seq<char>) -> Seq<char>
    decreases s.len(),
{
    if s.len() > 0 && is_white_space(s.last()) {
        trim_end(s.drop_last())
    } else {
        s
    }
}

/// A text without the white space at its two ends.
pub open spec fn trimmed(s: Seq<char>) -> Seq<char> {
    trim_end(trim_start(s))
}

/// Whether a text has no white space at either end.
pub open spec fn is_trimmed(s: Seq<char>) -> bool {
    s.len() > 0 ==> !is_white_space(s.first()) && !is_white_space(s.last())
}

/// Whether no character of a text is white space.
pub open spec fn no_white_space(s: Seq<char>) -> bool {
    forall|i: int| 0 <= i < s.len() ==> !is_white_space(#[trigger] s[i])
}

/// Removes the white space at the two ends of a text.
pub fn trim(s: &str) -> (r: String)
    ensures
        r@ == trimmed(s@),
{
    let chars = chars_of(s);
    let mut from: usize = 0;
    assert(s@.skip(0) == s@);
    while from < chars.len() && white_space(chars[from])
        invariant
            chars@ == s@,
            from <= chars.len(),
            trim_start(s@.skip(from as int)) == trim_start(s@),
        decreases chars.len() - from,
    {
        assert(s@.skip(from as int).drop_first() == s@.skip(from + 1));
        from = from + 1;
    }
    let mut to: usize = chars.len();
    assert(s@.subrange(from as int, to as int) == s@.skip(from as int));
    while from < to && white_space(chars[to - 1])
        invariant
            chars@ == s@,
            from <= to <= chars.len(),
            trim_end(s@.subrange(from as int, to as int)) == trimmed(s@),
        decreases to,
    {
        assert(s@.subrange(from as int, to as int).drop_last() == s@.subrange(
            from as int,
            to - 1,
        ));
        to = to - 1;
    }
    let r = string_of(vstd::slice::slice_subrange(chars.as_slice(), from, to));
    assert(r@ == s@.subrange(from as int, to as int));
    r
}

/// The texts of a sequence of strings.
pub open spec fn texts(v: Seq<String>) -> Seq<Seq<char>> {
    v.map_values(|t: String| t@)
}

/// The place of the first line feed in a text, or its length if there is none.
pub open spec fn line_end(s: Seq<char>) -> nat
    decreases s.len(),
{
    if s.len() == 0 || s.first() == '\n' {
        0
    } else {
        1 + line_end(s.drop_first())
    }
}

/// A text without the carriage return that may stand at its end.
pub open spec fn without_return(s: Seq<char>) -> Seq<char> {
    if s.len() > 0 && s.last() == '\r' {
        s.drop_last()
    } else {
        s
    }
}

/// The lines of a text. A line ends with a line feed, or with a carriage return and a line feed;
/// neither belongs to the line. What follows the last line feed is a line if it is not empty.
pub open spec fn lines(s: Seq<char>) -> Seq<Seq<char>>
    decreases s.len(),
    via lines_decreases
{
    let end = line_end(s) as int;
    if s.len() == 0 {
        Seq::empty()
    } else if end >= s.len() {
        seq![s]
    } else {
        seq![without_return(s.take(end))] + lines(s.skip(end + 1))
    }
}

#[via_fn]
proof fn lines_decreases(s: Seq<char>) {
    lemma_line_end(s);
}

/// Up to its end a line holds no line feed; at its end stands one, if anything does.
pub proof fn lemma_line_end(s: Seq<char>)
    ensures
        line_end(s) <= s.len(),
        forall|i: int| 0 <= i < line_end(s) ==> s[i] != '\n',
        line_end(s) < s.len() ==> s[line_end(s) as int] == '\n',
    decreases s.len(),
{
    if s.len() > 0 && s.first() != '\n' {
        let t = s.drop_first();
        lemma_line_end(t);
        assert forall|i: int| 0 <= i < line_end(s) implies s[i] != '\n' by {
            if i > 0 {
                assert(t[i - 1] == s[i]);
            }
        }
    }
}

/// A line feed at `i` with none before it ends the first line.
pub proof fn lemma_line_end_at(s: Seq<char>, i: int)
    requires
        0 <= i <= s.len(),
        forall|j: int| 0 <= j < i ==> s[j] != '\n',
        i < s.len() ==> s[i] == '\n',
    ensures
        line_end(s) == i,
{
    lemma_line_end(s);
}

/// Splits a text into its lines.
pub fn split_lines(s: &str) -> (r: Vec<String>)
    ensures
        texts(r@) == lines(s@),
{
    let chars = chars_of(s);
    let mut r: Vec<String> = Vec::new();
    let mut from: usize = 0;
    proof {
        assert(s@.skip(0) == s@);
        assert(texts(r@) + lines(s@) == lines(s@));
    }
    while from < chars.len()
        invariant
            chars@ == s@,
            from <= chars.len(),
            texts(r@) + lines(s@.skip(from as int)) == lines(s@),
        decreases chars.len() - from,
    {
        let ghost rest = s@.skip(from as int);
        let ghost before = r@;
        let mut to: usize = from;
        while to < chars.len() && chars[to] != '\n'
            invariant
                chars@ == s@,
                from <= to <= chars.len(),
                forall|j: int| from <= j < to ==> s@[j] != '\n',
            decreases chars.len() - to,
        {
            to = to + 1;
        }
        proof {
            lemma_line_end_at(rest, to - from);
        }
        let mut stop: usize = to;
        if to < chars.len() && from < to && chars[to - 1] == '\r' {
            stop = to - 1;
        }
        let line = string_of(vstd::slice::slice_subrange(chars.as_slice(), from, stop));
        r.push(line);
        proof {
            assert(texts(r@) == texts(before).push(line@));
            if to < chars.len() {
                assert(rest.take(to - from) == s@.subrange(from as int, to as int));
                assert(without_return(rest.take(to - from)) == line@);
                assert(rest.skip(to - from + 1) == s@.skip(to + 1));
                assert(lines(rest) == seq![line@] + lines(s@.skip(to + 1)));
                assert(texts(r@) + lines(s@.skip(to + 1)) == texts(before) + lines(rest));
            } else {
                assert(line@ == rest);
                assert(lines(rest) == seq![line@]);
                assert(s@.skip(to as int).len() == 0);
                assert(texts(r@) + lines(s@.skip(to as int)) == texts(before) + lines(rest));
            }
        }
        if to < chars.len() {
            from = to + 1;
        } else {
            from = to;
        }
    }
    assert(lines(s@.skip(from as int)) == Seq::<Seq<char>>::empty());
    assert(texts(r@) + Seq::<Seq<char>>::empty() == texts(r@));
    r
}

/// The number of characters before the first white space of a text.
pub open spec fn word_end(s: Seq<char>) -> nat
    decreases s.len(),
{
    if s.len() == 0 || is_white_space(s.first()) {
        0
    } else {
        1 + word_end(s.drop_first())
    }
}

/// The words of a text: its longest runs of characters without white space.
pub open spec fn words(s: Seq<char>) -> Seq<Seq<char>>
    decreases s.len(),
    via words_decreases
{
    let t = trim_start(s);
    let end = word_end(t) as int;
    if t.len() == 0 {
        Seq::empty()
    } else {
        seq![t.take(end)] + words(t.skip(end))
    }
}

#[via_fn]
proof fn words_decreases(s: Seq<char>) {
    lemma_trim_start(s);
    lemma_word_end(trim_start(s));
}

/// Trimming the start leaves the end of the text, from its first character that is no white space.
pub proof fn lemma_trim_start(s: Seq<char>)
    ensures
        trim_start(s).len() <= s.len(),
        trim_start(s) == s.skip(s.len() - trim_start(s).len()),
        trim_start(s).len() > 0 ==> !is_white_space(trim_start(s).first()),
        forall|i: int| 0 <= i < s.len() - trim_start(s).len() ==> is_white_space(#[trigger] s[i]),
    decreases s.len(),
{
    if s.len() > 0 && is_white_space(s.first()) {
        let t = s.drop_first();
        lemma_trim_start(t);
        let k = t.len() - trim_start(t).len();
        assert(t.skip(k) == s.skip(k + 1));
        assert forall|i: int| 0 <= i < s.len() - trim_start(s).len() implies is_white_space(
            #[trigger] s[i],
        ) by {
            if i > 0 {
                assert(t[i - 1] == s[i]);
            }
        }
    } else {
        assert(s.skip(0) == s);
    }
}

/// Trimming the end leaves the start of the text, up to its last character that is no white space.
pub proof fn lemma_trim_end(s: Seq<char>)
    ensures
        trim_end(s).len() <= s.len(),
        trim_end(s) == s.take(trim_end(s).len() as int),
        trim_end(s).len() > 0 ==> !is_white_space(trim_end(s).last()),
    decreases s.len(),
{
    if s.len() > 0 && is_white_space(s.last()) {
        let t = s.drop_last();
        lemma_trim_end(t);
        assert(t.take(trim_end(t).len() as int) == s.take(trim_end(t).len() as int));
    } else {
        assert(s.take(s.len() as int) == s);
    }
}

/// A trimmed text has no white space at either end and is a part of the text that was trimmed.
pub proof fn lemma_trimmed(s: Seq<char>)
    ensures
        is_trimmed(trimmed(s)),
        exists|a: int, b: int|
            0 <= a <= b <= s.len() && #[trigger] s.subrange(a, b) == trimmed(s),
        forall|i: int| 0 <= i < trimmed(s).len() ==> s.contains(#[trigger] trimmed(s)[i]),
{
    lemma_trim_start(s);
    let t = trim_start(s);
    lemma_trim_end(t);
    let a = s.len() - t.len();
    let b = a + trimmed(s).len();
    assert(s.subrange(a, b) == trimmed(s));
    assert forall|i: int| 0 <= i < trimmed(s).len() implies s.contains(#[trigger] trimmed(s)[i]) by {
        assert(s[a + i] == trimmed(s)[i]);
    }
}

/// Trimming changes nothing exactly where there is no white space at either end.
pub proof fn lemma_trimmed_fixed(s: Seq<char>)
    ensures
        trimmed(s) == s <==> is_trimmed(s),
{
    lemma_trimmed(s);
}

/// White space behind a trimmed text is what trimming takes away.
pub proof fn lemma_trim_behind(s: Seq<char>, space: Seq<char>)
    requires
        is_trimmed(s),
        s.len() > 0,
        forall|i: int| 0 <= i < space.len() ==> is_white_space(#[trigger] space[i]),
    ensures
        trimmed(s + space) == s,
    decreases space.len(),
{
    if space.len() == 0 {
        assert(s + space == s);
    } else {
        let t = s + space;
        assert(t.drop_last() == s + space.drop_last());
        assert(is_white_space(space[space.len() - 1]));
        assert(trim_start(t) == t);
        assert(trim_start(t.drop_last()) == t.drop_last());
        lemma_trim_behind(s, space.drop_last());
    }
}

/// Trimming twice is trimming once.
pub proof fn law_trim_twice(s: Seq<char>)
    ensures
        trimmed(trimmed(s)) == trimmed(s),
{
    lemma_trimmed(s);
    lemma_trimmed_fixed(trimmed(s));
}

/// The characters before the end of a word are no white space; at its end stands one, if anything.
pub proof fn lemma_word_end(s: Seq<char>)
    ensures
        word_end(s) <= s.len(),
        forall|i: int| 0 <= i < word_end(s) ==> !is_white_space(#[trigger] s[i]),
        word_end(s) < s.len() ==> is_white_space(s[word_end(s) as int]),
        s.len() > 0 && !is_white_space(s.first()) ==> word_end(s) > 0,
    decreases s.len(),
{
    if s.len() > 0 && !is_white_space(s.first()) {
        let t = s.drop_first();
        lemma_word_end(t);
        assert forall|i: int| 0 <= i < word_end(s) implies !is_white_space(#[trigger] s[i]) by {
            if i > 0 {
                assert(t[i - 1] == s[i]);
            }
        }
    }
}

/// Every word of a text is non-empty and holds no white space.
pub proof fn law_words(s: Seq<char>)
    ensures
        forall|i: int|
            0 <= i < words(s).len() ==> (#[trigger] words(s)[i]).len() > 0 && no_white_space(
                words(s)[i],
            ),
    decreases s.len(),
{
    lemma_trim_start(s);
    let t = trim_start(s);
    lemma_word_end(t);
    if t.len() > 0 {
        let end = word_end(t) as int;
        law_words(t.skip(end));
        assert forall|i: int| 0 <= i < words(s).len() implies (#[trigger] words(s)[i]).len() > 0
            && no_white_space(words(s)[i]) by {
            if i == 0 {
                assert(words(s)[0] == t.take(end));
            } else {
                assert(words(s)[i] == words(t.skip(end))[i - 1]);
            }
        }
    }
}

/// Splits a text into its words.
pub fn split_words(s: &str) -> (r: Vec<String>)
    ensures
        texts(r@) == words(s@),
{
    let chars = chars_of(s);
    let mut r: Vec<String> = Vec::new();
    let mut from: usize = 0;
    proof {
        assert(s@.skip(0) == s@);
        assert(texts(r@) + words(s@) == words(s@));
    }
    while from < chars.len()
        invariant
            chars@ == s@,
            from <= chars.len(),
            texts(r@) + words(s@.skip(from as int)) == words(s@),
        decreases chars.len() - from,
    {
        let ghost rest = s@.skip(from as int);
        let ghost before = r@;
        if white_space(chars[from]) {
            proof {
                assert(rest.drop_first() == s@.skip(from + 1));
                assert(trim_start(rest) == trim_start(rest.drop_first()));
                assert(words(rest) == words(s@.skip(from + 1)));
            }
            from = from + 1;
        } else {
            let mut to: usize = from;
            while to < chars.len() && !white_space(chars[to])
                invariant
                    chars@ == s@,
                    from <= to <= chars.len(),
                    forall|j: int| from <= j < to ==> !is_white_space(s@[j]),
                decreases chars.len() - to,
            {
                to = to + 1;
            }
            let word = string_of(vstd::slice::slice_subrange(chars.as_slice(), from, to));
            r.push(word);
            proof {
                lemma_word_end(rest);
                let end = word_end(rest) as int;
                assert(end == to - from) by {
                    if end < to - from {
                        assert(rest[end] == s@[from + end]);
                    }
                    if end > to - from {
                        assert(rest[to - from] == s@[to as int]);
                    }
                }
                assert(trim_start(rest) == rest);
                assert(rest.take(end) == word@);
                assert(rest.skip(end) == s@.skip(to as int));
                assert(texts(r@) == texts(before).push(word@));
                assert(texts(r@) + words(s@.skip(to as int)) == texts(before) + words(rest));
            }
            from = to;
        }
    }
    assert(trim_start(s@.skip(from as int)).len() == 0);
    assert(words(s@.skip(from as int)) == Seq::<Seq<char>>::empty());
    assert(texts(r@) + Seq::<Seq<char>>::empty() == texts(r@));
    r
}

/// What follows a prefix in a text that begins with it.
pub open spec fn after_prefix(s: Seq<char>, prefix: Seq<char>) -> Option<Seq<char>> {
    if prefix.len() <= s.len() && s.take(prefix.len() as int) == prefix {
        Some(s.skip(prefix.len() as int))
    } else {
        None
    }
}

/// Removes a prefix from a text that begins with it.
pub fn strip_prefix(s: &str, prefix: &str) -> (r: Option<String>)
    ensures
        match r {
            Some(rest) => after_prefix(s@, prefix@) == Some(rest@),
            None => after_prefix(s@, prefix@) is None,
        },
{
    let chars = chars_of(s);
    let start = chars_of(prefix);
    if chars.len() < start.len() {
        return None;
    }
    for i in 0..start.len()
        invariant
            chars@ == s@,
            start@ == prefix@,
            start.len() <= chars.len(),
            forall|j: int| 0 <= j < i ==> s@[j] == prefix@[j],
    {
        if chars[i] != start[i] {
            assert(s@.take(prefix@.len() as int)[i as int] != prefix@[i as int]);
            return None;
        }
    }
    assert(s@.take(prefix@.len() as int) == prefix@);
    let rest = string_of(vstd::slice::slice_subrange(chars.as_slice(), start.len(), chars.len()));
    assert(rest@ == s@.skip(prefix@.len() as int));
    Some(rest)
}

/// A text without line feeds, then a carriage return and a line feed, is a line of its own.
pub proof fn lemma_first_line(line: Seq<char>, rest: Seq<char>)
    requires
        !line.contains('\n'),
    ensures
        lines(line + seq!['\r', '\n'] + rest) == seq![line] + lines(rest),
{
    let s = line + seq!['\r', '\n'] + rest;
    let end = line.len() + 1int;
    assert forall|j: int| 0 <= j < end implies s[j] != '\n' by {
        if j < line.len() {
            assert(s[j] == line[j]);
        }
    }
    lemma_line_end_at(s, end);
    assert(s.take(end).drop_last() == line);
    assert(s.skip(end + 1) == rest);
}

/// No line of a text holds a line feed.
pub proof fn law_lines(s: Seq<char>)
    ensures
        forall|i: int| 0 <= i < lines(s).len() ==> !(#[trigger] lines(s)[i]).contains('\n'),
    decreases s.len(),
{
    lemma_line_end(s);
    let end = line_end(s) as int;
    if s.len() > 0 {
        if end >= s.len() {
            assert(lines(s) == seq![s]);
        } else {
            let rest = s.skip(end + 1);
            law_lines(rest);
            let line = without_return(s.take(end));
            assert(!line.contains('\n')) by {
                assert forall|j: int| 0 <= j < line.len() implies line[j] != '\n' by {
                    assert(line[j] == s[j]);
                }
            }
            assert forall|i: int| 0 <= i < lines(s).len() implies !(#[trigger] lines(s)[i]).contains(
            '\n') by {
                if i > 0 {
                    assert(lines(s)[i] == lines(rest)[i - 1]);
                }
            }
        }
    }
}

/// White space in front of a text is what trimming its start takes away.
proof fn lemma_trim_before(space: Seq<char>, s: Seq<char>)
    requires
        forall|i: int| 0 <= i < space.len() ==> is_white_space(#[trigger] space[i]),
    ensures
        trim_start(space + s) == trim_start(s),
    decreases space.len(),
{
    if space.len() == 0 {
        assert(space + s == s);
    } else {
        assert(is_white_space(space[0]));
        assert((space + s).drop_first() == space.drop_first() + s);
        lemma_trim_before(space.drop_first(), s);
    }
}

/// Trimming takes away the white space on both sides of a text, and nothing else: what stands between
/// them, from a character that is no white space to another, or nothing, is the result.
pub proof fn law_trim(before: Seq<char>, core: Seq<char>, after: Seq<char>)
    requires
        forall|i: int| 0 <= i < before.len() ==> is_white_space(#[trigger] before[i]),
        forall|i: int| 0 <= i < after.len() ==> is_white_space(#[trigger] after[i]),
        core.len() > 0 ==> !is_white_space(core[0]) && !is_white_space(core[core.len() - 1]),
    ensures
        trimmed(before + core + after) == core,
{
    assert(before + core + after == before + (core + after));
    lemma_trim_before(before, core + after);
    if core.len() == 0 {
        assert(core + after == after);
        let none = Seq::<char>::empty();
        assert(after + none == after);
        lemma_trim_before(after, none);
    } else {
        assert(trim_start(core + after) == core + after);
        lemma_trim_behind(core, after);
    }
}

/// A line feed ends a line, and so does a carriage return with a line feed behind it; what follows is
/// made of lines in the same way. A text without a line feed is one line, or none if it is empty.
pub proof fn law_lines_of(line: Seq<char>, rest: Seq<char>)
    requires
        forall|i: int| 0 <= i < line.len() ==> #[trigger] line[i] != '\n',
    ensures
        line.len() > 0 && line[line.len() - 1] == '\r' ==> lines(line + seq!['\n'] + rest) == seq![
            line.take(line.len() - 1),
        ] + lines(rest),
        !(line.len() > 0 && line[line.len() - 1] == '\r') ==> lines(line + seq!['\n'] + rest)
            == seq![line] + lines(rest),
        line.len() > 0 ==> lines(line) == seq![line],
        line.len() == 0 ==> lines(line).len() == 0,
{
    let s = line + seq!['\n'] + rest;
    let end = line.len() as int;
    assert forall|j: int| 0 <= j < end implies s[j] != '\n' by {
        assert(s[j] == line[j]);
    }
    lemma_line_end_at(s, end);
    assert(s.take(end) == line);
    assert(s.skip(end + 1) == rest);
    assert(line.drop_last() == line.take(end - 1) || end == 0);
    lemma_line_end_at(line, end);
}

/// A run of characters without white space is a word, whatever white space stands before it, and what
/// follows it is made of words in the same way. White space alone holds no word.
pub proof fn law_words_of(space: Seq<char>, word: Seq<char>, rest: Seq<char>)
    requires
        forall|i: int| 0 <= i < space.len() ==> is_white_space(#[trigger] space[i]),
        word.len() > 0,
        forall|i: int| 0 <= i < word.len() ==> !is_white_space(#[trigger] word[i]),
        rest.len() > 0 ==> is_white_space(rest[0]),
    ensures
        words(space + word + rest) == seq![word] + words(rest),
        words(space).len() == 0,
{
    let t = word + rest;
    let none = Seq::<char>::empty();
    assert(space + word + rest == space + t);
    lemma_trim_before(space, t);
    assert(!is_white_space(word[0]));
    assert(t[0] == word[0]);
    assert(trim_start(t) == t);
    lemma_word_end(t);
    let end = word_end(t) as int;
    assert(end == word.len()) by {
        if end < word.len() {
            assert(t[end] == word[end]);
        }
        if end > word.len() {
            assert(t[word.len() as int] == rest[0]);
        }
    }
    assert(t.take(end) == word);
    assert(t.skip(end) == rest);
    assert(trim_start(space + t) == t);
    assert(words(space + t) == seq![word] + words(rest));
    assert(space + none == space);
    lemma_trim_before(space, none);
}

/// Removing a prefix from a text gives a rest exactly where the text is the prefix and that rest.
pub proof fn law_after_prefix(s: Seq<char>, prefix: Seq<char>, rest: Seq<char>)
    ensures
        after_prefix(s, prefix) == Some(rest) <==> s == prefix + rest,
        after_prefix(s, prefix) is None ==> forall|other: Seq<char>| s != #[trigger] (prefix + other),
{
    if s == prefix + rest {
        assert(s.take(prefix.len() as int) == prefix);
        assert(s.skip(prefix.len() as int) == rest);
    }
    if after_prefix(s, prefix) == Some(rest) {
        assert(s == s.take(prefix.len() as int) + s.skip(prefix.len() as int));
    }
    if after_prefix(s, prefix) is None {
        assert forall|other: Seq<char>| s != #[trigger] (prefix + other) by {
            assert((prefix + other).take(prefix.len() as int) == prefix);
        }
    }
}

/// The texts of strings are theirs, one for one and in their order.
pub proof fn law_texts(v: Seq<String>)
    ensures
        texts(v).len() == v.len(),
        forall|i: int| 0 <= i < v.len() ==> #[trigger] texts(v)[i] == v[i]@,
{
}

} // verus!
