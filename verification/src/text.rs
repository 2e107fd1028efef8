//! Text primitives shared by the crawler and the searcher: conversion between
//! strings and character vectors, line and word splitting, joining, and the
//! blank test that decides whether a query is empty.
//!
//! Every function is specified over `Seq<char>`, the view of a string.

use vstd::prelude::*;
use vstd::string::StringExecFns;

verus! {

/// `String::push` appends exactly one character to the end of the string.
pub assume_specification[ String::push ](s: &mut String, c: char)
    ensures
        final(s)@ == old(s)@.push(c),
;

/// The characters with the Unicode property `White_Space`: the controls from
/// tab to carriage return, the space, next line, the no-break space, the
/// ogham space mark, the spaces from en quad to hair space, the line and the
/// paragraph separator, the narrow no-break space, the medium mathematical
/// space and the ideographic space.
pub open spec fn unicode_whitespace(c: char) -> bool {
    let code = c as u32;
    ||| 0x09 <= code <= 0x0d
    ||| code == 0x20
    ||| code == 0x85
    ||| code == 0xa0
    ||| code == 0x1680
    ||| 0x2000 <= code <= 0x200a
    ||| code == 0x2028
    ||| code == 0x2029
    ||| code == 0x202f
    ||| code == 0x205f
    ||| code == 0x3000
}

/// `char::is_whitespace` tells whether the character has the Unicode
/// property `White_Space`.
pub assume_specification[ char::is_whitespace ](c: char) -> (r: bool)
    ensures
        r == unicode_whitespace(c),
;

/// The views of a sequence of strings.
pub open spec fn views(strings: Seq<String>) -> Seq<Seq<char>> {
    Seq::new(strings.len(), |i: int| strings[i]@)
}

/// The characters of `s`, in order.
pub fn chars_of(s: &str) -> (chars: Vec<char>)
    ensures
        chars@ == s@,
{
    let mut chars: Vec<char> = Vec::new();
    for c in it: s.chars()
        invariant
            it.seq() == s@,
            chars@ == it.seq().take(it.index() as int),
    {
        chars.push(c);
    }
    chars
}

/// The string made of `chars[from..to]`.
pub(crate) fn string_of_range(chars: &Vec<char>, from: usize, to: usize) -> (s: String)
    requires
        from <= to <= chars.len(),
    ensures
        s@ == chars@.subrange(from as int, to as int),
{
    let mut s = String::new();
    let mut i: usize = from;
    while i < to
        invariant
            from <= i <= to <= chars.len(),
            s@ == chars@.subrange(from as int, i as int),
        decreases to - i,
    {
        s.push(chars[i]);
        i += 1;
    }
    s
}

/// The string made of all of `chars`.
pub fn string_of(chars: &Vec<char>) -> (s: String)
    ensures
        s@ == chars@,
{
    let s = string_of_range(chars, 0, chars.len());
    assert(chars@.subrange(0, chars.len() as int) =~= chars@);
    s
}

// ---------------------------------------------------------------------------
// Lines
// ---------------------------------------------------------------------------

/// Length of the first line of `s`: the position of its first newline, or the
/// length of `s` when it holds none.
pub open spec fn line_end(s: Seq<char>) -> int
    decreases s.len(),
{
    if s.len() == 0 || s[0] == '\n' {
        0
    } else {
        1 + line_end(s.skip(1))
    }
}

/// The newline-terminated lines of `s`. A newline ends a line; text after the
/// last newline is a line of its own unless it is empty.
pub open spec fn lines_of(s: Seq<char>) -> Seq<Seq<char>>
    decreases s.len(),
{
    if s.len() == 0 {
        Seq::empty()
    } else {
        let end = line_end(s);
        if 0 <= end < s.len() {
            seq![s.take(end)] + lines_of(s.skip(end + 1))
        } else {
            seq![s]
        }
    }
}

/// `line_end` is the first position that holds a newline.
pub proof fn lemma_line_end(s: Seq<char>, end: int)
    requires
        0 <= end <= s.len(),
        forall|j: int| 0 <= j < end ==> s[j] != '\n',
        end < s.len() ==> s[end] == '\n',
    ensures
        line_end(s) == end,
    decreases end,
{
    if end > 0 {
        let rest = s.skip(1);
        assert forall|j: int| 0 <= j < end - 1 implies rest[j] != '\n' by {
            assert(rest[j] == s[j + 1]);
        }
        lemma_line_end(rest, end - 1);
    }
}

/// No line holds a newline.
pub proof fn lemma_lines_hold_no_newline(s: Seq<char>)
    ensures
        forall|i: int, j: int|
            0 <= i < lines_of(s).len() && 0 <= j < lines_of(s)[i].len() ==> lines_of(s)[i][j]
                != '\n',
    decreases s.len(),
{
    if s.len() > 0 {
        lemma_line_end_bounds(s);
        let end = line_end(s);
        if end < s.len() {
            lemma_lines_hold_no_newline(s.skip(end + 1));
            let tail = lines_of(s.skip(end + 1));
            assert forall|i: int, j: int|
                0 <= i < lines_of(s).len() && 0 <= j < lines_of(s)[i].len() implies lines_of(
                s,
            )[i][j] != '\n' by {
                if i > 0 {
                    assert(lines_of(s)[i] == tail[i - 1]);
                }
            }
        }
    }
}

/// `line_end` lies within `s`, and no newline comes before it.
pub proof fn lemma_line_end_bounds(s: Seq<char>)
    ensures
        0 <= line_end(s) <= s.len(),
        forall|j: int| 0 <= j < line_end(s) ==> s[j] != '\n',
        line_end(s) < s.len() ==> s[line_end(s)] == '\n',
    decreases s.len(),
{
    if !(s.len() == 0 || s[0] == '\n') {
        let rest = s.skip(1);
        lemma_line_end_bounds(rest);
        assert forall|j: int| 0 <= j < line_end(s) implies s[j] != '\n' by {
            if j > 0 {
                assert(rest[j - 1] == s[j]);
            }
        }
        if line_end(s) < s.len() {
            assert(rest[line_end(rest)] == s[line_end(s)]);
        }
    }
}

/// Splits `text` at newlines. A trailing newline opens no further line.
pub fn split_lines(text: &str) -> (lines: Vec<String>)
    ensures
        views(lines@) == lines_of(text@),
{
    let chars = chars_of(text);
    let n = chars.len();
    let mut lines: Vec<String> = Vec::new();
    let mut start: usize = 0;
    let mut i: usize = 0;
    proof {
        assert(chars@.skip(0) =~= chars@);
        assert(views(lines@) + lines_of(chars@) =~= lines_of(chars@));
    }
    while i < n
        invariant
            n == chars.len(),
            start <= i <= n,
            forall|j: int| start <= j < i ==> chars@[j] != '\n',
            lines_of(chars@) == views(lines@) + lines_of(chars@.skip(start as int)),
        decreases n - i,
    {
        if chars[i] == '\n' {
            let line = string_of_range(&chars, start, i);
            proof {
                let rest = chars@.skip(start as int);
                let end = i - start;
                assert forall|j: int| 0 <= j < end implies rest[j] != '\n' by {
                    assert(rest[j] == chars@[start + j]);
                }
                lemma_line_end(rest, end);
                assert(rest.take(end) =~= chars@.subrange(start as int, i as int));
                assert(rest.skip(end + 1) =~= chars@.skip(i + 1));
                assert(views(lines@.push(line)) =~= views(lines@).push(line@));
                assert(views(lines@) + (seq![line@] + lines_of(chars@.skip(i + 1))) =~= views(
                    lines@,
                ).push(line@) + lines_of(chars@.skip(i + 1)));
            }
            lines.push(line);
            start = i + 1;
        }
        i += 1;
    }
    if start < n {
        let line = string_of_range(&chars, start, n);
        proof {
            let rest = chars@.skip(start as int);
            assert forall|j: int| 0 <= j < rest.len() implies rest[j] != '\n' by {
                assert(rest[j] == chars@[start + j]);
            }
            lemma_line_end(rest, rest.len() as int);
            assert(rest =~= chars@.subrange(start as int, n as int));
            assert(views(lines@.push(line)) =~= views(lines@).push(line@));
            assert(views(lines@) + seq![line@] =~= views(lines@).push(line@));
        }
        lines.push(line);
    } else {
        assert(chars@.skip(start as int).len() == 0);
        assert(views(lines@) + Seq::<Seq<char>>::empty() =~= views(lines@));
    }
    lines
}

// ---------------------------------------------------------------------------
// Words
// ---------------------------------------------------------------------------

/// Length of the longest prefix of `s` that holds no whitespace.
pub open spec fn word_end(s: Seq<char>) -> int
    decreases s.len(),
{
    if s.len() == 0 || unicode_whitespace(s[0]) {
        0
    } else {
        1 + word_end(s.skip(1))
    }
}

/// The whitespace-delimited words of `s`: its maximal runs of characters that
/// are not whitespace, in order. No word is empty.
pub open spec fn words_of(s: Seq<char>) -> Seq<Seq<char>>
    decreases s.len(),
{
    if s.len() == 0 {
        Seq::empty()
    } else if unicode_whitespace(s[0]) {
        words_of(s.skip(1))
    } else {
        let end = word_end(s);
        if 0 < end <= s.len() {
            seq![s.take(end)] + words_of(s.skip(end))
        } else {
            Seq::empty()
        }
    }
}

/// The first `max_words` words of `s`, or all of them when there are fewer.
pub open spec fn first_words(s: Seq<char>, max_words: nat) -> Seq<Seq<char>> {
    if words_of(s).len() <= max_words {
        words_of(s)
    } else {
        words_of(s).take(max_words as int)
    }
}

/// `word_end` is the first position that holds whitespace.
pub proof fn lemma_word_end(s: Seq<char>, end: int)
    requires
        0 <= end <= s.len(),
        forall|j: int| 0 <= j < end ==> !unicode_whitespace(s[j]),
        end < s.len() ==> unicode_whitespace(s[end]),
    ensures
        word_end(s) == end,
    decreases end,
{
    if end > 0 {
        let rest = s.skip(1);
        assert forall|j: int| 0 <= j < end - 1 implies !unicode_whitespace(rest[j]) by {
            assert(rest[j] == s[j + 1]);
        }
        lemma_word_end(rest, end - 1);
    }
}

/// Text made of whitespace alone holds no word.
pub proof fn lemma_blank_has_no_words(s: Seq<char>)
    requires
        is_blank_text(s),
    ensures
        words_of(s).len() == 0,
    decreases s.len(),
{
    if s.len() > 0 {
        let rest = s.skip(1);
        assert forall|j: int| 0 <= j < rest.len() implies unicode_whitespace(rest[j]) by {
            assert(rest[j] == s[j + 1]);
        }
        lemma_blank_has_no_words(rest);
    }
}

/// The first `max_words` whitespace-delimited words of `text`.
pub fn leading_words(text: &str, max_words: usize) -> (words: Vec<String>)
    ensures
        views(words@) == first_words(text@, max_words as nat),
{
    let chars = chars_of(text);
    let n = chars.len();
    let mut words: Vec<String> = Vec::new();
    let mut i: usize = 0;
    proof {
        assert(chars@.skip(0) =~= chars@);
        assert(views(words@) + words_of(chars@) =~= words_of(chars@));
    }
    while i < n && words.len() < max_words
        invariant
            n == chars.len(),
            i <= n,
            words.len() <= max_words,
            words_of(chars@) == views(words@) + words_of(chars@.skip(i as int)),
        decreases n - i,
    {
        if chars[i].is_whitespace() {
            proof {
                let rest = chars@.skip(i as int);
                assert(rest[0] == chars@[i as int]);
                assert(rest.skip(1) =~= chars@.skip(i + 1));
            }
            i += 1;
        } else {
            let start = i;
            let mut j: usize = i + 1;
            while j < n && !chars[j].is_whitespace()
                invariant
                    n == chars.len(),
                    start < j <= n,
                    forall|k: int| start <= k < j ==> !unicode_whitespace(chars@[k]),
                decreases n - j,
            {
                j += 1;
            }
            let word = string_of_range(&chars, start, j);
            proof {
                let rest = chars@.skip(start as int);
                let end = j - start;
                assert(rest[0] == chars@[start as int]);
                assert forall|k: int| 0 <= k < end implies !unicode_whitespace(rest[k]) by {
                    assert(rest[k] == chars@[start + k]);
                }
                if end < rest.len() {
                    assert(rest[end] == chars@[j as int]);
                }
                lemma_word_end(rest, end);
                assert(rest.take(end) =~= chars@.subrange(start as int, j as int));
                assert(rest.skip(end) =~= chars@.skip(j as int));
                assert(views(words@.push(word)) =~= views(words@).push(word@));
                assert(views(words@) + (seq![word@] + words_of(chars@.skip(j as int))) =~= views(
                    words@,
                ).push(word@) + words_of(chars@.skip(j as int)));
            }
            words.push(word);
            i = j;
        }
    }
    proof {
        let rest = words_of(chars@.skip(i as int));
        if i >= n {
            assert(chars@.skip(i as int).len() == 0);
            assert(views(words@) + rest =~= views(words@));
        } else {
            assert((views(words@) + rest).take(max_words as int) =~= views(words@));
        }
    }
    words
}

// ---------------------------------------------------------------------------
// Joining and blank text
// ---------------------------------------------------------------------------

/// `parts` concatenated, with `separator` between neighbours.
pub open spec fn joined(parts: Seq<Seq<char>>, separator: Seq<char>) -> Seq<char>
    decreases parts.len(),
{
    if parts.len() == 0 {
        Seq::empty()
    } else if parts.len() == 1 {
        parts[0]
    } else {
        joined(parts.drop_last(), separator) + separator + parts.last()
    }
}

/// Concatenates `parts`, putting `separator` between neighbours.
pub fn join(parts: &Vec<String>, separator: &str) -> (text: String)
    ensures
        text@ == joined(views(parts@), separator@),
{
    let mut text = String::new();
    let mut i: usize = 0;
    while i < parts.len()
        invariant
            i <= parts.len(),
            text@ == joined(views(parts@).take(i as int), separator@),
        decreases parts.len() - i,
    {
        proof {
            let before = views(parts@).take(i as int);
            let after = views(parts@).take(i + 1);
            assert(after.drop_last() =~= before);
            assert(after.last() == parts@[i as int]@);
            if i == 0 {
                assert(Seq::<char>::empty() + parts@[0]@ =~= parts@[0]@);
            }
        }
        if i > 0 {
            text.append(separator);
        }
        text.append(parts[i].as_str());
        i += 1;
    }
    assert(views(parts@).take(parts.len() as int) =~= views(parts@));
    text
}

/// True when every character of `s` is whitespace; the empty text is blank.
pub open spec fn is_blank_text(s: Seq<char>) -> bool {
    forall|i: int| 0 <= i < s.len() ==> unicode_whitespace(#[trigger] s[i])
}

/// Tells whether `text` is empty once surrounding whitespace is removed.
pub fn is_blank(text: &str) -> (blank: bool)
    ensures
        blank == is_blank_text(text@),
{
    let chars = chars_of(text);
    let mut i: usize = 0;
    while i < chars.len()
        invariant
            chars@ == text@,
            i <= chars.len(),
            forall|j: int| 0 <= j < i ==> unicode_whitespace(#[trigger] chars@[j]),
        decreases chars.len() - i,
    {
        if !chars[i].is_whitespace() {
            assert(!unicode_whitespace(text@[i as int]));
            return false;
        }
        i += 1;
    }
    true
}

} // verus!
