//! Snippet and heading extraction for search results.
//!
//! A stored text is split into lines, each line is scored against the query
//! by the skim fuzzy matcher, and the best line is turned into an excerpt.
//! The matcher is the only part that is not verified here; its result is
//! named by [`skim_fuzzy_indices`] and [`skim_fuzzy_match`], and everything
//! that happens to that result is specified exactly.

use crate::text::{
    first_words, is_blank_text, join, joined, leading_words, lemma_blank_has_no_words, lines_of,
    split_lines, string_of_range, chars_of, views,
};
use fuzzy_matcher::skim::SkimMatcherV2;
use fuzzy_matcher::FuzzyMatcher;
use vstd::prelude::*;
use vstd::string::StringExecFns;

verus! {

/// Default number of characters of context kept on each side of the first
/// matched character.
pub const CONTEXT_SIZE: usize = 100;

/// Default length of the longest window shown in full.
pub const MAX_LENGTH: usize = 100;

/// Default number of words shown when no line matches the query.
pub const FALLBACK_WORDS: usize = 20;

/// What the skim matcher, in its default configuration, finds of `pattern`
/// in `choice`: the score of the best alignment and the positions of the
/// matched characters, or `None` when the line does not match.
pub uninterp spec fn skim_fuzzy_indices(choice: Seq<char>, pattern: Seq<char>) -> Option<
    (i64, Seq<usize>),
>;

/// The score alone that the skim matcher, in its default configuration,
/// gives `choice` for `pattern`, or `None` when the line does not match.
pub uninterp spec fn skim_fuzzy_match(choice: Seq<char>, pattern: Seq<char>) -> Option<i64>;

/// The view of a score with positions.
pub open spec fn indices_view(found: Option<(i64, Vec<usize>)>) -> Option<(i64, Seq<usize>)> {
    match found {
        Some((score, indices)) => Some((score, indices@)),
        None => None,
    }
}

/// Calls `SkimMatcherV2::fuzzy_indices` on a fresh default matcher. The
/// result depends on the two texts alone, and is what `skim_fuzzy_indices`
/// names.
#[verifier::external_body]
fn fuzzy_indices(choice: &str, pattern: &str) -> (found: Option<(i64, Vec<usize>)>)
    ensures
        indices_view(found) == skim_fuzzy_indices(choice@, pattern@),
{
    SkimMatcherV2::default().fuzzy_indices(choice, pattern)
}

/// Calls `SkimMatcherV2::fuzzy_match` on a fresh default matcher. The result
/// depends on the two texts alone, and is what `skim_fuzzy_match` names.
#[verifier::external_body]
fn fuzzy_match(choice: &str, pattern: &str) -> (score: Option<i64>)
    ensures
        score == skim_fuzzy_match(choice@, pattern@),
{
    SkimMatcherV2::default().fuzzy_match(choice, pattern)
}

/// A line's match against a query: its score and the position at which the
/// excerpt is anchored.
#[derive(Clone, Copy, Debug)]
pub struct LineMatch {
    pub score: i64,
    pub offset: usize,
}

/// The anchor of a match in a line of `len` characters: the first matched
/// position, or the start of the line when the matcher reports no position
/// or one that lies outside the line.
pub open spec fn anchor_of(indices: Seq<usize>, len: nat) -> usize {
    if indices.len() > 0 && indices[0] < len {
        indices[0]
    } else {
        0
    }
}

/// The match of a line of `len` characters, from what the matcher found in
/// it.
pub open spec fn line_match_from(found: Option<(i64, Seq<usize>)>, len: nat) -> Option<LineMatch> {
    match found {
        Some((score, indices)) => Some(LineMatch { score, offset: anchor_of(indices, len) }),
        None => None,
    }
}

/// The match of `line` against `query`.
pub open spec fn line_match(line: Seq<char>, query: Seq<char>) -> Option<LineMatch> {
    line_match_from(skim_fuzzy_indices(line, query), line.len())
}

/// Reduces what the matcher found in a line of `len` characters to its score
/// and anchor.
pub fn match_from_indices(found: Option<(i64, Vec<usize>)>, len: usize) -> (matched: Option<
    LineMatch,
>)
    ensures
        matched == line_match_from(indices_view(found), len as nat),
{
    match found {
        Some((score, indices)) => {
            let offset = if indices.len() > 0 && indices[0] < len {
                indices[0]
            } else {
                0
            };
            Some(LineMatch { score, offset })
        },
        None => None,
    }
}

// ---------------------------------------------------------------------------
// Choosing the best line
// ---------------------------------------------------------------------------

/// `best` is the position of the highest score; among equal highest scores it
/// is the last.
pub open spec fn is_best(scores: Seq<Option<i64>>, best: int) -> bool {
    &&& 0 <= best < scores.len()
    &&& scores[best] is Some
    &&& forall|j: int|
        0 <= j < scores.len() && (#[trigger] scores[j]) is Some ==> scores[j].unwrap()
            <= scores[best].unwrap()
    &&& forall|j: int|
        best < j < scores.len() && (#[trigger] scores[j]) is Some ==> scores[j].unwrap()
            < scores[best].unwrap()
}

/// No position holds a score.
pub open spec fn none_scored(scores: Seq<Option<i64>>) -> bool {
    forall|j: int| 0 <= j < scores.len() ==> (#[trigger] scores[j]) is None
}

/// The position of the best score, or `None` when nothing is scored.
pub open spec fn best_of(scores: Seq<Option<i64>>) -> Option<int> {
    if exists|best: int| is_best(scores, best) {
        Some(choose|best: int| is_best(scores, best))
    } else {
        None
    }
}

/// At most one position is the best.
pub proof fn lemma_best_unique(scores: Seq<Option<i64>>, a: int, b: int)
    requires
        is_best(scores, a),
        is_best(scores, b),
    ensures
        a == b,
{
    if a < b {
        assert(scores[b].unwrap() < scores[a].unwrap());
    } else if b < a {
        assert(scores[a].unwrap() < scores[b].unwrap());
    }
}

/// `best_of` is the one best position.
pub proof fn lemma_best_of_is(scores: Seq<Option<i64>>, best: int)
    requires
        is_best(scores, best),
    ensures
        best_of(scores) == Some(best),
{
    let chosen = choose|b: int| is_best(scores, b);
    lemma_best_unique(scores, chosen, best);
}

/// What `best_of` gives is a best position.
pub proof fn lemma_best_of_none_or_best(scores: Seq<Option<i64>>)
    ensures
        best_of(scores) matches Some(best) ==> is_best(scores, best),
{
}

/// Where nothing is scored there is no best position.
pub proof fn lemma_best_of_none(scores: Seq<Option<i64>>)
    requires
        none_scored(scores),
    ensures
        best_of(scores) is None,
{
    if exists|best: int| is_best(scores, best) {
        let best = choose|best: int| is_best(scores, best);
        assert(scores[best] is None);
    }
}

/// A best position stays the best when a score that is lower, or no score,
/// is appended.
pub proof fn lemma_best_stays(scores: Seq<Option<i64>>, next: Option<i64>, best: int)
    requires
        is_best(scores, best),
        next is Some ==> next.unwrap() < scores[best].unwrap(),
    ensures
        is_best(scores.push(next), best),
{
    let after = scores.push(next);
    assert(after[best] == scores[best]);
    assert forall|j: int| 0 <= j < after.len() && (#[trigger] after[j]) is Some implies after[j].unwrap()
        <= after[best].unwrap() by {
        if j < scores.len() {
            assert(scores[j] is Some);
        }
    }
    assert forall|j: int| best < j < after.len() && (#[trigger] after[j]) is Some implies after[j].unwrap()
        < after[best].unwrap() by {
        if j < scores.len() {
            assert(scores[j] is Some);
        }
    }
}

/// A score that is no lower than every score before it is the best once it
/// is appended.
pub proof fn lemma_best_moves(scores: Seq<Option<i64>>, next: i64)
    requires
        forall|j: int|
            0 <= j < scores.len() && (#[trigger] scores[j]) is Some ==> scores[j].unwrap() <= next,
    ensures
        is_best(scores.push(Some(next)), scores.len() as int),
{
    let after = scores.push(Some(next));
    assert forall|j: int| 0 <= j < after.len() && (#[trigger] after[j]) is Some implies after[j].unwrap()
        <= next by {
        if j < scores.len() {
            assert(scores[j] is Some);
        }
    }
}

/// Finds the position of the highest score, the last one among equals.
pub fn best_line(scores: &Vec<Option<i64>>) -> (best: Option<usize>)
    ensures
        match best {
            Some(i) => is_best(scores@, i as int),
            None => none_scored(scores@),
        },
        best_of(scores@) == match best {
            Some(i) => Some(i as int),
            None => None,
        },
{
    let mut best: Option<usize> = None;
    let mut best_score: i64 = 0;
    let mut i: usize = 0;
    while i < scores.len()
        invariant
            i <= scores.len(),
            match best {
                Some(b) => is_best(scores@.take(i as int), b as int) && scores@[b as int]
                    == Some(best_score),
                None => none_scored(scores@.take(i as int)),
            },
        decreases scores.len() - i,
    {
        let ghost before = scores@.take(i as int);
        assert(scores@.take(i + 1) =~= before.push(scores@[i as int]));
        let better = match (scores[i], best) {
            (Some(score), Some(_)) => score >= best_score,
            (Some(_), None) => true,
            (None, _) => false,
        };
        if better {
            let score = scores[i].unwrap();
            proof {
                if best is Some {
                    assert(before[best.unwrap() as int] == Some(best_score));
                }
                lemma_best_moves(before, score);
            }
            best = Some(i);
            best_score = score;
        } else {
            proof {
                match best {
                    Some(b) => {
                        assert(before[b as int] == Some(best_score));
                        lemma_best_stays(before, scores@[i as int], b as int);
                    },
                    None => {
                        assert forall|j: int| 0 <= j < i + 1 implies (#[trigger] before.push(
                            scores@[i as int],
                        )[j]) is None by {
                            if j < i {
                                assert(before[j] is None);
                            }
                        }
                    },
                }
            }
        }
        i += 1;
    }
    proof {
        assert(scores@.take(scores.len() as int) =~= scores@);
        match best {
            Some(b) => lemma_best_of_is(scores@, b as int),
            None => lemma_best_of_none(scores@),
        }
    }
    best
}

// ---------------------------------------------------------------------------
// Excerpts
// ---------------------------------------------------------------------------

/// How snippets are cut.
#[derive(Clone, Copy, Debug, PartialEq, Eq, Structural)]
pub struct SnippetConfig {
    /// Characters of context kept on each side of the first matched
    /// character.
    pub context_size: usize,
    /// Longest window shown in full; a longer one is cut to this length.
    pub max_length: usize,
    /// Number of words shown when no line matches the query.
    pub fallback_words: usize,
}

/// The default way of cutting snippets.
pub open spec fn default_config() -> SnippetConfig {
    SnippetConfig {
        context_size: CONTEXT_SIZE,
        max_length: MAX_LENGTH,
        fallback_words: FALLBACK_WORDS,
    }
}

impl Default for SnippetConfig {
    fn default() -> (config: Self)
        ensures
            config == default_config(),
    {
        SnippetConfig {
            context_size: CONTEXT_SIZE,
            max_length: MAX_LENGTH,
            fallback_words: FALLBACK_WORDS,
        }
    }
}

/// Where the window around `offset` starts in a line of `len` characters:
/// `context` characters before the anchor, or at the start of the line.
pub open spec fn window_start(len: int, offset: int, context: int) -> int {
    let end = window_end(len, offset, context);
    if offset - context <= 0 {
        0
    } else if offset - context < end {
        offset - context
    } else {
        end
    }
}

/// Where the window around `offset` ends in a line of `len` characters:
/// `context` characters from the anchor on, or at the end of the line.
pub open spec fn window_end(len: int, offset: int, context: int) -> int {
    if offset + context < len {
        offset + context
    } else {
        len
    }
}

/// Where a window from `start` to `end` that is longer than `max_length` is
/// cut: half of the kept characters lie before the anchor where the window
/// has them, and the kept characters stay within the window.
pub open spec fn cut_start(start: int, end: int, offset: int, max_length: int) -> int {
    let lead = max_length / 2;
    if offset - lead <= start {
        start
    } else if offset - lead >= end - max_length {
        end - max_length
    } else {
        offset - lead
    }
}

/// The excerpt of `line` anchored at `offset`. The window reaches `context`
/// characters to each side of the anchor. A window longer than the maximum
/// length is cut to that length around the anchor and closed by an ellipsis;
/// a shorter one stands between two ellipses.
pub open spec fn excerpt_of(line: Seq<char>, offset: int, config: SnippetConfig) -> Seq<char> {
    let start = window_start(line.len() as int, offset, config.context_size as int);
    let end = window_end(line.len() as int, offset, config.context_size as int);
    if end - start > config.max_length {
        let from = cut_start(start, end, offset, config.max_length as int);
        line.subrange(from, from + config.max_length) + "..."@
    } else {
        "..."@ + line.subrange(start, end) + "..."@
    }
}

/// Where the anchored character stands in the excerpt.
pub open spec fn anchor_in_excerpt(line: Seq<char>, offset: int, config: SnippetConfig) -> int {
    let start = window_start(line.len() as int, offset, config.context_size as int);
    let end = window_end(line.len() as int, offset, config.context_size as int);
    if end - start > config.max_length {
        offset - cut_start(start, end, offset, config.max_length as int)
    } else {
        3 + offset - start
    }
}

/// The excerpt holds the anchored character: an anchor inside the line is
/// never cut away, as long as the window and the maximum length keep at
/// least one character.
pub proof fn lemma_excerpt_holds_anchor(line: Seq<char>, offset: int, config: SnippetConfig)
    requires
        0 <= offset < line.len(),
        config.context_size >= 1,
        config.max_length >= 1,
    ensures
        0 <= anchor_in_excerpt(line, offset, config) < excerpt_of(line, offset, config).len(),
        excerpt_of(line, offset, config)[anchor_in_excerpt(line, offset, config)] == line[offset],
        excerpt_of(line, offset, config).contains(line[offset]),
{
    reveal_strlit("...");
    let excerpt = excerpt_of(line, offset, config);
    let at = anchor_in_excerpt(line, offset, config);
    assert(0 <= at < excerpt.len());
    assert(excerpt[at] == line[offset]);
}

/// A line that fits both the window and the maximum length is shown whole,
/// between two ellipses, wherever in it the anchor lies.
pub proof fn lemma_short_line_is_shown_whole(line: Seq<char>, offset: int, config: SnippetConfig)
    requires
        0 <= offset < line.len() || offset == 0,
        line.len() <= config.context_size,
        line.len() <= config.max_length,
    ensures
        excerpt_of(line, offset, config) == "..."@ + line + "..."@,
{
    assert(line.subrange(0, line.len() as int) =~= line);
}

/// Builds the excerpt of `line` around the character at `offset`.
pub fn excerpt(line: &str, offset: usize, config: SnippetConfig) -> (text: String)
    ensures
        text@ == excerpt_of(line@, offset as int, config),
        offset < line@.len() && config.context_size >= 1 && config.max_length >= 1
            ==> text@.contains(line@[offset as int]),
{
    let chars = chars_of(line);
    let len = chars.len();
    let end = if offset < len && len - offset > config.context_size {
        offset + config.context_size
    } else {
        len
    };
    let start = if offset <= config.context_size {
        0
    } else if offset - config.context_size < end {
        offset - config.context_size
    } else {
        end
    };
    proof {
        if offset < len && config.context_size >= 1 && config.max_length >= 1 {
            lemma_excerpt_holds_anchor(line@, offset as int, config);
        }
    }
    if end - start > config.max_length {
        let lead = config.max_length / 2;
        let from = if offset <= lead || offset - lead <= start {
            start
        } else if offset - lead >= end - config.max_length {
            end - config.max_length
        } else {
            offset - lead
        };
        let mut text = string_of_range(&chars, from, from + config.max_length);
        text.append("...");
        text
    } else {
        let window = string_of_range(&chars, start, end);
        let mut text = String::from_str("...");
        text.append(window.as_str());
        text.append("...");
        text
    }
}

/// The snippet shown when no line matches: the first words of the text,
/// single-spaced, closed by an ellipsis.
pub open spec fn fallback_of(text: Seq<char>, config: SnippetConfig) -> Seq<char> {
    joined(first_words(text, config.fallback_words as nat), " "@) + "..."@
}

/// Builds the snippet shown when no line of `text` matches.
pub fn fallback_snippet(text: &str, config: SnippetConfig) -> (snippet: String)
    ensures
        snippet@ == fallback_of(text@, config),
{
    let words = leading_words(text, config.fallback_words);
    let mut snippet = join(&words, " ");
    snippet.append("...");
    snippet
}

// ---------------------------------------------------------------------------
// Snippets
// ---------------------------------------------------------------------------

/// The scores of a sequence of matches.
pub open spec fn scores_of(matches: Seq<Option<LineMatch>>) -> Seq<Option<i64>> {
    Seq::new(
        matches.len(),
        |i: int|
            match matches[i] {
                Some(m) => Some(m.score),
                None => None,
            },
    )
}

/// The snippet of `text` given its lines' matches: the excerpt of the best
/// line, or the fallback when no line matched.
pub open spec fn snippet_from(
    text: Seq<char>,
    lines: Seq<Seq<char>>,
    matches: Seq<Option<LineMatch>>,
    config: SnippetConfig,
) -> Seq<char> {
    match best_of(scores_of(matches)) {
        Some(i) => if i < lines.len() {
            excerpt_of(lines[i], matches[i].unwrap().offset as int, config)
        } else {
            fallback_of(text, config)
        },
        None => fallback_of(text, config),
    }
}

/// The match of each line against `query`.
pub open spec fn line_matches(lines: Seq<Seq<char>>, query: Seq<char>) -> Seq<Option<LineMatch>> {
    Seq::new(lines.len(), |i: int| line_match(lines[i], query))
}

/// The snippet of `text` for `query`, cut as `config` says.
pub open spec fn snippet_with(text: Seq<char>, query: Seq<char>, config: SnippetConfig) -> Seq<
    char,
> {
    snippet_from(text, lines_of(text), line_matches(lines_of(text), query), config)
}

/// The snippet of `text` for `query`, cut in the default way.
pub open spec fn snippet_of(text: Seq<char>, query: Seq<char>) -> Seq<char> {
    snippet_with(text, query, default_config())
}

/// Builds the snippet of `text` from its lines and the match of each line.
/// `matches[i]` belongs to `lines[i]`; a best match without a line gives the
/// fallback.
pub fn snippet_from_matches(
    text: &str,
    lines: &Vec<String>,
    matches: &Vec<Option<LineMatch>>,
    config: SnippetConfig,
) -> (snippet: String)
    ensures
        snippet@ == snippet_from(text@, views(lines@), matches@, config),
{
    let mut scores: Vec<Option<i64>> = Vec::new();
    let mut i: usize = 0;
    while i < matches.len()
        invariant
            i <= matches.len(),
            scores@ == scores_of(matches@).take(i as int),
        decreases matches.len() - i,
    {
        let score = match matches[i] {
            Some(m) => Some(m.score),
            None => None,
        };
        proof {
            assert(scores@.push(score) =~= scores_of(matches@).take(i + 1));
        }
        scores.push(score);
        i += 1;
    }
    assert(scores@ =~= scores_of(matches@));
    match best_line(&scores) {
        Some(best) => {
            if best < lines.len() {
                match matches[best] {
                    Some(m) => excerpt(lines[best].as_str(), m.offset, config),
                    None => fallback_snippet(text, config),
                }
            } else {
                fallback_snippet(text, config)
            }
        },
        None => fallback_snippet(text, config),
    }
}

/// Produces the snippet of `text` for `query`, cut as `config` says: the
/// excerpt of the line that matches the query best, or the leading words of
/// the text when no line matches. Never fails.
pub fn generate_snippet_with(text: &str, query: &str, config: SnippetConfig) -> (snippet: String)
    ensures
        snippet@ == snippet_with(text@, query@, config),
{
    let lines = split_lines(text);
    let mut matches: Vec<Option<LineMatch>> = Vec::new();
    let mut i: usize = 0;
    while i < lines.len()
        invariant
            i <= lines.len(),
            matches@ == line_matches(views(lines@), query@).take(i as int),
        decreases lines.len() - i,
    {
        let len = chars_of(lines[i].as_str()).len();
        let matched = match_from_indices(fuzzy_indices(lines[i].as_str(), query), len);
        proof {
            assert(matches@.push(matched) =~= line_matches(views(lines@), query@).take(i + 1));
        }
        matches.push(matched);
        i += 1;
    }
    assert(matches@ =~= line_matches(views(lines@), query@));
    snippet_from_matches(text, &lines, &matches, config)
}

/// Produces the snippet of `text` for `query`, cut in the default way: the
/// excerpt of the line that matches the query best, or the leading words of
/// the text when no line matches. Never fails.
pub fn generate_snippet(text: &str, query: &str) -> (snippet: String)
    ensures
        snippet@ == snippet_of(text@, query@),
{
    generate_snippet_with(text, query, SnippetConfig::default())
}

/// Where no line of `text` matches `query`, the snippet is the fallback: the
/// first words of the text followed by an ellipsis. This holds of every
/// text, the empty one included.
pub proof fn lemma_snippet_fallback(text: Seq<char>, query: Seq<char>, config: SnippetConfig)
    requires
        forall|i: int|
            0 <= i < lines_of(text).len() ==> skim_fuzzy_indices(
                #[trigger] lines_of(text)[i],
                query,
            ) is None,
    ensures
        snippet_with(text, query, config) == fallback_of(text, config),
        snippet_of(text, query) == joined(first_words(text, FALLBACK_WORDS as nat), " "@)
            + "..."@,
{
    let lines = lines_of(text);
    let scores = scores_of(line_matches(lines, query));
    assert forall|j: int| 0 <= j < scores.len() implies (#[trigger] scores[j]) is None by {
        assert(skim_fuzzy_indices(lines[j], query) is None);
    }
    lemma_best_of_none(scores);
    let default = default_config();
    assert(snippet_with(text, query, default) == fallback_of(text, default));
}

/// The fallback of a text without words, the empty text included, is the
/// bare ellipsis.
pub proof fn lemma_fallback_of_blank(text: Seq<char>, config: SnippetConfig)
    requires
        is_blank_text(text),
    ensures
        fallback_of(text, config) == "..."@,
{
    lemma_blank_has_no_words(text);
    assert(first_words(text, config.fallback_words as nat).len() == 0);
    assert(joined(first_words(text, config.fallback_words as nat), " "@) =~= Seq::<char>::empty());
    assert(Seq::<char>::empty() + "..."@ =~= "..."@);
}

/// A snippet is never empty: it ends with an ellipsis.
pub proof fn lemma_snippet_ends_with_ellipsis(
    text: Seq<char>,
    query: Seq<char>,
    config: SnippetConfig,
)
    ensures
        snippet_with(text, query, config).len() >= 3,
        snippet_with(text, query, config).skip(snippet_with(text, query, config).len() - 3)
            == "..."@,
{
    reveal_strlit("...");
    let lines = lines_of(text);
    let matches = line_matches(lines, query);
    let words = joined(first_words(text, config.fallback_words as nat), " "@);
    assert((words + "..."@).skip(words.len() as int) =~= "..."@);
    match best_of(scores_of(matches)) {
        Some(i) => {
            if i < lines.len() {
                let line = lines[i];
                let offset = matches[i].unwrap().offset as int;
                let start = window_start(line.len() as int, offset, config.context_size as int);
                let end = window_end(line.len() as int, offset, config.context_size as int);
                if end - start > config.max_length {
                    let from = cut_start(start, end, offset, config.max_length as int);
                    let cut = line.subrange(from, from + config.max_length);
                    assert((cut + "..."@).skip(cut.len() as int) =~= "..."@);
                } else {
                    let front = "..."@ + line.subrange(start, end);
                    assert((front + "..."@).skip(front.len() as int) =~= "..."@);
                }
            }
        },
        None => {},
    }
}

/// The line that matches the query best, where a line matches.
pub open spec fn best_matching_line(text: Seq<char>, query: Seq<char>) -> Option<int> {
    best_of(scores_of(line_matches(lines_of(text), query)))
}

/// Where a line matches, the snippet shows the match: it holds the character
/// at which the best line is anchored, however long that line is.
pub proof fn lemma_snippet_shows_the_match(text: Seq<char>, query: Seq<char>, config: SnippetConfig)
    requires
        best_matching_line(text, query) is Some,
        lines_of(text)[best_matching_line(text, query).unwrap()].len() > 0,
        config.context_size >= 1,
        config.max_length >= 1,
    ensures
        ({
            let line = lines_of(text)[best_matching_line(text, query).unwrap()];
            let found = line_match(line, query).unwrap();
            &&& found.offset < line.len()
            &&& snippet_with(text, query, config) == excerpt_of(line, found.offset as int, config)
            &&& snippet_with(text, query, config).contains(line[found.offset as int])
        }),
{
    let lines = lines_of(text);
    let matches = line_matches(lines, query);
    let scores = scores_of(matches);
    let i = best_matching_line(text, query).unwrap();
    lemma_best_of_none_or_best(scores);
    assert(scores[i] is Some);
    assert(matches[i] == line_match(lines[i], query));
    lemma_excerpt_holds_anchor(lines[i], matches[i].unwrap().offset as int, config);
}

/// A text of one line that fits the window and the maximum length, and
/// whose words are few and single-spaced, is held whole by its snippet,
/// whether or not the matcher finds the query in it: the snippet is the text
/// between two ellipses, or the text followed by one.
pub proof fn lemma_snippet_of_one_short_line(text: Seq<char>, query: Seq<char>, config: SnippetConfig)
    requires
        lines_of(text) == seq![text],
        text.len() <= config.context_size,
        text.len() <= config.max_length,
        joined(first_words(text, config.fallback_words as nat), " "@) == text,
    ensures
        snippet_with(text, query, config) == "..."@ + text + "..."@ || snippet_with(
            text,
            query,
            config,
        ) == text + "..."@,
{
    let lines = lines_of(text);
    let scores = scores_of(line_matches(lines, query));
    lemma_best_of_none_or_best(scores);
    if best_matching_line(text, query) is Some {
        assert(best_matching_line(text, query).unwrap() == 0);
        lemma_snippet_of_short_line(text, query, config);
    }
}

/// Where the best matching line fits the window and the maximum length, the
/// snippet is that line, whole, between two ellipses.
pub proof fn lemma_snippet_of_short_line(text: Seq<char>, query: Seq<char>, config: SnippetConfig)
    requires
        best_matching_line(text, query) is Some,
        lines_of(text)[best_matching_line(text, query).unwrap()].len() <= config.context_size,
        lines_of(text)[best_matching_line(text, query).unwrap()].len() <= config.max_length,
    ensures
        snippet_with(text, query, config) == "..."@ + lines_of(text)[best_matching_line(
            text,
            query,
        ).unwrap()] + "..."@,
{
    let lines = lines_of(text);
    let matches = line_matches(lines, query);
    let scores = scores_of(matches);
    let i = best_matching_line(text, query).unwrap();
    lemma_best_of_none_or_best(scores);
    assert(scores[i] is Some);
    assert(matches[i] == line_match(lines[i], query));
    lemma_short_line_is_shown_whole(lines[i], matches[i].unwrap().offset as int, config);
}

// ---------------------------------------------------------------------------
// Headings
// ---------------------------------------------------------------------------

/// The score of each line against `query`.
pub open spec fn line_scores(lines: Seq<Seq<char>>, query: Seq<char>) -> Seq<Option<i64>> {
    Seq::new(lines.len(), |i: int| skim_fuzzy_match(lines[i], query))
}

/// The heading chosen among `lines` given their scores: the best-scored
/// line, verbatim, or the empty text when none is scored.
pub open spec fn heading_from(lines: Seq<Seq<char>>, scores: Seq<Option<i64>>) -> Seq<char> {
    match best_of(scores) {
        Some(i) => if i < lines.len() {
            lines[i]
        } else {
            Seq::empty()
        },
        None => Seq::empty(),
    }
}

/// The heading of `text` for `query`.
pub open spec fn heading_of(text: Seq<char>, query: Seq<char>) -> Seq<char> {
    heading_from(lines_of(text), line_scores(lines_of(text), query))
}

/// Chooses the heading among `lines` from the score of each line.
/// `scores[i]` belongs to `lines[i]`.
pub fn heading_from_scores(lines: &Vec<String>, scores: &Vec<Option<i64>>) -> (heading: String)
    ensures
        heading@ == heading_from(views(lines@), scores@),
{
    match best_line(scores) {
        Some(best) => {
            if best < lines.len() {
                lines[best].clone()
            } else {
                String::new()
            }
        },
        None => String::new(),
    }
}

/// Returns the stored heading that matches `query` best, verbatim, or the
/// empty string when no heading matches.
pub fn generate_heading(text: &str, query: &str) -> (heading: String)
    ensures
        heading@ == heading_of(text@, query@),
{
    let lines = split_lines(text);
    let mut scores: Vec<Option<i64>> = Vec::new();
    let mut i: usize = 0;
    while i < lines.len()
        invariant
            i <= lines.len(),
            scores@ == line_scores(views(lines@), query@).take(i as int),
        decreases lines.len() - i,
    {
        let score = fuzzy_match(lines[i].as_str(), query);
        proof {
            assert(scores@.push(score) =~= line_scores(views(lines@), query@).take(i + 1));
        }
        scores.push(score);
        i += 1;
    }
    assert(scores@ =~= line_scores(views(lines@), query@));
    heading_from_scores(&lines, &scores)
}

} // verus!
