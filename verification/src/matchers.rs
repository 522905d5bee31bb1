//! Fuzzy matching, with the `nucleo` matcher.
use crate::text::chars_of;
use vstd::prelude::*;
use vstd::string::*;

verus! {

/// How well a text matches a query.
#[derive(Clone, Copy, Debug, PartialEq, Eq, Structural)]
pub struct Match {
    pub score: i64,
}

/// The matcher of `nucleo_matcher`: memory that it works in.
#[verifier::external_type_specification]
#[verifier::external_body]
pub struct ExMatcher(nucleo_matcher::Matcher);

/// The score that `nucleo_matcher` gives a text for a query, if the text
/// matches. The query is parsed by `Pattern::parse`, without regard to case
/// and with smart normalization; the text is scored as a path, in which a
/// slash separates words, as on every system that is not Windows.
pub uninterp spec fn nucleo_score(query: Seq<char>, text: Seq<char>) -> Option<u32>;

/// The number of bytes up to which a text can be matched.
pub const TEXT_LIMIT: u32 = 4_294_967_295;

/// The number of characters that a word can match without its score leaving
/// 16 bits: the first adds at most 34 points, each other 25.
pub const MATCH_LIMIT: usize = 2621;

/// Whether the matcher can take the query and the text. A query without
/// characters has no words. In any other, the matcher must be able to take
/// every word, and the points of all of them, at most 34 for a character that
/// can count twice, are added in 32 bits.
pub open spec fn matchable(query: Seq<char>, text: Seq<char>) -> bool {
    ||| query.len() == 0
    ||| {
        &&& vstd::utf8::encode_utf8(text).len() <= TEXT_LIMIT
        &&& 68 * query.len() <= u32::MAX
        &&& forall|from: int, to: int| #[trigger]
            is_word(query, from, to) ==> word_matchable(query.subrange(from, to), text)
    }
}

/// Whether the character at a place separates words: a space without a
/// backslash before it does.
pub open spec fn separates(query: Seq<char>, i: int) -> bool {
    query[i] == ' ' && (i == 0 || query[i - 1] != '\\')
}

/// Whether a word stands from `from` up to `to`: between two places that
/// separate, or the ends, with none between them.
pub open spec fn is_word(query: Seq<char>, from: int, to: int) -> bool {
    &&& 0 <= from <= to <= query.len()
    &&& from == 0 || separates(query, from - 1)
    &&& to == query.len() || separates(query, to)
    &&& forall|i: int| from <= i < to ==> !#[trigger] separates(query, i)
}

/// Whether the matcher can take a word and a text: the table that it works in
/// has a number of cells that fits a `usize`, the points fit 16 bits, because
/// the word or the text is short, and it does not misplace the start.
pub open spec fn word_matchable(word: Seq<char>, text: Seq<char>) -> bool {
    &&& pattern_size(word) * vstd::utf8::encode_utf8(text).len() <= usize::MAX
    &&& pattern_size(word) <= MATCH_LIMIT || text.len() <= MATCH_LIMIT
    &&& !misplaces(word, text)
}

pub open spec fn is_ascii(s: Seq<char>) -> bool {
    forall|i: int| 0 <= i < s.len() ==> #[trigger] s[i] <= '\u{7f}'
}

pub open spec fn backslashes(s: Seq<char>) -> nat
    decreases s.len(),
{
    if s.len() == 0 {
        0
    } else if s.last() == '\\' {
        backslashes(s.drop_last()) + 1
    } else {
        backslashes(s.drop_last())
    }
}

/// The number of characters that a word can become: in one that is not ASCII a
/// backslash counts twice.
pub open spec fn pattern_size(word: Seq<char>) -> nat {
    if is_ascii(word) {
        word.len()
    } else {
        word.len() + backslashes(word)
    }
}

/// Whether the matcher can look for the start of a word at a letter that it
/// then does not find there. A word with an accent makes accents count in the
/// text too. A late letter of the text is then taken for the first letter of
/// the word when the start is looked for, and not when it is scored. A word of
/// one character, and one that a `$` ties to the end, have no such search.
pub open spec fn misplaces(word: Seq<char>, text: Seq<char>) -> bool {
    &&& word.len() > 1
    &&& word.last() != '$' || word[word.len() - 2] == '\\'
    &&& has_accent(word)
    &&& has_late_letter(text, folding(word[0]))
}

/// Whether the lower case of a letter can be one that the matcher takes an
/// accent from. These blocks hold all such letters.
pub open spec fn may_have_accent(c: char) -> bool {
    ||| '\u{c0}' <= c <= '\u{36f}'
    ||| '\u{1d00}' <= c <= '\u{1eff}'
    ||| '\u{2071}' <= c <= '\u{2184}'
    ||| '\u{2c60}' <= c <= '\u{2c7f}'
    ||| '\u{a78d}' <= c <= '\u{a7c5}'
}

pub open spec fn has_accent(s: Seq<char>) -> bool {
    exists|i: int| 0 <= i < s.len() && may_have_accent(#[trigger] s[i])
}

/// Whether a letter is lower case and yet has another as its simple case
/// folding.
pub open spec fn is_late_letter(c: char) -> bool {
    ||| c == '\u{b5}'
    ||| c == '\u{17f}'
    ||| c == '\u{345}'
    ||| c == '\u{3c2}'
    ||| '\u{3d0}' <= c <= '\u{3d1}'
    ||| '\u{3d5}' <= c <= '\u{3d6}'
    ||| '\u{3f0}' <= c <= '\u{3f1}'
    ||| c == '\u{3f5}'
    ||| '\u{13f8}' <= c <= '\u{13fd}'
    ||| '\u{1c80}' <= c <= '\u{1c88}'
    ||| c == '\u{1e9b}'
    ||| c == '\u{1fbe}'
    ||| '\u{ab70}' <= c <= '\u{abbf}'
}

/// Whether a text holds a late letter with the given folding.
pub open spec fn has_late_letter(text: Seq<char>, folded: u32) -> bool {
    exists|i: int|
        0 <= i < text.len() && is_late_letter(#[trigger] text[i]) && folding(text[i]) == folded
}

/// The simple case folding, as a code point, of a letter that has the same one
/// as a late letter; any other character stands for itself, but for capital
/// letters of the same scripts.
pub open spec fn folding(c: char) -> u32 {
    let code = c as u32;
    if code == 0x53 || code == 0x17f {
        0x73
    } else if code == 0xb5 {
        0x3bc
    } else if code == 0x345 || code == 0x1fbe {
        0x3b9
    } else if 0x391 <= code <= 0x3a9 || 0x410 <= code <= 0x42f {
        (code + 0x20) as u32
    } else if code == 0x3c2 {
        0x3c3
    } else if code == 0x3d0 {
        0x3b2
    } else if code == 0x3d1 || code == 0x3f4 {
        0x3b8
    } else if code == 0x3d5 {
        0x3c6
    } else if code == 0x3d6 {
        0x3c0
    } else if code == 0x3f0 {
        0x3ba
    } else if code == 0x3f1 {
        0x3c1
    } else if code == 0x3f5 {
        0x3b5
    } else if 0x13f8 <= code <= 0x13fd {
        (code - 8) as u32
    } else if 0xab70 <= code <= 0xabbf {
        (code - 0x97d0) as u32
    } else if code == 0x1e60 || code == 0x1e9b {
        0x1e61
    } else {
        cyrillic_folding(code)
    }
}

pub open spec fn cyrillic_folding(code: u32) -> u32 {
    if code == 0x1c80 {
        0x432
    } else if code == 0x1c81 {
        0x434
    } else if code == 0x1c82 {
        0x43e
    } else if code == 0x1c83 {
        0x441
    } else if code == 0x1c84 || code == 0x1c85 {
        0x442
    } else if code == 0x1c86 {
        0x44a
    } else if code == 0x1c87 || code == 0x462 {
        0x463
    } else if code == 0x1c88 || code == 0xa64a {
        0xa64b
    } else {
        code
    }
}

/// Calls `Matcher::new`. Nothing is said of the matcher.
#[verifier::external_body]
fn new_matcher() -> (r: nucleo_matcher::Matcher) {
    nucleo_matcher::Matcher::new(nucleo_matcher::Config::DEFAULT.match_paths())
}

/// Calls `Pattern::score` on the pattern that `Pattern::parse` makes of the
/// query. The score depends on the query and the text alone. A query without
/// characters is a pattern without parts, which every text matches with no
/// points. A text of more than 2^32 - 1 characters makes the matcher panic, so
/// can a long word on a long text, where its score overflows, and so can a
/// letter that it folds in one place and not in another, where assertions are
/// checked.
#[verifier::external_body]
fn pattern_score(query: &str, text: &str, matcher: &mut nucleo_matcher::Matcher) -> (r: Option<u32>)
    requires
        matchable(query@, text@),
    ensures
        r == nucleo_score(query@, text@),
        query@.len() == 0 ==> r == Some(0u32),
{
    matcher.config = nucleo_matcher::Config::DEFAULT.match_paths();
    let pattern = nucleo_matcher::pattern::Pattern::parse(
        query,
        nucleo_matcher::pattern::CaseMatching::Ignore,
        nucleo_matcher::pattern::Normalization::Smart,
    );
    let mut buffer = Vec::new();
    pattern.score(nucleo_matcher::Utf32Str::new(text, &mut buffer), matcher)
}

/// A query that texts are matched against.
pub struct FuzzyMatcher {
    query: String,
    matcher: nucleo_matcher::Matcher,
}

/// The match of a text for a query.
pub open spec fn matched(query: Seq<char>, text: Seq<char>) -> Option<Match> {
    scored_match(nucleo_score(query, text))
}

/// The match with the given score.
pub open spec fn scored_match(score: Option<u32>) -> Option<Match> {
    match score {
        Some(score) => Some(Match { score: score as i64 }),
        None => None,
    }
}

/// Makes a match of what the matcher gave.
pub fn match_of(score: Option<u32>) -> (r: Option<Match>)
    ensures
        r == scored_match(score),
{
    match score {
        Some(score) => Some(Match { score: score as i64 }),
        None => None,
    }
}

impl FuzzyMatcher {
    pub closed spec fn query(&self) -> Seq<char> {
        self.query@
    }

    pub fn new(query: &str) -> (r: Self)
        ensures
            r.query() == query@,
    {
        FuzzyMatcher { query: query.to_string(), matcher: new_matcher() }
    }

    /// Matches a text. Every text matches the empty query.
    pub fn score(&mut self, text: &str) -> (r: Option<Match>)
        requires
            matchable(old(self).query(), text@),
        ensures
            r == matched(old(self).query(), text@),
            old(self).query().len() == 0 ==> r == Some(Match { score: 0 }),
            final(self).query() == old(self).query(),
    {
        match_of(pattern_score(self.query.as_str(), text, &mut self.matcher))
    }
}

/// Matches a text against a query.
pub fn fuzzy_score(query: &str, text: &str) -> (r: Option<Match>)
    requires
        matchable(query@, text@),
    ensures
        r == matched(query@, text@),
        query@.len() == 0 ==> r == Some(Match { score: 0 }),
{
    let mut matcher = FuzzyMatcher::new(query);
    matcher.score(text)
}

fn fold(c: char) -> (r: u32)
    ensures
        r == folding(c),
{
    let code: u32 = c as u32;
    if code == 0x53 || code == 0x17f {
        0x73
    } else if code == 0xb5 {
        0x3bc
    } else if code == 0x345 || code == 0x1fbe {
        0x3b9
    } else if (0x391 <= code && code <= 0x3a9) || (0x410 <= code && code <= 0x42f) {
        code + 0x20
    } else if code == 0x3c2 {
        0x3c3
    } else if code == 0x3d0 {
        0x3b2
    } else if code == 0x3d1 || code == 0x3f4 {
        0x3b8
    } else if code == 0x3d5 {
        0x3c6
    } else if code == 0x3d6 {
        0x3c0
    } else if code == 0x3f0 {
        0x3ba
    } else if code == 0x3f1 {
        0x3c1
    } else if code == 0x3f5 {
        0x3b5
    } else if (0x13f8 <= code && code <= 0x13fd) {
        code - 8
    } else if (0xab70 <= code && code <= 0xabbf) {
        code - 0x97d0
    } else if code == 0x1e60 || code == 0x1e9b {
        0x1e61
    } else {
        fold_cyrillic(code)
    }
}

fn fold_cyrillic(code: u32) -> (r: u32)
    ensures
        r == cyrillic_folding(code),
{
    if code == 0x1c80 {
        0x432
    } else if code == 0x1c81 {
        0x434
    } else if code == 0x1c82 {
        0x43e
    } else if code == 0x1c83 {
        0x441
    } else if code == 0x1c84 || code == 0x1c85 {
        0x442
    } else if code == 0x1c86 {
        0x44a
    } else if code == 0x1c87 || code == 0x462 {
        0x463
    } else if code == 0x1c88 || code == 0xa64a {
        0xa64b
    } else {
        code
    }
}

fn late_letter(c: char) -> (r: bool)
    ensures
        r == is_late_letter(c),
{
    c == '\u{b5}' || c == '\u{17f}' || c == '\u{345}' || c == '\u{3c2}' || ('\u{3d0}' <= c && c
        <= '\u{3d1}') || ('\u{3d5}' <= c && c <= '\u{3d6}') || ('\u{3f0}' <= c && c <= '\u{3f1}')
        || c == '\u{3f5}' || ('\u{13f8}' <= c && c <= '\u{13fd}') || ('\u{1c80}' <= c && c
        <= '\u{1c88}') || c == '\u{1e9b}' || c == '\u{1fbe}' || ('\u{ab70}' <= c && c
        <= '\u{abbf}')
}

fn accented(c: char) -> (r: bool)
    ensures
        r == may_have_accent(c),
{
    ('\u{c0}' <= c && c <= '\u{36f}') || ('\u{1d00}' <= c && c <= '\u{1eff}') || ('\u{2071}' <= c
        && c <= '\u{2184}') || ('\u{2c60}' <= c && c <= '\u{2c7f}') || ('\u{a78d}' <= c && c
        <= '\u{a7c5}')
}

fn holds_late_letter(text: &str, folded: u32) -> (r: bool)
    ensures
        r == has_late_letter(text@, folded),
{
    let chars = chars_of(text);
    let mut i: usize = 0;
    while i < chars.len()
        invariant
            chars@ == text@,
            i <= chars@.len(),
            forall|k: int|
                0 <= k < i ==> !(is_late_letter(#[trigger] text@[k]) && folding(text@[k])
                    == folded),
        decreases chars@.len() - i,
    {
        if late_letter(chars[i]) && fold(chars[i]) == folded {
            assert(is_late_letter(text@[i as int]));
            return true;
        }
        i = i + 1;
    }
    false
}

/// What a word becomes, and whether it holds an accent.
fn measure(chars: &Vec<char>, from: usize, to: usize) -> (r: (usize, bool))
    requires
        from <= to <= chars@.len(),
        chars@.len() <= u32::MAX / 68,
    ensures
        r.0 == pattern_size(chars@.subrange(from as int, to as int)),
        r.0 <= 2 * (to - from),
        r.1 == has_accent(chars@.subrange(from as int, to as int)),
{
    let ghost word = chars@.subrange(from as int, to as int);
    let mut ascii = true;
    let mut accent = false;
    let mut extra: usize = 0;
    let mut i: usize = from;
    while i < to
        invariant
            from <= i <= to <= chars@.len(),
            chars@.len() <= u32::MAX / 68,
            word == chars@.subrange(from as int, to as int),
            extra <= i - from,
            extra == backslashes(word.take(i - from)),
            ascii == is_ascii(word.take(i - from)),
            accent == has_accent(word.take(i - from)),
        decreases to - i,
    {
        let c = chars[i];
        let ghost head = word.take(i - from);
        let ghost next = word.take(i + 1 - from);
        proof {
            assert(next.drop_last() =~= head);
            assert(next.last() == c);
            assert(forall|k: int| 0 <= k < head.len() ==> next[k] == head[k]);
            assert(next[i - from] == c);
        }
        if c == '\\' {
            extra = extra + 1;
        }
        if c > '\u{7f}' {
            ascii = false;
        }
        if accented(c) {
            accent = true;
        }
        proof {
            if is_ascii(head) && c <= '\u{7f}' {
                assert(is_ascii(next));
            } else if !is_ascii(head) {
                let k = choose|k: int| 0 <= k < head.len() && !(#[trigger] head[k] <= '\u{7f}');
                assert(!(next[k] <= '\u{7f}'));
            }
            if has_accent(head) {
                let k = choose|k: int| 0 <= k < head.len() && may_have_accent(#[trigger] head[k]);
                assert(may_have_accent(next[k]));
            }
            if has_accent(next) && !may_have_accent(c) {
                let k = choose|k: int| 0 <= k < next.len() && may_have_accent(#[trigger] next[k]);
                assert(may_have_accent(head[k]));
            }
        }
        i = i + 1;
    }
    assert(word.take(to - from) =~= word);
    (
        if ascii {
            to - from
        } else {
            to - from + extra
        },
        accent,
    )
}

fn can_match_word(chars: &Vec<char>, from: usize, to: usize, text: &str) -> (r: bool)
    requires
        from <= to <= chars@.len(),
        chars@.len() <= u32::MAX / 68,
        vstd::utf8::encode_utf8(text@).len() <= TEXT_LIMIT,
    ensures
        r == word_matchable(chars@.subrange(from as int, to as int), text@),
{
    let (size, accent) = measure(chars, from, to);
    let bytes: usize = text.as_bytes().len();
    assert(size * bytes <= 126_322_568 * 4_294_967_295) by (nonlinear_arith)
        requires
            size <= 126_322_568,
            bytes <= 4_294_967_295,
    ;
    let cells: u64 = size as u64 * bytes as u64;
    if cells > usize::MAX as u64 || (size > MATCH_LIMIT && text.unicode_len() > MATCH_LIMIT) {
        return false;
    }
    !(to - from > 1 && (chars[to - 1] != '$' || chars[to - 2] == '\\') && accent
        && holds_late_letter(text, fold(chars[from])))
}

proof fn lemma_word_is(query: Seq<char>, start: int, i: int, from: int, to: int)
    requires
        0 <= start <= i <= query.len(),
        start == 0 || separates(query, start - 1),
        forall|k: int| start <= k < i ==> !#[trigger] separates(query, k),
        is_word(query, from, to),
        start <= to <= i,
    ensures
        from == start,
        to == i,
{
    if to < i {
        assert(separates(query, to));
    }
    if from < start {
        assert(separates(query, start - 1));
    }
    if from > start {
        assert(separates(query, from - 1));
    }
}

/// Whether a query can be matched against a text.
pub fn can_match(query: &str, text: &str) -> (r: bool)
    ensures
        r == matchable(query@, text@),
{
    let chars = chars_of(query);
    let typed: usize = chars.len();
    if typed == 0 {
        return true;
    }
    let size: usize = text.as_bytes().len();
    if size as u64 > TEXT_LIMIT as u64 || typed as u64 > 4_294_967_295 / 68 {
        return false;
    }
    let ghost all = query@;
    let mut start: usize = 0;
    let mut i: usize = 0;
    while i < typed
        invariant
            all == query@,
            all == chars@,
            typed == all.len(),
            typed <= u32::MAX / 68,
            vstd::utf8::encode_utf8(text@).len() <= TEXT_LIMIT,
            start <= i <= typed,
            start == 0 || separates(all, start - 1),
            forall|k: int| start <= k < i ==> !#[trigger] separates(all, k),
            forall|from: int, to: int| #[trigger]
                is_word(all, from, to) && to < start ==> word_matchable(
                    all.subrange(from, to),
                    text@,
                ),
        decreases typed - i,
    {
        let ends = chars[i] == ' ' && (i == 0 || chars[i - 1] != '\\');
        assert(ends == separates(all, i as int));
        if ends {
            assert(is_word(all, start as int, i as int));
            if !can_match_word(&chars, start, i, text) {
                return false;
            }
            assert forall|from: int, to: int| #[trigger]
                is_word(all, from, to) && to < i + 1 implies word_matchable(
                all.subrange(from, to),
                text@,
            ) by {
                if to >= start {
                    lemma_word_is(all, start as int, i as int, from, to);
                }
            }
            start = i + 1;
        }
        i = i + 1;
    }
    let last = can_match_word(&chars, start, typed, text);
    assert(is_word(all, start as int, typed as int));
    assert forall|from: int, to: int| #[trigger]
        is_word(all, from, to) && last implies word_matchable(all.subrange(from, to), text@) by {
        if to >= start {
            lemma_word_is(all, start as int, typed as int, from, to);
        }
    }
    last
}

/// A text matches where the matcher gives it a score, and that is the score of
/// the match.
pub proof fn law_match_has_the_score(query: Seq<char>, text: Seq<char>)
    ensures
        match nucleo_score(query, text) {
            Some(n) => matched(query, text) is Some && matched(query, text)->0.score == n,
            None => matched(query, text) is None,
        },
{
}

proof fn lemma_plain_words(query: Seq<char>, from: int, to: int)
    requires
        is_ascii(query),
        0 <= from <= to <= query.len(),
    ensures
        pattern_size(query.subrange(from, to)) <= query.len(),
        !has_accent(query.subrange(from, to)),
{
    let word = query.subrange(from, to);
    assert forall|i: int| 0 <= i < word.len() implies #[trigger] word[i] <= '\u{7f}' by {
        assert(word[i] == query[from + i]);
    }
}

/// A query in plain letters, digits and signs can be matched against every text
/// of up to a megabyte, whatever that text holds, as long as the query has no
/// more than two thousand characters.
pub proof fn law_plain_queries_can_be_matched(query: Seq<char>, text: Seq<char>)
    requires
        is_ascii(query),
        query.len() <= 2000,
        vstd::utf8::encode_utf8(text).len() <= 1_000_000,
    ensures
        matchable(query, text),
{
    assert forall|from: int, to: int| #[trigger] is_word(query, from, to) implies word_matchable(
        query.subrange(from, to),
        text,
    ) by {
        lemma_plain_words(query, from, to);
        let size = pattern_size(query.subrange(from, to));
        let bytes = vstd::utf8::encode_utf8(text).len();
        assert(size * bytes <= 2000 * 1_000_000) by (nonlinear_arith)
            requires
                size <= 2000,
                bytes <= 1_000_000,
        ;
    }
}

} // verus!
