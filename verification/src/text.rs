//! Text as sequences of characters: the searching, cutting and number
//! reading that the rest of the library is stated over.
use vstd::prelude::*;
use vstd::string::*;
use vstd::utf8::{encode_scalar, encode_utf8};

verus! {

/// `String::push` puts one character behind those that the string holds.
pub assume_specification[ String::push ](text: &mut String, ch: char)
    ensures
        final(text)@ == old(text)@.push(ch),
;

/// Whether `c` has the Unicode `White_Space` property.
pub open spec fn is_space(c: char) -> bool {
    ||| '\u{9}' <= c <= '\u{d}'
    ||| c == ' '
    ||| c == '\u{85}'
    ||| c == '\u{a0}'
    ||| c == '\u{1680}'
    ||| '\u{2000}' <= c <= '\u{200a}'
    ||| c == '\u{2028}'
    ||| c == '\u{2029}'
    ||| c == '\u{202f}'
    ||| c == '\u{205f}'
    ||| c == '\u{3000}'
}

/// Whether `c` is an invisible formatting character: a zero width mark, a
/// direction mark, an embedding or an isolate.
pub open spec fn is_format_mark(c: char) -> bool {
    ||| '\u{200b}' <= c <= '\u{200f}'
    ||| c == '\u{61c}'
    ||| c == '\u{2060}'
    ||| c == '\u{feff}'
    ||| '\u{202a}' <= c <= '\u{202e}'
    ||| '\u{2066}' <= c <= '\u{2069}'
}

/// A set of characters to cut from the ends of a text.
#[derive(Clone, Copy, Debug, PartialEq, Eq)]
pub enum Class {
    /// White space.
    Space,
    /// White space and formatting characters.
    TitlePadding,
    /// One given character.
    Just(char),
}

impl Class {
    pub open spec fn has(self, c: char) -> bool {
        match self {
            Class::Space => is_space(c),
            Class::TitlePadding => is_space(c) || is_format_mark(c),
            Class::Just(one) => c == one,
        }
    }

    pub fn contains(self, c: char) -> (r: bool)
        ensures
            r == self.has(c),
    {
        match self {
            Class::Space => whitespace(c),
            Class::TitlePadding => whitespace(c) || format_mark(c),
            Class::Just(one) => c == one,
        }
    }
}

fn whitespace(c: char) -> (r: bool)
    ensures
        r == is_space(c),
{
    ('\u{9}' <= c && c <= '\u{d}') || c == ' ' || c == '\u{85}' || c == '\u{a0}'
        || c == '\u{1680}' || ('\u{2000}' <= c && c <= '\u{200a}') || c == '\u{2028}'
        || c == '\u{2029}' || c == '\u{202f}' || c == '\u{205f}' || c == '\u{3000}'
}

fn format_mark(c: char) -> (r: bool)
    ensures
        r == is_format_mark(c),
{
    ('\u{200b}' <= c && c <= '\u{200f}') || c == '\u{61c}' || c == '\u{2060}'
        || c == '\u{feff}' || ('\u{202a}' <= c && c <= '\u{202e}')
        || ('\u{2066}' <= c && c <= '\u{2069}')
}

/// The characters of a text, one by one.
pub fn chars_of(text: &str) -> (r: Vec<char>)
    ensures
        r@ == text@,
{
    let mut r: Vec<char> = Vec::new();
    for c in iter: text.chars()
        invariant
            r@ == text@.take(iter.index() as int),
            iter.seq() == text@,
    {
        r.push(c);
    }
    assert(text@.take(text@.len() as int) == text@);
    r
}

/// The characters from `from` up to `to` as a text.
pub fn text_of(chars: &Vec<char>, from: usize, to: usize) -> (r: String)
    requires
        from <= to <= chars@.len(),
    ensures
        r@ == chars@.subrange(from as int, to as int),
{
    let mut r = String::new();
    let mut i: usize = from;
    while i < to
        invariant
            from <= i <= to <= chars@.len(),
            r@ == chars@.subrange(from as int, i as int),
        decreases to - i,
    {
        r.push(chars[i]);
        i = i + 1;
    }
    r
}

/// Whether two texts hold the same characters.
pub fn same(a: &str, b: &str) -> (r: bool)
    ensures
        r == (a@ == b@),
{
    let x = a.as_bytes();
    let y = b.as_bytes();
    proof {
        vstd::utf8::encode_utf8_decode_utf8(a@);
        vstd::utf8::encode_utf8_decode_utf8(b@);
    }
    if x.len() != y.len() {
        return false;
    }
    let mut i: usize = 0;
    while i < x.len()
        invariant
            i <= x@.len(),
            x@.len() == y@.len(),
            x@ == vstd::utf8::encode_utf8(a@),
            y@ == vstd::utf8::encode_utf8(b@),
            forall|k: int| 0 <= k < i ==> x@[k] == y@[k],
        decreases x@.len() - i,
    {
        if x[i] != y[i] {
            return false;
        }
        i = i + 1;
    }
    assert(x@ =~= y@);
    true
}

/// The characters that each text of a list holds.
pub open spec fn texts(list: Seq<String>) -> Seq<Seq<char>> {
    list.map_values(|t: String| t@)
}

// ---------------------------------------------------------------------------
// Cutting at the ends
// ---------------------------------------------------------------------------

/// `s` without the longest run of characters of `class` at its start.
pub open spec fn trim_start(s: Seq<char>, class: Class) -> Seq<char>
    decreases s.len(),
{
    if s.len() > 0 && class.has(s[0]) {
        trim_start(s.drop_first(), class)
    } else {
        s
    }
}

/// `s` without the longest run of characters of `class` at its end.
pub open spec fn trim_end(s: Seq<char>, class: Class) -> Seq<char>
    decreases s.len(),
{
    if s.len() > 0 && class.has(s.last()) {
        trim_end(s.drop_last(), class)
    } else {
        s
    }
}

/// `s` without the characters of `class` at its two ends.
pub open spec fn trim(s: Seq<char>, class: Class) -> Seq<char> {
    trim_end(trim_start(s, class), class)
}

/// What is left after cutting at the start is a tail of the text, and does
/// not begin with a character of the class.
pub proof fn lemma_trim_start(s: Seq<char>, class: Class)
    ensures
        trim_start(s, class).len() <= s.len(),
        trim_start(s, class) == s.skip(s.len() - trim_start(s, class).len()),
        trim_start(s, class).len() > 0 ==> !class.has(trim_start(s, class)[0]),
        forall|i: int|
            0 <= i < s.len() - trim_start(s, class).len() ==> class.has(#[trigger] s[i]),
    decreases s.len(),
{
    if s.len() > 0 && class.has(s[0]) {
        let rest = s.drop_first();
        lemma_trim_start(rest, class);
        assert(trim_start(s, class) =~= s.skip(s.len() - trim_start(s, class).len()));
        assert forall|i: int| 0 <= i < s.len() - trim_start(s, class).len() implies class.has(
            #[trigger] s[i],
        ) by {
            if i > 0 {
                assert(rest[i - 1] == s[i]);
            }
        }
    } else {
        assert(s.skip(0) =~= s);
    }
}

/// What is left after cutting at the end is a head of the text, and does not
/// end with a character of the class.
pub proof fn lemma_trim_end(s: Seq<char>, class: Class)
    ensures
        trim_end(s, class).len() <= s.len(),
        trim_end(s, class) == s.take(trim_end(s, class).len() as int),
        trim_end(s, class).len() > 0 ==> !class.has(trim_end(s, class).last()),
        forall|i: int| trim_end(s, class).len() <= i < s.len() ==> class.has(#[trigger] s[i]),
    decreases s.len(),
{
    if s.len() > 0 && class.has(s.last()) {
        let rest = s.drop_last();
        lemma_trim_end(rest, class);
        assert(trim_end(s, class) =~= s.take(trim_end(s, class).len() as int));
        assert forall|i: int| trim_end(s, class).len() <= i < s.len() implies class.has(
            #[trigger] s[i],
        ) by {
            if i < s.len() - 1 {
                assert(rest[i] == s[i]);
            }
        }
    } else {
        assert(s.take(s.len() as int) =~= s);
    }
}

/// A text whose ends are outside the class is left as it is.
pub proof fn lemma_trim_nothing(s: Seq<char>, class: Class)
    requires
        s.len() > 0 ==> !class.has(s[0]) && !class.has(s.last()),
    ensures
        trim(s, class) == s,
{
}

/// Neither end of a trimmed text is in the class.
pub proof fn lemma_trim_ends(s: Seq<char>, class: Class)
    ensures
        trim(s, class).len() <= s.len(),
        trim(s, class).len() > 0 ==> !class.has(trim(s, class)[0]) && !class.has(
            trim(s, class).last(),
        ),
{
    lemma_trim_start(s, class);
    lemma_trim_end(trim_start(s, class), class);
}

/// Trimming a text twice is trimming it once.
pub proof fn lemma_trim_twice(s: Seq<char>, class: Class)
    ensures
        trim(trim(s, class), class) == trim(s, class),
{
    lemma_trim_ends(s, class);
    lemma_trim_nothing(trim(s, class), class);
}

/// The first place at or after `from` whose character is outside the class.
fn skip_class(chars: &Vec<char>, from: usize, class: Class) -> (r: usize)
    requires
        from <= chars@.len(),
    ensures
        from <= r <= chars@.len(),
        chars@.skip(r as int) == trim_start(chars@.skip(from as int), class),
{
    let mut i: usize = from;
    while i < chars.len() && class.contains(chars[i])
        invariant
            from <= i <= chars@.len(),
            trim_start(chars@.skip(from as int), class) == trim_start(
                chars@.skip(i as int),
                class,
            ),
        decreases chars@.len() - i,
    {
        assert(chars@.skip(i as int).drop_first() =~= chars@.skip(i + 1));
        i = i + 1;
    }
    i
}

/// The place behind the last character before `to` that is outside the class.
fn skip_class_back(chars: &Vec<char>, from: usize, to: usize, class: Class) -> (r: usize)
    requires
        from <= to <= chars@.len(),
    ensures
        from <= r <= to,
        chars@.subrange(from as int, r as int) == trim_end(
            chars@.subrange(from as int, to as int),
            class,
        ),
{
    let mut i: usize = to;
    while i > from && class.contains(chars[i - 1])
        invariant
            from <= i <= to <= chars@.len(),
            trim_end(chars@.subrange(from as int, to as int), class) == trim_end(
                chars@.subrange(from as int, i as int),
                class,
            ),
        decreases i,
    {
        assert(chars@.subrange(from as int, i as int).drop_last() =~= chars@.subrange(
            from as int,
            i - 1,
        ));
        i = i - 1;
    }
    i
}

/// Cuts the characters of `class` from both ends of a text.
pub fn trimmed(text: &str, class: Class) -> (r: String)
    ensures
        r@ == trim(text@, class),
{
    let chars = chars_of(text);
    assert(chars@.skip(0) =~= chars@);
    let from = skip_class(&chars, 0, class);
    assert(chars@.skip(from as int) =~= chars@.subrange(from as int, chars@.len() as int));
    let to = skip_class_back(&chars, from, chars.len(), class);
    text_of(&chars, from, to)
}

/// Cuts the characters of `class` from the end of a text.
pub fn trimmed_end(text: &str, class: Class) -> (r: String)
    ensures
        r@ == trim_end(text@, class),
{
    let chars = chars_of(text);
    assert(chars@.subrange(0, chars@.len() as int) =~= chars@);
    let to = skip_class_back(&chars, 0, chars.len(), class);
    text_of(&chars, 0, to)
}

/// What stands before `suffix`, where the text ends with it.
pub open spec fn without_suffix(s: Seq<char>, suffix: Seq<char>) -> Option<Seq<char>> {
    if suffix.is_suffix_of(s) {
        Some(s.take(s.len() - suffix.len()))
    } else {
        None
    }
}

/// What stands behind `prefix`, where the text begins with it.
pub open spec fn without_prefix(s: Seq<char>, prefix: Seq<char>) -> Option<Seq<char>> {
    if prefix.is_prefix_of(s) {
        Some(s.skip(prefix.len() as int))
    } else {
        None
    }
}

/// The view of an optional text.
pub open spec fn opt_text(t: Option<String>) -> Option<Seq<char>> {
    match t {
        Some(s) => Some(s@),
        None => None,
    }
}

pub fn strip_suffix(text: &str, suffix: &str) -> (r: Option<String>)
    ensures
        opt_text(r) == without_suffix(text@, suffix@),
{
    let chars = chars_of(text);
    let tail = chars_of(suffix);
    if tail.len() > chars.len() {
        return None;
    }
    let at = chars.len() - tail.len();
    if occurs(&chars, &tail, at) {
        assert(chars@.subrange(at as int, chars@.len() as int) =~= tail@);
        assert(suffix@.is_suffix_of(text@));
        assert(chars@.subrange(0, at as int) =~= text@.take(at as int));
        Some(text_of(&chars, 0, at))
    } else {
        assert(!suffix@.is_suffix_of(text@)) by {
            if suffix@.is_suffix_of(text@) {
                assert(text@.subrange(at as int, text@.len() as int) =~= suffix@);
            }
        }
        None
    }
}

pub fn strip_prefix(text: &str, prefix: &str) -> (r: Option<String>)
    ensures
        opt_text(r) == without_prefix(text@, prefix@),
{
    let chars = chars_of(text);
    let head = chars_of(prefix);
    if head.len() > chars.len() {
        return None;
    }
    if occurs(&chars, &head, 0) {
        assert(chars@.subrange(0, head@.len() as int) =~= head@);
        assert(prefix@.is_prefix_of(text@));
        assert(chars@.subrange(head@.len() as int, chars@.len() as int) =~= text@.skip(
            head@.len() as int,
        ));
        Some(text_of(&chars, head.len(), chars.len()))
    } else {
        assert(!prefix@.is_prefix_of(text@)) by {
            if prefix@.is_prefix_of(text@) {
                assert(text@.subrange(0, prefix@.len() as int) =~= prefix@);
            }
        }
        None
    }
}

pub fn ends_with(text: &str, suffix: &str) -> (r: bool)
    ensures
        r == suffix@.is_suffix_of(text@),
{
    strip_suffix(text, suffix).is_some()
}

// ---------------------------------------------------------------------------
// Searching
// ---------------------------------------------------------------------------

/// Whether `pat` stands in `s` at place `i`.
pub open spec fn occurs_at(s: Seq<char>, pat: Seq<char>, i: int) -> bool {
    0 <= i && i + pat.len() <= s.len() && s.subrange(i, i + pat.len()) == pat
}

/// The first place at or after `i` at which `pat` stands in `s`.
pub open spec fn find_from(s: Seq<char>, pat: Seq<char>, i: int) -> Option<int>
    decreases s.len() - i + 1,
{
    if i < 0 || i + pat.len() > s.len() {
        None
    } else if occurs_at(s, pat, i) {
        Some(i)
    } else {
        find_from(s, pat, i + 1)
    }
}

/// The first place at which `pat` stands in `s`.
pub open spec fn find(s: Seq<char>, pat: Seq<char>) -> Option<int> {
    find_from(s, pat, 0)
}

/// Whether `pat` stands anywhere in `s`.
pub open spec fn has_text(s: Seq<char>, pat: Seq<char>) -> bool {
    exists|i: int| occurs_at(s, pat, i)
}

/// `find_from` gives the least place, and none only where there is none.
pub proof fn lemma_find_from(s: Seq<char>, pat: Seq<char>, i: int)
    requires
        0 <= i,
    ensures
        match find_from(s, pat, i) {
            Some(k) => i <= k && occurs_at(s, pat, k) && forall|j: int|
                i <= j < k ==> !occurs_at(s, pat, j),
            None => forall|j: int| i <= j ==> !occurs_at(s, pat, j),
        },
    decreases s.len() - i + 1,
{
    if i + pat.len() <= s.len() && !occurs_at(s, pat, i) {
        lemma_find_from(s, pat, i + 1);
    }
}

/// The place that `find` gives is the one place that has the two properties.
pub proof fn lemma_find_is(s: Seq<char>, pat: Seq<char>, k: int)
    requires
        occurs_at(s, pat, k),
        forall|j: int| 0 <= j < k ==> !occurs_at(s, pat, j),
    ensures
        find(s, pat) == Some(k),
{
    lemma_find_from(s, pat, 0);
}

/// A text holds `pat` exactly where `find` finds it.
pub proof fn lemma_find_some(s: Seq<char>, pat: Seq<char>)
    ensures
        find(s, pat) is Some == has_text(s, pat),
{
    lemma_find_from(s, pat, 0);
}

fn occurs(chars: &Vec<char>, pat: &Vec<char>, at: usize) -> (r: bool)
    requires
        at + pat@.len() <= chars@.len(),
    ensures
        r == occurs_at(chars@, pat@, at as int),
{
    let n = chars.len();
    let mut k: usize = 0;
    while k < pat.len()
        invariant
            k <= pat@.len(),
            n == chars@.len(),
            at + pat@.len() <= n,
            forall|j: int| 0 <= j < k ==> chars@[at + j] == pat@[j],
        decreases pat@.len() - k,
    {
        if chars[at + k] != pat[k] {
            assert(chars@.subrange(at as int, at + pat@.len())[k as int] != pat@[k as int]);
            return false;
        }
        k = k + 1;
    }
    assert(chars@.subrange(at as int, at + pat@.len()) =~= pat@);
    true
}

/// Finds the first place, counted in characters, at which `pat` stands.
pub fn position(text: &str, pat: &str) -> (r: Option<usize>)
    ensures
        match r {
            Some(k) => find(text@, pat@) == Some(k as int),
            None => find(text@, pat@) is None,
        },
{
    let chars = chars_of(text);
    let wanted = chars_of(pat);
    if wanted.len() > chars.len() {
        return None;
    }
    let last = chars.len() - wanted.len();
    let mut i: usize = 0;
    while i <= last
        invariant
            chars@ == text@,
            wanted@ == pat@,
            last + wanted@.len() == chars@.len(),
            i <= last + 1,
            find(text@, pat@) == find_from(text@, pat@, i as int),
        decreases last + 1 - i,
    {
        if occurs(&chars, &wanted, i) {
            return Some(i);
        }
        if i == last {
            assert(find_from(text@, pat@, i + 1) is None);
            return None;
        }
        i = i + 1;
    }
    None
}

pub fn contains(text: &str, pat: &str) -> (r: bool)
    ensures
        r == has_text(text@, pat@),
{
    proof {
        lemma_find_some(text@, pat@);
    }
    position(text, pat).is_some()
}

// ---------------------------------------------------------------------------
// Splitting
// ---------------------------------------------------------------------------

/// The place of the first character of `class`.
pub open spec fn first_of(s: Seq<char>, class: Class) -> Option<int>
    decreases s.len(),
{
    if s.len() == 0 {
        None
    } else if class.has(s[0]) {
        Some(0)
    } else {
        match first_of(s.drop_first(), class) {
            Some(i) => Some(i + 1),
            None => None,
        }
    }
}

pub proof fn lemma_first_of(s: Seq<char>, class: Class)
    ensures
        match first_of(s, class) {
            Some(k) => 0 <= k < s.len() && class.has(s[k]) && forall|j: int|
                0 <= j < k ==> !class.has(#[trigger] s[j]),
            None => forall|j: int| 0 <= j < s.len() ==> !class.has(#[trigger] s[j]),
        },
    decreases s.len(),
{
    if s.len() > 0 && !class.has(s[0]) {
        let rest = s.drop_first();
        lemma_first_of(rest, class);
        match first_of(rest, class) {
            Some(k) => {
                assert forall|j: int| 0 <= j < k + 1 implies !class.has(#[trigger] s[j]) by {
                    if j > 0 {
                        assert(rest[j - 1] == s[j]);
                    }
                }
            },
            None => {
                assert forall|j: int| 0 <= j < s.len() implies !class.has(#[trigger] s[j]) by {
                    if j > 0 {
                        assert(rest[j - 1] == s[j]);
                    }
                }
            },
        }
    }
}

pub proof fn lemma_first_of_is(s: Seq<char>, class: Class, k: int)
    requires
        0 <= k < s.len(),
        class.has(s[k]),
        forall|j: int| 0 <= j < k ==> !class.has(#[trigger] s[j]),
    ensures
        first_of(s, class) == Some(k),
{
    lemma_first_of(s, class);
    match first_of(s, class) {
        Some(i) => {
            if i < k {
                assert(!class.has(s[i]));
            }
        },
        None => {},
    }
}

pub proof fn lemma_first_of_none(s: Seq<char>, class: Class)
    requires
        forall|j: int| 0 <= j < s.len() ==> !class.has(#[trigger] s[j]),
    ensures
        first_of(s, class) is None,
{
    lemma_first_of(s, class);
}

/// The pieces of `s` between the first `n - 1` characters of `class`; the
/// last piece holds what is left.
pub open spec fn splitn(s: Seq<char>, n: nat, class: Class) -> Seq<Seq<char>>
    decreases n,
{
    if n <= 1 {
        seq![s]
    } else {
        match first_of(s, class) {
            Some(k) => seq![s.take(k)] + splitn(s.skip(k + 1), (n - 1) as nat, class),
            None => seq![s],
        }
    }
}

/// The pieces of `s` between its characters of `class`.
pub open spec fn split(s: Seq<char>, class: Class) -> Seq<Seq<char>>
    decreases s.len(),
{
    match first_of(s, class) {
        Some(k) => if 0 <= k < s.len() {
            seq![s.take(k)] + split(s.skip(k + 1), class)
        } else {
            seq![s]
        },
        None => seq![s],
    }
}

/// The place of the first character of `class` at or after `from`.
fn scan(chars: &Vec<char>, from: usize, class: Class) -> (r: Option<usize>)
    requires
        from <= chars@.len(),
    ensures
        match r {
            Some(k) => from <= k < chars@.len() && k < usize::MAX && first_of(chars@.skip(from as int), class)
                == Some(k - from),
            None => first_of(chars@.skip(from as int), class) is None,
        },
{
    let mut i: usize = from;
    while i < chars.len()
        invariant
            from <= i <= chars@.len(),
            forall|j: int|
                0 <= j < i - from ==> !class.has(#[trigger] chars@.skip(from as int)[j]),
        decreases chars@.len() - i,
    {
        if class.contains(chars[i]) {
            proof {
                lemma_first_of_is(chars@.skip(from as int), class, i - from);
            }
            return Some(i);
        }
        i = i + 1;
    }
    proof {
        lemma_first_of_none(chars@.skip(from as int), class);
    }
    None
}

/// The place of the first character of `class`.
pub fn first_place(text: &str, class: Class) -> (r: Option<usize>)
    ensures
        match r {
            Some(k) => k < text@.len() && k < usize::MAX && first_of(text@, class) == Some(k as int),
            None => first_of(text@, class) is None,
        },
{
    let chars = chars_of(text);
    assert(chars@.skip(0) =~= text@);
    scan(&chars, 0, class)
}

/// Splits a text at every character of `class`.
pub fn pieces(text: &str, class: Class) -> (r: Vec<String>)
    ensures
        texts(r@) == split(text@, class),
{
    let chars = chars_of(text);
    let mut out: Vec<String> = Vec::new();
    let mut from: usize = 0;
    assert(chars@.skip(0) =~= text@);
    assert(texts(out@) + split(text@, class) =~= split(text@, class));
    loop
        invariant
            chars@ == text@,
            from <= chars@.len(),
            split(text@, class) == texts(out@) + split(chars@.skip(from as int), class),
        decreases chars@.len() - from,
    {
        let ghost rest = chars@.skip(from as int);
        let ghost before = out@;
        match scan(&chars, from, class) {
            Some(k) => {
                let piece = text_of(&chars, from, k);
                out.push(piece);
                proof {
                    assert(piece@ =~= rest.take(k - from));
                    assert(rest.skip(k - from + 1) =~= chars@.skip(k + 1));
                    assert(texts(out@) =~= texts(before).push(piece@));
                    assert(texts(out@) + split(chars@.skip(k + 1), class) =~= texts(before) + (
                    seq![piece@] + split(chars@.skip(k + 1), class)));
                }
                from = k + 1;
            },
            None => {
                let piece = text_of(&chars, from, chars.len());
                out.push(piece);
                proof {
                    assert(piece@ =~= rest);
                    assert(texts(out@) =~= texts(before) + seq![piece@]);
                }
                return out;
            },
        }
    }
}

/// Splits a text into at most `n` pieces.
pub fn first_pieces(text: &str, n: usize, class: Class) -> (r: Vec<String>)
    ensures
        texts(r@) == splitn(text@, n as nat, class),
{
    let chars = chars_of(text);
    let mut out: Vec<String> = Vec::new();
    let mut from: usize = 0;
    let mut left: usize = n;
    assert(chars@.skip(0) =~= text@);
    assert(texts(out@) + splitn(text@, n as nat, class) =~= splitn(text@, n as nat, class));
    while left > 1
        invariant
            chars@ == text@,
            from <= chars@.len(),
            splitn(text@, n as nat, class) == texts(out@) + splitn(
                chars@.skip(from as int),
                left as nat,
                class,
            ),
        decreases left,
    {
        let ghost rest = chars@.skip(from as int);
        let ghost before = out@;
        match scan(&chars, from, class) {
            Some(k) => {
                let piece = text_of(&chars, from, k);
                out.push(piece);
                proof {
                    let tail = splitn(chars@.skip(k + 1), (left - 1) as nat, class);
                    assert(piece@ =~= rest.take(k - from));
                    assert(rest.skip(k - from + 1) =~= chars@.skip(k + 1));
                    assert(texts(out@) =~= texts(before).push(piece@));
                    assert(texts(out@) + tail =~= texts(before) + (seq![piece@] + tail));
                }
                from = k + 1;
                left = left - 1;
            },
            None => {
                let piece = text_of(&chars, from, chars.len());
                out.push(piece);
                proof {
                    assert(piece@ =~= rest);
                    assert(texts(out@) =~= texts(before) + seq![piece@]);
                }
                return out;
            },
        }
    }
    let ghost before = out@;
    let piece = text_of(&chars, from, chars.len());
    out.push(piece);
    proof {
        assert(piece@ =~= chars@.skip(from as int));
        assert(texts(out@) =~= texts(before) + seq![piece@]);
    }
    out
}

/// A line without the carriage return that stood before its line feed.
pub open spec fn without_cr(line: Seq<char>) -> Seq<char> {
    if line.len() > 0 && line.last() == '\r' {
        line.drop_last()
    } else {
        line
    }
}

/// The lines of `s`. A line ends with a line feed, or with a carriage return
/// and a line feed; the last line may end without either.
pub open spec fn lines(s: Seq<char>) -> Seq<Seq<char>>
    decreases s.len(),
{
    if s.len() == 0 {
        seq![]
    } else {
        match first_of(s, Class::Just('\n')) {
            Some(k) => if 0 <= k < s.len() {
                seq![without_cr(s.take(k))] + lines(s.skip(k + 1))
            } else {
                seq![s]
            },
            None => seq![s],
        }
    }
}

/// Splits a text into its lines.
pub fn lines_of(text: &str) -> (r: Vec<String>)
    ensures
        texts(r@) == lines(text@),
{
    let chars = chars_of(text);
    let mut out: Vec<String> = Vec::new();
    let mut from: usize = 0;
    assert(chars@.skip(0) =~= text@);
    assert(texts(out@) + lines(text@) =~= lines(text@));
    while from < chars.len()
        invariant
            chars@ == text@,
            from <= chars@.len(),
            lines(text@) == texts(out@) + lines(chars@.skip(from as int)),
        decreases chars@.len() - from,
    {
        let ghost rest = chars@.skip(from as int);
        let ghost before = out@;
        match scan(&chars, from, Class::Just('\n')) {
            Some(k) => {
                let to = if k > from && chars[k - 1] == '\r' {
                    k - 1
                } else {
                    k
                };
                let line = text_of(&chars, from, to);
                out.push(line);
                proof {
                    assert(line@ =~= without_cr(rest.take(k - from)));
                    assert(rest.skip(k - from + 1) =~= chars@.skip(k + 1));
                    assert(texts(out@) =~= texts(before).push(line@));
                    assert(texts(out@) + lines(chars@.skip(k + 1)) =~= texts(before) + (
                    seq![line@] + lines(chars@.skip(k + 1))));
                }
                from = k + 1;
            },
            None => {
                let line = text_of(&chars, from, chars.len());
                out.push(line);
                proof {
                    assert(line@ =~= rest);
                    assert(texts(out@) =~= texts(before) + seq![line@]);
                }
                return out;
            },
        }
    }
    assert(texts(out@) + lines(chars@.skip(from as int)) =~= texts(out@));
    out
}

// ---------------------------------------------------------------------------
// Letters
// ---------------------------------------------------------------------------

/// `c` with `A` to `Z` turned into `a` to `z`.
pub open spec fn lower(c: char) -> char {
    if 'A' <= c <= 'Z' {
        (c as u32 + 32) as char
    } else {
        c
    }
}

/// `s` with its ASCII letters in lower case.
pub open spec fn lowercase(s: Seq<char>) -> Seq<char> {
    s.map_values(|c: char| lower(c))
}

fn lowered(c: char) -> (r: char)
    ensures
        r == lower(c),
{
    if 'A' <= c && c <= 'Z' {
        let shifted: u8 = c as u8 + 32;
        shifted as char
    } else {
        c
    }
}

pub fn lowercased(text: &str) -> (r: String)
    ensures
        r@ == lowercase(text@),
{
    let chars = chars_of(text);
    let mut out = String::new();
    let mut i: usize = 0;
    while i < chars.len()
        invariant
            chars@ == text@,
            i <= chars@.len(),
            out@ == lowercase(text@.take(i as int)),
        decreases chars@.len() - i,
    {
        out.push(lowered(chars[i]));
        assert(out@ =~= lowercase(text@.take(i + 1)));
        i = i + 1;
    }
    assert(text@.take(text@.len() as int) =~= text@);
    out
}

// ---------------------------------------------------------------------------
// Numbers
// ---------------------------------------------------------------------------

/// The decimal digit for a number below ten.
pub open spec fn digit(d: nat) -> char {
    ('0' as u32 + d) as char
}

/// `n` in decimal notation, without leading zeros.
pub open spec fn decimal(n: nat) -> Seq<char>
    decreases n,
{
    if n < 10 {
        seq![digit(n)]
    } else {
        decimal(n / 10).push(digit(n % 10))
    }
}

pub open spec fn is_digit(c: char) -> bool {
    '0' <= c <= '9'
}

/// Why a text is not a number of 64 bits.
#[derive(Clone, Copy, Debug, PartialEq, Eq, Structural)]
pub enum NumberError {
    Empty,
    InvalidDigit,
    TooLarge,
}

impl NumberError {
    /// The words that describe the error.
    pub open spec fn words(self) -> Seq<char> {
        match self {
            NumberError::Empty => "cannot parse integer from empty string"@,
            NumberError::InvalidDigit => "invalid digit found in string"@,
            NumberError::TooLarge => "number too large to fit in target type"@,
        }
    }

    pub fn message(self) -> (r: &'static str)
        ensures
            r@ == self.words(),
    {
        match self {
            NumberError::Empty => "cannot parse integer from empty string",
            NumberError::InvalidDigit => "invalid digit found in string",
            NumberError::TooLarge => "number too large to fit in target type",
        }
    }
}

/// The value of a run of digits, read from left to right.
pub open spec fn digits_value(s: Seq<char>) -> Result<nat, NumberError>
    decreases s.len(),
{
    if s.len() == 0 {
        Ok(0)
    } else {
        match digits_value(s.drop_last()) {
            Err(e) => Err(e),
            Ok(v) => {
                let next = v * 10 + (s.last() as u32 - '0' as u32);
                if !is_digit(s.last()) {
                    Err(NumberError::InvalidDigit)
                } else if next > u64::MAX {
                    Err(NumberError::TooLarge)
                } else {
                    Ok(next as nat)
                }
            },
        }
    }
}

/// The number of 64 bits that a text stands for: digits, behind a plus sign
/// or not.
pub open spec fn number(s: Seq<char>) -> Result<nat, NumberError> {
    if s.len() == 0 {
        Err(NumberError::Empty)
    } else if s.len() == 1 && (s[0] == '+' || s[0] == '-') {
        Err(NumberError::InvalidDigit)
    } else if s[0] == '+' {
        digits_value(s.drop_first())
    } else {
        digits_value(s)
    }
}

/// An error, once met, stays whatever follows.
proof fn lemma_digits_error(s: Seq<char>, i: int)
    requires
        0 <= i <= s.len(),
        digits_value(s.take(i)) is Err,
    ensures
        digits_value(s) == digits_value(s.take(i)),
    decreases s.len(),
{
    if i == s.len() {
        assert(s.take(i) =~= s);
    } else {
        let rest = s.drop_last();
        assert(rest.take(i) =~= s.take(i));
        lemma_digits_error(rest, i);
    }
}

/// Reads a number of 64 bits.
pub fn read_number(text: &str) -> (r: Result<u64, NumberError>)
    ensures
        match r {
            Ok(n) => number(text@) == Ok::<nat, NumberError>(n as nat),
            Err(e) => number(text@) == Err::<nat, NumberError>(e),
        },
{
    let chars = chars_of(text);
    if chars.len() == 0 {
        return Err(NumberError::Empty);
    }
    if chars.len() == 1 && (chars[0] == '+' || chars[0] == '-') {
        return Err(NumberError::InvalidDigit);
    }
    let from: usize = if chars[0] == '+' {
        1
    } else {
        0
    };
    let ghost digits = text@.skip(from as int);
    assert(from == 0 ==> digits =~= text@);
    assert(from == 1 ==> digits =~= text@.drop_first());
    let mut value: u64 = 0;
    let mut i: usize = from;
    while i < chars.len()
        invariant
            chars@ == text@,
            from <= i <= chars@.len(),
            digits == text@.skip(from as int),
            number(text@) == digits_value(digits),
            digits_value(digits.take(i - from)) == Ok::<nat, NumberError>(value as nat),
        decreases chars@.len() - i,
    {
        let c = chars[i];
        let ghost head = digits.take(i - from + 1);
        assert(head.drop_last() =~= digits.take(i - from));
        assert(head.last() == c);
        if c < '0' || c > '9' {
            proof {
                lemma_digits_error(digits, i - from + 1);
            }
            return Err(NumberError::InvalidDigit);
        }
        let d: u64 = (c as u64) - ('0' as u64);
        if value > (u64::MAX - d) / 10 {
            proof {
                lemma_digits_error(digits, i - from + 1);
            }
            return Err(NumberError::TooLarge);
        }
        value = value * 10 + d;
        i = i + 1;
    }
    assert(digits.take(digits.len() as int) =~= digits);
    Ok(value)
}

/// Every character of a decimal number is a digit.
pub proof fn lemma_decimal_digits(n: nat)
    ensures
        decimal(n).len() > 0,
        forall|i: int| 0 <= i < decimal(n).len() ==> is_digit(#[trigger] decimal(n)[i]),
    decreases n,
{
    if n >= 10 {
        lemma_decimal_digits(n / 10);
        assert forall|i: int| 0 <= i < decimal(n).len() implies is_digit(
            #[trigger] decimal(n)[i],
        ) by {
            if i < decimal(n / 10).len() {
                assert(decimal(n)[i] == decimal(n / 10)[i]);
            }
        }
    }
}

proof fn lemma_decimal_value(n: nat)
    requires
        n <= u64::MAX,
    ensures
        digits_value(decimal(n)) == Ok::<nat, NumberError>(n),
    decreases n,
{
    reveal_with_fuel(digits_value, 2);
    if n < 10 {
        assert(decimal(n).drop_last() =~= Seq::<char>::empty());
    } else {
        lemma_decimal_value(n / 10);
        assert(decimal(n).drop_last() =~= decimal(n / 10));
    }
}

/// Reading back a number that was written in decimal gives that number.
pub proof fn law_number_of_decimal(n: u64)
    ensures
        number(decimal(n as nat)) == Ok::<nat, NumberError>(n as nat),
{
    lemma_decimal_digits(n as nat);
    lemma_decimal_value(n as nat);
    assert(is_digit(decimal(n as nat)[0]));
}

/// Writes a number in decimal.
pub fn decimal_of(n: u64) -> (r: String)
    ensures
        r@ == decimal(n as nat),
    decreases n,
{
    let d: u8 = (n % 10) as u8;
    let c: char = (48u8 + d) as char;
    if n < 10 {
        let mut out = String::new();
        out.push(c);
        assert(out@ =~= decimal(n as nat));
        out
    } else {
        let mut out = decimal_of(n / 10);
        out.push(c);
        out
    }
}

// ---------------------------------------------------------------------------
// Joining
// ---------------------------------------------------------------------------

/// The texts of a list with `sep` between them.
pub open spec fn joined(list: Seq<Seq<char>>, sep: Seq<char>) -> Seq<char>
    decreases list.len(),
{
    if list.len() == 0 {
        seq![]
    } else if list.len() == 1 {
        list[0]
    } else {
        joined(list.drop_last(), sep) + sep + list.last()
    }
}

/// A copy of some texts.
pub fn copied_texts(list: &Vec<String>) -> (r: Vec<String>)
    ensures
        texts(r@) == texts(list@),
        r@.len() == list@.len(),
{
    let mut out: Vec<String> = Vec::new();
    let mut i: usize = 0;
    while i < list.len()
        invariant
            i <= list@.len(),
            out@.len() == i,
            texts(out@) == texts(list@).take(i as int),
        decreases list@.len() - i,
    {
        out.push(list[i].clone());
        assert(texts(out@) =~= texts(list@).take(i + 1));
        i = i + 1;
    }
    assert(texts(out@) =~= texts(list@));
    out
}

pub fn join(list: &Vec<String>, sep: &str) -> (r: String)
    ensures
        r@ == joined(texts(list@), sep@),
{
    let mut out = String::new();
    let mut i: usize = 0;
    while i < list.len()
        invariant
            i <= list@.len(),
            out@ == joined(texts(list@).take(i as int), sep@),
        decreases list@.len() - i,
    {
        let ghost before = out@;
        if i > 0 {
            out.append(sep);
        }
        out.append(list[i].as_str());
        proof {
            let head = texts(list@).take(i + 1);
            assert(head.drop_last() =~= texts(list@).take(i as int));
            assert(head.last() == list@[i as int]@);
            assert(out@ =~= joined(head, sep@));
        }
        i = i + 1;
    }
    assert(texts(list@).take(list@.len() as int) =~= texts(list@));
    out
}

/// One text behind another.
pub fn glue(a: &str, b: &str) -> (r: String)
    ensures
        r@ == a@ + b@,
{
    let mut out = a.to_string();
    out.append(b);
    out
}

pub fn glue3(a: &str, b: &str, c: &str) -> (r: String)
    ensures
        r@ == a@ + b@ + c@,
{
    let mut out = glue(a, b);
    out.append(c);
    out
}

/// The text before the first `pat` and the text behind it.
pub open spec fn split_once(s: Seq<char>, pat: Seq<char>) -> Option<(Seq<char>, Seq<char>)> {
    match find(s, pat) {
        Some(k) => Some((s.take(k), s.skip(k + pat.len()))),
        None => None,
    }
}

/// Splits a text at the first `pat`.
pub fn cut<'a>(text: &'a str, pat: &str) -> (r: Option<(&'a str, &'a str)>)
    ensures
        match r {
            Some((a, b)) => split_once(text@, pat@) == Some((a@, b@)),
            None => split_once(text@, pat@) is None,
        },
{
    proof {
        lemma_find_from(text@, pat@, 0);
    }
    match position(text, pat) {
        Some(k) => {
            let n = text.unicode_len();
            let m = pat.unicode_len();
            let before = text.substring_char(0, k);
            let behind = text.substring_char(k + m, n);
            assert(before@ =~= text@.take(k as int));
            assert(behind@ =~= text@.skip(k + m));
            Some((before, behind))
        },
        None => None,
    }
}

/// A separator that begins with a character which stands nowhere else in it
/// is found at the end of a text that does not hold it.
pub proof fn lemma_cut_at(before: Seq<char>, pat: Seq<char>, behind: Seq<char>)
    requires
        pat.len() > 0,
        forall|i: int| 0 < i < pat.len() ==> #[trigger] pat[i] != pat[0],
        !has_text(before, pat),
    ensures
        split_once(before + pat + behind, pat) == Some((before, behind)),
{
    let s = before + pat + behind;
    let k = before.len() as int;
    assert(s.subrange(k, k + pat.len()) =~= pat);
    assert forall|j: int| 0 <= j < k implies !occurs_at(s, pat, j) by {
        if occurs_at(s, pat, j) {
            if j + pat.len() <= k {
                assert(before.subrange(j, j + pat.len()) =~= s.subrange(j, j + pat.len()));
                assert(occurs_at(before, pat, j));
            } else {
                assert(s.subrange(j, j + pat.len())[k - j] == s[k]);
                assert(pat[k - j] != pat[0]);
            }
        }
    }
    lemma_find_is(s, pat, k);
    assert(s.take(k) =~= before);
    assert(s.skip(k + pat.len()) =~= behind);
}

// ---------------------------------------------------------------------------
// Words
// ---------------------------------------------------------------------------

/// A piece between white space, where it is not empty.
pub open spec fn word(piece: Seq<char>) -> Option<Seq<char>> {
    if piece.len() == 0 {
        None
    } else {
        Some(piece)
    }
}

/// The words of `s`, which white space separates.
pub open spec fn words(s: Seq<char>) -> Seq<Seq<char>> {
    split(s, Class::Space).filter_map(|piece: Seq<char>| word(piece))
}

/// Splits a text into its words.
pub fn words_of(text: &str) -> (r: Vec<String>)
    ensures
        texts(r@) == words(text@),
{
    let all = pieces(text, Class::Space);
    let ghost parts = split(text@, Class::Space);
    let ghost f = |piece: Seq<char>| word(piece);
    let mut out: Vec<String> = Vec::new();
    let mut i: usize = 0;
    assert(texts(out@) =~= parts.take(0).filter_map(f));
    while i < all.len()
        invariant
            texts(all@) == parts,
            f == (|piece: Seq<char>| word(piece)),
            i <= all@.len(),
            texts(out@) == parts.take(i as int).filter_map(f),
        decreases all@.len() - i,
    {
        let ghost before = out@;
        proof {
            assert(parts[i as int] == all@[i as int]@);
            parts.lemma_filter_map_take_succ(f, i as int);
        }
        if !all[i].as_str().is_empty() {
            out.push(all[i].clone());
            assert(texts(out@) =~= texts(before) + seq![all@[i as int]@]);
        } else {
            assert(texts(out@) =~= texts(before) + Seq::empty());
        }
        i = i + 1;
    }
    assert(parts.take(parts.len() as int) =~= parts);
    out
}

// ---------------------------------------------------------------------------
// Bytes
// ---------------------------------------------------------------------------

/// The longest head of a text that takes no more than a number of bytes.
pub open spec fn head_within(s: Seq<char>, limit: nat) -> Seq<char>
    decreases s.len(),
{
    if s.len() == 0 || encode_utf8(s).len() <= limit {
        s
    } else {
        head_within(s.drop_last(), limit)
    }
}

proof fn lemma_encode_glued(a: Seq<char>, b: Seq<char>)
    ensures
        encode_utf8(a + b) == encode_utf8(a) + encode_utf8(b),
    decreases a.len(),
{
    if a.len() == 0 {
        assert(a + b =~= b);
        assert(encode_utf8(a) + encode_utf8(b) =~= encode_utf8(b));
    } else {
        assert((a + b).drop_first() =~= a.drop_first() + b);
        lemma_encode_glued(a.drop_first(), b);
        assert(encode_utf8(a + b) =~= encode_utf8(a) + encode_utf8(b));
    }
}

proof fn lemma_encode_pushed(a: Seq<char>, c: char)
    ensures
        encode_utf8(a.push(c)).len() == encode_utf8(a).len() + encode_scalar(c as u32).len(),
{
    let last = seq![c];
    lemma_encode_glued(a, last);
    assert(a + last =~= a.push(c));
    assert(last.drop_first() =~= seq![]);
    reveal_with_fuel(encode_utf8, 2);
}

proof fn lemma_encode_longer(s: Seq<char>, n: int)
    requires
        0 <= n <= s.len(),
    ensures
        encode_utf8(s.take(n)).len() <= encode_utf8(s).len(),
{
    lemma_encode_glued(s.take(n), s.skip(n));
    assert(s.take(n) + s.skip(n) =~= s);
}

proof fn lemma_head_is(s: Seq<char>, limit: nat, n: int)
    requires
        0 <= n <= s.len(),
        encode_utf8(s.take(n)).len() <= limit,
        n < s.len() ==> encode_utf8(s.take(n + 1)).len() > limit,
    ensures
        head_within(s, limit) == s.take(n),
    decreases s.len(),
{
    if n == s.len() {
        assert(s.take(n) =~= s);
    } else {
        lemma_encode_longer(s, n + 1);
        let rest = s.drop_last();
        assert(rest.take(n) =~= s.take(n));
        if n < rest.len() {
            assert(rest.take(n + 1) =~= s.take(n + 1));
        }
        lemma_head_is(rest, limit, n);
    }
}

/// The head is one of the text, it fits, and no longer one does.
pub proof fn law_head_is_longest(s: Seq<char>, limit: nat)
    ensures
        head_within(s, limit).is_prefix_of(s),
        encode_utf8(head_within(s, limit)).len() <= limit,
        forall|n: int|
            head_within(s, limit).len() < n <= s.len() ==> encode_utf8(#[trigger] s.take(n)).len()
                > limit,
    decreases s.len(),
{
    let head = head_within(s, limit);
    if s.len() == 0 || encode_utf8(s).len() <= limit {
        assert(s.subrange(0, s.len() as int) =~= s);
    } else {
        let rest = s.drop_last();
        law_head_is_longest(rest, limit);
        assert(s.subrange(0, head.len() as int) =~= rest.subrange(0, head.len() as int));
        assert forall|n: int| head.len() < n <= s.len() implies encode_utf8(
            #[trigger] s.take(n),
        ).len() > limit by {
            if n == s.len() {
                assert(s.take(n) =~= s);
            } else {
                assert(rest.take(n) =~= s.take(n));
            }
        }
    }
}

fn byte_width(c: char) -> (r: usize)
    ensures
        r == encode_scalar(c as u32).len(),
        1 <= r <= 4,
{
    let code = c as u32;
    if code <= 0x7f {
        1
    } else if code <= 0x7ff {
        2
    } else if code <= 0xffff {
        3
    } else {
        4
    }
}

/// The longest head of a text that takes no more than a number of bytes.
pub fn head_of(text: &str, limit: usize) -> (r: String)
    ensures
        r@ == head_within(text@, limit as nat),
{
    let chars = chars_of(text);
    let mut size: usize = 0;
    let mut i: usize = 0;
    assert(text@.take(0) =~= seq![]);
    while i < chars.len() && byte_width(chars[i]) <= limit - size
        invariant
            chars@ == text@,
            i <= chars@.len(),
            size <= limit,
            size == encode_utf8(text@.take(i as int)).len(),
        decreases chars@.len() - i,
    {
        proof {
            lemma_encode_pushed(text@.take(i as int), text@[i as int]);
            assert(text@.take(i as int).push(text@[i as int]) =~= text@.take(i + 1));
        }
        size = size + byte_width(chars[i]);
        i = i + 1;
    }
    proof {
        if i < text@.len() {
            lemma_encode_pushed(text@.take(i as int), text@[i as int]);
            assert(text@.take(i as int).push(text@[i as int]) =~= text@.take(i + 1));
        }
        lemma_head_is(text@, limit as nat, i as int);
        assert(text@.take(i as int) =~= text@.subrange(0, i as int));
    }
    text_of(&chars, 0, i)
}

} // verus!
