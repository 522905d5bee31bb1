//! The text in which remote entries are kept between runs.
use crate::models::{entry_of, plain_title, views, Entry, EntryView};
use crate::text::{chars_of, decimal, decimal_of, first_pieces, lines, lines_of};
use crate::text::lemma_first_of_none;
use crate::text::{is_digit, law_number_of_decimal, lemma_decimal_digits, lemma_first_of_is};
use crate::text::{is_space, lemma_trim_end, lemma_trim_start, trim_start};
use crate::text::{number, read_number, splitn, strip_prefix, texts};
use crate::text::{trim, trimmed, without_prefix, Class, NumberError};
use vstd::prelude::*;
use vstd::string::*;

verus! {

// ---------------------------------------------------------------------------
// Fields
// ---------------------------------------------------------------------------

/// A character as it stands in a field.
pub open spec fn escaped_char(c: char) -> Seq<char> {
    if c == '%' {
        seq!['%', '2', '5']
    } else if c == '\t' {
        seq!['%', '0', '9']
    } else if c == '\n' {
        seq!['%', '0', 'A']
    } else if c == '\r' {
        seq!['%', '0', 'D']
    } else {
        seq![c]
    }
}

/// A text as it stands in a field: without tabs, line feeds and carriage
/// returns.
pub open spec fn escaped(s: Seq<char>) -> Seq<char>
    decreases s.len(),
{
    if s.len() == 0 {
        seq![]
    } else {
        escaped_char(s[0]) + escaped(s.drop_first())
    }
}

/// The character that two digits behind a percent sign stand for.
pub open spec fn decoded(a: char, b: char) -> Option<char> {
    if a == '2' && b == '5' {
        Some('%')
    } else if a == '0' && b == '9' {
        Some('\t')
    } else if a == '0' && b == 'A' {
        Some('\n')
    } else if a == '0' && b == 'D' {
        Some('\r')
    } else {
        None
    }
}

/// The text that a field stands for. A percent sign that begins no known
/// sequence stands for itself.
pub open spec fn unescaped(s: Seq<char>) -> Seq<char>
    decreases s.len(),
{
    if s.len() == 0 {
        seq![]
    } else if s.len() > 2 && s[0] == '%' && decoded(s[1], s[2]) is Some {
        seq![decoded(s[1], s[2])->0] + unescaped(s.skip(3))
    } else {
        seq![s[0]] + unescaped(s.drop_first())
    }
}

/// Writes a text as a field.
pub fn escape_field(value: &str) -> (r: String)
    ensures
        r@ == escaped(value@),
{
    let chars = chars_of(value);
    let mut out = String::new();
    let mut i: usize = 0;
    assert(chars@.skip(0) =~= value@);
    while i < chars.len()
        invariant
            chars@ == value@,
            i <= chars@.len(),
            out@ + escaped(chars@.skip(i as int)) == escaped(value@),
        decreases chars@.len() - i,
    {
        let ghost before = out@;
        let ghost rest = chars@.skip(i as int);
        let c = chars[i];
        proof {
            reveal_strlit("%25");
            reveal_strlit("%09");
            reveal_strlit("%0A");
            reveal_strlit("%0D");
        }
        if c == '%' {
            out.append("%25");
        } else if c == '\t' {
            out.append("%09");
        } else if c == '\n' {
            out.append("%0A");
        } else if c == '\r' {
            out.append("%0D");
        } else {
            out.push(c);
        }
        assert(out@ =~= before + escaped_char(c));
        assert(rest.drop_first() =~= chars@.skip(i + 1));
        assert(out@ + escaped(chars@.skip(i + 1)) =~= before + escaped(rest));
        i = i + 1;
    }
    assert(out@ + escaped(chars@.skip(i as int)) =~= out@);
    out
}

fn decode(a: char, b: char) -> (r: Option<char>)
    ensures
        r == decoded(a, b),
{
    if a == '2' && b == '5' {
        Some('%')
    } else if a == '0' && b == '9' {
        Some('\t')
    } else if a == '0' && b == 'A' {
        Some('\n')
    } else if a == '0' && b == 'D' {
        Some('\r')
    } else {
        None
    }
}

/// Reads a field.
pub fn unescape_field(value: &str) -> (r: String)
    ensures
        r@ == unescaped(value@),
{
    let chars = chars_of(value);
    let n: usize = chars.len();
    let mut out = String::new();
    let mut i: usize = 0;
    assert(chars@.skip(0) =~= value@);
    while i < n
        invariant
            chars@ == value@,
            n == chars@.len(),
            i <= n,
            out@ + unescaped(chars@.skip(i as int)) == unescaped(value@),
        decreases n - i,
    {
        let ghost before = out@;
        let ghost rest = chars@.skip(i as int);
        let found = if n - i > 2 && chars[i] == '%' {
            decode(chars[i + 1], chars[i + 2])
        } else {
            None
        };
        match found {
            Some(c) => {
                out.push(c);
                assert(rest.skip(3) =~= chars@.skip(i + 3));
                assert(out@ + unescaped(chars@.skip(i + 3)) =~= before + unescaped(rest));
                i = i + 3;
            },
            None => {
                out.push(chars[i]);
                assert(rest.drop_first() =~= chars@.skip(i + 1));
                assert(out@ + unescaped(chars@.skip(i + 1)) =~= before + unescaped(rest));
                i = i + 1;
            },
        }
    }
    assert(out@ + unescaped(chars@.skip(i as int)) =~= out@);
    out
}

/// Reading a field gives the text that was written as it.
pub proof fn law_unescape_of_escape(s: Seq<char>)
    ensures
        unescaped(escaped(s)) == s,
    decreases s.len(),
{
    if s.len() > 0 {
        let rest = s.drop_first();
        law_unescape_of_escape(rest);
        let field = escaped(s);
        let code = escaped_char(s[0]);
        if code.len() == 3 {
            assert(field.skip(3) =~= escaped(rest));
            assert(field[0] == code[0] && field[1] == code[1] && field[2] == code[2]);
        } else {
            assert(field[0] == s[0]);
            assert(field.drop_first() =~= escaped(rest));
        }
        assert(unescaped(field) =~= s);
    } else {
        assert(escaped(s) =~= seq![]);
        assert(unescaped(escaped(s)) =~= s);
    }
}

/// A field holds no tab, line feed or carriage return.
pub proof fn law_escaped_is_one_field(s: Seq<char>)
    ensures
        forall|i: int|
            0 <= i < escaped(s).len() ==> #[trigger] escaped(s)[i] != '\t' && escaped(s)[i] != '\n'
                && escaped(s)[i] != '\r',
    decreases s.len(),
{
    if s.len() > 0 {
        let rest = s.drop_first();
        law_escaped_is_one_field(rest);
        let code = escaped_char(s[0]);
        assert forall|i: int| 0 <= i < escaped(s).len() implies #[trigger] escaped(s)[i] != '\t'
            && escaped(s)[i] != '\n' && escaped(s)[i] != '\r' by {
            if i < code.len() {
                assert(escaped(s)[i] == code[i]);
            } else {
                assert(escaped(s)[i] == escaped(rest)[i - code.len()]);
            }
        }
    }
}

// ---------------------------------------------------------------------------
// Rows
// ---------------------------------------------------------------------------

/// Entries with the time at which they were saved, in seconds.
#[derive(Debug)]
pub struct CachedEntries {
    pub saved_at: u64,
    pub entries: Vec<Entry>,
}

/// What a cache holds.
#[verifier::ext_equal]
pub struct CacheView {
    pub saved_at: u64,
    pub entries: Seq<EntryView>,
}

impl View for CachedEntries {
    type V = CacheView;

    open spec fn view(&self) -> CacheView {
        CacheView { saved_at: self.saved_at, entries: views(self.entries@) }
    }
}

/// The line that an entry is written as.
pub open spec fn cache_line(e: EntryView) -> Seq<char> {
    escaped(e.title) + seq!['\t'] + escaped(e.url) + seq!['\t'] + escaped(e.source) + seq!['\t']
        + escaped(e.detail)
}

/// The lines of some entries.
pub open spec fn cache_lines(entries: Seq<EntryView>) -> Seq<char>
    decreases entries.len(),
{
    if entries.len() == 0 {
        seq![]
    } else {
        cache_line(entries[0]) + seq!['\n'] + cache_lines(entries.drop_first())
    }
}

/// The text that a cache is written as.
pub open spec fn cache_text(cache: CacheView) -> Seq<char> {
    "saved_at\t"@ + decimal(cache.saved_at as nat) + seq!['\n'] + cache_lines(cache.entries)
}

/// Writes a cache.
pub fn format_cached_entries(cache: &CachedEntries) -> (r: String)
    ensures
        r@ == cache_text(cache@),
{
    let mut out = String::new();
    out.append("saved_at\t");
    out.append(decimal_of(cache.saved_at).as_str());
    out.push('\n');
    let ghost all = views(cache.entries@);
    let mut i: usize = 0;
    assert(all.skip(0) =~= all);
    assert(out@ + cache_lines(all) =~= cache_text(cache@));
    while i < cache.entries.len()
        invariant
            all == views(cache.entries@),
            i <= cache.entries@.len(),
            out@ + cache_lines(all.skip(i as int)) == cache_text(cache@),
        decreases cache.entries@.len() - i,
    {
        let ghost before = out@;
        let ghost rest = all.skip(i as int);
        let entry = &cache.entries[i];
        out.append(escape_field(entry.title.as_str()).as_str());
        out.push('\t');
        out.append(escape_field(entry.url.as_str()).as_str());
        out.push('\t');
        out.append(escape_field(entry.source.as_str()).as_str());
        out.push('\t');
        out.append(escape_field(entry.detail.as_str()).as_str());
        out.push('\n');
        proof {
            assert(rest[0] == entry@);
            assert(rest.drop_first() =~= all.skip(i + 1));
            assert(out@ =~= before + (cache_line(entry@) + seq!['\n']));
            assert(out@ + cache_lines(all.skip(i + 1)) =~= before + cache_lines(rest));
        }
        i = i + 1;
    }
    assert(out@ + cache_lines(all.skip(i as int)) =~= out@);
    out
}

/// The entry that a line stands for.
pub open spec fn row_entry(line: Seq<char>) -> Option<EntryView> {
    let parts = splitn(line, 4, Class::Just('\t'));
    if parts.len() < 3 {
        None
    } else {
        Some(
            entry_of(
                unescaped(parts[0]),
                unescaped(parts[1]),
                unescaped(parts[2]),
                if parts.len() > 3 {
                    unescaped(parts[3])
                } else {
                    seq![]
                },
            ),
        )
    }
}

pub open spec fn blank(line: Seq<char>) -> bool {
    trim(line, Class::Space).len() == 0
}

/// The entries that some lines stand for: blank lines are passed over, and a
/// line with fewer than three fields spoils them all.
pub open spec fn row_entries(rows: Seq<Seq<char>>) -> Option<Seq<EntryView>>
    decreases rows.len(),
{
    if rows.len() == 0 {
        Some(seq![])
    } else {
        match row_entries(rows.drop_last()) {
            None => None,
            Some(entries) => if blank(rows.last()) {
                Some(entries)
            } else {
                match row_entry(rows.last()) {
                    Some(entry) => Some(entries.push(entry)),
                    None => None,
                }
            },
        }
    }
}

/// The cache that a text stands for, or what is wrong with the text.
pub open spec fn cache_of(text: Seq<char>) -> Result<CacheView, Seq<char>> {
    let all = lines(text);
    if all.len() == 0 {
        Err("empty cache"@)
    } else {
        match without_prefix(all[0], "saved_at\t"@) {
            None => Err("invalid cache header"@),
            Some(time) => match number(time) {
                Err(err) => Err("invalid cache timestamp: "@ + err.words()),
                Ok(saved_at) => match row_entries(all.drop_first()) {
                    None => Err("invalid cache row"@),
                    Some(entries) => Ok(CacheView { saved_at: saved_at as u64, entries }),
                },
            },
        }
    }
}

proof fn lemma_spoiled(rows: Seq<Seq<char>>, n: int)
    requires
        0 <= n <= rows.len(),
        row_entries(rows.take(n)) is None,
    ensures
        row_entries(rows) is None,
    decreases rows.len(),
{
    if n == rows.len() {
        assert(rows.take(n) =~= rows);
    } else {
        assert(rows.drop_last().take(n) =~= rows.take(n));
        lemma_spoiled(rows.drop_last(), n);
    }
}

fn parse_row(line: &str) -> (r: Option<Entry>)
    ensures
        match r {
            Some(e) => row_entry(line@) == Some(e@),
            None => row_entry(line@) is None,
        },
{
    let parts = first_pieces(line, 4, Class::Just('\t'));
    let ghost fields = splitn(line@, 4, Class::Just('\t'));
    assert(texts(parts@) == fields);
    if parts.len() < 3 {
        return None;
    }
    assert(fields[0] == parts@[0]@ && fields[1] == parts@[1]@ && fields[2] == parts@[2]@);
    let detail = if parts.len() > 3 {
        assert(fields[3] == parts@[3]@);
        unescape_field(parts[3].as_str())
    } else {
        String::new()
    };
    assert(parts@.len() <= 3 ==> detail@ =~= seq![]);
    Some(
        Entry::new(
            unescape_field(parts[0].as_str()).as_str(),
            unescape_field(parts[1].as_str()).as_str(),
            unescape_field(parts[2].as_str()).as_str(),
            detail.as_str(),
        ),
    )
}

/// Reads a cache.
pub fn parse_cached_entries(text: &str) -> (r: Result<CachedEntries, String>)
    ensures
        match r {
            Ok(cache) => cache_of(text@) == Ok::<CacheView, Seq<char>>(cache@),
            Err(message) => cache_of(text@) == Err::<CacheView, Seq<char>>(message@),
        },
{
    let all = lines_of(text);
    let ghost rows = lines(text@);
    assert(texts(all@) == rows);
    if all.len() == 0 {
        return Err("empty cache".to_string());
    }
    assert(rows[0] == all@[0]@);
    let time = match strip_prefix(all[0].as_str(), "saved_at\t") {
        Some(time) => time,
        None => return Err("invalid cache header".to_string()),
    };
    let saved_at = match read_number(time.as_str()) {
        Ok(saved_at) => saved_at,
        Err(err) => {
            let mut message = "invalid cache timestamp: ".to_string();
            message.append(err.message());
            return Err(message);
        },
    };
    let ghost body = rows.drop_first();
    let mut entries: Vec<Entry> = Vec::new();
    let mut i: usize = 1;
    assert(body.take(0) =~= seq![]);
    assert(views(entries@) =~= seq![]);
    while i < all.len()
        invariant
            texts(all@) == rows,
            rows.len() > 0,
            body == rows.drop_first(),
            1 <= i <= all@.len(),
            rows == lines(text@),
            without_prefix(rows[0], "saved_at\t"@) == Some(time@),
            number(time@) == Ok::<nat, NumberError>(saved_at as nat),
            row_entries(body.take(i - 1)) == Some(views(entries@)),
        decreases all@.len() - i,
    {
        let ghost head = body.take(i as int);
        let line = all[i].as_str();
        proof {
            assert(rows[i as int] == line@);
            assert(head.last() == line@);
            assert(head.drop_last() =~= body.take(i - 1));
        }
        if !trimmed(line, Class::Space).as_str().is_empty() {
            match parse_row(line) {
                Some(entry) => {
                    let ghost before = entries@;
                    entries.push(entry);
                    assert(views(entries@) =~= views(before).push(entry@));
                },
                None => {
                    proof {
                        lemma_spoiled(body, i as int);
                    }
                    return Err("invalid cache row".to_string());
                },
            }
        }
        i = i + 1;
    }
    assert(body.take(body.len() as int) =~= body);
    Ok(CachedEntries { saved_at, entries })
}

// ---------------------------------------------------------------------------
// What is written is read back
// ---------------------------------------------------------------------------

/// The first of some lines, and the lines behind it.
pub proof fn lemma_first_line(first: Seq<char>, rest: Seq<char>)
    requires
        forall|i: int| 0 <= i < first.len() ==> #[trigger] first[i] != '\n',
        first.len() > 0 ==> first.last() != '\r',
    ensures
        lines(first + seq!['\n'] + rest) == seq![first] + lines(rest),
{
    let s = first + seq!['\n'] + rest;
    let n = first.len() as int;
    assert(s[n] == '\n');
    assert forall|j: int| 0 <= j < n implies !Class::Just('\n').has(#[trigger] s[j]) by {
        assert(s[j] == first[j]);
    }
    lemma_first_of_is(s, Class::Just('\n'), n);
    assert(s.take(n) =~= first);
    assert(s.skip(n + 1) =~= rest);
}

/// The first of some fields, and the fields behind it.
pub proof fn lemma_next_field(field: Seq<char>, rest: Seq<char>, n: nat)
    requires
        n > 1,
        forall|i: int| 0 <= i < field.len() ==> #[trigger] field[i] != '\t',
    ensures
        splitn(field + seq!['\t'] + rest, n, Class::Just('\t')) == seq![field] + splitn(
            rest,
            (n - 1) as nat,
            Class::Just('\t'),
        ),
{
    let s = field + seq!['\t'] + rest;
    let k = field.len() as int;
    assert(s[k] == '\t');
    assert forall|j: int| 0 <= j < k implies !Class::Just('\t').has(#[trigger] s[j]) by {
        assert(s[j] == field[j]);
    }
    lemma_first_of_is(s, Class::Just('\t'), k);
    assert(s.take(k) =~= field);
    assert(s.skip(k + 1) =~= rest);
}

proof fn lemma_line_chars(e: EntryView)
    ensures
        forall|i: int|
            0 <= i < cache_line(e).len() ==> #[trigger] cache_line(e)[i] != '\n'
                && cache_line(e)[i] != '\r',
{
    law_escaped_is_one_field(e.title);
    law_escaped_is_one_field(e.url);
    law_escaped_is_one_field(e.source);
    law_escaped_is_one_field(e.detail);
    let a = escaped(e.title);
    let b = escaped(e.url);
    let c = escaped(e.source);
    let d = escaped(e.detail);
    assert forall|i: int| 0 <= i < cache_line(e).len() implies #[trigger] cache_line(e)[i] != '\n'
        && cache_line(e)[i] != '\r' by {
        let p = a.len() as int;
        let q = p + 1 + b.len();
        let r = q + 1 + c.len();
        if i < p {
            assert(cache_line(e)[i] == a[i]);
        } else if p < i < q {
            assert(cache_line(e)[i] == b[i - p - 1]);
        } else if q < i < r {
            assert(cache_line(e)[i] == c[i - q - 1]);
        } else if r < i {
            assert(cache_line(e)[i] == d[i - r - 1]);
        }
    }
}

proof fn lemma_row_of_line(e: EntryView)
    requires
        plain_title(e.title) == e.title,
    ensures
        row_entry(cache_line(e)) == Some(e),
{
    let a = escaped(e.title);
    let b = escaped(e.url);
    let c = escaped(e.source);
    let d = escaped(e.detail);
    law_escaped_is_one_field(e.title);
    law_escaped_is_one_field(e.url);
    law_escaped_is_one_field(e.source);
    law_unescape_of_escape(e.title);
    law_unescape_of_escape(e.url);
    law_unescape_of_escape(e.source);
    law_unescape_of_escape(e.detail);
    let cd = c + seq!['\t'] + d;
    let bcd = b + seq!['\t'] + cd;
    assert(cache_line(e) =~= a + seq!['\t'] + bcd);
    lemma_next_field(a, bcd, 4);
    lemma_next_field(b, cd, 3);
    lemma_next_field(c, d, 2);
    let parts = splitn(cache_line(e), 4, Class::Just('\t'));
    assert(splitn(d, 1, Class::Just('\t')) == seq![d]);
    assert(parts =~= seq![a, b, c, d]);
}

proof fn lemma_lines_of_rows(entries: Seq<EntryView>)
    ensures
        lines(cache_lines(entries)) == entries.map_values(|e: EntryView| cache_line(e)),
    decreases entries.len(),
{
    let rows = entries.map_values(|e: EntryView| cache_line(e));
    if entries.len() == 0 {
        assert(rows =~= seq![]);
    } else {
        let rest = entries.drop_first();
        lemma_lines_of_rows(rest);
        lemma_line_chars(entries[0]);
        lemma_first_line(cache_line(entries[0]), cache_lines(rest));
        assert(rows =~= seq![cache_line(entries[0])] + rest.map_values(
            |e: EntryView| cache_line(e),
        ));
    }
}

/// An entry that a cache gives back as it was: its title is in normal form,
/// and its line is not blank.
pub open spec fn cacheable(e: EntryView) -> bool {
    plain_title(e.title) == e.title && !blank(cache_line(e))
}

proof fn lemma_entries_of_rows(entries: Seq<EntryView>)
    requires
        forall|i: int| 0 <= i < entries.len() ==> cacheable(#[trigger] entries[i]),
    ensures
        row_entries(entries.map_values(|e: EntryView| cache_line(e))) == Some(entries),
    decreases entries.len(),
{
    let rows = entries.map_values(|e: EntryView| cache_line(e));
    if entries.len() == 0 {
        assert(entries =~= seq![]);
    } else {
        let front = entries.drop_last();
        assert(rows.drop_last() =~= front.map_values(|e: EntryView| cache_line(e)));
        lemma_entries_of_rows(front);
        let last = entries[entries.len() - 1];
        assert(cacheable(last));
        lemma_row_of_line(last);
        assert(front.push(last) =~= entries);
    }
}

/// Reading the text of a cache gives that cache.
pub proof fn law_cache_comes_back(cache: CacheView)
    requires
        forall|i: int| 0 <= i < cache.entries.len() ==> cacheable(#[trigger] cache.entries[i]),
    ensures
        cache_of(cache_text(cache)) == Ok::<CacheView, Seq<char>>(cache),
{
    reveal_strlit("saved_at\t");
    let time = decimal(cache.saved_at as nat);
    let header = "saved_at\t"@ + time;
    law_number_of_decimal(cache.saved_at);
    lemma_decimal_digits(cache.saved_at as nat);
    assert(is_digit(time[time.len() - 1]));
    assert forall|i: int| 0 <= i < header.len() implies #[trigger] header[i] != '\n' by {
        if i >= 9 {
            assert(header[i] == time[i - 9]);
            assert(is_digit(time[i - 9]));
        }
    }
    assert(header.last() == time[time.len() - 1]);
    lemma_first_line(header, cache_lines(cache.entries));
    lemma_lines_of_rows(cache.entries);
    let all = lines(cache_text(cache));
    let rows = cache.entries.map_values(|e: EntryView| cache_line(e));
    assert(all == seq![header] + rows);
    assert(all.drop_first() =~= rows);
    assert("saved_at\t"@.is_prefix_of(header)) by {
        assert("saved_at\t"@ =~= header.subrange(0, 9));
    }
    assert(without_prefix(header, "saved_at\t"@) == Some(time)) by {
        assert(header.skip(9) =~= time);
    }
    lemma_entries_of_rows(cache.entries);
}

// ---------------------------------------------------------------------------
// Age
// ---------------------------------------------------------------------------

/// Whether a cache of the given age, in seconds, is due for a refresh. A cache
/// of unknown age is.
pub open spec fn due(age: Option<u64>, interval: u64) -> bool {
    match age {
        Some(seconds) => seconds >= interval,
        None => true,
    }
}

/// The entries of a cache file, and whether they are due for a refresh. A
/// file that is missing or cannot be read has no entries and is due.
pub open spec fn cached_remote(
    file: Option<Seq<char>>,
    age: Option<u64>,
    interval: Option<u64>,
) -> (Seq<EntryView>, bool) {
    match file {
        None => (seq![], true),
        Some(text) => match cache_of(text) {
            Err(_) => (seq![], true),
            Ok(cache) => (
                cache.entries,
                match interval {
                    Some(interval) => due(age, interval),
                    None => false,
                },
            ),
        },
    }
}

pub open spec fn file_text(file: Option<&str>) -> Option<Seq<char>> {
    match file {
        Some(text) => Some(text@),
        None => None,
    }
}

fn load_cached_remote(file: Option<&str>, age: Option<u64>, interval: Option<u64>) -> (r: (
    Vec<Entry>,
    bool,
))
    ensures
        (views(r.0@), r.1) == cached_remote(file_text(file), age, interval),
{
    let nothing: Vec<Entry> = Vec::new();
    assert(views(nothing@) =~= seq![]);
    let text = match file {
        Some(text) => text,
        None => return (nothing, true),
    };
    match parse_cached_entries(text) {
        Ok(cached) => {
            let needs_refresh = match interval {
                None => false,
                Some(interval) => match age {
                    Some(age) => age >= interval,
                    None => true,
                },
            };
            (cached.entries, needs_refresh)
        },
        Err(_) => (nothing, true),
    }
}

/// The entries of a cache file.
pub fn load_cached_remote_entries(file: Option<&str>) -> (r: Vec<Entry>)
    ensures
        views(r@) == cached_remote(file_text(file), None, None).0,
{
    load_cached_remote(file, None, None).0
}

/// Whether a cache file of the given age in seconds is due for a refresh. A
/// file without entries always is.
pub fn remote_cache_needs_refresh(file: Option<&str>, age: Option<u64>, interval: u64) -> (r: bool)
    ensures
        r == ({
            let (entries, old) = cached_remote(file_text(file), age, Some(interval));
            entries.len() == 0 || old
        }),
{
    let (entries, needs_refresh) = load_cached_remote(file, age, Some(interval));
    assert(views(entries@).len() == entries@.len());
    entries.len() == 0 || needs_refresh
}

/// The entries of a cache file together with whether they are due for a
/// refresh.
pub fn load_cached_remote_with_refresh_check(
    file: Option<&str>,
    age: Option<u64>,
    interval: u64,
) -> (r: (Vec<Entry>, bool))
    ensures
        views(r.0@) == cached_remote(file_text(file), age, Some(interval)).0,
        r.1 == (r.0@.len() == 0 || cached_remote(file_text(file), age, Some(interval)).1),
{
    let (entries, needs_refresh) = load_cached_remote(file, age, Some(interval));
    let due = entries.len() == 0 || needs_refresh;
    (entries, due)
}

/// Entries are never too old to be shown: the age of a cache decides only
/// whether it is refreshed.
pub proof fn law_cache_never_expires(
    file: Option<Seq<char>>,
    age: Option<u64>,
    other_age: Option<u64>,
    interval: Option<u64>,
    other_interval: Option<u64>,
)
    ensures
        cached_remote(file, age, interval).0 == cached_remote(file, other_age, other_interval).0,
{
}

/// An entry whose title is in normal form and whose source is not blank can be
/// stored, whatever else it holds.
pub proof fn law_entries_with_a_source_are_cacheable(e: EntryView)
    requires
        plain_title(e.title) == e.title,
        e.source.len() > 0,
        !is_space(e.source[0]),
    ensures
        cacheable(e),
{
    let line = cache_line(e);
    let k = escaped(e.title).len() + 1 + escaped(e.url).len() + 1;
    let first = escaped_char(e.source[0]);
    assert(escaped(e.source) == first + escaped(e.source.drop_first()));
    assert(first.len() > 0 && !is_space(first[0]));
    assert(escaped(e.source)[0] == first[0]);
    assert(line[k as int] == first[0]);
    lemma_trim_start(line, Class::Space);
    let rest = trim_start(line, Class::Space);
    lemma_trim_end(rest, Class::Space);
    if blank(line) {
        if rest.len() > 0 {
            assert(Class::Space.has(rest[0]));
        } else {
            assert(Class::Space.has(line[k as int]));
        }
    }
}

proof fn lemma_plain_text(s: Seq<char>)
    requires
        forall|i: int|
            0 <= i < s.len() ==> #[trigger] s[i] != '%' && s[i] != '\t' && s[i] != '\n' && s[i]
                != '\r',
    ensures
        escaped(s) == s,
    decreases s.len(),
{
    if s.len() > 0 {
        assert(s[0] != '%');
        assert forall|i: int| 0 <= i < s.drop_first().len() implies #[trigger] s.drop_first()[i]
            != '%' && s.drop_first()[i] != '\t' && s.drop_first()[i] != '\n' && s.drop_first()[i]
            != '\r' by {
            assert(s.drop_first()[i] == s[i + 1]);
        }
        lemma_plain_text(s.drop_first());
        assert(seq![s[0]] + s.drop_first() =~= s);
    }
}

/// A cache begins with the time at which it was saved, and has a line for every
/// entry, in their order: title, address, source and detail between tabs. A
/// text without percent signs, tabs and ends of lines stands there as it is.
pub proof fn law_cache_layout(saved_at: u64, entries: Seq<EntryView>, e: EntryView)
    requires
        forall|i: int|
            0 <= i < e.title.len() ==> #[trigger] e.title[i] != '%' && e.title[i] != '\t'
                && e.title[i] != '\n' && e.title[i] != '\r',
        forall|i: int|
            0 <= i < e.url.len() ==> #[trigger] e.url[i] != '%' && e.url[i] != '\t' && e.url[i]
                != '\n' && e.url[i] != '\r',
        forall|i: int|
            0 <= i < e.source.len() ==> #[trigger] e.source[i] != '%' && e.source[i] != '\t'
                && e.source[i] != '\n' && e.source[i] != '\r',
        forall|i: int|
            0 <= i < e.detail.len() ==> #[trigger] e.detail[i] != '%' && e.detail[i] != '\t'
                && e.detail[i] != '\n' && e.detail[i] != '\r',
    ensures
        cache_text(CacheView { saved_at, entries: seq![] }) == "saved_at\t"@ + decimal(
            saved_at as nat,
        ) + seq!['\n'],
        cache_text(CacheView { saved_at, entries: entries.push(e) }) == cache_text(
            CacheView { saved_at, entries },
        ) + e.title + seq!['\t'] + e.url + seq!['\t'] + e.source + seq!['\t'] + e.detail
            + seq!['\n'],
{
    lemma_plain_text(e.title);
    lemma_plain_text(e.url);
    lemma_plain_text(e.source);
    lemma_plain_text(e.detail);
    let head = "saved_at\t"@ + decimal(saved_at as nat) + seq!['\n'];
    assert(cache_text(CacheView { saved_at, entries: seq![] }) =~= head);
    lemma_lines_push(entries, e);
    assert(cache_text(CacheView { saved_at, entries: entries.push(e) }) =~= cache_text(
        CacheView { saved_at, entries },
    ) + e.title + seq!['\t'] + e.url + seq!['\t'] + e.source + seq!['\t'] + e.detail + seq![
        '\n',
    ]);
}

proof fn lemma_lines_push(entries: Seq<EntryView>, e: EntryView)
    ensures
        cache_lines(entries.push(e)) == cache_lines(entries) + cache_line(e) + seq!['\n'],
    decreases entries.len(),
{
    if entries.len() == 0 {
        assert(entries.push(e).drop_first() =~= entries);
        assert(cache_lines(entries.push(e)) =~= cache_lines(entries) + cache_line(e) + seq!['\n']);
    } else {
        assert(entries.push(e).drop_first() =~= entries.drop_first().push(e));
        lemma_lines_push(entries.drop_first(), e);
        assert(cache_lines(entries.push(e)) =~= cache_lines(entries) + cache_line(e) + seq!['\n']);
    }
}

/// The characters that cannot stand in a field are written as a percent sign
/// and two digits.
pub proof fn law_escapes()
    ensures
        escaped(seq!['%']) == seq!['%', '2', '5'],
        escaped(seq!['\t']) == seq!['%', '0', '9'],
        escaped(seq!['\n']) == seq!['%', '0', 'A'],
        escaped(seq!['\r']) == seq!['%', '0', 'D'],
{
    reveal_with_fuel(escaped, 2);
    assert(seq!['%'].drop_first() =~= seq![]);
    assert(seq!['\t'].drop_first() =~= seq![]);
    assert(seq!['\n'].drop_first() =~= seq![]);
    assert(seq!['\r'].drop_first() =~= seq![]);
    assert(escaped(seq!['%']) =~= seq!['%', '2', '5']);
    assert(escaped(seq!['\t']) =~= seq!['%', '0', '9']);
    assert(escaped(seq!['\n']) =~= seq!['%', '0', 'A']);
    assert(escaped(seq!['\r']) =~= seq!['%', '0', 'D']);
}

/// What was saved is shown at the next start, and refreshed once it is as old
/// as the interval, or of unknown age. Without a cache that can be read there
/// is nothing to show, and a refresh is due.
pub proof fn law_saved_entries_are_shown(cache: CacheView, age: Option<u64>, interval: u64)
    requires
        forall|i: int| 0 <= i < cache.entries.len() ==> cacheable(#[trigger] cache.entries[i]),
    ensures
        cached_remote(Some(cache_text(cache)), age, Some(interval)).0 == cache.entries,
        cached_remote(Some(cache_text(cache)), age, Some(interval)).1 <==> (age is None || age->0
            >= interval),
        forall|file: Option<Seq<char>>|
            file is None || cache_of(file->0) is Err ==> (#[trigger] cached_remote(
                file,
                age,
                Some(interval),
            )).0.len() == 0 && cached_remote(file, age, Some(interval)).1,
{
    law_cache_comes_back(cache);
}

/// A row may lack the detail, but not the source; a text without a header is no
/// cache.
pub proof fn law_cache_rows(title: Seq<char>, url: Seq<char>, source: Seq<char>, text: Seq<char>)
    requires
        forall|i: int| 0 <= i < title.len() ==> #[trigger] title[i] != '\t',
        forall|i: int| 0 <= i < url.len() ==> #[trigger] url[i] != '\t',
        forall|i: int| 0 <= i < source.len() ==> #[trigger] source[i] != '\t',
    ensures
        row_entry(title + seq!['\t'] + url + seq!['\t'] + source) matches Some(e) && e.title
            == plain_title(unescaped(title)) && e.url == unescaped(url) && e.source == unescaped(
            source,
        ) && e.detail.len() == 0,
        row_entry(title + seq!['\t'] + url) is None,
        row_entry(title) is None,
        cache_of(seq![]) == Err::<CacheView, Seq<char>>("empty cache"@),
        lines(text).len() > 0 && !"saved_at\t"@.is_prefix_of(lines(text)[0]) ==> cache_of(text)
            == Err::<CacheView, Seq<char>>("invalid cache header"@),
        cache_of(text) is Ok ==> "saved_at\t"@.is_prefix_of(lines(text)[0]),
{
    let tab = Class::Just('\t');
    let long = title + seq!['\t'] + url + seq!['\t'] + source;
    assert(long =~= title + seq!['\t'] + (url + seq!['\t'] + source));
    lemma_next_field(title, url + seq!['\t'] + source, 4);
    lemma_next_field(url, source, 3);
    assert forall|i: int| 0 <= i < source.len() implies !tab.has(#[trigger] source[i]) by {}
    assert forall|i: int| 0 <= i < url.len() implies !tab.has(#[trigger] url[i]) by {}
    assert forall|i: int| 0 <= i < title.len() implies !tab.has(#[trigger] title[i]) by {}
    lemma_first_of_none(source, tab);
    lemma_first_of_none(url, tab);
    lemma_first_of_none(title, tab);
    assert(splitn(long, 4, tab) =~= seq![title, url, source]);
    lemma_next_field(title, url, 4);
    assert(splitn(title + seq!['\t'] + url, 4, tab) =~= seq![title, url]);
    assert(splitn(title, 4, tab) =~= seq![title]);
}

} // verus!
