//! Property lists, as far as the library reads them.
use vstd::prelude::*;

verus! {

/// A value of a property list. Values that are no text and no collection are
/// all alike.
#[derive(Debug, PartialEq, Eq)]
pub enum Plist {
    Text(String),
    Array(Vec<Plist>),
    Dictionary(Vec<(String, Plist)>),
    Other,
}

/// What a value of a property list holds.
pub enum PlistView {
    Text(Seq<char>),
    Array(Seq<PlistView>),
    Dictionary(Seq<(Seq<char>, PlistView)>),
    Other,
}

impl Plist {
    pub open spec fn model(self) -> PlistView
        decreases self,
    {
        match self {
            Plist::Text(t) => PlistView::Text(t@),
            Plist::Array(items) => PlistView::Array(
                Seq::new(
                    items@.len(),
                    |i: int|
                        if 0 <= i < items@.len() {
                            items@[i].model()
                        } else {
                            PlistView::Other
                        },
                ),
            ),
            Plist::Dictionary(fields) => PlistView::Dictionary(
                Seq::new(
                    fields@.len(),
                    |i: int|
                        if 0 <= i < fields@.len() {
                            (fields@[i].0@, fields@[i].1.model())
                        } else {
                            (Seq::<char>::empty(), PlistView::Other)
                        },
                ),
            ),
            Plist::Other => PlistView::Other,
        }
    }
}

/// The value type of `plist`.
#[verifier::external_type_specification]
#[verifier::external_body]
pub struct ExPlistValue(plist::Value);

/// What a value of `plist` holds. The entries of a dictionary stand in the
/// order in which it hands them out.
pub uninterp spec fn plist_content(value: plist::Value) -> PlistView;

/// What `plist::Value::from_reader` makes of some bytes: a value, or the words
/// of its error.
pub uninterp spec fn plist_bytes(bytes: Seq<u8>) -> Result<PlistView, Seq<char>>;

/// The bytes of `bplist00`, with which a binary list begins.
pub open spec fn binary_mark() -> Seq<u8> {
    seq![98u8, 112u8, 108u8, 105u8, 115u8, 116u8, 48u8, 48u8]
}

/// The bytes of `date`.
pub open spec fn date_mark() -> Seq<u8> {
    seq![100u8, 97u8, 116u8, 101u8]
}

/// The bytes of `9999-12-31`.
pub open spec fn last_day() -> Seq<u8> {
    seq![57u8, 57u8, 57u8, 57u8, 45u8, 49u8, 50u8, 45u8, 51u8, 49u8]
}

/// Whether a byte is `<`, followed by the name of an element: not by `!`, `?`
/// or `/`, which begin other markup.
pub open spec fn opens(bytes: Seq<u8>, i: int) -> bool {
    &&& bytes[i] == 60
    &&& i + 1 < bytes.len()
    &&& bytes[i + 1] != 33 && bytes[i + 1] != 63 && bytes[i + 1] != 47
}

/// The place of the `>` that ends a tag, from `from` on: not one in a text
/// between quotation marks. `quote` is the mark that is open, if one is.
pub open spec fn tag_end(bytes: Seq<u8>, from: int, quote: u8) -> int
    decreases bytes.len() - from,
{
    if from < 0 || from >= bytes.len() {
        from
    } else if quote != 0 {
        tag_end(
            bytes,
            from + 1,
            if bytes[from] == quote {
                0
            } else {
                quote
            },
        )
    } else if bytes[from] == 62 {
        from
    } else {
        tag_end(
            bytes,
            from + 1,
            if bytes[from] == 34 || bytes[from] == 39 {
                bytes[from]
            } else {
                0
            },
        )
    }
}

pub open spec fn is_blank(byte: u8) -> bool {
    byte == 32 || byte == 9 || byte == 10 || byte == 13
}

/// The place where the name that begins at `from` ends, in a tag that ends at
/// `end`.
pub open spec fn name_end(bytes: Seq<u8>, from: int, end: int) -> int
    decreases end - from,
{
    if from >= end || is_blank(bytes[from]) {
        from
    } else {
        name_end(bytes, from + 1, end)
    }
}

/// Whether an element is named `date`, with or without a prefix.
pub open spec fn names_date(name: Seq<u8>) -> bool {
    &&& date_mark().is_suffix_of(name)
    &&& name.len() == 4 || name[name.len() - 5] == 58
}

/// Whether the text from `from` on is another than the last day of the year
/// 9999, where the first `k` characters are those of that day: a plain one
/// differs, or the text ends. References and markup within it are not plain.
pub open spec fn dated_otherwise(bytes: Seq<u8>, from: int, k: int) -> bool
    decreases 10 - k,
{
    if k >= 10 {
        false
    } else if from + k >= bytes.len() {
        true
    } else if bytes[from + k] == last_day()[k] {
        dated_otherwise(bytes, from, k + 1)
    } else {
        &&& bytes[from + k] != 38
        &&& bytes[from + k] == 60 ==> from + k + 1 >= bytes.len() || bytes[from + k + 1] == 47
    }
}

/// The place of the first reference or markup from `from` on.
pub open spec fn text_end(bytes: Seq<u8>, from: int) -> int
    decreases bytes.len() - from,
{
    if from < 0 || from >= bytes.len() || bytes[from] == 38 || bytes[from] == 60 {
        from
    } else {
        text_end(bytes, from + 1)
    }
}

/// The number that two digits stand for.
pub open spec fn two_digits(text: Seq<u8>, i: int) -> int {
    (text[i] - 48) * 10 + (text[i + 1] - 48)
}

/// Whether a date is on the last day of the year 9999 and, its negative offset
/// taken away, on a later day in universal time. Its time of day stands behind
/// the day and one more byte, the offset at the end.
pub open spec fn passes_last_day(text: Seq<u8>) -> bool {
    &&& text.len() >= 25
    &&& last_day().is_prefix_of(text)
    &&& text[text.len() - 6] == 45
    &&& two_digits(text, 11) * 60 + two_digits(text, 14) + two_digits(text, text.len() - 5) * 60
        + two_digits(text, text.len() - 2) >= 1440
}

/// Whether the text of a date from `from` on can be read. It can if it is
/// another day, and if it is plain up to the end of the element and does not
/// pass the last day.
pub open spec fn readable_date(bytes: Seq<u8>, from: int) -> bool {
    let end = text_end(bytes, from);
    ||| dated_otherwise(bytes, from, 0)
    ||| end + 1 >= bytes.len()
    ||| {
        &&& bytes[end] == 60 && bytes[end + 1] == 47
        &&& !passes_last_day(bytes.subrange(from, end))
    }
}

/// Whether the element that opens at a place can be read. One that is no date
/// can, and one that is empty or does not end.
pub open spec fn readable_element(bytes: Seq<u8>, i: int) -> bool {
    let end = tag_end(bytes, i + 1, 0);
    ||| end >= bytes.len()
    ||| bytes[end - 1] == 47
    ||| !names_date(bytes.subrange(i + 1, name_end(bytes, i + 1, end)))
    ||| readable_date(bytes, end + 1)
}

/// Whether a list can be read. Every binary list can.
pub open spec fn readable(bytes: Seq<u8>) -> bool {
    ||| binary_mark().is_prefix_of(bytes)
    ||| forall|i: int|
        0 <= i < bytes.len() && #[trigger] opens(bytes, i) ==> readable_element(bytes, i)
}

/// Calls `plist::Value::from_reader` on bytes in memory. Its result depends on
/// the bytes alone; an error is kept as the words that it displays. A date in
/// an XML list is turned into universal time, and makes the reader panic if it
/// then is past the year 9999; so does, on Windows alone, one before 1601.
#[verifier::external_body]
fn plist_value(bytes: &Vec<u8>) -> (r: Result<plist::Value, String>)
    requires
        readable(bytes@),
    ensures
        match r {
            Ok(v) => plist_bytes(bytes@) == Ok::<PlistView, Seq<char>>(plist_content(v)),
            Err(e) => plist_bytes(bytes@) == Err::<PlistView, Seq<char>>(e@),
        },
{
    plist::Value::from_reader(std::io::Cursor::new(bytes)).map_err(|err| err.to_string())
}

/// Takes a `plist::Value` apart, variant by variant.
#[verifier::external_body]
fn from_value(value: plist::Value) -> (r: Plist)
    ensures
        r.model() == plist_content(value),
{
    match value {
        plist::Value::String(t) => Plist::Text(t),
        plist::Value::Array(items) => Plist::Array(items.into_iter().map(from_value).collect()),
        plist::Value::Dictionary(fields) => {
            Plist::Dictionary(fields.into_iter().map(|(k, v)| (k, from_value(v))).collect())
        },
        _ => Plist::Other,
    }
}

/// Reads a property list of any encoding. An error is the reader's own
/// message.
pub fn parse_plist(bytes: &Vec<u8>) -> (r: Result<Plist, String>)
    requires
        readable(bytes@),
    ensures
        match r {
            Ok(v) => plist_bytes(bytes@) == Ok::<PlistView, Seq<char>>(v.model()),
            Err(e) => plist_bytes(bytes@) == Err::<PlistView, Seq<char>>(e@),
        },
{
    match plist_value(bytes) {
        Ok(value) => Ok(from_value(value)),
        Err(err) => Err(err),
    }
}

fn begins_binary(bytes: &Vec<u8>) -> (r: bool)
    ensures
        r == binary_mark().is_prefix_of(bytes@),
{
    let r = bytes.len() >= 8 && bytes[0] == 98 && bytes[1] == 112 && bytes[2] == 108 && bytes[3]
        == 105 && bytes[4] == 115 && bytes[5] == 116 && bytes[6] == 48 && bytes[7] == 48;
    proof {
        if r {
            assert(bytes@.subrange(0, 8) =~= binary_mark());
        } else if binary_mark().is_prefix_of(bytes@) {
            let head = bytes@.subrange(0, 8);
            assert(head == binary_mark());
            assert(forall|k: int| 0 <= k < 8 ==> bytes@[k] == head[k]);
        }
    }
    r
}

fn find_tag_end(bytes: &Vec<u8>, from: usize) -> (r: usize)
    requires
        from <= bytes@.len(),
    ensures
        from <= r <= bytes@.len(),
        r == tag_end(bytes@, from as int, 0),
{
    let mut quote: u8 = 0;
    let mut i: usize = from;
    while i < bytes.len()
        invariant
            from <= i <= bytes@.len(),
            tag_end(bytes@, from as int, 0) == tag_end(bytes@, i as int, quote),
        decreases bytes@.len() - i,
    {
        let b = bytes[i];
        if quote != 0 {
            if b == quote {
                quote = 0;
            }
        } else if b == 62 {
            return i;
        } else if b == 34 || b == 39 {
            quote = b;
        }
        i = i + 1;
    }
    i
}

fn find_name_end(bytes: &Vec<u8>, from: usize, end: usize) -> (r: usize)
    requires
        from <= end <= bytes@.len(),
    ensures
        from <= r <= end,
        r == name_end(bytes@, from as int, end as int),
{
    let mut i: usize = from;
    while i < end
        invariant
            from <= i <= end <= bytes@.len(),
            name_end(bytes@, from as int, end as int) == name_end(bytes@, i as int, end as int),
        decreases end - i,
    {
        let b = bytes[i];
        if b == 32 || b == 9 || b == 10 || b == 13 {
            return i;
        }
        i = i + 1;
    }
    i
}

fn find_text_end(bytes: &Vec<u8>, from: usize) -> (r: usize)
    requires
        from <= bytes@.len(),
    ensures
        from <= r <= bytes@.len(),
        r == text_end(bytes@, from as int),
{
    let mut i: usize = from;
    while i < bytes.len()
        invariant
            from <= i <= bytes@.len(),
            text_end(bytes@, from as int) == text_end(bytes@, i as int),
        decreases bytes@.len() - i,
    {
        if bytes[i] == 38 || bytes[i] == 60 {
            return i;
        }
        i = i + 1;
    }
    i
}

fn number_of(tens: u8, ones: u8) -> (r: i64)
    ensures
        r == (tens - 48) * 10 + (ones - 48),
        -528 <= r <= 2277,
{
    (tens as i64 - 48) * 10 + (ones as i64 - 48)
}

fn is_past_last_day(bytes: &Vec<u8>, from: usize, to: usize) -> (r: bool)
    requires
        from <= to <= bytes@.len(),
    ensures
        r == passes_last_day(bytes@.subrange(from as int, to as int)),
{
    let ghost text = bytes@.subrange(from as int, to as int);
    let n: usize = to - from;
    if n < 25 {
        return false;
    }
    let mark: [u8; 10] = [57, 57, 57, 57, 45, 49, 50, 45, 51, 49];
    assert(mark@ =~= last_day());
    let mut k: usize = 0;
    while k < 10
        invariant
            k <= 10,
            mark@ == last_day(),
            from + 25 <= to <= bytes@.len(),
            text == bytes@.subrange(from as int, to as int),
            forall|j: int| 0 <= j < k ==> #[trigger] text[j] == last_day()[j],
        decreases 10 - k,
    {
        if bytes[from + k] != mark[k] {
            proof {
                if last_day().is_prefix_of(text) {
                    assert(text.subrange(0, 10)[k as int] == last_day()[k as int]);
                }
            }
            return false;
        }
        k = k + 1;
    }
    assert(text.subrange(0, 10) =~= last_day());
    assert(last_day().is_prefix_of(text));
    let time: i64 = number_of(bytes[from + 11], bytes[from + 12]) * 60 + number_of(
        bytes[from + 14],
        bytes[from + 15],
    );
    let offset: i64 = number_of(bytes[to - 5], bytes[to - 4]) * 60 + number_of(
        bytes[to - 2],
        bytes[to - 1],
    );
    bytes[to - 6] == 45 && time + offset >= 1440
}

fn can_read_date(bytes: &Vec<u8>, from: usize) -> (r: bool)
    requires
        from <= bytes@.len(),
    ensures
        r == readable_date(bytes@, from as int),
{
    if differs_from_last_day(bytes, from) {
        return true;
    }
    let end = find_text_end(bytes, from);
    let n: usize = bytes.len();
    if n - end <= 1 {
        return true;
    }
    bytes[end] == 60 && bytes[end + 1] == 47 && !is_past_last_day(bytes, from, end)
}

fn is_date_name(bytes: &Vec<u8>, from: usize, to: usize) -> (r: bool)
    requires
        from <= to <= bytes@.len(),
    ensures
        r == names_date(bytes@.subrange(from as int, to as int)),
{
    let ghost name = bytes@.subrange(from as int, to as int);
    let n: usize = to - from;
    let r = n >= 4 && bytes[to - 4] == 100 && bytes[to - 3] == 97 && bytes[to - 2] == 116
        && bytes[to - 1] == 101 && (n == 4 || bytes[to - 5] == 58);
    proof {
        if n >= 4 {
            let tail = name.subrange(n - 4, n as int);
            assert(forall|k: int| 0 <= k < 4 ==> tail[k] == bytes@[to - 4 + k]);
            if r {
                assert(tail =~= date_mark());
            } else if date_mark().is_suffix_of(name) {
                assert(tail == date_mark());
                assert(tail[0] == 100 && tail[1] == 97 && tail[2] == 116 && tail[3] == 101);
            }
        }
    }
    r
}

fn differs_from_last_day(bytes: &Vec<u8>, from: usize) -> (r: bool)
    requires
        from <= bytes@.len(),
    ensures
        r == dated_otherwise(bytes@, from as int, 0),
{
    let mark: [u8; 10] = [57, 57, 57, 57, 45, 49, 50, 45, 51, 49];
    assert(mark@ =~= last_day());
    let mut k: usize = 0;
    while k < 10
        invariant
            k <= 10,
            mark@ == last_day(),
            from <= bytes@.len(),
            k > 0 ==> from + k <= bytes@.len(),
            dated_otherwise(bytes@, from as int, 0) == dated_otherwise(
                bytes@,
                from as int,
                k as int,
            ),
        decreases 10 - k,
    {
        if bytes.len() - from <= k {
            return true;
        }
        let b = bytes[from + k];
        if b != mark[k] {
            return b != 38 && (b != 60 || bytes.len() - from <= k + 1 || bytes[from + k + 1] == 47);
        }
        k = k + 1;
    }
    false
}

/// Whether a list can be read.
pub fn can_read(bytes: &Vec<u8>) -> (r: bool)
    ensures
        r == readable(bytes@),
{
    if begins_binary(bytes) {
        return true;
    }
    let n: usize = bytes.len();
    let mut i: usize = 0;
    while i < n
        invariant
            n == bytes@.len(),
            i <= n,
            !binary_mark().is_prefix_of(bytes@),
            forall|k: int|
                0 <= k < i && #[trigger] opens(bytes@, k) ==> readable_element(bytes@, k),
        decreases n - i,
    {
        if bytes[i] == 60 && i < n - 1 && bytes[i + 1] != 33 && bytes[i + 1] != 63 && bytes[i + 1]
            != 47 {
            assert(opens(bytes@, i as int));
            let end = find_tag_end(bytes, i + 1);
            if end < n && bytes[end - 1] != 47 {
                let stop = find_name_end(bytes, i + 1, end);
                if is_date_name(bytes, i + 1, stop) && !can_read_date(bytes, end + 1) {
                    assert(!readable_element(bytes@, i as int));
                    return false;
                }
            }
            assert(readable_element(bytes@, i as int));
        }
        i = i + 1;
    }
    true
}

proof fn lemma_name_in_tag(bytes: Seq<u8>, from: int, end: int)
    requires
        from <= end,
    ensures
        from <= name_end(bytes, from, end) <= end,
    decreases end - from,
{
    if from < end && !is_blank(bytes[from]) {
        lemma_name_in_tag(bytes, from + 1, end);
    }
}

proof fn lemma_tag_end_behind(bytes: Seq<u8>, from: int, quote: u8)
    requires
        0 <= from <= bytes.len(),
    ensures
        from <= tag_end(bytes, from, quote) <= bytes.len(),
    decreases bytes.len() - from,
{
    if from < bytes.len() {
        if quote != 0 {
            lemma_tag_end_behind(
                bytes,
                from + 1,
                if bytes[from] == quote {
                    0
                } else {
                    quote
                },
            );
        } else if bytes[from] != 62 {
            lemma_tag_end_behind(
                bytes,
                from + 1,
                if bytes[from] == 34 || bytes[from] == 39 {
                    bytes[from]
                } else {
                    0
                },
            );
        }
    }
}

/// A list that holds no dates can be read, whatever else it holds, and so can
/// every list in the binary format.
pub proof fn law_lists_without_dates_can_be_read(bytes: Seq<u8>)
    requires
        (forall|i: int|
            0 <= i && i + 4 <= bytes.len() ==> #[trigger] bytes.subrange(i, i + 4) != seq![
                100u8,
                97u8,
                116u8,
                101u8,
            ]) || seq![98u8, 112u8, 108u8, 105u8, 115u8, 116u8, 48u8, 48u8].is_prefix_of(bytes),
    ensures
        readable(bytes),
{
    if !seq![98u8, 112u8, 108u8, 105u8, 115u8, 116u8, 48u8, 48u8].is_prefix_of(bytes) {
        assert forall|i: int| 0 <= i < bytes.len() && #[trigger] opens(
            bytes,
            i,
        ) implies readable_element(bytes, i) by {
            lemma_tag_end_behind(bytes, i + 1, 0);
            let end = tag_end(bytes, i + 1, 0);
            lemma_name_in_tag(bytes, i + 1, end);
            let to = name_end(bytes, i + 1, end);
            let name = bytes.subrange(i + 1, to);
            if end < bytes.len() && names_date(name) {
                assert(date_mark() =~= name.subrange(name.len() - 4, name.len() as int));
                assert(bytes.subrange(to - 4, to - 4 + 4) =~= name.subrange(
                    name.len() - 4,
                    name.len() as int,
                ));
            }
        }
    }
}

} // verus!
