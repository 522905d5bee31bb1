//! Texts in columns of the terminal.
use crate::text::texts;
use vstd::prelude::*;
use vstd::string::*;

verus! {

/// The number of columns that `unicode_width` gives a text.
pub uninterp spec fn columns(text: Seq<char>) -> usize;

/// The parts into which `unicode_segmentation` splits a text, from the first
/// to the last: its extended grapheme clusters.
pub uninterp spec fn clusters(text: Seq<char>) -> Seq<Seq<char>>;

/// The part that `unicode_segmentation` finds at the end of a text.
pub uninterp spec fn last_cluster(text: Seq<char>) -> Option<Seq<char>>;

/// Calls `UnicodeWidthStr::width`, whose result depends on the text alone.
#[verifier::external_body]
fn text_width(text: &str) -> (r: usize)
    ensures
        r == columns(text@),
{
    unicode_width::UnicodeWidthStr::width(text)
}

/// Calls `UnicodeSegmentation::graphemes`, whose items depend on the text
/// alone. One behind the other they are the text.
#[verifier::external_body]
fn graphemes(text: &str) -> (r: Vec<String>)
    ensures
        texts(r@) == clusters(text@),
        run_of(texts(r@)) == text@,
{
    unicode_segmentation::UnicodeSegmentation::graphemes(text, true)
        .map(|cluster| cluster.to_string())
        .collect()
}

/// Calls `next_back` on `UnicodeSegmentation::graphemes`. Its result depends
/// on the text alone. It is the end of the text and not empty, and there is
/// one for every text that is not empty.
#[verifier::external_body]
fn last_grapheme(text: &str) -> (r: Option<&str>)
    ensures
        match r {
            Some(cluster) => last_cluster(text@) == Some(cluster@) && cluster@.len() > 0
                && cluster@.is_suffix_of(text@),
            None => last_cluster(text@) is None && text@.len() == 0,
        },
{
    unicode_segmentation::UnicodeSegmentation::graphemes(text, true).next_back()
}

/// The number of columns that a text takes.
pub fn display_width(text: &str) -> (r: usize)
    ensures
        r == columns(text@),
{
    text_width(text)
}

// ---------------------------------------------------------------------------
// Cutting and padding
// ---------------------------------------------------------------------------

/// How many of the first parts fit, of which each takes the given number of
/// columns, when one column is left for a mark behind them.
pub open spec fn fitting(widths: Seq<usize>, max: nat) -> nat
    decreases widths.len(),
{
    if widths.len() == 0 {
        0
    } else {
        let before = fitting(widths.drop_last(), max);
        if before == widths.len() - 1 && total(widths) + 1 <= max {
            widths.len()
        } else {
            before
        }
    }
}

/// The columns of some parts together.
pub open spec fn total(widths: Seq<usize>) -> nat
    decreases widths.len(),
{
    if widths.len() == 0 {
        0
    } else {
        total(widths.drop_last()) + widths.last() as nat
    }
}

/// Some texts, one behind the other.
pub open spec fn run_of(parts: Seq<Seq<char>>) -> Seq<char>
    decreases parts.len(),
{
    if parts.len() == 0 {
        seq![]
    } else {
        run_of(parts.drop_last()) + parts.last()
    }
}

/// The first parts that fit, and a mark for those that are left out.
pub open spec fn shortened(parts: Seq<Seq<char>>, widths: Seq<usize>, max: nat) -> Seq<char> {
    run_of(parts.take(fitting(widths, max) as int)) + "…"@
}

/// Cuts a text that has been split into parts of the given widths.
pub fn shorten(parts: &Vec<String>, widths: &Vec<usize>, max: usize) -> (r: String)
    requires
        parts@.len() == widths@.len(),
        max > 1,
    ensures
        r@ == shortened(texts(parts@), widths@, max as nat),
{
    let ghost all = texts(parts@);
    let mut out = String::new();
    let mut used: usize = 0;
    let mut i: usize = 0;
    proof {
        assert(out@ =~= run_of(all.take(0)));
        assert(widths@.take(0) =~= Seq::<usize>::empty());
        assert(widths@.take(widths@.len() as int) =~= widths@);
    }
    while i < parts.len()
        invariant
            all == texts(parts@),
            parts@.len() == widths@.len(),
            max > 1,
            i <= parts@.len(),
            out@ == run_of(all.take(i as int)),
            used == total(widths@.take(i as int)),
            used + 1 <= max,
            fitting(widths@.take(i as int), max as nat) == i,
            widths@.take(widths@.len() as int) == widths@,
        ensures
            i <= parts@.len(),
            out@ == run_of(all.take(i as int)),
            fitting(widths@, max as nat) == i,
        decreases parts@.len() - i,
    {
        let ghost next = widths@.take(i + 1);
        proof {
            assert(next.drop_last() =~= widths@.take(i as int));
            assert(next.last() == widths@[i as int]);
        }
        if widths[i] > max - 1 - used {
            proof {
                lemma_fitting_stops(widths@, max as nat, i + 1);
            }
            break;
        }
        out.append(parts[i].as_str());
        used = used + widths[i];
        proof {
            let head = all.take(i + 1);
            assert(head.drop_last() =~= all.take(i as int));
            assert(head.last() == parts@[i as int]@);
        }
        i = i + 1;
    }
    out.append("…");
    out
}

proof fn lemma_fitting_stops(widths: Seq<usize>, max: nat, n: int)
    requires
        0 < n <= widths.len(),
        fitting(widths.take(n), max) < n,
    ensures
        fitting(widths, max) == fitting(widths.take(n), max),
    decreases widths.len(),
{
    if n == widths.len() {
        assert(widths.take(n) =~= widths);
    } else {
        let front = widths.drop_last();
        assert(front.take(n) =~= widths.take(n));
        lemma_fitting_stops(front, max, n);
    }
}

/// How wide each of some parts is.
pub open spec fn widths_of(parts: Seq<Seq<char>>) -> Seq<usize> {
    parts.map_values(|part: Seq<char>| columns(part))
}

/// A text cut to a number of columns. What does not fit is left out, and a
/// mark stands in its place.
pub open spec fn cut_to(text: Seq<char>, max: nat) -> Seq<char> {
    if columns(text) <= max {
        text
    } else if max <= 1 {
        "…"@
    } else {
        shortened(clusters(text), widths_of(clusters(text)), max)
    }
}

proof fn lemma_run_of_take(parts: Seq<Seq<char>>, n: int)
    requires
        0 <= n <= parts.len(),
    ensures
        run_of(parts.take(n)).is_prefix_of(run_of(parts)),
    decreases parts.len(),
{
    if n == parts.len() {
        assert(parts.take(n) =~= parts);
        assert(run_of(parts) =~= run_of(parts).subrange(0, run_of(parts).len() as int));
    } else {
        let front = parts.drop_last();
        lemma_run_of_take(front, n);
        assert(front.take(n) =~= parts.take(n));
        let head = run_of(parts.take(n));
        assert(head =~= run_of(parts).subrange(0, head.len() as int));
    }
}

/// Cuts a text to a number of columns. A text that is too wide keeps its
/// beginning, with the mark behind it.
pub fn truncate_to_width(text: &str, max_width: usize) -> (r: String)
    ensures
        r@ == cut_to(text@, max_width as nat),
        columns(text@) > max_width ==> r@.len() > 0 && r@.last() == '…'
            && r@.drop_last().is_prefix_of(text@),
{
    proof {
        reveal_strlit("…");
    }
    if display_width(text) <= max_width {
        return text.to_string();
    }
    if max_width <= 1 {
        assert("…"@.drop_last() =~= text@.subrange(0, 0));
        return "…".to_string();
    }
    let parts = graphemes(text);
    let mut widths: Vec<usize> = Vec::new();
    let mut i: usize = 0;
    while i < parts.len()
        invariant
            i <= parts@.len(),
            widths@ == widths_of(texts(parts@)).take(i as int),
        decreases parts@.len() - i,
    {
        widths.push(display_width(parts[i].as_str()));
        assert(widths@ =~= widths_of(texts(parts@)).take(i + 1));
        i = i + 1;
    }
    assert(widths@ =~= widths_of(texts(parts@)));
    proof {
        let n = fitting(widths@, max_width as nat) as int;
        law_shortened_fits(widths@, max_width as nat);
        lemma_run_of_take(texts(parts@), n);
        let kept = run_of(texts(parts@).take(n));
        assert((kept + "…"@).drop_last() =~= kept);
    }
    shorten(&parts, &widths, max_width)
}

/// Spaces.
pub open spec fn spaces(n: nat) -> Seq<char> {
    Seq::new(n, |i: int| ' ')
}

/// A text that fills a column of the given width: cut, or with spaces behind
/// it.
pub open spec fn filled(text: Seq<char>, width: nat) -> Seq<char> {
    if columns(text) >= width {
        cut_to(text, width)
    } else {
        text + spaces((width - columns(text)) as nat)
    }
}

/// Makes a text fill a column.
pub fn pad_or_truncate(text: &str, width: usize) -> (r: String)
    ensures
        r@ == filled(text@, width as nat),
{
    let w = display_width(text);
    if w >= width {
        return truncate_to_width(text, width);
    }
    let mut out = text.to_string();
    let mut i: usize = 0;
    assert(out@ =~= text@ + spaces(0));
    while i < width - w
        invariant
            w < width,
            i <= width - w,
            out@ == text@ + spaces(i as nat),
        decreases width - w - i,
    {
        out.push(' ');
        assert(out@ =~= text@ + spaces((i + 1) as nat));
        i = i + 1;
    }
    out
}

/// A cut text is as wide as the limit allows: what it keeps takes at most one
/// column less, and the next part would not have fitted.
pub proof fn law_shortened_fits(widths: Seq<usize>, max: nat)
    requires
        max > 0,
    ensures
        fitting(widths, max) <= widths.len(),
        total(widths.take(fitting(widths, max) as int)) + 1 <= max,
        fitting(widths, max) < widths.len() ==> total(
            widths.take(fitting(widths, max) as int + 1),
        ) + 1 > max,
    decreases widths.len(),
{
    if widths.len() > 0 {
        let front = widths.drop_last();
        let n = fitting(front, max);
        law_shortened_fits(front, max);
        if n == front.len() && total(widths) + 1 <= max {
            assert(widths.take(widths.len() as int) =~= widths);
        } else {
            assert(widths.take(n as int) =~= front.take(n as int));
            if n < front.len() {
                assert(widths.take(n as int + 1) =~= front.take(n as int + 1));
            } else {
                assert(widths.take(n as int + 1) =~= widths);
            }
        }
    } else {
        assert(widths.take(0) =~= Seq::<usize>::empty());
    }
}

// ---------------------------------------------------------------------------
// Deleting
// ---------------------------------------------------------------------------

/// A text without what looks like its last character.
pub open spec fn shorter(text: Seq<char>) -> Seq<char> {
    without_end(text, last_cluster(text))
}

/// A text without the given end.
pub open spec fn without_end(text: Seq<char>, end: Option<Seq<char>>) -> Seq<char> {
    match end {
        Some(cluster) => text.take(text.len() - cluster.len()),
        None => text,
    }
}

/// Takes away the end that was found for a text.
pub fn drop_end(text: &str, end: Option<&str>) -> (r: String)
    requires
        end matches Some(cluster) ==> cluster@.len() <= text@.len(),
    ensures
        r@ == without_end(
            text@,
            match end {
                Some(cluster) => Some(cluster@),
                None => None,
            },
        ),
{
    match end {
        Some(cluster) => {
            let n = text.unicode_len();
            let m = cluster.unicode_len();
            let head = text.substring_char(0, n - m);
            assert(head@ =~= text@.take(n - m));
            head.to_string()
        },
        None => text.to_string(),
    }
}

/// Deletes what looks like the last character of a text. From a text that is
/// not empty something is deleted, and what is left stays as it was.
pub fn pop_grapheme(text: &mut String)
    ensures
        final(text)@ == shorter(old(text)@),
        final(text)@.is_prefix_of(old(text)@),
        old(text)@.len() > 0 ==> final(text)@.len() < old(text)@.len(),
{
    let kept = drop_end(text.as_str(), last_grapheme(text.as_str()));
    assert(kept@ =~= text@.subrange(0, kept@.len() as int));
    *text = kept;
}

/// What is deleted from a text is the end that was found, and nothing else.
pub proof fn law_deleting(text: Seq<char>, end: Seq<char>)
    requires
        end.is_suffix_of(text),
    ensures
        without_end(text, Some(end)) + end == text,
        without_end(text, None) == text,
        last_cluster(text) == Some(end) ==> shorter(text) + end == text,
        last_cluster(text) is None ==> shorter(text) == text,
{
    assert(without_end(text, Some(end)) + end =~= text);
}

proof fn lemma_totals_rise(widths: Seq<usize>, a: int, b: int)
    requires
        0 <= a <= b <= widths.len(),
    ensures
        total(widths.take(a)) <= total(widths.take(b)),
    decreases b - a,
{
    if a < b {
        lemma_totals_rise(widths, a, b - 1);
        assert(widths.take(b).drop_last() =~= widths.take(b - 1));
    }
}

/// A text that is too wide keeps as many of its first parts as leave a column
/// for the mark, and then has the mark.
pub proof fn law_shortening(parts: Seq<Seq<char>>, widths: Seq<usize>, max: nat, n: int)
    requires
        parts.len() == widths.len(),
        0 <= n < parts.len(),
        total(widths.take(n)) + 1 <= max,
        total(widths.take(n + 1)) + 1 > max,
    ensures
        shortened(parts, widths, max) == run_of(parts.take(n)) + seq!['…'],
{
    law_shortened_fits(widths, max);
    let k = fitting(widths, max) as int;
    if k < n {
        lemma_totals_rise(widths, k + 1, n);
    }
    if k > n {
        lemma_totals_rise(widths, n + 1, k);
    }
    reveal_strlit("…");
    assert("…"@ =~= seq!['…']);
}

/// The parts of a text, one behind the other, and the columns that they take,
/// grow by what each further part adds.
pub proof fn law_parts_add_up(
    parts: Seq<Seq<char>>,
    part: Seq<char>,
    widths: Seq<usize>,
    width: usize,
)
    ensures
        run_of(seq![]).len() == 0,
        run_of(parts.push(part)) == run_of(parts) + part,
        total(seq![]) == 0,
        total(widths.push(width)) == total(widths) + width,
{
    assert(parts.push(part).drop_last() =~= parts);
    assert(widths.push(width).drop_last() =~= widths);
}

/// A text is cut only where it is too wide, and by its parts where there is
/// room for more than the mark.
pub proof fn law_cutting(text: Seq<char>, max: nat)
    ensures
        columns(text) <= max ==> cut_to(text, max) == text,
        columns(text) > max && max <= 1 ==> cut_to(text, max) == "…"@,
        columns(text) > max && max > 1 ==> cut_to(text, max) == shortened(
            clusters(text),
            clusters(text).map_values(|part: Seq<char>| columns(part)),
            max,
        ),
{
}

} // verus!
