//! Entries as the local sources deliver them.
use crate::config::Config;
use crate::models::{entry_of, plain_title, views, Entry, EntryView};
use crate::text::{chars_of, contains, first_pieces, has_text, lines, lines_of, lowercase};
use crate::text::{lowercased, same, splitn, texts, trim, trimmed, Class};
use vstd::prelude::*;
use vstd::string::*;

verus! {

// ---------------------------------------------------------------------------
// Texts
// ---------------------------------------------------------------------------

/// A character that would break a row, turned into a space.
pub open spec fn on_one_line(c: char) -> char {
    if c == '\t' || c == '\n' || c == '\r' {
        ' '
    } else {
        c
    }
}

/// A text with its tabs and line breaks turned into spaces.
pub open spec fn cleaned(s: Seq<char>) -> Seq<char> {
    s.map_values(|c: char| on_one_line(c))
}

/// Turns tabs and line breaks into spaces.
pub fn clean_text(value: &str) -> (r: String)
    ensures
        r@ == cleaned(value@),
{
    let chars = chars_of(value);
    let mut out = String::new();
    let mut i: usize = 0;
    while i < chars.len()
        invariant
            chars@ == value@,
            i <= chars@.len(),
            out@ == cleaned(value@.take(i as int)),
        decreases chars@.len() - i,
    {
        let c = chars[i];
        if c == '\t' || c == '\n' || c == '\r' {
            out.push(' ');
        } else {
            out.push(c);
        }
        assert(out@ =~= cleaned(value@.take(i + 1)));
        i = i + 1;
    }
    assert(value@.take(value@.len() as int) =~= value@);
    out
}

/// Drops white space and formatting characters around a title.
pub fn clean_title(value: &str) -> (r: String)
    ensures
        r@ == plain_title(value@),
{
    trimmed(value, Class::TitlePadding)
}

/// Whether an error says that macOS denied access to a file.
pub open spec fn permission_denied(message: Seq<char>) -> bool {
    ||| has_text(message, "Operation not permitted"@)
    ||| has_text(message, "PermissionDenied"@)
    ||| has_text(lowercase(message), "permission denied"@)
}

pub fn is_macos_permission_denied_message(message: &str) -> (r: bool)
    ensures
        r == permission_denied(message@),
{
    contains(message, "Operation not permitted") || contains(message, "PermissionDenied")
        || contains(lowercased(message).as_str(), "permission denied")
}

// ---------------------------------------------------------------------------
// Rows of a query
// ---------------------------------------------------------------------------

/// The entry of a row with a title, an address and perhaps a detail between
/// tabs. A row without an address has none.
pub open spec fn tsv_entry(
    line: Seq<char>,
    source: Seq<char>,
    default_detail: Seq<char>,
) -> Option<EntryView> {
    let parts = splitn(line, 3, Class::Just('\t'));
    if parts.len() < 2 || trim(parts[1], Class::Space).len() == 0 {
        None
    } else {
        Some(
            entry_of(
                plain_title(trim(parts[0], Class::Space)),
                trim(parts[1], Class::Space),
                source,
                trim(
                    if parts.len() > 2 {
                        parts[2]
                    } else {
                        default_detail
                    },
                    Class::Space,
                ),
            ),
        )
    }
}

/// The entries of rows that stand on lines of their own.
pub open spec fn tsv_entries(
    text: Seq<char>,
    source: Seq<char>,
    default_detail: Seq<char>,
) -> Seq<EntryView> {
    lines(text).filter_map(|line: Seq<char>| tsv_entry(line, source, default_detail))
}

fn parse_tsv_entry(line: &str, source: &str, default_detail: &str) -> (r: Option<Entry>)
    ensures
        match r {
            Some(e) => tsv_entry(line@, source@, default_detail@) == Some(e@),
            None => tsv_entry(line@, source@, default_detail@) is None,
        },
{
    let parts = first_pieces(line, 3, Class::Just('\t'));
    let ghost fields = splitn(line@, 3, Class::Just('\t'));
    assert(texts(parts@) == fields);
    if parts.len() < 2 {
        return None;
    }
    assert(fields[0] == parts@[0]@ && fields[1] == parts@[1]@);
    let title = clean_title(trimmed(parts[0].as_str(), Class::Space).as_str());
    let url = trimmed(parts[1].as_str(), Class::Space);
    let detail = if parts.len() > 2 {
        assert(fields[2] == parts@[2]@);
        trimmed(parts[2].as_str(), Class::Space)
    } else {
        trimmed(default_detail, Class::Space)
    };
    if url.as_str().is_empty() {
        return None;
    }
    Some(Entry::new(title.as_str(), url.as_str(), source, detail.as_str()))
}

/// Reads the rows that a query printed.
pub fn parse_tsv_entries(text: &str, source: &str, default_detail: &str) -> (r: Vec<Entry>)
    ensures
        views(r@) == tsv_entries(text@, source@, default_detail@),
{
    let rows = lines_of(text);
    let ghost all = lines(text@);
    let ghost f = |line: Seq<char>| tsv_entry(line, source@, default_detail@);
    let mut entries: Vec<Entry> = Vec::new();
    let mut i: usize = 0;
    assert(views(entries@) =~= all.take(0).filter_map(f));
    while i < rows.len()
        invariant
            texts(rows@) == all,
            f == (|line: Seq<char>| tsv_entry(line, source@, default_detail@)),
            i <= rows@.len(),
            views(entries@) == all.take(i as int).filter_map(f),
        decreases rows@.len() - i,
    {
        let ghost before = entries@;
        assert(all[i as int] == rows@[i as int]@);
        proof {
            all.lemma_filter_map_take_succ(f, i as int);
        }
        match parse_tsv_entry(rows[i].as_str(), source, default_detail) {
            Some(entry) => {
                entries.push(entry);
                assert(views(entries@) =~= views(before) + seq![entry@]);
            },
            None => {
                assert(views(entries@) =~= views(before) + Seq::empty());
            },
        }
        i = i + 1;
    }
    assert(all.take(all.len() as int) =~= all);
    entries
}

/// The entries in what querying a database gave.
pub open spec fn sqlite_entries(
    outcome: Result<String, String>,
    source: Seq<char>,
    detail: Seq<char>,
) -> Option<Seq<EntryView>> {
    match outcome {
        Ok(rows) => Some(tsv_entries(rows@, source, detail)),
        Err(_) => None,
    }
}

/// The entries of a history database, from what querying it gave. `None` says
/// that the query failed and has to be made on a copy of the database.
pub fn load_sqlite_history(outcome: &Result<String, String>, source: &str, detail: &str) -> (r:
    Option<Vec<Entry>>)
    ensures
        match r {
            Some(entries) => sqlite_entries(*outcome, source@, detail@) == Some(views(entries@)),
            None => sqlite_entries(*outcome, source@, detail@) is None,
        },
        match *outcome {
            Ok(rows) => r is Some && views(r->0@) == tsv_entries(rows@, source@, detail@),
            Err(_) => r is None,
        },
{
    match outcome {
        Ok(rows) => Some(parse_tsv_entries(rows.as_str(), source, detail)),
        Err(_) => None,
    }
}

// ---------------------------------------------------------------------------
// Each result once
// ---------------------------------------------------------------------------

pub open spec fn has_key(
    entries: Seq<EntryView>,
    key: (Seq<char>, Seq<char>, Seq<char>),
) -> bool {
    exists|i: int| 0 <= i < entries.len() && (#[trigger] entries[i]).key() == key
}

/// The first entry of each key, in order, without those that have no address.
pub open spec fn deduplicated(entries: Seq<EntryView>) -> Seq<EntryView>
    decreases entries.len(),
{
    if entries.len() == 0 {
        seq![]
    } else {
        let kept = deduplicated(entries.drop_last());
        let last = entries.last();
        if last.url.len() == 0 || has_key(kept, last.key()) {
            kept
        } else {
            kept.push(last)
        }
    }
}

fn same_key(a: &Entry, b: &Entry) -> (r: bool)
    ensures
        r == (a@.key() == b@.key()),
{
    same(a.url.as_str(), b.url.as_str()) && same(a.title.as_str(), b.title.as_str()) && same(
        a.source.as_str(),
        b.source.as_str(),
    )
}

fn contains_key(entries: &Vec<Entry>, entry: &Entry) -> (r: bool)
    ensures
        r == has_key(views(entries@), entry@.key()),
{
    let ghost all = views(entries@);
    let mut i: usize = 0;
    while i < entries.len()
        invariant
            all == views(entries@),
            i <= entries@.len(),
            forall|j: int| 0 <= j < i ==> (#[trigger] all[j]).key() != entry@.key(),
        decreases entries@.len() - i,
    {
        if same_key(&entries[i], entry) {
            assert(all[i as int].key() == entry@.key());
            return true;
        }
        assert(all[i as int].key() != entry@.key());
        i = i + 1;
    }
    false
}

/// Keeps the first entry of each key.
pub fn deduplicate(entries: Vec<Entry>) -> (r: Vec<Entry>)
    ensures
        views(r@) == deduplicated(views(entries@)),
{
    let ghost all = views(entries@);
    let mut kept: Vec<Entry> = Vec::new();
    let mut i: usize = 0;
    assert(views(kept@) =~= deduplicated(all.take(0)));
    while i < entries.len()
        invariant
            all == views(entries@),
            i <= entries@.len(),
            views(kept@) == deduplicated(all.take(i as int)),
        decreases entries@.len() - i,
    {
        let entry = &entries[i];
        let ghost head = all.take(i + 1);
        let ghost before = kept@;
        assert(head.drop_last() =~= all.take(i as int));
        assert(head.last() == entry@);
        if !entry.url.as_str().is_empty() && !contains_key(&kept, entry) {
            kept.push(entry.clone());
            assert(views(kept@) =~= views(before).push(entry@));
        }
        i = i + 1;
    }
    assert(all.take(all.len() as int) =~= all);
    kept
}

/// After removing duplicates no key stands twice, every entry has an address
/// and came from the list, and every key with an address is still there.
pub proof fn law_deduplicated(entries: Seq<EntryView>)
    ensures
        forall|i: int, j: int|
            0 <= i < j < deduplicated(entries).len() ==> (#[trigger] deduplicated(
                entries,
            )[i]).key() != (#[trigger] deduplicated(entries)[j]).key(),
        forall|i: int|
            0 <= i < deduplicated(entries).len() ==> (#[trigger] deduplicated(entries)[i]).url.len()
                > 0 && entries.contains(deduplicated(entries)[i]),
        forall|i: int|
            0 <= i < entries.len() && (#[trigger] entries[i]).url.len() > 0 ==> has_key(
                deduplicated(entries),
                entries[i].key(),
            ),
    decreases entries.len(),
{
    if entries.len() > 0 {
        let front = entries.drop_last();
        let last = entries.last();
        let kept = deduplicated(front);
        let out = deduplicated(entries);
        law_deduplicated(front);
        assert forall|i: int, j: int| 0 <= i < j < out.len() implies (#[trigger] out[i]).key() != (
        #[trigger] out[j]).key() by {
            if out.len() > kept.len() {
                assert(out[i] == kept[i]);
                if j < kept.len() {
                    assert(out[j] == kept[j]);
                }
            }
        }
        assert forall|i: int| 0 <= i < out.len() implies (#[trigger] out[i]).url.len() > 0
            && entries.contains(out[i]) by {
            if i < kept.len() {
                assert(out[i] == kept[i]);
                let k = choose|k: int| 0 <= k < front.len() && front[k] == kept[i];
                assert(entries[k] == out[i]);
            } else {
                assert(entries[entries.len() - 1] == out[i]);
            }
        }
        assert forall|i: int| 0 <= i < entries.len() && (#[trigger] entries[i]).url.len()
            > 0 implies has_key(out, entries[i].key()) by {
            if i < front.len() {
                assert(front[i] == entries[i]);
                let k = choose|k: int|
                    0 <= k < kept.len() && (#[trigger] kept[k]).key() == entries[i].key();
                assert(out[k] == kept[k]);
            } else if has_key(kept, last.key()) {
            } else {
                assert(out[out.len() - 1] == last);
            }
        }
    }
}

/// Whether an entry has an address and is the first of its key.
pub open spec fn is_first(entries: Seq<EntryView>, i: int) -> bool {
    entries[i].url.len() > 0 && forall|j: int|
        0 <= j < i ==> (#[trigger] entries[j]).key() != entries[i].key()
}

/// The places of the entries that are the first of their key, in order.
pub open spec fn first_ones(entries: Seq<EntryView>, n: int) -> Seq<int> {
    Seq::new(n as nat, |i: int| i).filter(|i: int| is_first(entries, i))
}

proof fn lemma_first_ones(entries: Seq<EntryView>, n: int)
    requires
        0 <= n <= entries.len(),
    ensures
        deduplicated(entries.take(n)) == first_ones(entries, n).map_values(|i: int| entries[i]),
    decreases n,
{
    let f = |i: int| entries[i];
    let p = |i: int| is_first(entries, i);
    reveal(Seq::filter);
    if n == 0 {
        assert(first_ones(entries, 0).map_values(f) =~= seq![]);
        assert(deduplicated(entries.take(0)) =~= seq![]);
    } else {
        let head = entries.take(n);
        let front = entries.take(n - 1);
        let last = entries[n - 1];
        lemma_first_ones(entries, n - 1);
        assert(head.drop_last() =~= front);
        assert(Seq::new(n as nat, |i: int| i).drop_last() =~= Seq::new((n - 1) as nat, |i: int| i));
        let kept = deduplicated(front);
        law_deduplicated(front);
        if last.url.len() > 0 {
            if has_key(kept, last.key()) {
                let k = choose|k: int|
                    0 <= k < kept.len() && (#[trigger] kept[k]).key() == last.key();
                assert(front.contains(kept[k]));
                let j = choose|j: int| 0 <= j < front.len() && front[j] == kept[k];
                assert(entries[j].key() == last.key());
                assert(!p(n - 1));
            } else {
                assert forall|j: int| 0 <= j < n - 1 implies (#[trigger] entries[j]).key()
                    != last.key() by {
                    if entries[j].key() == last.key() {
                        assert(front[j] == entries[j]);
                        assert(front[j].url == last.url);
                        assert(has_key(kept, front[j].key()));
                    }
                }
                assert(p(n - 1));
            }
        }
        assert(deduplicated(head) =~= first_ones(entries, n).map_values(f));
    }
}

/// Removing duplicates keeps exactly the entries that have an address and are
/// the first of their key, in their order.
pub proof fn law_deduplicate_keeps_the_first(entries: Seq<EntryView>)
    ensures
        deduplicated(entries) == first_ones(entries, entries.len() as int).map_values(
            |i: int| entries[i],
        ),
{
    lemma_first_ones(entries, entries.len() as int);
    assert(entries.take(entries.len() as int) =~= entries);
}

/// Entries that have no duplicates are left as they are; so removing
/// duplicates a second time changes nothing.
pub proof fn law_deduplicate_twice(entries: Seq<EntryView>)
    ensures
        deduplicated(deduplicated(entries)) == deduplicated(entries),
{
    law_deduplicated(entries);
    lemma_distinct_stay(deduplicated(entries));
}

proof fn lemma_distinct_stay(entries: Seq<EntryView>)
    requires
        forall|i: int, j: int|
            0 <= i < j < entries.len() ==> (#[trigger] entries[i]).key() != (
            #[trigger] entries[j]).key(),
        forall|i: int| 0 <= i < entries.len() ==> (#[trigger] entries[i]).url.len() > 0,
    ensures
        deduplicated(entries) == entries,
    decreases entries.len(),
{
    if entries.len() > 0 {
        let front = entries.drop_last();
        lemma_distinct_stay(front);
        let last = entries[entries.len() - 1];
        assert(!has_key(front, last.key())) by {
            if has_key(front, last.key()) {
                let i = choose|i: int|
                    0 <= i < front.len() && (#[trigger] front[i]).key() == last.key();
                assert(entries[i].key() != entries[entries.len() - 1].key());
            }
        }
        assert(front.push(last) =~= entries);
    }
}

// ---------------------------------------------------------------------------
// Several sources together
// ---------------------------------------------------------------------------

/// What a source delivered: a label for it, and its entries or an error.
#[derive(Debug)]
pub struct Delivery {
    pub label: String,
    pub rows: Result<Vec<Entry>, String>,
}

/// What a delivery holds.
pub struct DeliveryView {
    pub label: Seq<char>,
    pub rows: Result<Seq<EntryView>, Seq<char>>,
}

/// The entries that were loaded, or the words of the error.
pub open spec fn outcome(rows: Result<Vec<Entry>, String>) -> Result<Seq<EntryView>, Seq<char>> {
    match rows {
        Ok(rows) => Ok(views(rows@)),
        Err(err) => Err(err@),
    }
}

impl View for Delivery {
    type V = DeliveryView;

    open spec fn view(&self) -> DeliveryView {
        DeliveryView { label: self.label@, rows: outcome(self.rows) }
    }
}

pub open spec fn delivery_views(list: Seq<Delivery>) -> Seq<DeliveryView> {
    list.map_values(|d: Delivery| d@)
}

/// The entries of a delivery; none after an error.
pub open spec fn delivered(d: DeliveryView) -> Seq<EntryView> {
    match d.rows {
        Ok(rows) => rows,
        Err(_) => seq![],
    }
}

/// The line that a failed delivery is reported with.
pub open spec fn failure(d: DeliveryView) -> Option<Seq<char>> {
    match d.rows {
        Ok(_) => None,
        Err(err) => Some(d.label + ": "@ + err),
    }
}

/// All delivered entries, in order.
pub open spec fn all_delivered(list: Seq<DeliveryView>) -> Seq<EntryView>
    decreases list.len(),
{
    if list.len() == 0 {
        seq![]
    } else {
        all_delivered(list.drop_last()) + delivered(list.last())
    }
}

/// The reports of all failed deliveries, in order.
pub open spec fn all_failures(list: Seq<DeliveryView>) -> Seq<Seq<char>> {
    list.filter_map(|d: DeliveryView| failure(d))
}

proof fn lemma_push_view(entries: Seq<Entry>, entry: Entry)
    ensures
        views(entries.push(entry)) == views(entries).push(entry@),
{
    assert(views(entries.push(entry)) =~= views(entries).push(entry@));
}

/// Appends a copy of every row.
pub fn add_rows(entries: &mut Vec<Entry>, rows: &Vec<Entry>)
    ensures
        views(final(entries)@) == views(old(entries)@) + views(rows@),
{
    let ghost before = views(entries@);
    let mut i: usize = 0;
    assert(views(entries@) =~= before + views(rows@).take(0));
    while i < rows.len()
        invariant
            i <= rows@.len(),
            views(entries@) == before + views(rows@).take(i as int),
        decreases rows@.len() - i,
    {
        proof {
            lemma_push_view(entries@, rows@[i as int]);
        }
        entries.push(rows[i].clone());
        assert(views(entries@) =~= before + views(rows@).take(i + 1));
        i = i + 1;
    }
    assert(views(rows@).take(rows@.len() as int) =~= views(rows@));
}

proof fn lemma_all_delivered_split(list: Seq<DeliveryView>, k: int)
    requires
        0 <= k <= list.len(),
    ensures
        all_delivered(list) == all_delivered(list.take(k)) + all_delivered(list.skip(k)),
    decreases list.len(),
{
    if k == list.len() {
        assert(list.take(k) =~= list);
        assert(list.skip(k) =~= seq![]);
        assert(all_delivered(list.skip(k)) =~= seq![]);
        assert(all_delivered(list) =~= all_delivered(list) + seq![]);
    } else {
        let front = list.drop_last();
        lemma_all_delivered_split(front, k);
        assert(front.take(k) =~= list.take(k));
        assert(list.skip(k).drop_last() =~= front.skip(k));
        assert(list.skip(k).last() == list.last());
        assert(all_delivered(list) =~= all_delivered(list.take(k)) + all_delivered(list.skip(k)));
    }
}

/// A source that fails takes nothing away from the others: without it the
/// entries are the same. What a source delivered is among all the entries.
pub proof fn law_failures_leave_the_others(list: Seq<DeliveryView>, k: int)
    requires
        0 <= k < list.len(),
    ensures
        list[k].rows is Err ==> all_delivered(list) == all_delivered(list.remove(k)),
        forall|i: int|
            0 <= i < delivered(list[k]).len() ==> all_delivered(list).contains(
                #[trigger] delivered(list[k])[i],
            ),
{
    let before = all_delivered(list.take(k));
    let own = delivered(list[k]);
    let after = all_delivered(list.skip(k + 1));
    lemma_all_delivered_split(list, k);
    lemma_all_delivered_split(list.skip(k), 1);
    let one = list.skip(k).take(1);
    assert(list.skip(k).skip(1) =~= list.skip(k + 1));
    assert(one.drop_last() =~= seq![]);
    assert(all_delivered(one.drop_last()) =~= seq![]);
    assert(one.last() == list[k]);
    assert(all_delivered(one) =~= own);
    assert(all_delivered(list) =~= before + own + after);
    let others = list.remove(k);
    lemma_all_delivered_split(others, k);
    assert(others.take(k) =~= list.take(k));
    assert(others.skip(k) =~= list.skip(k + 1));
    assert forall|i: int| 0 <= i < own.len() implies all_delivered(list).contains(
        #[trigger] own[i],
    ) by {
        assert(all_delivered(list)[before.len() + i] == own[i]);
    }
    if list[k].rows is Err {
        assert(own =~= seq![]);
        assert(before + own + after =~= before + after);
    }
}

fn failure_line(label: &str, err: &str) -> (r: String)
    ensures
        r@ == label@ + ": "@ + err@,
{
    let mut line = label.to_string();
    line.append(": ");
    line.append(err);
    line
}

/// Puts the entries of several sources together. A source that failed is
/// reported and left out.
pub fn collect_rows(list: &Vec<Delivery>) -> (r: (Vec<Entry>, Vec<String>))
    ensures
        views(r.0@) == all_delivered(delivery_views(list@)),
        texts(r.1@) == all_failures(delivery_views(list@)),
{
    let ghost f = |d: DeliveryView| failure(d);
    let ghost all = delivery_views(list@);
    let mut entries: Vec<Entry> = Vec::new();
    let mut reports: Vec<String> = Vec::new();
    let mut i: usize = 0;
    assert(views(entries@) =~= all_delivered(all.take(0)));
    assert(texts(reports@) =~= all.take(0).filter_map(f));
    while i < list.len()
        invariant
            f == (|d: DeliveryView| failure(d)),
            all == delivery_views(list@),
            i <= list@.len(),
            views(entries@) == all_delivered(all.take(i as int)),
            texts(reports@) == all.take(i as int).filter_map(f),
        decreases list@.len() - i,
    {
        let ghost before = reports@;
        let ghost old_entries = views(entries@);
        proof {
            let head = all.take(i + 1);
            assert(head.drop_last() =~= all.take(i as int));
            assert(head.last() == list@[i as int]@);
            all.lemma_filter_map_take_succ(f, i as int);
        }
        match &list[i].rows {
            Ok(rows) => {
                add_rows(&mut entries, rows);
                assert(texts(reports@) =~= texts(before) + Seq::empty());
            },
            Err(err) => {
                let line = failure_line(list[i].label.as_str(), err.as_str());
                reports.push(line);
                assert(texts(reports@) =~= texts(before) + seq![line@]);
                assert(old_entries =~= old_entries + seq![]);
            },
        }
        i = i + 1;
    }
    assert(all.take(all.len() as int) =~= all);
    (entries, reports)
}

/// The deliveries of the local browsers.
pub open spec fn browser_deliveries(
    chromium: Result<Vec<Entry>, String>,
    firefox: Result<Vec<Entry>, String>,
    safari: Result<Vec<Entry>, String>,
) -> Seq<DeliveryView> {
    seq![
        DeliveryView { label: "chromium browser sources"@, rows: outcome(chromium) },
        DeliveryView { label: "firefox browser sources"@, rows: outcome(firefox) },
        DeliveryView { label: "safari browser sources"@, rows: outcome(safari) },
    ]
}

/// The entries of the local browsers, each once, and the reports of those
/// that failed.
pub fn load_local_browser_entries(
    chromium: Result<Vec<Entry>, String>,
    firefox: Result<Vec<Entry>, String>,
    safari: Result<Vec<Entry>, String>,
) -> (r: (Vec<Entry>, Vec<String>))
    ensures
        views(r.0@) == deduplicated(all_delivered(browser_deliveries(chromium, firefox, safari))),
        texts(r.1@) == all_failures(browser_deliveries(chromium, firefox, safari)),
{
    let list = vec![
        Delivery { label: "chromium browser sources".to_string(), rows: chromium },
        Delivery { label: "firefox browser sources".to_string(), rows: firefox },
        Delivery { label: "safari browser sources".to_string(), rows: safari },
    ];
    assert(delivery_views(list@) =~= browser_deliveries(chromium, firefox, safari));
    let (entries, reports) = collect_rows(&list);
    (deduplicate(entries), reports)
}

/// What the remote sources delivered: what their caches held, and what was
/// fetched.
#[derive(Debug)]
pub struct RemoteRows {
    pub cached: Vec<Entry>,
    pub fetched: Result<Vec<Entry>, String>,
}

/// The deliveries of the sources that are switched on.
pub open spec fn enabled_deliveries(
    config: &Config,
    browser: Result<Vec<Entry>, String>,
    github: RemoteRows,
    gitlab: RemoteRows,
) -> Seq<DeliveryView> {
    let local = if config.include_browser {
        seq![DeliveryView { label: "browser sources"@, rows: outcome(browser) }]
    } else {
        seq![]
    };
    let from_github = if config.include_github {
        seq![
            DeliveryView { label: "github cache"@, rows: Ok(views(github.cached@)) },
            DeliveryView { label: "github sources"@, rows: outcome(github.fetched) },
        ]
    } else {
        seq![]
    };
    let from_gitlab = if config.include_gitlab {
        seq![
            DeliveryView { label: "gitlab cache"@, rows: Ok(views(gitlab.cached@)) },
            DeliveryView { label: "gitlab sources"@, rows: outcome(gitlab.fetched) },
        ]
    } else {
        seq![]
    };
    local + from_github + from_gitlab
}

/// The entries of all sources that are switched on, each once, and the
/// reports of those that failed.
pub fn load_entries(
    config: &Config,
    browser: Result<Vec<Entry>, String>,
    github: RemoteRows,
    gitlab: RemoteRows,
) -> (r: (Vec<Entry>, Vec<String>))
    ensures
        views(r.0@) == deduplicated(
            all_delivered(enabled_deliveries(config, browser, github, gitlab)),
        ),
        texts(r.1@) == all_failures(enabled_deliveries(config, browser, github, gitlab)),
{
    let ghost goal = enabled_deliveries(config, browser, github, gitlab);
    let mut list: Vec<Delivery> = Vec::new();
    if config.include_browser {
        list.push(Delivery { label: "browser sources".to_string(), rows: browser });
    }
    if config.include_github {
        list.push(Delivery { label: "github cache".to_string(), rows: Ok(github.cached) });
        list.push(Delivery { label: "github sources".to_string(), rows: github.fetched });
    }
    if config.include_gitlab {
        list.push(Delivery { label: "gitlab cache".to_string(), rows: Ok(gitlab.cached) });
        list.push(Delivery { label: "gitlab sources".to_string(), rows: gitlab.fetched });
    }
    assert(delivery_views(list@) =~= goal);
    let (entries, reports) = collect_rows(&list);
    (deduplicate(entries), reports)
}

// ---------------------------------------------------------------------------
// Safari
// ---------------------------------------------------------------------------

/// Whether a delivery failed because macOS denied access.
pub open spec fn denied(d: DeliveryView) -> bool {
    match d.rows {
        Ok(_) => false,
        Err(err) => permission_denied(err),
    }
}

pub open spec fn any_denied(list: Seq<DeliveryView>) -> bool {
    exists|i: int| 0 <= i < list.len() && denied(#[trigger] list[i])
}

/// The report of a failed delivery, unless access was denied.
pub open spec fn other_failure(d: DeliveryView) -> Option<Seq<char>> {
    if denied(d) {
        None
    } else {
        failure(d)
    }
}

/// The reports on Safari's data: denied access is reported once, at the end.
pub open spec fn safari_reports(list: Seq<DeliveryView>) -> Seq<Seq<char>> {
    list.filter_map(|d: DeliveryView| other_failure(d)) + if any_denied(list) {
        seq![
            "safari data unavailable: macOS denied access. Grant Full Disk Access to your terminal to include Safari bookmarks and history."@,
        ]
    } else {
        seq![]
    }
}

/// Puts Safari's bookmarks and history together, as far as they are there.
pub fn load_safari(list: &Vec<Delivery>) -> (r: (Vec<Entry>, Vec<String>))
    ensures
        views(r.0@) == all_delivered(delivery_views(list@)),
        texts(r.1@) == safari_reports(delivery_views(list@)),
{
    let ghost f = |d: DeliveryView| other_failure(d);
    let ghost all = delivery_views(list@);
    let mut entries: Vec<Entry> = Vec::new();
    let mut reports: Vec<String> = Vec::new();
    let mut macos_permission_denied = false;
    let mut i: usize = 0;
    assert(views(entries@) =~= all_delivered(all.take(0)));
    assert(texts(reports@) =~= all.take(0).filter_map(f));
    while i < list.len()
        invariant
            f == (|d: DeliveryView| other_failure(d)),
            all == delivery_views(list@),
            i <= list@.len(),
            views(entries@) == all_delivered(all.take(i as int)),
            texts(reports@) == all.take(i as int).filter_map(f),
            macos_permission_denied == exists|j: int| 0 <= j < i && denied(#[trigger] all[j]),
        decreases list@.len() - i,
    {
        let ghost before = reports@;
        let ghost old_entries = views(entries@);
        proof {
            let head = all.take(i + 1);
            assert(head.drop_last() =~= all.take(i as int));
            assert(head.last() == list@[i as int]@);
            assert(all[i as int] == list@[i as int]@);
            all.lemma_filter_map_take_succ(f, i as int);
        }
        match &list[i].rows {
            Ok(rows) => {
                add_rows(&mut entries, rows);
                assert(texts(reports@) =~= texts(before) + Seq::empty());
            },
            Err(err) => {
                if is_macos_permission_denied_message(err.as_str()) {
                    macos_permission_denied = true;
                    assert(denied(all[i as int]));
                    assert(texts(reports@) =~= texts(before) + Seq::empty());
                } else {
                    let line = failure_line(list[i].label.as_str(), err.as_str());
                    reports.push(line);
                    assert(texts(reports@) =~= texts(before) + seq![line@]);
                }
                assert(old_entries =~= old_entries + seq![]);
            },
        }
        i = i + 1;
    }
    assert(all.take(all.len() as int) =~= all);
    let ghost before = texts(reports@);
    if macos_permission_denied {
        reports.push(
            "safari data unavailable: macOS denied access. Grant Full Disk Access to your terminal to include Safari bookmarks and history.".to_string(),
        );
    }
    assert(texts(reports@) =~= safari_reports(all));
    (entries, reports)
}

// ---------------------------------------------------------------------------
// Where the browsers keep their files, below the home directory
// ---------------------------------------------------------------------------

pub fn chromium_history_paths() -> (r: Vec<&'static str>)
    ensures
        r@ == seq![
            "Library/Application Support/Google/Chrome/Default/History",
            "Library/Application Support/Chromium/Default/History",
            ".config/google-chrome/Default/History",
            ".config/chromium/Default/History",
            ".config/brave/Default/History",
            ".config/BraveSoftware/Brave-Browser/Default/History",
        ],
{
    vec![
        "Library/Application Support/Google/Chrome/Default/History",
        "Library/Application Support/Chromium/Default/History",
        ".config/google-chrome/Default/History",
        ".config/chromium/Default/History",
        ".config/brave/Default/History",
        ".config/BraveSoftware/Brave-Browser/Default/History",
    ]
}

pub fn chromium_bookmark_paths() -> (r: Vec<&'static str>)
    ensures
        r@ == seq![
            "Library/Application Support/Google/Chrome/Default/Bookmarks",
            "Library/Application Support/Chromium/Default/Bookmarks",
            ".config/google-chrome/Default/Bookmarks",
            ".config/chromium/Default/Bookmarks",
            ".config/brave/Default/Bookmarks",
            ".config/BraveSoftware/Brave-Browser/Default/Bookmarks",
        ],
{
    vec![
        "Library/Application Support/Google/Chrome/Default/Bookmarks",
        "Library/Application Support/Chromium/Default/Bookmarks",
        ".config/google-chrome/Default/Bookmarks",
        ".config/chromium/Default/Bookmarks",
        ".config/brave/Default/Bookmarks",
        ".config/BraveSoftware/Brave-Browser/Default/Bookmarks",
    ]
}

} // verus!
