//! The rows of the configuration tab: settings that match a query, under
//! their headings.
use crate::config::ConfigView;
use crate::config_items::{config_items_of, item_views, ConfigItem, ItemView};
use crate::matchers::{matchable, matched, FuzzyMatcher, Match};
use crate::rank::{law_ranked, lemma_filter_map_keeps, plain_scores, ranked, sort_ranked};
use crate::text::{contains, has_text, lowercase, lowercased, same, texts, words, words_of};
use vstd::prelude::*;
use vstd::string::*;

verus! {

// ---------------------------------------------------------------------------
// Order
// ---------------------------------------------------------------------------

/// The headings of a setting, in lower case.
pub open spec fn item_path(item: ItemView) -> Seq<char> {
    lowercase(item.level1 + " "@ + item.level2 + " "@ + item.level3)
}

/// Whether a query names a setting: its headings hold the query, or every word
/// of it.
pub open spec fn names_item(item: ItemView, query: Seq<char>) -> bool {
    ||| has_text(item_path(item), lowercase(query))
    ||| forall|k: int|
        0 <= k < words(lowercase(query)).len() ==> has_text(
            item_path(item),
            #[trigger] words(lowercase(query))[k],
        )
}

/// The scored place of a setting that matched. One that the query names comes
/// before those whose text only happens to match.
pub open spec fn item_place(
    items: Seq<ItemView>,
    matches: Seq<Option<Match>>,
    query: Seq<char>,
    i: int,
) -> Option<(i64, usize)> {
    match matches[i] {
        Some(m) => Some(
            (
                (m.score + if names_item(items[i], query) {
                    10_000
                } else {
                    0int
                }) as i64,
                i as usize,
            ),
        ),
        None => None,
    }
}

pub open spec fn item_places(
    items: Seq<ItemView>,
    matches: Seq<Option<Match>>,
    query: Seq<char>,
) -> Seq<(i64, usize)> {
    Seq::new(items.len(), |i: int| i).filter_map(|i: int| item_place(items, matches, query, i))
}

/// The places in a ranking, without their scores.
pub open spec fn places(list: Seq<(i64, usize)>) -> Seq<usize> {
    list.map_values(|p: (i64, usize)| p.1)
}

/// The settings that matched, in order.
pub open spec fn ordered_items(
    items: Seq<ItemView>,
    matches: Seq<Option<Match>>,
    query: Seq<char>,
) -> Seq<usize> {
    places(ranked(item_places(items, matches, query)))
}

/// How the settings match a query.
pub open spec fn item_matches(items: Seq<ItemView>, query: Seq<char>) -> Seq<Option<Match>> {
    Seq::new(items.len(), |i: int| matched(query, items[i].haystack))
}

/// The settings that match a query, in order; for the empty query all, as
/// they stand.
pub open spec fn found_items(items: Seq<ItemView>, query: Seq<char>) -> Seq<usize> {
    if query.len() == 0 {
        Seq::new(items.len(), |i: int| i as usize)
    } else {
        ordered_items(items, item_matches(items, query), query)
    }
}

/// Whether the matcher can take a query and all settings.
pub open spec fn items_searchable(items: Seq<ItemView>, query: Seq<char>) -> bool {
    forall|i: int| 0 <= i < items.len() ==> matchable(query, #[trigger] items[i].haystack)
}

fn is_named(item: &ConfigItem, query: &str) -> (r: bool)
    ensures
        r == names_item(item@, query@),
{
    let mut headings = item.level1.clone();
    headings.append(" ");
    headings.append(item.level2.as_str());
    headings.append(" ");
    headings.append(item.level3.as_str());
    let path = lowercased(headings.as_str());
    let wanted = lowercased(query);
    if contains(path.as_str(), wanted.as_str()) {
        return true;
    }
    let terms = words_of(wanted.as_str());
    let ghost all = words(lowercase(query@));
    assert(texts(terms@) == all);
    let mut i: usize = 0;
    while i < terms.len()
        invariant
            texts(terms@) == all,
            path@ == item_path(item@),
            i <= terms@.len(),
            forall|k: int| 0 <= k < i ==> has_text(path@, #[trigger] all[k]),
        ensures
            i <= terms@.len(),
            forall|k: int| 0 <= k < i ==> has_text(path@, #[trigger] all[k]),
            i < terms@.len() ==> !has_text(path@, all[i as int]),
        decreases terms@.len() - i,
    {
        assert(all[i as int] == terms@[i as int]@);
        if !contains(path.as_str(), terms[i].as_str()) {
            break;
        }
        i = i + 1;
    }
    i == terms.len()
}

fn places_of(list: &Vec<(i64, usize)>) -> (r: Vec<usize>)
    ensures
        r@ == places(list@),
{
    let mut out: Vec<usize> = Vec::new();
    let mut i: usize = 0;
    while i < list.len()
        invariant
            i <= list@.len(),
            out@ == places(list@).take(i as int),
        decreases list@.len() - i,
    {
        out.push(list[i].1);
        assert(out@ =~= places(list@).take(i + 1));
        i = i + 1;
    }
    assert(out@ =~= places(list@));
    out
}

/// Puts the settings that matched into order.
pub fn order_items(items: &Vec<ConfigItem>, matches: &Vec<Option<Match>>, query: &str) -> (r: Vec<
    usize,
>)
    requires
        items@.len() == matches@.len(),
        plain_scores(matches@),
    ensures
        r@ == ordered_items(item_views(items@), matches@, query@),
{
    let ghost all = item_views(items@);
    let ghost range = Seq::new(all.len(), |i: int| i);
    let ghost f = |i: int| item_place(all, matches@, query@, i);
    let mut list: Vec<(i64, usize)> = Vec::new();
    let mut i: usize = 0;
    assert(list@ =~= range.take(0).filter_map(f));
    while i < items.len()
        invariant
            all == item_views(items@),
            range == Seq::new(all.len(), |i: int| i),
            f == (|i: int| item_place(all, matches@, query@, i)),
            items@.len() == matches@.len(),
            plain_scores(matches@),
            i <= items@.len(),
            list@ == range.take(i as int).filter_map(f),
        decreases items@.len() - i,
    {
        let ghost before = list@;
        proof {
            range.lemma_filter_map_take_succ(f, i as int);
            assert(range[i as int] == i);
            assert(all[i as int] == items@[i as int]@);
        }
        match matches[i] {
            Some(m) => {
                assert(matches@[i as int] == Some(m));
                let boost: i64 = if is_named(&items[i], query) {
                    10_000
                } else {
                    0
                };
                let place = (m.score + boost, i);
                list.push(place);
                assert(list@ =~= before + seq![place]);
            },
            None => {
                assert(list@ =~= before + Seq::empty());
            },
        }
        i = i + 1;
    }
    assert(range.take(range.len() as int) =~= range);
    let sorted = sort_ranked(&list);
    places_of(&sorted)
}

/// The settings that match a query, in order.
pub fn ranked_config_items(items: &Vec<ConfigItem>, query: &str) -> (r: Vec<usize>)
    requires
        items_searchable(item_views(items@), query@),
    ensures
        r@ == found_items(item_views(items@), query@),
{
    let ghost all = item_views(items@);
    let mut i: usize = 0;
    if query.is_empty() {
        let mut out: Vec<usize> = Vec::new();
        while i < items.len()
            invariant
                i <= items@.len(),
                out@.len() == i,
                forall|k: int| 0 <= k < i ==> out@[k] == k,
            decreases items@.len() - i,
        {
            out.push(i);
            i = i + 1;
        }
        assert(out@ =~= found_items(all, query@));
        return out;
    }
    let ghost goal = item_matches(all, query@);
    let mut matcher = FuzzyMatcher::new(query);
    let mut matches: Vec<Option<Match>> = Vec::new();
    while i < items.len()
        invariant
            all == item_views(items@),
            goal == item_matches(all, query@),
            items_searchable(all, query@),
            matcher.query() == query@,
            i <= items@.len(),
            matches@ == goal.take(i as int),
            plain_scores(matches@),
        decreases items@.len() - i,
    {
        assert(all[i as int] == items@[i as int]@);
        assert(matchable(query@, all[i as int].haystack));
        matches.push(matcher.score(items[i].haystack.as_str()));
        assert(matches@ =~= goal.take(i + 1));
        i = i + 1;
    }
    assert(goal.take(goal.len() as int) =~= goal);
    order_items(items, &matches, query)
}

/// Every place among the settings found is that of a setting.
pub proof fn lemma_found_in_range(items: Seq<ItemView>, query: Seq<char>)
    requires
        items.len() <= usize::MAX,
    ensures
        forall|k: int|
            0 <= k < found_items(items, query).len() ==> (#[trigger] found_items(items, query)[k])
                < items.len(),
{
    if query.len() > 0 {
        let matches = item_matches(items, query);
        let list = item_places(items, matches, query);
        let range = Seq::new(items.len(), |i: int| i);
        let f = |i: int| item_place(items, matches, query, i);
        law_ranked(list);
        broadcast use vstd::seq_lib::group_to_multiset_ensures;

        let out = ranked(list);
        assert forall|k: int| 0 <= k < found_items(items, query).len() implies (
        #[trigger] found_items(items, query)[k]) < items.len() by {
            assert(found_items(items, query)[k] == out[k].1);
            assert(out.contains(out[k]));
            assert(out.to_multiset().count(out[k]) > 0);
            assert(list.contains(out[k]));
            range.lemma_filter_map_contains(f, out[k]);
            let i = choose|i: int| range.contains(i) && #[trigger] f(i) == Some(out[k]);
            let j = choose|j: int| 0 <= j < range.len() && range[j] == i;
            assert(i == j);
        }
    }
}

// ---------------------------------------------------------------------------
// Headings
// ---------------------------------------------------------------------------

/// A row of the configuration tab.
#[derive(Debug, PartialEq, Eq)]
pub enum ConfigDisplayRow {
    Group(String),
    Item(usize),
}

/// What a row holds.
pub enum RowView {
    Group(Seq<char>),
    Item(usize),
}

impl View for ConfigDisplayRow {
    type V = RowView;

    open spec fn view(&self) -> RowView {
        match self {
            ConfigDisplayRow::Group(name) => RowView::Group(name@),
            ConfigDisplayRow::Item(i) => RowView::Item(*i),
        }
    }
}

pub open spec fn row_views(rows: Seq<ConfigDisplayRow>) -> Seq<RowView> {
    rows.map_values(|row: ConfigDisplayRow| row@)
}

/// The headings, in order.
pub open spec fn group_order() -> Seq<Seq<char>> {
    seq!["Browser"@, "GitHub"@, "GitLab"@, "DockerHub"@, "System"@]
}

/// Whether a setting stands under one of the first `n` headings.
pub open spec fn is_grouped(items: Seq<ItemView>, n: int, i: usize) -> bool {
    exists|g: int| 0 <= g < n && items[i as int].level1 == #[trigger] group_order()[g]
}

/// The settings under a heading.
pub open spec fn group_members(items: Seq<ItemView>, order: Seq<usize>, group: Seq<char>) -> Seq<
    usize,
> {
    order.filter(|i: usize| items[i as int].level1 == group)
}

/// A heading and the settings under it; nothing where there are none.
pub open spec fn group_rows(items: Seq<ItemView>, order: Seq<usize>, group: Seq<char>) -> Seq<
    RowView,
> {
    let members = group_members(items, order, group);
    if members.len() == 0 {
        seq![]
    } else {
        seq![RowView::Group(group)] + members.map_values(|i: usize| RowView::Item(i))
    }
}

/// The rows of the first `n` headings.
pub open spec fn grouped_rows(items: Seq<ItemView>, order: Seq<usize>, n: nat) -> Seq<RowView>
    decreases n,
{
    if n == 0 {
        seq![]
    } else {
        grouped_rows(items, order, (n - 1) as nat) + group_rows(
            items,
            order,
            group_order()[n - 1],
        )
    }
}

/// The rows of settings that stand under no known heading: each gets its own.
pub open spec fn stray_rows(items: Seq<ItemView>, order: Seq<usize>) -> Seq<RowView>
    decreases order.len(),
{
    if order.len() == 0 {
        seq![]
    } else {
        let before = stray_rows(items, order.drop_last());
        let i = order.last();
        if is_grouped(items, 5, i) {
            before
        } else {
            before + seq![RowView::Group(items[i as int].level1), RowView::Item(i)]
        }
    }
}

/// The rows for settings in the given order.
pub open spec fn rows_in_order(items: Seq<ItemView>, order: Seq<usize>) -> Seq<RowView> {
    grouped_rows(items, order, 5) + stray_rows(items, order)
}

/// The rows for a query.
pub open spec fn display_rows(items: Seq<ItemView>, query: Seq<char>) -> Seq<RowView> {
    rows_in_order(items, found_items(items, query))
}

fn push_row(rows: &mut Vec<ConfigDisplayRow>, row: ConfigDisplayRow)
    ensures
        row_views(final(rows)@) == row_views(old(rows)@) + seq![row@],
{
    let ghost before = row_views(rows@);
    rows.push(row);
    assert(row_views(rows@) =~= before + seq![row@]);
}

fn add_group(
    rows: &mut Vec<ConfigDisplayRow>,
    items: &Vec<ConfigItem>,
    order: &Vec<usize>,
    group: &str,
)
    requires
        forall|k: int| 0 <= k < order@.len() ==> (#[trigger] order@[k]) < items@.len(),
    ensures
        row_views(final(rows)@) == row_views(old(rows)@) + group_rows(
            item_views(items@),
            order@,
            group@,
        ),
{
    let ghost all = item_views(items@);
    let ghost p = |i: usize| all[i as int].level1 == group@;
    let ghost start = row_views(rows@);
    let ghost goal = group_rows(all, order@, group@);
    let mut found = false;
    let mut i: usize = 0;
    assert(order@.take(0).filter(p) =~= seq![]) by {
        reveal(Seq::filter);
    }
    while i < order.len()
        invariant
            all == item_views(items@),
            p == (|i: usize| all[i as int].level1 == group@),
            forall|k: int| 0 <= k < order@.len() ==> (#[trigger] order@[k]) < items@.len(),
            i <= order@.len(),
            found == (order@.take(i as int).filter(p).len() > 0),
            row_views(rows@) == start + group_rows(all, order@.take(i as int), group@),
        decreases order@.len() - i,
    {
        let ghost head = order@.take(i as int);
        let ghost next = order@.take(i + 1);
        let place = order[i];
        proof {
            reveal(Seq::filter);
            assert(next.drop_last() =~= head);
            assert(next.last() == place);
            assert(all[place as int] == items@[place as int]@);
        }
        if same(items[place].level1.as_str(), group) {
            let ghost before = row_views(rows@);
            if !found {
                push_row(rows, ConfigDisplayRow::Group(group.to_string()));
                found = true;
            }
            push_row(rows, ConfigDisplayRow::Item(place));
            proof {
                assert(next.filter(p) =~= head.filter(p).push(place));
                assert(row_views(rows@) =~= start + group_rows(all, next, group@));
            }
        } else {
            assert(next.filter(p) == head.filter(p));
        }
        i = i + 1;
    }
    assert(order@.take(order@.len() as int) =~= order@);
}

fn has_known_heading(item: &ConfigItem) -> (r: bool)
    ensures
        r == exists|g: int| 0 <= g < 5 && item@.level1 == #[trigger] group_order()[g],
{
    let level = item.level1.as_str();
    let r = same(level, "Browser") || same(level, "GitHub") || same(level, "GitLab") || same(
        level,
        "DockerHub",
    ) || same(level, "System");
    proof {
        assert(group_order()[0] == "Browser"@);
        assert(group_order()[1] == "GitHub"@);
        assert(group_order()[2] == "GitLab"@);
        assert(group_order()[3] == "DockerHub"@);
        assert(group_order()[4] == "System"@);
    }
    r
}

/// Puts settings in the given order under their headings.
pub fn group_items(items: &Vec<ConfigItem>, order: &Vec<usize>) -> (r: Vec<ConfigDisplayRow>)
    requires
        forall|k: int| 0 <= k < order@.len() ==> (#[trigger] order@[k]) < items@.len(),
    ensures
        row_views(r@) == rows_in_order(item_views(items@), order@),
{
    let ghost all = item_views(items@);
    let mut rows: Vec<ConfigDisplayRow> = Vec::new();
    proof {
        reveal_with_fuel(grouped_rows, 6);
        assert(row_views(rows@) =~= seq![]);
    }
    add_group(&mut rows, items, order, "Browser");
    add_group(&mut rows, items, order, "GitHub");
    add_group(&mut rows, items, order, "GitLab");
    add_group(&mut rows, items, order, "DockerHub");
    add_group(&mut rows, items, order, "System");
    assert(row_views(rows@) == grouped_rows(all, order@, 5));
    let ghost grouped = row_views(rows@);
    let mut i: usize = 0;
    assert(grouped + stray_rows(all, order@.take(0)) =~= grouped);
    while i < order.len()
        invariant
            all == item_views(items@),
            forall|k: int| 0 <= k < order@.len() ==> (#[trigger] order@[k]) < items@.len(),
            i <= order@.len(),
            row_views(rows@) == grouped + stray_rows(all, order@.take(i as int)),
        decreases order@.len() - i,
    {
        let place = order[i];
        let ghost next = order@.take(i + 1);
        proof {
            assert(next.drop_last() =~= order@.take(i as int));
            assert(next.last() == place);
            assert(all[place as int] == items@[place as int]@);
        }
        if !has_known_heading(&items[place]) {
            push_row(&mut rows, ConfigDisplayRow::Group(items[place].level1.clone()));
            push_row(&mut rows, ConfigDisplayRow::Item(place));
            assert(row_views(rows@) =~= grouped + stray_rows(all, next));
        }
        i = i + 1;
    }
    assert(order@.take(order@.len() as int) =~= order@);
    rows
}

/// The rows of the configuration tab for a query.
pub fn config_display_rows(items: &Vec<ConfigItem>, query: &str) -> (r: Vec<ConfigDisplayRow>)
    requires
        items_searchable(item_views(items@), query@),
    ensures
        row_views(r@) == display_rows(item_views(items@), query@),
{
    let n: usize = items.len();
    let order = ranked_config_items(items, query);
    proof {
        lemma_found_in_range(item_views(items@), query@);
        assert forall|k: int| 0 <= k < order@.len() implies (#[trigger] order@[k])
            < items@.len() by {
            assert(found_items(item_views(items@), query@)[k] == order@[k]);
        }
    }
    group_items(items, &order)
}

// ---------------------------------------------------------------------------
// Every setting once, under its own heading
// ---------------------------------------------------------------------------

/// The setting in a row, if it is not a heading.
pub open spec fn row_item(row: RowView) -> Option<usize> {
    match row {
        RowView::Group(_) => None,
        RowView::Item(i) => Some(i),
    }
}

/// The settings in some rows, in order.
pub open spec fn rows_items(rows: Seq<RowView>) -> Seq<usize> {
    rows.filter_map(|row: RowView| row_item(row))
}

/// The heading that stands last before place `k` of some rows.
pub open spec fn heading(rows: Seq<RowView>, k: int) -> Option<Seq<char>>
    decreases k,
{
    if k <= 0 || k > rows.len() {
        None
    } else {
        match rows[k - 1] {
            RowView::Group(name) => Some(name),
            RowView::Item(_) => heading(rows, k - 1),
        }
    }
}

/// Whether every setting in some rows stands under its own heading.
pub open spec fn well_headed(items: Seq<ItemView>, rows: Seq<RowView>) -> bool {
    forall|k: int|
        0 <= k < rows.len() ==> (#[trigger] rows[k] matches RowView::Item(i) ==> heading(rows, k)
            == Some(items[i as int].level1))
}

proof fn lemma_heading_behind(a: Seq<RowView>, b: Seq<RowView>, k: int)
    requires
        0 <= k <= b.len(),
        heading(b, k) is Some,
    ensures
        heading(a + b, a.len() + k) == heading(b, k),
    decreases k,
{
    assert((a + b)[a.len() + k - 1] == b[k - 1]);
    if let RowView::Item(_) = b[k - 1] {
        lemma_heading_behind(a, b, k - 1);
    }
}

proof fn lemma_heading_before(a: Seq<RowView>, b: Seq<RowView>, k: int)
    requires
        0 <= k <= a.len(),
    ensures
        heading(a + b, k) == heading(a, k),
    decreases k,
{
    if k > 0 {
        assert((a + b)[k - 1] == a[k - 1]);
        lemma_heading_before(a, b, k - 1);
    }
}

proof fn lemma_well_headed_join(items: Seq<ItemView>, a: Seq<RowView>, b: Seq<RowView>)
    requires
        well_headed(items, a),
        well_headed(items, b),
    ensures
        well_headed(items, a + b),
{
    let rows = a + b;
    assert forall|k: int| 0 <= k < rows.len() implies (#[trigger] rows[k] matches RowView::Item(
        i,
    ) ==> heading(rows, k) == Some(items[i as int].level1)) by {
        if k < a.len() {
            assert(rows[k] == a[k]);
            lemma_heading_before(a, b, k);
        } else {
            assert(rows[k] == b[k - a.len()]);
            if let RowView::Item(i) = rows[k] {
                assert(heading(b, k - a.len()) == Some(items[i as int].level1));
                lemma_heading_behind(a, b, k - a.len());
            }
        }
    }
}

proof fn lemma_group_heading(rows: Seq<RowView>, k: int)
    requires
        0 < k <= rows.len(),
        rows[0] is Group,
        forall|j: int| 0 < j < rows.len() ==> (#[trigger] rows[j]) is Item,
    ensures
        heading(rows, k) == Some(rows[0]->Group_0),
    decreases k,
{
    if k > 1 {
        assert(rows[k - 1] is Item);
        lemma_group_heading(rows, k - 1);
    }
}

proof fn lemma_filter_kept(order: Seq<usize>, p: spec_fn(usize) -> bool)
    ensures
        forall|k: int| 0 <= k < order.filter(p).len() ==> p(#[trigger] order.filter(p)[k]),
{
    assert forall|k: int| 0 <= k < order.filter(p).len() implies p(
        #[trigger] order.filter(p)[k],
    ) by {
        assert(order.filter(p).contains(order.filter(p)[k]));
        broadcast use vstd::seq_lib::group_filter_ensures;

    }
}

proof fn lemma_group_well_headed(items: Seq<ItemView>, order: Seq<usize>, group: Seq<char>)
    ensures
        well_headed(items, group_rows(items, order, group)),
        rows_items(group_rows(items, order, group)) == group_members(items, order, group),
{
    let rows = group_rows(items, order, group);
    let members = group_members(items, order, group);
    if members.len() > 0 {
        lemma_filter_kept(order, |i: usize| items[i as int].level1 == group);
        assert forall|k: int| 0 <= k < rows.len() implies (#[trigger] rows[k] matches RowView::Item(
            i,
        ) ==> heading(rows, k) == Some(items[i as int].level1)) by {
            if let RowView::Item(i) = rows[k] {
                assert(rows[k] == RowView::Item(members[k - 1]));
                lemma_group_heading(rows, k);
            }
        }
        let below = members.map_values(|i: usize| RowView::Item(i));
        lemma_rows_items_join(seq![RowView::Group(group)], below);
        lemma_items_of_plain_rows(members);
        reveal_with_fuel(Seq::filter_map, 2);
        assert(rows_items(seq![RowView::Group(group)]) =~= seq![]);
        assert(rows_items(rows) =~= members);
    } else {
        assert(members =~= seq![]);
        assert(rows_items(rows) =~= members);
    }
}

proof fn lemma_items_of_plain_rows(members: Seq<usize>)
    ensures
        rows_items(members.map_values(|i: usize| RowView::Item(i))) == members,
    decreases members.len(),
{
    let rows = members.map_values(|i: usize| RowView::Item(i));
    if members.len() > 0 {
        let front = members.drop_last();
        lemma_items_of_plain_rows(front);
        assert(rows.drop_last() =~= front.map_values(|i: usize| RowView::Item(i)));
        assert(front + seq![members.last()] =~= members);
    } else {
        assert(members =~= seq![]);
    }
}

proof fn lemma_rows_items_join(a: Seq<RowView>, b: Seq<RowView>)
    ensures
        rows_items(a + b) == rows_items(a) + rows_items(b),
    decreases b.len(),
{
    let rows = a + b;
    if b.len() == 0 {
        assert(rows =~= a);
        assert(rows_items(a) + rows_items(b) =~= rows_items(a));
    } else {
        let front = b.drop_last();
        assert(rows.drop_last() =~= a + front);
        assert(rows.last() == b.last());
        lemma_rows_items_join(a, front);
        assert(rows_items(rows) =~= rows_items(a) + rows_items(b));
    }
}

proof fn lemma_filter_split(
    order: Seq<usize>,
    p: spec_fn(usize) -> bool,
    q: spec_fn(usize) -> bool,
    either: spec_fn(usize) -> bool,
)
    requires
        forall|i: usize| #[trigger] either(i) == (p(i) || q(i)),
        forall|i: usize| !(#[trigger] p(i) && q(i)),
    ensures
        order.filter(either).to_multiset() == order.filter(p).to_multiset().add(
            order.filter(q).to_multiset(),
        ),
    decreases order.len(),
{
    broadcast use vstd::seq_lib::group_to_multiset_ensures;

    reveal(Seq::filter);
    if order.len() > 0 {
        let front = order.drop_last();
        let last = order.last();
        lemma_filter_split(front, p, q, either);
        assert(either(last) == (p(last) || q(last)));
        assert(!(p(last) && q(last)));
        let left = order.filter(either).to_multiset();
        let right = order.filter(p).to_multiset().add(order.filter(q).to_multiset());
        if p(last) {
            assert(order.filter(p) == front.filter(p).push(last));
            assert(order.filter(either) == front.filter(either).push(last));
            assert(order.filter(q) == front.filter(q));
            assert(left =~= right);
        } else if q(last) {
            assert(order.filter(q) == front.filter(q).push(last));
            assert(order.filter(either) == front.filter(either).push(last));
            assert(order.filter(p) == front.filter(p));
            assert(left =~= right);
        }
    } else {
        assert(order.filter(either) =~= seq![]);
        assert(order.filter(p) =~= seq![]);
        assert(order.filter(q) =~= seq![]);
        assert(order.filter(either).to_multiset() =~= order.filter(p).to_multiset().add(
            order.filter(q).to_multiset(),
        ));
    }
}

proof fn lemma_groups_differ()
    ensures
        forall|g: int, h: int|
            0 <= g < h < 5 ==> (#[trigger] group_order()[g]) != (#[trigger] group_order()[h]),
{
    reveal_strlit("Browser");
    reveal_strlit("GitHub");
    reveal_strlit("GitLab");
    reveal_strlit("DockerHub");
    reveal_strlit("System");
    assert("Browser"@.len() == 7 && "DockerHub"@.len() == 9);
    assert("GitHub"@.len() == 6 && "GitLab"@.len() == 6 && "System"@.len() == 6);
    assert("GitHub"@[3] != "GitLab"@[3]);
    assert("GitHub"@[0] != "System"@[0]);
    assert("GitLab"@[0] != "System"@[0]);
    assert(group_order()[0] == "Browser"@ && group_order()[1] == "GitHub"@);
    assert(group_order()[2] == "GitLab"@ && group_order()[3] == "DockerHub"@);
    assert(group_order()[4] == "System"@);
}

proof fn lemma_grouped(items: Seq<ItemView>, order: Seq<usize>, n: nat)
    requires
        n <= 5,
    ensures
        well_headed(items, grouped_rows(items, order, n)),
        rows_items(grouped_rows(items, order, n)).to_multiset() == order.filter(
            |i: usize| is_grouped(items, n as int, i),
        ).to_multiset(),
    decreases n,
{
    let known = |i: usize| is_grouped(items, n as int, i);
    if n == 0 {
        assert(grouped_rows(items, order, 0) =~= seq![]);
        assert(order.filter(known) =~= seq![]) by {
            lemma_filter_kept(order, known);
            if order.filter(known).len() > 0 {
                assert(known(order.filter(known)[0]));
            }
        }
        assert(rows_items(grouped_rows(items, order, 0)) =~= seq![]);
    } else {
        let m = (n - 1) as nat;
        let group = group_order()[n - 1];
        let fewer = |i: usize| is_grouped(items, m as int, i);
        let own = |i: usize| items[i as int].level1 == group;
        lemma_grouped(items, order, m);
        lemma_group_well_headed(items, order, group);
        lemma_well_headed_join(
            items,
            grouped_rows(items, order, m),
            group_rows(items, order, group),
        );
        lemma_rows_items_join(grouped_rows(items, order, m), group_rows(items, order, group));
        lemma_groups_differ();
        assert forall|i: usize| #[trigger] known(i) == (fewer(i) || own(i)) by {
            if known(i) {
                let g = choose|g: int|
                    0 <= g < n && items[i as int].level1 == #[trigger] group_order()[g];
                assert(group_order()[g] == items[i as int].level1);
            }
            if fewer(i) {
                let g = choose|g: int|
                    0 <= g < m && items[i as int].level1 == #[trigger] group_order()[g];
                assert(group_order()[g] == items[i as int].level1);
            }
        }
        assert forall|i: usize| !(#[trigger] fewer(i) && own(i)) by {
            if fewer(i) && own(i) {
                let g = choose|g: int|
                    0 <= g < m && items[i as int].level1 == #[trigger] group_order()[g];
                assert(group_order()[g] != group_order()[n - 1]);
            }
        }
        lemma_filter_split(order, fewer, own, known);
        vstd::seq_lib::lemma_multiset_commutative(
            rows_items(grouped_rows(items, order, m)),
            rows_items(group_rows(items, order, group)),
        );
    }
}

proof fn lemma_strays(items: Seq<ItemView>, order: Seq<usize>)
    ensures
        well_headed(items, stray_rows(items, order)),
        rows_items(stray_rows(items, order)) == order.filter(
            |i: usize| !is_grouped(items, 5, i),
        ),
    decreases order.len(),
{
    let stray = |i: usize| !is_grouped(items, 5, i);
    reveal(Seq::filter);
    if order.len() == 0 {
        assert(order.filter(stray) =~= seq![]);
        assert(rows_items(stray_rows(items, order)) =~= seq![]);
    } else {
        let front = order.drop_last();
        let i = order.last();
        lemma_strays(items, front);
        if !is_grouped(items, 5, i) {
            let before = stray_rows(items, front);
            let own = seq![RowView::Group(items[i as int].level1), RowView::Item(i)];
            reveal_with_fuel(heading, 2);
            assert(heading(own, 1) == Some(items[i as int].level1));
            assert(well_headed(items, own));
            lemma_well_headed_join(items, before, own);
            lemma_rows_items_join(before, own);
            assert(own.drop_last() =~= seq![RowView::Group(items[i as int].level1)]);
            assert(own.drop_last().drop_last() =~= seq![]);
            reveal_with_fuel(Seq::filter_map, 3);
            assert(rows_items(own) =~= seq![i]);
            assert(rows_items(stray_rows(items, order)) =~= order.filter(stray));
        }
    }
}

/// A setting in a row is among the settings of the rows.
pub proof fn lemma_rows_items_hold(rows: Seq<RowView>, k: int)
    requires
        0 <= k < rows.len(),
        row_item(rows[k]) is Some,
    ensures
        rows_items(rows).contains(row_item(rows[k])->0),
{
    lemma_filter_map_keeps(rows, |row: RowView| row_item(row), k);
}

/// The rows show every setting that was found exactly once, and each under its
/// own heading.
pub proof fn law_rows_show_all_items(items: Seq<ItemView>, order: Seq<usize>)
    ensures
        rows_items(rows_in_order(items, order)).to_multiset() == order.to_multiset(),
        well_headed(items, rows_in_order(items, order)),
{
    let known = |i: usize| is_grouped(items, 5, i);
    let stray = |i: usize| !is_grouped(items, 5, i);
    let all = |i: usize| true;
    lemma_grouped(items, order, 5);
    lemma_strays(items, order);
    lemma_well_headed_join(items, grouped_rows(items, order, 5), stray_rows(items, order));
    lemma_rows_items_join(grouped_rows(items, order, 5), stray_rows(items, order));
    vstd::seq_lib::lemma_multiset_commutative(
        rows_items(grouped_rows(items, order, 5)),
        rows_items(stray_rows(items, order)),
    );
    lemma_filter_split(order, known, stray, all);
    lemma_filter_all(order, all);
}

proof fn lemma_filter_all(order: Seq<usize>, all: spec_fn(usize) -> bool)
    requires
        forall|i: usize| #[trigger] all(i),
    ensures
        order.filter(all) == order,
    decreases order.len(),
{
    reveal(Seq::filter);
    if order.len() > 0 {
        lemma_filter_all(order.drop_last(), all);
        assert(all(order.last()));
        assert(order.drop_last().push(order.last()) =~= order);
    } else {
        assert(order.filter(all) =~= order);
    }
}

// ---------------------------------------------------------------------------
// Every heading once, before all its settings
// ---------------------------------------------------------------------------

/// Whether a heading stands at a place, with exactly the given settings below
/// it and in their order: behind them another heading comes, or nothing.
pub open spec fn stands_at(rows: Seq<RowView>, k: int, name: Seq<char>, members: Seq<usize>) -> bool {
    &&& 0 <= k && k + members.len() < rows.len()
    &&& rows[k] == RowView::Group(name)
    &&& forall|j: int|
        0 <= j < members.len() ==> rows[k + 1 + j] == RowView::Item(#[trigger] members[j])
    &&& k + 1 + members.len() < rows.len() ==> rows[k + 1 + members.len()] is Group
}

/// Whether there is a place where a heading stands with the given settings.
pub open spec fn stands(rows: Seq<RowView>, name: Seq<char>, members: Seq<usize>) -> bool {
    exists|k: int| #[trigger] stands_at(rows, k, name, members)
}

/// Whether two rows are headings in their order.
pub open spec fn in_group_order(a: RowView, b: RowView) -> bool {
    exists|g: int, h: int|
        0 <= g < h < 5 && a == RowView::Group(#[trigger] group_order()[g]) && b == RowView::Group(
            #[trigger] group_order()[h],
        )
}

/// Whether a row is one of the first `n` headings and has settings.
pub open spec fn is_used_heading(
    items: Seq<ItemView>,
    order: Seq<usize>,
    n: nat,
    row: RowView,
) -> bool {
    exists|g: int|
        0 <= g < n && row == RowView::Group(#[trigger] group_order()[g]) && group_members(
            items,
            order,
            group_order()[g],
        ).len() > 0
}

proof fn lemma_stands_before(a: Seq<RowView>, b: Seq<RowView>, name: Seq<char>, members: Seq<usize>)
    requires
        stands(a, name, members),
        b.len() > 0 ==> b[0] is Group,
    ensures
        stands(a + b, name, members),
{
    let rows = a + b;
    let k = choose|k: int| #[trigger] stands_at(a, k, name, members);
    assert(rows[k] == a[k]);
    assert forall|j: int| 0 <= j < members.len() implies rows[k + 1 + j] == RowView::Item(
        #[trigger] members[j],
    ) by {
        assert(a[k + 1 + j] == RowView::Item(members[j]));
    }
    assert(stands_at(rows, k, name, members));
}

proof fn lemma_groups_stand(items: Seq<ItemView>, order: Seq<usize>, n: nat)
    requires
        n <= 5,
    ensures
        ({
            let rows = grouped_rows(items, order, n);
            &&& forall|g: int|
                0 <= g < n && group_members(items, order, #[trigger] group_order()[g]).len() > 0
                    ==> stands(
                    rows,
                    group_order()[g],
                    group_members(items, order, group_order()[g]),
                )
            &&& forall|k: int|
                0 <= k < rows.len() && (#[trigger] rows[k]) is Group ==> is_used_heading(
                    items,
                    order,
                    n,
                    rows[k],
                )
            &&& forall|i: int, j: int|
                0 <= i < j < rows.len() && (#[trigger] rows[i]) is Group && (
                #[trigger] rows[j]) is Group ==> in_group_order(rows[i], rows[j])
        }),
    decreases n,
{
    if n > 0 {
        let m = (n - 1) as nat;
        let group = group_order()[n - 1];
        let members = group_members(items, order, group);
        let a = grouped_rows(items, order, m);
        let b = group_rows(items, order, group);
        let rows = grouped_rows(items, order, n);
        lemma_groups_stand(items, order, m);
        assert(rows == a + b);
        assert forall|g: int|
            0 <= g < n && group_members(items, order, #[trigger] group_order()[g]).len()
                > 0 implies stands(
            rows,
            group_order()[g],
            group_members(items, order, group_order()[g]),
        ) by {
            if g < m {
                lemma_stands_before(
                    a,
                    b,
                    group_order()[g],
                    group_members(items, order, group_order()[g]),
                );
            } else {
                let k = a.len() as int;
                assert forall|j: int| 0 <= j < members.len() implies rows[k + 1 + j]
                    == RowView::Item(#[trigger] members[j]) by {
                    assert(rows[k + 1 + j] == b[1 + j]);
                }
                assert(rows[k] == b[0]);
                assert(stands_at(rows, k, group, members));
            }
        }
        assert forall|k: int| 0 <= k < rows.len() && (#[trigger] rows[k]) is Group implies
            is_used_heading(items, order, n, rows[k]) by {
            if k < a.len() {
                assert(rows[k] == a[k]);
                assert(is_used_heading(items, order, m, a[k]));
                let g = choose|g: int|
                    0 <= g < m && a[k] == RowView::Group(#[trigger] group_order()[g])
                        && group_members(items, order, group_order()[g]).len() > 0;
                assert(a[k] == RowView::Group(group_order()[g]));
            } else {
                assert(rows[k] == b[k - a.len()]);
                assert(rows[k] == RowView::Group(group_order()[n - 1]));
            }
        }
        assert forall|i: int, j: int|
            0 <= i < j < rows.len() && (#[trigger] rows[i]) is Group && (
            #[trigger] rows[j]) is Group implies in_group_order(rows[i], rows[j]) by {
            if j < a.len() {
                assert(rows[i] == a[i] && rows[j] == a[j]);
            } else {
                assert(rows[j] == b[j - a.len()]);
                assert(j == a.len());
                assert(rows[i] == a[i]);
                assert(is_used_heading(items, order, m, a[i]));
                let g = choose|g: int|
                    0 <= g < m && a[i] == RowView::Group(#[trigger] group_order()[g])
                        && group_members(items, order, group_order()[g]).len() > 0;
                assert(rows[i] == RowView::Group(group_order()[g]));
                assert(rows[j] == RowView::Group(group_order()[n - 1]));
            }
        }
    }
}

proof fn lemma_no_strays(items: Seq<ItemView>, order: Seq<usize>)
    requires
        forall|k: int| 0 <= k < order.len() ==> is_grouped(items, 5, #[trigger] order[k]),
    ensures
        stray_rows(items, order) == Seq::<RowView>::empty(),
    decreases order.len(),
{
    if order.len() > 0 {
        let front = order.drop_last();
        assert forall|k: int| 0 <= k < front.len() implies is_grouped(
            items,
            5,
            #[trigger] front[k],
        ) by {
            assert(front[k] == order[k]);
        }
        lemma_no_strays(items, front);
        assert(is_grouped(items, 5, order[order.len() - 1]));
    }
}

/// Where all settings stand under known headings, every heading with settings
/// stands once, directly before all of them in their order and no others, the
/// headings stand in their order, and one without settings is not shown.
pub proof fn law_headings_stand_once(items: Seq<ItemView>, order: Seq<usize>)
    requires
        forall|k: int| 0 <= k < order.len() ==> is_grouped(items, 5, #[trigger] order[k]),
    ensures
        forall|g: int|
            0 <= g < 5 && group_members(items, order, #[trigger] group_order()[g]).len() > 0
                ==> stands(
                rows_in_order(items, order),
                group_order()[g],
                group_members(items, order, group_order()[g]),
            ),
        forall|k: int|
            0 <= k < rows_in_order(items, order).len() && (#[trigger] rows_in_order(
                items,
                order,
            )[k]) is Group ==> is_used_heading(items, order, 5, rows_in_order(items, order)[k]),
        forall|i: int, j: int|
            0 <= i < j < rows_in_order(items, order).len() && (#[trigger] rows_in_order(
                items,
                order,
            )[i]) is Group && (#[trigger] rows_in_order(items, order)[j]) is Group ==> {
                &&& in_group_order(rows_in_order(items, order)[i], rows_in_order(items, order)[j])
                &&& rows_in_order(items, order)[i] != rows_in_order(items, order)[j]
            },
{
    let rows = rows_in_order(items, order);
    lemma_groups_stand(items, order, 5);
    lemma_no_strays(items, order);
    lemma_groups_differ();
    assert(rows =~= grouped_rows(items, order, 5));
    assert forall|i: int, j: int|
        0 <= i < j < rows.len() && (#[trigger] rows[i]) is Group && (
        #[trigger] rows[j]) is Group implies rows[i] != rows[j] by {
        assert(in_group_order(rows[i], rows[j]));
        let (g, h) = choose|g: int, h: int|
            0 <= g < h < 5 && rows[i] == RowView::Group(#[trigger] group_order()[g]) && rows[j]
                == RowView::Group(#[trigger] group_order()[h]);
        assert(group_order()[g] != group_order()[h]);
    }
}

/// All settings of a configuration stand under known headings.
pub proof fn law_settings_have_headings(config: ConfigView)
    ensures
        forall|i: usize|
            i < config_items_of(config).len() ==> #[trigger] is_grouped(
                config_items_of(config),
                5,
                i,
            ),
{
    let items = config_items_of(config);
    assert forall|i: usize| i < items.len() implies #[trigger] is_grouped(items, 5, i) by {
        assert(group_order()[0] == "Browser"@ && group_order()[1] == "GitHub"@);
        assert(group_order()[2] == "GitLab"@ && group_order()[3] == "DockerHub"@);
        assert(group_order()[4] == "System"@);
    }
}

/// Whether the headings of a setting hold the query, or all of its words, in
/// whatever case.
pub open spec fn headings_hold(item: ItemView, query: Seq<char>) -> bool {
    let path = lowercase(item.level1 + " "@ + item.level2 + " "@ + item.level3);
    ||| has_text(path, lowercase(query))
    ||| forall|k: int|
        0 <= k < words(lowercase(query)).len() ==> has_text(
            path,
            #[trigger] words(lowercase(query))[k],
        )
}

/// The points of a setting: those of its match, and ten thousand more where its
/// headings hold the query.
pub open spec fn item_points(item: ItemView, m: Match, query: Seq<char>) -> int {
    m.score + (if headings_hold(item, query) {
        10_000int
    } else {
        0
    })
}

/// The settings that matched come with the most points first, and of equal ones
/// the one that stood first; all of them and no others, each once.
pub proof fn law_settings_are_ordered(
    items: Seq<ItemView>,
    matches: Seq<Option<Match>>,
    query: Seq<char>,
)
    requires
        items.len() == matches.len(),
        items.len() <= usize::MAX,
        plain_scores(matches),
    ensures
        ({
            let order = ordered_items(items, matches, query);
            &&& forall|k: int|
                0 <= k < order.len() ==> (#[trigger] order[k]) < items.len()
                    && matches[order[k] as int] is Some
            &&& forall|j: int, k: int|
                0 <= j < k < order.len() ==> {
                    let a = item_points(
                        items[(#[trigger] order[j]) as int],
                        matches[order[j] as int]->0,
                        query,
                    );
                    let b = item_points(
                        items[(#[trigger] order[k]) as int],
                        matches[order[k] as int]->0,
                        query,
                    );
                    a > b || (a == b && order[j] <= order[k])
                }
            &&& forall|i: int|
                0 <= i < items.len() && (#[trigger] matches[i]) is Some ==> order.contains(
                    i as usize,
                )
        }),
{
    let list = item_places(items, matches, query);
    let range = Seq::new(items.len(), |i: int| i);
    let f = |i: int| item_place(items, matches, query, i);
    let out = ranked(list);
    let order = ordered_items(items, matches, query);
    law_ranked(list);
    broadcast use vstd::seq_lib::group_to_multiset_ensures;

    assert forall|k: int| 0 <= k < out.len() implies ({
        let (score, place) = #[trigger] out[k];
        &&& place < items.len()
        &&& matches[place as int] is Some
        &&& score == item_points(items[place as int], matches[place as int]->0, query)
    }) by {
        assert(out.contains(out[k]));
        assert(out.to_multiset().count(out[k]) > 0);
        assert(list.contains(out[k]));
        range.lemma_filter_map_contains(f, out[k]);
        let i = choose|i: int| range.contains(i) && #[trigger] f(i) == Some(out[k]);
        let j = choose|j: int| 0 <= j < range.len() && range[j] == i;
        assert(i == j);
        assert(matches[i] is Some);
    }
    assert forall|k: int| 0 <= k < order.len() implies (#[trigger] order[k]) < items.len()
        && matches[order[k] as int] is Some by {
        assert(order[k] == out[k].1);
    }
    assert forall|j: int, k: int| 0 <= j < k < order.len() implies ({
        let a = item_points(
            items[(#[trigger] order[j]) as int],
            matches[order[j] as int]->0,
            query,
        );
        let b = item_points(
            items[(#[trigger] order[k]) as int],
            matches[order[k] as int]->0,
            query,
        );
        a > b || (a == b && order[j] <= order[k])
    }) by {
        assert(order[j] == out[j].1 && order[k] == out[k].1);
    }
    assert forall|i: int| 0 <= i < items.len() && (#[trigger] matches[i]) is Some implies order.contains(
    i as usize) by {
        assert(f(range[i]) is Some);
        lemma_filter_map_keeps(range, f, i);
        let place = f(i)->0;
        assert(list.contains(place));
        assert(list.to_multiset().count(place) > 0);
        assert(out.contains(place));
        let k = choose|k: int| 0 <= k < out.len() && out[k] == place;
        assert(order[k] == i as usize);
    }
}

/// Without a query all settings are shown, in their order; with one those that
/// match it. The headings come in a fixed order.
pub proof fn law_found_settings(items: Seq<ItemView>, query: Seq<char>, i: int)
    requires
        0 <= i < items.len() <= usize::MAX,
    ensures
        query.len() == 0 ==> found_items(items, query).len() == items.len() && found_items(
            items,
            query,
        )[i] == i,
        query.len() > 0 ==> found_items(items, query) == ordered_items(
            items,
            Seq::new(items.len(), |k: int| matched(query, items[k].haystack)),
            query,
        ),
        display_rows(items, query) == rows_in_order(items, found_items(items, query)),
        group_order() == seq!["Browser"@, "GitHub"@, "GitLab"@, "DockerHub"@, "System"@],
{
    assert(item_matches(items, query) =~= Seq::new(
        items.len(),
        |k: int| matched(query, items[k].haystack),
    ));
}

} // verus!
