//! The order in which matching entries are shown.
use crate::matchers::{matchable, matched, FuzzyMatcher, Match};
use crate::models::{views, Entry, EntryView};
use crate::tabs::Tab;
use crate::text::{same, texts};
use vstd::prelude::*;
use vstd::relations::{sorted_by, total_ordering};
use vstd::seq_lib::{lemma_multiset_commutative, lemma_sorted_unique};
use vstd::string::*;

verus! {

// ---------------------------------------------------------------------------
// Sorting
// ---------------------------------------------------------------------------

/// Whether one scored place comes before another: a higher score first, and of
/// equal scores the smaller place.
pub open spec fn before(a: (i64, usize), b: (i64, usize)) -> bool {
    a.0 > b.0 || (a.0 == b.0 && a.1 <= b.1)
}

/// The order of `before`.
pub open spec fn ranking() -> spec_fn((i64, usize), (i64, usize)) -> bool {
    |a: (i64, usize), b: (i64, usize)| before(a, b)
}

/// Scored places in the order of `before`.
pub open spec fn ranked(list: Seq<(i64, usize)>) -> Seq<(i64, usize)> {
    list.sort_by(ranking())
}

proof fn lemma_ranking_is_total()
    ensures
        total_ordering(ranking()),
{
}

/// Sorting keeps every scored place and puts the better before the worse.
pub proof fn law_ranked(list: Seq<(i64, usize)>)
    ensures
        ranked(list).to_multiset() == list.to_multiset(),
        ranked(list).len() == list.len(),
        forall|i: int, j: int|
            0 <= i < j < ranked(list).len() ==> before(
                #[trigger] ranked(list)[i],
                #[trigger] ranked(list)[j],
            ),
{
    lemma_ranking_is_total();
    list.lemma_sort_by_ensures(ranking());
    let out = ranked(list);
    broadcast use vstd::seq_lib::group_to_multiset_ensures;

    assert(out.to_multiset() == list.to_multiset());
    assert(out.to_multiset().len() == out.len());
    assert(list.to_multiset().len() == list.len());
    assert forall|i: int, j: int| 0 <= i < j < out.len() implies before(
        #[trigger] out[i],
        #[trigger] out[j],
    ) by {
        assert(ranking()(out[i], out[j]));
    }
}

fn comes_before(a: (i64, usize), b: (i64, usize)) -> (r: bool)
    ensures
        r == before(a, b),
{
    a.0 > b.0 || (a.0 == b.0 && a.1 <= b.1)
}

fn merge(a: &Vec<(i64, usize)>, b: &Vec<(i64, usize)>) -> (out: Vec<(i64, usize)>)
    requires
        sorted_by(a@, ranking()),
        sorted_by(b@, ranking()),
    ensures
        sorted_by(out@, ranking()),
        out@.to_multiset() == a@.to_multiset().add(b@.to_multiset()),
{
    let mut out: Vec<(i64, usize)> = Vec::new();
    let mut i: usize = 0;
    let mut j: usize = 0;
    let ghost leq = ranking();
    proof {
        assert(a@.take(0) =~= Seq::<(i64, usize)>::empty());
        assert(b@.take(0) =~= Seq::<(i64, usize)>::empty());
        assert(out@ =~= a@.take(0) + b@.take(0));
        lemma_multiset_commutative(a@.take(0), b@.take(0));
    }
    while i < a.len() || j < b.len()
        invariant
            leq == ranking(),
            i <= a@.len(),
            j <= b@.len(),
            sorted_by(a@, leq),
            sorted_by(b@, leq),
            sorted_by(out@, leq),
            out@.to_multiset() == a@.take(i as int).to_multiset().add(
                b@.take(j as int).to_multiset(),
            ),
            forall|k: int, p: int|
                0 <= k < out@.len() && i <= p < a@.len() ==> #[trigger] leq(out@[k], a@[p]),
            forall|k: int, p: int|
                0 <= k < out@.len() && j <= p < b@.len() ==> #[trigger] leq(out@[k], b@[p]),
        decreases a@.len() - i + b@.len() - j,
    {
        let from_a = if i == a.len() {
            false
        } else if j == b.len() {
            true
        } else {
            comes_before(a[i], b[j])
        };
        let ghost old_out = out@;
        if from_a {
            let ghost next = a@[i as int];
            proof {
                vstd::seq_lib::to_multiset_build(old_out, next);
                vstd::seq_lib::to_multiset_build(a@.take(i as int), next);
                assert(a@.take(i + 1) =~= a@.take(i as int).push(next));
                assert forall|p: int| i + 1 <= p < a@.len() implies #[trigger] leq(
                    next,
                    a@[p],
                ) by {
                    assert(leq(a@[i as int], a@[p]));
                }
                assert forall|p: int| j <= p < b@.len() implies #[trigger] leq(next, b@[p]) by {
                    assert(leq(next, b@[j as int]));
                    if p > j {
                        assert(leq(b@[j as int], b@[p]));
                    }
                }
            }
            out.push(a[i]);
            i = i + 1;
            proof {
                assert(out@.to_multiset() =~= a@.take(i as int).to_multiset().add(
                    b@.take(j as int).to_multiset(),
                ));
            }
        } else {
            let ghost next = b@[j as int];
            proof {
                vstd::seq_lib::to_multiset_build(old_out, next);
                vstd::seq_lib::to_multiset_build(b@.take(j as int), next);
                assert(b@.take(j + 1) =~= b@.take(j as int).push(next));
                assert forall|p: int| j + 1 <= p < b@.len() implies #[trigger] leq(
                    next,
                    b@[p],
                ) by {
                    assert(leq(b@[j as int], b@[p]));
                }
                assert forall|p: int| i <= p < a@.len() implies #[trigger] leq(next, a@[p]) by {
                    assert(leq(next, a@[i as int]));
                    if p > i {
                        assert(leq(a@[i as int], a@[p]));
                    }
                }
            }
            out.push(b[j]);
            j = j + 1;
            proof {
                assert(out@.to_multiset() =~= a@.take(i as int).to_multiset().add(
                    b@.take(j as int).to_multiset(),
                ));
            }
        }
    }
    assert(a@.take(i as int) =~= a@);
    assert(b@.take(j as int) =~= b@);
    out
}

fn sort_range(list: &Vec<(i64, usize)>, lo: usize, hi: usize) -> (out: Vec<(i64, usize)>)
    requires
        lo <= hi <= list@.len(),
    ensures
        sorted_by(out@, ranking()),
        out@.to_multiset() == list@.subrange(lo as int, hi as int).to_multiset(),
    decreases hi - lo,
{
    if hi - lo <= 1 {
        let mut out: Vec<(i64, usize)> = Vec::new();
        if lo < hi {
            out.push(list[lo]);
        }
        assert(out@ =~= list@.subrange(lo as int, hi as int));
        return out;
    }
    let mid: usize = lo + (hi - lo) / 2;
    let left = sort_range(list, lo, mid);
    let right = sort_range(list, mid, hi);
    proof {
        let x = list@.subrange(lo as int, mid as int);
        let y = list@.subrange(mid as int, hi as int);
        assert(x + y =~= list@.subrange(lo as int, hi as int));
        lemma_multiset_commutative(x, y);
    }
    merge(&left, &right)
}

/// Sorts scored places.
pub fn sort_ranked(list: &Vec<(i64, usize)>) -> (out: Vec<(i64, usize)>)
    ensures
        out@ == ranked(list@),
{
    let out = sort_range(list, 0, list.len());
    proof {
        assert(list@.subrange(0, list@.len() as int) =~= list@);
        lemma_ranking_is_total();
        list@.lemma_sort_by_ensures(ranking());
        lemma_sorted_unique(out@, ranked(list@), ranking());
    }
    out
}

// ---------------------------------------------------------------------------
// Entries
// ---------------------------------------------------------------------------

/// The points that a source is worth.
pub open spec fn boost(source: Seq<char>) -> i64 {
    if source == "github"@ || source == "gitlab"@ {
        20
    } else if source == "bookmark"@ {
        10
    } else {
        0
    }
}

fn source_boost(source: &str) -> (r: i64)
    ensures
        r == boost(source@),
{
    if same(source, "github") || same(source, "gitlab") {
        20
    } else if same(source, "bookmark") {
        10
    } else {
        0
    }
}

/// The scored place of an entry that matched.
pub open spec fn scored_place(
    entries: Seq<EntryView>,
    matches: Seq<Option<Match>>,
    i: int,
) -> Option<(i64, usize)> {
    match matches[i] {
        Some(m) => Some(((m.score + boost(entries[i].source)) as i64, i as usize)),
        None => None,
    }
}

/// The scored places of the entries that matched, in order.
pub open spec fn scored_places(entries: Seq<EntryView>, matches: Seq<Option<Match>>) -> Seq<
    (i64, usize),
> {
    Seq::new(entries.len(), |i: int| i).filter_map(|i: int| scored_place(entries, matches, i))
}

/// Scores of the size that the matcher gives.
pub open spec fn plain_scores(matches: Seq<Option<Match>>) -> bool {
    forall|i: int|
        0 <= i < matches.len() ==> (#[trigger] matches[i] matches Some(m) ==> 0 <= m.score
            <= u32::MAX)
}

/// Puts the entries that matched into order.
pub fn rank_matches(entries: &Vec<Entry>, matches: &Vec<Option<Match>>) -> (r: Vec<(i64, usize)>)
    requires
        entries@.len() == matches@.len(),
        plain_scores(matches@),
    ensures
        r@ == ranked(scored_places(views(entries@), matches@)),
{
    let ghost all = views(entries@);
    let ghost places = Seq::new(all.len(), |i: int| i);
    let ghost f = |i: int| scored_place(all, matches@, i);
    let mut list: Vec<(i64, usize)> = Vec::new();
    let mut i: usize = 0;
    assert(list@ =~= places.take(0).filter_map(f));
    while i < entries.len()
        invariant
            all == views(entries@),
            places == Seq::new(all.len(), |i: int| i),
            f == (|i: int| scored_place(all, matches@, i)),
            entries@.len() == matches@.len(),
            plain_scores(matches@),
            i <= entries@.len(),
            list@ == places.take(i as int).filter_map(f),
        decreases entries@.len() - i,
    {
        let ghost before = list@;
        proof {
            places.lemma_filter_map_take_succ(f, i as int);
            assert(places[i as int] == i);
            assert(all[i as int] == entries@[i as int]@);
        }
        match matches[i] {
            Some(m) => {
                assert(matches@[i as int] == Some(m));
                let place = (m.score + source_boost(entries[i].source.as_str()), i);
                list.push(place);
                assert(list@ =~= before + seq![place]);
            },
            None => {
                assert(list@ =~= before + Seq::empty());
            },
        }
        i = i + 1;
    }
    assert(places.take(places.len() as int) =~= places);
    sort_ranked(&list)
}

/// Whether a tab shows a source; no tab stands for all entries.
pub open spec fn in_scope(tab: Option<Tab>, source: Seq<char>) -> bool {
    match tab {
        Some(tab) => tab.shows(source),
        None => true,
    }
}

/// The matches of the entries that a tab shows.
pub open spec fn entry_matches(
    entries: Seq<EntryView>,
    haystacks: Seq<Seq<char>>,
    query: Seq<char>,
    tab: Option<Tab>,
) -> Seq<Option<Match>> {
    Seq::new(
        entries.len(),
        |i: int|
            if in_scope(tab, entries[i].source) {
                matched(query, haystacks[i])
            } else {
                None
            },
    )
}

/// The entries that match a query, in order.
pub open spec fn ranked_entries(
    entries: Seq<EntryView>,
    haystacks: Seq<Seq<char>>,
    query: Seq<char>,
    tab: Option<Tab>,
) -> Seq<(i64, usize)> {
    ranked(scored_places(entries, entry_matches(entries, haystacks, query, tab)))
}

/// The matches of the entries that a tab shows where nothing is searched for:
/// all of them match, with no points.
pub open spec fn all_match(entries: Seq<EntryView>, tab: Option<Tab>) -> Seq<Option<Match>> {
    Seq::new(
        entries.len(),
        |i: int|
            if in_scope(tab, entries[i].source) {
                Some(Match { score: 0 })
            } else {
                None
            },
    )
}

/// Whether the matcher can take a query and all texts.
pub open spec fn searchable(haystacks: Seq<Seq<char>>, query: Seq<char>) -> bool {
    forall|i: int| 0 <= i < haystacks.len() ==> matchable(query, #[trigger] haystacks[i])
}

/// Whether the matcher can take a query and the texts of the entries that a tab
/// shows.
pub open spec fn scope_searchable(
    entries: Seq<EntryView>,
    haystacks: Seq<Seq<char>>,
    query: Seq<char>,
    tab: Option<Tab>,
) -> bool {
    forall|i: int|
        0 <= i < haystacks.len() && in_scope(tab, entries[i].source) ==> matchable(
            query,
            #[trigger] haystacks[i],
        )
}

fn rank_scope(entries: &Vec<Entry>, haystacks: &Vec<String>, query: &str, tab: Option<Tab>) -> (r:
    Vec<(i64, usize)>)
    requires
        entries@.len() == haystacks@.len(),
        scope_searchable(views(entries@), texts(haystacks@), query@, tab),
    ensures
        r@ == ranked_entries(views(entries@), texts(haystacks@), query@, tab),
        query@.len() == 0 ==> r@ == ranked(
            scored_places(views(entries@), all_match(views(entries@), tab)),
        ),
{
    let ghost all = views(entries@);
    let ghost stacks = texts(haystacks@);
    let ghost goal = entry_matches(all, stacks, query@, tab);
    let mut matcher = FuzzyMatcher::new(query);
    let mut matches: Vec<Option<Match>> = Vec::new();
    let mut i: usize = 0;
    while i < entries.len()
        invariant
            all == views(entries@),
            stacks == texts(haystacks@),
            goal == entry_matches(all, stacks, query@, tab),
            entries@.len() == haystacks@.len(),
            scope_searchable(all, stacks, query@, tab),
            matcher.query() == query@,
            i <= entries@.len(),
            matches@ == goal.take(i as int),
            query@.len() == 0 ==> matches@ == all_match(all, tab).take(i as int),
            plain_scores(matches@),
        decreases entries@.len() - i,
    {
        let ghost before = matches@;
        assert(all[i as int] == entries@[i as int]@);
        assert(stacks[i as int] == haystacks@[i as int]@);
        let shown = match tab {
            Some(tab) => tab.matches(&entries[i]),
            None => true,
        };
        let found = if shown {
            matcher.score(haystacks[i].as_str())
        } else {
            None
        };
        matches.push(found);
        assert(matches@ =~= goal.take(i + 1));
        proof {
            if query@.len() == 0 {
                assert(matches@ =~= all_match(all, tab).take(i + 1));
            }
        }
        i = i + 1;
    }
    assert(goal.take(goal.len() as int) =~= goal);
    assert(all_match(all, tab).take(all.len() as int) =~= all_match(all, tab));
    rank_matches(entries, &matches)
}

/// The entries of a tab that match a query, in order.
pub fn rank_entries(entries: &Vec<Entry>, haystacks: &Vec<String>, query: &str, tab: Tab) -> (r:
    Vec<(i64, usize)>)
    requires
        entries@.len() == haystacks@.len(),
        scope_searchable(views(entries@), texts(haystacks@), query@, Some(tab)),
    ensures
        r@ == ranked_entries(views(entries@), texts(haystacks@), query@, Some(tab)),
        query@.len() == 0 ==> r@ == ranked(
            scored_places(views(entries@), all_match(views(entries@), Some(tab))),
        ),
{
    rank_scope(entries, haystacks, query, Some(tab))
}

/// All entries that match a query, in order.
pub fn rank_entries_all_with_haystacks(
    entries: &Vec<Entry>,
    haystacks: &Vec<String>,
    query: &str,
) -> (r: Vec<(i64, usize)>)
    requires
        entries@.len() == haystacks@.len(),
        searchable(texts(haystacks@), query@),
    ensures
        r@ == ranked_entries(views(entries@), texts(haystacks@), query@, None),
        query@.len() == 0 ==> r@ == ranked(
            scored_places(views(entries@), all_match(views(entries@), None)),
        ),
{
    rank_scope(entries, haystacks, query, None)
}

/// The texts that queries are matched against, one for each entry.
pub open spec fn stacked(entries: Seq<EntryView>) -> Seq<Seq<char>> {
    entries.map_values(|e: EntryView| e.haystack())
}

pub fn entry_haystacks(entries: &Vec<Entry>) -> (r: Vec<String>)
    ensures
        texts(r@) == stacked(views(entries@)),
        r@.len() == entries@.len(),
{
    let mut out: Vec<String> = Vec::new();
    let mut i: usize = 0;
    while i < entries.len()
        invariant
            i <= entries@.len(),
            out@.len() == i,
            texts(out@) == stacked(views(entries@)).take(i as int),
        decreases entries@.len() - i,
    {
        out.push(entries[i].haystack());
        assert(texts(out@) =~= stacked(views(entries@)).take(i + 1));
        i = i + 1;
    }
    assert(texts(out@) =~= stacked(views(entries@)));
    out
}

pub fn rank_entries_all(entries: &Vec<Entry>, query: &str) -> (r: Vec<(i64, usize)>)
    requires
        searchable(stacked(views(entries@)), query@),
    ensures
        r@ == ranked_entries(views(entries@), stacked(views(entries@)), query@, None),
        query@.len() == 0 ==> r@ == ranked(
            scored_places(views(entries@), all_match(views(entries@), None)),
        ),
{
    let haystacks = entry_haystacks(entries);
    rank_entries_all_with_haystacks(entries, &haystacks, query)
}

/// A scored place is that of an entry that matched.
proof fn lemma_scored_places(entries: Seq<EntryView>, matches: Seq<Option<Match>>)
    requires
        entries.len() == matches.len(),
        entries.len() <= usize::MAX,
    ensures
        forall|k: int|
            0 <= k < scored_places(entries, matches).len() ==> {
                let place = #[trigger] scored_places(entries, matches)[k];
                &&& place.1 < entries.len()
                &&& scored_place(entries, matches, place.1 as int) == Some(place)
            },
{
    let f = |i: int| scored_place(entries, matches, i);
    let places = Seq::new(entries.len(), |i: int| i);
    let out = places.filter_map(f);
    assert forall|k: int| 0 <= k < out.len() implies ({
        let place = #[trigger] out[k];
        &&& place.1 < entries.len()
        &&& scored_place(entries, matches, place.1 as int) == Some(place)
    }) by {
        assert(out.contains(out[k]));
        places.lemma_filter_map_contains(f, out[k]);
        let i = choose|i: int| places.contains(i) && #[trigger] f(i) == Some(out[k]);
        let j = choose|j: int| 0 <= j < places.len() && places[j] == i;
        assert(i == j);
    }
}

proof fn lemma_scored_places_rise(entries: Seq<EntryView>, matches: Seq<Option<Match>>, n: int)
    requires
        0 <= n <= entries.len() <= usize::MAX,
    ensures
        ({
            let out = Seq::new(entries.len(), |i: int| i).take(n).filter_map(
                |i: int| scored_place(entries, matches, i),
            );
            &&& forall|k: int| 0 <= k < out.len() ==> (#[trigger] out[k]).1 < n
            &&& forall|i: int, j: int|
                0 <= i < j < out.len() ==> (#[trigger] out[i]).1 < (#[trigger] out[j]).1
        }),
    decreases n,
{
    let f = |i: int| scored_place(entries, matches, i);
    let places = Seq::new(entries.len(), |i: int| i);
    if n == 0 {
        assert(places.take(0).filter_map(f) =~= seq![]);
    } else {
        lemma_scored_places_rise(entries, matches, n - 1);
        places.lemma_filter_map_take_succ(f, n - 1);
        assert(places[n - 1] == n - 1);
    }
}

/// What is ranked are exactly the entries that matched, each once and with its
/// score, the better before the worse.
pub proof fn law_ranked_entries(
    entries: Seq<EntryView>,
    haystacks: Seq<Seq<char>>,
    query: Seq<char>,
    tab: Option<Tab>,
)
    requires
        entries.len() <= usize::MAX,
    ensures
        forall|k: int|
            0 <= k < ranked_entries(entries, haystacks, query, tab).len() ==> {
                let (score, place) = #[trigger] ranked_entries(entries, haystacks, query, tab)[k];
                &&& place < entries.len()
                &&& in_scope(tab, entries[place as int].source)
                &&& matched(query, haystacks[place as int]) is Some
                &&& score == matched(query, haystacks[place as int])->0.score + boost(
                    entries[place as int].source,
                )
            },
        forall|i: int, j: int|
            0 <= i < j < ranked_entries(entries, haystacks, query, tab).len() ==> before(
                #[trigger] ranked_entries(entries, haystacks, query, tab)[i],
                #[trigger] ranked_entries(entries, haystacks, query, tab)[j],
            ),
        forall|i: int, j: int|
            0 <= i < j < ranked_entries(entries, haystacks, query, tab).len() ==> (
            #[trigger] ranked_entries(entries, haystacks, query, tab)[i]).1 != (
            #[trigger] ranked_entries(entries, haystacks, query, tab)[j]).1,
        forall|i: int|
            0 <= i < entries.len() && in_scope(tab, entries[i].source) && matched(
                query,
                #[trigger] haystacks[i],
            ) is Some ==> exists|k: int|
                0 <= k < ranked_entries(entries, haystacks, query, tab).len()
                    && #[trigger] ranked_entries(entries, haystacks, query, tab)[k].1 == i,
{
    let matches = entry_matches(entries, haystacks, query, tab);
    let list = scored_places(entries, matches);
    let out = ranked_entries(entries, haystacks, query, tab);
    law_ranked(list);
    lemma_scored_places(entries, matches);
    broadcast use vstd::seq_lib::group_to_multiset_ensures;

    assert forall|k: int| 0 <= k < out.len() implies ({
        let (score, place) = #[trigger] out[k];
        &&& place < entries.len()
        &&& in_scope(tab, entries[place as int].source)
        &&& matched(query, haystacks[place as int]) is Some
        &&& score == matched(query, haystacks[place as int])->0.score + boost(
            entries[place as int].source,
        )
    }) by {
        assert(out.contains(out[k]));
        assert(out.to_multiset().count(out[k]) > 0);
        assert(list.contains(out[k]));
        let m = choose|m: int| 0 <= m < list.len() && list[m] == out[k];
        assert(scored_place(entries, matches, list[m].1 as int) == Some(list[m]));
    }
    lemma_scored_places_rise(entries, matches, entries.len() as int);
    assert(Seq::new(entries.len(), |i: int| i).take(entries.len() as int) =~= Seq::new(
        entries.len(),
        |i: int| i,
    ));
    assert(list.no_duplicates());
    list.lemma_multiset_has_no_duplicates();
    out.lemma_multiset_has_no_duplicates_conv();
    assert forall|i: int, j: int| 0 <= i < j < out.len() implies (#[trigger] out[i]).1 != (
    #[trigger] out[j]).1 by {
        assert(out[i].0 == out[j].0 || out[i].1 != out[j].1);
        assert(out[i] != out[j]);
    }
    assert forall|i: int|
        0 <= i < entries.len() && in_scope(tab, entries[i].source) && matched(
            query,
            #[trigger] haystacks[i],
        ) is Some implies exists|k: int| 0 <= k < out.len() && #[trigger] out[k].1 == i by {
        let f = |i: int| scored_place(entries, matches, i);
        let places = Seq::new(entries.len(), |i: int| i);
        let place = scored_place(entries, matches, i)->0;
        lemma_filter_map_keeps(places, f, i);
        assert(list.contains(place));
        assert(list.to_multiset().count(place) > 0);
        assert(out.contains(place));
        let k = choose|k: int| 0 <= k < out.len() && out[k] == place;
        assert(out[k].1 == i);
    }
}

/// What a sequence is mapped to holds the image of each of its elements.
pub proof fn lemma_filter_map_keeps<A, B>(s: Seq<A>, f: spec_fn(A) -> Option<B>, i: int)
    requires
        0 <= i < s.len(),
        f(s[i]) is Some,
    ensures
        s.filter_map(f).contains(f(s[i])->0),
    decreases s.len(),
{
    let front = s.drop_last();
    let out = s.filter_map(f);
    if i == s.len() - 1 {
        assert(out[out.len() - 1] == f(s[i])->0);
    } else {
        lemma_filter_map_keeps(front, f, i);
        let k = choose|k: int| 0 <= k < front.filter_map(f).len() && front.filter_map(f)[k] == f(
            s[i],
        )->0;
        assert(out[k] == f(s[i])->0);
    }
}

/// The score of an entry for a query, if it matches.
pub open spec fn entry_score(entries: Seq<EntryView>, query: Seq<char>, i: int) -> Option<int> {
    match matched(query, entries[i].haystack()) {
        Some(m) => Some(m.score + boost(entries[i].source)),
        None => None,
    }
}

/// Whether the entry at a place matches, none matches better, and all that
/// stand before it match worse.
pub open spec fn is_best(entries: Seq<EntryView>, query: Seq<char>, k: int) -> bool {
    &&& 0 <= k < entries.len()
    &&& entry_score(entries, query, k) is Some
    &&& forall|i: int|
        0 <= i < entries.len() && (#[trigger] entry_score(entries, query, i)) is Some
            ==> entry_score(entries, query, i)->0 <= entry_score(entries, query, k)->0
    &&& forall|i: int|
        0 <= i < k && (#[trigger] entry_score(entries, query, i)) is Some ==> entry_score(
            entries,
            query,
            i,
        )->0 < entry_score(entries, query, k)->0
}

/// The first of the ranked entries is the best, and there is none exactly if no
/// entry matches.
pub proof fn law_first_is_best(entries: Seq<EntryView>, query: Seq<char>)
    requires
        entries.len() <= usize::MAX,
    ensures
        ({
            let list = ranked_entries(entries, stacked(entries), query, None);
            &&& list.len() > 0 ==> is_best(entries, query, list[0].1 as int)
            &&& list.len() == 0 <==> forall|i: int|
                0 <= i < entries.len() ==> (#[trigger] entry_score(entries, query, i)) is None
        }),
{
    let stacks = stacked(entries);
    let list = ranked_entries(entries, stacks, query, None);
    law_ranked_entries(entries, stacks, query, None);
    assert forall|i: int|
        0 <= i < entries.len() && (#[trigger] entry_score(entries, query, i)) is Some implies exists|
        k: int,
    |
        0 <= k < list.len() && (#[trigger] list[k]).1 == i && list[k].0 == entry_score(
            entries,
            query,
            i,
        )->0 by {
        assert(stacks[i] == entries[i].haystack());
        let k = choose|k: int| 0 <= k < list.len() && #[trigger] list[k].1 == i;
        assert(list[k].1 == i);
    }
    if list.len() > 0 {
        let first = list[0].1 as int;
        assert(stacks[first] == entries[first].haystack());
        assert forall|i: int|
            0 <= i < entries.len() && (#[trigger] entry_score(entries, query, i)) is Some implies (
        entry_score(entries, query, i)->0 <= entry_score(entries, query, first)->0 && (i < first
            ==> entry_score(entries, query, i)->0 < entry_score(entries, query, first)->0)) by {
            let k = choose|k: int|
                0 <= k < list.len() && (#[trigger] list[k]).1 == i && list[k].0 == entry_score(
                    entries,
                    query,
                    i,
                )->0;
            if k > 0 {
                assert(before(list[0], list[k]));
            }
        }
        assert(entry_score(entries, query, first) is Some);
    }
}

/// The entry that matches a query best; of equal ones the first.
pub fn best_entry<'a>(entries: &'a Vec<Entry>, query: &str) -> (r: Option<&'a Entry>)
    requires
        searchable(stacked(views(entries@)), query@),
    ensures
        match r {
            Some(entry) => exists|k: int|
                #[trigger] is_best(views(entries@), query@, k) && *entry == entries@[k],
            None => forall|i: int|
                0 <= i < entries@.len() ==> (#[trigger] entry_score(
                    views(entries@),
                    query@,
                    i,
                )) is None,
        },
{
    let list = rank_entries_all(entries, query);
    let n: usize = entries.len();
    proof {
        law_first_is_best(views(entries@), query@);
    }
    if list.len() == 0 {
        return None;
    }
    assert(is_best(views(entries@), query@, list@[0].1 as int));
    Some(&entries[list[0].1])
}

/// The points of an entry: those of its match, and twenty more for a
/// repository, ten more for a bookmark.
pub open spec fn total_points(entry: EntryView, m: Match) -> int {
    m.score + (if entry.source == "github"@ || entry.source == "gitlab"@ {
        20int
    } else if entry.source == "bookmark"@ {
        10
    } else {
        0
    })
}

/// Ranked are all entries that matched and no others, each once. The more
/// points an entry has, the earlier it comes, and of equal ones the one that
/// stood first.
pub proof fn law_matches_are_ranked(entries: Seq<EntryView>, matches: Seq<Option<Match>>)
    requires
        entries.len() == matches.len(),
        entries.len() <= usize::MAX,
        plain_scores(matches),
    ensures
        ({
            let list = ranked(scored_places(entries, matches));
            &&& forall|k: int|
                0 <= k < list.len() ==> {
                    let (score, place) = #[trigger] list[k];
                    &&& place < entries.len()
                    &&& matches[place as int] is Some
                    &&& score == total_points(entries[place as int], matches[place as int]->0)
                }
            &&& forall|i: int, j: int|
                0 <= i < j < list.len() ==> {
                    let a = #[trigger] list[i];
                    let b = #[trigger] list[j];
                    a.0 > b.0 || (a.0 == b.0 && a.1 < b.1)
                }
            &&& forall|i: int|
                0 <= i < entries.len() && (#[trigger] matches[i]) is Some ==> exists|k: int|
                    0 <= k < list.len() && (#[trigger] list[k]).1 == i
        }),
{
    let list = scored_places(entries, matches);
    let out = ranked(list);
    law_ranked(list);
    lemma_scored_places(entries, matches);
    broadcast use vstd::seq_lib::group_to_multiset_ensures;

    assert forall|k: int| 0 <= k < out.len() implies ({
        let (score, place) = #[trigger] out[k];
        &&& place < entries.len()
        &&& matches[place as int] is Some
        &&& score == total_points(entries[place as int], matches[place as int]->0)
    }) by {
        assert(out.contains(out[k]));
        assert(out.to_multiset().count(out[k]) > 0);
        assert(list.contains(out[k]));
        let m = choose|m: int| 0 <= m < list.len() && list[m] == out[k];
        assert(scored_place(entries, matches, list[m].1 as int) == Some(list[m]));
        assert(matches[list[m].1 as int] is Some);
    }
    lemma_scored_places_rise(entries, matches, entries.len() as int);
    assert(Seq::new(entries.len(), |i: int| i).take(entries.len() as int) =~= Seq::new(
        entries.len(),
        |i: int| i,
    ));
    assert(list.no_duplicates());
    list.lemma_multiset_has_no_duplicates();
    out.lemma_multiset_has_no_duplicates_conv();
    assert forall|i: int, j: int| 0 <= i < j < out.len() implies ({
        let a = #[trigger] out[i];
        let b = #[trigger] out[j];
        a.0 > b.0 || (a.0 == b.0 && a.1 < b.1)
    }) by {
        assert(before(out[i], out[j]));
        assert(out[i] != out[j]);
    }
    assert forall|i: int|
        0 <= i < entries.len() && (#[trigger] matches[i]) is Some implies exists|k: int|
        0 <= k < out.len() && (#[trigger] out[k]).1 == i by {
        let f = |i: int| scored_place(entries, matches, i);
        let places = Seq::new(entries.len(), |i: int| i);
        let place = scored_place(entries, matches, i)->0;
        lemma_filter_map_keeps(places, f, i);
        assert(list.contains(place));
        assert(list.to_multiset().count(place) > 0);
        assert(out.contains(place));
        let k = choose|k: int| 0 <= k < out.len() && out[k] == place;
        assert(out[k].1 == i);
    }
}

/// An entry is searched for a tab where the tab shows it, and its match is that
/// of its own text; without a tab all entries are.
pub proof fn law_searched_entries(
    entries: Seq<EntryView>,
    haystacks: Seq<Seq<char>>,
    query: Seq<char>,
    tab: Tab,
    i: int,
)
    requires
        0 <= i < entries.len(),
    ensures
        entry_matches(entries, haystacks, query, Some(tab))[i] == (if tab.shows(
            entries[i].source,
        ) {
            matched(query, haystacks[i])
        } else {
            None
        }),
        entry_matches(entries, haystacks, query, None)[i] == matched(query, haystacks[i]),
        all_match(entries, Some(tab))[i] is Some <==> tab.shows(entries[i].source),
        all_match(entries, None)[i] is Some,
        all_match(entries, Some(tab))[i] is Some ==> all_match(entries, Some(tab))[i]->0.score == 0,
        ranked_entries(entries, haystacks, query, Some(tab)) == ranked(
            scored_places(entries, entry_matches(entries, haystacks, query, Some(tab))),
        ),
        stacked(entries)[i] == entries[i].haystack(),
{
}

} // verus!
