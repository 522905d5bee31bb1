//! Repositories and images, as the remote services describe them.
use crate::models::{Entry, EntryView};
use crate::sources::cleaned;
use crate::text::{cut, decimal, decimal_of, glue3, has_text, join, joined, number, pieces};
use crate::text::{law_number_of_decimal, lemma_cut_at, lemma_decimal_digits};
use crate::text::{is_digit, lemma_find_from, lemma_first_of_is, lemma_first_of_none};
use crate::text::{lemma_trim_nothing, occurs_at, read_number, split, split_once, texts};
use crate::text::{trim, trimmed, Class};
use vstd::prelude::*;
use vstd::string::*;

verus! {

// ---------------------------------------------------------------------------
// Stars
// ---------------------------------------------------------------------------

/// What separates a description from the number of stars.
pub open spec fn stars_marker() -> Seq<char> {
    "\nWEB_FZF_STARS\t"@
}

/// A description with a number of stars behind it. No stars leave no trace.
pub open spec fn detail_with_stars(description: Seq<char>, stars: u64) -> Seq<char> {
    if stars == 0 {
        description
    } else {
        description + stars_marker() + decimal(stars as nat)
    }
}

pub fn repo_detail_with_stars(description: &str, stars: u64) -> (r: String)
    ensures
        r@ == detail_with_stars(description@, stars),
{
    if stars == 0 {
        description.to_string()
    } else {
        glue3(description, "\nWEB_FZF_STARS\t", decimal_of(stars).as_str())
    }
}

/// The description in a detail, without the stars.
pub open spec fn described(detail: Seq<char>, marker: Seq<char>) -> Seq<char> {
    match split_once(detail, marker) {
        Some((description, _)) => description,
        None => detail,
    }
}

/// The number of stars in a detail.
pub open spec fn stars_of(detail: Seq<char>) -> Option<u64> {
    match split_once(detail, stars_marker()) {
        Some((_, stars)) => match number(trim(stars, Class::Space)) {
            Ok(n) => Some(n as u64),
            Err(_) => None,
        },
        None => None,
    }
}

/// The description of a repository.
pub fn repo_entry_description(entry: &Entry) -> (r: &str)
    ensures
        r@ == described(entry@.detail, stars_marker()),
{
    match cut(entry.detail.as_str(), "\nWEB_FZF_STARS\t") {
        Some((description, _)) => description,
        None => entry.detail.as_str(),
    }
}

/// The number of stars of a repository, where it is known.
pub fn repo_entry_stars(entry: &Entry) -> (r: Option<u64>)
    ensures
        r == stars_of(entry@.detail),
{
    match cut(entry.detail.as_str(), "\nWEB_FZF_STARS\t") {
        Some((_, stars)) => match read_number(trimmed(stars, Class::Space).as_str()) {
            Ok(n) => Some(n),
            Err(_) => None,
        },
        None => None,
    }
}

proof fn lemma_markers()
    ensures
        stars_marker().len() > 0,
        stars_marker()[0] == '\n',
        forall|i: int| 0 < i < stars_marker().len() ==> #[trigger] stars_marker()[i] != '\n',
        tags_marker().len() > 0,
        tags_marker()[0] == '\n',
        forall|i: int| 0 < i < tags_marker().len() ==> #[trigger] tags_marker()[i] != '\n',
{
    reveal_strlit("\nWEB_FZF_STARS\t");
    reveal_strlit("\nWEB_FZF_TAGS\t");
}

/// A description and a number of stars can both be read back from the detail
/// that holds them; no stars are not read back at all.
pub proof fn law_stars_come_back(description: Seq<char>, stars: u64)
    requires
        !has_text(description, stars_marker()),
    ensures
        described(detail_with_stars(description, stars), stars_marker()) == description,
        stars_of(detail_with_stars(description, stars)) == (if stars == 0 {
            None
        } else {
            Some(stars)
        }),
{
    lemma_markers();
    if stars == 0 {
        lemma_find_from(description, stars_marker(), 0);
    } else {
        let digits = decimal(stars as nat);
        lemma_cut_at(description, stars_marker(), digits);
        law_number_of_decimal(stars);
        lemma_decimal_digits(stars as nat);
        assert(is_digit(digits[0]) && is_digit(digits[digits.len() - 1]));
        lemma_trim_nothing(digits, Class::Space);
    }
}

/// A cleaned description never holds a marker.
pub proof fn law_cleaned_holds_no_marker(s: Seq<char>)
    ensures
        !has_text(cleaned(s), stars_marker()),
        !has_text(cleaned(s), tags_marker()),
{
    lemma_markers();
    let text = cleaned(s);
    assert forall|i: int| !occurs_at(text, stars_marker(), i) by {
        if occurs_at(text, stars_marker(), i) {
            assert(text.subrange(i, i + stars_marker().len())[0] == text[i]);
        }
    }
    assert forall|i: int| !occurs_at(text, tags_marker(), i) by {
        if occurs_at(text, tags_marker(), i) {
            assert(text.subrange(i, i + tags_marker().len())[0] == text[i]);
        }
    }
}

// ---------------------------------------------------------------------------
// Tags
// ---------------------------------------------------------------------------

/// What separates the description of an image from its tags.
pub open spec fn tags_marker() -> Seq<char> {
    "\nWEB_FZF_TAGS\t"@
}

/// A description with tags behind it.
pub open spec fn detail_with_tags(description: Seq<char>, tags: Seq<Seq<char>>) -> Seq<char> {
    if tags.len() == 0 {
        description
    } else {
        description + tags_marker() + joined(tags, ","@)
    }
}

pub fn dockerhub_detail_with_tags(description: &str, tags: &Vec<String>) -> (r: String)
    ensures
        r@ == detail_with_tags(description@, texts(tags@)),
{
    if tags.len() == 0 {
        description.to_string()
    } else {
        glue3(description, "\nWEB_FZF_TAGS\t", join(tags, ",").as_str())
    }
}

/// A tag without the white space around it, where anything is left.
pub open spec fn tag_of(piece: Seq<char>) -> Option<Seq<char>> {
    let tag = trim(piece, Class::Space);
    if tag.len() == 0 {
        None
    } else {
        Some(tag)
    }
}

/// The tags in a list that commas separate.
pub open spec fn tags_in(list: Seq<char>) -> Seq<Seq<char>> {
    split(list, Class::Just(',')).filter_map(|piece: Seq<char>| tag_of(piece))
}

/// The tags in a detail.
pub open spec fn tags_of(detail: Seq<char>) -> Seq<Seq<char>> {
    match split_once(detail, tags_marker()) {
        Some((_, tags)) => tags_in(tags),
        None => seq![],
    }
}

/// The description of an image.
pub fn dockerhub_entry_description(entry: &Entry) -> (r: &str)
    ensures
        r@ == described(entry@.detail, tags_marker()),
{
    match cut(entry.detail.as_str(), "\nWEB_FZF_TAGS\t") {
        Some((description, _)) => description,
        None => entry.detail.as_str(),
    }
}

/// The tags of an image.
pub fn dockerhub_entry_tags(entry: &Entry) -> (r: Vec<String>)
    ensures
        texts(r@) == tags_of(entry@.detail),
{
    match cut(entry.detail.as_str(), "\nWEB_FZF_TAGS\t") {
        Some((_, tags)) => read_tags(tags),
        None => {
            let none: Vec<String> = Vec::new();
            assert(texts(none@) =~= seq![]);
            none
        },
    }
}

fn read_tags(list: &str) -> (r: Vec<String>)
    ensures
        texts(r@) == tags_in(list@),
{
    let all = pieces(list, Class::Just(','));
    let ghost parts = split(list@, Class::Just(','));
    let ghost f = |piece: Seq<char>| tag_of(piece);
    let mut tags: Vec<String> = Vec::new();
    let mut i: usize = 0;
    assert(texts(tags@) =~= parts.take(0).filter_map(f));
    while i < all.len()
        invariant
            texts(all@) == parts,
            f == (|piece: Seq<char>| tag_of(piece)),
            i <= all@.len(),
            texts(tags@) == parts.take(i as int).filter_map(f),
        decreases all@.len() - i,
    {
        let ghost before = tags@;
        proof {
            assert(parts[i as int] == all@[i as int]@);
            parts.lemma_filter_map_take_succ(f, i as int);
        }
        let tag = trimmed(all[i].as_str(), Class::Space);
        if !tag.as_str().is_empty() {
            tags.push(tag);
            assert(texts(tags@) =~= texts(before) + seq![tag@]);
        } else {
            assert(texts(tags@) =~= texts(before) + Seq::empty());
        }
        i = i + 1;
    }
    assert(parts.take(parts.len() as int) =~= parts);
    tags
}

/// A text that can stand in a list of tags: not blank, without white space
/// around it, without a comma.
pub open spec fn plain_tag(tag: Seq<char>) -> bool {
    &&& tag.len() > 0
    &&& trim(tag, Class::Space) == tag
    &&& forall|i: int| 0 <= i < tag.len() ==> #[trigger] tag[i] != ','
}

proof fn lemma_joined_front(tags: Seq<Seq<char>>)
    requires
        tags.len() >= 2,
    ensures
        joined(tags, ","@) == tags[0] + ","@ + joined(tags.drop_first(), ","@),
    decreases tags.len(),
{
    reveal_with_fuel(joined, 3);
    let front = tags.drop_last();
    if tags.len() == 2 {
        assert(front =~= seq![tags[0]]);
        assert(tags.drop_first() =~= seq![tags[1]]);
    } else {
        lemma_joined_front(front);
        assert(front.drop_first() =~= tags.drop_first().drop_last());
        assert(joined(tags, ","@) =~= tags[0] + ","@ + joined(tags.drop_first(), ","@));
    }
}

proof fn lemma_split_of_joined(tags: Seq<Seq<char>>)
    requires
        tags.len() > 0,
        forall|k: int| 0 <= k < tags.len() ==> plain_tag(#[trigger] tags[k]),
    ensures
        split(joined(tags, ","@), Class::Just(',')) == tags,
    decreases tags.len(),
{
    reveal_strlit(",");
    let comma = Class::Just(',');
    let first = tags[0];
    let all = joined(tags, ","@);
    assert(plain_tag(first));
    if tags.len() == 1 {
        lemma_first_of_none(all, comma);
        assert(seq![all] =~= tags);
    } else {
        lemma_joined_front(tags);
        let rest = tags.drop_first();
        lemma_split_of_joined(rest);
        let k = first.len() as int;
        assert(all[k] == ',');
        assert forall|j: int| 0 <= j < k implies !comma.has(#[trigger] all[j]) by {
            assert(all[j] == first[j]);
        }
        lemma_first_of_is(all, comma, k);
        assert(all.take(k) =~= first);
        assert(all.skip(k + 1) =~= joined(rest, ","@));
        assert(seq![first] + rest =~= tags);
    }
}

proof fn lemma_tags_stay(tags: Seq<Seq<char>>)
    requires
        forall|k: int| 0 <= k < tags.len() ==> plain_tag(#[trigger] tags[k]),
    ensures
        tags.filter_map(|piece: Seq<char>| tag_of(piece)) == tags,
    decreases tags.len(),
{
    if tags.len() > 0 {
        let front = tags.drop_last();
        lemma_tags_stay(front);
        assert(plain_tag(tags[tags.len() - 1]));
        assert(front + seq![tags.last()] =~= tags);
    } else {
        assert(tags =~= seq![]);
    }
}

/// A description and tags can both be read back from the detail that holds
/// them.
pub proof fn law_tags_come_back(description: Seq<char>, tags: Seq<Seq<char>>)
    requires
        !has_text(description, tags_marker()),
        forall|k: int| 0 <= k < tags.len() ==> plain_tag(#[trigger] tags[k]),
    ensures
        described(detail_with_tags(description, tags), tags_marker()) == description,
        tags_of(detail_with_tags(description, tags)) == tags,
{
    lemma_markers();
    if tags.len() == 0 {
        lemma_find_from(description, tags_marker(), 0);
        assert(tags =~= seq![]);
    } else {
        lemma_cut_at(description, tags_marker(), joined(tags, ","@));
        lemma_split_of_joined(tags);
        lemma_tags_stay(tags);
    }
}

/// The image with the given tags in place of those it had.
pub open spec fn tagged(entry: EntryView, tags: Seq<Seq<char>>) -> EntryView {
    EntryView { detail: detail_with_tags(described(entry.detail, tags_marker()), tags), ..entry }
}

/// The image with the given tags in place of those it had.
pub fn with_dockerhub_tags(entry: Entry, tags: &Vec<String>) -> (r: Entry)
    ensures
        r@ == tagged(entry@, texts(tags@)),
        r@ == (EntryView {
            detail: detail_with_tags(described(entry@.detail, tags_marker()), texts(tags@)),
            ..entry@
        }),
{
    let detail = dockerhub_detail_with_tags(dockerhub_entry_description(&entry), tags);
    let mut out = entry;
    out.detail = detail;
    out
}

/// The tags of an image stand behind its description and a mark of their own,
/// with commas between them; so do the stars of a repository, with another.
pub proof fn law_marks(description: Seq<char>, tags: Seq<Seq<char>>, stars: u64)
    ensures
        tags.len() > 0 ==> detail_with_tags(description, tags) == description
            + "\nWEB_FZF_TAGS\t"@ + joined(tags, ","@),
        tags.len() == 0 ==> detail_with_tags(description, tags) == description,
        stars > 0 ==> detail_with_stars(description, stars) == description
            + "\nWEB_FZF_STARS\t"@ + decimal(stars as nat),
        stars == 0 ==> detail_with_stars(description, stars) == description,
{
}

/// An image that is given tags has these and no others, and is otherwise the
/// image that it was, whatever tags it had before.
pub proof fn law_tagged(
    entry: EntryView,
    description: Seq<char>,
    old_tags: Seq<Seq<char>>,
    tags: Seq<Seq<char>>,
)
    requires
        entry.detail == detail_with_tags(description, old_tags),
        !has_text(description, tags_marker()),
        forall|k: int| 0 <= k < old_tags.len() ==> plain_tag(#[trigger] old_tags[k]),
        forall|k: int| 0 <= k < tags.len() ==> plain_tag(#[trigger] tags[k]),
    ensures
        tags_of(tagged(entry, tags).detail) == tags,
        described(tagged(entry, tags).detail, tags_marker()) == description,
        tagged(entry, tags).title == entry.title,
        tagged(entry, tags).url == entry.url,
        tagged(entry, tags).source == entry.source,
{
    law_tags_come_back(description, old_tags);
    law_tags_come_back(description, tags);
}

} // verus!
