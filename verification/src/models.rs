//! The entries that are searched.
use crate::text::{lemma_trim_twice, trim, trimmed, Class};
use vstd::prelude::*;
use vstd::string::*;

verus! {

/// Something that can be found and opened.
#[derive(Debug, PartialEq, Eq)]
pub struct Entry {
    pub title: String,
    pub url: String,
    pub source: String,
    pub detail: String,
}

/// What an entry holds.
#[verifier::ext_equal]
pub struct EntryView {
    pub title: Seq<char>,
    pub url: Seq<char>,
    pub source: Seq<char>,
    pub detail: Seq<char>,
}

impl View for Entry {
    type V = EntryView;

    open spec fn view(&self) -> EntryView {
        EntryView {
            title: self.title@,
            url: self.url@,
            source: self.source@,
            detail: self.detail@,
        }
    }
}

impl Clone for Entry {
    fn clone(&self) -> (r: Self)
        ensures
            r == *self,
    {
        Entry {
            title: self.title.clone(),
            url: self.url.clone(),
            source: self.source.clone(),
            detail: self.detail.clone(),
        }
    }
}

/// A title without the white space and formatting characters around it.
pub open spec fn plain_title(title: Seq<char>) -> Seq<char> {
    trim(title, Class::TitlePadding)
}

/// The entry that is made from four texts.
pub open spec fn entry_of(
    title: Seq<char>,
    url: Seq<char>,
    source: Seq<char>,
    detail: Seq<char>,
) -> EntryView {
    EntryView { title: plain_title(title), url, source, detail }
}

impl EntryView {
    /// The text that a query is matched against.
    pub open spec fn haystack(self) -> Seq<char> {
        self.title + " "@ + self.url + " "@ + self.source + " "@ + self.detail
    }

    /// Two entries with the same key are the same result.
    pub open spec fn key(self) -> (Seq<char>, Seq<char>, Seq<char>) {
        (self.title, self.url, self.source)
    }
}

/// What the entries of a list hold.
pub open spec fn views(entries: Seq<Entry>) -> Seq<EntryView> {
    entries.map_values(|e: Entry| e@)
}

impl Entry {
    /// Makes an entry. White space and formatting characters around the title
    /// are dropped.
    pub fn new(title: &str, url: &str, source: &str, detail: &str) -> (r: Self)
        ensures
            r@ == entry_of(title@, url@, source@, detail@),
    {
        Entry {
            title: normalize_title(title),
            url: url.to_string(),
            source: source.to_string(),
            detail: detail.to_string(),
        }
    }

    /// The text that a query is matched against.
    pub fn haystack(&self) -> (r: String)
        ensures
            r@ == self@.haystack(),
    {
        let mut out = self.title.clone();
        out.append(" ");
        out.append(self.url.as_str());
        out.append(" ");
        out.append(self.source.as_str());
        out.append(" ");
        out.append(self.detail.as_str());
        out
    }
}

/// Drops white space and formatting characters around a title.
pub fn normalize_title(value: &str) -> (r: String)
    ensures
        r@ == plain_title(value@),
{
    trimmed(value, Class::TitlePadding)
}

/// Normalizing a title a second time changes nothing.
pub proof fn law_title_normal_form(title: Seq<char>)
    ensures
        plain_title(plain_title(title)) == plain_title(title),
{
    lemma_trim_twice(title, Class::TitlePadding);
}

} // verus!
