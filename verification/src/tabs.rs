//! The tabs, each of which shows the entries of some sources.
use crate::models::{views, Entry, EntryView};
use crate::refresh::RefreshRequest;
use crate::text::same;
use vstd::prelude::*;
use vstd::string::*;

verus! {

#[derive(Clone, Copy, Debug, PartialEq, Eq, Structural)]
pub enum Tab {
    History,
    GitHub,
    GitLab,
    DockerHub,
    Config,
}

/// Whether an entry came from a browser.
pub open spec fn from_browser(source: Seq<char>) -> bool {
    source == "history"@ || source == "browser-history"@ || source == "bookmark"@
}

pub open spec fn from_dockerhub(source: Seq<char>) -> bool {
    source == "public"@ || source == "private"@
}

pub fn is_browser_entry(entry: &Entry) -> (r: bool)
    ensures
        r == from_browser(entry@.source),
{
    let source = entry.source.as_str();
    same(source, "history") || same(source, "browser-history") || same(source, "bookmark")
}

pub fn is_dockerhub_entry(entry: &Entry) -> (r: bool)
    ensures
        r == from_dockerhub(entry@.source),
{
    let source = entry.source.as_str();
    same(source, "public") || same(source, "private")
}

impl Tab {
    /// Whether the tab shows entries of a source.
    pub open spec fn shows(self, source: Seq<char>) -> bool {
        match self {
            Tab::History => from_browser(source),
            Tab::GitHub => source == "github"@,
            Tab::GitLab => source == "gitlab"@,
            Tab::DockerHub => from_dockerhub(source),
            Tab::Config => false,
        }
    }

    /// Whether the tab shows an entry.
    pub fn matches(self, entry: &Entry) -> (r: bool)
        ensures
            r == self.shows(entry@.source),
    {
        match self {
            Tab::History => is_browser_entry(entry),
            Tab::GitHub => same(entry.source.as_str(), "github"),
            Tab::GitLab => same(entry.source.as_str(), "gitlab"),
            Tab::DockerHub => is_dockerhub_entry(entry),
            Tab::Config => false,
        }
    }

    /// The source that the tab refreshes.
    pub open spec fn refreshes(self) -> Option<RefreshRequest> {
        match self {
            Tab::History => Some(RefreshRequest::History),
            Tab::GitHub => Some(RefreshRequest::GitHub),
            Tab::GitLab => Some(RefreshRequest::GitLab),
            Tab::DockerHub => Some(RefreshRequest::DockerHub),
            Tab::Config => None,
        }
    }

    pub fn refresh_request(self) -> (r: Option<RefreshRequest>)
        ensures
            r == self.refreshes(),
    {
        match self {
            Tab::History => Some(RefreshRequest::History),
            Tab::GitHub => Some(RefreshRequest::GitHub),
            Tab::GitLab => Some(RefreshRequest::GitLab),
            Tab::DockerHub => Some(RefreshRequest::DockerHub),
            Tab::Config => None,
        }
    }

    pub open spec fn title(self) -> Seq<char> {
        match self {
            Tab::History => "History"@,
            Tab::GitHub => "GitHub"@,
            Tab::GitLab => "GitLab"@,
            Tab::DockerHub => "DockerHub"@,
            Tab::Config => "Config"@,
        }
    }

    pub fn name(self) -> (r: &'static str)
        ensures
            r@ == self.title(),
    {
        match self {
            Tab::History => "History",
            Tab::GitHub => "GitHub",
            Tab::GitLab => "GitLab",
            Tab::DockerHub => "DockerHub",
            Tab::Config => "Config",
        }
    }
}

/// How many of the entries a tab shows.
pub open spec fn shown_count(entries: Seq<EntryView>, tab: Tab) -> nat {
    entries.filter(|e: EntryView| tab.shows(e.source)).len()
}

pub fn tab_count(entries: &Vec<Entry>, tab: Tab) -> (r: usize)
    ensures
        r == shown_count(views(entries@), tab),
{
    let ghost all = views(entries@);
    let ghost p = |e: EntryView| tab.shows(e.source);
    let mut count: usize = 0;
    let mut i: usize = 0;
    assert(all.take(0).filter(p) =~= seq![]) by {
        reveal(Seq::filter);
    }
    while i < entries.len()
        invariant
            all == views(entries@),
            p == (|e: EntryView| tab.shows(e.source)),
            i <= entries@.len(),
            count <= i,
            count == all.take(i as int).filter(p).len(),
        decreases entries@.len() - i,
    {
        proof {
            let head = all.take(i + 1);
            reveal(Seq::filter);
            assert(head.drop_last() =~= all.take(i as int));
            assert(head.last() == entries@[i as int]@);
        }
        if tab.matches(&entries[i]) {
            count = count + 1;
        }
        i = i + 1;
    }
    assert(all.take(all.len() as int) =~= all);
    count
}

/// No entry is shown by two tabs.
pub proof fn law_tabs_are_disjoint(source: Seq<char>, a: Tab, b: Tab)
    requires
        a.shows(source),
        b.shows(source),
    ensures
        a == b,
{
    reveal_strlit("history");
    reveal_strlit("browser-history");
    reveal_strlit("bookmark");
    reveal_strlit("public");
    reveal_strlit("private");
    reveal_strlit("github");
    reveal_strlit("gitlab");
    assert("history"@.len() == 7 && "browser-history"@.len() == 15 && "bookmark"@.len() == 8);
    assert("public"@.len() == 6 && "private"@.len() == 7);
    assert("github"@.len() == 6 && "gitlab"@.len() == 6);
    assert("history"@[0] != "private"@[0]);
    assert("public"@[0] != "github"@[0]);
    assert("public"@[0] != "gitlab"@[0]);
    assert("github"@[3] != "gitlab"@[3]);
}

} // verus!
