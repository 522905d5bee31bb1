//! The bookmarks that browsers keep in trees of folders.
use crate::json::{field_index, find_field, json_text, keys, lemma_same_keys, models, parse_json};
use crate::json::{Json, JsonView};
use crate::models::{entry_of, plain_title, views, Entry, EntryView};
use crate::property_list::{can_read, parse_plist, plist_bytes, readable, Plist, PlistView};
use crate::services::{clean_json_str, cleaned_at, or_empty, parsed_view, text_or_empty};
use crate::sources::{clean_text, clean_title, cleaned};
use crate::text::{glue, glue3, same};
use vstd::prelude::*;
use vstd::string::*;

verus! {

// ---------------------------------------------------------------------------
// Chromium
// ---------------------------------------------------------------------------

/// The bookmark of a node of type `url`.
pub open spec fn url_node(node: JsonView, folder: Seq<char>) -> Seq<EntryView> {
    let url = or_empty(cleaned_at(node, "url"@));
    let title = match cleaned_at(node, "name"@) {
        Some(name) => name,
        None => url,
    };
    if url.len() == 0 {
        seq![]
    } else {
        seq![entry_of(plain_title(title), url, "bookmark"@, folder)]
    }
}

/// The path of a folder of the given name inside a folder.
pub open spec fn inner_folder(folder: Seq<char>, name: Seq<char>) -> Seq<char> {
    if folder.len() == 0 {
        name
    } else if name.len() == 0 {
        folder
    } else {
        folder + "/"@ + name
    }
}

pub open spec fn folder_name(node: JsonView) -> Seq<char> {
    plain_title(or_empty(cleaned_at(node, "name"@)))
}

/// The bookmarks below a node. The outermost node may hold several trees.
pub open spec fn chromium_entries(node: JsonView, folder: Seq<char>) -> Seq<EntryView>
    decreases node, 0nat,
{
    match node {
        JsonView::Object(fields) => {
            let roots = field_index(fields, "roots"@);
            let children = field_index(fields, "children"@);
            if folder.len() == 0 && 0 <= roots < fields.len() && fields[roots].1 is Object {
                root_entries(fields[roots].1->Object_0, fields[roots].1->Object_0.len())
            } else if 0 <= children < fields.len() && fields[children].1 is Array {
                child_entries(
                    fields[children].1->Array_0,
                    folder,
                    fields[children].1->Array_0.len(),
                )
            } else {
                seq![]
            }
        },
        _ => seq![],
    }
}

/// The bookmarks of the first `n` trees.
pub open spec fn root_entries(roots: Seq<(Seq<char>, JsonView)>, n: nat) -> Seq<EntryView>
    decreases roots, n,
{
    if n == 0 || n > roots.len() {
        seq![]
    } else {
        root_entries(roots, (n - 1) as nat) + chromium_entries(roots[n - 1].1, seq![])
    }
}

/// The bookmarks of the first `n` children of a folder.
pub open spec fn child_entries(children: Seq<JsonView>, folder: Seq<char>, n: nat) -> Seq<EntryView>
    decreases children, n,
{
    if n == 0 || n > children.len() {
        seq![]
    } else {
        let child = children[n - 1];
        let before = child_entries(children, folder, (n - 1) as nat);
        if child.text_at("type"@) == Some("url"@) {
            before + url_node(child, folder)
        } else if child.text_at("type"@) == Some("folder"@) {
            before + chromium_entries(children[n - 1], inner_folder(folder, folder_name(child)))
        } else {
            before
        }
    }
}

fn join_folder(folder: &str, name: String) -> (r: String)
    ensures
        r@ == inner_folder(folder@, name@),
{
    if folder.is_empty() {
        name
    } else if name.as_str().is_empty() {
        folder.to_string()
    } else {
        glue3(folder, "/", name.as_str())
    }
}

fn add_entry(entries: &mut Vec<Entry>, entry: Entry)
    ensures
        views(final(entries)@) == views(old(entries)@) + seq![entry@],
{
    let ghost before = views(entries@);
    entries.push(entry);
    assert(views(entries@) =~= before + seq![entry@]);
}

fn add_url_node(node: &Json, folder: &str, entries: &mut Vec<Entry>)
    ensures
        views(final(entries)@) == views(old(entries)@) + url_node(node.model(), folder@),
{
    let url = text_or_empty(clean_json_str(node, "url"));
    if url.as_str().is_empty() {
        assert(views(entries@) =~= views(entries@) + seq![]);
        return ;
    }
    let title = match clean_json_str(node, "name") {
        Some(name) => clean_title(name.as_str()),
        None => clean_title(url.as_str()),
    };
    add_entry(entries, Entry::new(title.as_str(), url.as_str(), "bookmark", folder));
}

/// Collects the bookmarks below a node.
pub fn walk_chromium_bookmarks(node: &Json, folder: &str, entries: &mut Vec<Entry>)
    ensures
        views(final(entries)@) == views(old(entries)@) + chromium_entries(node.model(), folder@),
    decreases node, 0nat,
{
    let ghost before = views(entries@);
    match node {
        Json::Object(fields) => {
            let ghost all = node.model()->Object_0;
            proof {
                lemma_same_keys(keys(fields@), all, "roots"@);
                lemma_same_keys(keys(fields@), all, "children"@);
            }
            if folder.is_empty() {
                if let Some(i) = find_field(fields, "roots") {
                    assert(all[i as int].1 == fields@[i as int].1.model());
                    if let Json::Object(roots) = &fields[i].1 {
                        walk_roots(roots, entries, Ghost(all[i as int].1->Object_0));
                        return ;
                    }
                }
            }
            if let Some(i) = find_field(fields, "children") {
                assert(all[i as int].1 == fields@[i as int].1.model());
                if let Json::Array(children) = &fields[i].1 {
                    assert(all[i as int].1->Array_0 =~= models(children@));
                    walk_children(children, folder, entries);
                    return ;
                }
            }
            assert(before =~= before + seq![]);
        },
        _ => {
            assert(before =~= before + seq![]);
        },
    }
}

fn walk_roots(
    roots: &Vec<(String, Json)>,
    entries: &mut Vec<Entry>,
    Ghost(all): Ghost<Seq<(Seq<char>, JsonView)>>,
)
    requires
        all.len() == roots@.len(),
        forall|i: int|
            0 <= i < all.len() ==> #[trigger] all[i] == (roots@[i].0@, roots@[i].1.model()),
    ensures
        views(final(entries)@) == views(old(entries)@) + root_entries(all, all.len()),
    decreases roots, 1nat,
{
    let ghost before = views(entries@);
    let mut i: usize = 0;
    assert(before =~= before + root_entries(all, 0));
    while i < roots.len()
        invariant
            i <= roots@.len(),
            all.len() == roots@.len(),
            forall|i: int|
                0 <= i < all.len() ==> #[trigger] all[i] == (roots@[i].0@, roots@[i].1.model()),
            views(entries@) == before + root_entries(all, i as nat),
        decreases roots@.len() - i,
    {
        let ghost so_far = root_entries(all, i as nat);
        assert(all[i as int].1 == roots@[i as int].1.model());
        proof {
            reveal_strlit("");
            assert(""@ =~= Seq::<char>::empty());
        }
        walk_chromium_bookmarks(&roots[i].1, "", entries);
        assert(views(entries@) =~= before + (so_far + chromium_entries(all[i as int].1, seq![])));
        i = i + 1;
    }
}

fn walk_children(children: &Vec<Json>, folder: &str, entries: &mut Vec<Entry>)
    ensures
        views(final(entries)@) == views(old(entries)@) + child_entries(
            models(children@),
            folder@,
            children@.len(),
        ),
    decreases children, 1nat,
{
    let ghost before = views(entries@);
    let ghost all = models(children@);
    let mut i: usize = 0;
    assert(before =~= before + child_entries(all, folder@, 0));
    while i < children.len()
        invariant
            i <= children@.len(),
            all == models(children@),
            views(entries@) == before + child_entries(all, folder@, i as nat),
        decreases children@.len() - i,
    {
        let ghost so_far = child_entries(all, folder@, i as nat);
        let child = &children[i];
        assert(all[i as int] == child.model());
        match child.text_at("type") {
            Some(kind) => {
                if same(kind.as_str(), "url") {
                    proof {
                        reveal_strlit("url");
                        reveal_strlit("folder");
                    }
                    add_url_node(child, folder, entries);
                    assert(views(entries@) =~= before + (so_far + url_node(child.model(), folder@)));
                } else if same(kind.as_str(), "folder") {
                    let name = clean_title(
                        text_or_empty(clean_json_str(child, "name")).as_str(),
                    );
                    let next_folder = join_folder(folder, name);
                    walk_chromium_bookmarks(&children[i], next_folder.as_str(), entries);
                    assert(views(entries@) =~= before + (so_far + chromium_entries(
                        child.model(),
                        next_folder@,
                    )));
                }
            },
            None => {},
        }
        i = i + 1;
    }
}

/// The bookmarks in the text of a bookmark file.
pub open spec fn chromium_file(text: Seq<char>) -> Result<Seq<EntryView>, Seq<char>> {
    match json_text(text) {
        Ok(data) => Ok(chromium_entries(data, seq![])),
        Err(err) => Err("parse bookmarks JSON: "@ + err),
    }
}

/// Reads the text of a bookmark file.
pub fn load_chromium_bookmarks(text: &str) -> (r: Result<Vec<Entry>, String>)
    ensures
        parsed_view(r) == chromium_file(text@),
{
    match parse_json(text) {
        Ok(data) => {
            let mut entries: Vec<Entry> = Vec::new();
            let ghost before = views(entries@);
            proof {
                reveal_strlit("");
                assert(""@ =~= Seq::<char>::empty());
            }
            walk_chromium_bookmarks(&data, "", &mut entries);
            assert(views(entries@) =~= chromium_entries(data.model(), seq![]));
            Ok(entries)
        },
        Err(err) => Err(glue("parse bookmarks JSON: ", err.as_str())),
    }
}

// ---------------------------------------------------------------------------
// Safari
// ---------------------------------------------------------------------------

/// The text under `key` of a dictionary.
pub open spec fn plist_text(fields: Seq<(Seq<char>, PlistView)>, key: Seq<char>) -> Option<
    Seq<char>,
> {
    let i = field_index(fields, key);
    if 0 <= i < fields.len() {
        match fields[i].1 {
            PlistView::Text(t) => Some(t),
            _ => None,
        }
    } else {
        None
    }
}

/// The title in the dictionary that a bookmark keeps for its address.
pub open spec fn uri_title(fields: Seq<(Seq<char>, PlistView)>) -> Option<Seq<char>> {
    let i = field_index(fields, "URIDictionary"@);
    if 0 <= i < fields.len() {
        match fields[i].1 {
            PlistView::Dictionary(inner) => plist_text(inner, "title"@),
            _ => None,
        }
    } else {
        None
    }
}

/// The bookmark that a dictionary stands for, if it has an address.
pub open spec fn safari_entry(fields: Seq<(Seq<char>, PlistView)>, folder: Seq<char>) -> Seq<
    EntryView,
> {
    match plist_text(fields, "URLString"@) {
        Some(url) => {
            let title = match uri_title(fields) {
                Some(title) => title,
                None => match plist_text(fields, "Title"@) {
                    Some(title) => title,
                    None => url,
                },
            };
            seq![entry_of(plain_title(title), cleaned(url), "bookmark"@, plain_title(folder))]
        },
        None => seq![],
    }
}

/// The path of the folder that a dictionary stands for.
pub open spec fn safari_folder(fields: Seq<(Seq<char>, PlistView)>, folder: Seq<char>) -> Seq<char> {
    inner_folder(folder, plain_title(or_empty(plist_text(fields, "Title"@))))
}

/// The bookmarks below a value.
pub open spec fn safari_entries(node: PlistView, folder: Seq<char>) -> Seq<EntryView>
    decreases node, 0nat,
{
    match node {
        PlistView::Array(items) => safari_list(items, folder, items.len()),
        PlistView::Dictionary(fields) => {
            let children = field_index(fields, "Children"@);
            let own = safari_entry(fields, folder);
            if 0 <= children < fields.len() && fields[children].1 is Array {
                own + safari_list(
                    fields[children].1->Array_0,
                    safari_folder(fields, folder),
                    fields[children].1->Array_0.len(),
                )
            } else {
                own
            }
        },
        _ => seq![],
    }
}

/// The bookmarks below the first `n` values of a list.
pub open spec fn safari_list(items: Seq<PlistView>, folder: Seq<char>, n: nat) -> Seq<EntryView>
    decreases items, n,
{
    if n == 0 || n > items.len() {
        seq![]
    } else {
        safari_list(items, folder, (n - 1) as nat) + safari_entries(items[n - 1], folder)
    }
}

/// What the fields of a dictionary hold.
pub open spec fn plist_fields(fields: Seq<(String, Plist)>) -> Seq<(Seq<char>, PlistView)> {
    fields.map_values(|f: (String, Plist)| (f.0@, f.1.model()))
}

pub open spec fn plist_models(items: Seq<Plist>) -> Seq<PlistView> {
    items.map_values(|v: Plist| v.model())
}

fn text_at<'a>(fields: &'a Vec<(String, Plist)>, key: &str) -> (r: Option<&'a String>)
    ensures
        match r {
            Some(t) => plist_text(plist_fields(fields@), key@) == Some(t@),
            None => plist_text(plist_fields(fields@), key@) is None,
        },
{
    let ghost all = plist_fields(fields@);
    proof {
        lemma_same_keys(keys(fields@), all, key@);
    }
    match find_field(fields, key) {
        Some(i) => {
            assert(all[i as int].1 == fields@[i as int].1.model());
            match &fields[i].1 {
                Plist::Text(t) => Some(t),
                _ => None,
            }
        },
        None => None,
    }
}

fn uri_title_of(fields: &Vec<(String, Plist)>) -> (r: Option<&String>)
    ensures
        match r {
            Some(t) => uri_title(plist_fields(fields@)) == Some(t@),
            None => uri_title(plist_fields(fields@)) is None,
        },
{
    let ghost all = plist_fields(fields@);
    proof {
        lemma_same_keys(keys(fields@), all, "URIDictionary"@);
    }
    match find_field(fields, "URIDictionary") {
        Some(i) => {
            assert(all[i as int].1 == fields@[i as int].1.model());
            match &fields[i].1 {
                Plist::Dictionary(inner) => {
                    assert(all[i as int].1->Dictionary_0 =~= plist_fields(inner@));
                    text_at(inner, "title")
                },
                _ => None,
            }
        },
        None => None,
    }
}

fn add_safari_entry(fields: &Vec<(String, Plist)>, folder: &str, entries: &mut Vec<Entry>)
    ensures
        views(final(entries)@) == views(old(entries)@) + safari_entry(
            plist_fields(fields@),
            folder@,
        ),
{
    match text_at(fields, "URLString") {
        Some(url) => {
            let title = match uri_title_of(fields) {
                Some(title) => title,
                None => match text_at(fields, "Title") {
                    Some(title) => title,
                    None => url,
                },
            };
            let entry = Entry::new(
                clean_title(title.as_str()).as_str(),
                clean_text(url.as_str()).as_str(),
                "bookmark",
                clean_title(folder).as_str(),
            );
            add_entry(entries, entry);
        },
        None => {
            assert(views(entries@) =~= views(entries@) + seq![]);
        },
    }
}

/// Collects the bookmarks below a value.
pub fn walk_safari_bookmarks(node: &Plist, folder: &str, entries: &mut Vec<Entry>)
    ensures
        views(final(entries)@) == views(old(entries)@) + safari_entries(node.model(), folder@),
    decreases node, 0nat,
{
    let ghost before = views(entries@);
    match node {
        Plist::Array(items) => {
            assert(node.model()->Array_0 =~= plist_models(items@));
            walk_safari_list(items, folder, entries);
        },
        Plist::Dictionary(fields) => {
            let ghost all = node.model()->Dictionary_0;
            proof {
                assert(all =~= plist_fields(fields@));
                lemma_same_keys(keys(fields@), all, "Children"@);
            }
            add_safari_entry(fields, folder, entries);
            let ghost own = safari_entry(all, folder@);
            let title = match text_at(fields, "Title") {
                Some(title) => clean_title(title.as_str()),
                None => {
                    let none = String::new();
                    assert(none@ =~= seq![]);
                    assert(plain_title(none@) =~= none@);
                    none
                },
            };
            let next_folder = join_folder(folder, title);
            if let Some(i) = find_field(fields, "Children") {
                assert(all[i as int].1 == fields@[i as int].1.model());
                if let Plist::Array(children) = &fields[i].1 {
                    assert(all[i as int].1->Array_0 =~= plist_models(children@));
                    walk_safari_list(children, next_folder.as_str(), entries);
                    let ghost below = safari_list(
                        plist_models(children@),
                        next_folder@,
                        children@.len(),
                    );
                    assert(views(entries@) =~= before + (own + below));
                }
            }
        },
        _ => {
            assert(before =~= before + seq![]);
        },
    }
}

fn walk_safari_list(items: &Vec<Plist>, folder: &str, entries: &mut Vec<Entry>)
    ensures
        views(final(entries)@) == views(old(entries)@) + safari_list(
            plist_models(items@),
            folder@,
            items@.len(),
        ),
    decreases items, 1nat,
{
    let ghost before = views(entries@);
    let ghost all = plist_models(items@);
    let mut i: usize = 0;
    assert(before =~= before + safari_list(all, folder@, 0));
    while i < items.len()
        invariant
            i <= items@.len(),
            all == plist_models(items@),
            views(entries@) == before + safari_list(all, folder@, i as nat),
        decreases items@.len() - i,
    {
        let ghost so_far = safari_list(all, folder@, i as nat);
        assert(all[i as int] == items@[i as int].model());
        walk_safari_bookmarks(&items[i], folder, entries);
        assert(views(entries@) =~= before + (so_far + safari_entries(all[i as int], folder@)));
        i = i + 1;
    }
}

/// The bookmarks in the bytes of a bookmark file, or why there are none.
pub open spec fn safari_file(bytes: Seq<u8>) -> Result<Seq<EntryView>, Seq<char>> {
    if !readable(bytes) {
        Err("property list holds a date that cannot be read"@)
    } else {
        match plist_bytes(bytes) {
            Ok(data) => Ok(safari_entries(data, seq![])),
            Err(err) => Err(err),
        }
    }
}

/// Reads the bytes of a bookmark file.
pub fn load_safari_bookmarks(bytes: &Vec<u8>) -> (r: Result<Vec<Entry>, String>)
    ensures
        parsed_view(r) == safari_file(bytes@),
{
    if !can_read(bytes) {
        return Err("property list holds a date that cannot be read".to_string());
    }
    match parse_plist(bytes) {
        Ok(data) => {
            let mut entries: Vec<Entry> = Vec::new();
            proof {
                reveal_strlit("");
                assert(""@ =~= Seq::<char>::empty());
            }
            walk_safari_bookmarks(&data, "", &mut entries);
            assert(views(entries@) =~= safari_entries(data.model(), seq![]));
            Ok(entries)
        },
        Err(err) => Err(err),
    }
}

} // verus!
