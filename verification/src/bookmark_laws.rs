//! What holds of the bookmarks that are read, whatever the browsers keep.
use crate::bookmarks::{child_entries, chromium_entries, chromium_file, inner_folder};
use crate::bookmarks::{folder_name, plist_text, root_entries, safari_entries, safari_entry};
use crate::bookmarks::{safari_file, safari_folder, safari_list, url_node};
use crate::json::{field_index, json_text, lemma_field_index, JsonView};
use crate::models::{law_title_normal_form, plain_title, EntryView};
use crate::property_list::{plist_bytes, readable, PlistView};
use crate::sources::cleaned;
use vstd::prelude::*;
use vstd::string::*;

verus! {

// ---------------------------------------------------------------------------
// Chromium
// ---------------------------------------------------------------------------

proof fn lemma_trees_split(a: Seq<(Seq<char>, JsonView)>, b: Seq<(Seq<char>, JsonView)>, n: nat)
    requires
        n <= (a + b).len(),
    ensures
        n <= a.len() ==> root_entries(a + b, n) == root_entries(a, n),
        n >= a.len() ==> root_entries(a + b, n) == root_entries(a, a.len()) + root_entries(
            b,
            (n - a.len()) as nat,
        ),
    decreases n,
{
    if n > 0 {
        lemma_trees_split(a, b, (n - 1) as nat);
        if n <= a.len() {
            assert((a + b)[n - 1] == a[n - 1]);
        } else {
            let m = (n - a.len()) as nat;
            assert((a + b)[n - 1] == b[m - 1]);
            assert(root_entries(a + b, n) =~= root_entries(a, a.len()) + root_entries(b, m));
        }
    }
    if n == a.len() {
        assert(root_entries(a, n) =~= root_entries(a, a.len()) + root_entries(b, 0));
    }
}

proof fn lemma_children_split(a: Seq<JsonView>, b: Seq<JsonView>, folder: Seq<char>, n: nat)
    requires
        n <= (a + b).len(),
    ensures
        n <= a.len() ==> child_entries(a + b, folder, n) == child_entries(a, folder, n),
        n >= a.len() ==> child_entries(a + b, folder, n) == child_entries(a, folder, a.len())
            + child_entries(b, folder, (n - a.len()) as nat),
    decreases n,
{
    if n > 0 {
        lemma_children_split(a, b, folder, (n - 1) as nat);
        if n <= a.len() {
            assert((a + b)[n - 1] == a[n - 1]);
        } else {
            let m = (n - a.len()) as nat;
            assert((a + b)[n - 1] == b[m - 1]);
            assert(child_entries(a + b, folder, n) =~= child_entries(a, folder, a.len())
                + child_entries(b, folder, m));
        }
    }
    if n == a.len() {
        assert(child_entries(a, folder, n) =~= child_entries(a, folder, a.len()) + child_entries(
            b,
            folder,
            0,
        ));
    }
}

proof fn lemma_of_trees(file: JsonView, trees: Seq<(Seq<char>, JsonView)>)
    requires
        file.get("roots"@) == Some(JsonView::Object(trees)),
    ensures
        chromium_entries(file, seq![]) == root_entries(trees, trees.len()),
{
    lemma_field_index(file->Object_0, "roots"@);
}

proof fn lemma_of_children(node: JsonView, children: Seq<JsonView>, folder: Seq<char>)
    requires
        node.get("children"@) == Some(JsonView::Array(children)),
        folder.len() > 0 || !(node.get("roots"@) matches Some(JsonView::Object(_))),
    ensures
        chromium_entries(node, folder) == child_entries(children, folder, children.len()),
{
    lemma_field_index(node->Object_0, "roots"@);
    lemma_field_index(node->Object_0, "children"@);
}

/// The bookmarks of several trees are those of each tree alone, put together,
/// whatever the names of the trees are.
pub proof fn law_trees_are_put_together(
    file: JsonView,
    first: JsonView,
    second: JsonView,
    a: Seq<(Seq<char>, JsonView)>,
    b: Seq<(Seq<char>, JsonView)>,
)
    requires
        file.get("roots"@) == Some(JsonView::Object(a + b)),
        first.get("roots"@) == Some(JsonView::Object(a)),
        second.get("roots"@) == Some(JsonView::Object(b)),
    ensures
        chromium_entries(file, seq![]) == chromium_entries(first, seq![]) + chromium_entries(
            second,
            seq![],
        ),
{
    lemma_of_trees(file, a + b);
    lemma_of_trees(first, a);
    lemma_of_trees(second, b);
    lemma_trees_split(a, b, (a + b).len());
}

/// A file with one tree has the bookmarks of that tree.
pub proof fn law_one_tree(file: JsonView, name: Seq<char>, tree: JsonView)
    requires
        file.get("roots"@) == Some(JsonView::Object(seq![(name, tree)])),
    ensures
        chromium_entries(file, seq![]) == chromium_entries(tree, seq![]),
{
    let trees = seq![(name, tree)];
    lemma_of_trees(file, trees);
    reveal_with_fuel(root_entries, 3);
    assert(root_entries(trees, 1) =~= chromium_entries(trees[0].1, seq![]));
}

/// The bookmarks of a folder are those of its children, one behind the other:
/// cutting the list of children in two cuts the list of bookmarks in two.
pub proof fn law_children_are_put_together(
    node: JsonView,
    first: JsonView,
    second: JsonView,
    a: Seq<JsonView>,
    b: Seq<JsonView>,
    folder: Seq<char>,
)
    requires
        node.get("children"@) == Some(JsonView::Array(a + b)),
        first.get("children"@) == Some(JsonView::Array(a)),
        second.get("children"@) == Some(JsonView::Array(b)),
        folder.len() > 0 || node.get("roots"@) is None && first.get("roots"@) is None
            && second.get("roots"@) is None,
    ensures
        chromium_entries(node, folder) == chromium_entries(first, folder) + chromium_entries(
            second,
            folder,
        ),
{
    lemma_of_children(node, a + b, folder);
    lemma_of_children(first, a, folder);
    lemma_of_children(second, b, folder);
    lemma_children_split(a, b, folder, (a + b).len());
}

/// A child of type `url` is one bookmark, with the address under `url`, the
/// title under `name`, the address as the title where there is no name, and the
/// folder as the detail. Without an address it is none.
pub proof fn law_one_bookmark(node: JsonView, child: JsonView, folder: Seq<char>)
    requires
        node.get("children"@) == Some(JsonView::Array(seq![child])),
        folder.len() > 0 || node.get("roots"@) is None,
        child.text_at("type"@) == Some("url"@),
    ensures
        ({
            let entries = chromium_entries(node, folder);
            match child.text_at("url"@) {
                Some(url) => if url.len() > 0 {
                    &&& entries.len() == 1
                    &&& entries[0].url == cleaned(url)
                    &&& entries[0].source == "bookmark"@
                    &&& entries[0].detail == folder
                    &&& child.text_at("name"@) matches Some(name) ==> entries[0].title
                        == plain_title(cleaned(name))
                    &&& child.text_at("name"@) is None ==> entries[0].title == plain_title(
                        cleaned(url),
                    )
                } else {
                    entries.len() == 0
                },
                None => entries.len() == 0,
            }
        }),
{
    let children = seq![child];
    lemma_of_children(node, children, folder);
    reveal_with_fuel(child_entries, 3);
    assert(children[0] == child);
    assert(child_entries(children, folder, 1) =~= url_node(child, folder));
    if child.text_at("name"@) is Some {
        law_title_normal_form(cleaned(child.text_at("name"@)->0));
    } else if child.text_at("url"@) is Some {
        law_title_normal_form(cleaned(child.text_at("url"@)->0));
    }
}

/// A child of type `folder` has the bookmarks that it holds itself. They stand
/// in the folder of its name, inside the folder that it stands in.
pub proof fn law_one_folder(node: JsonView, child: JsonView, folder: Seq<char>)
    requires
        node.get("children"@) == Some(JsonView::Array(seq![child])),
        folder.len() > 0 || node.get("roots"@) is None,
        child.text_at("type"@) == Some("folder"@),
    ensures
        ({
            let name = plain_title(
                match child.text_at("name"@) {
                    Some(name) => cleaned(name),
                    None => seq![],
                },
            );
            let path = if folder.len() > 0 && name.len() > 0 {
                folder + "/"@ + name
            } else {
                folder + name
            };
            chromium_entries(node, folder) == chromium_entries(child, path)
        }),
{
    let children = seq![child];
    lemma_of_children(node, children, folder);
    reveal_strlit("url");
    reveal_strlit("folder");
    assert("url"@.len() != "folder"@.len());
    reveal_with_fuel(child_entries, 3);
    assert(children[0] == child);
    let name = folder_name(child);
    assert(child_entries(children, folder, 1) =~= chromium_entries(
        children[0],
        inner_folder(folder, name),
    ));
    assert(inner_folder(folder, name) =~= if folder.len() > 0 && name.len() > 0 {
        folder + "/"@ + name
    } else {
        folder + name
    });
}

/// A child of any other type holds no bookmarks.
pub proof fn law_other_children_hold_none(node: JsonView, child: JsonView, folder: Seq<char>)
    requires
        node.get("children"@) == Some(JsonView::Array(seq![child])),
        folder.len() > 0 || node.get("roots"@) is None,
        child.text_at("type"@) != Some("url"@),
        child.text_at("type"@) != Some("folder"@),
    ensures
        chromium_entries(node, folder).len() == 0,
{
    lemma_of_children(node, seq![child], folder);
    reveal_with_fuel(child_entries, 3);
    assert(seq![child][0] == child);
}

proof fn lemma_tree_is_there(trees: Seq<(Seq<char>, JsonView)>, i: int, e: EntryView)
    requires
        0 <= i < trees.len(),
        chromium_entries(trees[i].1, seq![]).contains(e),
    ensures
        root_entries(trees, trees.len()).contains(e),
{
    let a = trees.take(i + 1);
    let b = trees.skip(i + 1);
    assert(a + b =~= trees);
    lemma_trees_split(a, b, trees.len());
    let before = root_entries(a, i as nat);
    let own = chromium_entries(a[i].1, seq![]);
    assert(root_entries(a, a.len()) == before + own);
    let k = choose|k: int| 0 <= k < own.len() && own[k] == e;
    assert((before + own)[before.len() + k] == e);
    assert(root_entries(trees, trees.len())[before.len() + k] == e);
}

proof fn lemma_child_is_there(children: Seq<JsonView>, folder: Seq<char>, i: int, e: EntryView)
    requires
        0 <= i < children.len(),
        ({
            let child = children[i];
            ||| child.text_at("type"@) == Some("url"@) && url_node(child, folder).contains(e)
            ||| child.text_at("type"@) == Some("folder"@) && chromium_entries(
                child,
                inner_folder(folder, folder_name(child)),
            ).contains(e)
        }),
    ensures
        child_entries(children, folder, children.len()).contains(e),
{
    reveal_strlit("url");
    reveal_strlit("folder");
    assert("url"@.len() != "folder"@.len());
    let a = children.take(i + 1);
    let b = children.skip(i + 1);
    assert(a + b =~= children);
    lemma_children_split(a, b, folder, children.len());
    let before = child_entries(a, folder, i as nat);
    let child = a[i];
    let own = if child.text_at("type"@) == Some("url"@) {
        url_node(child, folder)
    } else {
        chromium_entries(a[i], inner_folder(folder, folder_name(child)))
    };
    assert(child_entries(a, folder, a.len()) == before + own);
    let k = choose|k: int| 0 <= k < own.len() && own[k] == e;
    assert((before + own)[before.len() + k] == e);
    assert(child_entries(children, folder, children.len())[before.len() + k] == e);
}

/// Whether a node is a child of another.
pub open spec fn is_child(node: JsonView, child: JsonView) -> bool {
    node.get("children"@) matches Some(JsonView::Array(children)) && children.contains(child)
}

proof fn lemma_chain(chain: Seq<JsonView>, k: int, folder: Seq<char>) -> (e: EntryView)
    requires
        1 <= k < chain.len() - 1,
        forall|j: int| 1 <= j < chain.len() - 1 ==> #[trigger] is_child(chain[j], chain[j + 1]),
        forall|j: int|
            1 <= j < chain.len() - 1 ==> !((#[trigger] chain[j]).get("roots"@) matches Some(
                JsonView::Object(_),
            )),
        forall|j: int|
            2 <= j < chain.len() - 1 ==> (#[trigger] chain[j]).text_at("type"@) == Some("folder"@),
        chain.last().text_at("type"@) == Some("url"@),
        chain.last().text_at("url"@) matches Some(url) && url.len() > 0,
    ensures
        chromium_entries(chain[k], folder).contains(e),
        e.url == cleaned(chain.last().text_at("url"@)->0),
    decreases chain.len() - k,
{
    let node = chain[k];
    let child = chain[k + 1];
    assert(is_child(node, child));
    let children = node.get("children"@)->0->Array_0;
    lemma_of_children(node, children, folder);
    let i = choose|i: int| 0 <= i < children.len() && children[i] == child;
    if k + 1 == chain.len() - 1 {
        let e = url_node(child, folder)[0];
        assert(url_node(child, folder).contains(e));
        lemma_child_is_there(children, folder, i, e);
        e
    } else {
        let e = lemma_chain(chain, k + 1, inner_folder(folder, folder_name(child)));
        lemma_child_is_there(children, folder, i, e);
        e
    }
}

/// Every node of type `url` with an address gives a bookmark with that address,
/// in whatever tree of the file it stands, and in however many folders inside
/// each other.
pub proof fn law_every_bookmark_is_found(file: JsonView, chain: Seq<JsonView>, tree: int)
    requires
        chain.len() >= 3,
        chain[0] == file,
        file.get("roots"@) matches Some(JsonView::Object(trees)) && 0 <= tree < trees.len()
            && trees[tree].1 == chain[1],
        forall|j: int| 1 <= j < chain.len() - 1 ==> #[trigger] is_child(chain[j], chain[j + 1]),
        forall|j: int|
            1 <= j < chain.len() - 1 ==> !((#[trigger] chain[j]).get("roots"@) matches Some(
                JsonView::Object(_),
            )),
        forall|j: int|
            2 <= j < chain.len() - 1 ==> (#[trigger] chain[j]).text_at("type"@) == Some("folder"@),
        chain.last().text_at("type"@) == Some("url"@),
        chain.last().text_at("url"@) matches Some(url) && url.len() > 0,
    ensures
        exists|i: int|
            0 <= i < chromium_entries(file, seq![]).len() && (#[trigger] chromium_entries(
                file,
                seq![],
            )[i]).url == cleaned(chain.last().text_at("url"@)->0),
{
    let trees = file.get("roots"@)->0->Object_0;
    lemma_of_trees(file, trees);
    let e = lemma_chain(chain, 1, seq![]);
    lemma_tree_is_there(trees, tree, e);
    let all = chromium_entries(file, seq![]);
    let i = choose|i: int| 0 <= i < all.len() && all[i] == e;
    assert(all[i].url == cleaned(chain.last().text_at("url"@)->0));
}

/// What a file holds is read whatever its trees are: every bookmark of the
/// document is there, in the order of the document, and a text that is no
/// document is an error that says why.
pub proof fn law_chromium_file(text: Seq<char>)
    ensures
        match json_text(text) {
            Ok(data) => chromium_file(text) is Ok && chromium_file(text)->Ok_0
                == chromium_entries(data, seq![]),
            Err(err) => chromium_file(text) is Err && chromium_file(text)->Err_0
                == "parse bookmarks JSON: "@ + err,
        },
{
}

/// Whether entries are bookmarks, all of them.
pub open spec fn all_bookmarks(entries: Seq<EntryView>) -> bool {
    forall|i: int| 0 <= i < entries.len() ==> (#[trigger] entries[i]).source == "bookmark"@
}

proof fn lemma_chromium_bookmarks(node: JsonView, folder: Seq<char>)
    ensures
        all_bookmarks(chromium_entries(node, folder)),
        forall|i: int|
            0 <= i < chromium_entries(node, folder).len() ==> (#[trigger] chromium_entries(
                node,
                folder,
            )[i]).url.len() > 0,
    decreases node, 0nat,
{
    if let JsonView::Object(fields) = node {
        let roots = field_index(fields, "roots"@);
        let children = field_index(fields, "children"@);
        if folder.len() == 0 && 0 <= roots < fields.len() && fields[roots].1 is Object {
            let trees = fields[roots].1->Object_0;
            lemma_tree_bookmarks(trees, trees.len());
        } else if 0 <= children < fields.len() && fields[children].1 is Array {
            let list = fields[children].1->Array_0;
            lemma_child_bookmarks(list, folder, list.len());
        }
    }
}

proof fn lemma_tree_bookmarks(trees: Seq<(Seq<char>, JsonView)>, n: nat)
    ensures
        all_bookmarks(root_entries(trees, n)),
        forall|i: int|
            0 <= i < root_entries(trees, n).len() ==> (#[trigger] root_entries(
                trees,
                n,
            )[i]).url.len() > 0,
    decreases trees, n,
{
    if 0 < n <= trees.len() {
        lemma_tree_bookmarks(trees, (n - 1) as nat);
        lemma_chromium_bookmarks(trees[n - 1].1, seq![]);
    }
}

proof fn lemma_child_bookmarks(children: Seq<JsonView>, folder: Seq<char>, n: nat)
    ensures
        all_bookmarks(child_entries(children, folder, n)),
        forall|i: int|
            0 <= i < child_entries(children, folder, n).len() ==> (#[trigger] child_entries(
                children,
                folder,
                n,
            )[i]).url.len() > 0,
    decreases children, n,
{
    if 0 < n <= children.len() {
        lemma_child_bookmarks(children, folder, (n - 1) as nat);
        let child = children[n - 1];
        if child.text_at("type"@) == Some("url"@) {
        } else if child.text_at("type"@) == Some("folder"@) {
            lemma_chromium_bookmarks(
                children[n - 1],
                inner_folder(folder, folder_name(child)),
            );
        }
    }
}

/// Everything in a bookmark file is a bookmark and has an address.
pub proof fn law_chromium_entries_are_bookmarks(text: Seq<char>, i: int)
    requires
        chromium_file(text) matches Ok(entries) && 0 <= i < entries.len(),
    ensures
        chromium_file(text)->Ok_0[i].source == "bookmark"@,
        chromium_file(text)->Ok_0[i].url.len() > 0,
{
    lemma_chromium_bookmarks(json_text(text)->Ok_0, seq![]);
}

// ---------------------------------------------------------------------------
// Safari
// ---------------------------------------------------------------------------

proof fn lemma_list_split(a: Seq<PlistView>, b: Seq<PlistView>, folder: Seq<char>, n: nat)
    requires
        n <= (a + b).len(),
    ensures
        n <= a.len() ==> safari_list(a + b, folder, n) == safari_list(a, folder, n),
        n >= a.len() ==> safari_list(a + b, folder, n) == safari_list(a, folder, a.len())
            + safari_list(b, folder, (n - a.len()) as nat),
    decreases n,
{
    if n > 0 {
        lemma_list_split(a, b, folder, (n - 1) as nat);
        if n <= a.len() {
            assert((a + b)[n - 1] == a[n - 1]);
        } else {
            let m = (n - a.len()) as nat;
            assert((a + b)[n - 1] == b[m - 1]);
            assert(safari_list(a + b, folder, n) =~= safari_list(a, folder, a.len()) + safari_list(
                b,
                folder,
                m,
            ));
        }
    }
    if n == a.len() {
        assert(safari_list(a, folder, n) =~= safari_list(a, folder, a.len()) + safari_list(
            b,
            folder,
            0,
        ));
    }
}

/// The bookmarks of a list are those of its values, one behind the other.
pub proof fn law_safari_lists_are_put_together(
    a: Seq<PlistView>,
    b: Seq<PlistView>,
    item: PlistView,
    folder: Seq<char>,
)
    ensures
        safari_entries(PlistView::Array(a + b), folder) == safari_entries(
            PlistView::Array(a),
            folder,
        ) + safari_entries(PlistView::Array(b), folder),
        safari_entries(PlistView::Array(seq![item]), folder) == safari_entries(item, folder),
{
    lemma_list_split(a, b, folder, (a + b).len());
    let one = seq![item];
    reveal_with_fuel(safari_list, 3);
    assert(one[0] == item);
    assert(safari_list(one, folder, 1) =~= safari_entries(one[0], folder));
}

/// The text that stands under a key of a dictionary; of several, the last.
pub open spec fn holds_text(
    fields: Seq<(Seq<char>, PlistView)>,
    key: Seq<char>,
    text: Seq<char>,
) -> bool {
    exists|i: int|
        0 <= i < fields.len() && #[trigger] fields[i] == (key, PlistView::Text(text)) && forall|
            j: int,
        |
            i < j < fields.len() ==> (#[trigger] fields[j]).0 != key
}

proof fn lemma_last_field<T>(fields: Seq<(Seq<char>, T)>, key: Seq<char>)
    ensures
        -1 <= field_index(fields, key) < fields.len(),
        field_index(fields, key) >= 0 ==> fields[field_index(fields, key)].0 == key,
        forall|j: int|
            field_index(fields, key) < j < fields.len() ==> (#[trigger] fields[j]).0 != key,
    decreases fields.len(),
{
    if fields.len() > 0 && fields.last().0 != key {
        lemma_last_field(fields.drop_last(), key);
        assert forall|j: int| field_index(fields, key) < j < fields.len() implies (
        #[trigger] fields[j]).0 != key by {
            if j < fields.len() - 1 {
                assert(fields.drop_last()[j] == fields[j]);
            }
        }
    }
}

proof fn lemma_holds_text(fields: Seq<(Seq<char>, PlistView)>, key: Seq<char>, text: Seq<char>)
    ensures
        holds_text(fields, key, text) == (plist_text(fields, key) == Some(text)),
{
    lemma_last_field(fields, key);
    let at = field_index(fields, key);
    if holds_text(fields, key, text) {
        let i = choose|i: int|
            0 <= i < fields.len() && #[trigger] fields[i] == (key, PlistView::Text(text)) && forall|
                j: int,
            |
                i < j < fields.len() ==> (#[trigger] fields[j]).0 != key;
        assert(at == i);
    }
    if plist_text(fields, key) == Some(text) {
        assert(fields[at] == (key, PlistView::Text(text)));
    }
}

/// A dictionary with an address is a bookmark with that address, whether it has
/// children or not. Its title is the one kept for the address, else its own,
/// else the address. Without an address it is none.
pub proof fn law_safari_bookmark(
    fields: Seq<(Seq<char>, PlistView)>,
    folder: Seq<char>,
    url: Seq<char>,
)
    requires
        holds_text(fields, "URLString"@, url),
    ensures
        ({
            let entries = safari_entries(PlistView::Dictionary(fields), folder);
            &&& entries.len() >= 1
            &&& lacks(fields, "Children"@) ==> entries.len() == 1
            &&& entries[0].url == cleaned(url)
            &&& entries[0].source == "bookmark"@
            &&& entries[0].detail == plain_title(folder)
            &&& forall|inner: Seq<(Seq<char>, PlistView)>, title: Seq<char>, k: int|
                0 <= k < fields.len() && #[trigger] holds_text(inner, "title"@, title)
                    && #[trigger] fields[k] == ("URIDictionary"@, PlistView::Dictionary(inner))
                    && (forall|j: int|
                    k < j < fields.len() ==> (#[trigger] fields[j]).0 != "URIDictionary"@)
                    ==> entries[0].title == plain_title(title)
            &&& forall|title: Seq<char>|
                #[trigger] holds_text(fields, "Title"@, title) && lacks(fields, "URIDictionary"@)
                    ==> entries[0].title == plain_title(title)
            &&& lacks(fields, "URIDictionary"@) && lacks(fields, "Title"@) ==> entries[0].title
                == plain_title(url)
        }),
{
    lemma_holds_text(fields, "URLString"@, url);
    lemma_last_field(fields, "Children"@);
    lemma_last_field(fields, "URIDictionary"@);
    lemma_last_field(fields, "Title"@);
    let entries = safari_entries(PlistView::Dictionary(fields), folder);
    let own = safari_entry(fields, folder);
    assert(own.len() == 1);
    assert(entries[0] == own[0]);
    law_title_normal_form(url);
    assert forall|inner: Seq<(Seq<char>, PlistView)>, title: Seq<char>, k: int|
        0 <= k < fields.len() && #[trigger] holds_text(inner, "title"@, title)
            && #[trigger] fields[k] == ("URIDictionary"@, PlistView::Dictionary(inner)) && (forall|
            j: int,
        |
            k < j < fields.len() ==> (#[trigger] fields[j]).0
                != "URIDictionary"@) implies entries[0].title == plain_title(title) by {
        lemma_holds_text(inner, "title"@, title);
        assert(field_index(fields, "URIDictionary"@) == k);
        law_title_normal_form(title);
    }
    assert forall|title: Seq<char>|
        #[trigger] holds_text(fields, "Title"@, title) && lacks(
            fields,
            "URIDictionary"@,
        ) implies entries[0].title == plain_title(title) by {
        lemma_holds_text(fields, "Title"@, title);
        law_title_normal_form(title);
    }
}

/// Whether a dictionary has nothing under a key.
pub open spec fn lacks(fields: Seq<(Seq<char>, PlistView)>, key: Seq<char>) -> bool {
    forall|i: int| 0 <= i < fields.len() ==> (#[trigger] fields[i]).0 != key
}

/// The children that stand under a key of a dictionary.
pub open spec fn holds_children(
    fields: Seq<(Seq<char>, PlistView)>,
    children: Seq<PlistView>,
) -> bool {
    exists|k: int|
        0 <= k < fields.len() && #[trigger] fields[k] == ("Children"@, PlistView::Array(children))
            && forall|j: int| k < j < fields.len() ==> (#[trigger] fields[j]).0 != "Children"@
}

proof fn lemma_holds_children(fields: Seq<(Seq<char>, PlistView)>, children: Seq<PlistView>)
    requires
        holds_children(fields, children),
    ensures
        0 <= field_index(fields, "Children"@) < fields.len(),
        fields[field_index(fields, "Children"@)].1 == PlistView::Array(children),
{
    lemma_last_field(fields, "Children"@);
    let k = choose|k: int|
        0 <= k < fields.len() && #[trigger] fields[k] == ("Children"@, PlistView::Array(children))
            && forall|j: int| k < j < fields.len() ==> (#[trigger] fields[j]).0 != "Children"@;
    assert(field_index(fields, "Children"@) == k);
}

/// A dictionary with children has its own bookmark, where it has an address,
/// and behind it the bookmarks of its children, in the folder of its title,
/// inside the folder that it stands in.
pub proof fn law_safari_folder(
    fields: Seq<(Seq<char>, PlistView)>,
    folder: Seq<char>,
    title: Seq<char>,
    children: Seq<PlistView>,
)
    requires
        holds_children(fields, children),
        holds_text(fields, "Title"@, title) || lacks(fields, "Title"@) && title.len() == 0,
    ensures
        ({
            let entries = safari_entries(PlistView::Dictionary(fields), folder);
            let below = safari_entries(
                PlistView::Array(children),
                if folder.len() > 0 && plain_title(title).len() > 0 {
                    folder + "/"@ + plain_title(title)
                } else {
                    folder + plain_title(title)
                },
            );
            &&& lacks(fields, "URLString"@) ==> entries == below
            &&& forall|url: Seq<char>| #[trigger]
                holds_text(fields, "URLString"@, url) ==> entries.len() == 1 + below.len()
                    && entries.skip(1) == below
        }),
{
    lemma_holds_children(fields, children);
    lemma_last_field(fields, "URLString"@);
    lemma_last_field(fields, "Title"@);
    lemma_holds_text(fields, "Title"@, title);
    let name = plain_title(title);
    if title.len() == 0 {
        assert(title =~= seq![]);
    }
    let path = if folder.len() > 0 && name.len() > 0 {
        folder + "/"@ + name
    } else {
        folder + name
    };
    assert(inner_folder(folder, name) =~= path);
    assert(safari_folder(fields, folder) == path);
    let own = safari_entry(fields, folder);
    let below = safari_list(children, path, children.len());
    let entries = safari_entries(PlistView::Dictionary(fields), folder);
    assert(entries == own + below);
    if lacks(fields, "URLString"@) {
        assert(own =~= seq![]);
        assert(entries =~= below);
    }
    assert forall|url: Seq<char>| #[trigger]
        holds_text(fields, "URLString"@, url) implies entries.len() == 1 + below.len()
        && entries.skip(1) == below by {
        lemma_holds_text(fields, "URLString"@, url);
        assert(own.len() == 1);
        assert(entries.skip(1) =~= below);
    }
}

/// Whether a value stands directly below another: in a list, or among the
/// children of a dictionary.
pub open spec fn is_below(node: PlistView, child: PlistView) -> bool {
    match node {
        PlistView::Array(items) => items.contains(child),
        PlistView::Dictionary(fields) => exists|children: Seq<PlistView>| #[trigger]
            holds_children(fields, children) && children.contains(child),
        _ => false,
    }
}

proof fn lemma_in_list(items: Seq<PlistView>, folder: Seq<char>, i: int, e: EntryView)
    requires
        0 <= i < items.len(),
        safari_entries(items[i], folder).contains(e),
    ensures
        safari_list(items, folder, items.len()).contains(e),
{
    let a = items.take(i + 1);
    let b = items.skip(i + 1);
    assert(a + b =~= items);
    lemma_list_split(a, b, folder, items.len());
    let before = safari_list(a, folder, i as nat);
    let own = safari_entries(a[i], folder);
    assert(safari_list(a, folder, a.len()) == before + own);
    let k = choose|k: int| 0 <= k < own.len() && own[k] == e;
    assert((before + own)[before.len() + k] == e);
    assert(safari_list(items, folder, items.len())[before.len() + k] == e);
}

proof fn lemma_safari_chain(
    chain: Seq<PlistView>,
    k: int,
    folder: Seq<char>,
    fields: Seq<(Seq<char>, PlistView)>,
    url: Seq<char>,
) -> (e: EntryView)
    requires
        0 <= k < chain.len(),
        forall|j: int| 0 <= j < chain.len() - 1 ==> #[trigger] is_below(chain[j], chain[j + 1]),
        chain.last() == PlistView::Dictionary(fields),
        holds_text(fields, "URLString"@, url),
    ensures
        safari_entries(chain[k], folder).contains(e),
        e.url == cleaned(url),
    decreases chain.len() - k,
{
    if k == chain.len() - 1 {
        law_safari_bookmark(fields, folder, url);
        let entries = safari_entries(chain[k], folder);
        assert(entries[0] == entries[0]);
        entries[0]
    } else {
        let child = chain[k + 1];
        assert(is_below(chain[k], child));
        match chain[k] {
            PlistView::Array(items) => {
                let i = choose|i: int| 0 <= i < items.len() && items[i] == child;
                let e = lemma_safari_chain(chain, k + 1, folder, fields, url);
                lemma_in_list(items, folder, i, e);
                e
            },
            PlistView::Dictionary(outer) => {
                let children = choose|children: Seq<PlistView>| #[trigger]
                    holds_children(outer, children) && children.contains(child);
                lemma_holds_children(outer, children);
                let i = choose|i: int| 0 <= i < children.len() && children[i] == child;
                let path = safari_folder(outer, folder);
                let e = lemma_safari_chain(chain, k + 1, path, fields, url);
                lemma_in_list(children, path, i, e);
                let own = safari_entry(outer, folder);
                let below = safari_list(children, path, children.len());
                let at = choose|at: int| 0 <= at < below.len() && below[at] == e;
                assert((own + below)[own.len() + at] == e);
                e
            },
            _ => arbitrary(),
        }
    }
}

/// Every dictionary with an address gives a bookmark with that address, however
/// many lists and folders it stands in.
pub proof fn law_every_safari_bookmark_is_found(
    chain: Seq<PlistView>,
    fields: Seq<(Seq<char>, PlistView)>,
    url: Seq<char>,
)
    requires
        chain.len() > 0,
        forall|j: int| 0 <= j < chain.len() - 1 ==> #[trigger] is_below(chain[j], chain[j + 1]),
        chain.last() == PlistView::Dictionary(fields),
        holds_text(fields, "URLString"@, url),
    ensures
        exists|i: int|
            0 <= i < safari_entries(chain[0], seq![]).len() && (#[trigger] safari_entries(
                chain[0],
                seq![],
            )[i]).url == cleaned(url),
{
    let e = lemma_safari_chain(chain, 0, seq![], fields, url);
    let all = safari_entries(chain[0], seq![]);
    let i = choose|i: int| 0 <= i < all.len() && all[i] == e;
    assert(all[i].url == cleaned(url));
}

proof fn lemma_safari_bookmarks(node: PlistView, folder: Seq<char>)
    ensures
        all_bookmarks(safari_entries(node, folder)),
    decreases node, 0nat,
{
    match node {
        PlistView::Array(items) => {
            lemma_list_bookmarks(items, folder, items.len());
        },
        PlistView::Dictionary(fields) => {
            let children = field_index(fields, "Children"@);
            if 0 <= children < fields.len() && fields[children].1 is Array {
                let list = fields[children].1->Array_0;
                lemma_list_bookmarks(
                    list,
                    safari_folder(fields, folder),
                    list.len(),
                );
            }
        },
        _ => {},
    }
}

proof fn lemma_list_bookmarks(items: Seq<PlistView>, folder: Seq<char>, n: nat)
    ensures
        all_bookmarks(safari_list(items, folder, n)),
    decreases items, n,
{
    if 0 < n <= items.len() {
        lemma_list_bookmarks(items, folder, (n - 1) as nat);
        lemma_safari_bookmarks(items[n - 1], folder);
    }
}

/// Everything in a bookmark file of Safari is a bookmark.
pub proof fn law_safari_entries_are_bookmarks(bytes: Seq<u8>, i: int)
    requires
        safari_file(bytes) matches Ok(entries) && 0 <= i < entries.len(),
    ensures
        safari_file(bytes)->Ok_0[i].source == "bookmark"@,
{
    lemma_safari_bookmarks(plist_bytes(bytes)->Ok_0, seq![]);
}

/// A bookmark file of Safari that can be read holds the bookmarks below its
/// outermost value, which stands in no folder.
pub proof fn law_safari_file(bytes: Seq<u8>)
    requires
        readable(bytes),
    ensures
        match plist_bytes(bytes) {
            Ok(data) => safari_file(bytes) is Ok && safari_file(bytes)->Ok_0 == safari_entries(
                data,
                seq![],
            ),
            Err(err) => safari_file(bytes) is Err && safari_file(bytes)->Err_0 == err,
        },
{
}

} // verus!
