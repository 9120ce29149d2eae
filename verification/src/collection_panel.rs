//! The request tree's logic: which folders are open, the flat list of rows
//! the tree draws, keyboard movement, revealing the active request, and
//! the folder settings form.
use vstd::prelude::*;

use crate::auth::{
    auth_type_long_label, auth_type_long_text, auth_type_label, auth_type_text, blank_auth, defaults_in_place, ensure_auth_defaults, load_auth_inputs, shows_auth,
    sync_auth_inputs_to_config, with_auth_defaults, with_inputs, lemma_takes_inputs, AuthChange,
    AuthInputs,
};
use crate::body::{fresh_rows, kv_text, kv_texts, lemma_fresh_push};
use crate::models::{
    is_hyphenated_uuid, method_text, new_id, AuthConfig, AuthType, Collection, CollectionItem, Folder,
    KeyValue, Variable,
};
use crate::request_panel::{row_texts, texts, ParamRow};
use crate::row_status::{request_row_status, row_status, RequestActivity, RequestRowStatus};
use crate::text::{own, search_key_of};
use crate::tree::{
    collection_matches, edit_folder_in_items, find_folder_in_items, find_request_path, id_texts,
    item_matches, items_edited, items_folder, items_have_request, items_path, FolderEdit,
    FolderSettings,
};

verus! {

// ---------------------------------------------------------------------------
// Rows of the tree
// ---------------------------------------------------------------------------

/// One row of the request tree.
pub struct FlatItem {
    pub id: String,
    pub display: String,
    pub method_str: String,
    pub depth: usize,
    pub is_folder: bool,
    pub is_collection_root: bool,
    pub is_expanded: bool,
}

impl Clone for FlatItem {
    fn clone(&self) -> (r: Self)
        ensures
            r == *self,
    {
        FlatItem {
            id: self.id.clone(),
            display: self.display.clone(),
            method_str: self.method_str.clone(),
            depth: self.depth,
            is_folder: self.is_folder,
            is_collection_root: self.is_collection_root,
            is_expanded: self.is_expanded,
        }
    }
}

/// A row of the tree as plain values.
pub struct FlatView {
    pub id: Seq<char>,
    pub display: Seq<char>,
    pub method: Seq<char>,
    pub depth: int,
    pub is_folder: bool,
    pub is_collection_root: bool,
    pub is_expanded: bool,
}

pub open spec fn flat_view(f: FlatItem) -> FlatView {
    FlatView {
        id: f.id@,
        display: f.display@,
        method: f.method_str@,
        depth: f.depth as int,
        is_folder: f.is_folder,
        is_collection_root: f.is_collection_root,
        is_expanded: f.is_expanded,
    }
}

pub open spec fn flat_views(v: Seq<FlatItem>) -> Seq<FlatView> {
    v.map_values(|f: FlatItem| flat_view(f))
}

/// How many folder levels `item` spans.
pub open spec fn item_height(item: CollectionItem) -> nat
    decreases item, 0int,
{
    match item {
        CollectionItem::Request(_) => 0,
        CollectionItem::Folder(f) => 1 + items_height(f.items@, 0),
    }
}

/// The largest height among `items` from position `k` on.
pub open spec fn items_height(items: Seq<CollectionItem>, k: int) -> nat
    decreases items, items.len() - k,
{
    if k < 0 || k >= items.len() {
        0
    } else {
        let a = item_height(items[k]);
        let b = items_height(items, k + 1);
        if a >= b {
            a
        } else {
            b
        }
    }
}

/// The rows of `item` at `depth`: nothing when a non-empty query does not
/// match it; a folder row followed, when the folder is open (or a query is
/// active), by the rows of its contents one level deeper; a request row
/// with its method.
pub open spec fn item_rows(item: CollectionItem, depth: int, exp: Seq<Seq<char>>, q: Seq<char>) -> Seq<FlatView>
    decreases item, 0int,
{
    if q.len() > 0 && !item_matches(item, q) {
        Seq::empty()
    } else {
        match item {
            CollectionItem::Folder(f) => {
                let open = exp.contains(f.id@) || q.len() > 0;
                seq![FlatView {
                    id: f.id@,
                    display: f.name@,
                    method: Seq::empty(),
                    depth,
                    is_folder: true,
                    is_collection_root: false,
                    is_expanded: open,
                }] + if open {
                    items_rows(f.items@, depth + 1, exp, q, 0)
                } else {
                    Seq::empty()
                }
            },
            CollectionItem::Request(r) => seq![FlatView {
                id: r.id@,
                display: r.name@,
                method: method_text(r.method),
                depth,
                is_folder: false,
                is_collection_root: false,
                is_expanded: false,
            }],
        }
    }
}

/// The rows of `items` from position `k` on.
pub open spec fn items_rows(
    items: Seq<CollectionItem>,
    depth: int,
    exp: Seq<Seq<char>>,
    q: Seq<char>,
    k: int,
) -> Seq<FlatView>
    decreases items, items.len() - k,
{
    if k < 0 || k >= items.len() {
        Seq::empty()
    } else {
        item_rows(items[k], depth, exp, q) + items_rows(items, depth, exp, q, k + 1)
    }
}

/// The rows of the collections from position `k` on: each matching
/// collection's root row, then its items one level deeper when open.
pub open spec fn collections_rows(cols: Seq<Collection>, exp: Seq<Seq<char>>, q: Seq<char>, k: int) -> Seq<FlatView>
    decreases cols.len() - k,
{
    if k < 0 || k >= cols.len() {
        Seq::empty()
    } else if q.len() > 0 && !collection_matches(cols[k], q) {
        collections_rows(cols, exp, q, k + 1)
    } else {
        let c = cols[k];
        let open = exp.contains(c.id@) || q.len() > 0;
        seq![FlatView {
            id: c.id@,
            display: c.name@,
            method: Seq::empty(),
            depth: 0,
            is_folder: true,
            is_collection_root: true,
            is_expanded: open,
        }] + (if open {
            items_rows(c.items@, 1, exp, q, 0)
        } else {
            Seq::empty()
        }) + collections_rows(cols, exp, q, k + 1)
    }
}

/// The id of an item.
pub open spec fn item_id(item: CollectionItem) -> Seq<char> {
    match item {
        CollectionItem::Folder(f) => f.id@,
        CollectionItem::Request(r) => r.id@,
    }
}

proof fn lemma_contains_concat(a: Seq<FlatView>, b: Seq<FlatView>, x: FlatView)
    ensures
        a.contains(x) ==> (a + b).contains(x),
        b.contains(x) ==> (a + b).contains(x),
{
    if a.contains(x) {
        let i = choose|i: int| 0 <= i < a.len() && a[i] == x;
        assert((a + b)[i] == x);
    }
    if b.contains(x) {
        let i = choose|i: int| 0 <= i < b.len() && b[i] == x;
        assert((a + b)[a.len() + i] == x);
    }
}

proof fn lemma_item_rows_in_list(
    items: Seq<CollectionItem>,
    depth: int,
    exp: Seq<Seq<char>>,
    q: Seq<char>,
    i: int,
    k: int,
    x: FlatView,
)
    requires
        0 <= k <= i < items.len(),
        item_rows(items[i], depth, exp, q).contains(x),
    ensures
        items_rows(items, depth, exp, q, k).contains(x),
    decreases i - k,
{
    if k < i {
        lemma_item_rows_in_list(items, depth, exp, q, i, k + 1, x);
        lemma_contains_concat(item_rows(items[k], depth, exp, q), items_rows(items, depth, exp, q, k + 1), x);
    } else {
        lemma_contains_concat(item_rows(items[k], depth, exp, q), items_rows(items, depth, exp, q, k + 1), x);
    }
}

/// Searching shows every matching item: with a non-empty query, an item of
/// a list that matches it has rows, the first being its own row at the
/// list's depth, and every one of them is a row of the list.
pub proof fn law_matching_item_is_shown(
    items: Seq<CollectionItem>,
    depth: int,
    exp: Seq<Seq<char>>,
    q: Seq<char>,
    i: int,
)
    requires
        q.len() > 0,
        0 <= i < items.len(),
        item_matches(items[i], q),
    ensures
        item_rows(items[i], depth, exp, q).len() > 0,
        item_rows(items[i], depth, exp, q)[0].id == item_id(items[i]),
        item_rows(items[i], depth, exp, q)[0].depth == depth,
        forall|x: FlatView|
            #[trigger] item_rows(items[i], depth, exp, q).contains(x) ==> items_rows(items, depth, exp, q, 0).contains(x),
{
    assert forall|x: FlatView| #[trigger] item_rows(items[i], depth, exp, q).contains(x) implies items_rows(
        items,
        depth,
        exp,
        q,
        0,
    ).contains(x) by {
        lemma_item_rows_in_list(items, depth, exp, q, i, 0, x);
    }
}

/// Searching opens the way down: with a non-empty query, a matching folder
/// shows open, and every row of its items one level deeper is one of its
/// rows.
pub proof fn law_searched_folder_shows_its_items(f: Folder, depth: int, exp: Seq<Seq<char>>, q: Seq<char>)
    requires
        q.len() > 0,
        item_matches(CollectionItem::Folder(f), q),
    ensures
        item_rows(CollectionItem::Folder(f), depth, exp, q)[0].is_expanded,
        forall|x: FlatView|
            #[trigger] items_rows(f.items@, depth + 1, exp, q, 0).contains(x) ==> item_rows(
                CollectionItem::Folder(f),
                depth,
                exp,
                q,
            ).contains(x),
{
    let own = item_rows(CollectionItem::Folder(f), depth, exp, q);
    let rest = items_rows(f.items@, depth + 1, exp, q, 0);
    assert forall|x: FlatView| #[trigger] rest.contains(x) implies own.contains(x) by {
        lemma_contains_concat(seq![own[0]], rest, x);
    }
}

/// Searching shows every matching collection: with a non-empty query, a
/// collection that matches it has its root row, open, among the rows, and
/// every row of its items one level deep too.
pub proof fn law_searched_collection_is_shown(
    cols: Seq<Collection>,
    exp: Seq<Seq<char>>,
    q: Seq<char>,
    c: int,
)
    requires
        q.len() > 0,
        0 <= c < cols.len(),
        collection_matches(cols[c], q),
    ensures
        exists|j: int|
            0 <= j < collections_rows(cols, exp, q, 0).len() && #[trigger] collections_rows(cols, exp, q, 0)[j].id
                == cols[c].id@ && collections_rows(cols, exp, q, 0)[j].is_collection_root && collections_rows(
                cols,
                exp,
                q,
                0,
            )[j].is_expanded,
        forall|x: FlatView|
            #[trigger] items_rows(cols[c].items@, 1, exp, q, 0).contains(x) ==> collections_rows(
                cols,
                exp,
                q,
                0,
            ).contains(x),
{
    let own = collections_rows(cols, exp, q, c);
    let items = items_rows(cols[c].items@, 1, exp, q, 0);
    let root = own[0];
    assert(own == seq![root] + items + collections_rows(cols, exp, q, c + 1));
    assert forall|x: FlatView| #[trigger] items.contains(x) implies own.contains(x) by {
        lemma_contains_concat(seq![root], items, x);
        lemma_contains_concat(seq![root] + items, collections_rows(cols, exp, q, c + 1), x);
    }
    lemma_collection_rows_in_all(cols, exp, q, c, 0);
    assert(own.contains(root)) by {
        assert(own[0] == root);
    }
    assert(collections_rows(cols, exp, q, 0).contains(root));
    let j = choose|j: int|
        0 <= j < collections_rows(cols, exp, q, 0).len() && collections_rows(cols, exp, q, 0)[j] == root;
    assert(collections_rows(cols, exp, q, 0)[j].id == cols[c].id@);
}

proof fn lemma_collection_rows_in_all(cols: Seq<Collection>, exp: Seq<Seq<char>>, q: Seq<char>, c: int, k: int)
    requires
        0 <= k <= c < cols.len(),
    ensures
        forall|x: FlatView|
            #[trigger] collections_rows(cols, exp, q, c).contains(x) ==> collections_rows(cols, exp, q, k).contains(x),
    decreases c - k,
{
    if k < c {
        lemma_collection_rows_in_all(cols, exp, q, c, k + 1);
        assert forall|x: FlatView| #[trigger] collections_rows(cols, exp, q, c).contains(x) implies collections_rows(
            cols,
            exp,
            q,
            k,
        ).contains(x) by {
            let later = collections_rows(cols, exp, q, k + 1);
            if q.len() > 0 && !collection_matches(cols[k], q) {
            } else {
                let col = cols[k];
                let open = exp.contains(col.id@) || q.len() > 0;
                let head = collections_rows(cols, exp, q, k).take(
                    collections_rows(cols, exp, q, k).len() - later.len(),
                );
                assert(collections_rows(cols, exp, q, k) == head + later);
                lemma_contains_concat(head, later, x);
            }
        }
    }
}

/// The folder levels of every collection fit in a row depth.
pub open spec fn depths_fit(cols: Seq<Collection>) -> bool {
    forall|i: int| 0 <= i < cols.len() ==> 1 + items_height(#[trigger] cols[i].items@, 0) <= usize::MAX
}

/// The ids of the collections, in order.
pub open spec fn collection_ids(cols: Seq<Collection>) -> Seq<Seq<char>> {
    cols.map_values(|c: Collection| c.id@)
}

/// Adding a text that is missing keeps a list free of repeats.
pub proof fn lemma_push_no_duplicates(s: Seq<Seq<char>>, x: Seq<char>)
    requires
        s.no_duplicates(),
        !s.contains(x),
    ensures
        s.push(x).no_duplicates(),
{
    let t = s.push(x);
    assert forall|a: int, b: int| 0 <= a < t.len() && 0 <= b < t.len() && a != b implies t[a] != t[b] by {
        if a == s.len() {
            assert(s[b] == t[b]);
        } else if b == s.len() {
            assert(s[a] == t[a]);
        }
    }
}

/// Whether `list` holds the text `s`.
fn holds(list: &Vec<String>, s: &String) -> (r: bool)
    ensures
        r == texts(list@).contains(s@),
{
    crate::request_panel::list_contains(list.as_slice(), s)
}

/// Which folder of the tree is settings currently open for, and on which tab.
#[derive(Clone, Copy, Debug, PartialEq, Eq, Structural)]
pub enum FolderSettingsTab {
    General,
    Headers,
    Auth,
    Variables,
}

/// The state of the request tree that its logic reads and changes.
pub struct CollectionPanel {
    pub expanded: Vec<String>,
    pub selected_id: Option<String>,
    pub renaming_id: Option<String>,
    pub flat_dirty: bool,
    pub folder_settings_id: Option<String>,
    pub folder_settings_tab: FolderSettingsTab,
    pub folder_auth_enabled: bool,
    pub folder_auth_type: AuthType,
    /// The rows last built; rebuilt when `flat_dirty` is set.
    pub flat_cache: Vec<FlatItem>,
}

impl CollectionPanel {
    /// The folder auth menu's long label: `Inherit from Parent` while the
    /// folder has no auth of its own, else the scheme's long name.
    pub fn folder_auth_label(enabled: bool, auth_type: &AuthType) -> (r: &'static str)
        ensures
            r@ == if enabled {
                auth_type_long_text(*auth_type)
            } else {
                "Inherit from Parent"@
            },
    {
        if !enabled {
            return "Inherit from Parent";
        }
        auth_type_long_label(auth_type)
    }

    /// The folder auth tab's short label: `Inherit` while the folder has no
    /// auth of its own, else the scheme's short name.
    pub fn folder_auth_short_label(enabled: bool, auth_type: &AuthType) -> (r: &'static str)
        ensures
            r@ == if enabled {
                auth_type_text(*auth_type)
            } else {
                "Inherit"@
            },
    {
        if !enabled {
            return "Inherit";
        }
        auth_type_label(auth_type)
    }

    /// Nothing occurs twice among the open folders' ids: they form a set.
    pub open spec fn well_formed(&self) -> bool {
        texts(self.expanded@).no_duplicates()
    }

    /// A tree with every collection open, no folder open and nothing
    /// selected.
    pub fn new(collections: &[Collection]) -> (r: CollectionPanel)
        ensures
            forall|x: Seq<char>| #[trigger] texts(r.expanded@).contains(x) <==> collection_ids(collections@).contains(x),
            r.well_formed(),
            r.selected_id is None,
            r.renaming_id is None,
            r.flat_dirty,
            r.folder_settings_id is None,
            r.folder_settings_tab == FolderSettingsTab::General,
            !r.folder_auth_enabled,
            r.folder_auth_type == AuthType::NoAuth,
            r.flat_cache@.len() == 0,
    {
        let mut panel = CollectionPanel {
            expanded: Vec::new(),
            selected_id: None,
            renaming_id: None,
            flat_dirty: true,
            folder_settings_id: None,
            folder_settings_tab: FolderSettingsTab::General,
            folder_auth_enabled: false,
            folder_auth_type: AuthType::NoAuth,
            flat_cache: Vec::new(),
        };
        assert(texts(panel.expanded@) =~= Seq::<Seq<char>>::empty());
        panel.open_new_collections(collections);
        panel
    }

    /// The workspace changed: every collection's id joins the open
    /// folders, so that a new collection shows open, and the rows are
    /// marked for rebuilding.
    pub fn open_new_collections(&mut self, collections: &[Collection])
        ensures
            forall|x: Seq<char>| #[trigger] texts(final(self).expanded@).contains(x) <==> texts(
                old(self).expanded@,
            ).contains(x) || collection_ids(collections@).contains(x),
            old(self).well_formed() ==> final(self).well_formed(),
            *final(self) == (CollectionPanel { expanded: final(self).expanded, flat_dirty: true, ..*old(self) }),
    {
        let ghost start = *self;
        let ghost before = texts(self.expanded@);
        let ghost ids = collection_ids(collections@);
        let mut i: usize = 0;
        while i < collections.len()
            invariant
                i <= collections.len(),
                ids == collection_ids(collections@),
                before == texts(start.expanded@),
                forall|x: Seq<char>| #[trigger] texts(self.expanded@).contains(x) <==> before.contains(x)
                    || ids.take(i as int).contains(x),
                start.well_formed() ==> self.well_formed(),
                *self == (CollectionPanel {
                    expanded: self.expanded,
                    flat_dirty: self.flat_dirty,
                    ..start
                }),
            decreases collections.len() - i,
        {
            let ghost eb = texts(self.expanded@);
            self.expand(collections[i].id.as_str());
            assert(ids.take(i + 1) == ids.take(i as int).push(ids[i as int]));
            assert forall|x: Seq<char>| #[trigger] texts(self.expanded@).contains(x) <==> before.contains(x)
                || ids.take(i + 1).contains(x) by {
                let t = ids.take(i + 1);
                if ids.take(i as int).contains(x) {
                    let w = choose|w: int| 0 <= w < i && ids.take(i as int)[w] == x;
                    assert(t[w] == x);
                }
                if t.contains(x) {
                    let w = choose|w: int| 0 <= w < t.len() && t[w] == x;
                    if w < i {
                        assert(ids.take(i as int)[w] == x);
                    } else {
                        assert(x == ids[i as int]);
                    }
                }
                if x == ids[i as int] {
                    assert(t[i as int] == x);
                }
            }
            i = i + 1;
        }
        assert(ids.take(collections.len() as int) == ids);
        self.flat_dirty = true;
    }

    /// Whether the folder settings form is open.
    pub fn folder_settings_open(&self) -> (r: bool)
        ensures
            r == self.folder_settings_id is Some,
    {
        self.folder_settings_id.is_some()
    }

    /// The rows of the tree for the collections and the search text.
    pub fn build_flat(&self, collections: &[Collection], search: &str) -> (r: Vec<FlatItem>)
        requires
            depths_fit(collections@),
        ensures
            flat_views(r@) == collections_rows(
                collections@,
                texts(self.expanded@),
                crate::text::search_key(search@),
                0,
            ),
    {
        let query = search_key_of(search);
        let q = query.as_str();
        let ghost exp = texts(self.expanded@);
        let mut result: Vec<FlatItem> = Vec::new();
        let mut i: usize = 0;
        assert(flat_views(result@) =~= Seq::<FlatView>::empty());
        while i < collections.len()
            invariant
                i <= collections.len(),
                exp == texts(self.expanded@),
                depths_fit(collections@),
                collections_rows(collections@, exp, q@, 0) == flat_views(result@) + collections_rows(
                    collections@,
                    exp,
                    q@,
                    i as int,
                ),
            decreases collections.len() - i,
        {
            let col = &collections[i];
            if !q.is_empty() && !col.matches_query(q) {
                i = i + 1;
                continue;
            }
            let open = holds(&self.expanded, &col.id) || !q.is_empty();
            let ghost before = flat_views(result@);
            result.push(
                FlatItem {
                    id: col.id.clone(),
                    display: col.name.clone(),
                    method_str: String::new(),
                    depth: 0,
                    is_folder: true,
                    is_collection_root: true,
                    is_expanded: open,
                },
            );
            let ghost root = flat_views(result@);
            assert(root == before.push(flat_view(result@[before.len() as int])));
            assert(1 + items_height(collections@[i as int].items@, 0) <= usize::MAX);
            if open {
                Self::add_items(&self.expanded, col.items.as_slice(), 1, q, &mut result);
            } else {
                assert(flat_views(result@) == root + Seq::<FlatView>::empty());
            }
            i = i + 1;
        }
        result
    }

    /// Appends the rows of `items` at `depth`.
    fn add_items(
        expanded: &Vec<String>,
        items: &[CollectionItem],
        depth: usize,
        query: &str,
        result: &mut Vec<FlatItem>,
    )
        requires
            depth + items_height(items@, 0) <= usize::MAX,
        ensures
            flat_views(final(result)@) == flat_views(old(result)@) + items_rows(
                items@,
                depth as int,
                texts(expanded@),
                query@,
                0,
            ),
        decreases items@,
    {
        let ghost exp = texts(expanded@);
        let ghost start = flat_views(result@);
        let mut i: usize = 0;
        while i < items.len()
            invariant
                i <= items.len(),
                exp == texts(expanded@),
                depth + items_height(items@, 0) <= usize::MAX,
                items_height(items@, i as int) <= items_height(items@, 0),
                start == flat_views(old(result)@),
                start + items_rows(items@, depth as int, exp, query@, 0) == flat_views(result@)
                    + items_rows(items@, depth as int, exp, query@, i as int),
            decreases items.len() - i,
        {
            let item = &items[i];
            let ghost before = flat_views(result@);
            let ghost it = items@[i as int];
            if !query.is_empty() && !item.matches_query(query) {
                assert(item_rows(it, depth as int, exp, query@) =~= Seq::<FlatView>::empty());
                assert(before + Seq::<FlatView>::empty() == before);
            } else {
                match item {
                    CollectionItem::Folder(f) => {
                        let open = holds(expanded, &f.id) || !query.is_empty();
                        result.push(
                            FlatItem {
                                id: f.id.clone(),
                                display: f.name.clone(),
                                method_str: String::new(),
                                depth,
                                is_folder: true,
                                is_collection_root: false,
                                is_expanded: open,
                            },
                        );
                        let ghost row = flat_views(result@);
                        assert(row == before.push(flat_view(result@[before.len() as int])));
                        if open {
                            assert(decreases_to!(items@ => f.items@));
                            assert(item_height(it) == 1 + items_height(f.items@, 0));
                            Self::add_items(expanded, f.items.as_slice(), depth + 1, query, result);
                        } else {
                            assert(flat_views(result@) == row + Seq::<FlatView>::empty());
                        }
                        assert(flat_views(result@) == before + item_rows(it, depth as int, exp, query@));
                    },
                    CollectionItem::Request(r) => {
                        let method = r.method.as_str();
                        result.push(
                            FlatItem {
                                id: r.id.clone(),
                                display: r.name.clone(),
                                method_str: own(method),
                                depth,
                                is_folder: false,
                                is_collection_root: false,
                                is_expanded: false,
                            },
                        );
                        assert(flat_views(result@) == before.push(flat_view(result@[before.len() as int])));
                        assert(flat_views(result@) == before + item_rows(it, depth as int, exp, query@));
                    },
                }
            }
            assert(items_rows(items@, depth as int, exp, query@, i as int) == item_rows(
                it,
                depth as int,
                exp,
                query@,
            ) + items_rows(items@, depth as int, exp, query@, i + 1));
            i = i + 1;
        }
    }
}

// ---------------------------------------------------------------------------
// Folder settings
// ---------------------------------------------------------------------------

/// The first folder with the id `id` in the collections from position `k`.
pub open spec fn cols_folder(cols: Seq<Collection>, id: Seq<char>, k: int) -> Option<Folder>
    decreases cols.len() - k,
{
    if k < 0 || k >= cols.len() {
        None
    } else {
        match items_folder(cols[k].items@, id, 0) {
            Some(f) => Some(f),
            None => cols_folder(cols, id, k + 1),
        }
    }
}

/// From position `k` on, `n` is `o` with the first folder with the id `id`
/// edited and nothing else changed.
pub open spec fn cols_edited(o: Seq<Collection>, n: Seq<Collection>, id: Seq<char>, edit: FolderEdit, k: int) -> bool
    decreases o.len() - k,
{
    if k < 0 || k >= o.len() {
        true
    } else if items_folder(o[k].items@, id, 0) is Some {
        &&& n[k].id == o[k].id
        &&& n[k].name == o[k].name
        &&& n[k].variables@ == o[k].variables@
        &&& n[k].items@.len() == o[k].items@.len()
        &&& items_edited(o[k].items@, n[k].items@, id, edit, 0)
        &&& forall|j: int| k < j < o.len() ==> n[j] == o[j]
    } else {
        n[k] == o[k] && cols_edited(o, n, id, edit, k + 1)
    }
}

proof fn lemma_cols_skip(o: Seq<Collection>, id: Seq<char>, edit: FolderEdit, k: int, i: int)
    requires
        0 <= k <= i <= o.len(),
        forall|j: int| k <= j < i ==> items_folder(#[trigger] o[j].items@, id, 0) is None,
    ensures
        cols_folder(o, id, k) == cols_folder(o, id, i),
        i == o.len() ==> cols_edited(o, o, id, edit, k),
    decreases i - k,
{
    if k < i {
        lemma_cols_skip(o, id, edit, k + 1, i);
    }
}

proof fn lemma_cols_edited_prefix(o: Seq<Collection>, n: Seq<Collection>, id: Seq<char>, edit: FolderEdit, k: int, i: int)
    requires
        0 <= k <= i < o.len(),
        n == o.update(i, n[i]),
        items_folder(o[i].items@, id, 0) is Some,
        n[i].id == o[i].id,
        n[i].name == o[i].name,
        n[i].variables@ == o[i].variables@,
        n[i].items@.len() == o[i].items@.len(),
        items_edited(o[i].items@, n[i].items@, id, edit, 0),
        forall|j: int| k <= j < i ==> items_folder(#[trigger] o[j].items@, id, 0) is None,
    ensures
        cols_edited(o, n, id, edit, k),
    decreases i - k,
{
    if k < i {
        lemma_cols_edited_prefix(o, n, id, edit, k + 1, i);
    }
}

/// Edits the first folder with the id `id` in the collections and tells
/// whether there was one.
pub fn edit_folder_in_collections(collections: &mut Vec<Collection>, id: &str, edit: &FolderEdit) -> (found: bool)
    ensures
        found == cols_folder(old(collections)@, id@, 0) is Some,
        final(collections)@.len() == old(collections)@.len(),
        cols_edited(old(collections)@, final(collections)@, id@, *edit, 0),
{
    let ghost orig = collections@;
    let mut i: usize = 0;
    while i < collections.len()
        invariant
            i <= collections.len(),
            collections@ == orig,
            orig == old(collections)@,
            forall|j: int| 0 <= j < i ==> items_folder(#[trigger] orig[j].items@, id@, 0) is None,
        decreases collections.len() - i,
    {
        if find_folder_in_items(collections[i].items.as_slice(), id).is_some() {
            let mut col = collections.remove(i);
            assert(col == orig[i as int]);
            let found = edit_folder_in_items(&mut col.items, id, edit);
            let ghost edited = col;
            collections.insert(i, col);
            assert(collections@ == orig.update(i as int, edited));
            proof {
                lemma_cols_edited_prefix(orig, collections@, id@, *edit, 0, i as int);
                lemma_cols_skip(orig, id@, *edit, 0, i as int);
            }
            return true;
        }
        i = i + 1;
    }
    proof {
        lemma_cols_skip(orig, id@, *edit, 0, orig.len() as int);
    }
    false
}

/// The texts of a key/value row of the folder settings form.
pub open spec fn row_has_text(r: ParamRow) -> bool {
    r.key@.len() > 0 || r.value@.len() > 0
}

/// The rows with a key or a value, in order.
pub open spec fn filled_rows(rows: Seq<ParamRow>) -> Seq<ParamRow>
    decreases rows.len(),
{
    if rows.len() == 0 {
        rows
    } else if row_has_text(rows.last()) {
        filled_rows(rows.drop_last()).push(rows.last())
    } else {
        filled_rows(rows.drop_last())
    }
}

/// The headers of the form: its rows with a key or a value, with fresh ids.
pub fn collect_kv_rows(rows: &[ParamRow]) -> (r: Vec<KeyValue>)
    ensures
        kv_texts(r@) == row_texts(filled_rows(rows@)),
        fresh_rows(r@),
{
    let mut out: Vec<KeyValue> = Vec::new();
    let mut i: usize = 0;
    assert(kv_texts(out@) =~= row_texts(filled_rows(rows@.take(0))));
    while i < rows.len()
        invariant
            i <= rows.len(),
            kv_texts(out@) == row_texts(filled_rows(rows@.take(i as int))),
            fresh_rows(out@),
        decreases rows.len() - i,
    {
        assert(rows@.take(i + 1).drop_last() == rows@.take(i as int));
        assert(rows@.take(i + 1).last() == rows@[i as int]);
        let row = &rows[i];
        if !(row.key.as_str().is_empty() && row.value.as_str().is_empty()) {
            let ghost before = out@;
            let kv = KeyValue {
                id: new_id(),
                key: row.key.clone(),
                value: row.value.clone(),
                enabled: row.enabled,
                description: String::new(),
            };
            out.push(kv);
            assert(out@ == before.push(kv));
            proof {
                lemma_fresh_push(before, kv);
            }
            assert(kv_texts(out@) == kv_texts(before).push(kv_text(kv)));
        }
        i = i + 1;
    }
    assert(rows@.take(rows.len() as int) == rows@);
    out
}

pub open spec fn var_text(v: Variable) -> (Seq<char>, Seq<char>, bool) {
    (v.name@, v.value@, v.enabled)
}

pub open spec fn var_texts(v: Seq<Variable>) -> Seq<(Seq<char>, Seq<char>, bool)> {
    v.map_values(|x: Variable| var_text(x))
}

/// Every variable has a fresh-looking id.
pub open spec fn fresh_variables(v: Seq<Variable>) -> bool {
    forall|i: int| 0 <= i < v.len() ==> is_hyphenated_uuid(#[trigger] v[i].id@)
}

proof fn lemma_fresh_variables_push(v: Seq<Variable>, x: Variable)
    requires
        fresh_variables(v),
        is_hyphenated_uuid(x.id@),
    ensures
        fresh_variables(v.push(x)),
{
    assert forall|i: int| 0 <= i < v.push(x).len() implies is_hyphenated_uuid(#[trigger] v.push(x)[i].id@) by {
        if i < v.len() {
            assert(v.push(x)[i] == v[i]);
        }
    }
}

/// The variables of the form: its rows with a name or a value, with fresh ids.
pub fn collect_variable_rows(rows: &[ParamRow]) -> (r: Vec<Variable>)
    ensures
        var_texts(r@) == row_texts(filled_rows(rows@)),
        fresh_variables(r@),
{
    let mut out: Vec<Variable> = Vec::new();
    let mut i: usize = 0;
    assert(var_texts(out@) =~= row_texts(filled_rows(rows@.take(0))));
    while i < rows.len()
        invariant
            i <= rows.len(),
            var_texts(out@) == row_texts(filled_rows(rows@.take(i as int))),
            fresh_variables(out@),
        decreases rows.len() - i,
    {
        assert(rows@.take(i + 1).drop_last() == rows@.take(i as int));
        assert(rows@.take(i + 1).last() == rows@[i as int]);
        let row = &rows[i];
        if !(row.key.as_str().is_empty() && row.value.as_str().is_empty()) {
            let ghost before = out@;
            let v = Variable { id: new_id(), name: row.key.clone(), value: row.value.clone(), enabled: row.enabled };
            let ghost vg = v;
            out.push(v);
            proof {
                lemma_fresh_variables_push(before, vg);
            }
            assert(out@ == before.push(vg));
            assert(var_texts(out@) == var_texts(before).push(var_text(vg)));
        }
        i = i + 1;
    }
    assert(rows@.take(rows.len() as int) == rows@);
    out
}

/// The texts the folder settings form shows and edits.
pub struct FolderForm {
    pub name: String,
    pub description: String,
    pub header_rows: Vec<ParamRow>,
    pub variable_rows: Vec<ParamRow>,
    pub auth: AuthInputs,
}

impl CollectionPanel {
    /// The auth settings of the folder being edited, or blank settings.
    pub fn current_folder_auth(&self, collections: &[Collection]) -> (r: AuthConfig)
        ensures
            match self.folder_settings_id {
                Some(id) => match cols_folder(collections@, id@, 0) {
                    Some(f) => r == f.auth,
                    None => blank_auth(r),
                },
                None => blank_auth(r),
            },
    {
        match &self.folder_settings_id {
            None => AuthConfig::default(),
            Some(id) => match Self::folder_by_id(collections, id.as_str()) {
                Some(f) => f.auth.clone(),
                None => AuthConfig::default(),
            },
        }
    }

    /// The first folder with the id `id` in the collections.
    fn folder_by_id<'a>(collections: &'a [Collection], id: &str) -> (r: Option<&'a Folder>)
        ensures
            match r {
                Some(f) => cols_folder(collections@, id@, 0) == Some(*f),
                None => cols_folder(collections@, id@, 0) is None,
            },
    {
        let mut i: usize = 0;
        while i < collections.len()
            invariant
                i <= collections.len(),
                cols_folder(collections@, id@, 0) == cols_folder(collections@, id@, i as int),
            decreases collections.len() - i,
        {
            let f = find_folder_in_items(collections[i].items.as_slice(), id);
            if f.is_some() {
                return f;
            }
            i = i + 1;
        }
        None
    }

    /// Applies a change from the folder's auth controls to the folder being
    /// edited. Returns whether the folder was found.
    pub fn update_folder_auth(&self, collections: &mut Vec<Collection>, change: AuthChange) -> (r: bool)
        ensures
            match self.folder_settings_id {
                Some(id) => r == cols_folder(old(collections)@, id@, 0) is Some && cols_edited(
                    old(collections)@,
                    final(collections)@,
                    id@,
                    FolderEdit::Auth(change),
                    0,
                ) && final(collections)@.len() == old(collections)@.len(),
                None => !r && final(collections)@ == old(collections)@,
            },
    {
        match &self.folder_settings_id {
            None => false,
            Some(id) => {
                let edit = FolderEdit::Auth(change);
                edit_folder_in_collections(collections, id.as_str(), &edit)
            },
        }
    }

    /// Picks the folder's auth scheme (or inheritance) from the scheme menu
    /// and switches the form to the auth tab.
    pub fn set_folder_auth(&mut self, enabled: bool, auth_type: AuthType, collections: &mut Vec<Collection>) -> (r: bool)
        ensures
            final(self).folder_auth_enabled == enabled,
            final(self).folder_auth_type == auth_type,
            final(self).folder_settings_tab == FolderSettingsTab::Auth,
            final(self).folder_settings_id == old(self).folder_settings_id,
            final(self).expanded == old(self).expanded,
            final(self).selected_id == old(self).selected_id,
            match old(self).folder_settings_id {
                Some(id) => r == cols_folder(old(collections)@, id@, 0) is Some && cols_edited(
                    old(collections)@,
                    final(collections)@,
                    id@,
                    FolderEdit::Auth(AuthChange::FolderScheme(enabled, auth_type)),
                    0,
                ),
                None => !r && final(collections)@ == old(collections)@,
            },
    {
        self.folder_auth_enabled = enabled;
        self.folder_auth_type = auth_type;
        self.folder_settings_tab = FolderSettingsTab::Auth;
        self.update_folder_auth(collections, AuthChange::FolderScheme(enabled, auth_type))
    }

    /// Opens the settings form of the folder `folder_id` on the general tab
    /// and gives the texts it shows; nothing happens when there is no such
    /// folder.
    pub fn open_folder_settings(&mut self, collections: &[Collection], folder_id: &str) -> (r: Option<FolderForm>)
        ensures
            match cols_folder(collections@, folder_id@, 0) {
                None => r is None && *final(self) == *old(self),
                Some(f) => r is Some && {
                    let form = r->0;
                    &&& final(self).folder_settings_id == Some(f.id)
                    &&& final(self).folder_settings_tab == FolderSettingsTab::General
                    &&& final(self).folder_auth_enabled == f.auth.enabled
                    &&& final(self).folder_auth_type == f.auth.auth_type
                    &&& final(self).expanded == old(self).expanded
                    &&& final(self).selected_id == old(self).selected_id
                    &&& final(self).renaming_id == old(self).renaming_id
                    &&& final(self).flat_dirty == old(self).flat_dirty
                    &&& form.name == f.name
                    &&& form.description == f.description
                    &&& row_texts(form.header_rows@) == kv_texts(f.headers@)
                    &&& row_texts(form.variable_rows@) == var_texts(f.variables@)
                    &&& shows_auth(f.auth, form.auth)
                },
            },
    {
        let folder = match Self::folder_by_id(collections, folder_id) {
            None => {
                return None;
            },
            Some(f) => f,
        };
        self.folder_settings_id = Some(folder.id.clone());
        self.folder_settings_tab = FolderSettingsTab::General;
        self.folder_auth_enabled = folder.auth.enabled;
        self.folder_auth_type = folder.auth.auth_type;
        let mut header_rows: Vec<ParamRow> = Vec::new();
        let mut i: usize = 0;
        while i < folder.headers.len()
            invariant
                i <= folder.headers.len(),
                row_texts(header_rows@) == kv_texts(folder.headers@.take(i as int)),
            decreases folder.headers.len() - i,
        {
            let h = &folder.headers[i];
            let ghost before = row_texts(header_rows@);
            header_rows.push(ParamRow { key: h.key.clone(), value: h.value.clone(), enabled: h.enabled });
            assert(folder.headers@.take(i + 1) == folder.headers@.take(i as int).push(folder.headers@[i as int]));
            assert(row_texts(header_rows@) == before.push(kv_text(folder.headers@[i as int])));
            i = i + 1;
        }
        assert(folder.headers@.take(folder.headers.len() as int) == folder.headers@);
        let mut variable_rows: Vec<ParamRow> = Vec::new();
        let mut j: usize = 0;
        while j < folder.variables.len()
            invariant
                j <= folder.variables.len(),
                row_texts(variable_rows@) == var_texts(folder.variables@.take(j as int)),
            decreases folder.variables.len() - j,
        {
            let v = &folder.variables[j];
            let ghost before = row_texts(variable_rows@);
            variable_rows.push(ParamRow { key: v.name.clone(), value: v.value.clone(), enabled: v.enabled });
            assert(folder.variables@.take(j + 1) == folder.variables@.take(j as int).push(folder.variables@[j as int]));
            assert(row_texts(variable_rows@) == before.push(var_text(folder.variables@[j as int])));
            j = j + 1;
        }
        assert(folder.variables@.take(folder.variables.len() as int) == folder.variables@);
        Some(
            FolderForm {
                name: folder.name.clone(),
                description: folder.description.clone(),
                header_rows,
                variable_rows,
                auth: load_auth_inputs(&folder.auth),
            },
        )
    }

    /// Saves the form into the folder being edited. Returns whether the
    /// folder was found.
    pub fn save_folder_settings(&self, collections: &mut Vec<Collection>, form: &FolderForm) -> (r: bool)
        ensures
            match self.folder_settings_id {
                Some(id) => r == cols_folder(old(collections)@, id@, 0) is Some && exists|st: FolderSettings|
                    cols_edited(old(collections)@, final(collections)@, id@, FolderEdit::Settings(st), 0)
                        && st.name == form.name && st.description == form.description && kv_texts(
                        st.headers@,
                    ) == row_texts(filled_rows(form.header_rows@)) && var_texts(st.variables@)
                        == row_texts(filled_rows(form.variable_rows@)) && st.auth.enabled
                        == self.folder_auth_enabled && st.auth.auth_type == self.folder_auth_type
                        && defaults_in_place(st.auth) && match cols_folder(old(collections)@, id@, 0) {
                        Some(f) => with_auth_defaults(
                            with_inputs(f.auth, self.folder_auth_enabled, self.folder_auth_type, form.auth),
                            st.auth,
                        ),
                        None => true,
                    },
                None => !r && final(collections)@ == old(collections)@,
            },
    {
        match &self.folder_settings_id {
            None => false,
            Some(id) => {
                let settings = self.folder_settings_from_form(collections.as_slice(), form);
                let edit = FolderEdit::Settings(settings);
                edit_folder_in_collections(collections, id.as_str(), &edit)
            },
        }
    }

    /// Saves the form and closes it.
    pub fn close_folder_settings(&mut self, collections: &mut Vec<Collection>, form: &FolderForm) -> (r: bool)
        ensures
            final(self).folder_settings_id is None,
            final(self).expanded == old(self).expanded,
            final(self).selected_id == old(self).selected_id,
            match old(self).folder_settings_id {
                Some(id) => r == cols_folder(old(collections)@, id@, 0) is Some,
                None => !r && final(collections)@ == old(collections)@,
            },
    {
        let saved = self.save_folder_settings(collections, form);
        self.folder_settings_id = None;
        saved
    }

    /// What saving the form writes into the folder being edited: the rows
    /// with text (fresh ids), the folder's auth with the form's scheme and
    /// texts and the defaults filled in.
    pub fn folder_settings_from_form(&self, collections: &[Collection], form: &FolderForm) -> (r: FolderSettings)
        ensures
            r.name == form.name,
            r.description == form.description,
            kv_texts(r.headers@) == row_texts(filled_rows(form.header_rows@)),
            fresh_rows(r.headers@),
            var_texts(r.variables@) == row_texts(filled_rows(form.variable_rows@)),
            r.auth.enabled == self.folder_auth_enabled,
            r.auth.auth_type == self.folder_auth_type,
            defaults_in_place(r.auth),
            match self.folder_settings_id {
                Some(id) => match cols_folder(collections@, id@, 0) {
                    Some(f) => with_auth_defaults(
                        with_inputs(f.auth, self.folder_auth_enabled, self.folder_auth_type, form.auth),
                        r.auth,
                    ),
                    None => exists|b: AuthConfig|
                        blank_auth(b) && with_auth_defaults(
                            with_inputs(b, self.folder_auth_enabled, self.folder_auth_type, form.auth),
                            r.auth,
                        ),
                },
                None => exists|b: AuthConfig|
                    blank_auth(b) && with_auth_defaults(
                        with_inputs(b, self.folder_auth_enabled, self.folder_auth_type, form.auth),
                        r.auth,
                    ),
            },
    {
        let headers = collect_kv_rows(form.header_rows.as_slice());
        let variables = collect_variable_rows(form.variable_rows.as_slice());
        let mut auth = self.current_folder_auth(collections);
        let ghost base = auth;
        auth.enabled = self.folder_auth_enabled;
        auth.auth_type = self.folder_auth_type;
        let ghost scheme_set = auth;
        sync_auth_inputs_to_config(&form.auth, &mut auth);
        proof {
            lemma_takes_inputs(scheme_set, form.auth, auth);
            assert(auth == with_inputs(base, self.folder_auth_enabled, self.folder_auth_type, form.auth));
        }
        ensure_auth_defaults(&mut auth);
        FolderSettings { name: form.name.clone(), description: form.description.clone(), headers, variables, auth }
    }

}


// ---------------------------------------------------------------------------
// Open folders, selection and keyboard movement
// ---------------------------------------------------------------------------

/// `new` holds the members of `old` and `id`.
pub open spec fn with_member(old: Seq<Seq<char>>, new: Seq<Seq<char>>, id: Seq<char>) -> bool {
    forall|x: Seq<char>| #[trigger] new.contains(x) <==> old.contains(x) || x == id
}

/// `new` holds the members of `old` except `id`.
pub open spec fn without_member(old: Seq<Seq<char>>, new: Seq<Seq<char>>, id: Seq<char>) -> bool {
    forall|x: Seq<char>| #[trigger] new.contains(x) <==> old.contains(x) && x != id
}

/// `new` is `old` with `id` added if it was missing, removed otherwise.
pub open spec fn toggled(old: Seq<Seq<char>>, new: Seq<Seq<char>>, id: Seq<char>) -> bool {
    if old.contains(id) {
        without_member(old, new, id)
    } else {
        with_member(old, new, id)
    }
}

/// Opening or closing a folder twice leaves the open folders as they were.
pub proof fn law_toggle_twice(a: Seq<Seq<char>>, b: Seq<Seq<char>>, c: Seq<Seq<char>>, id: Seq<char>)
    requires
        toggled(a, b, id),
        toggled(b, c, id),
    ensures
        forall|x: Seq<char>| #[trigger] c.contains(x) <==> a.contains(x),
{
    if a.contains(id) {
        assert(!b.contains(id));
    } else {
        assert(b.contains(id));
    }
}

/// The ids of the collection and folders to open to show the request `id`:
/// the first collection holding it, then the folders down to it.
pub open spec fn reveal_path(cols: Seq<Collection>, id: Seq<char>, k: int) -> Option<Seq<Seq<char>>>
    decreases cols.len() - k,
{
    if k < 0 || k >= cols.len() {
        None
    } else if items_have_request(cols[k].items@, id, 0) {
        Some(seq![cols[k].id@] + items_path(cols[k].items@, id, 0))
    } else {
        reveal_path(cols, id, k + 1)
    }
}

/// The row position after pressing up (`up`) or down in a list of `len`
/// rows: up from the top or from no selection goes to the last row, down
/// from the last row wraps to the first, down with no selection goes to
/// the first row.
pub open spec fn stepped(len: int, current: Option<usize>, up: bool) -> int {
    if up {
        match current {
            Some(p) => if p == 0 {
                len - 1
            } else {
                p - 1
            },
            None => len - 1,
        }
    } else {
        match current {
            Some(p) => (p + 1) % len,
            None => 0,
        }
    }
}

/// The row position after an up or down key press.
pub fn step_position(len: usize, current: Option<usize>, up: bool) -> (r: usize)
    requires
        len > 0,
        current matches Some(p) ==> p < len,
    ensures
        r == stepped(len as int, current, up),
        r < len,
{
    if up {
        match current {
            Some(0) => len - 1,
            Some(p) => p - 1,
            None => len - 1,
        }
    } else {
        match current {
            Some(p) => (p + 1) % len,
            None => 0,
        }
    }
}

/// Pressing down and then up, or up and then down, comes back to the row
/// one started from.
pub proof fn law_step_round_trip(len: usize, p: usize)
    requires
        p < len,
    ensures
        stepped(len as int, Some(stepped(len as int, Some(p), false) as usize), true) == p,
        stepped(len as int, Some(stepped(len as int, Some(p), true) as usize), false) == p,
{
    if p + 1 < len {
        vstd::arithmetic::div_mod::lemma_small_mod((p + 1) as nat, len as nat);
    } else {
        vstd::arithmetic::div_mod::lemma_mod_self_0(len as int);
    }
    if p > 0 {
        vstd::arithmetic::div_mod::lemma_small_mod(p as nat, len as nat);
    } else {
        vstd::arithmetic::div_mod::lemma_mod_self_0(len as int);
    }
}

/// Where a row accepts a dragged item: `root:<id>` for a collection,
/// `folder:<id>` for a folder, nothing for a request.
pub open spec fn drop_target_text(f: FlatView) -> Seq<char> {
    if f.is_collection_root {
        "root:"@ + f.id
    } else if f.is_folder {
        "folder:"@ + f.id
    } else {
        Seq::empty()
    }
}

/// Position of the first row whose id is `id`, searching from `from` on.
pub open spec fn first_row_of(flat: Seq<FlatItem>, id: Seq<char>, from: int) -> Option<int>
    decreases flat.len() - from,
{
    if from < 0 || from >= flat.len() {
        None
    } else if flat[from].id@ == id {
        Some(from)
    } else {
        first_row_of(flat, id, from + 1)
    }
}

/// The first position of the row `id`.
pub fn position_of(flat: &[FlatItem], id: &String) -> (r: Option<usize>)
    ensures
        match r {
            Some(i) => i < flat@.len() && first_row_of(flat@, id@, 0) == Some(i as int),
            None => first_row_of(flat@, id@, 0) is None,
        },
{
    let mut i: usize = 0;
    while i < flat.len()
        invariant
            i <= flat.len(),
            first_row_of(flat@, id@, 0) == first_row_of(flat@, id@, i as int),
        decreases flat.len() - i,
    {
        if flat[i].id == *id {
            return Some(i);
        }
        i = i + 1;
    }
    None
}

/// A key that opens or closes the selected folder.
#[derive(Clone, Copy, Debug, PartialEq, Eq, Structural)]
pub enum FolderKey {
    /// Space: open a closed folder, close an open one.
    Toggle,
    /// Right arrow.
    Open,
    /// Left arrow.
    Close,
}

impl CollectionPanel {
    /// Opens the folder `id`.
    pub fn expand(&mut self, id: &str)
        ensures
            with_member(texts(old(self).expanded@), texts(final(self).expanded@), id@),
            old(self).well_formed() ==> final(self).well_formed(),
            *final(self) == (CollectionPanel { expanded: final(self).expanded, flat_dirty: true, ..*old(self) }),
    {
        let key = own(id);
        let ghost before = texts(self.expanded@);
        if !holds(&self.expanded, &key) {
            self.expanded.push(key);
            assert(texts(self.expanded@) == before.push(id@));
            proof {
                if before.no_duplicates() {
                    lemma_push_no_duplicates(before, id@);
                }
            }
            assert forall|x: Seq<char>| #[trigger] texts(self.expanded@).contains(x) <==> before.contains(x)
                || x == id@ by {
                if texts(self.expanded@).contains(x) {
                    let w = choose|w: int| 0 <= w < texts(self.expanded@).len() && texts(self.expanded@)[w] == x;
                    if w < before.len() {
                        assert(before[w] == x);
                    }
                }
                if before.contains(x) {
                    let w = choose|w: int| 0 <= w < before.len() && before[w] == x;
                    assert(texts(self.expanded@)[w] == x);
                }
                if x == id@ {
                    assert(texts(self.expanded@)[before.len() as int] == x);
                }
            }
        }
        self.flat_dirty = true;
    }

    /// Closes the folder `id`.
    pub fn collapse(&mut self, id: &str)
        ensures
            without_member(texts(old(self).expanded@), texts(final(self).expanded@), id@),
            old(self).well_formed() ==> final(self).well_formed(),
            *final(self) == (CollectionPanel { expanded: final(self).expanded, flat_dirty: true, ..*old(self) }),
    {
        let key = own(id);
        let ghost before = texts(self.expanded@);
        let mut kept: Vec<String> = Vec::new();
        let mut i: usize = 0;
        while i < self.expanded.len()
            invariant
                i <= self.expanded.len(),
                key@ == id@,
                before == texts(self.expanded@),
                forall|x: Seq<char>| #[trigger] texts(kept@).contains(x) <==> before.take(i as int).contains(x)
                    && x != id@,
                before.no_duplicates() ==> texts(kept@).no_duplicates(),
            decreases self.expanded.len() - i,
        {
            let ghost kb = texts(kept@);
            assert(before.take(i + 1) == before.take(i as int).push(before[i as int]));
            if self.expanded[i] != key {
                kept.push(self.expanded[i].clone());
                assert(texts(kept@) == kb.push(before[i as int]));
                proof {
                    if before.no_duplicates() {
                        assert(!kb.contains(before[i as int])) by {
                            if kb.contains(before[i as int]) {
                                assert(before.take(i as int).contains(before[i as int]));
                                let w = choose|w: int| 0 <= w < i && before.take(i as int)[w] == before[i as int];
                                assert(before[w] == before[i as int]);
                            }
                        }
                        lemma_push_no_duplicates(kb, before[i as int]);
                    }
                }
            }
            assert forall|x: Seq<char>| #[trigger] texts(kept@).contains(x) <==> before.take(i + 1).contains(x)
                && x != id@ by {
                let t = before.take(i + 1);
                if t.contains(x) && x != id@ {
                    let w = choose|w: int| 0 <= w < t.len() && t[w] == x;
                    if w < i {
                        assert(before.take(i as int)[w] == x);
                        assert(kb.contains(x));
                        let v = choose|v: int| 0 <= v < kb.len() && kb[v] == x;
                        assert(texts(kept@)[v] == x);
                    } else {
                        assert(texts(kept@)[kb.len() as int] == x);
                    }
                }
                if texts(kept@).contains(x) {
                    let v = choose|v: int| 0 <= v < texts(kept@).len() && texts(kept@)[v] == x;
                    if v < kb.len() {
                        assert(kb[v] == x);
                        assert(kb.contains(x));
                        let w = choose|w: int| 0 <= w < before.take(i as int).len() && before.take(i as int)[w] == x;
                        assert(t[w] == x);
                    } else {
                        assert(t[i as int] == x);
                    }
                }
            }
            i = i + 1;
        }
        assert(before.take(before.len() as int) == before);
        self.expanded = kept;
        self.flat_dirty = true;
    }

    /// Opens the folder `id` if it is closed, closes it otherwise.
    pub fn toggle_expanded(&mut self, id: &str)
        ensures
            toggled(texts(old(self).expanded@), texts(final(self).expanded@), id@),
            old(self).well_formed() ==> final(self).well_formed(),
            *final(self) == (CollectionPanel { expanded: final(self).expanded, flat_dirty: true, ..*old(self) }),
    {
        let key = own(id);
        if holds(&self.expanded, &key) {
            self.collapse(id);
        } else {
            self.expand(id);
        }
    }

    /// Applies a folder key to the selected row when it is a folder.
    pub fn folder_key(&mut self, flat: &[FlatItem], key: FolderKey)
        ensures
            match old(self).selected_id {
                Some(sid) => if exists|j: int| 0 <= j < flat@.len() && #[trigger] flat@[j].id@ == sid@ && flat@[j].is_folder {
                    &&& final(self).flat_dirty
                    &&& match key {
                        FolderKey::Toggle => toggled(texts(old(self).expanded@), texts(final(self).expanded@), sid@),
                        FolderKey::Open => with_member(texts(old(self).expanded@), texts(final(self).expanded@), sid@),
                        FolderKey::Close => without_member(texts(old(self).expanded@), texts(final(self).expanded@), sid@),
                    }
                } else {
                    *final(self) == *old(self)
                },
                None => *final(self) == *old(self),
            },
            final(self).selected_id == old(self).selected_id,
            old(self).well_formed() ==> final(self).well_formed(),
    {
        let sid = match &self.selected_id {
            Some(s) => s.clone(),
            None => {
                return;
            },
        };
        let mut is_folder = false;
        let mut i: usize = 0;
        while i < flat.len()
            invariant
                i <= flat.len(),
                is_folder == exists|j: int| 0 <= j < i && #[trigger] flat@[j].id@ == sid@ && flat@[j].is_folder,
            decreases flat.len() - i,
        {
            if flat[i].id == sid && flat[i].is_folder {
                is_folder = true;
            }
            i = i + 1;
        }
        if is_folder {
            match key {
                FolderKey::Toggle => self.toggle_expanded(sid.as_str()),
                FolderKey::Open => self.expand(sid.as_str()),
                FolderKey::Close => self.collapse(sid.as_str()),
            }
        }
    }

    /// Moves the selection one row up (`up`) or down. Returns the newly
    /// selected row's id, and whether it is a request that should become
    /// the active one.
    pub fn move_selection(&mut self, flat: &[FlatItem], up: bool) -> (r: Option<(String, bool)>)
        ensures
            flat@.len() == 0 ==> r is None && *final(self) == *old(self),
            flat@.len() > 0 ==> r is Some && {
                let cur = match old(self).selected_id {
                    Some(sid) => match first_row_of(flat@, sid@, 0) {
                        Some(i) => Some(i as usize),
                        None => None::<usize>,
                    },
                    None => None::<usize>,
                };
                let p = stepped(flat@.len() as int, cur, up);
                &&& r matches Some(pair) && pair.0@ == flat@[p].id@ && pair.1 == !flat@[p].is_folder
                &&& final(self).selected_id matches Some(s) && s@ == flat@[p].id@
            },
            final(self).expanded == old(self).expanded,
            final(self).flat_dirty == old(self).flat_dirty,
    {
        if flat.len() == 0 {
            return None;
        }
        let current = match &self.selected_id {
            Some(sid) => position_of(flat, sid),
            None => None,
        };
        let p = step_position(flat.len(), current, up);
        let id = flat[p].id.clone();
        self.selected_id = Some(id.clone());
        Some((id, !flat[p].is_folder))
    }

    /// Opens the collection and folders on the way to the active request,
    /// selects it and marks the rows for rebuilding; does nothing without an
    /// active request.
    pub fn reveal_active_request(&mut self, collections: &[Collection], active_request_id: &Option<String>)
        ensures
            match active_request_id {
                None => *final(self) == *old(self),
                Some(id) => {
                    &&& final(self).selected_id == Some(*id)
                    &&& final(self).flat_dirty
                    &&& forall|x: Seq<char>| #[trigger] texts(final(self).expanded@).contains(x) <==> texts(
                        old(self).expanded@,
                    ).contains(x) || match reveal_path(collections@, id@, 0) {
                        Some(p) => p.contains(x),
                        None => false,
                    }
                },
            },
            old(self).well_formed() ==> final(self).well_formed(),
    {
        let req_id = match active_request_id {
            None => {
                return;
            },
            Some(id) => id.clone(),
        };
        let mut path: Option<Vec<String>> = None;
        let mut i: usize = 0;
        while i < collections.len()
            invariant_except_break
                path is None,
            invariant
                i <= collections.len(),
                reveal_path(collections@, req_id@, 0) == reveal_path(collections@, req_id@, i as int),
            ensures
                match path {
                    None => reveal_path(collections@, req_id@, 0) is None,
                    Some(p) => reveal_path(collections@, req_id@, 0) == Some(id_texts(p@)),
                },
            decreases collections.len() - i,
        {
            let col = &collections[i];
            let mut current: Vec<String> = Vec::new();
            current.push(col.id.clone());
            assert(id_texts(current@) == seq![col.id@]);
            if find_request_path(col.items.as_slice(), req_id.as_str(), &mut current) {
                path = Some(current);
                break;
            }
            i = i + 1;
        }
        let ghost before = texts(self.expanded@);
        let ghost wf0 = self.well_formed();
        match path {
            None => {
                assert(reveal_path(collections@, req_id@, 0) is None);
            },
            Some(p) => {
                let ghost ps = id_texts(p@);
                assert(reveal_path(collections@, req_id@, 0) == Some(ps));
                let mut j: usize = 0;
                while j < p.len()
                    invariant
                        j <= p.len(),
                        ps == id_texts(p@),
                        forall|x: Seq<char>| #[trigger] texts(self.expanded@).contains(x) <==> before.contains(x)
                            || ps.take(j as int).contains(x),
                        wf0 ==> self.well_formed(),
                    decreases p.len() - j,
                {
                    let ghost eb = texts(self.expanded@);
                    self.expand(p[j].as_str());
                    assert(ps.take(j + 1) == ps.take(j as int).push(ps[j as int]));
                    assert forall|x: Seq<char>| #[trigger] texts(self.expanded@).contains(x) <==> before.contains(x)
                        || ps.take(j + 1).contains(x) by {
                        let t = ps.take(j + 1);
                        if ps.take(j as int).contains(x) {
                            let w = choose|w: int| 0 <= w < j && ps.take(j as int)[w] == x;
                            assert(t[w] == x);
                        }
                        if t.contains(x) {
                            let w = choose|w: int| 0 <= w < t.len() && t[w] == x;
                            if w < j {
                                assert(ps.take(j as int)[w] == x);
                            } else {
                                assert(x == ps[j as int]);
                            }
                        }
                        if x == ps[j as int] {
                            assert(t[j as int] == x);
                        }
                    }
                    j = j + 1;
                }
                assert(ps.take(p.len() as int) == ps);
            },
        }
        self.selected_id = Some(req_id);
        self.flat_dirty = true;
    }

    /// Starts renaming the row `id`, giving the name the rename field starts
    /// with (empty when there is no such item).
    pub fn start_rename(&mut self, collections: &[Collection], id: &str) -> (r: String)
        ensures
            final(self).renaming_id matches Some(s) && s@ == id@,
            final(self).selected_id matches Some(s) && s@ == id@,
            r@ == match crate::tree::collections_name(collections@, id@, 0) {
                Some(n) => n,
                None => Seq::empty(),
            },
            final(self).expanded == old(self).expanded,
    {
        let name = match crate::tree::find_name_by_id(collections, id) {
            Some(n) => n,
            None => String::new(),
        };
        self.renaming_id = Some(own(id));
        self.selected_id = Some(own(id));
        name
    }

    /// Ends renaming with the text `name`. Returns the item to rename and its
    /// new name, unless nothing was being renamed or the name is empty.
    pub fn commit_rename(&mut self, name: &str) -> (r: Option<(String, String)>)
        ensures
            final(self).renaming_id is None,
            match old(self).renaming_id {
                Some(id) => if name@.len() > 0 {
                    r matches Some(p) && p.0 == id && p.1@ == name@
                } else {
                    r is None
                },
                None => r is None,
            },
            final(self).selected_id == old(self).selected_id,
            final(self).expanded == old(self).expanded,
    {
        let taken = self.renaming_id.take();
        match taken {
            Some(id) => if !name.is_empty() {
                Some((id, own(name)))
            } else {
                None
            },
            None => None,
        }
    }
}

impl CollectionPanel {
    /// A click on a folder row: the folder is selected and opens or closes.
    pub fn click_folder_row(&mut self, id: &str)
        ensures
            final(self).selected_id matches Some(s) && s@ == id@,
            toggled(texts(old(self).expanded@), texts(final(self).expanded@), id@),
            old(self).well_formed() ==> final(self).well_formed(),
            *final(self) == (CollectionPanel {
                expanded: final(self).expanded,
                flat_dirty: true,
                selected_id: final(self).selected_id,
                ..*old(self)
            }),
    {
        self.selected_id = Some(own(id));
        self.toggle_expanded(id);
    }

    /// Escape in the tree: ends a rename without renaming. Returns whether a
    /// rename was going on.
    pub fn cancel_rename(&mut self) -> (r: bool)
        ensures
            r == old(self).renaming_id is Some,
            final(self).renaming_id is None,
            final(self).selected_id == old(self).selected_id,
            final(self).expanded == old(self).expanded,
    {
        let was = self.renaming_id.is_some();
        self.renaming_id = None;
        was
    }
}

/// The mark beside a row of the tree: none for a folder or collection,
/// else the request's mark (see `request_row_status`).
pub fn flat_row_status(item: &FlatItem, activity: Option<&RequestActivity>, last_stored_status: Option<u16>) -> (r:
    Option<RequestRowStatus>)
    ensures
        r == if item.is_folder {
            None
        } else {
            row_status(
                match activity {
                    Some(a) => Some(*a),
                    None => None,
                },
                last_stored_status,
            )
        },
{
    if item.is_folder {
        None
    } else {
        request_row_status(activity, last_stored_status)
    }
}

/// What a dragged row shows: `METHOD name` for a request, the name
/// otherwise.
pub fn drag_display(item: &FlatItem) -> (r: String)
    ensures
        r@ == if item.method_str@.len() > 0 {
            item.method_str@ + " "@ + item.display@
        } else {
            item.display@
        },
{
    if item.method_str.as_str().is_empty() {
        item.display.clone()
    } else {
        let mut s = item.method_str.clone();
        crate::text::push_str(&mut s, " ");
        crate::text::push_str(&mut s, item.display.as_str());
        s
    }
}

impl CollectionPanel {
    /// The rows of the tree: rebuilt for the collections and the search
    /// text when something changed since the last build, else the rows
    /// last built.
    pub fn flat_items(&mut self, collections: &[Collection], search: &str) -> (r: Vec<FlatItem>)
        requires
            depths_fit(collections@),
        ensures
            old(self).flat_dirty ==> flat_views(r@) == collections_rows(
                collections@,
                texts(old(self).expanded@),
                crate::text::search_key(search@),
                0,
            ),
            !old(self).flat_dirty ==> r@ == old(self).flat_cache@,
            final(self).flat_cache@ == r@,
            !final(self).flat_dirty,
            final(self).expanded == old(self).expanded,
            final(self).selected_id == old(self).selected_id,
    {
        if self.flat_dirty {
            self.flat_cache = self.build_flat(collections, search);
            self.flat_dirty = false;
        }
        let rows = self.flat_cache.clone();
        assert(rows@ =~= self.flat_cache@);
        rows
    }
}

/// Where a row accepts a dragged item.
pub fn drop_target(item: &FlatItem) -> (r: String)
    ensures
        r@ == drop_target_text(flat_view(*item)),
{
    if item.is_collection_root {
        let mut s = own("root:");
        crate::text::push_str(&mut s, item.id.as_str());
        s
    } else if item.is_folder {
        let mut s = own("folder:");
        crate::text::push_str(&mut s, item.id.as_str());
        s
    } else {
        String::new()
    }
}

} // verus!
