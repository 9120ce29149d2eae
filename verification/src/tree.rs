//! Searching the collection tree: which collection holds a request, the
//! name of an item, the folders on the way to a request, and folder lookup.
use vstd::prelude::*;

use crate::auth::{auth_changed, update_auth_config, with_auth_defaults, AuthChange};
use crate::models::{AuthConfig, Collection, CollectionItem, Folder, KeyValue, Variable};
use crate::text::{trim, trimmed, contains_text, lowercase, occurs_in, own, to_lowercase};

verus! {

// ---------------------------------------------------------------------------
// Does a tree hold a request?
// ---------------------------------------------------------------------------

/// `item` is the request `id` or a folder holding it at some depth.
pub open spec fn item_has_request(item: CollectionItem, id: Seq<char>) -> bool
    decreases item, 0int,
{
    match item {
        CollectionItem::Request(r) => r.id@ == id,
        CollectionItem::Folder(f) => items_have_request(f.items@, id, 0),
    }
}

/// Some item of `items` from position `k` on holds the request `id`.
pub open spec fn items_have_request(items: Seq<CollectionItem>, id: Seq<char>, k: int) -> bool
    decreases items, items.len() - k,
{
    if k < 0 || k >= items.len() {
        false
    } else {
        item_has_request(items[k], id) || items_have_request(items, id, k + 1)
    }
}

pub proof fn lemma_items_have_request(items: Seq<CollectionItem>, id: Seq<char>, k: int)
    requires
        0 <= k,
    ensures
        items_have_request(items, id, k) <==> exists|i: int|
            k <= i < items.len() && #[trigger] item_has_request(items[i], id),
    decreases items.len() - k,
{
    if k < items.len() {
        lemma_items_have_request(items, id, k + 1);
        if item_has_request(items[k], id) {
        }
    }
}

/// A list of items holds a request exactly when one of its items is that
/// request or is a folder whose items hold it: requests count at any depth.
pub proof fn law_request_held_at_any_depth(items: Seq<CollectionItem>, id: Seq<char>)
    ensures
        items_have_request(items, id, 0) <==> exists|i: int|
            0 <= i < items.len() && match #[trigger] items[i] {
                CollectionItem::Request(r) => r.id@ == id,
                CollectionItem::Folder(f) => items_have_request(f.items@, id, 0),
            },
{
    lemma_items_have_request(items, id, 0);
    if items_have_request(items, id, 0) {
        let i = choose|i: int| 0 <= i < items.len() && #[trigger] item_has_request(items[i], id);
        assert(match items[i] {
            CollectionItem::Request(r) => r.id@ == id,
            CollectionItem::Folder(f) => items_have_request(f.items@, id, 0),
        });
    }
    if exists|i: int|
        0 <= i < items.len() && match #[trigger] items[i] {
            CollectionItem::Request(r) => r.id@ == id,
            CollectionItem::Folder(f) => items_have_request(f.items@, id, 0),
        } {
        let i = choose|i: int|
            0 <= i < items.len() && match #[trigger] items[i] {
                CollectionItem::Request(r) => r.id@ == id,
                CollectionItem::Folder(f) => items_have_request(f.items@, id, 0),
            };
        assert(item_has_request(items[i], id));
    }
}

/// Whether some item of `items`, at any depth, is the request `request_id`.
pub fn items_contain_request(items: &[CollectionItem], request_id: &str) -> (r: bool)
    ensures
        r == items_have_request(items@, request_id@, 0),
    decreases items@,
{
    let id = own(request_id);
    let mut i: usize = 0;
    while i < items.len()
        invariant
            i <= items.len(),
            id@ == request_id@,
            items_have_request(items@, request_id@, 0) == items_have_request(
                items@,
                request_id@,
                i as int,
            ),
        decreases items.len() - i,
    {
        let found = match &items[i] {
            CollectionItem::Request(request) => request.id == id,
            CollectionItem::Folder(folder) => {
                assert(decreases_to!(items@ => folder.items@));
                items_contain_request(folder.items.as_slice(), request_id)
            },
        };
        assert(found == item_has_request(items@[i as int], request_id@));
        if found {
            return true;
        }
        i = i + 1;
    }
    false
}

/// Whether the collection holds the request `request_id`.
pub fn collection_contains_request(collection: &Collection, request_id: &str) -> (r: bool)
    ensures
        r == items_have_request(collection.items@, request_id@, 0),
{
    items_contain_request(collection.items.as_slice(), request_id)
}

// ---------------------------------------------------------------------------
// Names
// ---------------------------------------------------------------------------

/// The name of the first request or folder with the id `id` inside `item`
/// (the item itself first, then its contents in order).
pub open spec fn item_name(item: CollectionItem, id: Seq<char>) -> Option<Seq<char>>
    decreases item, 0int,
{
    match item {
        CollectionItem::Request(r) => if r.id@ == id {
            Some(r.name@)
        } else {
            None
        },
        CollectionItem::Folder(f) => if f.id@ == id {
            Some(f.name@)
        } else {
            items_name(f.items@, id, 0)
        },
    }
}

/// The name found by searching `items` from position `k` on.
pub open spec fn items_name(items: Seq<CollectionItem>, id: Seq<char>, k: int) -> Option<Seq<char>>
    decreases items, items.len() - k,
{
    if k < 0 || k >= items.len() {
        None
    } else {
        match item_name(items[k], id) {
            Some(n) => Some(n),
            None => items_name(items, id, k + 1),
        }
    }
}

/// The name found by searching the collections from position `k` on: a
/// collection's own id first, then its items.
pub open spec fn collections_name(cols: Seq<Collection>, id: Seq<char>, k: int) -> Option<Seq<char>>
    decreases cols.len() - k,
{
    if k < 0 || k >= cols.len() {
        None
    } else if cols[k].id@ == id {
        Some(cols[k].name@)
    } else {
        match items_name(cols[k].items@, id, 0) {
            Some(n) => Some(n),
            None => collections_name(cols, id, k + 1),
        }
    }
}

pub open spec fn opt_text(o: Option<String>) -> Option<Seq<char>> {
    match o {
        Some(s) => Some(s@),
        None => None,
    }
}

/// The name of the first request or folder with the id `id` in `items`.
pub fn find_name_in_items(items: &[CollectionItem], id: &str) -> (r: Option<String>)
    ensures
        opt_text(r) == items_name(items@, id@, 0),
    decreases items@,
{
    let key = own(id);
    let mut i: usize = 0;
    while i < items.len()
        invariant
            i <= items.len(),
            key@ == id@,
            items_name(items@, id@, 0) == items_name(items@, id@, i as int),
        decreases items.len() - i,
    {
        let found = match &items[i] {
            CollectionItem::Request(r) => if r.id == key {
                Some(r.name.clone())
            } else {
                None
            },
            CollectionItem::Folder(f) => if f.id == key {
                Some(f.name.clone())
            } else {
                assert(decreases_to!(items@ => f.items@));
                find_name_in_items(f.items.as_slice(), id)
            },
        };
        assert(opt_text(found) == item_name(items@[i as int], id@));
        if found.is_some() {
            return found;
        }
        i = i + 1;
    }
    None
}

/// The name of the collection, folder or request with the id `id`.
pub fn find_name_by_id(collections: &[Collection], id: &str) -> (r: Option<String>)
    ensures
        opt_text(r) == collections_name(collections@, id@, 0),
{
    let key = own(id);
    let mut i: usize = 0;
    while i < collections.len()
        invariant
            i <= collections.len(),
            key@ == id@,
            collections_name(collections@, id@, 0) == collections_name(collections@, id@, i as int),
        decreases collections.len() - i,
    {
        let col = &collections[i];
        if col.id == key {
            return Some(col.name.clone());
        }
        let n = find_name_in_items(col.items.as_slice(), id);
        if n.is_some() {
            return n;
        }
        i = i + 1;
    }
    None
}

// ---------------------------------------------------------------------------
// The folders on the way to a request
// ---------------------------------------------------------------------------

/// The ids of the folders from `item` down to the request `id` (empty when
/// `item` is the request).
pub open spec fn item_path(item: CollectionItem, id: Seq<char>) -> Seq<Seq<char>>
    decreases item, 0int,
{
    match item {
        CollectionItem::Request(_) => Seq::empty(),
        CollectionItem::Folder(f) => seq![f.id@] + items_path(f.items@, id, 0),
    }
}

/// The folder ids on the way to the request `id` through the first item
/// from position `k` on that holds it.
pub open spec fn items_path(items: Seq<CollectionItem>, id: Seq<char>, k: int) -> Seq<Seq<char>>
    decreases items, items.len() - k,
{
    if k < 0 || k >= items.len() {
        Seq::empty()
    } else if item_has_request(items[k], id) {
        item_path(items[k], id)
    } else {
        items_path(items, id, k + 1)
    }
}

pub open spec fn id_texts(v: Seq<String>) -> Seq<Seq<char>> {
    v.map_values(|s: String| s@)
}

/// Appends to `current_path` the ids of the folders leading to the request
/// `request_id`, if `items` holds it; otherwise leaves the path as it was.
pub fn find_request_path(
    items: &[CollectionItem],
    request_id: &str,
    current_path: &mut Vec<String>,
) -> (r: bool)
    ensures
        r == items_have_request(items@, request_id@, 0),
        r ==> id_texts(final(current_path)@) == id_texts(old(current_path)@) + items_path(
            items@,
            request_id@,
            0,
        ),
        !r ==> id_texts(final(current_path)@) == id_texts(old(current_path)@),
    decreases items@,
{
    let key = own(request_id);
    let ghost start = id_texts(current_path@);
    let mut i: usize = 0;
    while i < items.len()
        invariant
            i <= items.len(),
            key@ == request_id@,
            id_texts(current_path@) == start,
            start == id_texts(old(current_path)@),
            items_have_request(items@, request_id@, 0) == items_have_request(
                items@,
                request_id@,
                i as int,
            ),
            items_path(items@, request_id@, 0) == items_path(items@, request_id@, i as int),
        decreases items.len() - i,
    {
        match &items[i] {
            CollectionItem::Request(request) => {
                assert(item_has_request(items@[i as int], request_id@) == (request.id@ == key@));
                if request.id == key {
                    assert(items_path(items@, request_id@, i as int) == item_path(
                        items@[i as int],
                        request_id@,
                    ));
                    assert(item_path(items@[i as int], request_id@) =~= Seq::<Seq<char>>::empty());
                    assert(start + Seq::<Seq<char>>::empty() == start);
                    assert(start == id_texts(old(current_path)@));
                    assert(items_path(items@, request_id@, 0) =~= Seq::<Seq<char>>::empty());
                    assert(id_texts(current_path@) == id_texts(old(current_path)@) + items_path(
                        items@,
                        request_id@,
                        0,
                    ));
                    return true;
                }
            },
            CollectionItem::Folder(folder) => {
                current_path.push(folder.id.clone());
                assert(id_texts(current_path@) == start.push(folder.id@));
                assert(decreases_to!(items@ => folder.items@));
                assert(item_has_request(items@[i as int], request_id@) == items_have_request(
                    folder.items@,
                    request_id@,
                    0,
                ));
                assert(item_path(items@[i as int], request_id@) == seq![folder.id@] + items_path(
                    folder.items@,
                    request_id@,
                    0,
                ));
                if find_request_path(folder.items.as_slice(), request_id, current_path) {
                    assert(start.push(folder.id@) + items_path(folder.items@, request_id@, 0) == start
                        + (seq![folder.id@] + items_path(folder.items@, request_id@, 0)));
                    return true;
                }
                let ghost before_pop = current_path@;
                current_path.pop();
                assert(current_path@ == before_pop.drop_last());
                assert(id_texts(current_path@) == id_texts(before_pop).drop_last());
            },
        }
        i = i + 1;
    }
    false
}

// ---------------------------------------------------------------------------
// Folders by id
// ---------------------------------------------------------------------------

/// The first folder with the id `id` inside `item` (itself first, then its
/// contents in order).
pub open spec fn item_folder(item: CollectionItem, id: Seq<char>) -> Option<Folder>
    decreases item, 0int,
{
    match item {
        CollectionItem::Request(_) => None,
        CollectionItem::Folder(f) => if f.id@ == id {
            Some(f)
        } else {
            items_folder(f.items@, id, 0)
        },
    }
}

/// The first folder with the id `id` in `items` from position `k` on.
pub open spec fn items_folder(items: Seq<CollectionItem>, id: Seq<char>, k: int) -> Option<Folder>
    decreases items, items.len() - k,
{
    if k < 0 || k >= items.len() {
        None
    } else {
        match item_folder(items[k], id) {
            Some(f) => Some(f),
            None => items_folder(items, id, k + 1),
        }
    }
}

/// The first folder with the id `id` in `items`, at any depth.
pub fn find_folder_in_items<'a>(items: &'a [CollectionItem], id: &str) -> (r: Option<&'a Folder>)
    ensures
        match r {
            Some(f) => items_folder(items@, id@, 0) == Some(*f),
            None => items_folder(items@, id@, 0) is None,
        },
    decreases items@,
{
    let key = own(id);
    let mut i: usize = 0;
    while i < items.len()
        invariant
            i <= items.len(),
            key@ == id@,
            items_folder(items@, id@, 0) == items_folder(items@, id@, i as int),
        decreases items.len() - i,
    {
        match &items[i] {
            CollectionItem::Folder(folder) => {
                if folder.id == key {
                    assert(item_folder(items@[i as int], id@) == Some(*folder));
                    return Some(folder);
                }
                assert(decreases_to!(items@ => folder.items@));
                let found = find_folder_in_items(folder.items.as_slice(), id);
                assert(item_folder(items@[i as int], id@) == items_folder(folder.items@, id@, 0));
                if found.is_some() {
                    return found;
                }
            },
            CollectionItem::Request(_) => {
                assert(item_folder(items@[i as int], id@) is None);
            },
        }
        i = i + 1;
    }
    None
}

// ---------------------------------------------------------------------------
// Search
// ---------------------------------------------------------------------------

/// `item` matches the lower-case query `q`: its lower-cased name contains
/// `q`, or, for a folder, something inside it matches.
pub open spec fn item_matches(item: CollectionItem, q: Seq<char>) -> bool
    decreases item, 0int,
{
    match item {
        CollectionItem::Request(r) => occurs_in(lowercase(r.name@), q),
        CollectionItem::Folder(f) => occurs_in(lowercase(f.name@), q) || items_match(f.items@, q, 0),
    }
}

/// Some item of `items` from position `k` on matches `q`.
pub open spec fn items_match(items: Seq<CollectionItem>, q: Seq<char>, k: int) -> bool
    decreases items, items.len() - k,
{
    if k < 0 || k >= items.len() {
        false
    } else {
        item_matches(items[k], q) || items_match(items, q, k + 1)
    }
}

/// `items_match` finds a matching item from position `k` on.
pub proof fn lemma_items_match(items: Seq<CollectionItem>, q: Seq<char>, k: int)
    requires
        0 <= k,
    ensures
        items_match(items, q, k) <==> exists|i: int| k <= i < items.len() && #[trigger] item_matches(items[i], q),
    decreases items.len() - k,
{
    if k < items.len() {
        lemma_items_match(items, q, k + 1);
        assert(items_match(items, q, k) == (item_matches(items[k], q) || items_match(items, q, k + 1)));
    }
}

/// Searching matches names: a request matches a query exactly when its
/// lower-cased name contains it; a folder matches when its lower-cased name
/// contains it or one of its items matches; a collection likewise.
pub proof fn law_search_matches_names(item: CollectionItem, c: Collection, q: Seq<char>)
    ensures
        match item {
            CollectionItem::Request(r) => item_matches(item, q) <==> occurs_in(lowercase(r.name@), q),
            CollectionItem::Folder(f) => item_matches(item, q) <==> (occurs_in(lowercase(f.name@), q) || exists|i: int|
                0 <= i < f.items@.len() && #[trigger] item_matches(f.items@[i], q)),
        },
        collection_matches(c, q) <==> (occurs_in(lowercase(c.name@), q) || exists|i: int|
            0 <= i < c.items@.len() && #[trigger] item_matches(c.items@[i], q)),
{
    lemma_items_match(c.items@, q, 0);
    match item {
        CollectionItem::Folder(f) => {
            lemma_items_match(f.items@, q, 0);
        },
        _ => {},
    }
}

/// A collection matches `q` when its lower-cased name contains `q` or one
/// of its items matches.
pub open spec fn collection_matches(c: Collection, q: Seq<char>) -> bool {
    occurs_in(lowercase(c.name@), q) || items_match(c.items@, q, 0)
}

fn any_item_matches(items: &[CollectionItem], query: &str) -> (r: bool)
    ensures
        r == items_match(items@, query@, 0),
    decreases items@, 1int,
{
    let mut i: usize = 0;
    while i < items.len()
        invariant
            i <= items.len(),
            items_match(items@, query@, 0) == items_match(items@, query@, i as int),
        decreases items.len() - i,
    {
        assert(decreases_to!(items@ => items@[i as int]));
        if items[i].matches_query(query) {
            return true;
        }
        i = i + 1;
    }
    false
}

impl CollectionItem {
    /// Whether the item matches the lower-case search query `query`.
    pub fn matches_query(&self, query: &str) -> (r: bool)
        ensures
            r == item_matches(*self, query@),
        decreases *self, 0int,
    {
        match self {
            CollectionItem::Request(r) => contains_text(to_lowercase(r.name.as_str()).as_str(), query),
            CollectionItem::Folder(f) => {
                if contains_text(to_lowercase(f.name.as_str()).as_str(), query) {
                    return true;
                }
                assert(decreases_to!(*self => f.items@));
                any_item_matches(f.items.as_slice(), query)
            },
        }
    }
}

impl Collection {
    /// Whether the collection matches the lower-case search query `query`.
    pub fn matches_query(&self, query: &str) -> (r: bool)
        ensures
            r == collection_matches(*self, query@),
    {
        contains_text(to_lowercase(self.name.as_str()).as_str(), query) || any_item_matches(
            self.items.as_slice(),
            query,
        )
    }
}

// ---------------------------------------------------------------------------
// Editing a folder in place
// ---------------------------------------------------------------------------

/// What the folder settings form saves.
pub struct FolderSettings {
    pub name: String,
    pub description: String,
    pub headers: Vec<KeyValue>,
    pub variables: Vec<Variable>,
    pub auth: AuthConfig,
}

/// An edit of one folder.
pub enum FolderEdit {
    /// A change from the folder's auth controls (defaults are then filled in).
    Auth(AuthChange),
    /// Saving the settings form; a blank name keeps the old one.
    Settings(FolderSettings),
}

/// `n` is the folder `o` after `edit`; its contents are untouched.
pub open spec fn folder_edited(o: Folder, n: Folder, edit: FolderEdit) -> bool {
    &&& n.id == o.id
    &&& n.items@ == o.items@
    &&& match edit {
        FolderEdit::Auth(c) => {
            &&& n.name == o.name
            &&& n.description == o.description
            &&& n.headers@ == o.headers@
            &&& n.variables@ == o.variables@
            &&& with_auth_defaults(auth_changed(o.auth, c), n.auth)
        },
        FolderEdit::Settings(st) => {
            &&& n.name@ == (if trim(st.name@).len() == 0 {
                o.name@
            } else {
                st.name@
            })
            &&& n.description == st.description
            &&& n.headers@ == st.headers@
            &&& n.variables@ == st.variables@
            &&& n.auth == st.auth
        },
    }
}

/// `n` is `o` with the first folder with the id `id` edited and nothing
/// else changed.
pub open spec fn item_edited(o: CollectionItem, n: CollectionItem, id: Seq<char>, edit: FolderEdit) -> bool
    decreases o, 0int,
{
    match o {
        CollectionItem::Request(_) => n == o,
        CollectionItem::Folder(fo) => match n {
            CollectionItem::Request(_) => false,
            CollectionItem::Folder(fnew) => if fo.id@ == id {
                folder_edited(fo, fnew, edit)
            } else {
                &&& fnew.id == fo.id
                &&& fnew.name == fo.name
                &&& fnew.description == fo.description
                &&& fnew.headers@ == fo.headers@
                &&& fnew.variables@ == fo.variables@
                &&& fnew.auth == fo.auth
                &&& fnew.items@.len() == fo.items@.len()
                &&& items_edited(fo.items@, fnew.items@, id, edit, 0)
            },
        },
    }
}

/// From position `k` on, `n` is `o` with the first folder with the id `id`
/// edited and nothing else changed.
pub open spec fn items_edited(
    o: Seq<CollectionItem>,
    n: Seq<CollectionItem>,
    id: Seq<char>,
    edit: FolderEdit,
    k: int,
) -> bool
    decreases o, o.len() - k,
{
    if k < 0 || k >= o.len() {
        true
    } else if item_folder(o[k], id) is Some {
        &&& item_edited(o[k], n[k], id, edit)
        &&& forall|j: int| k < j < o.len() ==> n[j] == o[j]
    } else {
        n[k] == o[k] && items_edited(o, n, id, edit, k + 1)
    }
}

/// Applies `edit` to `f`.
fn edit_folder(f: &mut Folder, edit: &FolderEdit)
    ensures
        folder_edited(*old(f), *final(f), *edit),
{
    match edit {
        FolderEdit::Auth(c) => {
            let change = match c {
                AuthChange::Enabled(b) => AuthChange::Enabled(*b),
                AuthChange::Scheme(t) => AuthChange::Scheme(*t),
                AuthChange::FolderScheme(b, t) => AuthChange::FolderScheme(*b, *t),
                AuthChange::ApiKeyInHeader(b) => AuthChange::ApiKeyInHeader(*b),
                AuthChange::JwtAlgorithm(s) => AuthChange::JwtAlgorithm(s.clone()),
                AuthChange::JwtSecretBase64(b) => AuthChange::JwtSecretBase64(*b),
                AuthChange::GrantType(s) => AuthChange::GrantType(s.clone()),
                AuthChange::TokenTarget(s) => AuthChange::TokenTarget(s.clone()),
                AuthChange::ResponseType(s) => AuthChange::ResponseType(s.clone()),
                AuthChange::SendCredentials(s) => AuthChange::SendCredentials(s.clone()),
                AuthChange::UsePkce(b) => AuthChange::UsePkce(*b),
            };
            assert(change == *c);
            update_auth_config(&mut f.auth, change);
        },
        FolderEdit::Settings(st) => {
            if !trimmed(st.name.as_str()).as_str().is_empty() {
                f.name = st.name.clone();
            }
            f.description = st.description.clone();
            let headers = st.headers.clone();
            assert(headers@ =~= st.headers@);
            f.headers = headers;
            let variables = st.variables.clone();
            assert(variables@ =~= st.variables@);
            f.variables = variables;
            f.auth = st.auth.clone();
        },
    }
}

/// Whether `item` is, or holds, a folder with the id `id`.
fn item_holds_folder(item: &CollectionItem, id: &str, key: &String) -> (r: bool)
    requires
        key@ == id@,
    ensures
        r == item_folder(*item, id@) is Some,
{
    match item {
        CollectionItem::Folder(f) => f.id == *key || find_folder_in_items(f.items.as_slice(), id).is_some(),
        CollectionItem::Request(_) => false,
    }
}

/// Edits the first folder with the id `id` in `items`, at any depth, and
/// tells whether there was one.
pub fn edit_folder_in_items(items: &mut Vec<CollectionItem>, id: &str, edit: &FolderEdit) -> (found: bool)
    ensures
        found == items_folder(old(items)@, id@, 0) is Some,
        final(items)@.len() == old(items)@.len(),
        items_edited(old(items)@, final(items)@, id@, *edit, 0),
    decreases old(items)@,
{
    let key = own(id);
    let ghost orig = items@;
    let mut i: usize = 0;
    while i < items.len()
        invariant
            i <= items.len(),
            key@ == id@,
            items@ == orig,
            orig == old(items)@,
            forall|j: int| 0 <= j < i ==> item_folder(#[trigger] orig[j], id@) is None,
        decreases items.len() - i,
    {
        if item_holds_folder(&items[i], id, &key) {
            let item = items.remove(i);
            assert(item == orig[i as int]);
            let edited = match item {
                CollectionItem::Folder(mut f) => {
                    if f.id == key {
                        edit_folder(&mut f, edit);
                    } else {
                        assert(decreases_to!(orig => f.items@));
                        let inner = edit_folder_in_items(&mut f.items, id, edit);
                    }
                    CollectionItem::Folder(f)
                },
                CollectionItem::Request(r) => CollectionItem::Request(r),
            };
            assert(item_edited(orig[i as int], edited, id@, *edit));
            items.insert(i, edited);
            assert(items@ == orig.update(i as int, edited));
            proof {
                lemma_items_edited_prefix(orig, items@, id@, *edit, 0, i as int);
                lemma_items_folder_skip(orig, id@, 0, i as int);
            }
            return true;
        }
        i = i + 1;
    }
    proof {
        lemma_items_edited_none(orig, id@, *edit, 0);
        lemma_items_folder_skip(orig, id@, 0, orig.len() as int);
    }
    false
}

/// Items without the folder can be skipped when searching for it.
proof fn lemma_items_folder_skip(o: Seq<CollectionItem>, id: Seq<char>, k: int, i: int)
    requires
        0 <= k <= i <= o.len(),
        forall|j: int| k <= j < i ==> item_folder(#[trigger] o[j], id) is None,
    ensures
        items_folder(o, id, k) == items_folder(o, id, i),
    decreases i - k,
{
    if k < i {
        lemma_items_folder_skip(o, id, k + 1, i);
    }
}

/// With no folder to edit from `k` on, the unchanged list is the edited one.
proof fn lemma_items_edited_none(o: Seq<CollectionItem>, id: Seq<char>, edit: FolderEdit, k: int)
    requires
        0 <= k,
        forall|j: int| k <= j < o.len() ==> item_folder(#[trigger] o[j], id) is None,
    ensures
        items_edited(o, o, id, edit, k),
    decreases o.len() - k,
{
    if k < o.len() {
        lemma_items_edited_none(o, id, edit, k + 1);
    }
}

/// Replacing the first item that holds the folder by its edited form edits
/// the list.
proof fn lemma_items_edited_prefix(
    o: Seq<CollectionItem>,
    n: Seq<CollectionItem>,
    id: Seq<char>,
    edit: FolderEdit,
    k: int,
    i: int,
)
    requires
        0 <= k <= i < o.len(),
        n == o.update(i, n[i]),
        item_folder(o[i], id) is Some,
        item_edited(o[i], n[i], id, edit),
        forall|j: int| k <= j < i ==> item_folder(#[trigger] o[j], id) is None,
    ensures
        items_edited(o, n, id, edit, k),
    decreases i - k,
{
    if k < i {
        lemma_items_edited_prefix(o, n, id, edit, k + 1, i);
    }
}

} // verus!
