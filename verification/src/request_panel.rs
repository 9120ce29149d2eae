//! The request editor's logic: which tab is open, how the URL's query and
//! path parameters relate to the parameter rows, and how form components
//! are decoded.
use vstd::prelude::*;
use vstd::utf8::*;

use crate::auth::AuthInputs;
use crate::body::MultipartRow;
use crate::auth::{auth_type_label, auth_type_text};
use crate::body::{body_type_label, body_type_text};
use crate::models::{AuthType, BodyType, FormDataPart, KeyValue};
use crate::text::{
    ascii_alnum, decimal, decimal_text, is_ascii_alnum, trim, trim_bounds, chars_of, find_char, lemma_char_index_from, own,
    push_char, push_range, push_str, string_of_range,
};
use crate::url::{
    decode_component, form_decode_bytes, from_utf8_lossy, has_param_key, hex_value,
    is_placeholder_char, is_placeholder_name, lemma_char_index_suffix, lemma_form_decode_plain,
    normalized_pair, normalized_query, normalized_url, pair_key, pair_value, placeholder_applies,
    query_changes, sub_chars,
};

verus! {

/// The tabs of the request editor, in the order the tab bar shows them.
#[derive(Clone, Copy, Debug, PartialEq, Eq, Structural)]
pub enum RequestTab {
    Body,
    Params,
    Headers,
    Auth,
    Info,
}

/// The position of a tab in the tab bar.
pub open spec fn tab_position(t: RequestTab) -> usize {
    match t {
        RequestTab::Body => 0,
        RequestTab::Params => 1,
        RequestTab::Headers => 2,
        RequestTab::Auth => 3,
        RequestTab::Info => 4,
    }
}

/// The tab at a position of the tab bar; positions past the end give `Info`.
pub open spec fn tab_at(i: usize) -> RequestTab {
    if i == 0 {
        RequestTab::Body
    } else if i == 1 {
        RequestTab::Params
    } else if i == 2 {
        RequestTab::Headers
    } else if i == 3 {
        RequestTab::Auth
    } else {
        RequestTab::Info
    }
}

impl RequestTab {
    pub fn index(&self) -> (r: usize)
        ensures
            r == tab_position(*self),
    {
        match self {
            RequestTab::Body => 0,
            RequestTab::Params => 1,
            RequestTab::Headers => 2,
            RequestTab::Auth => 3,
            RequestTab::Info => 4,
        }
    }

    pub fn from_index(i: usize) -> (r: Self)
        ensures
            r == tab_at(i),
    {
        match i {
            0 => RequestTab::Body,
            1 => RequestTab::Params,
            2 => RequestTab::Headers,
            3 => RequestTab::Auth,
            _ => RequestTab::Info,
        }
    }
}

/// Selecting the tab at a tab's own position gives that tab back, and each
/// position of the bar selects the tab shown there.
pub proof fn law_tab_index_round_trip(t: RequestTab, i: usize)
    ensures
        tab_at(tab_position(t)) == t,
        i < 5 ==> tab_position(tab_at(i)) == i,
{
}


// ---------------------------------------------------------------------------
// `{{variable}}` and `:param` recognition
// ---------------------------------------------------------------------------

/// The first position `i >= k` where `a` is directly followed by `b`.
pub open spec fn pair_index_from(s: Seq<char>, a: char, b: char, k: int) -> Option<int>
    decreases s.len() - k,
{
    if k < 0 || k + 1 >= s.len() {
        None
    } else if s[k] == a && s[k + 1] == b {
        Some(k)
    } else {
        pair_index_from(s, a, b, k + 1)
    }
}

pub proof fn lemma_pair_index_from(s: Seq<char>, a: char, b: char, k: int)
    requires
        0 <= k,
    ensures
        match pair_index_from(s, a, b, k) {
            Some(i) => k <= i && i + 1 < s.len() && s[i] == a && s[i + 1] == b,
            None => true,
        },
    decreases s.len() - k,
{
    if k + 1 < s.len() && !(s[k] == a && s[k + 1] == b) {
        lemma_pair_index_from(s, a, b, k + 1);
    }
}

/// The first position at or after `from` where `a` is followed by `b`.
pub fn find_pair(v: &Vec<char>, from: usize, a: char, b: char) -> (r: Option<usize>)
    ensures
        match r {
            Some(i) => pair_index_from(v@, a, b, from as int) == Some(i as int),
            None => pair_index_from(v@, a, b, from as int) is None,
        },
        r matches Some(i) ==> from <= i && i + 1 < v.len() && v@[i as int] == a && v@[i + 1] == b,
{
    proof {
        lemma_pair_index_from(v@, a, b, from as int);
    }
    let mut i = from;
    while i < v.len() && v.len() - i > 1
        invariant
            from <= i,
            pair_index_from(v@, a, b, from as int) == pair_index_from(v@, a, b, i as int),
        decreases v.len() - i,
    {
        if v[i] == a && v[i + 1] == b {
            return Some(i);
        }
        i = i + 1;
    }
    None
}

/// A character allowed in a `{{variable}}` name.
pub open spec fn is_variable_char(c: char) -> bool {
    is_ascii_alnum(c) || c == '_' || c == '-' || c == '.'
}

/// A `{{variable}}` name: non-empty, not starting with `$`, made of ASCII
/// letters, digits, `_`, `-` and `.`.
pub open spec fn is_variable_name(name: Seq<char>) -> bool {
    &&& name.len() > 0
    &&& name[0] != '$'
    &&& forall|i: int| 0 <= i < name.len() ==> is_variable_char(#[trigger] name[i])
}

/// The distinct valid names of the `{{...}}` spans from position `k` on,
/// appended to `names` in order of appearance.
pub open spec fn variable_names_from(s: Seq<char>, k: int, names: Seq<Seq<char>>) -> Seq<Seq<char>>
    decreases s.len() - k,
{
    match pair_index_from(s, '{', '{', k) {
        None => names,
        Some(st) => match pair_index_from(s, '}', '}', st + 2) {
            None => names,
            Some(e) => if 0 <= k <= st && st + 2 <= e && e + 2 <= s.len() {
                let name = trim(s.subrange(st + 2, e));
                let next = if is_variable_name(name) && !names.contains(name) {
                    names.push(name)
                } else {
                    names
                };
                variable_names_from(s, e + 2, next)
            } else {
                names
            },
        },
    }
}

/// A character allowed in a `:param` path parameter name.
pub open spec fn is_path_param_char(c: char) -> bool {
    is_ascii_alnum(c) || c == '_' || c == '-'
}

/// The character position of `s` whose encoding starts at byte `b` of
/// the UTF-8 encoding of `s`: the number of characters encoded before it.
pub open spec fn char_pos_of_byte(s: Seq<char>, b: int) -> int {
    decode_utf8(encode_utf8(s).take(b)).len() as int
}

/// Position `i` holds the `:` of a path parameter: a name character
/// follows it, and it starts the text or follows `/` or `=`.
pub open spec fn is_path_param_colon(s: Seq<char>, i: int) -> bool {
    &&& 0 <= i
    &&& i + 1 < s.len()
    &&& is_path_param_char(s[i + 1])
    &&& (i == 0 || s[i - 1] == '/' || s[i - 1] == '=')
}

/// The end of the run of name characters starting at `j`.
pub open spec fn name_run_end(s: Seq<char>, j: int) -> int
    decreases s.len() - j,
{
    if 0 <= j < s.len() && is_path_param_char(s[j]) {
        name_run_end(s, j + 1)
    } else {
        j
    }
}

pub proof fn lemma_name_run_end(s: Seq<char>, j: int)
    requires
        0 <= j <= s.len(),
    ensures
        j <= name_run_end(s, j) <= s.len(),
        forall|m: int| j <= m < name_run_end(s, j) ==> is_path_param_char(#[trigger] s[m]),
        name_run_end(s, j) == s.len() || !is_path_param_char(s[name_run_end(s, j)]),
    decreases s.len() - j,
{
    if j < s.len() && is_path_param_char(s[j]) {
        lemma_name_run_end(s, j + 1);
    }
}

/// A piece of the URL as the URL bar draws it.
pub enum UrlSegment {
    Text(String),
    Variable(String),
    PathParam(String),
}

/// The text of a URL piece: plain text, a `{{variable}}` name or a
/// `:param` name.
pub enum SegmentText {
    Text(Seq<char>),
    Variable(Seq<char>),
    PathParam(Seq<char>),
}

impl View for UrlSegment {
    type V = SegmentText;

    open spec fn view(&self) -> SegmentText {
        match self {
            UrlSegment::Text(t) => SegmentText::Text(t@),
            UrlSegment::Variable(t) => SegmentText::Variable(t@),
            UrlSegment::PathParam(t) => SegmentText::PathParam(t@),
        }
    }
}

pub open spec fn segment_views(v: Seq<UrlSegment>) -> Seq<SegmentText> {
    v.map_values(|x: UrlSegment| x@)
}

/// The pending plain text `s[t..i]`, if any.
pub open spec fn pending_text(s: Seq<char>, t: int, i: int) -> Seq<SegmentText> {
    if t < i {
        seq![SegmentText::Text(s.subrange(t, i))]
    } else {
        Seq::empty()
    }
}

/// The pieces of `s` from position `i`, with plain text pending since `t`:
/// valid `{{name}}` spans become variables, `:name` path parameters become
/// parameters, the rest is plain text. A `{{...}}` span with an invalid
/// name stays in the plain text.
pub open spec fn segments_from(s: Seq<char>, i: int, t: int) -> Seq<SegmentText>
    decreases s.len() - i,
{
    if i < 0 || t < 0 || t > i || i >= s.len() {
        if 0 <= t < s.len() {
            seq![SegmentText::Text(s.subrange(t, s.len() as int))]
        } else {
            Seq::empty()
        }
    } else if s[i] == '{' && i + 1 < s.len() && s[i + 1] == '{' && pair_index_from(
        s,
        '}',
        '}',
        i + 2,
    ) is Some && i + 2 <= pair_index_from(s, '}', '}', i + 2)->0 && pair_index_from(
        s,
        '}',
        '}',
        i + 2,
    )->0 + 2 <= s.len() {
        let e = pair_index_from(s, '}', '}', i + 2)->0;
        let name = trim(s.subrange(i + 2, e));
        if is_variable_name(name) {
            pending_text(s, t, i) + seq![SegmentText::Variable(name)] + segments_from(s, e + 2, e + 2)
        } else {
            segments_from(s, e + 2, t)
        }
    } else if s[i] == ':' && is_path_param_colon(s, i) && i + 1 < name_run_end(s, i + 1) <= s.len() {
        let ne = name_run_end(s, i + 1);
        pending_text(s, t, i) + seq![SegmentText::PathParam(s.subrange(i + 1, ne))]
            + segments_from(s, ne, ne)
    } else {
        segments_from(s, i + 1, t)
    }
}

// ---------------------------------------------------------------------------
// Path parameter rows
// ---------------------------------------------------------------------------

/// The texts of a list of strings.
pub open spec fn texts(v: Seq<String>) -> Seq<Seq<char>> {
    v.map_values(|x: String| x@)
}

/// Whether some entry of `ext` is strictly longer than `k` and starts with it.
pub open spec fn extends_some(ext: Seq<Seq<char>>, k: Seq<char>) -> bool {
    exists|i: int|
        0 <= i < ext.len() && k.len() < ext[i].len() && #[trigger] ext[i].take(k.len() as int) == k
}

/// A parameter row left over from an earlier version of the URL: its
/// trimmed key is not a current path parameter, and it either was one
/// before or is a blank row whose key is a strict prefix of a current one.
pub open spec fn stale_row(
    key: Seq<char>,
    value: Seq<char>,
    ext: Seq<Seq<char>>,
    prev: Seq<Seq<char>>,
) -> bool {
    let k = trim(key);
    if k.len() == 0 || ext.contains(k) {
        false
    } else if prev.contains(k) {
        true
    } else {
        trim(value).len() == 0 && extends_some(ext, k)
    }
}

/// A row as plain values: key, value, enabled.
pub type RowText = (Seq<char>, Seq<char>, bool);

pub open spec fn row_text(r: ParamRow) -> RowText {
    (r.key@, r.value@, r.enabled)
}

pub open spec fn row_texts(rows: Seq<ParamRow>) -> Seq<RowText> {
    rows.map_values(|r: ParamRow| row_text(r))
}

pub open spec fn keys_of(rows: Seq<RowText>) -> Seq<Seq<char>> {
    rows.map_values(|r: RowText| r.0)
}

/// The rows that survive a URL change: stale rows go, and of the rows
/// whose key is a current path parameter only the first one per key stays
/// (`seen` holds the keys already kept).
pub open spec fn retained_rows(
    rows: Seq<RowText>,
    ext: Seq<Seq<char>>,
    prev: Seq<Seq<char>>,
    seen: Seq<Seq<char>>,
) -> Seq<RowText>
    decreases rows.len(),
{
    if rows.len() == 0 {
        rows
    } else {
        let r = rows[0];
        let rest = rows.drop_first();
        if stale_row(r.0, r.1, ext, prev) {
            retained_rows(rest, ext, prev, seen)
        } else if ext.contains(r.0) && seen.contains(r.0) {
            retained_rows(rest, ext, prev, seen)
        } else if ext.contains(r.0) {
            seq![r] + retained_rows(rest, ext, prev, seen.push(r.0))
        } else {
            seq![r] + retained_rows(rest, ext, prev, seen)
        }
    }
}

/// The path parameters that still need a row, in URL order.
pub open spec fn added_keys(ext: Seq<Seq<char>>, current: Seq<Seq<char>>) -> Seq<Seq<char>>
    decreases ext.len(),
{
    if ext.len() == 0 {
        ext
    } else if current.contains(ext[0]) {
        added_keys(ext.drop_first(), current)
    } else {
        seq![ext[0]] + added_keys(ext.drop_first(), current.push(ext[0]))
    }
}

/// A fresh, enabled, blank row for a path parameter.
pub open spec fn blank_row(k: Seq<char>) -> RowText {
    (k, Seq::empty(), true)
}

/// The parameter rows after a URL change: the retained rows, then a blank
/// row for every path parameter that has none.
pub open spec fn synced_rows(
    rows: Seq<RowText>,
    ext: Seq<Seq<char>>,
    prev: Seq<Seq<char>>,
) -> Seq<RowText> {
    let kept = retained_rows(rows, ext, prev, Seq::empty());
    kept + added_keys(ext, keys_of(kept)).map_values(|k: Seq<char>| blank_row(k))
}

/// Whether the sync drops or adds a row.
pub open spec fn sync_changes(rows: Seq<RowText>, ext: Seq<Seq<char>>, prev: Seq<Seq<char>>) -> bool {
    let kept = retained_rows(rows, ext, prev, Seq::empty());
    kept.len() < rows.len() || added_keys(ext, keys_of(kept)).len() > 0
}

impl Clone for ParamRow {
    fn clone(&self) -> (r: Self)
        ensures
            r == *self,
    {
        ParamRow { key: self.key.clone(), value: self.value.clone(), enabled: self.enabled }
    }
}

/// Whether `list` holds the text `s`.
pub fn list_contains(list: &[String], s: &String) -> (r: bool)
    ensures
        r == texts(list@).contains(s@),
{
    let mut i: usize = 0;
    while i < list.len()
        invariant
            i <= list.len(),
            forall|j: int| 0 <= j < i ==> #[trigger] list@[j]@ != s@,
        decreases list.len() - i,
    {
        if list[i] == *s {
            assert(texts(list@)[i as int] == s@);
            return true;
        }
        i = i + 1;
    }
    assert forall|j: int| 0 <= j < texts(list@).len() implies texts(list@)[j] != s@ by {
        assert(texts(list@)[j] == list@[j]@);
    }
    false
}

/// Whether `p` is strictly longer than `k` and starts with it.
fn strict_prefix(k: &Vec<char>, p: &String) -> (r: bool)
    ensures
        r == (k@.len() < p@.len() && p@.take(k@.len() as int) == k@),
{
    let pv = chars_of(p.as_str());
    if k.len() >= pv.len() {
        return false;
    }
    let mut i: usize = 0;
    while i < k.len()
        invariant
            i <= k.len() < pv.len(),
            pv@ == p@,
            forall|j: int| 0 <= j < i ==> k@[j] == pv@[j],
        decreases k.len() - i,
    {
        if k[i] != pv[i] {
            assert(p@.take(k@.len() as int)[i as int] != k@[i as int]);
            return false;
        }
        i = i + 1;
    }
    assert(p@.take(k@.len() as int) == k@);
    true
}

// ---------------------------------------------------------------------------
// Syncing path parameter rows twice changes nothing
// ---------------------------------------------------------------------------

/// The keys of `x` that are path parameters occur once each and not in `seen`.
pub open spec fn path_keys_distinct(x: Seq<RowText>, ext: Seq<Seq<char>>, seen: Seq<Seq<char>>) -> bool {
    &&& forall|i: int, j: int|
        0 <= i < j < x.len() && ext.contains(x[i].0) ==> #[trigger] x[i].0 != #[trigger] x[j].0
    &&& forall|i: int| 0 <= i < x.len() && ext.contains(x[i].0) ==> !seen.contains(#[trigger] x[i].0)
}

proof fn lemma_retained_props(
    rows: Seq<RowText>,
    ext: Seq<Seq<char>>,
    prev: Seq<Seq<char>>,
    seen: Seq<Seq<char>>,
)
    ensures
        forall|i: int|
            0 <= i < retained_rows(rows, ext, prev, seen).len() ==> !stale_row(
                #[trigger] retained_rows(rows, ext, prev, seen)[i].0,
                retained_rows(rows, ext, prev, seen)[i].1,
                ext,
                prev,
            ),
        path_keys_distinct(retained_rows(rows, ext, prev, seen), ext, seen),
    decreases rows.len(),
{
    if rows.len() > 0 {
        let r = rows[0];
        let rest = rows.drop_first();
        if stale_row(r.0, r.1, ext, prev) {
            lemma_retained_props(rest, ext, prev, seen);
        } else if ext.contains(r.0) && seen.contains(r.0) {
            lemma_retained_props(rest, ext, prev, seen);
        } else if ext.contains(r.0) {
            let seen2 = seen.push(r.0);
            lemma_retained_props(rest, ext, prev, seen2);
            let tail = retained_rows(rest, ext, prev, seen2);
            let x = seq![r] + tail;
            assert(retained_rows(rows, ext, prev, seen) == x);
            assert forall|i: int| 0 <= i < x.len() implies !stale_row(
                #[trigger] x[i].0,
                x[i].1,
                ext,
                prev,
            ) by {
                if i > 0 {
                    assert(x[i] == tail[i - 1]);
                }
            }
            assert forall|i: int, j: int|
                0 <= i < j < x.len() && ext.contains(x[i].0) implies #[trigger] x[i].0
                != #[trigger] x[j].0 by {
                assert(x[j] == tail[j - 1]);
                if i == 0 {
                    assert(seen2.contains(r.0)) by {
                        assert(seen2[seen.len() as int] == r.0);
                    }
                    assert(ext.contains(tail[j - 1].0) ==> !seen2.contains(tail[j - 1].0));
                } else {
                    assert(x[i] == tail[i - 1]);
                }
            }
            assert forall|i: int| 0 <= i < x.len() && ext.contains(x[i].0) implies !seen.contains(
                #[trigger] x[i].0,
            ) by {
                if i > 0 {
                    assert(x[i] == tail[i - 1]);
                    if seen.contains(x[i].0) {
                        let w = choose|w: int| 0 <= w < seen.len() && seen[w] == x[i].0;
                        assert(seen2[w] == x[i].0);
                    }
                }
            }
        } else {
            lemma_retained_props(rest, ext, prev, seen);
            let tail = retained_rows(rest, ext, prev, seen);
            let x = seq![r] + tail;
            assert(retained_rows(rows, ext, prev, seen) == x);
            assert forall|i: int| 0 <= i < x.len() implies !stale_row(
                #[trigger] x[i].0,
                x[i].1,
                ext,
                prev,
            ) by {
                if i > 0 {
                    assert(x[i] == tail[i - 1]);
                }
            }
            assert forall|i: int, j: int|
                0 <= i < j < x.len() && ext.contains(x[i].0) implies #[trigger] x[i].0
                != #[trigger] x[j].0 by {
                assert(x[j] == tail[j - 1]);
                if i > 0 {
                    assert(x[i] == tail[i - 1]);
                }
            }
            assert forall|i: int| 0 <= i < x.len() && ext.contains(x[i].0) implies !seen.contains(
                #[trigger] x[i].0,
            ) by {
                if i > 0 {
                    assert(x[i] == tail[i - 1]);
                }
            }
        }
    }
}

/// A row that survives with the old path parameters as the previous ones
/// also survives with the current ones as the previous ones.
proof fn lemma_not_stale_again(k: Seq<char>, v: Seq<char>, ext: Seq<Seq<char>>, prev: Seq<Seq<char>>)
    requires
        !stale_row(k, v, ext, prev),
    ensures
        !stale_row(k, v, ext, ext),
{
}

proof fn lemma_added_props(ext: Seq<Seq<char>>, cur: Seq<Seq<char>>)
    ensures
        forall|i: int|
            0 <= i < added_keys(ext, cur).len() ==> ext.contains(#[trigger] added_keys(ext, cur)[i])
                && !cur.contains(added_keys(ext, cur)[i]),
        forall|i: int, j: int|
            0 <= i < j < added_keys(ext, cur).len() ==> #[trigger] added_keys(ext, cur)[i]
                != #[trigger] added_keys(ext, cur)[j],
        forall|e: Seq<char>| #[trigger] ext.contains(e) ==> cur.contains(e) || added_keys(ext, cur).contains(e),
    decreases ext.len(),
{
    if ext.len() > 0 {
        let e0 = ext[0];
        let rest = ext.drop_first();
        assert forall|e: Seq<char>| rest.contains(e) implies ext.contains(e) by {
            let w = choose|w: int| 0 <= w < rest.len() && rest[w] == e;
            assert(ext[w + 1] == e);
        }
        if cur.contains(e0) {
            lemma_added_props(rest, cur);
            let a = added_keys(rest, cur);
            assert(added_keys(ext, cur) == a);
            assert forall|i: int| 0 <= i < a.len() implies ext.contains(#[trigger] a[i]) && !cur.contains(
                a[i],
            ) by {
                assert(rest.contains(a[i]));
            }
            assert forall|e: Seq<char>| #[trigger] ext.contains(e) implies cur.contains(e)
                || a.contains(e) by {
                let w = choose|w: int| 0 <= w < ext.len() && ext[w] == e;
                if w > 0 {
                    assert(rest[w - 1] == e);
                    assert(rest.contains(e));
                }
            }
        } else {
            let cur2 = cur.push(e0);
            lemma_added_props(rest, cur2);
            let tail = added_keys(rest, cur2);
            let a = seq![e0] + tail;
            assert(added_keys(ext, cur) == a);
            assert(cur2.contains(e0)) by {
                assert(cur2[cur.len() as int] == e0);
            }
            assert forall|i: int| 0 <= i < a.len() implies ext.contains(#[trigger] a[i]) && !cur.contains(
                a[i],
            ) by {
                if i == 0 {
                    assert(ext[0] == e0);
                } else {
                    assert(a[i] == tail[i - 1]);
                    if cur.contains(a[i]) {
                        let w = choose|w: int| 0 <= w < cur.len() && cur[w] == a[i];
                        assert(cur2[w] == a[i]);
                    }
                }
            }
            assert forall|i: int, j: int| 0 <= i < j < a.len() implies #[trigger] a[i] != #[trigger] a[j] by {
                assert(a[j] == tail[j - 1]);
                if i > 0 {
                    assert(a[i] == tail[i - 1]);
                }
            }
            assert forall|e: Seq<char>| #[trigger] ext.contains(e) implies cur.contains(e)
                || a.contains(e) by {
                let w = choose|w: int| 0 <= w < ext.len() && ext[w] == e;
                if w == 0 {
                    assert(a[0] == e);
                } else {
                    assert(rest[w - 1] == e);
                    assert(rest.contains(e));
                    if cur2.contains(e) && !cur.contains(e) {
                        let v = choose|v: int| 0 <= v < cur2.len() && cur2[v] == e;
                        if v < cur.len() {
                            assert(cur[v] == e);
                        }
                        assert(e == e0);
                        assert(a[0] == e);
                    } else if tail.contains(e) {
                        let v = choose|v: int| 0 <= v < tail.len() && tail[v] == e;
                        assert(a[v + 1] == e);
                    }
                }
            }
        }
    }
}

proof fn lemma_retained_fixpoint(x: Seq<RowText>, ext: Seq<Seq<char>>, seen: Seq<Seq<char>>)
    requires
        forall|i: int| 0 <= i < x.len() ==> !stale_row(#[trigger] x[i].0, x[i].1, ext, ext),
        path_keys_distinct(x, ext, seen),
    ensures
        retained_rows(x, ext, ext, seen) == x,
    decreases x.len(),
{
    if x.len() > 0 {
        let r = x[0];
        let rest = x.drop_first();
        assert(!stale_row(r.0, r.1, ext, ext));
        let seen2 = if ext.contains(r.0) { seen.push(r.0) } else { seen };
        assert forall|i: int| 0 <= i < rest.len() implies !stale_row(#[trigger] rest[i].0, rest[i].1, ext, ext) by {
            assert(rest[i] == x[i + 1]);
        }
        assert forall|i: int, j: int|
            0 <= i < j < rest.len() && ext.contains(rest[i].0) implies #[trigger] rest[i].0
            != #[trigger] rest[j].0 by {
            assert(rest[i] == x[i + 1]);
            assert(rest[j] == x[j + 1]);
        }
        assert forall|i: int| 0 <= i < rest.len() && ext.contains(rest[i].0) implies !seen2.contains(
            #[trigger] rest[i].0,
        ) by {
            assert(rest[i] == x[i + 1]);
            assert(x[0].0 != x[i + 1].0);
            if seen2.contains(rest[i].0) {
                let w = choose|w: int| 0 <= w < seen2.len() && seen2[w] == rest[i].0;
                if w < seen.len() {
                    assert(seen[w] == rest[i].0);
                }
            }
        }
        lemma_retained_fixpoint(rest, ext, seen2);
        assert(seq![r] + rest == x);
    }
}

proof fn lemma_added_none(ext: Seq<Seq<char>>, cur: Seq<Seq<char>>)
    requires
        forall|i: int| 0 <= i < ext.len() ==> cur.contains(#[trigger] ext[i]),
    ensures
        added_keys(ext, cur).len() == 0,
    decreases ext.len(),
{
    if ext.len() > 0 {
        assert(cur.contains(ext[0]));
        let rest = ext.drop_first();
        assert forall|i: int| 0 <= i < rest.len() implies cur.contains(#[trigger] rest[i]) by {
            assert(rest[i] == ext[i + 1]);
        }
        lemma_added_none(rest, cur);
    }
}

/// Syncing the rows with the same path parameters right after a sync keeps
/// them as they are and reports no change (path parameter names carry no
/// surrounding white space, as they come out of a URL).
pub proof fn law_sync_path_params_idempotent(
    rows: Seq<RowText>,
    ext: Seq<Seq<char>>,
    prev: Seq<Seq<char>>,
)
    requires
        forall|i: int| 0 <= i < ext.len() ==> trim(#[trigger] ext[i]) == ext[i],
    ensures
        synced_rows(synced_rows(rows, ext, prev), ext, ext) == synced_rows(rows, ext, prev),
        !sync_changes(synced_rows(rows, ext, prev), ext, ext),
{
    let kept = retained_rows(rows, ext, prev, Seq::empty());
    let cur = keys_of(kept);
    let a = added_keys(ext, cur);
    let blanks = a.map_values(|k: Seq<char>| blank_row(k));
    let s = kept + blanks;
    lemma_retained_props(rows, ext, prev, Seq::empty());
    lemma_added_props(ext, cur);
    assert forall|i: int| 0 <= i < s.len() implies !stale_row(#[trigger] s[i].0, s[i].1, ext, ext) by {
        if i < kept.len() {
            assert(s[i] == kept[i]);
            lemma_not_stale_again(kept[i].0, kept[i].1, ext, prev);
        } else {
            let k = a[i - kept.len()];
            assert(s[i] == blank_row(k));
            assert(ext.contains(k));
            let w = choose|w: int| 0 <= w < ext.len() && ext[w] == k;
            assert(trim(ext[w]) == ext[w]);
        }
    }
    assert forall|i: int, j: int|
        0 <= i < j < s.len() && ext.contains(s[i].0) implies #[trigger] s[i].0 != #[trigger] s[j].0 by {
        if j < kept.len() {
            assert(s[i] == kept[i] && s[j] == kept[j]);
        } else if i >= kept.len() {
            assert(s[i] == blank_row(a[i - kept.len()]));
            assert(s[j] == blank_row(a[j - kept.len()]));
        } else {
            assert(s[i] == kept[i]);
            assert(s[j] == blank_row(a[j - kept.len()]));
            assert(cur[i] == kept[i].0);
            assert(!cur.contains(a[j - kept.len()]));
        }
    }
    lemma_retained_fixpoint(s, ext, Seq::empty());
    let keys_s = keys_of(s);
    assert forall|i: int| 0 <= i < ext.len() implies keys_s.contains(#[trigger] ext[i]) by {
        let e = ext[i];
        assert(ext.contains(e));
        if cur.contains(e) {
            let w = choose|w: int| 0 <= w < cur.len() && cur[w] == e;
            assert(keys_s[w] == e);
        } else {
            assert(a.contains(e));
            let w = choose|w: int| 0 <= w < a.len() && a[w] == e;
            assert(s[kept.len() + w] == blank_row(a[w]));
            assert(keys_s[kept.len() + w] == e);
        }
    }
    lemma_added_none(ext, keys_s);
    assert(added_keys(ext, keys_s).map_values(|k: Seq<char>| blank_row(k)) =~= Seq::<RowText>::empty());
    assert(s + Seq::<RowText>::empty() == s);
}

/// One editable parameter row: key, value, and whether it is enabled.
pub struct ParamRow {
    pub key: String,
    pub value: String,
    pub enabled: bool,
}

/// A `{{variable}}` of the URL with the text of its value field.
pub struct UrlVariableRow {
    pub name: String,
    pub value: String,
}

/// The state of the request editor that its logic reads and changes: the
/// texts of its inputs and its rows.
pub struct RequestPanel {
    pub active_tab: RequestTab,
    pub url: String,
    pub body_text: String,
    pub auth_inputs: AuthInputs,
    pub url_variable_rows: Vec<UrlVariableRow>,
    pub hovered_url_variable: Option<String>,
    pub hovered_url_path_param: Option<String>,
    pub path_param_keys: Vec<String>,
    pub param_rows: Vec<ParamRow>,
    pub header_rows: Vec<ParamRow>,
    pub urlencoded_rows: Vec<ParamRow>,
    pub multipart_rows: Vec<MultipartRow>,
}

/// `s` with every carriage return and line feed turned into a space.
pub open spec fn single_line(s: Seq<char>) -> Seq<char> {
    Seq::new(s.len(), |i: int| if s[i] == '\r' || s[i] == '\n' { ' ' } else { s[i] })
}

impl RequestPanel {
    /// An editor on the body tab with empty inputs and no rows.
    pub(crate) fn blank() -> (r: RequestPanel)
        ensures
            r.active_tab == RequestTab::Body,
            r.url@.len() == 0,
            r.body_text@.len() == 0,
            r.auth_inputs.all_texts().len() == 25,
            forall|i: int| 0 <= i < 25 ==> (#[trigger] r.auth_inputs.all_texts()[i]).len() == 0,
            r.url_variable_rows@.len() == 0,
            r.hovered_url_variable is None,
            r.hovered_url_path_param is None,
            r.path_param_keys@.len() == 0,
            r.param_rows@.len() == 0,
            r.header_rows@.len() == 0,
            r.urlencoded_rows@.len() == 0,
            r.multipart_rows@.len() == 0,
    {
        RequestPanel {
            active_tab: RequestTab::Body,
            url: String::new(),
            body_text: String::new(),
            auth_inputs: AuthInputs {
                bearer_token: String::new(),
                bearer_prefix: String::new(),
                basic_username: String::new(),
                basic_password: String::new(),
                api_key_name: String::new(),
                api_key_value: String::new(),
                aws_access_key_id: String::new(),
                aws_secret_access_key: String::new(),
                aws_service: String::new(),
                aws_region: String::new(),
                aws_session_token: String::new(),
                jwt_secret: String::new(),
                jwt_payload: String::new(),
                oauth_client_id: String::new(),
                oauth_client_secret: String::new(),
                oauth_authorization_url: String::new(),
                oauth_access_token_url: String::new(),
                oauth_redirect_uri: String::new(),
                oauth_state: String::new(),
                oauth_audience: String::new(),
                oauth_username: String::new(),
                oauth_password: String::new(),
                oauth_scope: String::new(),
                oauth_header_name: String::new(),
                oauth_header_prefix: String::new(),
            },
            url_variable_rows: Vec::new(),
            hovered_url_variable: None,
            hovered_url_path_param: None,
            path_param_keys: Vec::new(),
            param_rows: Vec::new(),
            header_rows: Vec::new(),
            urlencoded_rows: Vec::new(),
            multipart_rows: Vec::new(),
        }
    }

    /// Whether `name` is a `{{variable}}` name.
    pub fn is_url_variable_name(name: &str) -> (r: bool)
        ensures
            r == is_variable_name(name@),
    {
        let v = chars_of(name);
        assert(v@.subrange(0, v@.len() as int) == v@);
        Self::variable_name_chars(&v, 0, v.len())
    }

    /// Whether `v[from..to]` is a `{{variable}}` name.
    fn variable_name_chars(v: &Vec<char>, from: usize, to: usize) -> (r: bool)
        requires
            from <= to <= v.len(),
        ensures
            r == is_variable_name(v@.subrange(from as int, to as int)),
    {
        let ghost n = v@.subrange(from as int, to as int);
        if from == to || v[from] == '$' {
            return false;
        }
        let mut i = from;
        while i < to
            invariant
                from <= i <= to <= v.len(),
                n == v@.subrange(from as int, to as int),
                forall|j: int| 0 <= j < i - from ==> is_variable_char(#[trigger] n[j]),
            decreases to - i,
        {
            let c = v[i];
            if !(ascii_alnum(c) || c == '_' || c == '-' || c == '.') {
                assert(n[i - from] == c);
                return false;
            }
            i = i + 1;
        }
        true
    }

    /// Whether `ch` may appear in a `:param` name.
    pub fn is_url_path_param_char(ch: char) -> (r: bool)
        ensures
            r == is_path_param_char(ch),
    {
        ascii_alnum(ch) || ch == '_' || ch == '-'
    }

    /// Whether the `:` at byte `colon_index` of `url` starts a path
    /// parameter.
    pub fn is_url_path_param_start(url: &str, colon_index: usize) -> (r: bool)
        requires
            colon_index < encode_utf8(url@).len(),
            encode_utf8(url@)[colon_index as int] == 58u8,
        ensures
            0 <= char_pos_of_byte(url@, colon_index as int) < url@.len(),
            r == is_path_param_colon(url@, char_pos_of_byte(url@, colon_index as int)),
    {
        let ghost bytes = encode_utf8(url@);
        proof {
            broadcast use encode_utf8_valid_utf8, encode_utf8_decode_utf8;

            is_char_boundary_iff_not_is_continuation_byte(bytes, colon_index as int);
            decode_utf8_split(bytes, colon_index as int);
        }
        let (before, after) = url.split_at(colon_index);
        proof {
            broadcast use encode_utf8_decode_utf8;

            assert(before@ == decode_utf8(bytes.subrange(0, colon_index as int)));
            assert(after@ == decode_utf8(bytes.subrange(colon_index as int, bytes.len() as int)));
            assert(bytes.take(colon_index as int) == bytes.subrange(0, colon_index as int));
            if after@.len() == 0 {
                assert(encode_utf8(after@) =~= Seq::<u8>::empty());
            }
        }
        let k = chars_of(before).len();
        let v = chars_of(url);
        Self::path_param_colon_at(&v, k)
    }

    fn path_param_colon_at(v: &Vec<char>, i: usize) -> (r: bool)
        requires
            i < v.len(),
        ensures
            r == is_path_param_colon(v@, i as int),
    {
        if i + 1 >= v.len() || !Self::is_url_path_param_char(v[i + 1]) {
            return false;
        }
        i == 0 || v[i - 1] == '/' || v[i - 1] == '='
    }

    /// The distinct valid names of the `{{...}}` spans of `text`, in order.
    pub fn extract_variable_names(text: &str) -> (r: Vec<String>)
        ensures
            texts(r@) == variable_names_from(text@, 0, Seq::empty()),
    {
        let v = chars_of(text);
        let mut names: Vec<String> = Vec::new();
        let mut k: usize = 0;
        assert(texts(names@) =~= Seq::<Seq<char>>::empty());
        loop
            invariant
                k <= v.len(),
                v@ == text@,
                variable_names_from(v@, 0, Seq::empty()) == variable_names_from(
                    v@,
                    k as int,
                    texts(names@),
                ),
            decreases v.len() - k,
        {
            let st = match find_pair(&v, k, '{', '{') {
                Some(st) => st,
                None => {
                    return names;
                },
            };
            let e = match find_pair(&v, st + 2, '}', '}') {
                Some(e) => e,
                None => {
                    return names;
                },
            };
            let (a, b) = trim_bounds(&sub_chars(&v, st + 2, e));
            let inner = sub_chars(&v, st + 2, e);
            let name = string_of_range(&inner, a, b);
            let ghost old_names = texts(names@);
            let ghost nm = trim(v@.subrange(st + 2, e as int));
            assert(name@ == nm);
            if Self::is_url_variable_name(name.as_str()) && !list_contains(names.as_slice(), &name) {
                names.push(name);
                assert(texts(names@) == old_names.push(trim(v@.subrange(st + 2, e as int))));
            }
            assert(variable_names_from(v@, k as int, old_names) == variable_names_from(
                v@,
                e + 2,
                texts(names@),
            ));
            k = e + 2;
        }
    }

    /// The pieces of `url` as the URL bar draws them: plain text,
    /// `{{variable}}` chips and `:param` chips.
    pub fn url_segments(url: &str) -> (r: Vec<UrlSegment>)
        ensures
            segment_views(r@) == segments_from(url@, 0, 0),
    {
        let v = chars_of(url);
        let mut out: Vec<UrlSegment> = Vec::new();
        let mut i: usize = 0;
        let mut t: usize = 0;
        while i < v.len()
            invariant
                t <= i <= v.len(),
                v@ == url@,
                segments_from(v@, 0, 0) == segment_views(out@) + segments_from(v@, i as int, t as int),
            decreases v.len() - i,
        {
            let ghost before = segment_views(out@);
            if v[i] == '{' && i + 1 < v.len() && v[i + 1] == '{' {
                match find_pair(&v, i + 2, '}', '}') {
                    Some(e) => {
                        let inner = sub_chars(&v, i + 2, e);
                        let (a, b) = trim_bounds(&inner);
                        let name = string_of_range(&inner, a, b);
                        if Self::is_url_variable_name(name.as_str()) {
                            if t < i {
                                out.push(UrlSegment::Text(string_of_range(&v, t, i)));
                            }
                            out.push(UrlSegment::Variable(name));
                            assert(segment_views(out@) == before + pending_text(v@, t as int, i as int)
                                + seq![SegmentText::Variable(trim(v@.subrange(i + 2, e as int)))]);
                            i = e + 2;
                            t = i;
                        } else {
                            assert(segments_from(v@, i as int, t as int) == segments_from(
                                v@,
                                e + 2,
                                t as int,
                            ));
                            i = e + 2;
                        }
                        continue;
                    },
                    None => {},
                }
            }
            if v[i] == ':' && Self::path_param_colon_at(&v, i) {
                proof {
                    lemma_name_run_end(v@, i + 1);
                }
                let mut ne = i + 1;
                while ne < v.len() && Self::is_url_path_param_char(v[ne])
                    invariant
                        i + 1 <= ne <= v.len(),
                        name_run_end(v@, i + 1) == name_run_end(v@, ne as int),
                    decreases v.len() - ne,
                {
                    ne = ne + 1;
                }
                if t < i {
                    out.push(UrlSegment::Text(string_of_range(&v, t, i)));
                }
                out.push(UrlSegment::PathParam(string_of_range(&v, i + 1, ne)));
                assert(segment_views(out@) == before + pending_text(v@, t as int, i as int) + seq![
                    SegmentText::PathParam(v@.subrange(i + 1, ne as int)),
                ]);
                i = ne;
                t = ne;
                continue;
            }
            i = i + 1;
        }
        if t < v.len() {
            out.push(UrlSegment::Text(string_of_range(&v, t, v.len())));
        }
        out
    }

    /// Whether a parameter row is left over from an earlier URL and should
    /// be removed (see `stale_row`).
    pub fn is_stale_path_param_row(
        key: &str,
        value: &str,
        extracted: &[String],
        previous_path_params: &[String],
    ) -> (r: bool)
        ensures
            r == stale_row(key@, value@, texts(extracted@), texts(previous_path_params@)),
    {
        let kv = chars_of(key);
        let (a, b) = trim_bounds(&kv);
        let k = string_of_range(&kv, a, b);
        if a == b || list_contains(extracted, &k) {
            return false;
        }
        if list_contains(previous_path_params, &k) {
            return true;
        }
        let vv = chars_of(value);
        let (c, d) = trim_bounds(&vv);
        if c != d {
            return false;
        }
        assert(trim(value@).len() == 0);
        assert(k@ == trim(key@));
        assert(!texts(extracted@).contains(trim(key@)));
        assert(!texts(previous_path_params@).contains(trim(key@)));
        let kc = sub_chars(&kv, a, b);
        let mut i: usize = 0;
        while i < extracted.len()
            invariant
                i <= extracted.len(),
                kc@ == trim(key@),
                kc@.len() > 0,
                trim(value@).len() == 0,
                !texts(extracted@).contains(trim(key@)),
                !texts(previous_path_params@).contains(trim(key@)),
                forall|j: int|
                    0 <= j < i ==> !(kc@.len() < texts(extracted@)[j].len() && #[trigger] texts(
                        extracted@,
                    )[j].take(kc@.len() as int) == kc@),
            decreases extracted.len() - i,
        {
            if strict_prefix(&kc, &extracted[i]) {
                assert(texts(extracted@)[i as int] == extracted@[i as int]@);
                assert(texts(extracted@)[i as int].take(kc@.len() as int) == kc@);
                assert(extends_some(texts(extracted@), trim(key@)));
                return true;
            }
            i = i + 1;
        }
        false
    }

    /// Brings the parameter rows in line with the URL's current path
    /// parameters `extracted`: stale rows and repeated rows of one path
    /// parameter go, a blank row is added for each path parameter without
    /// one, and `extracted` becomes the known set. Returns whether a row was
    /// removed or added.
    pub fn sync_path_param_rows(&mut self, extracted: &[String]) -> (changed: bool)
        ensures
            row_texts(final(self).param_rows@) == synced_rows(
                row_texts(old(self).param_rows@),
                texts(extracted@),
                texts(old(self).path_param_keys@),
            ),
            changed == sync_changes(
                row_texts(old(self).param_rows@),
                texts(extracted@),
                texts(old(self).path_param_keys@),
            ),
            texts(final(self).path_param_keys@) == texts(extracted@),
            final(self).active_tab == old(self).active_tab,
            final(self).url == old(self).url,
            final(self).body_text == old(self).body_text,
            final(self).auth_inputs == old(self).auth_inputs,
            final(self).url_variable_rows == old(self).url_variable_rows,
            final(self).hovered_url_variable == old(self).hovered_url_variable,
            final(self).hovered_url_path_param == old(self).hovered_url_path_param,
            final(self).header_rows == old(self).header_rows,
            final(self).urlencoded_rows == old(self).urlencoded_rows,
            final(self).multipart_rows == old(self).multipart_rows,
    {
        let ghost ext = texts(extracted@);
        let ghost prev = texts(self.path_param_keys@);
        let ghost all = row_texts(self.param_rows@);
        let mut rows: Vec<ParamRow> = Vec::new();
        std::mem::swap(&mut rows, &mut self.param_rows);
        let mut previous: Vec<String> = Vec::new();
        std::mem::swap(&mut previous, &mut self.path_param_keys);
        assert(row_texts(rows@) == all);
        assert(texts(previous@) == prev);

        let mut kept: Vec<ParamRow> = Vec::new();
        let mut seen: Vec<String> = Vec::new();
        let mut i: usize = 0;
        assert(all.skip(0) == all);
        assert(row_texts(kept@) =~= Seq::<RowText>::empty());
        assert(texts(seen@) =~= Seq::<Seq<char>>::empty());
        while i < rows.len()
            invariant
                i <= rows.len(),
                row_texts(rows@) == all,
                texts(previous@) == prev,
                texts(extracted@) == ext,
                retained_rows(all, ext, prev, Seq::empty()) == row_texts(kept@) + retained_rows(
                    all.skip(i as int),
                    ext,
                    prev,
                    texts(seen@),
                ),
                kept@.len() <= i,
            decreases rows.len() - i,
        {
            let ghost rest = all.skip(i as int);
            assert(rest[0] == row_text(rows@[i as int]));
            assert(rest.drop_first() == all.skip(i + 1));
            let ghost before = row_texts(kept@);
            let row = &rows[i];
            if Self::is_stale_path_param_row(
                row.key.as_str(),
                row.value.as_str(),
                extracted,
                previous.as_slice(),
            ) {
                i = i + 1;
                continue;
            }
            if list_contains(extracted, &row.key) {
                if list_contains(seen.as_slice(), &row.key) {
                    i = i + 1;
                    continue;
                }
                let ghost seen_before = texts(seen@);
                seen.push(row.key.clone());
                assert(texts(seen@) == seen_before.push(row.key@));
            }
            kept.push(row.clone());
            assert(row_texts(kept@) == before + seq![row_text(rows@[i as int])]);
            i = i + 1;
        }
        assert(all.skip(rows.len() as int) =~= Seq::<RowText>::empty());
        let ghost kept_texts = row_texts(kept@);
        assert(kept_texts == retained_rows(all, ext, prev, Seq::empty()));
        let mut changed = kept.len() < rows.len();

        let mut current: Vec<String> = Vec::new();
        let mut m: usize = 0;
        while m < kept.len()
            invariant
                m <= kept.len(),
                row_texts(kept@) == kept_texts,
                texts(current@) == keys_of(kept_texts).take(m as int),
            decreases kept.len() - m,
        {
            let ghost cb = texts(current@);
            current.push(kept[m].key.clone());
            assert(texts(current@) == cb.push(kept@[m as int].key@));
            assert(keys_of(kept_texts).take(m + 1) == keys_of(kept_texts).take(m as int).push(
                keys_of(kept_texts)[m as int],
            ));
            m = m + 1;
        }
        assert(keys_of(kept_texts).take(kept.len() as int) == keys_of(kept_texts));

        let ghost all_added = added_keys(ext, keys_of(kept_texts));
        let mut j: usize = 0;
        let ghost mut so_far: Seq<Seq<char>> = Seq::empty();
        assert(ext.skip(0) == ext);
        while j < extracted.len()
            invariant
                j <= extracted.len(),
                texts(extracted@) == ext,
                all_added == so_far + added_keys(ext.skip(j as int), texts(current@)),
                row_texts(kept@) == kept_texts + so_far.map_values(|k: Seq<char>| blank_row(k)),
                changed == (kept_texts.len() < all.len() || so_far.len() > 0),
            decreases extracted.len() - j,
        {
            let ghost rest = ext.skip(j as int);
            assert(rest[0] == extracted@[j as int]@);
            assert(rest.drop_first() == ext.skip(j + 1));
            if !list_contains(current.as_slice(), &extracted[j]) {
                let ghost cb = texts(current@);
                let ghost kb = row_texts(kept@);
                current.push(extracted[j].clone());
                assert(texts(current@) == cb.push(extracted@[j as int]@));
                kept.push(ParamRow { key: extracted[j].clone(), value: String::new(), enabled: true });
                proof {
                    let k = extracted@[j as int]@;
                    let nsf = so_far.push(k);
                    assert(nsf.map_values(|k: Seq<char>| blank_row(k)) == so_far.map_values(
                        |k: Seq<char>| blank_row(k),
                    ).push(blank_row(k)));
                    assert(row_texts(kept@) == kb.push(blank_row(k)));
                    assert(so_far + (seq![k] + added_keys(ext.skip(j + 1), cb.push(k))) == nsf
                        + added_keys(ext.skip(j + 1), cb.push(k)));
                    so_far = nsf;
                }
                changed = true;
            }
            j = j + 1;
        }
        assert(ext.skip(extracted.len() as int) =~= Seq::<Seq<char>>::empty());
        assert(so_far + Seq::<Seq<char>>::empty() == so_far);

        let mut keys: Vec<String> = Vec::new();
        let mut n: usize = 0;
        while n < extracted.len()
            invariant
                n <= extracted.len(),
                texts(keys@) == texts(extracted@).take(n as int),
            decreases extracted.len() - n,
        {
            let ghost kb = texts(keys@);
            keys.push(extracted[n].clone());
            assert(texts(keys@) == kb.push(extracted@[n as int]@));
            assert(texts(extracted@).take(n + 1) == texts(extracted@).take(n as int).push(
                texts(extracted@)[n as int],
            ));
            n = n + 1;
        }
        assert(texts(extracted@).take(extracted.len() as int) == texts(extracted@));
        self.param_rows = kept;
        self.path_param_keys = keys;
        changed
    }

    /// The text for a one-line input: line breaks become spaces.
    pub fn input_line(value: &str) -> (r: String)
        ensures
            r@ == single_line(value@),
    {
        let v = chars_of(value);
        let mut out = String::new();
        let mut i: usize = 0;
        while i < v.len()
            invariant
                i <= v.len(),
                v@ == value@,
                out@ == single_line(v@).take(i as int),
            decreases v.len() - i,
        {
            let c = v[i];
            if c == '\r' || c == '\n' {
                push_char(&mut out, ' ');
            } else {
                push_char(&mut out, c);
            }
            i = i + 1;
            assert(single_line(v@).take(i as int) == single_line(v@).take(i - 1).push(
                single_line(v@)[i - 1],
            ));
        }
        assert(single_line(v@).take(v@.len() as int) == single_line(v@));
        out
    }

    /// Decodes one `application/x-www-form-urlencoded` component.
    pub fn decode_urlencoded_component(value: &str) -> (r: String)
        ensures
            r@ == decode_component(value@),
            (forall|i: int|
                0 <= i < encode_utf8(value@).len() ==> encode_utf8(value@)[i] != 37
                    && encode_utf8(value@)[i] != 43) ==> r@ == value@,
    {
        broadcast use encode_utf8_valid_utf8, encode_utf8_decode_utf8;

        let bytes = value.as_bytes();
        let ghost all = bytes@;
        let mut decoded: Vec<u8> = Vec::new();
        let mut i: usize = 0;
        assert(all.skip(0) == all);
        while i < bytes.len()
            invariant
                i <= bytes.len(),
                bytes@ == all,
                form_decode_bytes(all) == decoded@ + form_decode_bytes(all.skip(i as int)),
            decreases bytes.len() - i,
        {
            let ghost rest = all.skip(i as int);
            let b = bytes[i];
            if b == 43 {
                decoded.push(32);
                assert(rest.skip(1) == all.skip(i + 1));
                i = i + 1;
            } else if b == 37 && 2 < bytes.len() - i {
                let hi = hex_value(bytes[i + 1]);
                let lo = hex_value(bytes[i + 2]);
                if hi.is_some() && lo.is_some() {
                    let h = hi.unwrap();
                    let l = lo.unwrap();
                    assert(h < 16 && l < 16);
                    decoded.push(h * 16 + l);
                    assert(rest.skip(3) == all.skip(i + 3));
                    i = i + 3;
                } else {
                    decoded.push(b);
                    assert(rest.skip(1) == all.skip(i + 1));
                    i = i + 1;
                }
            } else {
                decoded.push(b);
                assert(rest.skip(1) == all.skip(i + 1));
                i = i + 1;
            }
        }
        assert(all.skip(bytes.len() as int).len() == 0);
        assert(decoded@ == form_decode_bytes(all));
        proof {
            if forall|i: int| 0 <= i < all.len() ==> all[i] != 37 && all[i] != 43 {
                lemma_form_decode_plain(all);
            }
        }
        from_utf8_lossy(decoded.as_slice())
    }


    /// Whether `name` can stand in a `:name` query placeholder.
    pub fn can_use_query_placeholder(name: &str) -> (r: bool)
        ensures
            r == is_placeholder_name(name@),
    {
        let v = chars_of(name);
        if v.len() == 0 {
            return false;
        }
        let mut i: usize = 0;
        while i < v.len()
            invariant
                i <= v.len(),
                v@ == name@,
                forall|j: int| 0 <= j < i ==> is_placeholder_char(#[trigger] v@[j]),
            decreases v.len() - i,
        {
            let c = v[i];
            if !(ascii_alnum(c) || c == '_' || c == '-') {
                return false;
            }
            i = i + 1;
        }
        true
    }


    /// One pair, normalised; the flag tells whether it was rewritten.
    pub fn normalize_pair(p: &Vec<char>, params: &[KeyValue]) -> (r: (String, bool))
        ensures
            r.0@ == normalized_pair(p@, params@),
            r.1 == placeholder_applies(p@, params@),
    {
        let eq = find_char(p, 0, '=');
        proof {
            lemma_char_index_from(p@, '=', 0);
        }
        let (key_end, value_empty) = match eq {
            Some(e) => (e, e == p.len() - 1),
            None => (p.len(), true),
        };
        proof {
            assert(p@.take(p@.len() as int) == p@);
            assert(p@.subrange(0, key_end as int) == pair_key(p@));
            assert(value_empty == (pair_value(p@).len() == 0));
        }
        let raw_key = string_of_range(p, 0, key_end);
        let key = Self::decode_urlencoded_component(raw_key.as_str());
        if value_empty && Self::can_use_query_placeholder(key.as_str()) && has_param_key(params, &key) {
            let mut out = raw_key;
            push_char(&mut out, '=');
            push_char(&mut out, ':');
            crate::text::push_str(&mut out, key.as_str());
            assert(out@ == pair_key(p@) + seq!['=', ':'] + decode_component(pair_key(p@)));
            (out, true)
        } else {
            (crate::text::string_of(p), false)
        }
    }

    /// The `&`-separated query, normalised; the flag tells whether any pair
    /// was rewritten.
    pub fn normalize_query(q: &Vec<char>, params: &[KeyValue]) -> (r: (String, bool))
        ensures
            r.0@ == normalized_query(q@, params@),
            r.1 == query_changes(q@, params@),
    {
        let mut out = String::new();
        let mut changed = false;
        let mut pos: usize = 0;
        assert(q@.skip(0) == q@);
        loop
            invariant
                pos <= q.len(),
                normalized_query(q@, params@) == out@ + normalized_query(q@.skip(pos as int), params@),
                query_changes(q@, params@) == (changed || query_changes(q@.skip(pos as int), params@)),
            decreases q.len() - pos,
        {
            let ghost rest = q@.skip(pos as int);
            proof {
                lemma_char_index_suffix(q@, '&', pos as int);
                lemma_char_index_from(q@, '&', pos as int);
            }
            match find_char(q, pos, '&') {
                Some(j) => {
                    let piece = sub_chars(q, pos, j);
                    assert(piece@ == rest.take(j - pos));
                    assert(rest.skip(j - pos + 1) == q@.skip(j + 1));
                    let (np, ch) = Self::normalize_pair(&piece, params);
                    crate::text::push_str(&mut out, np.as_str());
                    push_char(&mut out, '&');
                    changed = changed || ch;
                    pos = j + 1;
                },
                None => {
                    let piece = sub_chars(q, pos, q.len());
                    assert(piece@ == rest);
                    let (np, ch) = Self::normalize_pair(&piece, params);
                    crate::text::push_str(&mut out, np.as_str());
                    changed = changed || ch;
                    return (out, changed);
                },
            }
        }
    }

    /// Turns blank query values whose key names a parameter row into `:key`
    /// placeholders, keeping the rest of the URL as it was.
    pub fn normalize_query_param_placeholders(url: &str, params: &[KeyValue]) -> (r: String)
        ensures
            r@ == normalized_url(url@, params@),
    {
        let v = chars_of(url);
        let hash = find_char(&v, 0, '#');
        proof {
            lemma_char_index_from(v@, '#', 0);
        }
        let wf_end = match hash {
            Some(h) => h,
            None => v.len(),
        };
        let wf = sub_chars(&v, 0, wf_end);
        assert(v@.take(v@.len() as int) == v@);
        let qm = find_char(&wf, 0, '?');
        proof {
            lemma_char_index_from(wf@, '?', 0);
        }
        match qm {
            None => own(url),
            Some(q) => {
                let query = sub_chars(&wf, q + 1, wf.len());
                assert(query@ == wf@.skip(q + 1));
                let (nq, changed) = Self::normalize_query(&query, params);
                if !changed {
                    return own(url);
                }
                let mut out = string_of_range(&wf, 0, q);
                push_char(&mut out, '?');
                crate::text::push_str(&mut out, nq.as_str());
                match hash {
                    Some(h) => {
                        push_char(&mut out, '#');
                        push_range(&mut out, &v, h + 1, v.len());
                        assert(v@.subrange(h + 1, v@.len() as int) == v@.skip(h + 1));
                    },
                    None => {},
                }
                out
            },
        }
    }


}


/// The rows that survive are some of the rows, in order; all of them only
/// when none goes.
pub proof fn lemma_retained_rows_len(
    rows: Seq<RowText>,
    ext: Seq<Seq<char>>,
    prev: Seq<Seq<char>>,
    seen: Seq<Seq<char>>,
)
    ensures
        retained_rows(rows, ext, prev, seen).len() <= rows.len(),
        retained_rows(rows, ext, prev, seen).len() == rows.len() ==> retained_rows(rows, ext, prev, seen)
            == rows,
    decreases rows.len(),
{
    if rows.len() > 0 {
        let r = rows[0];
        let rest = rows.drop_first();
        if stale_row(r.0, r.1, ext, prev) || (ext.contains(r.0) && seen.contains(r.0)) {
            lemma_retained_rows_len(rest, ext, prev, seen);
        } else if ext.contains(r.0) {
            lemma_retained_rows_len(rest, ext, prev, seen.push(r.0));
            assert(seq![r] + rest =~= rows);
        } else {
            lemma_retained_rows_len(rest, ext, prev, seen);
            assert(seq![r] + rest =~= rows);
        }
    }
}

// ---------------------------------------------------------------------------
// Tab labels
// ---------------------------------------------------------------------------

/// How many of `flags` are set.
pub open spec fn true_count(flags: Seq<bool>) -> nat
    decreases flags.len(),
{
    if flags.len() == 0 {
        0
    } else {
        true_count(flags.drop_last()) + if flags.last() {
            1nat
        } else {
            0nat
        }
    }
}

/// Which rows have a key.
pub open spec fn keyed_flags(rows: Seq<ParamRow>) -> Seq<bool> {
    rows.map_values(|r: ParamRow| r.key@.len() > 0)
}

/// Which rows have a key or a value.
pub open spec fn filled_flags(rows: Seq<ParamRow>) -> Seq<bool> {
    rows.map_values(|r: ParamRow| r.key@.len() > 0 || r.value@.len() > 0)
}

/// Which multipart fields have a name or a value.
pub open spec fn filled_part_flags(parts: Seq<FormDataPart>) -> Seq<bool> {
    parts.map_values(|p: FormDataPart| p.name@.len() > 0 || p.value@.len() > 0)
}

/// `label (n)` when `n` is positive, else the bare label.
pub open spec fn counted_text(label: Seq<char>, n: nat) -> Seq<char> {
    if n > 0 {
        label + " ("@ + decimal(n) + ")"@
    } else {
        label
    }
}

/// The count shown on the body tab: filled multipart fields for a
/// multipart body, filled url-encoded rows for a url-encoded one, none
/// otherwise.
pub open spec fn body_count(body_type: BodyType, urlencoded: Seq<ParamRow>, parts: Seq<FormDataPart>) -> nat {
    match body_type {
        BodyType::FormData => true_count(filled_part_flags(parts)),
        BodyType::UrlEncoded => true_count(filled_flags(urlencoded)),
        _ => 0,
    }
}

/// The auth tab's label: `Auth` without a scheme, else the scheme's name.
pub open spec fn auth_tab_text(auth_type: AuthType) -> Seq<char> {
    if auth_type == AuthType::NoAuth {
        "Auth"@
    } else {
        auth_type_text(auth_type)
    }
}

/// How many of the rows have a key (`keyed`) or a key or a value.
fn count_rows(rows: &[ParamRow], keyed: bool) -> (r: usize)
    ensures
        r == true_count(if keyed {
            keyed_flags(rows@)
        } else {
            filled_flags(rows@)
        }),
{
    let ghost flags = if keyed {
        keyed_flags(rows@)
    } else {
        filled_flags(rows@)
    };
    let mut n: usize = 0;
    let mut i: usize = 0;
    assert(flags.take(0) =~= Seq::<bool>::empty());
    while i < rows.len()
        invariant
            i <= rows.len(),
            n <= i,
            flags.len() == rows@.len(),
            flags == (if keyed {
                keyed_flags(rows@)
            } else {
                filled_flags(rows@)
            }),
            n == true_count(flags.take(i as int)),
        decreases rows.len() - i,
    {
        assert(flags.take(i + 1).drop_last() =~= flags.take(i as int));
        let row = &rows[i];
        let counts = if keyed {
            !row.key.as_str().is_empty()
        } else {
            !row.key.as_str().is_empty() || !row.value.as_str().is_empty()
        };
        assert(counts == flags[i as int]);
        if counts {
            n = n + 1;
        }
        i = i + 1;
    }
    assert(flags.take(rows.len() as int) =~= flags);
    n
}

/// How many multipart fields have a name or a value.
fn count_filled_parts(parts: &[FormDataPart]) -> (r: usize)
    ensures
        r == true_count(filled_part_flags(parts@)),
{
    let ghost flags = filled_part_flags(parts@);
    let mut n: usize = 0;
    let mut i: usize = 0;
    while i < parts.len()
        invariant
            i <= parts.len(),
            n <= i,
            flags == filled_part_flags(parts@),
            n == true_count(flags.take(i as int)),
        decreases parts.len() - i,
    {
        assert(flags.take(i + 1).drop_last() =~= flags.take(i as int));
        let part = &parts[i];
        if !part.name.as_str().is_empty() || !part.value.as_str().is_empty() {
            n = n + 1;
        }
        i = i + 1;
    }
    assert(flags.take(parts.len() as int) =~= flags);
    n
}

/// `label (n)`, or the bare label when `n` is zero.
fn counted_label(label: &str, n: usize) -> (r: String)
    ensures
        r@ == counted_text(label@, n as nat),
{
    let mut s = own(label);
    if n > 0 {
        proof {
            reveal_strlit(" (");
            reveal_strlit(")");
        }
        push_str(&mut s, " (");
        push_str(&mut s, decimal_text(n as u64).as_str());
        push_str(&mut s, ")");
    }
    s
}

/// The labels of the editor's tabs, in tab-bar order: the body type with
/// its count of filled fields, `Params` and `Headers` with their counts of
/// keyed rows, the auth scheme, and `Info`. Without an active request the
/// caller passes `BodyType::NoBody`, no fields and `AuthType::NoAuth`.
pub fn tab_labels(
    params: &[ParamRow],
    headers: &[ParamRow],
    urlencoded: &[ParamRow],
    body_type: BodyType,
    parts: &[FormDataPart],
    auth_type: AuthType,
) -> (r: Vec<String>)
    ensures
        r@.len() == 5,
        r@[0]@ == counted_text(body_type_text(body_type), body_count(body_type, urlencoded@, parts@)),
        r@[1]@ == counted_text("Params"@, true_count(keyed_flags(params@))),
        r@[2]@ == counted_text("Headers"@, true_count(keyed_flags(headers@))),
        r@[3]@ == auth_tab_text(auth_type),
        r@[4]@ == "Info"@,
{
    let body_n: usize = match body_type {
        BodyType::FormData => count_filled_parts(parts),
        BodyType::UrlEncoded => count_rows(urlencoded, false),
        _ => 0,
    };
    let mut r: Vec<String> = Vec::new();
    r.push(counted_label(body_type_label(&body_type), body_n));
    r.push(counted_label("Params", count_rows(params, true)));
    r.push(counted_label("Headers", count_rows(headers, true)));
    let auth = if auth_type == AuthType::NoAuth {
        own("Auth")
    } else {
        own(auth_type_label(&auth_type))
    };
    r.push(auth);
    r.push(own("Info"));
    r
}

} // verus!
