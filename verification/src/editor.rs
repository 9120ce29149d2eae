//! The request editor and the active request: reading the editor's rows
//! into a request, loading a request into the editor, and the values shown
//! beside `{{variables}}` and `:parameters` of the URL.
use vstd::prelude::*;

use crate::auth::{load_auth_inputs, shows_auth, sync_auth_inputs_to_config, takes_inputs};
use crate::body::{
    collect_multipart, collected_parts, fresh_rows, kv_texts, lemma_fresh_push, part_texts,
    urlencoded_fields, urlencoded_fields_for_body, KvText, MultipartRow,
};
use crate::models::{is_hyphenated_uuid, ApiRequest, BodyType, Collection, FormDataPart, KeyValue, RequestBody, Variable};
use crate::request_panel::{
    added_keys, blank_row, keys_of, lemma_retained_rows_len, retained_rows, row_text, row_texts, single_line,
    synced_rows, sync_changes, texts, variable_names_from, ParamRow, RequestPanel, RequestTab, RowText, UrlVariableRow,
};
use crate::tree::opt_text;
use crate::url::{has_param, lemma_normalized_url_same_keys, normalized_url};
use crate::variables::{resolved_variable, variable_value};
use crate::text::{chars_of, is_white_space, lemma_trim_start_at, same_text, trim_start, white_space};
use crate::url::has_param_key;

verus! {

/// The rows that become key/value entries: those with a non-empty key.
pub open spec fn keyed_rows(rows: Seq<RowText>) -> Seq<RowText>
    decreases rows.len(),
{
    if rows.len() == 0 {
        Seq::empty()
    } else {
        let init = keyed_rows(rows.drop_last());
        if rows.last().0.len() > 0 {
            init.push(rows.last())
        } else {
            init
        }
    }
}

/// The value of the first enabled row whose key is `name`.
pub open spec fn enabled_row_value(rows: Seq<RowText>, name: Seq<char>, k: int) -> Option<Seq<char>>
    decreases rows.len() - k,
{
    if k < 0 || k >= rows.len() {
        None
    } else if rows[k].2 && rows[k].0 == name {
        Some(rows[k].1)
    } else {
        enabled_row_value(rows, name, k + 1)
    }
}

/// `curl ` or `curl<TAB>` after leading white space: the URL field holds a
/// pasted command line.
pub open spec fn is_curl_command(s: Seq<char>) -> bool {
    let t = trim_start(s);
    t.len() >= 5 && t[0] == 'c' && t[1] == 'u' && t[2] == 'r' && t[3] == 'l' && (t[4] == ' ' || t[4]
        == '\t')
}

/// Key/value texts as the one-line inputs show them.
pub open spec fn shown_texts(t: Seq<KvText>) -> Seq<RowText> {
    t.map_values(|x: KvText| (single_line(x.0), single_line(x.1), x.2))
}

/// A multipart row as plain values: id, name, value.
pub open spec fn multipart_texts(rows: Seq<MultipartRow>) -> Seq<(Seq<char>, Seq<char>, Seq<char>)> {
    rows.map_values(|r: MultipartRow| (r.id@, r.name@, r.value@))
}

/// Multipart fields as the editor's rows show them.
pub open spec fn shown_parts(parts: Seq<FormDataPart>) -> Seq<(Seq<char>, Seq<char>, Seq<char>)> {
    parts.map_values(|p: FormDataPart| (p.id@, single_line(p.name@), single_line(p.value@)))
}

/// The fields the url-encoded editor starts from.
pub open spec fn body_fields(body: RequestBody) -> Seq<KvText> {
    if body.urlencoded@.len() > 0 {
        kv_texts(body.urlencoded@)
    } else if body.body_type == BodyType::UrlEncoded {
        urlencoded_fields(body.content@)
    } else {
        Seq::empty()
    }
}

/// The names of the URL variable rows.
pub open spec fn var_row_names(rows: Seq<UrlVariableRow>) -> Seq<Seq<char>> {
    rows.map_values(|r: UrlVariableRow| r.name@)
}

/// The value field of the URL variable `name` after a refresh: the resolved
/// value on one line, else what the field held when the rows were kept,
/// else nothing.
pub open spec fn refreshed_value(resolved: Option<Seq<char>>, kept: Option<Seq<char>>) -> Seq<char> {
    match resolved {
        Some(v) => single_line(v),
        None => match kept {
            Some(k) => k,
            None => Seq::empty(),
        },
    }
}

/// The editor rows for key/value entries.
pub fn shown_kv_rows(kvs: &[KeyValue]) -> (r: Vec<ParamRow>)
    ensures
        row_texts(r@) == shown_texts(kv_texts(kvs@)),
{
    let mut out: Vec<ParamRow> = Vec::new();
    let mut i: usize = 0;
    while i < kvs.len()
        invariant
            i <= kvs.len(),
            row_texts(out@) == shown_texts(kv_texts(kvs@)).take(i as int),
        decreases kvs.len() - i,
    {
        let ghost before = row_texts(out@);
        out.push(
            ParamRow {
                key: RequestPanel::input_line(kvs[i].key.as_str()),
                value: RequestPanel::input_line(kvs[i].value.as_str()),
                enabled: kvs[i].enabled,
            },
        );
        assert(row_texts(out@) =~= before.push(shown_texts(kv_texts(kvs@))[i as int]));
        assert(shown_texts(kv_texts(kvs@)).take(i + 1) =~= shown_texts(kv_texts(kvs@)).take(i as int).push(
            shown_texts(kv_texts(kvs@))[i as int],
        ));
        i = i + 1;
    }
    assert(shown_texts(kv_texts(kvs@)).take(kvs.len() as int) =~= shown_texts(kv_texts(kvs@)));
    out
}

/// The editor rows for multipart fields.
pub fn shown_multipart_rows(parts: &[FormDataPart]) -> (r: Vec<MultipartRow>)
    ensures
        multipart_texts(r@) == shown_parts(parts@),
{
    let mut out: Vec<MultipartRow> = Vec::new();
    let mut i: usize = 0;
    while i < parts.len()
        invariant
            i <= parts.len(),
            multipart_texts(out@) == shown_parts(parts@).take(i as int),
        decreases parts.len() - i,
    {
        let ghost before = multipart_texts(out@);
        out.push(
            MultipartRow {
                id: parts[i].id.clone(),
                name: RequestPanel::input_line(parts[i].name.as_str()),
                value: RequestPanel::input_line(parts[i].value.as_str()),
            },
        );
        assert(multipart_texts(out@) =~= before.push(shown_parts(parts@)[i as int]));
        assert(shown_parts(parts@).take(i + 1) =~= shown_parts(parts@).take(i as int).push(
            shown_parts(parts@)[i as int],
        ));
        i = i + 1;
    }
    assert(shown_parts(parts@).take(parts.len() as int) =~= shown_parts(parts@));
    out
}

/// The entries from position `n` on have fresh-looking ids and no
/// description.
pub open spec fn fresh_from(v: Seq<KeyValue>, n: int) -> bool {
    forall|i: int| n <= i < v.len() ==> is_hyphenated_uuid(#[trigger] v[i].id@) && v[i].description@.len() == 0
}

proof fn lemma_fresh_from_push(v: Seq<KeyValue>, n: int, kv: KeyValue)
    requires
        0 <= n,
        fresh_from(v, n),
        is_hyphenated_uuid(kv.id@),
        kv.description@.len() == 0,
    ensures
        fresh_from(v.push(kv), n),
{
    assert forall|i: int| n <= i < v.push(kv).len() implies is_hyphenated_uuid(#[trigger] v.push(kv)[i].id@)
        && v.push(kv)[i].description@.len() == 0 by {
        if i < v.len() {
            assert(v.push(kv)[i] == v[i]);
        }
    }
}

/// The two kinds of chips of the URL field.
#[derive(Clone, Copy, Debug, PartialEq, Eq, Structural)]
pub enum ChipKind {
    Variable,
    PathParam,
}

/// The hovered chips as plain values: URL variable, path parameter.
pub type HoverState = (Option<Seq<char>>, Option<Seq<char>>);

pub open spec fn hover_texts(variable: Option<String>, path_param: Option<String>) -> HoverState {
    (opt_text(variable), opt_text(path_param))
}

/// The hovered chips after the pointer enters (`hovered`) or leaves the
/// chip `name` of kind `kind`: entering makes it the only hovered chip;
/// leaving un-hovers it if it is the hovered one of its kind.
pub open spec fn hover_step(s: HoverState, kind: ChipKind, name: Seq<char>, hovered: bool) -> HoverState {
    match kind {
        ChipKind::Variable => if hovered {
            (Some(name), None)
        } else if s.0 == Some(name) {
            (None, s.1)
        } else {
            s
        },
        ChipKind::PathParam => if hovered {
            (None, Some(name))
        } else if s.1 == Some(name) {
            (s.0, None)
        } else {
            s
        },
    }
}

/// At most one chip shows its tooltip after the pointer enters one, and
/// entering a chip and leaving it again leaves no tooltip shown.
pub proof fn law_hover_enter_leave(s: HoverState, kind: ChipKind, name: Seq<char>)
    ensures
        hover_step(s, kind, name, true).0 is None || hover_step(s, kind, name, true).1 is None,
        hover_step(hover_step(s, kind, name, true), kind, name, false) == (None::<Seq<char>>, None::<Seq<char>>),
{
}

/// `name = value`, with `No value` for a missing or empty value.
pub open spec fn tooltip_text(name: Seq<char>, value: Option<Seq<char>>) -> Seq<char> {
    name + " = "@ + match value {
        Some(v) => if v.len() > 0 {
            v
        } else {
            "No value"@
        },
        None => "No value"@,
    }
}

/// `name = value` as a string.
fn tooltip_for(name: &str, value: Option<String>) -> (r: String)
    ensures
        r@ == tooltip_text(name@, match value {
            Some(v) => Some(v@),
            None => None,
        }),
{
    let mut t = crate::text::own(name);
    crate::text::push_str(&mut t, " = ");
    match value {
        Some(v) => if v.as_str().is_empty() {
            crate::text::push_str(&mut t, "No value");
        } else {
            crate::text::push_str(&mut t, v.as_str());
        },
        None => crate::text::push_str(&mut t, "No value"),
    }
    t
}

impl RequestPanel {
    /// The key/value entries of editor rows: rows with an empty key are
    /// dropped, the others keep their order, key, value and switch, and get
    /// a fresh id and no description.
    pub fn collect_kv(rows: &[ParamRow]) -> (r: Vec<KeyValue>)
        ensures
            kv_texts(r@) == keyed_rows(row_texts(rows@)),
            fresh_rows(r@),
    {
        let ghost all = row_texts(rows@);
        let mut out: Vec<KeyValue> = Vec::new();
        let mut i: usize = 0;
        assert(all.take(0) =~= Seq::<RowText>::empty());
        assert(kv_texts(out@) =~= Seq::<KvText>::empty());
        while i < rows.len()
            invariant
                i <= rows.len(),
                all == row_texts(rows@),
                kv_texts(out@) == keyed_rows(all.take(i as int)),
                fresh_rows(out@),
            decreases rows.len() - i,
        {
            let ghost before = out@;
            assert(all.take(i + 1).drop_last() == all.take(i as int));
            assert(all.take(i + 1).last() == row_text(rows@[i as int]));
            if !rows[i].key.as_str().is_empty() {
                let kv = KeyValue {
                    id: crate::models::new_id(),
                    key: rows[i].key.clone(),
                    value: rows[i].value.clone(),
                    enabled: rows[i].enabled,
                    description: String::new(),
                };
                proof {
                    lemma_fresh_push(before, kv);
                }
                out.push(kv);
                assert(kv_texts(out@) == kv_texts(before).push(row_text(rows@[i as int])));
            }
            i = i + 1;
        }
        assert(all.take(rows.len() as int) == all);
        out
    }

    /// Adds a blank, enabled entry for each URL parameter of `keys` that no
    /// entry of `params` names yet, in the order of `keys`; the entries
    /// already there stay as they are.
    pub fn merge_path_params(keys: &[String], params: &mut Vec<KeyValue>)
        ensures
            kv_texts(final(params)@) == kv_texts(old(params)@) + added_keys(
                texts(keys@),
                keys_of(kv_texts(old(params)@)),
            ).map_values(|k: Seq<char>| blank_row(k)),
            final(params)@.take(old(params)@.len() as int) == old(params)@,
            fresh_from(final(params)@, old(params)@.len() as int),
    {
        let ghost start = params@;
        let ghost ext = texts(keys@);
        let ghost all_added = added_keys(ext, keys_of(kv_texts(start)));
        let ghost mut so_far: Seq<Seq<char>> = Seq::empty();
        let mut j: usize = 0;
        assert(ext.skip(0) == ext);
        assert(kv_texts(start) + so_far.map_values(|k: Seq<char>| blank_row(k)) =~= kv_texts(start));
        assert(params@.take(start.len() as int) =~= start);
        while j < keys.len()
            invariant
                j <= keys.len(),
                ext == texts(keys@),
                all_added == so_far + added_keys(ext.skip(j as int), keys_of(kv_texts(params@))),
                kv_texts(params@) == kv_texts(start) + so_far.map_values(|k: Seq<char>| blank_row(k)),
                start == old(params)@,
                params@.len() >= start.len(),
                params@.take(start.len() as int) == start,
                fresh_from(params@, start.len() as int),
            decreases keys.len() - j,
        {
            let ghost rest = ext.skip(j as int);
            let ghost cur = keys_of(kv_texts(params@));
            assert(rest[0] == keys@[j as int]@);
            assert(rest.drop_first() == ext.skip(j + 1));
            let present = has_param_key(params.as_slice(), &keys[j]);
            assert(present == cur.contains(keys@[j as int]@)) by {
                if present {
                    let w = choose|w: int| 0 <= w < params@.len() && #[trigger] params@[w].key@ == keys@[j as int]@;
                    assert(cur[w] == keys@[j as int]@);
                }
                if cur.contains(keys@[j as int]@) {
                    let w = choose|w: int| 0 <= w < cur.len() && cur[w] == keys@[j as int]@;
                    assert(params@[w].key@ == keys@[j as int]@);
                    assert(has_param(params@, keys@[j as int]@));
                }
            }
            if !present {
                let ghost before = params@;
                let kv = KeyValue::new(keys[j].as_str(), "");
                let ghost kvg = kv;
                params.push(kv);
                proof {
                    lemma_fresh_from_push(before, start.len() as int, kvg);
                    let k = keys@[j as int]@;
                    reveal_strlit("");
                    assert(kvg.value@ =~= Seq::<char>::empty());
                    assert(params@ == before.push(kvg));
                    assert(kv_texts(params@) =~= kv_texts(before).push(blank_row(k)));
                    assert(keys_of(kv_texts(params@)) == cur.push(k));
                    let nsf = so_far.push(k);
                    assert(nsf.map_values(|k: Seq<char>| blank_row(k)) == so_far.map_values(
                        |k: Seq<char>| blank_row(k),
                    ).push(blank_row(k)));
                    assert(so_far + (seq![k] + added_keys(ext.skip(j + 1), cur.push(k))) == nsf
                        + added_keys(ext.skip(j + 1), cur.push(k)));
                    assert(params@.take(start.len() as int) == before.take(start.len() as int));
                    so_far = nsf;
                }
            }
            j = j + 1;
        }
        assert(ext.skip(keys.len() as int) =~= Seq::<Seq<char>>::empty());
        assert(so_far + Seq::<Seq<char>>::empty() == so_far);
    }

    /// The value shown for the path parameter `name`: that of the first
    /// enabled row with this key, else that of the active request's first
    /// enabled parameter with this key.
    pub fn path_param_value(&self, name: &str, active_params: Option<&[KeyValue]>) -> (r: Option<String>)
        ensures
            match enabled_row_value(row_texts(self.param_rows@), name@, 0) {
                Some(v) => r matches Some(s) && s@ == v,
                None => match active_params {
                    Some(ps) => match enabled_row_value(kv_texts(ps@), name@, 0) {
                        Some(v) => r matches Some(s) && s@ == v,
                        None => r is None,
                    },
                    None => r is None,
                },
            },
    {
        let ghost rows = row_texts(self.param_rows@);
        let mut i: usize = 0;
        while i < self.param_rows.len()
            invariant
                i <= self.param_rows.len(),
                rows == row_texts(self.param_rows@),
                enabled_row_value(rows, name@, 0) == enabled_row_value(rows, name@, i as int),
            decreases self.param_rows.len() - i,
        {
            let row = &self.param_rows[i];
            assert(rows[i as int] == row_text(*row));
            if row.enabled && same_text(row.key.as_str(), name) {
                return Some(row.value.clone());
            }
            i = i + 1;
        }
        match active_params {
            None => None,
            Some(ps) => {
                let ghost kvs = kv_texts(ps@);
                let mut j: usize = 0;
                while j < ps.len()
                    invariant
                        j <= ps.len(),
                        kvs == kv_texts(ps@),
                        active_params == Some(ps),
                        rows == row_texts(self.param_rows@),
                        enabled_row_value(rows, name@, 0) is None,
                        enabled_row_value(kvs, name@, 0) == enabled_row_value(kvs, name@, j as int),
                    decreases ps.len() - j,
                {
                    assert(kvs[j as int] == (ps@[j as int].key@, ps@[j as int].value@, ps@[j as int].enabled));
                    if ps[j].enabled && same_text(ps[j].key.as_str(), name) {
                        return Some(ps[j].value.clone());
                    }
                    j = j + 1;
                }
                None
            },
        }
    }

    /// Whether the URL field holds a pasted `curl` command.
    pub fn looks_like_curl(url: &str) -> (r: bool)
        ensures
            r == is_curl_command(url@),
    {
        let v = chars_of(url);
        let mut i: usize = 0;
        while i < v.len() && white_space(v[i])
            invariant
                i <= v.len(),
                forall|j: int| 0 <= j < i ==> is_white_space(v@[j]),
            decreases v.len() - i,
        {
            i = i + 1;
        }
        proof {
            lemma_trim_start_at(v@, i as int);
        }
        if v.len() - i < 5 {
            return false;
        }
        v[i] == 'c' && v[i + 1] == 'u' && v[i + 2] == 'r' && v[i + 3] == 'l' && (v[i + 4] == ' ' || v[i
            + 4] == '\t')
    }

    /// Rebuilds the URL variable rows for the variables of `url`. When the
    /// names are the ones already shown, each row whose variable resolves
    /// gets the resolved value and the others keep their text; otherwise the
    /// rows are replaced, each with its resolved value or nothing.
    pub fn refresh_url_variable_rows(
        &mut self,
        url: &str,
        workspace: &[Variable],
        collections: &[Collection],
        active_request_id: &Option<String>,
    )
        ensures
            ({
                let names = variable_names_from(url@, 0, Seq::empty());
                let kept = var_row_names(old(self).url_variable_rows@) == names;
                &&& var_row_names(final(self).url_variable_rows@) == names
                &&& forall|i: int|
                    0 <= i < names.len() ==> (#[trigger] final(self).url_variable_rows@[i]).value@
                        == refreshed_value(
                        resolved_variable(workspace@, collections@, opt_text(*active_request_id), names[i]),
                        if kept {
                            Some(old(self).url_variable_rows@[i].value@)
                        } else {
                            None
                        },
                    )
            }),
            final(self).url == old(self).url,
            final(self).body_text == old(self).body_text,
            final(self).param_rows == old(self).param_rows,
            final(self).path_param_keys == old(self).path_param_keys,
            final(self).header_rows == old(self).header_rows,
            final(self).urlencoded_rows == old(self).urlencoded_rows,
            final(self).multipart_rows == old(self).multipart_rows,
            final(self).auth_inputs == old(self).auth_inputs,
            final(self).active_tab == old(self).active_tab,
    {
        let names = Self::extract_variable_names(url);
        let ghost ns = texts(names@);
        let mut kept = names.len() == self.url_variable_rows.len();
        let mut k: usize = 0;
        assert(var_row_names(self.url_variable_rows@).len() == self.url_variable_rows@.len());
        while k < names.len() && kept
            invariant
                k <= names.len(),
                ns == texts(names@),
                kept ==> names@.len() == self.url_variable_rows@.len(),
                kept ==> forall|m: int| 0 <= m < k ==> ns[m] == self.url_variable_rows@[m].name@,
                !kept ==> var_row_names(self.url_variable_rows@) != ns,
            decreases (names.len() - k) + (if kept {
                1int
            } else {
                0int
            }),
        {
            if !same_text(names[k].as_str(), self.url_variable_rows[k].name.as_str()) {
                assert(var_row_names(self.url_variable_rows@)[k as int] != ns[k as int]);
                kept = false;
            } else {
                k = k + 1;
            }
        }
        assert(kept ==> var_row_names(self.url_variable_rows@) =~= ns);
        let mut rows: Vec<UrlVariableRow> = Vec::new();
        let mut i: usize = 0;
        while i < names.len()
            invariant
                i <= names.len(),
                ns == texts(names@),
                ns == variable_names_from(url@, 0, Seq::empty()),
                kept == (var_row_names(self.url_variable_rows@) == ns),
                kept ==> self.url_variable_rows@.len() == names@.len(),
                var_row_names(rows@) == ns.take(i as int),
                rows@.len() == i,
                forall|m: int|
                    0 <= m < i ==> (#[trigger] rows@[m]).value@ == refreshed_value(
                        resolved_variable(workspace@, collections@, opt_text(*active_request_id), ns[m]),
                        if kept {
                            Some(self.url_variable_rows@[m].value@)
                        } else {
                            None
                        },
                    ),
            decreases names.len() - i,
        {
            let found = variable_value(workspace, collections, active_request_id, names[i].as_str());
            let value = match found {
                Some(v) => Self::input_line(v.as_str()),
                None => if kept {
                    self.url_variable_rows[i].value.clone()
                } else {
                    String::new()
                },
            };
            let ghost before = rows@;
            rows.push(UrlVariableRow { name: names[i].clone(), value });
            assert(var_row_names(rows@) =~= var_row_names(before).push(ns[i as int]));
            assert(ns.take(i + 1) =~= ns.take(i as int).push(ns[i as int]));
            i = i + 1;
        }
        assert(ns.take(names.len() as int) =~= ns);
        self.url_variable_rows = rows;
    }

    /// The editor as it opens: on the body tab with nothing hovered and no
    /// URL variable rows, showing the active request `active` as
    /// `load_request` loads it, or empty without one. `url_keys` are the
    /// path and query parameters of the active request's URL once its blank
    /// query values are placeholders.
    pub fn new(active: Option<&ApiRequest>, url_keys: &[String]) -> (r: RequestPanel)
        ensures
            r.active_tab == RequestTab::Body,
            r.url_variable_rows@.len() == 0,
            r.hovered_url_variable is None,
            r.hovered_url_path_param is None,
            match active {
                None => {
                    &&& r.url@.len() == 0
                    &&& r.body_text@.len() == 0
                    &&& r.auth_inputs.all_texts().len() == 25
                    &&& forall|i: int| 0 <= i < 25 ==> (#[trigger] r.auth_inputs.all_texts()[i]).len() == 0
                    &&& r.path_param_keys@.len() == 0
                    &&& r.param_rows@.len() == 0
                    &&& r.header_rows@.len() == 0
                    &&& r.urlencoded_rows@.len() == 0
                    &&& r.multipart_rows@.len() == 0
                },
                Some(req) => {
                    &&& r.url@ == normalized_url(req.url@, req.params@)
                    &&& r.body_text == req.body.content
                    &&& row_texts(r.param_rows@) == synced_rows(
                        shown_texts(kv_texts(req.params@)),
                        texts(url_keys@),
                        texts(url_keys@),
                    )
                    &&& texts(r.path_param_keys@) == texts(url_keys@)
                    &&& row_texts(r.header_rows@) == shown_texts(kv_texts(req.headers@))
                    &&& row_texts(r.urlencoded_rows@) == shown_texts(body_fields(req.body))
                    &&& multipart_texts(r.multipart_rows@) == shown_parts(req.body.form_data@)
                    &&& shows_auth(req.auth, r.auth_inputs)
                },
            },
    {
        let mut panel = RequestPanel::blank();
        match active {
            None => {},
            Some(req) => {
                panel.load_request(req, url_keys);
            },
        }
        panel
    }

    /// Loads a request into the editor: the URL with blank query values of
    /// named parameters turned into placeholders, the body, the rows (each
    /// text on one line) and the auth fields. `url_keys` are the path and
    /// query parameters of that URL; they become the known set and the
    /// parameter rows are brought in line with them. Returns whether the URL
    /// or the rows differ from the request's, that is whether the request
    /// needs to be saved again.
    pub fn load_request(&mut self, req: &ApiRequest, url_keys: &[String]) -> (changed: bool)
        ensures
            final(self).url@ == normalized_url(req.url@, req.params@),
            final(self).body_text == req.body.content,
            row_texts(final(self).param_rows@) == synced_rows(
                shown_texts(kv_texts(req.params@)),
                texts(url_keys@),
                texts(url_keys@),
            ),
            texts(final(self).path_param_keys@) == texts(url_keys@),
            row_texts(final(self).header_rows@) == shown_texts(kv_texts(req.headers@)),
            row_texts(final(self).urlencoded_rows@) == shown_texts(body_fields(req.body)),
            multipart_texts(final(self).multipart_rows@) == shown_parts(req.body.form_data@),
            shows_auth(req.auth, final(self).auth_inputs),
            changed == (final(self).url@ != req.url@ || sync_changes(
                shown_texts(kv_texts(req.params@)),
                texts(url_keys@),
                texts(url_keys@),
            )),
            final(self).active_tab == old(self).active_tab,
            final(self).url_variable_rows == old(self).url_variable_rows,
            final(self).hovered_url_variable == old(self).hovered_url_variable,
            final(self).hovered_url_path_param == old(self).hovered_url_path_param,
    {
        let url = Self::normalize_query_param_placeholders(req.url.as_str(), req.params.as_slice());
        let url_changed = !same_text(url.as_str(), req.url.as_str());
        self.url = url;
        self.body_text = req.body.content.clone();
        self.param_rows = shown_kv_rows(req.params.as_slice());
        let mut keys: Vec<String> = Vec::new();
        let mut n: usize = 0;
        while n < url_keys.len()
            invariant
                n <= url_keys.len(),
                texts(keys@) == texts(url_keys@).take(n as int),
            decreases url_keys.len() - n,
        {
            let ghost kb = texts(keys@);
            keys.push(url_keys[n].clone());
            assert(texts(keys@) =~= kb.push(texts(url_keys@)[n as int]));
            assert(texts(url_keys@).take(n + 1) =~= texts(url_keys@).take(n as int).push(
                texts(url_keys@)[n as int],
            ));
            n = n + 1;
        }
        assert(texts(url_keys@).take(url_keys.len() as int) =~= texts(url_keys@));
        self.path_param_keys = keys;
        let rows_changed = self.sync_path_param_rows(url_keys);
        self.header_rows = shown_kv_rows(req.headers.as_slice());
        let fields = urlencoded_fields_for_body(&req.body);
        assert(kv_texts(fields@) == body_fields(req.body));
        self.urlencoded_rows = shown_kv_rows(fields.as_slice());
        self.multipart_rows = shown_multipart_rows(req.body.form_data.as_slice());
        self.auth_inputs = load_auth_inputs(&req.auth);
        url_changed || rows_changed
    }

    /// Writes the editor into the active request, as every edit does: the
    /// rows become the parameters, headers and url-encoded fields, the URL
    /// gets placeholders for blank query values of named parameters (the
    /// URL field shows the same text), the body text, the multipart rows and
    /// the auth fields are taken. `path_normalized` is the URL field's text
    /// with its path parameters normalised. A url-encoded body keeps its
    /// content here and `true` is returned: its content is then encoded from
    /// the new fields.
    pub fn write_request(&mut self, req: &mut ApiRequest, path_normalized: &str) -> (form_body_pending: bool)
        ensures
            kv_texts(final(req).params@) == keyed_rows(row_texts(old(self).param_rows@)),
            fresh_rows(final(req).params@),
            final(req).url@ == normalized_url(path_normalized@, final(req).params@),
            final(self).url == final(req).url,
            kv_texts(final(req).headers@) == keyed_rows(row_texts(old(self).header_rows@)),
            fresh_rows(final(req).headers@),
            kv_texts(final(req).body.urlencoded@) == keyed_rows(row_texts(old(self).urlencoded_rows@)),
            fresh_rows(final(req).body.urlencoded@),
            form_body_pending == (old(req).body.body_type == BodyType::UrlEncoded),
            form_body_pending ==> final(req).body.content == old(req).body.content,
            !form_body_pending ==> final(req).body.content == old(self).body_text,
            part_texts(final(req).body.form_data@) == collected_parts(
                old(self).multipart_rows@,
                old(req).body.form_data@,
            ),
            takes_inputs(old(req).auth, old(self).auth_inputs, final(req).auth),
            final(req).body.body_type == old(req).body.body_type,
            final(req).id == old(req).id,
            final(req).name == old(req).name,
            final(req).method == old(req).method,
            final(self).param_rows == old(self).param_rows,
            final(self).header_rows == old(self).header_rows,
            final(self).urlencoded_rows == old(self).urlencoded_rows,
            final(self).multipart_rows == old(self).multipart_rows,
            final(self).body_text == old(self).body_text,
            final(self).auth_inputs == old(self).auth_inputs,
            final(self).path_param_keys == old(self).path_param_keys,
    {
        req.params = Self::collect_kv(self.param_rows.as_slice());
        let url = Self::normalize_query_param_placeholders(path_normalized, req.params.as_slice());
        req.url = url.clone();
        self.url = url;
        req.headers = Self::collect_kv(self.header_rows.as_slice());
        req.body.urlencoded = Self::collect_kv(self.urlencoded_rows.as_slice());
        let pending = req.body.body_type == BodyType::UrlEncoded;
        if !pending {
            req.body.content = self.body_text.clone();
        }
        let parts = collect_multipart(self.multipart_rows.as_slice(), &req.body);
        req.body.form_data = parts;
        sync_auth_inputs_to_config(&self.auth_inputs, &mut req.auth);
        pending
    }

    /// Takes a request read from a pasted `curl` command: a blank parameter
    /// is added for each URL parameter of `url_keys` that it lacks, and the
    /// editor shows it (URL, body text, rows; no multipart rows; the auth
    /// fields stay). Returns the request that becomes the active one, with
    /// its url-encoded fields filled in and the id of the request it
    /// replaces (`previous_id`), and whether its body is to be encoded from
    /// those fields (a url-encoded body with fields).
    pub fn load_pasted_request(
        &mut self,
        parsed: ApiRequest,
        url_keys: &[String],
        previous_id: &Option<String>,
    ) -> (r: (ApiRequest, bool))
        ensures
            kv_texts(r.0.params@) == kv_texts(parsed.params@) + added_keys(
                texts(url_keys@),
                keys_of(kv_texts(parsed.params@)),
            ).map_values(|k: Seq<char>| blank_row(k)),
            r.0.params@.take(parsed.params@.len() as int) == parsed.params@,
            fresh_from(r.0.params@, parsed.params@.len() as int),
            r.0.url == parsed.url,
            r.0.headers == parsed.headers,
            r.0.name == parsed.name,
            r.0.method == parsed.method,
            r.0.auth == parsed.auth,
            r.0.body.body_type == parsed.body.body_type,
            r.0.body.content == parsed.body.content,
            r.0.body.form_data == parsed.body.form_data,
            kv_texts(r.0.body.urlencoded@) == body_fields(parsed.body),
            r.0.id == match previous_id {
                Some(id) => *id,
                None => parsed.id,
            },
            r.1 == (parsed.body.body_type == BodyType::UrlEncoded && body_fields(parsed.body).len() > 0),
            final(self).url == parsed.url,
            final(self).body_text == parsed.body.content,
            row_texts(final(self).param_rows@) == shown_texts(kv_texts(r.0.params@)),
            texts(final(self).path_param_keys@) == texts(url_keys@),
            row_texts(final(self).header_rows@) == shown_texts(kv_texts(parsed.headers@)),
            row_texts(final(self).urlencoded_rows@) == shown_texts(body_fields(parsed.body)),
            final(self).multipart_rows@.len() == 0,
            final(self).auth_inputs == old(self).auth_inputs,
            final(self).active_tab == old(self).active_tab,
    {
        let mut req = parsed;
        Self::merge_path_params(url_keys, &mut req.params);
        self.url = req.url.clone();
        self.body_text = req.body.content.clone();
        self.param_rows = shown_kv_rows(req.params.as_slice());
        let mut keys: Vec<String> = Vec::new();
        let mut n: usize = 0;
        while n < url_keys.len()
            invariant
                n <= url_keys.len(),
                texts(keys@) == texts(url_keys@).take(n as int),
            decreases url_keys.len() - n,
        {
            let ghost kb = texts(keys@);
            keys.push(url_keys[n].clone());
            assert(texts(keys@) =~= kb.push(texts(url_keys@)[n as int]));
            assert(texts(url_keys@).take(n + 1) =~= texts(url_keys@).take(n as int).push(
                texts(url_keys@)[n as int],
            ));
            n = n + 1;
        }
        assert(texts(url_keys@).take(url_keys.len() as int) =~= texts(url_keys@));
        self.path_param_keys = keys;
        self.header_rows = shown_kv_rows(req.headers.as_slice());
        let fields = urlencoded_fields_for_body(&req.body);
        assert(kv_texts(fields@) == body_fields(req.body));
        self.urlencoded_rows = shown_kv_rows(fields.as_slice());
        self.multipart_rows = Vec::new();
        let pending = req.body.body_type == BodyType::UrlEncoded && fields.len() > 0;
        req.body.urlencoded = fields;
        match previous_id {
            Some(id) => {
                req.id = id.clone();
            },
            None => {},
        }
        (req, pending)
    }

    /// The request to send: `base` (the active request, or a blank one)
    /// with the URL field's text after path parameter normalisation
    /// (`path_normalized`, which the URL field then shows), the parameter
    /// rows plus a blank entry for each URL parameter of `url_keys` without
    /// one, the headers, the url-encoded fields, the body text (a
    /// url-encoded body keeps its content and `true` says that it is to be
    /// encoded from the fields), the multipart rows and the auth fields.
    /// Nothing is sent for an empty URL.
    pub fn prepare_send(&mut self, base: ApiRequest, path_normalized: &str, url_keys: &[String]) -> (r: Option<
        (ApiRequest, bool),
    >)
        ensures
            path_normalized@.len() == 0 <==> r is None,
            final(self).url@ == path_normalized@,
            r matches Some(p) ==> {
                let req = p.0;
                let rows = keyed_rows(row_texts(old(self).param_rows@));
                &&& req.url@ == path_normalized@
                &&& kv_texts(req.params@) == rows + added_keys(texts(url_keys@), keys_of(rows)).map_values(
                    |k: Seq<char>| blank_row(k),
                )
                &&& kv_texts(req.headers@) == keyed_rows(row_texts(old(self).header_rows@))
                &&& kv_texts(req.body.urlencoded@) == keyed_rows(row_texts(old(self).urlencoded_rows@))
                &&& fresh_rows(req.params@)
                &&& fresh_rows(req.headers@)
                &&& fresh_rows(req.body.urlencoded@)
                &&& p.1 == (base.body.body_type == BodyType::UrlEncoded)
                &&& p.1 ==> req.body.content == base.body.content
                &&& !p.1 ==> req.body.content == old(self).body_text
                &&& part_texts(req.body.form_data@) == collected_parts(old(self).multipart_rows@, base.body.form_data@)
                &&& takes_inputs(base.auth, old(self).auth_inputs, req.auth)
                &&& req.id == base.id
                &&& req.name == base.name
                &&& req.method == base.method
                &&& req.body.body_type == base.body.body_type
            },
            final(self).param_rows == old(self).param_rows,
            final(self).header_rows == old(self).header_rows,
            final(self).urlencoded_rows == old(self).urlencoded_rows,
            final(self).multipart_rows == old(self).multipart_rows,
            final(self).body_text == old(self).body_text,
            final(self).auth_inputs == old(self).auth_inputs,
    {
        self.url = crate::text::own(path_normalized);
        if path_normalized.is_empty() {
            return None;
        }
        let mut req = base;
        req.url = crate::text::own(path_normalized);
        req.params = Self::collect_kv(self.param_rows.as_slice());
        let ghost collected = req.params@;
        Self::merge_path_params(url_keys, &mut req.params);
        assert forall|i: int| 0 <= i < req.params@.len() implies is_hyphenated_uuid(#[trigger] req.params@[i].id@)
            && req.params@[i].description@.len() == 0 by {
            if i < collected.len() {
                assert(req.params@.take(collected.len() as int) == collected);
                assert(kv_texts(req.params@).len() >= kv_texts(collected).len());
                assert(req.params@.take(collected.len() as int)[i] == req.params@[i]);
                assert(is_hyphenated_uuid(collected[i].id@));
            } else {
                assert(fresh_from(req.params@, collected.len() as int));
            }
        }
        req.headers = Self::collect_kv(self.header_rows.as_slice());
        req.body.urlencoded = Self::collect_kv(self.urlencoded_rows.as_slice());
        let pending = req.body.body_type == BodyType::UrlEncoded;
        if !pending {
            req.body.content = self.body_text.clone();
        }
        let parts = collect_multipart(self.multipart_rows.as_slice(), &req.body);
        req.body.form_data = parts;
        sync_auth_inputs_to_config(&self.auth_inputs, &mut req.auth);
        Some((req, pending))
    }

    /// The pointer enters (`hovered`) or leaves the chip of the URL
    /// variable `name`: entering shows its tooltip and hides a path
    /// parameter's; leaving hides it if it is shown.
    pub fn hover_url_variable(&mut self, name: &str, hovered: bool)
        ensures
            hover_texts(final(self).hovered_url_variable, final(self).hovered_url_path_param) == hover_step(
                hover_texts(old(self).hovered_url_variable, old(self).hovered_url_path_param),
                ChipKind::Variable,
                name@,
                hovered,
            ),
            final(self).url == old(self).url,
            final(self).param_rows == old(self).param_rows,
    {
        if hovered {
            self.hovered_url_variable = Some(crate::text::own(name));
            self.hovered_url_path_param = None;
        } else {
            let shown = match &self.hovered_url_variable {
                Some(n) => same_text(n.as_str(), name),
                None => false,
            };
            if shown {
                self.hovered_url_variable = None;
            }
        }
    }

    /// The pointer enters or leaves the chip of the path parameter `name`;
    /// as for URL variables.
    pub fn hover_url_path_param(&mut self, name: &str, hovered: bool)
        ensures
            hover_texts(final(self).hovered_url_variable, final(self).hovered_url_path_param) == hover_step(
                hover_texts(old(self).hovered_url_variable, old(self).hovered_url_path_param),
                ChipKind::PathParam,
                name@,
                hovered,
            ),
            final(self).url == old(self).url,
            final(self).param_rows == old(self).param_rows,
    {
        if hovered {
            self.hovered_url_path_param = Some(crate::text::own(name));
            self.hovered_url_variable = None;
        } else {
            let shown = match &self.hovered_url_path_param {
                Some(n) => same_text(n.as_str(), name),
                None => false,
            };
            if shown {
                self.hovered_url_path_param = None;
            }
        }
    }

    /// The tooltip of the URL variable `name` while its chip is hovered:
    /// `name = value`, with `No value` for a missing or empty value.
    pub fn url_variable_tooltip(
        &self,
        name: &str,
        workspace: &[Variable],
        collections: &[Collection],
        active_request_id: &Option<String>,
    ) -> (r: Option<String>)
        ensures
            (self.hovered_url_variable matches Some(n) && n@ == name@) ==> (r matches Some(t) && t@ == tooltip_text(
                name@,
                resolved_variable(workspace@, collections@, opt_text(*active_request_id), name@),
            )),
            !(self.hovered_url_variable matches Some(n) && n@ == name@) ==> r is None,
    {
        let shown = match &self.hovered_url_variable {
            Some(n) => same_text(n.as_str(), name),
            None => false,
        };
        if !shown {
            return None;
        }
        let value = variable_value(workspace, collections, active_request_id, name);
        Some(tooltip_for(name, value))
    }

    /// The tooltip of the path parameter `name` while its chip is hovered:
    /// `:name = value`, with `No value` for a missing or empty value.
    pub fn path_param_tooltip(&self, name: &str, active_params: Option<&[KeyValue]>) -> (r: Option<String>)
        ensures
            (self.hovered_url_path_param matches Some(n) && n@ == name@) ==> (r matches Some(t) && t@ == seq![':']
                + tooltip_text(
                name@,
                match enabled_row_value(row_texts(self.param_rows@), name@, 0) {
                    Some(v) => Some(v),
                    None => match active_params {
                        Some(ps) => enabled_row_value(kv_texts(ps@), name@, 0),
                        None => None,
                    },
                },
            )),
            !(self.hovered_url_path_param matches Some(n) && n@ == name@) ==> r is None,
    {
        let shown = match &self.hovered_url_path_param {
            Some(n) => same_text(n.as_str(), name),
            None => false,
        };
        if !shown {
            return None;
        }
        let value = self.path_param_value(name, active_params);
        let mut t = crate::text::own(":");
        crate::text::push_str(&mut t, tooltip_for(name, value).as_str());
        proof {
            reveal_strlit(":");
        }
        Some(t)
    }

    /// Whether the URL field draws chips: the URL has `{{variables}}` or
    /// parameters (`url_keys`, its path and query parameters).
    pub fn url_is_decorated(url: &str, url_keys: &[String]) -> (r: bool)
        ensures
            r == (variable_names_from(url@, 0, Seq::empty()).len() > 0 || url_keys@.len() > 0),
    {
        let names = Self::extract_variable_names(url);
        assert(texts(names@).len() == names@.len());
        names.len() > 0 || url_keys.len() > 0
    }

    /// The parameters of a URL: its path parameters `path_keys`, then those
    /// of its query parameters `query_keys` not among them yet, each once.
    pub fn url_param_keys(path_keys: &[String], query_keys: &[String]) -> (r: Vec<String>)
        ensures
            texts(r@) == texts(path_keys@) + added_keys(texts(query_keys@), texts(path_keys@)),
    {
        let mut keys: Vec<String> = Vec::new();
        let mut n: usize = 0;
        while n < path_keys.len()
            invariant
                n <= path_keys.len(),
                texts(keys@) == texts(path_keys@).take(n as int),
            decreases path_keys.len() - n,
        {
            let ghost kb = texts(keys@);
            keys.push(path_keys[n].clone());
            assert(texts(keys@) =~= kb.push(texts(path_keys@)[n as int]));
            assert(texts(path_keys@).take(n + 1) =~= texts(path_keys@).take(n as int).push(
                texts(path_keys@)[n as int],
            ));
            n = n + 1;
        }
        assert(texts(path_keys@).take(path_keys.len() as int) =~= texts(path_keys@));
        let ghost ext = texts(query_keys@);
        let ghost start = texts(path_keys@);
        let ghost mut so_far: Seq<Seq<char>> = Seq::empty();
        let mut j: usize = 0;
        assert(ext.skip(0) == ext);
        assert(start + so_far =~= start);
        while j < query_keys.len()
            invariant
                j <= query_keys.len(),
                ext == texts(query_keys@),
                texts(keys@) == start + so_far,
                added_keys(ext, start) == so_far + added_keys(ext.skip(j as int), texts(keys@)),
            decreases query_keys.len() - j,
        {
            let ghost rest = ext.skip(j as int);
            let ghost cur = texts(keys@);
            assert(rest[0] == query_keys@[j as int]@);
            assert(rest.drop_first() == ext.skip(j + 1));
            if !crate::request_panel::list_contains(keys.as_slice(), &query_keys[j]) {
                keys.push(query_keys[j].clone());
                proof {
                    let k = query_keys@[j as int]@;
                    assert(texts(keys@) =~= cur.push(k));
                    assert(so_far + (seq![k] + added_keys(ext.skip(j + 1), cur.push(k))) =~= so_far.push(k)
                        + added_keys(ext.skip(j + 1), cur.push(k)));
                    assert(start + so_far.push(k) =~= (start + so_far).push(k));
                    so_far = so_far.push(k);
                }
            }
            j = j + 1;
        }
        assert(ext.skip(query_keys.len() as int) =~= Seq::<Seq<char>>::empty());
        assert(so_far + Seq::<Seq<char>>::empty() =~= so_far);
        keys
    }

    /// Saves the parameter rows into the active request.
    pub fn persist_param_rows(&self, req: &mut ApiRequest)
        ensures
            kv_texts(final(req).params@) == keyed_rows(row_texts(self.param_rows@)),
            fresh_rows(final(req).params@),
            final(req).url == old(req).url,
            final(req).headers == old(req).headers,
            final(req).body == old(req).body,
            final(req).auth == old(req).auth,
            final(req).id == old(req).id,
    {
        req.params = Self::collect_kv(self.param_rows.as_slice());
    }

    /// Saves the URL field and the parameter rows into the active request.
    pub fn persist_url_and_param_rows(&self, req: &mut ApiRequest)
        ensures
            final(req).url == self.url,
            kv_texts(final(req).params@) == keyed_rows(row_texts(self.param_rows@)),
            fresh_rows(final(req).params@),
            final(req).headers == old(req).headers,
            final(req).body == old(req).body,
            final(req).auth == old(req).auth,
            final(req).id == old(req).id,
    {
        req.url = self.url.clone();
        req.params = Self::collect_kv(self.param_rows.as_slice());
    }
}



// ---------------------------------------------------------------------------
// Loading and writing back
// ---------------------------------------------------------------------------

/// `s` holds no line break.
pub open spec fn one_line(s: Seq<char>) -> bool {
    forall|i: int| 0 <= i < s.len() ==> s[i] != '\r' && s[i] != '\n'
}

/// Entries that the editor's rows show as they are: each has a key, and
/// key and value are on one line.
pub open spec fn plain_entries(t: Seq<KvText>) -> bool {
    forall|i: int| 0 <= i < t.len() ==> (#[trigger] t[i]).0.len() > 0 && one_line(t[i].0) && one_line(t[i].1)
}

proof fn lemma_single_line_one_line(s: Seq<char>)
    requires
        one_line(s),
    ensures
        single_line(s) == s,
{
    assert(single_line(s) =~= s);
}

proof fn lemma_shown_plain(t: Seq<KvText>)
    requires
        plain_entries(t),
    ensures
        shown_texts(t) == t,
{
    assert forall|i: int| 0 <= i < t.len() implies shown_texts(t)[i] == t[i] by {
        lemma_single_line_one_line(t[i].0);
        lemma_single_line_one_line(t[i].1);
    }
    assert(shown_texts(t) =~= t);
}

proof fn lemma_keyed_plain(t: Seq<KvText>)
    requires
        forall|i: int| 0 <= i < t.len() ==> (#[trigger] t[i]).0.len() > 0,
    ensures
        keyed_rows(t) == t,
    decreases t.len(),
{
    if t.len() > 0 {
        assert forall|i: int| 0 <= i < t.drop_last().len() implies (#[trigger] t.drop_last()[i]).0.len() > 0 by {
            assert(t.drop_last()[i] == t[i]);
        }
        lemma_keyed_plain(t.drop_last());
        assert(t[t.len() - 1].0.len() > 0);
        assert(t.drop_last().push(t.last()) =~= t);
    }
}

/// Loading a request into the editor and writing the editor straight back
/// gives the request's URL, parameters, headers and text body again (the
/// entries get fresh ids), when loading had nothing to fix — the URL
/// already had its placeholders and the parameter rows matched the URL's
/// parameters `keys` — and its parameters and headers have keys and
/// one-line texts.
pub proof fn law_load_then_write_round_trip(
    req: ApiRequest,
    keys: Seq<Seq<char>>,
    loaded: RequestPanel,
    written: ApiRequest,
)
    requires
        // `loaded` is the editor after `load_request(req, keys)` reported no change ...
        loaded.url@ == normalized_url(req.url@, req.params@),
        row_texts(loaded.param_rows@) == synced_rows(shown_texts(kv_texts(req.params@)), keys, keys),
        row_texts(loaded.header_rows@) == shown_texts(kv_texts(req.headers@)),
        loaded.body_text == req.body.content,
        !(loaded.url@ != req.url@ || sync_changes(shown_texts(kv_texts(req.params@)), keys, keys)),
        // ... and `written` is a request after `write_request` with the editor's URL.
        kv_texts(written.params@) == keyed_rows(row_texts(loaded.param_rows@)),
        written.url@ == normalized_url(loaded.url@, written.params@),
        kv_texts(written.headers@) == keyed_rows(row_texts(loaded.header_rows@)),
        req.body.body_type != BodyType::UrlEncoded ==> written.body.content == loaded.body_text,
        plain_entries(kv_texts(req.params@)),
        plain_entries(kv_texts(req.headers@)),
    ensures
        kv_texts(written.params@) == kv_texts(req.params@),
        written.url@ == req.url@,
        kv_texts(written.headers@) == kv_texts(req.headers@),
        req.body.body_type != BodyType::UrlEncoded ==> written.body.content == req.body.content,
{
    let ps = kv_texts(req.params@);
    lemma_shown_plain(ps);
    lemma_retained_rows_len(ps, keys, keys, Seq::empty());
    let kept = retained_rows(ps, keys, keys, Seq::empty());
    assert(kept == ps);
    assert(added_keys(keys, keys_of(kept)).map_values(|k: Seq<char>| blank_row(k)) =~= Seq::<RowText>::empty());
    assert(synced_rows(ps, keys, keys) == ps + Seq::<RowText>::empty());
    assert(ps + Seq::<RowText>::empty() =~= ps);
    assert forall|i: int| 0 <= i < ps.len() implies (#[trigger] ps[i]).0.len() > 0 by {}
    lemma_keyed_plain(ps);
    let hs = kv_texts(req.headers@);
    lemma_shown_plain(hs);
    assert forall|i: int| 0 <= i < hs.len() implies (#[trigger] hs[i]).0.len() > 0 by {}
    lemma_keyed_plain(hs);
    assert forall|k: Seq<char>| #[trigger] has_param(written.params@, k) == has_param(req.params@, k) by {
        if has_param(written.params@, k) {
            let w = choose|w: int| 0 <= w < written.params@.len() && #[trigger] written.params@[w].key@ == k;
            assert(kv_texts(written.params@)[w].0 == k);
            assert(req.params@[w].key@ == ps[w].0);
        }
        if has_param(req.params@, k) {
            let w = choose|w: int| 0 <= w < req.params@.len() && #[trigger] req.params@[w].key@ == k;
            assert(ps[w].0 == k);
            assert(written.params@[w].key@ == kv_texts(written.params@)[w].0);
        }
    }
    lemma_normalized_url_same_keys(loaded.url@, written.params@, req.params@);
}

} // verus!
