//! Request bodies: labels of the body types, reading url-encoded content
//! into fields, switching the body type, and editing multipart fields.
use vstd::prelude::*;

use crate::models::{is_hyphenated_uuid, BodyType, FormDataPart, FormDataPartKind, KeyValue, RequestBody};
use crate::request_panel::{single_line, RequestPanel};
use crate::text::{chars_of, find_char, lemma_char_index_from, own, same_text, char_index};
use crate::url::{decode_component, lemma_char_index_suffix, pair_key, pair_value, sub_chars};

verus! {

// ---------------------------------------------------------------------------
// Labels
// ---------------------------------------------------------------------------

pub open spec fn body_type_text(t: BodyType) -> Seq<char> {
    match t {
        BodyType::FormData => "Multi-Part"@,
        BodyType::UrlEncoded => "Url Encoded"@,
        BodyType::Json => "JSON"@,
        BodyType::Raw => "Other"@,
        BodyType::BinaryFile => "Binary File"@,
        BodyType::NoBody => "No Body"@,
    }
}

pub open spec fn empty_body_text(t: BodyType) -> Seq<char> {
    match t {
        BodyType::FormData => "No multipart fields"@,
        BodyType::BinaryFile => "No file selected"@,
        _ => "No body"@,
    }
}

/// The name of a body type in the body menu.
pub fn body_type_label(body_type: &BodyType) -> (r: &'static str)
    ensures
        r@ == body_type_text(*body_type),
{
    match body_type {
        BodyType::FormData => "Multi-Part",
        BodyType::UrlEncoded => "Url Encoded",
        BodyType::Json => "JSON",
        BodyType::Raw => "Other",
        BodyType::BinaryFile => "Binary File",
        BodyType::NoBody => "No Body",
    }
}

/// Whether the body is edited as text.
pub fn is_text_body_type(body_type: &BodyType) -> (r: bool)
    ensures
        r == (*body_type == BodyType::Json || *body_type == BodyType::Raw),
{
    match body_type {
        BodyType::Json | BodyType::Raw => true,
        _ => false,
    }
}

/// What an empty body of this type says.
pub fn empty_body_label(body_type: &BodyType) -> (r: &'static str)
    ensures
        r@ == empty_body_text(*body_type),
{
    match body_type {
        BodyType::FormData => "No multipart fields",
        BodyType::BinaryFile => "No file selected",
        _ => "No body",
    }
}

// ---------------------------------------------------------------------------
// Url-encoded content
// ---------------------------------------------------------------------------

/// A key/value row as plain values: key, value, enabled.
pub type KvText = (Seq<char>, Seq<char>, bool);

pub open spec fn kv_text(kv: KeyValue) -> KvText {
    (kv.key@, kv.value@, kv.enabled)
}

pub open spec fn kv_texts(v: Seq<KeyValue>) -> Seq<KvText> {
    v.map_values(|kv: KeyValue| kv_text(kv))
}

/// Every row has a fresh-looking id and no description.
pub open spec fn fresh_rows(v: Seq<KeyValue>) -> bool {
    forall|i: int|
        0 <= i < v.len() ==> is_hyphenated_uuid(#[trigger] v[i].id@) && v[i].description@.len() == 0
}

/// The field of one `key=value` entry: both sides decoded, line breaks
/// turned into spaces; dropped when both sides come out empty.
pub open spec fn entry_field(e: Seq<char>) -> Seq<KvText> {
    let k = single_line(decode_component(pair_key(e)));
    let v = single_line(decode_component(pair_value(e)));
    if e.len() == 0 || (k.len() == 0 && v.len() == 0) {
        Seq::empty()
    } else {
        seq![(k, v, true)]
    }
}

/// The fields of `&`-separated entries.
pub open spec fn entry_fields(q: Seq<char>) -> Seq<KvText>
    decreases q.len(),
{
    match char_index(q, '&') {
        Some(i) => if 0 <= i < q.len() {
            entry_field(q.take(i)) + entry_fields(q.skip(i + 1))
        } else {
            Seq::empty()
        },
        None => entry_field(q),
    }
}

/// The fields of url-encoded body content; multi-line content has none.
pub open spec fn urlencoded_fields(content: Seq<char>) -> Seq<KvText> {
    if content.contains('\r') || content.contains('\n') {
        Seq::empty()
    } else {
        entry_fields(content)
    }
}

/// The fields of one entry `v`.
fn parse_entry(v: &Vec<char>, out: &mut Vec<KeyValue>)
    ensures
        kv_texts(final(out)@) == kv_texts(old(out)@) + entry_field(v@),
        fresh_rows(old(out)@) ==> fresh_rows(final(out)@),
{
    if v.len() == 0 {
        assert(kv_texts(out@) + Seq::<KvText>::empty() == kv_texts(out@));
        return;
    }
    let eq = find_char(v, 0, '=');
    proof {
        lemma_char_index_from(v@, '=', 0);
    }
    let (key_end, value_start) = match eq {
        Some(e) => (e, e + 1),
        None => (v.len(), v.len()),
    };
    proof {
        assert(v@.take(v@.len() as int) == v@);
        assert(v@.subrange(0, key_end as int) == pair_key(v@));
        assert(v@.subrange(value_start as int, v@.len() as int) == pair_value(v@));
    }
    let raw_key = crate::text::string_of_range(v, 0, key_end);
    let raw_value = crate::text::string_of_range(v, value_start, v.len());
    let key = RequestPanel::input_line(RequestPanel::decode_urlencoded_component(raw_key.as_str()).as_str());
    let value = RequestPanel::input_line(
        RequestPanel::decode_urlencoded_component(raw_value.as_str()).as_str(),
    );
    if key.as_str().is_empty() && value.as_str().is_empty() {
        assert(kv_texts(out@) + Seq::<KvText>::empty() == kv_texts(out@));
        return;
    }
    let ghost before = out@;
    let kv = KeyValue::new(key.as_str(), value.as_str());
    out.push(kv);
    assert(out@[before.len() as int] == kv);
    assert(kv_texts(out@) == kv_texts(before).push(kv_text(out@[before.len() as int])));
    assert(out@ == before.push(kv));
    proof {
        if fresh_rows(before) {
            lemma_fresh_push(before, kv);
        }
    }
}

/// Appending a row with a fresh-looking id and no description keeps the
/// rows fresh.
pub proof fn lemma_fresh_push(before: Seq<KeyValue>, kv: KeyValue)
    requires
        fresh_rows(before),
        is_hyphenated_uuid(kv.id@),
        kv.description@.len() == 0,
    ensures
        fresh_rows(before.push(kv)),
{
    let after = before.push(kv);
    assert forall|i: int| 0 <= i < after.len() implies is_hyphenated_uuid(#[trigger] after[i].id@)
        && after[i].description@.len() == 0 by {
        if i < before.len() {
            assert(after[i] == before[i]);
        } else {
            assert(after[i] == kv);
        }
    }
}

/// Reads url-encoded content into enabled fields; multi-line content and
/// empty entries give none.
pub fn parse_urlencoded_content(content: &str) -> (r: Vec<KeyValue>)
    ensures
        kv_texts(r@) == urlencoded_fields(content@),
        fresh_rows(r@),
{
    let mut out: Vec<KeyValue> = Vec::new();
    if crate::text::has_char(content, '\r') || crate::text::has_char(content, '\n') {
        assert(kv_texts(out@) =~= Seq::<KvText>::empty());
        return out;
    }
    let q = chars_of(content);
    let mut pos: usize = 0;
    assert(q@.skip(0) == q@);
    assert(kv_texts(out@) =~= Seq::<KvText>::empty());
    loop
        invariant
            pos <= q.len(),
            q@ == content@,
            !content@.contains('\r') && !content@.contains('\n'),
            entry_fields(q@) == kv_texts(out@) + entry_fields(q@.skip(pos as int)),
            fresh_rows(out@),
        decreases q.len() - pos,
    {
        let ghost rest = q@.skip(pos as int);
        let ghost before = kv_texts(out@);
        proof {
            lemma_char_index_suffix(q@, '&', pos as int);
            lemma_char_index_from(q@, '&', pos as int);
        }
        match find_char(&q, pos, '&') {
            Some(j) => {
                let piece = sub_chars(&q, pos, j);
                assert(piece@ == rest.take(j - pos));
                assert(rest.skip(j - pos + 1) == q@.skip(j + 1));
                parse_entry(&piece, &mut out);
                pos = j + 1;
            },
            None => {
                let piece = sub_chars(&q, pos, q.len());
                assert(piece@ == rest);
                assert(entry_fields(rest) == entry_field(rest));
                parse_entry(&piece, &mut out);
                assert(!content@.contains('\r') && !content@.contains('\n'));
                return out;
            },
        }
    }
}

/// The fields the url-encoded editor starts from: the stored fields, or
/// for a url-encoded body without stored fields the fields read from its
/// content, and none otherwise.
pub fn urlencoded_fields_for_body(body: &RequestBody) -> (r: Vec<KeyValue>)
    ensures
        body.urlencoded@.len() > 0 ==> r@ == body.urlencoded@,
        body.urlencoded@.len() == 0 && body.body_type == BodyType::UrlEncoded ==> kv_texts(r@)
            == urlencoded_fields(body.content@) && fresh_rows(r@),
        body.urlencoded@.len() == 0 && body.body_type != BodyType::UrlEncoded ==> r@.len() == 0,
{
    if body.urlencoded.len() > 0 {
        let r = body.urlencoded.clone();
        assert(r@ =~= body.urlencoded@);
        r
    } else if body.body_type == BodyType::UrlEncoded {
        parse_urlencoded_content(body.content.as_str())
    } else {
        Vec::new()
    }
}

/// Switches the body type as the body menu does: a url-encoded body
/// without fields gets the fields of its content, or one blank field; a
/// multipart body without fields gets one blank field.
pub fn select_body_type(body: &mut RequestBody, target: BodyType)
    ensures
        final(body).body_type == target,
        final(body).content == old(body).content,
        (target == BodyType::UrlEncoded && old(body).urlencoded@.len() == 0) ==> (if urlencoded_fields(
            old(body).content@,
        ).len() > 0 {
            kv_texts(final(body).urlencoded@) == urlencoded_fields(old(body).content@)
        } else {
            kv_texts(final(body).urlencoded@) == seq![(Seq::<char>::empty(), Seq::<char>::empty(), true)]
        }) && fresh_rows(final(body).urlencoded@),
        !(target == BodyType::UrlEncoded && old(body).urlencoded@.len() == 0) ==> final(body).urlencoded@ == old(body).urlencoded@,
        (target == BodyType::FormData && old(body).form_data@.len() == 0) ==> final(body).form_data@.len() == 1 && final(body).form_data@[0].name@.len() == 0
            && final(body).form_data@[0].value@.len() == 0 && final(body).form_data@[0].enabled
            && final(body).form_data@[0].kind == FormDataPartKind::Text && final(body).form_data@[0].content_type@.len() == 0,
        !(target == BodyType::FormData && old(body).form_data@.len() == 0) ==> final(body).form_data@ == old(body).form_data@,
{
    body.body_type = target;
    if target == BodyType::UrlEncoded && body.urlencoded.len() == 0 {
        body.urlencoded = parse_urlencoded_content(body.content.as_str());
        if body.urlencoded.len() == 0 {
            let kv = KeyValue::empty();
            assert(kv.key@ =~= Seq::<char>::empty());
            assert(kv.value@ =~= Seq::<char>::empty());
            body.urlencoded.push(kv);
            assert(kv_texts(body.urlencoded@) =~= seq![
                (Seq::<char>::empty(), Seq::<char>::empty(), true),
            ]);
        }
    }
    if target == BodyType::FormData && body.form_data.len() == 0 {
        body.form_data.push(FormDataPart::empty());
    }
}

// ---------------------------------------------------------------------------
// Multipart fields
// ---------------------------------------------------------------------------

/// The texts of a multipart field row in the editor.
pub struct MultipartRow {
    pub id: String,
    pub name: String,
    pub value: String,
}

/// A multipart field as plain values: id, name, value, enabled, kind,
/// content type.
pub type PartText = (Seq<char>, Seq<char>, Seq<char>, bool, FormDataPartKind, Seq<char>);

pub open spec fn part_text(p: FormDataPart) -> PartText {
    (p.id@, p.name@, p.value@, p.enabled, p.kind, p.content_type@)
}

pub open spec fn part_texts(v: Seq<FormDataPart>) -> Seq<PartText> {
    v.map_values(|p: FormDataPart| part_text(p))
}

/// The first field at or after `k` with the id `id`.
pub open spec fn part_index_from(parts: Seq<FormDataPart>, id: Seq<char>, k: int) -> Option<int>
    decreases parts.len() - k,
{
    if k < 0 || k >= parts.len() {
        None
    } else if parts[k].id@ == id {
        Some(k)
    } else {
        part_index_from(parts, id, k + 1)
    }
}

pub proof fn lemma_part_index_from(parts: Seq<FormDataPart>, id: Seq<char>, k: int)
    requires
        0 <= k,
    ensures
        match part_index_from(parts, id, k) {
            Some(i) => k <= i < parts.len() && parts[i].id@ == id,
            None => forall|j: int| k <= j < parts.len() ==> parts[j].id@ != id,
        },
    decreases parts.len() - k,
{
    if k < parts.len() && parts[k].id@ != id {
        lemma_part_index_from(parts, id, k + 1);
    }
}

/// The first field with the id `id`.
pub fn find_part(parts: &Vec<FormDataPart>, id: &str) -> (r: Option<usize>)
    ensures
        match r {
            Some(i) => part_index_from(parts@, id@, 0) == Some(i as int),
            None => part_index_from(parts@, id@, 0) is None,
        },
{
    let key = own(id);
    let mut i: usize = 0;
    while i < parts.len()
        invariant
            i <= parts.len(),
            key@ == id@,
            part_index_from(parts@, id@, 0) == part_index_from(parts@, id@, i as int),
        decreases parts.len() - i,
    {
        if parts[i].id == key {
            return Some(i);
        }
        i = i + 1;
    }
    None
}

/// The field a row stands for: its texts, with the flags and content type
/// of the stored field of the same id, or enabled text without content
/// type when there is none.
pub open spec fn part_for_row(row: MultipartRow, parts: Seq<FormDataPart>) -> PartText {
    match part_index_from(parts, row.id@, 0) {
        Some(i) => (row.id@, row.name@, row.value@, parts[i].enabled, parts[i].kind, parts[i].content_type@),
        None => (row.id@, row.name@, row.value@, true, FormDataPartKind::Text, Seq::empty()),
    }
}

/// The fields of the rows that have a name or a value, in row order.
pub open spec fn collected_parts(rows: Seq<MultipartRow>, parts: Seq<FormDataPart>) -> Seq<PartText>
    decreases rows.len(),
{
    if rows.len() == 0 {
        Seq::empty()
    } else {
        let r = rows[0];
        let rest = collected_parts(rows.drop_first(), parts);
        if r.name@.len() == 0 && r.value@.len() == 0 {
            rest
        } else {
            seq![part_for_row(r, parts)] + rest
        }
    }
}

/// The multipart fields of the editor's rows.
pub fn collect_multipart(rows: &[MultipartRow], body: &RequestBody) -> (r: Vec<FormDataPart>)
    ensures
        part_texts(r@) == collected_parts(rows@, body.form_data@),
{
    let mut out: Vec<FormDataPart> = Vec::new();
    let mut i: usize = 0;
    assert(rows@.skip(0) == rows@);
    assert(part_texts(out@) =~= Seq::<PartText>::empty());
    while i < rows.len()
        invariant
            i <= rows.len(),
            collected_parts(rows@, body.form_data@) == part_texts(out@) + collected_parts(
                rows@.skip(i as int),
                body.form_data@,
            ),
        decreases rows.len() - i,
    {
        let ghost rest = rows@.skip(i as int);
        assert(rest[0] == rows@[i as int]);
        assert(rest.drop_first() == rows@.skip(i + 1));
        let row = &rows[i];
        if !(row.name.as_str().is_empty() && row.value.as_str().is_empty()) {
            let found = find_part(&body.form_data, row.id.as_str());
            proof {
                lemma_part_index_from(body.form_data@, row.id@, 0);
            }
            let part = match found {
                Some(k) => FormDataPart {
                    id: row.id.clone(),
                    name: row.name.clone(),
                    value: row.value.clone(),
                    enabled: body.form_data[k].enabled,
                    kind: body.form_data[k].kind,
                    content_type: body.form_data[k].content_type.clone(),
                },
                None => FormDataPart {
                    id: row.id.clone(),
                    name: row.name.clone(),
                    value: row.value.clone(),
                    enabled: true,
                    kind: FormDataPartKind::Text,
                    content_type: String::new(),
                },
            };
            let ghost before = part_texts(out@);
            out.push(part);
            assert(part_texts(out@) == before.push(part_for_row(rows@[i as int], body.form_data@)));
        }
        i = i + 1;
    }
    assert(rows@.skip(rows.len() as int) =~= Seq::<MultipartRow>::empty());
    out
}

/// An edit the multipart editor makes to one field.
#[derive(Clone, Copy)]
pub enum PartEdit {
    /// Tick or untick the field.
    Enabled(bool),
    /// Switch between text and file.
    Kind(FormDataPartKind),
    /// Give the field the content type of its kind.
    SetContentType,
    /// Drop the content type.
    UnsetContentType,
    /// Forget the chosen file of a file field.
    UnsetFile,
}

pub open spec fn text_plain() -> Seq<char> {
    "text/plain"@
}

pub open spec fn octet_stream() -> Seq<char> {
    "application/octet-stream"@
}

/// A field after an edit, before the content type is tidied.
pub open spec fn edited_part(p: PartText, edit: PartEdit) -> PartText {
    match edit {
        PartEdit::Enabled(b) => (p.0, p.1, p.2, b, p.4, p.5),
        PartEdit::Kind(k) => (p.0, p.1, p.2, p.3, k, p.5),
        PartEdit::SetContentType => (p.0, p.1, p.2, p.3, p.4, if p.4 == FormDataPartKind::Text {
            text_plain()
        } else {
            octet_stream()
        }),
        PartEdit::UnsetContentType => (p.0, p.1, p.2, p.3, p.4, Seq::empty()),
        PartEdit::UnsetFile => (p.0, p.1, if p.4 == FormDataPartKind::File {
            Seq::empty()
        } else {
            p.2
        }, p.3, p.4, p.5),
    }
}

/// A file field never keeps the text content type.
pub open spec fn tidied_part(p: PartText) -> PartText {
    if p.4 == FormDataPartKind::File && p.5 == text_plain() {
        (p.0, p.1, p.2, p.3, p.4, Seq::empty())
    } else {
        p
    }
}

/// Applies `edit` to the first field with the id `id`, then drops a text
/// content type left on a file field. Other fields stay as they are.
pub fn update_multipart_part(parts: &mut Vec<FormDataPart>, id: &str, edit: PartEdit)
    ensures
        match part_index_from(old(parts)@, id@, 0) {
            Some(i) => part_texts(final(parts)@) == part_texts(old(parts)@).update(
                i,
                tidied_part(edited_part(part_text(old(parts)@[i]), edit)),
            ),
            None => final(parts)@ == old(parts)@,
        },
{
    match find_part(parts, id) {
        None => {},
        Some(i) => {
            proof {
                lemma_part_index_from(parts@, id@, 0);
            }
            let mut part = parts[i].clone();
            match edit {
                PartEdit::Enabled(b) => {
                    part.enabled = b;
                },
                PartEdit::Kind(k) => {
                    part.kind = k;
                },
                PartEdit::SetContentType => {
                    part.content_type = match part.kind {
                        FormDataPartKind::Text => own("text/plain"),
                        FormDataPartKind::File => own("application/octet-stream"),
                    };
                },
                PartEdit::UnsetContentType => {
                    part.content_type = String::new();
                },
                PartEdit::UnsetFile => {
                    if part.kind == FormDataPartKind::File {
                        part.value = String::new();
                    }
                },
            }
            if part.kind == FormDataPartKind::File && same_text(part.content_type.as_str(), "text/plain") {
                part.content_type = String::new();
            }
            let ghost before = parts@;
            parts.set(i, part);
            assert(part_texts(parts@) =~= part_texts(before).update(
                i as int,
                tidied_part(edited_part(part_text(before[i as int]), edit)),
            ));
        },
    }
}

/// Makes the first field with the id `id` a file field for `path`.
pub fn set_multipart_file(parts: &mut Vec<FormDataPart>, id: &str, path: &str)
    ensures
        match part_index_from(old(parts)@, id@, 0) {
            Some(i) => part_texts(final(parts)@) == part_texts(old(parts)@).update(
                i,
                (old(parts)@[i].id@, old(parts)@[i].name@, path@, old(parts)@[i].enabled,
                FormDataPartKind::File, old(parts)@[i].content_type@),
            ),
            None => final(parts)@ == old(parts)@,
        },
{
    match find_part(parts, id) {
        None => {},
        Some(i) => {
            proof {
                lemma_part_index_from(parts@, id@, 0);
            }
            let mut part = parts[i].clone();
            part.kind = FormDataPartKind::File;
            part.value = own(path);
            let ghost before = parts@;
            parts.set(i, part);
            assert(part_texts(parts@) =~= part_texts(before).update(
                i as int,
                (before[i as int].id@, before[i as int].name@, path@, before[i as int].enabled,
                FormDataPartKind::File, before[i as int].content_type@),
            ));
        },
    }
}

/// Removes every field with the id `id`, keeping the order of the rest.
pub fn delete_multipart_part(parts: &mut Vec<FormDataPart>, id: &str)
    ensures
        final(parts)@ == old(parts)@.filter(|p: FormDataPart| p.id@ != id@),
{
    let key = own(id);
    let mut kept: Vec<FormDataPart> = Vec::new();
    let mut i: usize = 0;
    let ghost all = parts@;
    assert(all.take(0).filter(|p: FormDataPart| p.id@ != id@) =~= Seq::<FormDataPart>::empty());
    while i < parts.len()
        invariant
            i <= parts.len(),
            parts@ == all,
            key@ == id@,
            kept@ == all.take(i as int).filter(|p: FormDataPart| p.id@ != id@),
        decreases parts.len() - i,
    {
        assert(all.take(i + 1).drop_last() == all.take(i as int));
        proof {
            reveal_with_fuel(Seq::filter, 1);
        }
        if parts[i].id != key {
            kept.push(parts[i].clone());
        }
        i = i + 1;
    }
    assert(all.take(all.len() as int) == all);
    *parts = kept;
}


// ---------------------------------------------------------------------------
// Formatting a JSON body
// ---------------------------------------------------------------------------

/// Whether `serde_json` reads `text` as a JSON document.
pub uninterp spec fn is_json_text(text: Seq<char>) -> bool;

/// The text that `serde_json` writes, pretty-printed, for the JSON document
/// that it reads from `text`: a function of the text alone.
pub uninterp spec fn json_pretty(text: Seq<char>) -> Seq<char>;

/// `serde_json::from_str::<serde_json::Value>` followed by
/// `serde_json::to_string_pretty` on the value read. The value in between has
/// no plain model, so the two calls stand in one wrapper. Reading succeeds
/// exactly on the texts that the crate reads as JSON; a value read from text
/// has string keys only, so writing it back cannot fail. The text written is
/// named by `json_pretty`, not described.
#[verifier::external_body]
fn format_json_text(text: &str) -> (r: Option<String>)
    ensures
        r is Some == is_json_text(text@),
        r matches Some(p) ==> p@ == json_pretty(text@),
{
    match serde_json::from_str::<serde_json::Value>(text) {
        Ok(value) => serde_json::to_string_pretty(&value).ok(),
        Err(_) => None,
    }
}

/// The `Format JSON` action: a JSON body whose text reads as JSON is
/// rewritten pretty-printed; any other body is left as it is (`None`).
pub fn format_json_body(body_type: BodyType, text: &str) -> (r: Option<String>)
    ensures
        r is Some <==> (body_type == BodyType::Json && is_json_text(text@)),
        r matches Some(p) ==> p@ == json_pretty(text@),
{
    if body_type != BodyType::Json {
        return None;
    }
    format_json_text(text)
}

} // verus!
