//! Editing the editor's lists of key/value rows: adding a blank row,
//! ticking a row, removing one.
use vstd::prelude::*;

use crate::collection_panel::FolderForm;
use crate::request_panel::{row_texts, ParamRow, RequestPanel};

verus! {

/// One of the editor's lists of key/value rows.
#[derive(Clone, Copy, Debug, PartialEq, Eq, Structural)]
pub enum RowList {
    Params,
    Headers,
    UrlEncoded,
}

/// Appends a blank, enabled row.
pub fn push_blank_row(rows: &mut Vec<ParamRow>)
    ensures
        row_texts(final(rows)@) == row_texts(old(rows)@).push((Seq::empty(), Seq::empty(), true)),
{
    let ghost before = row_texts(rows@);
    rows.push(ParamRow { key: String::new(), value: String::new(), enabled: true });
    assert(row_texts(rows@) =~= before.push((Seq::empty(), Seq::empty(), true)));
}

/// Ticks or unticks the row at `i`; nothing happens without one.
pub fn set_row_enabled(rows: &mut Vec<ParamRow>, i: usize, enabled: bool) -> (r: bool)
    ensures
        r == (i < old(rows)@.len()),
        r ==> row_texts(final(rows)@) == row_texts(old(rows)@).update(
            i as int,
            (old(rows)@[i as int].key@, old(rows)@[i as int].value@, enabled),
        ),
        !r ==> final(rows)@ == old(rows)@,
{
    if i >= rows.len() {
        return false;
    }
    let ghost before = row_texts(rows@);
    let row = ParamRow { key: rows[i].key.clone(), value: rows[i].value.clone(), enabled };
    rows.set(i, row);
    assert(row_texts(rows@) =~= before.update(i as int, (old(rows)@[i as int].key@, old(rows)@[i as int].value@, enabled)));
    true
}

/// Removes the row at `i`; nothing happens without one.
pub fn remove_row_at(rows: &mut Vec<ParamRow>, i: usize) -> (r: bool)
    ensures
        r == (i < old(rows)@.len()),
        r ==> final(rows)@ == old(rows)@.remove(i as int),
        !r ==> final(rows)@ == old(rows)@,
{
    if i >= rows.len() {
        return false;
    }
    rows.remove(i);
    true
}

/// The rows of a list.
pub open spec fn rows_of(p: RequestPanel, list: RowList) -> Seq<ParamRow> {
    match list {
        RowList::Params => p.param_rows@,
        RowList::Headers => p.header_rows@,
        RowList::UrlEncoded => p.urlencoded_rows@,
    }
}

/// The other lists and the rest of the editor are as they were.
pub open spec fn only_list_changed(a: RequestPanel, b: RequestPanel, list: RowList) -> bool {
    &&& list != RowList::Params ==> b.param_rows == a.param_rows
    &&& list != RowList::Headers ==> b.header_rows == a.header_rows
    &&& list != RowList::UrlEncoded ==> b.urlencoded_rows == a.urlencoded_rows
    &&& b.url == a.url
    &&& b.body_text == a.body_text
    &&& b.multipart_rows == a.multipart_rows
    &&& b.auth_inputs == a.auth_inputs
    &&& b.path_param_keys == a.path_param_keys
}

impl RequestPanel {
    /// The `Add` button of a list: a blank, enabled row at its end.
    pub fn add_row(&mut self, list: RowList)
        ensures
            row_texts(rows_of(*final(self), list)) == row_texts(rows_of(*old(self), list)).push(
                (Seq::empty(), Seq::empty(), true),
            ),
            only_list_changed(*old(self), *final(self), list),
    {
        match list {
            RowList::Params => push_blank_row(&mut self.param_rows),
            RowList::Headers => push_blank_row(&mut self.header_rows),
            RowList::UrlEncoded => push_blank_row(&mut self.urlencoded_rows),
        }
    }

    /// The checkbox of row `i` of a list.
    pub fn set_list_row_enabled(&mut self, list: RowList, i: usize, enabled: bool) -> (r: bool)
        ensures
            r == (i < rows_of(*old(self), list).len()),
            r ==> row_texts(rows_of(*final(self), list)) == row_texts(rows_of(*old(self), list)).update(
                i as int,
                (rows_of(*old(self), list)[i as int].key@, rows_of(*old(self), list)[i as int].value@, enabled),
            ),
            !r ==> rows_of(*final(self), list) == rows_of(*old(self), list),
            only_list_changed(*old(self), *final(self), list),
    {
        match list {
            RowList::Params => set_row_enabled(&mut self.param_rows, i, enabled),
            RowList::Headers => set_row_enabled(&mut self.header_rows, i, enabled),
            RowList::UrlEncoded => set_row_enabled(&mut self.urlencoded_rows, i, enabled),
        }
    }

    /// The remove button of row `i` of a list.
    pub fn remove_list_row(&mut self, list: RowList, i: usize) -> (r: bool)
        ensures
            r == (i < rows_of(*old(self), list).len()),
            r ==> rows_of(*final(self), list) == rows_of(*old(self), list).remove(i as int),
            !r ==> rows_of(*final(self), list) == rows_of(*old(self), list),
            only_list_changed(*old(self), *final(self), list),
    {
        match list {
            RowList::Params => remove_row_at(&mut self.param_rows, i),
            RowList::Headers => remove_row_at(&mut self.header_rows, i),
            RowList::UrlEncoded => remove_row_at(&mut self.urlencoded_rows, i),
        }
    }
}


impl FolderForm {
    /// The `Add` button under the folder's headers (`variables` false) or
    /// variables: a blank, enabled row at the end.
    pub fn add_row(&mut self, variables: bool)
        ensures
            variables ==> row_texts(final(self).variable_rows@) == row_texts(old(self).variable_rows@).push(
                (Seq::empty(), Seq::empty(), true),
            ) && final(self).header_rows == old(self).header_rows,
            !variables ==> row_texts(final(self).header_rows@) == row_texts(old(self).header_rows@).push(
                (Seq::empty(), Seq::empty(), true),
            ) && final(self).variable_rows == old(self).variable_rows,
            final(self).name == old(self).name,
            final(self).description == old(self).description,
            final(self).auth == old(self).auth,
    {
        if variables {
            push_blank_row(&mut self.variable_rows);
        } else {
            push_blank_row(&mut self.header_rows);
        }
    }

    /// The remove button of row `i` of the folder's headers or variables;
    /// nothing happens without such a row.
    pub fn remove_row(&mut self, variables: bool, i: usize) -> (r: bool)
        ensures
            variables ==> {
                &&& r == (i < old(self).variable_rows@.len())
                &&& r ==> final(self).variable_rows@ == old(self).variable_rows@.remove(i as int)
                &&& !r ==> final(self).variable_rows@ == old(self).variable_rows@
                &&& final(self).header_rows == old(self).header_rows
            },
            !variables ==> {
                &&& r == (i < old(self).header_rows@.len())
                &&& r ==> final(self).header_rows@ == old(self).header_rows@.remove(i as int)
                &&& !r ==> final(self).header_rows@ == old(self).header_rows@
                &&& final(self).variable_rows == old(self).variable_rows
            },
            final(self).name == old(self).name,
            final(self).description == old(self).description,
            final(self).auth == old(self).auth,
    {
        if variables {
            remove_row_at(&mut self.variable_rows, i)
        } else {
            remove_row_at(&mut self.header_rows, i)
        }
    }
}

} // verus!
