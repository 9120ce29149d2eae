//! Variables: resolving a `{{name}}` of the URL against the workspace and
//! the collection of the active request, and setting a workspace variable
//! from the URL bar.
use vstd::prelude::*;

use crate::models::{is_hyphenated_uuid, Collection, Variable};
use crate::text::same_text;
use crate::tree::{collection_contains_request, items_have_request};

verus! {

/// Position of the first entry equal to `x`, searching from `k` on.
pub open spec fn first_index(s: Seq<Seq<char>>, x: Seq<char>, k: int) -> Option<int>
    decreases s.len() - k,
{
    if k < 0 || k >= s.len() {
        None
    } else if s[k] == x {
        Some(k)
    } else {
        first_index(s, x, k + 1)
    }
}

/// What `first_index` finds: an entry equal to `x` with none before it.
pub proof fn lemma_first_index(s: Seq<Seq<char>>, x: Seq<char>, k: int)
    requires
        0 <= k,
    ensures
        match first_index(s, x, k) {
            Some(i) => k <= i < s.len() && s[i] == x && forall|j: int| k <= j < i ==> s[j] != x,
            None => forall|j: int| k <= j < s.len() ==> s[j] != x,
        },
    decreases s.len() - k,
{
    if k < s.len() && s[k] != x {
        lemma_first_index(s, x, k + 1);
    }
}

/// Appending an entry changes the first match only where there was none.
pub proof fn lemma_first_index_push(s: Seq<Seq<char>>, y: Seq<char>, x: Seq<char>, k: int)
    requires
        0 <= k <= s.len(),
    ensures
        first_index(s.push(y), x, k) == match first_index(s, x, k) {
            Some(i) => Some(i),
            None => if y == x {
                Some(s.len() as int)
            } else {
                None
            },
        },
    decreases s.len() - k,
{
    let t = s.push(y);
    if k < s.len() {
        assert(t[k] == s[k]);
        if s[k] != x {
            lemma_first_index_push(s, y, x, k + 1);
        }
    } else {
        assert(t[k] == y);
        if y != x {
            assert(first_index(t, x, k + 1) is None);
        }
    }
}

/// The names of a list of variables.
pub open spec fn var_names(vars: Seq<Variable>) -> Seq<Seq<char>> {
    vars.map_values(|v: Variable| v.name@)
}

/// The value of the first variable named `name`, enabled or not.
pub open spec fn var_value(vars: Seq<Variable>, name: Seq<char>) -> Option<Seq<char>> {
    match first_index(var_names(vars), name, 0) {
        Some(i) => Some(vars[i].value@),
        None => None,
    }
}

/// The first collection that holds the request `id`.
pub open spec fn owning_collection(cols: Seq<Collection>, id: Seq<char>, k: int) -> Option<int>
    decreases cols.len() - k,
{
    if k < 0 || k >= cols.len() {
        None
    } else if items_have_request(cols[k].items@, id, 0) {
        Some(k)
    } else {
        owning_collection(cols, id, k + 1)
    }
}

/// What `{{name}}` stands for: the workspace variable of that name, else
/// the variable of the collection that holds the active request.
pub open spec fn resolved_variable(
    workspace: Seq<Variable>,
    cols: Seq<Collection>,
    active_request_id: Option<Seq<char>>,
    name: Seq<char>,
) -> Option<Seq<char>> {
    match var_value(workspace, name) {
        Some(v) => Some(v),
        None => match active_request_id {
            None => None,
            Some(id) => match owning_collection(cols, id, 0) {
                Some(c) => var_value(cols[c].variables@, name),
                None => None,
            },
        },
    }
}

/// The position of the first variable named `name`.
pub fn find_variable(vars: &[Variable], name: &str) -> (r: Option<usize>)
    ensures
        match r {
            Some(i) => i < vars@.len() && first_index(var_names(vars@), name@, 0) == Some(i as int),
            None => first_index(var_names(vars@), name@, 0) is None,
        },
{
    let ghost names = var_names(vars@);
    let mut i: usize = 0;
    while i < vars.len()
        invariant
            i <= vars.len(),
            names == var_names(vars@),
            first_index(names, name@, 0) == first_index(names, name@, i as int),
        decreases vars.len() - i,
    {
        assert(names[i as int] == vars@[i as int].name@);
        if same_text(vars[i].name.as_str(), name) {
            return Some(i);
        }
        i = i + 1;
    }
    None
}

/// The value of `{{name}}`: the first workspace variable so named, else the
/// first so named of the collection that holds the active request.
pub fn variable_value(
    workspace: &[Variable],
    collections: &[Collection],
    active_request_id: &Option<String>,
    name: &str,
) -> (r: Option<String>)
    ensures
        match r {
            Some(v) => resolved_variable(
                workspace@,
                collections@,
                match active_request_id {
                    Some(id) => Some(id@),
                    None => None,
                },
                name@,
            ) == Some(v@),
            None => resolved_variable(
                workspace@,
                collections@,
                match active_request_id {
                    Some(id) => Some(id@),
                    None => None,
                },
                name@,
            ) is None,
        },
{
    if let Some(i) = find_variable(workspace, name) {
        return Some(workspace[i].value.clone());
    }
    let request_id = match active_request_id {
        Some(id) => id,
        None => {
            return None;
        },
    };
    let mut c: usize = 0;
    while c < collections.len()
        invariant
            c <= collections.len(),
            first_index(var_names(workspace@), name@, 0) is None,
            *active_request_id == Some(*request_id),
            owning_collection(collections@, request_id@, 0) == owning_collection(
                collections@,
                request_id@,
                c as int,
            ),
        decreases collections.len() - c,
    {
        if collection_contains_request(&collections[c], request_id.as_str()) {
            let vars = collections[c].variables.as_slice();
            assert(owning_collection(collections@, request_id@, c as int) == Some(c as int));
            return match find_variable(vars, name) {
                Some(j) => Some(vars[j].value.clone()),
                None => None,
            };
        }
        c = c + 1;
    }
    None
}

/// `new` is `old` after setting the workspace variable `name` to `value`:
/// the first variable so named gets the value and is enabled, keeping its
/// id and name; without one, a new enabled variable is appended.
pub open spec fn variable_set(old: Seq<Variable>, new: Seq<Variable>, name: Seq<char>, value: Seq<char>) -> bool {
    match first_index(var_names(old), name, 0) {
        Some(i) => {
            &&& new.len() == old.len()
            &&& new[i].id == old[i].id
            &&& new[i].name == old[i].name
            &&& new[i].value@ == value
            &&& new[i].enabled
            &&& forall|j: int| 0 <= j < old.len() && j != i ==> new[j] == old[j]
        },
        None => {
            &&& new.len() == old.len() + 1
            &&& new.take(old.len() as int) == old
            &&& new.last().name@ == name
            &&& new.last().value@ == value
            &&& new.last().enabled
            &&& is_hyphenated_uuid(new.last().id@)
        },
    }
}

/// Sets the workspace variable `name` to `value`, as typing into a URL
/// variable's field does.
pub fn update_global_variable(variables: &mut Vec<Variable>, name: &str, value: &str)
    ensures
        variable_set(old(variables)@, final(variables)@, name@, value@),
{
    match find_variable(variables.as_slice(), name) {
        Some(i) => {
            let mut var = variables[i].clone();
            var.value = value.to_owned();
            var.enabled = true;
            variables.set(i, var);
        },
        None => {
            variables.push(Variable::new(name, value));
            assert(variables@.take(old(variables)@.len() as int) =~= old(variables)@);
        },
    }
}

/// After setting `name` to `value`, `{{name}}` resolves to `value`, and
/// every other name resolves as before, whatever the collections and the
/// active request.
pub proof fn law_variable_set_then_resolved(
    old: Seq<Variable>,
    new: Seq<Variable>,
    cols: Seq<Collection>,
    active_request_id: Option<Seq<char>>,
    name: Seq<char>,
    value: Seq<char>,
    other: Seq<char>,
)
    requires
        variable_set(old, new, name, value),
        other != name,
    ensures
        resolved_variable(new, cols, active_request_id, name) == Some(value),
        resolved_variable(new, cols, active_request_id, other) == resolved_variable(
            old,
            cols,
            active_request_id,
            other,
        ),
{
    let on = var_names(old);
    let nn = var_names(new);
    lemma_first_index(on, name, 0);
    match first_index(on, name, 0) {
        Some(i) => {
            assert(nn =~= on) by {
                assert forall|j: int| 0 <= j < on.len() implies nn[j] == on[j] by {
                    if j != i {
                        assert(new[j] == old[j]);
                    }
                }
            }
            lemma_first_index(on, other, 0);
            match first_index(on, other, 0) {
                Some(j) => {
                    assert(j != i);
                    assert(new[j] == old[j]);
                },
                None => {},
            }
        },
        None => {
            assert(new =~= old.push(new.last())) by {
                assert(new.take(old.len() as int) == old);
                assert forall|j: int| 0 <= j < new.len() implies new[j] == old.push(new.last())[j] by {
                    if j < old.len() {
                        assert(new.take(old.len() as int)[j] == new[j]);
                    }
                }
            }
            assert(nn =~= on.push(new.last().name@));
            lemma_first_index_push(on, new.last().name@, name, 0);
            lemma_first_index_push(on, new.last().name@, other, 0);
            assert(new[old.len() as int] == new.last());
            match first_index(on, other, 0) {
                Some(j) => {
                    lemma_first_index(on, other, 0);
                    assert(new[j] == old[j]);
                },
                None => {},
            }
        },
    }
}

/// The first collection from `j` on that holds `id` is the first one
/// from `0` on, when none before `j` holds it.
proof fn lemma_owning_collection(cols: Seq<Collection>, id: Seq<char>, j: int, k: int)
    requires
        0 <= j <= k < cols.len(),
        items_have_request(cols[k].items@, id, 0),
        forall|m: int| 0 <= m < k ==> !items_have_request(#[trigger] cols[m].items@, id, 0),
    ensures
        owning_collection(cols, id, j) == Some(k),
    decreases k - j,
{
    if j < k {
        lemma_owning_collection(cols, id, j + 1, k);
    }
}

/// A name that no workspace variable has resolves in the first collection
/// holding the active request, wherever in its folders the request sits:
/// to the value of that collection's first variable of the name, and to
/// nothing when it has none.
pub proof fn law_variable_from_the_request_s_collection(
    workspace: Seq<Variable>,
    cols: Seq<Collection>,
    id: Seq<char>,
    name: Seq<char>,
    k: int,
)
    requires
        forall|j: int| 0 <= j < workspace.len() ==> (#[trigger] workspace[j]).name@ != name,
        0 <= k < cols.len(),
        items_have_request(cols[k].items@, id, 0),
        forall|m: int| 0 <= m < k ==> !items_have_request(#[trigger] cols[m].items@, id, 0),
    ensures
        ({
            let vars = cols[k].variables@;
            match resolved_variable(workspace, cols, Some(id), name) {
                Some(v) => exists|j: int|
                    0 <= j < vars.len() && (#[trigger] vars[j]).name@ == name && vars[j].value@ == v && forall|
                        m: int,
                    | 0 <= m < j ==> (#[trigger] vars[m]).name@ != name,
                None => forall|j: int| 0 <= j < vars.len() ==> (#[trigger] vars[j]).name@ != name,
            }
        }),
{
    let wn = var_names(workspace);
    lemma_first_index(wn, name, 0);
    if let Some(i) = first_index(wn, name, 0) {
        assert(wn[i] == workspace[i].name@);
    }
    lemma_owning_collection(cols, id, 0, k);
    let vars = cols[k].variables@;
    let vn = var_names(vars);
    lemma_first_index(vn, name, 0);
    match first_index(vn, name, 0) {
        Some(j) => {
            assert(vn[j] == vars[j].name@);
            assert forall|m: int| 0 <= m < j implies (#[trigger] vars[m]).name@ != name by {
                assert(vn[m] == vars[m].name@);
            }
        },
        None => {
            assert forall|j: int| 0 <= j < vars.len() implies (#[trigger] vars[j]).name@ != name by {
                assert(vn[j] == vars[j].name@);
            }
        },
    }
}

/// A workspace variable wins: a name that some workspace variable has
/// resolves to the first such variable's value, whatever the collections
/// and the active request.
pub proof fn law_workspace_variable_first(
    workspace: Seq<Variable>,
    cols: Seq<Collection>,
    active_request_id: Option<Seq<char>>,
    name: Seq<char>,
    j: int,
)
    requires
        0 <= j < workspace.len(),
        workspace[j].name@ == name,
        forall|m: int| 0 <= m < j ==> (#[trigger] workspace[m]).name@ != name,
    ensures
        resolved_variable(workspace, cols, active_request_id, name) == Some(workspace[j].value@),
{
    let wn = var_names(workspace);
    lemma_first_index(wn, name, 0);
    assert(wn[j] == name);
    match first_index(wn, name, 0) {
        Some(i) => {
            if i < j {
                assert(wn[i] == workspace[i].name@);
            }
            if j < i {
                assert(wn[j] == name);
            }
        },
        None => {},
    }
}

} // verus!
