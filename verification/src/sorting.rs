//! Sorting names in the order of `str`'s `Ord`: character by character by
//! code point, a proper prefix first.
use vstd::prelude::*;

use crate::request_panel::texts;
use crate::text::chars_of;

verus! {

/// `a` sorts strictly before `b`.
pub open spec fn text_lt(a: Seq<char>, b: Seq<char>) -> bool
    decreases a.len(),
{
    if a.len() == 0 {
        b.len() > 0
    } else if b.len() == 0 {
        false
    } else if a[0] != b[0] {
        (a[0] as int) < (b[0] as int)
    } else {
        text_lt(a.drop_first(), b.drop_first())
    }
}

/// No name sorts before itself, and of two names one sorts before the
/// other exactly when they differ and it is not the other way round.
pub proof fn lemma_text_lt_strict_total(a: Seq<char>, b: Seq<char>)
    ensures
        !(text_lt(a, b) && text_lt(b, a)),
        a == b ==> !text_lt(a, b),
        a != b ==> text_lt(a, b) || text_lt(b, a),
    decreases a.len(),
{
    if a.len() > 0 && b.len() > 0 {
        if a[0] == b[0] {
            lemma_text_lt_strict_total(a.drop_first(), b.drop_first());
            if a != b {
                assert(a.drop_first() != b.drop_first()) by {
                    if a.drop_first() == b.drop_first() {
                        assert(a =~= b) by {
                            assert forall|i: int| 0 <= i < a.len() implies a[i] == b[i] by {
                                if i > 0 {
                                    assert(a[i] == a.drop_first()[i - 1]);
                                    assert(b[i] == b.drop_first()[i - 1]);
                                }
                            }
                        }
                    }
                }
            }
        }
    } else if a.len() == 0 && b.len() == 0 {
        assert(a =~= b);
    }
}

/// The order is transitive.
pub proof fn lemma_text_lt_transitive(a: Seq<char>, b: Seq<char>, c: Seq<char>)
    requires
        text_lt(a, b),
        text_lt(b, c),
    ensures
        text_lt(a, c),
    decreases a.len(),
{
    if a.len() > 0 && b.len() > 0 && c.len() > 0 {
        if a[0] == b[0] && b[0] == c[0] {
            lemma_text_lt_transitive(a.drop_first(), b.drop_first(), c.drop_first());
        }
    }
}

/// Each name sorts no later than the ones after it.
pub open spec fn is_sorted(s: Seq<Seq<char>>) -> bool {
    forall|i: int, j: int| 0 <= i < j < s.len() ==> !text_lt(#[trigger] s[j], #[trigger] s[i])
}

/// Whether `a` sorts strictly before `b`.
pub fn text_less(a: &str, b: &str) -> (r: bool)
    ensures
        r == text_lt(a@, b@),
{
    let x = chars_of(a);
    let y = chars_of(b);
    let mut i: usize = 0;
    assert(x@.skip(0) == x@);
    assert(y@.skip(0) == y@);
    while i < x.len() && i < y.len() && x[i] == y[i]
        invariant
            i <= x.len(),
            i <= y.len(),
            x@ == a@,
            y@ == b@,
            text_lt(a@, b@) == text_lt(x@.skip(i as int), y@.skip(i as int)),
        decreases x.len() - i,
    {
        assert(x@.skip(i as int).drop_first() == x@.skip(i + 1));
        assert(y@.skip(i as int).drop_first() == y@.skip(i + 1));
        i = i + 1;
    }
    if i == x.len() {
        return i < y.len();
    }
    if i == y.len() {
        return false;
    }
    x[i] < y[i]
}

/// The names in sorted order.
pub fn sort_texts(v: Vec<String>) -> (r: Vec<String>)
    ensures
        is_sorted(texts(r@)),
        texts(r@).to_multiset() == texts(v@).to_multiset(),
{
    let mut out: Vec<String> = Vec::new();
    let mut i: usize = 0;
    assert(texts(v@).take(0) =~= Seq::<Seq<char>>::empty());
    assert(texts(out@) =~= Seq::<Seq<char>>::empty());
    while i < v.len()
        invariant
            i <= v.len(),
            is_sorted(texts(out@)),
            texts(out@).to_multiset() == texts(v@).take(i as int).to_multiset(),
        decreases v.len() - i,
    {
        let x = &v[i];
        let ghost before = texts(out@);
        let mut p: usize = 0;
        while p < out.len() && !text_less(x.as_str(), out[p].as_str())
            invariant
                p <= out.len(),
                before == texts(out@),
                forall|m: int| 0 <= m < p ==> !text_lt(x@, #[trigger] before[m]),
            decreases out.len() - p,
        {
            p = p + 1;
        }
        out.insert(p, x.clone());
        proof {
            let after = texts(out@);
            assert(after =~= before.insert(p as int, x@));
            assert forall|a: int, b: int| 0 <= a < b < after.len() implies !text_lt(
                #[trigger] after[b],
                #[trigger] after[a],
            ) by {
                if a < p && b == p {
                    lemma_text_lt_strict_total(before[a], x@);
                } else if a == p && b > p {
                    let y = before[b - 1];
                    if text_lt(y, x@) {
                        lemma_text_lt_transitive(y, x@, before[p as int]);
                        if b - 1 > p {
                            assert(!text_lt(before[b - 1], before[p as int]));
                        } else {
                            lemma_text_lt_strict_total(y, y);
                        }
                    }
                } else if a < p && b < p {
                    assert(after[a] == before[a] && after[b] == before[b]);
                } else if a < p && b > p {
                    assert(after[a] == before[a] && after[b] == before[b - 1]);
                } else {
                    assert(after[a] == before[a - 1] && after[b] == before[b - 1]);
                }
            }
            vstd::seq_lib::to_multiset_insert(before, p as int, x@);
            assert(texts(v@).take(i + 1) =~= texts(v@).take(i as int).push(x@));
            vstd::seq_lib::to_multiset_build(texts(v@).take(i as int), x@);
        }
        i = i + 1;
    }
    assert(texts(v@).take(v.len() as int) =~= texts(v@));
    out
}

} // verus!
