//! The font families that the settings offer: the system's families in
//! case-insensitive order without case-insensitive repeats, after the
//! system UI font and a few preferred families.
use vstd::prelude::*;

use crate::app_view::AppView;
use crate::request_panel::texts;
use crate::sorting::{lemma_text_lt_strict_total, lemma_text_lt_transitive, text_less, text_lt};
use crate::text::{ascii_lower, chars_of, lowercase, own, to_lowercase, trim, trimmed};

verus! {

/// `str::eq_ignore_ascii_case`: equal once ASCII letters are lower-cased.
pub open spec fn same_ignoring_ascii_case(a: Seq<char>, b: Seq<char>) -> bool {
    a.len() == b.len() && forall|i: int| 0 <= i < a.len() ==> ascii_lower(#[trigger] a[i]) == ascii_lower(b[i])
}

/// Whether two names are equal once ASCII letters are lower-cased.
pub fn eq_ignore_ascii_case(a: &str, b: &str) -> (r: bool)
    ensures
        r == same_ignoring_ascii_case(a@, b@),
{
    let x = chars_of(a);
    let y = chars_of(b);
    if x.len() != y.len() {
        return false;
    }
    let mut i: usize = 0;
    while i < x.len()
        invariant
            i <= x.len(),
            x.len() == y.len(),
            x@ == a@,
            y@ == b@,
            forall|j: int| 0 <= j < i ==> ascii_lower(#[trigger] x@[j]) == ascii_lower(y@[j]),
        decreases x.len() - i,
    {
        let c = x[i];
        let d = y[i];
        let lc = if 'A' <= c && c <= 'Z' {
            ((c as u32) + 32) as u8 as char
        } else {
            c
        };
        let ld = if 'A' <= d && d <= 'Z' {
            ((d as u32) + 32) as u8 as char
        } else {
            d
        };
        assert(lc == ascii_lower(c) && ld == ascii_lower(d));
        if lc != ld {
            return false;
        }
        i = i + 1;
    }
    true
}

/// The name of the system UI font.
pub open spec fn system_ui_font() -> Seq<char> {
    ".SystemUIFont"@
}

/// The families named first when the system has them.
pub open spec fn preferred_fonts() -> Seq<Seq<char>> {
    seq!["Inter"@, "Arial"@, "DejaVu Sans"@, "Noto Sans"@, "Segoe UI"@]
}

/// The names that are families to offer: not blank, not the UI font.
pub open spec fn usable_fonts(s: Seq<Seq<char>>) -> Seq<Seq<char>>
    decreases s.len(),
{
    if s.len() == 0 {
        Seq::empty()
    } else {
        let init = usable_fonts(s.drop_last());
        if trim(s.last()).len() > 0 && s.last() != system_ui_font() {
            init.push(s.last())
        } else {
            init
        }
    }
}

/// The names whose lower-cased form is `k`, in order.
pub open spec fn names_with_key(s: Seq<Seq<char>>, k: Seq<char>) -> Seq<Seq<char>>
    decreases s.len(),
{
    if s.len() == 0 {
        Seq::empty()
    } else {
        let init = names_with_key(s.drop_last(), k);
        if lowercase(s.last()) == k {
            init.push(s.last())
        } else {
            init
        }
    }
}

/// The names are in order of their lower-cased forms.
pub open spec fn key_sorted(s: Seq<Seq<char>>) -> bool {
    forall|i: int, j: int|
        0 <= i < j < s.len() ==> !text_lt(lowercase(#[trigger] s[j]), lowercase(#[trigger] s[i]))
}

/// `t` is `s` sorted stably by lower-cased form: in that order, and names
/// with the same lower-cased form in the order they had in `s`.
pub open spec fn stably_sorted_by_key(s: Seq<Seq<char>>, t: Seq<Seq<char>>) -> bool {
    &&& key_sorted(t)
    &&& forall|k: Seq<char>| #[trigger] names_with_key(t, k) == names_with_key(s, k)
}

/// `Vec::dedup_by` with `eq_ignore_ascii_case`: a name equal, ignoring
/// ASCII case, to the last one kept is dropped.
pub open spec fn dedup_ascii(s: Seq<Seq<char>>) -> Seq<Seq<char>>
    decreases s.len(),
{
    if s.len() == 0 {
        Seq::empty()
    } else {
        let d = dedup_ascii(s.drop_last());
        if d.len() > 0 && same_ignoring_ascii_case(s.last(), d.last()) {
            d
        } else {
            d.push(s.last())
        }
    }
}

/// `out` followed by each of `prefs` that `fonts` holds.
pub open spec fn with_preferred(out: Seq<Seq<char>>, fonts: Seq<Seq<char>>, prefs: Seq<Seq<char>>) -> Seq<Seq<char>>
    decreases prefs.len(),
{
    if prefs.len() == 0 {
        out
    } else {
        let o = with_preferred(out, fonts, prefs.drop_last());
        if fonts.contains(prefs.last()) {
            o.push(prefs.last())
        } else {
            o
        }
    }
}

/// `out` followed by each of `fonts` not yet in it, ignoring ASCII case.
pub open spec fn with_rest(out: Seq<Seq<char>>, fonts: Seq<Seq<char>>) -> Seq<Seq<char>>
    decreases fonts.len(),
{
    if fonts.len() == 0 {
        out
    } else {
        let o = with_rest(out, fonts.drop_last());
        if exists|i: int| 0 <= i < o.len() && same_ignoring_ascii_case(#[trigger] o[i], fonts.last()) {
            o
        } else {
            o.push(fonts.last())
        }
    }
}

/// The offered families for a sorted list of the system's families.
pub open spec fn offered_fonts(sorted: Seq<Seq<char>>) -> Seq<Seq<char>> {
    let d = dedup_ascii(sorted);
    with_rest(with_preferred(seq![system_ui_font()], d, preferred_fonts()), d)
}

proof fn lemma_names_with_key_concat(a: Seq<Seq<char>>, b: Seq<Seq<char>>, k: Seq<char>)
    ensures
        names_with_key(a + b, k) == names_with_key(a, k) + names_with_key(b, k),
    decreases b.len(),
{
    if b.len() == 0 {
        assert(a + b =~= a);
        assert(names_with_key(a, k) + Seq::<Seq<char>>::empty() =~= names_with_key(a, k));
    } else {
        assert((a + b).drop_last() =~= a + b.drop_last());
        assert((a + b).last() == b.last());
        lemma_names_with_key_concat(a, b.drop_last(), k);
        if lowercase(b.last()) == k {
            assert(names_with_key(a, k) + names_with_key(b.drop_last(), k).push(b.last()) =~= (names_with_key(
                a,
                k,
            ) + names_with_key(b.drop_last(), k)).push(b.last()));
        }
    }
}

proof fn lemma_names_with_key_none(b: Seq<Seq<char>>, k: Seq<char>)
    requires
        forall|j: int| 0 <= j < b.len() ==> lowercase(#[trigger] b[j]) != k,
    ensures
        names_with_key(b, k) == Seq::<Seq<char>>::empty(),
    decreases b.len(),
{
    if b.len() > 0 {
        assert(lowercase(b[b.len() - 1]) != k);
        assert forall|j: int| 0 <= j < b.drop_last().len() implies lowercase(#[trigger] b.drop_last()[j]) != k by {
            assert(b.drop_last()[j] == b[j]);
        }
        lemma_names_with_key_none(b.drop_last(), k);
    }
}

/// The names of `v` sorted stably by their lower-cased forms.
pub fn sort_by_lowercase(v: Vec<String>) -> (r: Vec<String>)
    ensures
        stably_sorted_by_key(texts(v@), texts(r@)),
{
    let ghost all = texts(v@);
    let mut out: Vec<String> = Vec::new();
    let mut keys: Vec<String> = Vec::new();
    let mut i: usize = 0;
    assert(all.take(0) =~= Seq::<Seq<char>>::empty());
    assert(texts(out@) =~= Seq::<Seq<char>>::empty());
    while i < v.len()
        invariant
            i <= v.len(),
            all == texts(v@),
            keys@.len() == out@.len(),
            forall|m: int| 0 <= m < out@.len() ==> (#[trigger] keys@[m])@ == lowercase(out@[m]@),
            key_sorted(texts(out@)),
            forall|k: Seq<char>| #[trigger] names_with_key(texts(out@), k) == names_with_key(all.take(i as int), k),
        decreases v.len() - i,
    {
        let x = v[i].clone();
        let kx = to_lowercase(x.as_str());
        let ghost before = texts(out@);
        let mut p: usize = 0;
        while p < out.len() && !text_less(kx.as_str(), keys[p].as_str())
            invariant
                p <= out.len(),
                keys@.len() == out@.len(),
                before == texts(out@),
                forall|m: int| 0 <= m < out@.len() ==> (#[trigger] keys@[m])@ == lowercase(out@[m]@),
                forall|m: int| 0 <= m < p ==> !text_lt(kx@, lowercase(#[trigger] before[m])),
            decreases out.len() - p,
        {
            assert(keys@[p as int]@ == lowercase(before[p as int]));
            p = p + 1;
        }
        proof {
            if p < out.len() {
                assert(keys@[p as int]@ == lowercase(before[p as int]));
                assert(text_lt(kx@, lowercase(before[p as int])));
            }
        }
        let ghost old_keys = keys@;
        out.insert(p, x);
        keys.insert(p, kx);
        proof {
            let after = texts(out@);
            let xs = v@[i as int]@;
            assert(after =~= before.insert(p as int, xs));
            assert forall|m: int| 0 <= m < out@.len() implies (#[trigger] keys@[m])@ == lowercase(out@[m]@) by {
                if m < p {
                    assert(keys@[m] == old_keys[m]);
                } else if m > p {
                    assert(keys@[m] == old_keys[m - 1]);
                }
            }
            // Sortedness by key.
            assert forall|a: int, b: int| 0 <= a < b < after.len() implies !text_lt(
                lowercase(#[trigger] after[b]),
                lowercase(#[trigger] after[a]),
            ) by {
                if a < p && b == p {
                    lemma_text_lt_strict_total(lowercase(before[a]), lowercase(xs));
                } else if a == p && b > p {
                    let y = lowercase(before[b - 1]);
                    if text_lt(y, lowercase(xs)) {
                        lemma_text_lt_transitive(y, lowercase(xs), lowercase(before[p as int]));
                        if b - 1 > p {
                            assert(!text_lt(lowercase(before[b - 1]), lowercase(before[p as int])));
                        } else {
                            lemma_text_lt_strict_total(y, y);
                        }
                    }
                } else if a < p && b < p {
                    assert(after[a] == before[a] && after[b] == before[b]);
                } else if a < p && b > p {
                    assert(after[a] == before[a] && after[b] == before[b - 1]);
                } else {
                    assert(after[a] == before[a - 1] && after[b] == before[b - 1]);
                }
            }
            // The names after the insertion point sort strictly after `x`.
            let tail = before.skip(p as int);
            assert forall|j: int| 0 <= j < tail.len() implies lowercase(#[trigger] tail[j]) != lowercase(xs) by {
                assert(tail[j] == before[p + j]);
                if lowercase(tail[j]) == lowercase(xs) {
                    if j == 0 {
                        lemma_text_lt_strict_total(lowercase(xs), lowercase(xs));
                    } else {
                        assert(!text_lt(lowercase(before[p + j]), lowercase(before[p as int])));
                    }
                }
            }
            let head = before.take(p as int);
            assert(before =~= head + tail);
            assert(after =~= head + seq![xs] + tail);
            assert(all.take(i + 1) =~= all.take(i as int).push(xs));
            assert(all.take(i + 1).drop_last() =~= all.take(i as int));
            assert forall|k: Seq<char>| #[trigger] names_with_key(after, k) == names_with_key(all.take(i + 1), k) by {
                lemma_names_with_key_concat(head, tail, k);
                lemma_names_with_key_concat(head + seq![xs], tail, k);
                lemma_names_with_key_concat(head, seq![xs], k);
                assert(seq![xs].drop_last() =~= Seq::<Seq<char>>::empty());
                assert(seq![xs].last() == xs);
                assert(names_with_key(Seq::<Seq<char>>::empty(), k) == Seq::<Seq<char>>::empty());
                let one = names_with_key(seq![xs], k);
                assert(one == if lowercase(xs) == k {
                    seq![xs]
                } else {
                    Seq::<Seq<char>>::empty()
                });
                assert(names_with_key(before, k) == names_with_key(all.take(i as int), k));
                let nh = names_with_key(head, k);
                let nt = names_with_key(tail, k);
                if k == lowercase(xs) {
                    lemma_names_with_key_none(tail, k);
                    assert(nh + Seq::<Seq<char>>::empty() =~= nh);
                    assert(nh + seq![xs] + Seq::<Seq<char>>::empty() =~= nh.push(xs));
                } else {
                    assert(nh + Seq::<Seq<char>>::empty() =~= nh);
                }
            }
        }
        i = i + 1;
    }
    assert(all.take(v.len() as int) =~= all);
    out
}

impl AppView {
    /// The font families to offer, from the names the system reports: the
    /// system UI font first, then those of the preferred families that the
    /// system has, then the rest, sorted by lower-cased name with names
    /// repeated up to ASCII case left out; blank names are dropped.
    pub fn system_font_families(names: Vec<String>) -> (r: Vec<String>)
        ensures
            exists|sorted: Seq<Seq<char>>|
                #![trigger offered_fonts(sorted)]
                stably_sorted_by_key(usable_fonts(texts(names@)), sorted) && texts(r@) == offered_fonts(sorted),
    {
        proof {
            reveal_strlit(".SystemUIFont");
        }
        let ghost all = texts(names@);
        let mut usable: Vec<String> = Vec::new();
        let mut i: usize = 0;
        assert(all.take(0) =~= Seq::<Seq<char>>::empty());
        assert(texts(usable@) =~= Seq::<Seq<char>>::empty());
        while i < names.len()
            invariant
                i <= names.len(),
                all == texts(names@),
                texts(usable@) == usable_fonts(all.take(i as int)),
            decreases names.len() - i,
        {
            let ghost before = texts(usable@);
            assert(all.take(i + 1).drop_last() == all.take(i as int));
            assert(all.take(i + 1).last() == names@[i as int]@);
            let t = trimmed(names[i].as_str());
            if !t.as_str().is_empty() && !crate::text::same_text(names[i].as_str(), ".SystemUIFont") {
                usable.push(names[i].clone());
                assert(texts(usable@) =~= before.push(names@[i as int]@));
            }
            i = i + 1;
        }
        assert(all.take(names.len() as int) =~= all);
        let sorted = sort_by_lowercase(usable);
        let ghost s = texts(sorted@);
        // Repeats up to ASCII case go.
        let mut fonts: Vec<String> = Vec::new();
        let mut j: usize = 0;
        assert(s.take(0) =~= Seq::<Seq<char>>::empty());
        assert(texts(fonts@) =~= Seq::<Seq<char>>::empty());
        while j < sorted.len()
            invariant
                j <= sorted.len(),
                s == texts(sorted@),
                texts(fonts@) == dedup_ascii(s.take(j as int)),
            decreases sorted.len() - j,
        {
            let ghost before = texts(fonts@);
            assert(s.take(j + 1).drop_last() == s.take(j as int));
            assert(s.take(j + 1).last() == sorted@[j as int]@);
            let repeat = fonts.len() > 0 && eq_ignore_ascii_case(
                sorted[j].as_str(),
                fonts[fonts.len() - 1].as_str(),
            );
            proof {
                if fonts.len() > 0 {
                    assert(before.last() == fonts@[fonts.len() - 1]@);
                }
            }
            if !repeat {
                fonts.push(sorted[j].clone());
                assert(texts(fonts@) =~= before.push(sorted@[j as int]@));
            }
            j = j + 1;
        }
        assert(s.take(sorted.len() as int) =~= s);
        let ghost d = texts(fonts@);
        // The UI font, then the preferred families that are there.
        let mut out: Vec<String> = Vec::new();
        out.push(own(".SystemUIFont"));
        assert(texts(out@) =~= seq![system_ui_font()]);
        let prefs = ["Inter", "Arial", "DejaVu Sans", "Noto Sans", "Segoe UI"];
        let ghost ps = preferred_fonts();
        assert(ps.take(0) =~= Seq::<Seq<char>>::empty());
        let mut k: usize = 0;
        while k < 5
            invariant
                k <= 5,
                ps == preferred_fonts(),
                prefs@.len() == 5,
                forall|m: int| 0 <= m < 5 ==> (#[trigger] prefs@[m])@ == ps[m],
                d == texts(fonts@),
                texts(out@) == with_preferred(seq![system_ui_font()], d, ps.take(k as int)),
            decreases 5 - k,
        {
            let ghost before = texts(out@);
            assert(ps.take(k + 1).drop_last() == ps.take(k as int));
            assert(ps.take(k + 1).last() == ps[k as int]);
            let mut found = false;
            let mut m: usize = 0;
            while m < fonts.len()
                invariant
                    m <= fonts.len(),
                    k < 5,
                    prefs@.len() == 5,
                    d == texts(fonts@),
                    found == exists|w: int| 0 <= w < m && #[trigger] d[w] == prefs@[k as int]@,
                decreases fonts.len() - m,
            {
                if crate::text::same_text(fonts[m].as_str(), prefs[k]) {
                    assert(d[m as int] == prefs@[k as int]@);
                    found = true;
                }
                m = m + 1;
            }
            assert(found == d.contains(ps[k as int]));
            if found {
                out.push(own(prefs[k]));
                assert(texts(out@) =~= before.push(ps[k as int]));
            }
            k = k + 1;
        }
        assert(ps.take(5) =~= ps);
        // Then every family not listed yet.
        let ghost start = texts(out@);
        let mut n: usize = 0;
        assert(d.take(0) =~= Seq::<Seq<char>>::empty());
        while n < fonts.len()
            invariant
                n <= fonts.len(),
                d == texts(fonts@),
                texts(out@) == with_rest(start, d.take(n as int)),
            decreases fonts.len() - n,
        {
            let ghost before = texts(out@);
            assert(d.take(n + 1).drop_last() == d.take(n as int));
            assert(d.take(n + 1).last() == d[n as int]);
            let mut listed = false;
            let mut q: usize = 0;
            while q < out.len()
                invariant
                    q <= out.len(),
                    before == texts(out@),
                    d == texts(fonts@),
                    n < fonts.len(),
                    listed == exists|w: int| 0 <= w < q && same_ignoring_ascii_case(#[trigger] before[w], d[n as int]),
                decreases out.len() - q,
            {
                if eq_ignore_ascii_case(out[q].as_str(), fonts[n].as_str()) {
                    assert(same_ignoring_ascii_case(before[q as int], d[n as int]));
                    listed = true;
                }
                q = q + 1;
            }
            if !listed {
                out.push(fonts[n].clone());
                assert(texts(out@) =~= before.push(d[n as int]));
            }
            n = n + 1;
        }
        assert(d.take(fonts.len() as int) =~= d);
        assert(texts(out@) == offered_fonts(s));
        out
    }
}

} // verus!
