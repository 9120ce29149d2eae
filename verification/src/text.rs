//! Character-level helpers shared by the URL, parameter and picker logic.
//!
//! Strings are handled through their view, a `Seq<char>`.  The executable
//! helpers convert between `&str`/`String` and `Vec<char>` and search
//! character sequences; the spec functions below say what each search finds.
use vstd::prelude::*;

verus! {

// ---------------------------------------------------------------------------
// Character classes
// ---------------------------------------------------------------------------

/// `char::is_ascii_alphanumeric`: `0-9`, `a-z` or `A-Z`.
pub open spec fn is_ascii_alnum(c: char) -> bool {
    ('0' <= c && c <= '9') || ('a' <= c && c <= 'z') || ('A' <= c && c <= 'Z')
}

/// `char::is_whitespace`: the Unicode `White_Space` property.
pub open spec fn is_white_space(c: char) -> bool {
    ||| ('\u{9}' <= c && c <= '\u{d}')
    ||| c == ' '
    ||| c == '\u{85}'
    ||| c == '\u{a0}'
    ||| c == '\u{1680}'
    ||| ('\u{2000}' <= c && c <= '\u{200a}')
    ||| c == '\u{2028}'
    ||| c == '\u{2029}'
    ||| c == '\u{202f}'
    ||| c == '\u{205f}'
    ||| c == '\u{3000}'
}

pub fn ascii_alnum(c: char) -> (r: bool)
    ensures
        r == is_ascii_alnum(c),
{
    ('0' <= c && c <= '9') || ('a' <= c && c <= 'z') || ('A' <= c && c <= 'Z')
}

pub fn white_space(c: char) -> (r: bool)
    ensures
        r == is_white_space(c),
{
    ('\u{9}' <= c && c <= '\u{d}') || c == ' ' || c == '\u{85}' || c == '\u{a0}' || c
        == '\u{1680}' || ('\u{2000}' <= c && c <= '\u{200a}') || c == '\u{2028}' || c
        == '\u{2029}' || c == '\u{202f}' || c == '\u{205f}' || c == '\u{3000}'
}

// ---------------------------------------------------------------------------
// Conversions
// ---------------------------------------------------------------------------

/// The characters of `s`, in order.
pub fn chars_of(s: &str) -> (v: Vec<char>)
    ensures
        v@ == s@,
{
    let mut v: Vec<char> = Vec::new();
    for c in it: s.chars()
        invariant
            v@ == it.seq().take(it.index() as int),
            it.seq() == s@,
    {
        v.push(c);
    }
    v
}

/// `String::push`: appends one character.
#[verifier::external_body]
pub(crate) fn push_char(s: &mut String, c: char)
    ensures
        final(s)@ == old(s)@.push(c),
{
    s.push(c);
}

/// Appends the characters `v[from..to]` to `out`.
pub fn push_range(out: &mut String, v: &Vec<char>, from: usize, to: usize)
    requires
        from <= to <= v.len(),
    ensures
        final(out)@ == old(out)@ + v@.subrange(from as int, to as int),
{
    let mut i = from;
    while i < to
        invariant
            from <= i <= to <= v.len(),
            out@ == old(out)@ + v@.subrange(from as int, i as int),
        decreases to - i,
    {
        push_char(out, v[i]);
        i = i + 1;
        assert(v@.subrange(from as int, i as int) == v@.subrange(from as int, (i - 1) as int).push(
            v@[i - 1],
        ));
    }
}

/// Appends all of `s` to `out`.
pub fn push_str(out: &mut String, s: &str)
    ensures
        final(out)@ == old(out)@ + s@,
{
    let v = chars_of(s);
    push_range(out, &v, 0, v.len());
    assert(v@.subrange(0, v@.len() as int) == v@);
}

/// The string made of the characters `v[from..to]`.
pub fn string_of_range(v: &Vec<char>, from: usize, to: usize) -> (s: String)
    requires
        from <= to <= v.len(),
    ensures
        s@ == v@.subrange(from as int, to as int),
{
    let mut s = String::new();
    push_range(&mut s, v, from, to);
    s
}

/// The string made of the characters of `v`.
pub fn string_of(v: &Vec<char>) -> (s: String)
    ensures
        s@ == v@,
{
    let s = string_of_range(v, 0, v.len());
    assert(v@.subrange(0, v@.len() as int) == v@);
    s
}

/// An owned copy of `s`.
pub fn own(s: &str) -> (r: String)
    ensures
        r@ == s@,
{
    s.to_owned()
}

/// Whether two strings hold the same characters.
pub fn same_text(a: &str, b: &str) -> (r: bool)
    ensures
        r == (a@ == b@),
{
    let x = own(a);
    let y = own(b);
    x == y
}

// ---------------------------------------------------------------------------
// Searching
// ---------------------------------------------------------------------------

/// The first position at or after `k` that holds `c`.
pub open spec fn char_index_from(s: Seq<char>, c: char, k: int) -> Option<int>
    decreases s.len() - k,
{
    if k < 0 || k >= s.len() {
        None
    } else if s[k] == c {
        Some(k)
    } else {
        char_index_from(s, c, k + 1)
    }
}

/// The first position of `c` in `s`.
pub open spec fn char_index(s: Seq<char>, c: char) -> Option<int> {
    char_index_from(s, c, 0)
}

/// `str::split_once` on a character: the text before and after the first `c`.
pub open spec fn split_once(s: Seq<char>, c: char) -> Option<(Seq<char>, Seq<char>)> {
    match char_index(s, c) {
        Some(i) => Some((s.take(i), s.skip(i + 1))),
        None => None,
    }
}

/// What `char_index_from` finds: the first match from `k`, or no match at all.
pub proof fn lemma_char_index_from(s: Seq<char>, c: char, k: int)
    requires
        0 <= k,
    ensures
        match char_index_from(s, c, k) {
            Some(i) => k <= i < s.len() && s[i] == c && forall|j: int| k <= j < i ==> s[j] != c,
            None => forall|j: int| k <= j < s.len() ==> s[j] != c,
        },
    decreases s.len() - k,
{
    if k < s.len() && s[k] != c {
        lemma_char_index_from(s, c, k + 1);
    }
}

/// A match and the absence of earlier ones pins `char_index_from` down.
pub proof fn lemma_char_index_from_is(s: Seq<char>, c: char, k: int, i: int)
    requires
        0 <= k <= i <= s.len(),
        forall|j: int| k <= j < i ==> s[j] != c,
        i == s.len() || s[i] == c,
    ensures
        char_index_from(s, c, k) == (if i == s.len() { None::<int> } else { Some(i) }),
    decreases i - k,
{
    if k < i {
        lemma_char_index_from_is(s, c, k + 1, i);
    }
}

/// The first position at or after `from` in `v` that holds `c`.
pub fn find_char(v: &Vec<char>, from: usize, c: char) -> (r: Option<usize>)
    requires
        from <= v.len(),
    ensures
        match r {
            Some(i) => char_index_from(v@, c, from as int) == Some(i as int),
            None => char_index_from(v@, c, from as int) is None,
        },
{
    let mut i = from;
    while i < v.len()
        invariant
            from <= i <= v.len(),
            forall|j: int| from <= j < i ==> v@[j] != c,
        decreases v.len() - i,
    {
        if v[i] == c {
            proof {
                lemma_char_index_from_is(v@, c, from as int, i as int);
            }
            return Some(i);
        }
        i = i + 1;
    }
    proof {
        lemma_char_index_from_is(v@, c, from as int, v.len() as int);
    }
    None
}

/// Whether `c` occurs in `s`.
pub fn has_char(s: &str, c: char) -> (r: bool)
    ensures
        r == s@.contains(c),
{
    let v = chars_of(s);
    let r = find_char(&v, 0, c);
    proof {
        lemma_char_index_from(v@, c, 0);
        if r is Some {
            assert(v@[r->0 as int] == c);
        }
    }
    r.is_some()
}

// ---------------------------------------------------------------------------
// Trimming
// ---------------------------------------------------------------------------

/// `s` without its leading white space.
pub open spec fn trim_start(s: Seq<char>) -> Seq<char>
    decreases s.len(),
{
    if s.len() > 0 && is_white_space(s[0]) {
        trim_start(s.drop_first())
    } else {
        s
    }
}

/// `s` without its trailing white space.
pub open spec fn trim_end(s: Seq<char>) -> Seq<char>
    decreases s.len(),
{
    if s.len() > 0 && is_white_space(s.last()) {
        trim_end(s.drop_last())
    } else {
        s
    }
}

/// `str::trim`: `s` without leading and trailing white space.
pub open spec fn trim(s: Seq<char>) -> Seq<char> {
    trim_end(trim_start(s))
}

pub proof fn lemma_trim_start_at(s: Seq<char>, i: int)
    requires
        0 <= i <= s.len(),
        forall|j: int| 0 <= j < i ==> is_white_space(s[j]),
        i == s.len() || !is_white_space(s[i]),
    ensures
        trim_start(s) == s.skip(i),
    decreases i,
{
    if i > 0 {
        let t = s.drop_first();
        assert forall|j: int| 0 <= j < i - 1 implies is_white_space(t[j]) by {
            assert(t[j] == s[j + 1]);
        }
        lemma_trim_start_at(t, i - 1);
        assert(t.skip(i - 1) == s.skip(i));
    } else {
        assert(s.skip(0) == s);
    }
}

pub proof fn lemma_trim_end_at(s: Seq<char>, e: int)
    requires
        0 <= e <= s.len(),
        forall|j: int| e <= j < s.len() ==> is_white_space(s[j]),
        e == 0 || !is_white_space(s[e - 1]),
    ensures
        trim_end(s) == s.take(e),
    decreases s.len() - e,
{
    if e < s.len() {
        let t = s.drop_last();
        lemma_trim_end_at(t, e);
        assert(t.take(e) == s.take(e));
    } else {
        assert(s.take(e) == s);
    }
}

/// The bounds of `v` without leading and trailing white space.
pub fn trim_bounds(v: &Vec<char>) -> (r: (usize, usize))
    ensures
        r.0 <= r.1 <= v.len(),
        v@.subrange(r.0 as int, r.1 as int) == trim(v@),
{
    let mut i: usize = 0;
    while i < v.len() && white_space(v[i])
        invariant
            i <= v.len(),
            forall|j: int| 0 <= j < i ==> is_white_space(v@[j]),
        decreases v.len() - i,
    {
        i = i + 1;
    }
    let mut e: usize = v.len();
    while e > i && white_space(v[e - 1])
        invariant
            i <= e <= v.len(),
            forall|j: int| e <= j < v.len() ==> is_white_space(v@[j]),
        decreases e,
    {
        e = e - 1;
    }
    proof {
        lemma_trim_start_at(v@, i as int);
        let t = v@.skip(i as int);
        assert forall|j: int| (e - i) <= j < t.len() implies is_white_space(t[j]) by {
            assert(t[j] == v@[j + i]);
        }
        if e > i {
            assert(t[e - i - 1] == v@[e - 1]);
        }
        lemma_trim_end_at(t, (e - i) as int);
        assert(t.take((e - i) as int) == v@.subrange(i as int, e as int));
    }
    (i, e)
}

/// `str::trim`, as an owned string.
pub fn trimmed(s: &str) -> (r: String)
    ensures
        r@ == trim(s@),
{
    let v = chars_of(s);
    let (a, b) = trim_bounds(&v);
    string_of_range(&v, a, b)
}

// ---------------------------------------------------------------------------
// Unicode lower case
// ---------------------------------------------------------------------------

/// `char::to_ascii_lowercase`.
pub open spec fn ascii_lower(c: char) -> char {
    if 'A' <= c && c <= 'Z' {
        ((c as int) + 32) as char
    } else {
        c
    }
}

/// Whether every character of `s` is ASCII.
pub open spec fn all_ascii(s: Seq<char>) -> bool {
    forall|i: int| 0 <= i < s.len() ==> (#[trigger] s[i] as u32) < 128
}

/// What `str::to_lowercase` gives for `s`.
pub uninterp spec fn lowercase(s: Seq<char>) -> Seq<char>;

/// `str::to_lowercase`. Its result is named: the Unicode case tables are
/// not restated here. Two facts of the Unicode mapping are stated: every
/// character maps to at least one character, so only the empty text maps
/// to the empty text; and on ASCII text the mapping is ASCII lower-casing,
/// character by character.
#[verifier::external_body]
pub(crate) fn to_lowercase(s: &str) -> (r: String)
    ensures
        r@ == lowercase(s@),
        (r@.len() == 0) == (s@.len() == 0),
        all_ascii(s@) ==> r@ == s@.map_values(|c: char| ascii_lower(c)),
{
    s.to_lowercase()
}

/// The text that a search field filters by: the empty text for an empty
/// field, else the field's text in lower case.
pub open spec fn search_key(s: Seq<char>) -> Seq<char> {
    if s.len() == 0 {
        Seq::empty()
    } else {
        lowercase(s)
    }
}

/// The lower-cased search text; an empty field gives the empty text.
pub fn search_key_of(s: &str) -> (r: String)
    ensures
        r@ == search_key(s@),
{
    if s.is_empty() {
        String::new()
    } else {
        to_lowercase(s)
    }
}

/// Whether `needle` occurs as a contiguous part of `hay`.
pub open spec fn occurs_in(hay: Seq<char>, needle: Seq<char>) -> bool {
    exists|i: int| 0 <= i <= hay.len() - needle.len() && #[trigger] hay.subrange(i, i + needle.len()) == needle
}

/// `str::contains` with a string pattern.
pub fn contains_text(hay: &str, needle: &str) -> (r: bool)
    ensures
        r == occurs_in(hay@, needle@),
{
    let h = chars_of(hay);
    let n = chars_of(needle);
    if n.len() > h.len() {
        return false;
    }
    let mut i: usize = 0;
    while i <= h.len() - n.len()
        invariant
            n@ == needle@,
            h@ == hay@,
            n.len() <= h.len(),
            i <= h.len() - n.len() + 1,
            forall|k: int| 0 <= k < i ==> #[trigger] h@.subrange(k, k + n@.len()) != n@,
        decreases h.len() - i,
    {
        let mut j: usize = 0;
        let mut same = true;
        while j < n.len()
            invariant
                i + n.len() <= h.len(),
                j <= n.len(),
                same == (forall|m: int| 0 <= m < j ==> h@[i + m] == n@[m]),
            decreases n.len() - j,
        {
            if h[i + j] != n[j] {
                same = false;
            }
            j = j + 1;
        }
        if same {
            assert(h@.subrange(i as int, i + n@.len()) == n@);
            return true;
        } else {
            assert(h@.subrange(i as int, i + n@.len()) != n@) by {
                let m = choose|m: int| 0 <= m < n.len() && h@[i + m] != n@[m];
                assert(h@.subrange(i as int, i + n@.len())[m] == h@[i + m]);
            }
        }
        i = i + 1;
    }
    false
}


// ---------------------------------------------------------------------------
// Decimal numbers
// ---------------------------------------------------------------------------

/// The digit character of `d` (`d < 10`).
pub open spec fn digit_char(d: nat) -> char {
    (('0' as int) + d) as char
}

/// The decimal text of `n`, as `to_string` writes it.
pub open spec fn decimal(n: nat) -> Seq<char>
    decreases n,
{
    if n < 10 {
        seq![digit_char(n)]
    } else {
        decimal(n / 10).push(digit_char(n % 10))
    }
}

/// Writes `n` in decimal.
pub fn decimal_text(n: u64) -> (r: String)
    ensures
        r@ == decimal(n as nat),
    decreases n,
{
    let d = (n % 10) as u8;
    let c = (48u8 + d) as char;
    assert(c == digit_char((n % 10) as nat));
    if n < 10 {
        let mut s = String::new();
        push_char(&mut s, c);
        assert(s@ =~= seq![c]);
        s
    } else {
        let mut s = decimal_text(n / 10);
        push_char(&mut s, c);
        s
    }
}

} // verus!
