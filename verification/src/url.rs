//! URL text handling for the request editor: percent-decoding of form
//! components, `{{variable}}` and `:param` recognition, and the rewriting of
//! blank query values into `:name` placeholders.
use vstd::prelude::*;
use vstd::utf8::*;

use crate::models::KeyValue;
use crate::text::{
    char_index, char_index_from, is_ascii_alnum, lemma_char_index_from, lemma_char_index_from_is,
    split_once,
};

verus! {

// ---------------------------------------------------------------------------
// Percent-decoding
// ---------------------------------------------------------------------------

/// The value of a hexadecimal digit byte.
pub open spec fn hex_digit(b: u8) -> Option<u8> {
    if 48 <= b <= 57 {
        Some((b - 48) as u8)
    } else if 97 <= b <= 102 {
        Some((b - 97 + 10) as u8)
    } else if 65 <= b <= 70 {
        Some((b - 65 + 10) as u8)
    } else {
        None
    }
}

/// The value of a hexadecimal digit byte, if it is one.
pub fn hex_value(byte: u8) -> (r: Option<u8>)
    ensures
        r == hex_digit(byte),
{
    if 48 <= byte && byte <= 57 {
        Some(byte - 48)
    } else if 97 <= byte && byte <= 102 {
        Some(byte - 97 + 10)
    } else if 65 <= byte && byte <= 70 {
        Some(byte - 65 + 10)
    } else {
        None
    }
}

/// Form decoding on bytes: `+` becomes a space, `%XY` with two hex digits
/// becomes the byte `0xXY`, every other byte stays.
pub open spec fn form_decode_bytes(b: Seq<u8>) -> Seq<u8>
    decreases b.len(),
{
    if b.len() == 0 {
        Seq::empty()
    } else if b[0] == 43 {
        seq![32u8] + form_decode_bytes(b.skip(1))
    } else if b[0] == 37 && 2 < b.len() && hex_digit(b[1]) is Some && hex_digit(b[2]) is Some {
        seq![(hex_digit(b[1])->0 * 16 + hex_digit(b[2])->0) as u8] + form_decode_bytes(b.skip(3))
    } else {
        seq![b[0]] + form_decode_bytes(b.skip(1))
    }
}

/// What `String::from_utf8_lossy` gives for `b`.
pub uninterp spec fn utf8_lossy(b: Seq<u8>) -> Seq<char>;

/// `String::from_utf8_lossy`, as an owned string. Valid UTF-8 is decoded as
/// is; how invalid sequences are replaced is left to the name.
#[verifier::external_body]
pub(crate) fn from_utf8_lossy(b: &[u8]) -> (r: String)
    ensures
        r@ == utf8_lossy(b@),
        valid_utf8(b@) ==> r@ == decode_utf8(b@),
{
    String::from_utf8_lossy(b).to_string()
}

/// A url-encoded form component, decoded: the form-decoded bytes read as
/// UTF-8 where they are valid UTF-8, and through `String::from_utf8_lossy`
/// where they are not.
pub open spec fn decode_component(s: Seq<char>) -> Seq<char> {
    let b = form_decode_bytes(encode_utf8(s));
    if valid_utf8(b) {
        decode_utf8(b)
    } else {
        utf8_lossy(b)
    }
}

/// Form decoding leaves byte strings without `%` and `+` as they are.
pub proof fn lemma_form_decode_plain(b: Seq<u8>)
    requires
        forall|i: int| 0 <= i < b.len() ==> b[i] != 37 && b[i] != 43,
    ensures
        form_decode_bytes(b) == b,
    decreases b.len(),
{
    if b.len() > 0 {
        lemma_form_decode_plain(b.skip(1));
        assert(seq![b[0]] + b.skip(1) == b);
    }
}


// ---------------------------------------------------------------------------
// Query placeholders
// ---------------------------------------------------------------------------

/// A character allowed in a `:name` query placeholder.
pub open spec fn is_placeholder_char(c: char) -> bool {
    is_ascii_alnum(c) || c == '_' || c == '-'
}

/// A non-empty name made of ASCII letters, digits, `_` and `-`.
pub open spec fn is_placeholder_name(name: Seq<char>) -> bool {
    name.len() > 0 && forall|i: int| 0 <= i < name.len() ==> is_placeholder_char(#[trigger] name[i])
}

/// The key part of a `key=value` query pair (the whole pair without `=`).
pub open spec fn pair_key(pair: Seq<char>) -> Seq<char> {
    match split_once(pair, '=') {
        Some((k, _)) => k,
        None => pair,
    }
}

/// The value part of a `key=value` query pair (empty without `=`).
pub open spec fn pair_value(pair: Seq<char>) -> Seq<char> {
    match split_once(pair, '=') {
        Some((_, v)) => v,
        None => Seq::empty(),
    }
}

/// Whether some row of `params` has exactly the key `key`.
pub open spec fn has_param(params: Seq<KeyValue>, key: Seq<char>) -> bool {
    exists|i: int| 0 <= i < params.len() && #[trigger] params[i].key@ == key
}

/// A blank query value whose decoded key names a parameter row becomes a
/// `:key` placeholder.
pub open spec fn placeholder_applies(pair: Seq<char>, params: Seq<KeyValue>) -> bool {
    let key = decode_component(pair_key(pair));
    &&& pair_value(pair).len() == 0
    &&& is_placeholder_name(key)
    &&& has_param(params, key)
}

/// One query pair after placeholder normalisation.
pub open spec fn normalized_pair(pair: Seq<char>, params: Seq<KeyValue>) -> Seq<char> {
    if placeholder_applies(pair, params) {
        pair_key(pair) + seq!['=', ':'] + decode_component(pair_key(pair))
    } else {
        pair
    }
}

/// The `&`-separated query after placeholder normalisation.
pub open spec fn normalized_query(q: Seq<char>, params: Seq<KeyValue>) -> Seq<char>
    decreases q.len(),
{
    match char_index(q, '&') {
        Some(i) => if 0 <= i < q.len() {
            normalized_pair(q.take(i), params) + seq!['&'] + normalized_query(q.skip(i + 1), params)
        } else {
            q
        },
        None => normalized_pair(q, params),
    }
}

/// Whether normalisation rewrites some pair of the query.
pub open spec fn query_changes(q: Seq<char>, params: Seq<KeyValue>) -> bool
    decreases q.len(),
{
    match char_index(q, '&') {
        Some(i) => if 0 <= i < q.len() {
            placeholder_applies(q.take(i), params) || query_changes(q.skip(i + 1), params)
        } else {
            false
        },
        None => placeholder_applies(q, params),
    }
}

/// The URL with blank query values turned into placeholders: the query is
/// the text between the first `?` and the first `#`; the URL comes back
/// as it was unless some pair changes.
pub open spec fn normalized_url(url: Seq<char>, params: Seq<KeyValue>) -> Seq<char> {
    let (without_fragment, fragment) = match split_once(url, '#') {
        Some((a, f)) => (a, Some(f)),
        None => (url, None::<Seq<char>>),
    };
    match split_once(without_fragment, '?') {
        None => url,
        Some((base, query)) => if !query_changes(query, params) {
            url
        } else {
            base + seq!['?'] + normalized_query(query, params) + match fragment {
                Some(f) => seq!['#'] + f,
                None => Seq::empty(),
            }
        },
    }
}

/// `char_index_from` at `k` is `char_index` of the suffix from `k`.
pub proof fn lemma_char_index_suffix(s: Seq<char>, c: char, k: int)
    requires
        0 <= k <= s.len(),
    ensures
        char_index(s.skip(k), c) == match char_index_from(s, c, k) {
            Some(i) => Some(i - k),
            None => None::<int>,
        },
{
    lemma_char_index_from(s, c, k);
    let t = s.skip(k);
    match char_index_from(s, c, k) {
        Some(i) => {
            assert forall|j: int| 0 <= j < i - k implies t[j] != c by {
                assert(t[j] == s[j + k]);
            }
            lemma_char_index_from_is(t, c, 0, i - k);
        },
        None => {
            assert forall|j: int| 0 <= j < t.len() implies t[j] != c by {
                assert(t[j] == s[j + k]);
            }
            lemma_char_index_from_is(t, c, 0, t.len() as int);
        },
    }
}

/// The characters `v[from..to]` as a new vector.
pub fn sub_chars(v: &Vec<char>, from: usize, to: usize) -> (r: Vec<char>)
    requires
        from <= to <= v.len(),
    ensures
        r@ == v@.subrange(from as int, to as int),
{
    let mut r: Vec<char> = Vec::new();
    let mut i = from;
    while i < to
        invariant
            from <= i <= to <= v.len(),
            r@ == v@.subrange(from as int, i as int),
        decreases to - i,
    {
        r.push(v[i]);
        i = i + 1;
        assert(r@ == v@.subrange(from as int, i as int));
    }
    r
}

/// Whether some row of `params` has the key `key`.
pub fn has_param_key(params: &[KeyValue], key: &String) -> (r: bool)
    ensures
        r == has_param(params@, key@),
{
    let mut i: usize = 0;
    while i < params.len()
        invariant
            i <= params.len(),
            forall|j: int| 0 <= j < i ==> #[trigger] params@[j].key@ != key@,
        decreases params.len() - i,
    {
        if params[i].key == *key {
            return true;
        }
        i = i + 1;
    }
    false
}

// ---------------------------------------------------------------------------
// Normalisation is idempotent
// ---------------------------------------------------------------------------

/// `s` does not hold `c`.
pub open spec fn lacks(s: Seq<char>, c: char) -> bool {
    forall|i: int| 0 <= i < s.len() ==> s[i] != c
}

proof fn lemma_lacks_no_index(s: Seq<char>, c: char)
    requires
        lacks(s, c),
    ensures
        char_index(s, c) is None,
        split_once(s, c) is None,
{
    lemma_char_index_from_is(s, c, 0, s.len() as int);
}

proof fn lemma_split_at_first(a: Seq<char>, b: Seq<char>, c: char)
    requires
        lacks(a, c),
    ensures
        char_index(a + seq![c] + b, c) == Some(a.len() as int),
        split_once(a + seq![c] + b, c) == Some((a, b)),
{
    let s = a + seq![c] + b;
    assert forall|j: int| 0 <= j < a.len() implies s[j] != c by {
        assert(s[j] == a[j]);
    }
    assert(s[a.len() as int] == c);
    lemma_char_index_from_is(s, c, 0, a.len() as int);
    assert(s.take(a.len() as int) == a);
    assert(s.skip(a.len() as int + 1) == b);
}

proof fn lemma_prefix_lacks(s: Seq<char>, c: char)
    ensures
        match char_index(s, c) {
            Some(i) => 0 <= i < s.len() && lacks(s.take(i), c) && s[i] == c && s == s.take(i)
                + seq![c] + s.skip(i + 1),
            None => lacks(s, c),
        },
{
    lemma_char_index_from(s, c, 0);
    match char_index(s, c) {
        Some(i) => {
            assert(s == s.take(i) + seq![c] + s.skip(i + 1));
        },
        None => {},
    }
}

proof fn lemma_pair_key_lacks(pair: Seq<char>, c: char)
    requires
        lacks(pair, c),
    ensures
        lacks(pair_key(pair), c),
        lacks(pair_key(pair), '='),
{
    lemma_prefix_lacks(pair, '=');
}

/// A rewritten pair is `key=:name`, which the rule leaves alone.
proof fn lemma_normalized_pair_stable(pair: Seq<char>, params: Seq<KeyValue>, c: char)
    requires
        lacks(pair, c),
        c != '=' && c != ':',
        !is_placeholder_char(c),
    ensures
        lacks(normalized_pair(pair, params), c),
        !placeholder_applies(normalized_pair(pair, params), params),
{
    if placeholder_applies(pair, params) {
        let k = pair_key(pair);
        let d = decode_component(k);
        lemma_pair_key_lacks(pair, c);
        let np = k + seq!['=', ':'] + d;
        assert(np == k + seq!['='] + (seq![':'] + d));
        lemma_split_at_first(k, seq![':'] + d, '=');
        assert forall|i: int| 0 <= i < np.len() implies np[i] != c by {
            if i >= k.len() + 2 {
                assert(np[i] == d[i - k.len() - 2]);
                assert(is_placeholder_char(d[i - k.len() - 2]));
            }
        }
    }
}

/// Normalising a query whose pairs lack `c` gives a text lacking `c` whose
/// pairs all stay as they are.
proof fn lemma_normalized_query_stable(q: Seq<char>, params: Seq<KeyValue>, c: char)
    requires
        lacks(q, c),
        c != '=' && c != ':' && c != '&',
        !is_placeholder_char(c),
    ensures
        lacks(normalized_query(q, params), c),
        !query_changes(normalized_query(q, params), params),
    decreases q.len(),
{
    lemma_prefix_lacks(q, '&');
    match char_index(q, '&') {
        Some(i) => {
            let p = q.take(i);
            let rest = q.skip(i + 1);
            assert(lacks(p, c));
            assert(lacks(rest, c)) by {
                assert forall|j: int| 0 <= j < rest.len() implies rest[j] != c by {
                    assert(rest[j] == q[j + i + 1]);
                }
            }
            lemma_normalized_pair_stable(p, params, c);
            lemma_normalized_pair_stable(p, params, '&');
            lemma_normalized_query_stable(rest, params, c);
            let np = normalized_pair(p, params);
            let nr = normalized_query(rest, params);
            lemma_split_at_first(np, nr, '&');
            assert(normalized_query(q, params) == np + seq!['&'] + nr);
            let nq = np + seq!['&'] + nr;
            assert(nq.take(np.len() as int) == np);
            assert(nq.skip(np.len() as int + 1) == nr);
            assert forall|j: int| 0 <= j < nq.len() implies nq[j] != c by {
                if j < np.len() {
                    assert(nq[j] == np[j]);
                } else if j > np.len() {
                    assert(nq[j] == nr[j - np.len() - 1]);
                }
            }
        },
        None => {
            lemma_normalized_pair_stable(q, params, c);
            lemma_normalized_pair_stable(q, params, '&');
            lemma_lacks_no_index(normalized_pair(q, params), '&');
        },
    }
}

/// Normalising an already normalised URL gives it back unchanged.
pub proof fn law_normalize_idempotent(url: Seq<char>, params: Seq<KeyValue>)
    ensures
        normalized_url(normalized_url(url, params), params) == normalized_url(url, params),
{
    lemma_prefix_lacks(url, '#');
    let (w, f) = match split_once(url, '#') {
        Some((a, b)) => (a, Some(b)),
        None => (url, None::<Seq<char>>),
    };
    assert(lacks(w, '#'));
    lemma_prefix_lacks(w, '?');
    match split_once(w, '?') {
        None => {},
        Some((base, query)) => {
            if query_changes(query, params) {
                assert(lacks(query, '#')) by {
                    assert forall|j: int| 0 <= j < query.len() implies query[j] != '#' by {
                        assert(query[j] == w[j + base.len() + 1]);
                    }
                }
                lemma_normalized_query_stable(query, params, '#');
                let nq = normalized_query(query, params);
                let w2 = base + seq!['?'] + nq;
                assert(lacks(base, '#'));
                assert(lacks(w2, '#')) by {
                    assert forall|j: int| 0 <= j < w2.len() implies w2[j] != '#' by {
                        if j < base.len() {
                            assert(w2[j] == base[j]);
                        } else if j > base.len() {
                            assert(w2[j] == nq[j - base.len() - 1]);
                        }
                    }
                }
                lemma_split_at_first(base, nq, '?');
                match f {
                    Some(frag) => {
                        lemma_split_at_first(w2, frag, '#');
                        assert(normalized_url(url, params) == w2 + seq!['#'] + frag);
                    },
                    None => {
                        lemma_lacks_no_index(w2, '#');
                        assert(normalized_url(url, params) == w2 + Seq::<char>::empty());
                        assert(w2 + Seq::<char>::empty() == w2);
                    },
                }
            }
        },
    }
}


/// Normalisation looks at the parameters only through which keys they
/// have: parameters with the same keys normalise a URL alike.
pub proof fn lemma_normalized_url_same_keys(url: Seq<char>, a: Seq<KeyValue>, b: Seq<KeyValue>)
    requires
        forall|k: Seq<char>| #[trigger] has_param(a, k) == has_param(b, k),
    ensures
        normalized_url(url, a) == normalized_url(url, b),
{
    let w = match split_once(url, '#') {
        Some((x, _)) => x,
        None => url,
    };
    match split_once(w, '?') {
        None => {},
        Some((_, q)) => {
            lemma_query_same_keys(q, a, b);
        },
    }
}

proof fn lemma_query_same_keys(q: Seq<char>, a: Seq<KeyValue>, b: Seq<KeyValue>)
    requires
        forall|k: Seq<char>| #[trigger] has_param(a, k) == has_param(b, k),
    ensures
        normalized_query(q, a) == normalized_query(q, b),
        query_changes(q, a) == query_changes(q, b),
    decreases q.len(),
{
    match char_index(q, '&') {
        Some(i) => if 0 <= i < q.len() {
            let k1 = decode_component(pair_key(q.take(i)));
            assert(has_param(a, k1) == has_param(b, k1));
            lemma_query_same_keys(q.skip(i + 1), a, b);
        },
        None => {
            let k1 = decode_component(pair_key(q));
            assert(has_param(a, k1) == has_param(b, k1));
        },
    }
}

} // verus!
