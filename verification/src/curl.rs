//! Copying a request as a `curl` command line.
use vstd::prelude::*;

use crate::models::{method_text, ApiRequest, BodyType, KeyValue};
use crate::text::{ascii_alnum, chars_of, is_ascii_alnum, own, push_char, push_str};

verus! {

/// Characters that a shell takes literally outside quotes.
pub open spec fn is_shell_safe(c: char) -> bool {
    is_ascii_alnum(c) || c == '/' || c == ':' || c == '.' || c == '_' || c == '?' || c == '=' || c == '&'
        || c == '-' || c == '%' || c == '{' || c == '}'
}

/// `s` for the inside of single quotes: each `'` becomes `'\''`.
pub open spec fn quote_escaped(s: Seq<char>) -> Seq<char>
    decreases s.len(),
{
    if s.len() == 0 {
        Seq::empty()
    } else if s.last() == '\'' {
        quote_escaped(s.drop_last()) + seq!['\'', '\\', '\'', '\'']
    } else {
        quote_escaped(s.drop_last()).push(s.last())
    }
}

/// `s` as one shell word: as it is when every character is safe, else in
/// single quotes.
pub open spec fn shell_quoted(s: Seq<char>) -> Seq<char> {
    if forall|i: int| 0 <= i < s.len() ==> is_shell_safe(#[trigger] s[i]) {
        s
    } else {
        seq!['\''] + quote_escaped(s) + seq!['\'']
    }
}

/// Words joined with single spaces.
pub open spec fn joined(words: Seq<Seq<char>>) -> Seq<char>
    decreases words.len(),
{
    if words.len() == 0 {
        Seq::empty()
    } else if words.len() == 1 {
        words[0]
    } else {
        joined(words.drop_last()) + seq![' '] + words.last()
    }
}

/// The `-H` words of the enabled headers with a key.
pub open spec fn header_words(headers: Seq<KeyValue>) -> Seq<Seq<char>>
    decreases headers.len(),
{
    if headers.len() == 0 {
        Seq::empty()
    } else {
        let h = headers.last();
        let init = header_words(headers.drop_last());
        if h.enabled && h.key@.len() > 0 {
            init + seq!["-H"@, shell_quoted(h.key@ + ": "@ + h.value@)]
        } else {
            init
        }
    }
}

/// The body that the command sends: the encoded fields of a url-encoded
/// body with fields, else the body's content.
pub open spec fn curl_body(req: ApiRequest, encoded_form: Seq<char>) -> Seq<char> {
    if req.body.body_type == BodyType::UrlEncoded && req.body.urlencoded@.len() > 0 {
        encoded_form
    } else {
        req.body.content@
    }
}

/// The words of the command: `curl -X <method> <url>`, the headers, and
/// `-d <body>` for a non-empty body.
pub open spec fn curl_words(req: ApiRequest, encoded_form: Seq<char>) -> Seq<Seq<char>> {
    let body = curl_body(req, encoded_form);
    seq!["curl"@, "-X"@, shell_quoted(method_text(req.method)), shell_quoted(req.url@)] + header_words(
        req.headers@,
    ) + if body.len() > 0 {
        seq!["-d"@, shell_quoted(body)]
    } else {
        Seq::empty()
    }
}

/// Whether `c` is one of the safe punctuation characters.
fn safe_punctuation(c: char) -> (r: bool)
    ensures
        r == (is_shell_safe(c) && !is_ascii_alnum(c)),
{
    !ascii_alnum(c) && (c == '/' || c == ':' || c == '.' || c == '_' || c == '?' || c == '=' || c
        == '&' || c == '-' || c == '%' || c == '{' || c == '}')
}

/// Quotes `value` as one shell word.
pub fn shell_quote(value: &str) -> (r: String)
    ensures
        r@ == shell_quoted(value@),
{
    let v = chars_of(value);
    let mut safe = true;
    let mut i: usize = 0;
    while i < v.len()
        invariant
            i <= v.len(),
            v@ == value@,
            safe == forall|j: int| 0 <= j < i ==> is_shell_safe(#[trigger] v@[j]),
        decreases v.len() - i,
    {
        if !(ascii_alnum(v[i]) || safe_punctuation(v[i])) {
            safe = false;
        }
        i = i + 1;
    }
    if safe {
        return own(value);
    }
    let mut out = String::new();
    push_char(&mut out, '\'');
    let mut k: usize = 0;
    assert(v@.take(0) =~= Seq::<char>::empty());
    while k < v.len()
        invariant
            k <= v.len(),
            v@ == value@,
            out@ == seq!['\''] + quote_escaped(v@.take(k as int)),
        decreases v.len() - k,
    {
        let ghost before = out@;
        assert(v@.take(k + 1).drop_last() == v@.take(k as int));
        assert(v@.take(k + 1).last() == v@[k as int]);
        if v[k] == '\'' {
            push_char(&mut out, '\'');
            push_char(&mut out, '\\');
            push_char(&mut out, '\'');
            push_char(&mut out, '\'');
            assert(out@ =~= before + seq!['\'', '\\', '\'', '\'']);
        } else {
            push_char(&mut out, v[k]);
        }
        k = k + 1;
    }
    assert(v@.take(v.len() as int) == v@);
    push_char(&mut out, '\'');
    out
}

/// Joins words with single spaces.
fn join_words(words: &Vec<String>) -> (r: String)
    ensures
        r@ == joined(words@.map_values(|w: String| w@)),
{
    let ghost ws = words@.map_values(|w: String| w@);
    let mut out = String::new();
    let mut i: usize = 0;
    assert(ws.take(0) =~= Seq::<Seq<char>>::empty());
    while i < words.len()
        invariant
            i <= words.len(),
            ws == words@.map_values(|w: String| w@),
            out@ == joined(ws.take(i as int)),
        decreases words.len() - i,
    {
        assert(ws.take(i + 1).drop_last() == ws.take(i as int));
        assert(ws.take(i + 1).last() == words@[i as int]@);
        if i > 0 {
            push_char(&mut out, ' ');
        } else {
            assert(ws.take(1) =~= seq![words@[0]@]);
        }
        push_str(&mut out, words[i].as_str());
        i = i + 1;
    }
    assert(ws.take(words.len() as int) == ws);
    out
}

/// The request as a `curl` command line. `encoded_form` is the request's
/// url-encoded fields encoded as a body; it is sent in place of the content
/// when the body is url-encoded and has fields.
pub fn format_curl(req: &ApiRequest, encoded_form: &str) -> (r: String)
    ensures
        r@ == joined(curl_words(*req, encoded_form@)),
{
    proof {
        reveal_strlit("curl");
        reveal_strlit("-X");
        reveal_strlit("-H");
        reveal_strlit("-d");
        reveal_strlit(": ");
    }
    let mut words: Vec<String> = Vec::new();
    words.push(own("curl"));
    words.push(own("-X"));
    words.push(shell_quote(req.method.as_str()));
    words.push(shell_quote(req.url.as_str()));
    let ghost start = words@.map_values(|w: String| w@);
    assert(start =~= seq!["curl"@, "-X"@, shell_quoted(method_text(req.method)), shell_quoted(req.url@)]);
    let mut i: usize = 0;
    assert(req.headers@.take(0) =~= Seq::<KeyValue>::empty());
    while i < req.headers.len()
        invariant
            i <= req.headers.len(),
            words@.map_values(|w: String| w@) == start + header_words(req.headers@.take(i as int)),
        decreases req.headers.len() - i,
    {
        let ghost before = words@.map_values(|w: String| w@);
        let h = &req.headers[i];
        assert(req.headers@.take(i + 1).drop_last() == req.headers@.take(i as int));
        assert(req.headers@.take(i + 1).last() == *h);
        if h.enabled && !h.key.as_str().is_empty() {
            let mut line = own(h.key.as_str());
            push_str(&mut line, ": ");
            push_str(&mut line, h.value.as_str());
            words.push(own("-H"));
            words.push(shell_quote(line.as_str()));
            assert(words@.map_values(|w: String| w@) =~= before + seq!["-H"@, shell_quoted(h.key@ + ": "@ + h.value@)]);
        }
        i = i + 1;
    }
    assert(req.headers@.take(req.headers.len() as int) == req.headers@);
    let body = if req.body.body_type == BodyType::UrlEncoded && req.body.urlencoded.len() > 0 {
        own(encoded_form)
    } else {
        req.body.content.clone()
    };
    let ghost mid = words@.map_values(|w: String| w@);
    if !body.as_str().is_empty() {
        words.push(own("-d"));
        words.push(shell_quote(body.as_str()));
        assert(words@.map_values(|w: String| w@) =~= mid + seq!["-d"@, shell_quoted(body@)]);
    } else {
        assert(mid + Seq::<Seq<char>>::empty() == mid);
    }
    join_words(&words)
}


/// Reads back a word written with single quotes and backslashes: outside
/// quotes a backslash takes the next character as it is and a single quote
/// opens a quoted part; inside one, every character is taken as it is up
/// to the closing quote.
pub open spec fn unquoted(s: Seq<char>, in_quotes: bool) -> Seq<char>
    decreases s.len(),
{
    if s.len() == 0 {
        Seq::empty()
    } else if in_quotes {
        if s[0] == '\'' {
            unquoted(s.drop_first(), false)
        } else {
            seq![s[0]] + unquoted(s.drop_first(), true)
        }
    } else if s[0] == '\'' {
        unquoted(s.drop_first(), true)
    } else if s[0] == '\\' && s.len() >= 2 {
        seq![s[1]] + unquoted(s.skip(2), false)
    } else {
        seq![s[0]] + unquoted(s.drop_first(), false)
    }
}

proof fn lemma_unquoted_escaped(s: Seq<char>, t: Seq<char>)
    ensures
        unquoted(quote_escaped(s) + t, true) == s + unquoted(t, true),
    decreases s.len(),
{
    if s.len() == 0 {
        assert(quote_escaped(s) + t =~= t);
        assert(s + unquoted(t, true) =~= unquoted(t, true));
    } else {
        let init = s.drop_last();
        let c = s.last();
        let piece = if c == '\'' {
            seq!['\'', '\\', '\'', '\'']
        } else {
            seq![c]
        };
        assert(quote_escaped(s) == quote_escaped(init) + piece);
        assert(quote_escaped(s) + t =~= quote_escaped(init) + (piece + t));
        lemma_unquoted_escaped(init, piece + t);
        if c == '\'' {
            let u = piece + t;
            assert(u[0] == '\'');
            assert(u.drop_first() =~= seq!['\\', '\'', '\''] + t);
            let v = u.drop_first();
            assert(v[0] == '\\' && v[1] == '\'');
            assert(v.skip(2) =~= seq!['\''] + t);
            let w = v.skip(2);
            assert(w[0] == '\'');
            assert(w.drop_first() =~= t);
            assert(v.len() >= 2);
            assert(unquoted(w, false) == unquoted(t, true));
            assert(unquoted(v, false) == seq!['\''] + unquoted(w, false));
            assert(unquoted(u, true) == unquoted(v, false));
            assert(unquoted(u, true) == seq!['\''] + unquoted(t, true));
        } else {
            let u = piece + t;
            assert(u[0] == c);
            assert(u.drop_first() =~= t);
        }
        assert(s =~= init.push(c));
        assert(init + (seq![c] + unquoted(t, true)) =~= s + unquoted(t, true));
    }
}

proof fn lemma_unquoted_safe(s: Seq<char>)
    requires
        forall|i: int| 0 <= i < s.len() ==> is_shell_safe(#[trigger] s[i]),
    ensures
        unquoted(s, false) == s,
    decreases s.len(),
{
    if s.len() > 0 {
        assert(is_shell_safe(s[0]));
        assert forall|i: int| 0 <= i < s.drop_first().len() implies is_shell_safe(#[trigger] s.drop_first()[i]) by {
            assert(s.drop_first()[i] == s[i + 1]);
        }
        lemma_unquoted_safe(s.drop_first());
        assert(seq![s[0]] + s.drop_first() =~= s);
    }
}

/// Quoting a word and reading it back gives the word: the quoting never
/// changes what a word says.
pub proof fn law_shell_quote_reads_back(s: Seq<char>)
    ensures
        unquoted(shell_quoted(s), false) == s,
{
    if forall|i: int| 0 <= i < s.len() ==> is_shell_safe(#[trigger] s[i]) {
        lemma_unquoted_safe(s);
    } else {
        let q = seq!['\''] + quote_escaped(s) + seq!['\''];
        assert(q[0] == '\'');
        assert(q.drop_first() =~= quote_escaped(s) + seq!['\'']);
        lemma_unquoted_escaped(s, seq!['\'']);
        let e = seq!['\''];
        assert(e[0] == '\'');
        assert(e.drop_first() =~= Seq::<char>::empty());
        assert(unquoted(Seq::<char>::empty(), false) == Seq::<char>::empty());
        assert(unquoted(e, true) == unquoted(e.drop_first(), false));
        assert(unquoted(e, true) == Seq::<char>::empty());
        assert(s + Seq::<char>::empty() =~= s);
    }
}

/// What the command sends: a body that is not url-encoded is sent as its
/// own content (a `-d` word with the quoted content last, or no `-d` at all
/// for empty content), whatever url-encoded fields the request still
/// carries and whatever encoded form is passed; a url-encoded body with
/// fields sends the encoded form.
pub proof fn law_curl_data_follows_the_body_type(req: ApiRequest, encoded_form: Seq<char>, other_form: Seq<char>)
    ensures
        ({
            let w = curl_words(req, encoded_form);
            let n = 4 + header_words(req.headers@).len() as int;
            &&& req.body.body_type != BodyType::UrlEncoded ==> {
                &&& curl_words(req, other_form) == w
                &&& req.body.content@.len() > 0 ==> w.len() == n + 2 && w[n] == "-d"@ && w[n + 1] == shell_quoted(
                    req.body.content@,
                )
                &&& req.body.content@.len() == 0 ==> w.len() == n
            }
            &&& req.body.body_type == BodyType::UrlEncoded && req.body.urlencoded@.len() > 0 && encoded_form.len()
                > 0 ==> w.len() == n + 2 && w[n] == "-d"@ && w[n + 1] == shell_quoted(encoded_form)
        }),
{
}

} // verus!
