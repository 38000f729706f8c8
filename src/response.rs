//! Building responses: JSON bodies from [`Nested`] values, the standard
//! responses, and the text that goes back over the connection.
use vstd::prelude::*;
use vstd::utf8::encode_utf8;

use crate::text::{decimal, push_decimal};
use crate::text_map::{entries_insert, TextMap};
use crate::types::{Nested, NestedValue, NestedValueView, Response};

verus! {

broadcast use vstd::string::group_string_axioms;

/// The JSON text of one value.
pub open spec fn value_json(v: NestedValueView) -> Seq<char> {
    match v {
        NestedValueView::Str(s) => seq!['"'] + s + seq!['"'],
    }
}

/// The JSON text of one pair: `"key": value`.
pub open spec fn entry_json(e: (Seq<char>, NestedValueView)) -> Seq<char> {
    seq!['"'] + e.0 + seq!['"', ':', ' '] + value_json(e.1)
}

/// The pairs' texts in order, separated by `, `.
pub open spec fn entries_json(s: Seq<(Seq<char>, NestedValueView)>) -> Seq<char>
    decreases s.len(),
{
    if s.len() == 0 {
        Seq::empty()
    } else if s.len() == 1 {
        entry_json(s[0])
    } else {
        entries_json(s.drop_last()) + seq![',', ' '] + entry_json(s.last())
    }
}

/// The JSON object text of a [`Nested`]: `{ "k1": "v1", "k2": "v2" }`.
/// Nothing inside keys or values is escaped.
pub open spec fn nested_json(s: Seq<(Seq<char>, NestedValueView)>) -> Seq<char> {
    seq!['{', ' '] + entries_json(s) + seq![' ', '}']
}

/// The header lines of a response, `Key: value` each ending in CRLF.
pub open spec fn header_lines(pairs: Seq<(Seq<char>, Seq<char>)>) -> Seq<char>
    decreases pairs.len(),
{
    if pairs.len() == 0 {
        Seq::empty()
    } else {
        header_lines(pairs.drop_last()) + pairs.last().0 + seq![':', ' '] + pairs.last().1 + seq![
            '\r',
            '\n',
        ]
    }
}

/// The bytes that a body of text takes on the wire.
pub open spec fn byte_len(body: Seq<char>) -> nat {
    encode_utf8(body).len()
}

/// The text of a response on the wire: status line, headers, a
/// `Content-Length` header, a blank line, then the body.
pub open spec fn wire_text(status: nat, pairs: Seq<(Seq<char>, Seq<char>)>, body: Seq<char>) -> Seq<
    char,
> {
    "HTTP/1.1 "@ + decimal(status) + "\r\n"@ + header_lines(pairs) + "Content-Length: "@ + decimal(
        byte_len(body),
    ) + "\r\n\r\n"@ + body
}

/// The headers that a response starts from when the caller gives none.
pub open spec fn given_headers(headers: Option<TextMap>) -> Seq<(Seq<char>, Seq<char>)> {
    match headers {
        Some(h) => h.pairs(),
        None => Seq::empty(),
    }
}

/// The header map that a response starts from.
pub open spec fn given_map(headers: Option<TextMap>) -> Map<Seq<char>, Seq<char>> {
    match headers {
        Some(h) => h@,
        None => Map::empty(),
    }
}

/// The pairs `(key, value)` of `ins` as text values of a [`Nested`].
pub open spec fn text_pairs(ins: Seq<(Seq<char>, Seq<char>)>) -> Seq<(Seq<char>, NestedValueView)> {
    ins.map_values(|e: (Seq<char>, Seq<char>)| (e.0, NestedValueView::Str(e.1)))
}

/// Rendering keeps insertion order: a pair appended to a non-empty body
/// renders after all earlier pairs, separated from them by `, `.
pub proof fn lemma_render_appends(s: Seq<(Seq<char>, NestedValueView)>, e: (Seq<char>, NestedValueView))
    requires
        s.len() > 0,
    ensures
        nested_json(s.push(e)) == seq!['{', ' '] + entries_json(s) + seq![',', ' '] + entry_json(e)
            + seq![' ', '}'],
{
    assert(s.push(e).drop_last() == s);
}

/// Rendering depends on the pairs alone: two bodies built by the same
/// sequence of `insert_string` calls render to the same text.
pub proof fn lemma_render_same_insertions(a: Nested, b: Nested, ins: Seq<(Seq<char>, Seq<char>)>)
    requires
        a@ == text_pairs(ins),
        b@ == text_pairs(ins),
    ensures
        nested_json(a@) == nested_json(b@),
        nested_json(a@) == nested_json(text_pairs(ins)),
{
}

/// Renders one value as JSON text.
fn stringfy_nested_value(nested: &NestedValue) -> (r: String)
    ensures
        r@ == value_json(nested@),
{
    match nested {
        NestedValue::Str(value) => {
            let mut r = String::new();
            r.append("\"");
            r.append(value.as_str());
            r.append("\"");
            proof {
                reveal_strlit("\"");
            }
            r
        },
    }
}

/// Converts a [`Nested`] to a JSON string.
pub fn stringify_nested(nested: &Nested) -> (r: String)
    ensures
        r@ == nested_json(nested@),
{
    let mut result = String::new();
    result.append("{ ");
    proof {
        reveal_strlit("{ ");
        reveal_strlit("\"");
        reveal_strlit("\": ");
        reveal_strlit(", ");
        reveal_strlit(" }");
    }
    let n = nested.len();
    let mut i: usize = 0;
    while i < n
        invariant
            0 <= i <= n,
            n == nested@.len(),
            result@ == seq!['{', ' '] + entries_json(nested@.take(i as int)),
        decreases n - i,
    {
        proof {
            reveal_strlit("\"");
            reveal_strlit("\": ");
            reveal_strlit(", ");
        }
        let (key, value) = nested.entry(i);
        let ghost before = result@;
        if i > 0 {
            result.append(", ");
        }
        let ghost sep = result@;
        result.append("\"");
        result.append(key.as_str());
        result.append("\": ");
        let v = stringfy_nested_value(value);
        result.append(v.as_str());
        proof {
            let prefix = nested@.take(i + 1);
            assert(prefix.drop_last() == nested@.take(i as int));
            assert(result@ == sep + entry_json(nested@[i as int]));
            if i == 0 {
                assert(entries_json(prefix) == entry_json(prefix[0]));
            }
        }
        i = i + 1;
    }
    result.append(" }");
    assert(nested@.take(n as int) == nested@);
    result
}

impl Response {
    /// A response whose body is the JSON text of `body`; the `Content-Type`
    /// header is set to `application/json` whatever `headers` held.
    pub fn json(status: u16, body: Nested, headers: Option<TextMap>) -> (r: Response)
        ensures
            r.status == status,
            r.body@ == nested_json(body@),
            r.headers@ == given_map(headers).insert("Content-Type"@, "application/json"@),
            r.headers.pairs() == entries_insert(
                given_headers(headers),
                "Content-Type"@,
                "application/json"@,
            ),
    {
        let mut headers = match headers {
            Some(h) => h,
            None => TextMap::new(),
        };
        headers.insert("Content-Type".to_owned(), "application/json".to_owned());
        Response { status, body: stringify_nested(&body), headers }
    }

    /// A 200 response with `body`; `Content-Type` is `text/plain` unless
    /// `headers` already sets it.
    pub fn ok(body: String, headers: Option<TextMap>) -> (r: Response)
        ensures
            r.status == 200,
            r.body@ == body@,
            given_map(headers).contains_key("Content-Type"@) ==> r.headers@ == given_map(headers)
                && r.headers.pairs() == given_headers(headers),
            !given_map(headers).contains_key("Content-Type"@) ==> r.headers@ == given_map(
                headers,
            ).insert("Content-Type"@, "text/plain"@) && r.headers.pairs() == entries_insert(
                given_headers(headers),
                "Content-Type"@,
                "text/plain"@,
            ),
    {
        let mut headers = match headers {
            Some(h) => h,
            None => TextMap::new(),
        };
        if !headers.contains_key("Content-Type") {
            headers.insert("Content-Type".to_owned(), "text/plain".to_owned());
        }
        Response { status: 200, body, headers }
    }
}

/// The text of `response` as it goes on the wire.
pub fn encode_response(response: &Response) -> (r: String)
    requires
        byte_len(response.body@) <= usize::MAX,
    ensures
        r@ == wire_text(response.status as nat, response.headers.pairs(), response.body@),
{
    let mut r = String::new();
    r.append("HTTP/1.1 ");
    push_decimal(&mut r, response.status as u64);
    r.append("\r\n");
    let n = response.headers.len();
    let mut i: usize = 0;
    while i < n
        invariant
            0 <= i <= n,
            n == response.headers.pairs().len(),
            r@ == "HTTP/1.1 "@ + decimal(response.status as nat) + "\r\n"@ + header_lines(
                response.headers.pairs().take(i as int),
            ),
        decreases n - i,
    {
        let (key, value) = response.headers.pair_at(i);
        r.append(key.as_str());
        r.append(": ");
        r.append(value.as_str());
        r.append("\r\n");
        proof {
            reveal_strlit(": ");
            reveal_strlit("\r\n");
            let pairs = response.headers.pairs();
            assert(pairs.take(i + 1).drop_last() == pairs.take(i as int));
        }
        i = i + 1;
    }
    assert(response.headers.pairs().take(n as int) == response.headers.pairs());
    r.append("Content-Length: ");
    let length = response.body.as_str().len();
    push_decimal(&mut r, length as u64);
    r.append("\r\n\r\n");
    r.append(response.body.as_str());
    r
}

} // verus!
