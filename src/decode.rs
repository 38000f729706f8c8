//! Decoding a request from the lines of its head: the start line, then
//! `Key: value` header lines up to a blank line.
use vstd::prelude::*;

use crate::text::{chars_of, parse_usize, parsed_usize, split_words, trim, trim_range, trim_text, words};
use crate::text_map::TextMap;
use crate::types::{method_name, Method, Request};

verus! {

broadcast use vstd::string::group_string_axioms;

/// What `str::to_uppercase` makes of `s`.
pub uninterp spec fn upper_of(s: Seq<char>) -> Seq<char>;

/// Relies on str::to_uppercase: the upper-case form of `s`, which depends on
/// the characters of `s` alone.
#[verifier::external_body]
pub(crate) fn to_upper(s: &str) -> (r: String)
    ensures
        r@ == upper_of(s@),
{
    s.to_uppercase()
}

/// Method, path and version of a start line: its first three words, the
/// method upper-cased; `None` when it has fewer than three words.
pub open spec fn start_line(line: Seq<char>) -> Option<(Seq<char>, Seq<char>, Seq<char>)> {
    let w = words(line);
    if w.len() >= 3 {
        Some((upper_of(w[0]), w[1], w[2]))
    } else {
        None
    }
}

/// Whether `p` is the position of the first `:` of `line`.
pub open spec fn is_first_colon(line: Seq<char>, p: int) -> bool {
    &&& 0 <= p < line.len()
    &&& line[p] == ':'
    &&& forall|q: int| 0 <= q < p ==> line[q] != ':'
}

/// The key and value of a header line, split at its first `:` and trimmed;
/// `None` for a line without a colon.
pub open spec fn header_entry(line: Seq<char>) -> Option<(Seq<char>, Seq<char>)> {
    if exists|p: int| is_first_colon(line, p) {
        let p = choose|p: int| is_first_colon(line, p);
        Some((trim(line.take(p)), trim(line.skip(p + 1))))
    } else {
        None
    }
}

/// The headers that the first `n` header lines give; a later line with the
/// same key wins.
pub open spec fn header_map(lines: Seq<Seq<char>>, n: nat) -> Map<Seq<char>, Seq<char>>
    decreases n,
{
    if n == 0 {
        Map::empty()
    } else {
        let m = header_map(lines, (n - 1) as nat);
        match header_entry(lines[n - 1]) {
            Some(e) => m.insert(e.0, e.1),
            None => m,
        }
    }
}

/// Whether a line ends the head of a request: it is empty once trimmed.
pub open spec fn ends_head(line: Seq<char>) -> bool {
    trim(line).len() == 0
}

/// The number of body bytes to read: the `Content-Length` of a `POST` or
/// `PUT` request when it is a number, otherwise none.
pub open spec fn body_length(
    method: Seq<char>,
    headers: Map<Seq<char>, Seq<char>>,
) -> nat {
    if (method == method_name(Method::Post) || method == method_name(Method::Put))
        && headers.contains_key("Content-Length"@) && parsed_usize(
        headers["Content-Length"@],
    ) is Some {
        parsed_usize(headers["Content-Length"@])->0 as nat
    } else {
        0
    }
}

/// Whether `line` ends the head of a request.
pub fn is_end_of_head(line: &str) -> (r: bool)
    ensures
        r == ends_head(line@),
{
    let t = trim_text(line);
    t.as_str().is_empty()
}

/// The key and value of a header line.
pub fn parse_header_line(line: &str) -> (r: Option<(String, String)>)
    ensures
        match r {
            Some(e) => header_entry(line@) == Some((e.0@, e.1@)),
            None => header_entry(line@) is None,
        },
{
    let v = chars_of(line);
    let mut i: usize = 0;
    while i < v.len()
        invariant
            0 <= i <= v.len(),
            v@ == line@,
            forall|q: int| 0 <= q < i ==> v@[q] != ':',
        decreases v.len() - i,
    {
        if v[i] == ':' {
            let key = trim_range(&v, 0, i);
            let value = trim_range(&v, i + 1, v.len());
            proof {
                assert(is_first_colon(line@, i as int));
                let p = choose|p: int| is_first_colon(line@, p);
                assert(p == i);
                assert(line@.take(i as int) == v@.subrange(0, i as int));
                assert(line@.skip(i + 1) == v@.subrange(i + 1, v@.len() as int));
            }
            return Some((key, value));
        }
        i = i + 1;
    }
    assert(!exists|p: int| is_first_colon(line@, p));
    None
}

/// Decodes the head of a request: its start line, then its header lines
/// (the blank line that ends them may be left out). `None` when the start
/// line has fewer than three words.
pub fn decode_head(start: &str, header_lines: &Vec<String>) -> (r: Option<Request>)
    ensures
        r is Some <==> start_line(start@) is Some,
        r matches Some(req) ==> {
            let (m, p, v) = start_line(start@)->0;
            &&& req.method@ == m
            &&& req.path@ == p
            &&& req.version@ == v
            &&& req.headers@ == header_map(header_lines.deep_view(), header_lines.len() as nat)
            &&& req.body@ == Seq::<char>::empty()
            &&& req.queries@ == Map::<Seq<char>, Seq<char>>::empty()
            &&& req.params@ == Map::<Seq<char>, Seq<char>>::empty()
            &&& req.matches@ == Seq::<String>::empty()
        },
{
    let parts = split_words(start);
    if parts.len() < 3 {
        return None;
    }
    let method = to_upper(parts[0].as_str());
    let path = parts[1].clone();
    let version = parts[2].clone();
    let mut headers = TextMap::new();
    let mut i: usize = 0;
    while i < header_lines.len()
        invariant
            0 <= i <= header_lines.len(),
            headers@ == header_map(header_lines.deep_view(), i as nat),
        decreases header_lines.len() - i,
    {
        let ghost line = header_lines.deep_view()[i as int];
        assert(header_lines[i as int]@ == line);
        match parse_header_line(header_lines[i].as_str()) {
            Some((key, value)) => {
                headers.insert(key, value);
            },
            None => {},
        }
        i = i + 1;
    }
    Some(
        Request {
            method,
            path,
            version,
            headers,
            body: String::new(),
            queries: TextMap::new(),
            params: TextMap::new(),
            matches: Vec::new(),
        },
    )
}

/// How many body bytes follow the head of `request`.
pub fn content_length(request: &Request) -> (r: usize)
    ensures
        r == body_length(request.method@, request.headers@),
{
    let post = Method::Post.to_string();
    let put = Method::Put.to_string();
    if request.method == post || request.method == put {
        match request.headers.get("Content-Length") {
            Some(v) => match parse_usize(v.as_str()) {
                Some(n) => n,
                None => 0,
            },
            None => 0,
        }
    } else {
        0
    }
}

} // verus!
