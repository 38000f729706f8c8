//! The values that flow through the server: requests, responses, route
//! patterns and the ordered key/value bodies of JSON responses.
use vstd::prelude::*;

use crate::text_map::TextMap;

verus! {

broadcast use vstd::string::group_string_axioms;

/// The request methods that routes are registered for.
#[derive(Clone, Copy, Debug, PartialEq, Eq, Structural)]
pub enum Method {
    Get,
    Post,
    Put,
}

/// The upper-case name of a method, as it stands in a request line.
pub open spec fn method_name(m: Method) -> Seq<char> {
    match m {
        Method::Get => seq!['G', 'E', 'T'],
        Method::Post => seq!['P', 'O', 'S', 'T'],
        Method::Put => seq!['P', 'U', 'T'],
    }
}

impl Method {
    pub fn to_string(&self) -> (r: String)
        ensures
            r@ == method_name(*self),
    {
        match self {
            Method::Get => {
                let r = "GET".to_owned();
                proof {
                    reveal_strlit("GET");
                }
                r
            },
            Method::Post => {
                let r = "POST".to_owned();
                proof {
                    reveal_strlit("POST");
                }
                r
            },
            Method::Put => {
                let r = "PUT".to_owned();
                proof {
                    reveal_strlit("PUT");
                }
                r
            },
        }
    }
}

/// How a route's path is matched against a request path.
pub enum RequestPathPattern {
    /// A template of `/`-separated segments, where a segment `:name` binds
    /// the request's segment at that place to `name`.
    Exact(String),
    /// A regular expression searched for in the request path; its capturing
    /// groups become the positional matches.
    Match(String),
}

/// The mathematical form of a [`RequestPathPattern`].
pub enum PatternView {
    Exact(Seq<char>),
    Match(Seq<char>),
}

impl View for RequestPathPattern {
    type V = PatternView;

    open spec fn view(&self) -> PatternView {
        match self {
            RequestPathPattern::Exact(s) => PatternView::Exact(s@),
            RequestPathPattern::Match(s) => PatternView::Match(s@),
        }
    }
}

/// A method together with a path pattern: what a route answers to.
pub struct RequestOption {
    pub method: Method,
    pub path: RequestPathPattern,
}

/// A request, as decoded from the connection and then enriched by the
/// route that matched it.
pub struct Request {
    pub method: String,
    pub path: String,
    pub version: String,
    pub headers: TextMap,
    pub body: String,
    /// Always empty: query strings are not parsed.
    pub queries: TextMap,
    /// The values bound by `:name` segments of an exact pattern.
    pub params: TextMap,
    /// The capturing groups of a regular-expression pattern, in order.
    pub matches: Vec<String>,
}

/// A response that a handler returns.
pub struct Response {
    pub status: u16,
    pub body: String,
    pub headers: TextMap,
}

/// What matching a path against a pattern produces.
#[derive(PartialEq, Debug)]
pub struct RequestPath {
    pub path: String,
    pub queries: TextMap,
    pub params: TextMap,
    pub matches: Vec<String>,
}

/// The mathematical form of a [`RequestPath`].
pub struct PathMatch {
    pub path: Seq<char>,
    pub queries: Map<Seq<char>, Seq<char>>,
    pub params: Map<Seq<char>, Seq<char>>,
    pub matches: Seq<Seq<char>>,
}

impl View for RequestPath {
    type V = PathMatch;

    open spec fn view(&self) -> PathMatch {
        PathMatch {
            path: self.path@,
            queries: self.queries@,
            params: self.params@,
            matches: self.matches.deep_view(),
        }
    }
}

/// The mathematical form of an optional [`RequestPath`].
pub open spec fn path_view(r: Option<RequestPath>) -> Option<PathMatch> {
    match r {
        Some(p) => Some(p@),
        None => None,
    }
}

/// A value stored in a [`Nested`].
pub enum NestedValue {
    Str(String),
}

/// The mathematical form of a [`NestedValue`].
pub enum NestedValueView {
    Str(Seq<char>),
}

impl View for NestedValue {
    type V = NestedValueView;

    open spec fn view(&self) -> NestedValueView {
        match self {
            NestedValue::Str(s) => NestedValueView::Str(s@),
        }
    }
}

/// An ordered sequence of key/value pairs that renders as a JSON object.
/// Keys are not deduplicated: every insertion is kept, in order.
pub struct Nested {
    values: Vec<(String, NestedValue)>,
}

impl View for Nested {
    type V = Seq<(Seq<char>, NestedValueView)>;

    closed spec fn view(&self) -> Seq<(Seq<char>, NestedValueView)> {
        self.values@.map_values(|e: (String, NestedValue)| (e.0@, e.1@))
    }
}

impl Nested {
    pub fn new() -> (r: Self)
        ensures
            r@ == Seq::<(Seq<char>, NestedValueView)>::empty(),
    {
        let r = Self { values: Vec::new() };
        assert(r@ =~= Seq::empty());
        r
    }

    fn insert(&mut self, key: String, value: NestedValue)
        ensures
            final(self)@ == old(self)@.push((key@, value@)),
    {
        let ghost entry = (key@, value@);
        self.values.push((key, value));
        assert(self@ =~= old(self)@.push(entry));
    }

    /// Appends the pair `key`: `value`.
    pub fn insert_string(&mut self, key: String, value: String)
        ensures
            final(self)@ == old(self)@.push((key@, NestedValueView::Str(value@))),
    {
        self.insert(key, NestedValue::Str(value));
    }

    /// The pairs, in insertion order.
    pub fn iter(&self) -> (r: std::slice::Iter<'_, (String, NestedValue)>)
        ensures
            vstd::std_specs::slice::into_iter_elts(r).map_values(
                |e: (String, NestedValue)| (e.0@, e.1@),
            ) == self@,
    {
        self.values.iter()
    }

    /// The pair at position `i`.
    pub fn entry(&self, i: usize) -> (r: (&String, &NestedValue))
        requires
            i < self@.len(),
        ensures
            (r.0@, r.1@) == self@[i as int],
    {
        let e = &self.values[i];
        (&e.0, &e.1)
    }

    pub fn len(&self) -> (r: usize)
        ensures
            r == self@.len(),
    {
        self.values.len()
    }
}

} // verus!
