//! The route table and the dispatch of one request to the first route that
//! answers to it.
use vstd::prelude::*;

use crate::path_match::{parse_request_path, pattern_match};
use crate::text_map::TextMap;
use crate::types::{
    method_name, Method, PathMatch, PatternView, Request, RequestOption, RequestPath,
    RequestPathPattern, Response,
};

verus! {

broadcast use vstd::string::group_string_axioms;

/// A registered route: a method, a path pattern and the handler that answers.
pub struct Listener<H> {
    pub route: RequestPathPattern,
    pub method: Method,
    pub handler: H,
}

/// Serving settings.
pub struct ServerConf {
    /// The number of connections handled at the same time.
    pub max_connections: usize,
}

/// The route table, read by every connection.
pub struct ConnectionHandler<H> {
    pub listeners: Vec<Listener<H>>,
}

/// A server: its settings and its route table.
pub struct Server<H> {
    max_connections: usize,
    connection_handler: ConnectionHandler<H>,
}

/// Whether listener `l` answers a request with `method` for `path`.
pub open spec fn accepts<H>(l: Listener<H>, method: Seq<char>, path: Seq<char>) -> bool {
    method_name(l.method) == method && pattern_match(l.route@, path) is Some
}

/// Whether `i` is the first listener of `ls` that answers the request.
pub open spec fn is_first_accepting<H>(
    ls: Seq<Listener<H>>,
    method: Seq<char>,
    path: Seq<char>,
    i: int,
) -> bool {
    &&& 0 <= i < ls.len()
    &&& accepts(ls[i], method, path)
    &&& forall|j: int| 0 <= j < i ==> !accepts(#[trigger] ls[j], method, path)
}

/// Whether no listener of `ls` answers the request.
pub open spec fn none_accepts<H>(ls: Seq<Listener<H>>, method: Seq<char>, path: Seq<char>) -> bool {
    forall|j: int| 0 <= j < ls.len() ==> !accepts(#[trigger] ls[j], method, path)
}

/// Whether `req` is `orig` enriched with what matching its path produced.
pub open spec fn enriched(req: Request, orig: Request, m: PathMatch) -> bool {
    &&& req.method@ == orig.method@
    &&& req.version@ == orig.version@
    &&& req.headers@ == orig.headers@
    &&& req.body@ == orig.body@
    &&& req.path@ == m.path
    &&& req.queries@ == m.queries
    &&& req.params@ == m.params
    &&& req.matches.deep_view() == m.matches
}

/// What the response to an unrouted request is.
pub open spec fn is_not_found(r: Response) -> bool {
    &&& r.status == 404
    &&& r.body@ == "Not Found"@
    &&& r.headers.pairs() == Seq::<(Seq<char>, Seq<char>)>::empty()
}

/// The response to a request that no route answers.
pub fn not_found() -> (r: Response)
    ensures
        is_not_found(r),
{
    Response { status: 404, body: "Not Found".to_owned(), headers: TextMap::new() }
}

impl<H> ConnectionHandler<H> {
    pub fn new() -> (r: ConnectionHandler<H>)
        ensures
            r.listeners@ == Seq::<Listener<H>>::empty(),
    {
        ConnectionHandler { listeners: Vec::new() }
    }

    /// The first listener that answers a request with `method` for `path`,
    /// with what matching the path produced.
    pub fn find_listener(&self, method: &str, path: &str) -> (r: Option<(usize, RequestPath)>)
        ensures
            r is None <==> none_accepts(self.listeners@, method@, path@),
            r matches Some(found) ==> {
                &&& is_first_accepting(self.listeners@, method@, path@, found.0 as int)
                &&& pattern_match(self.listeners@[found.0 as int].route@, path@) == Some(found.1@)
            },
    {
        let wanted = method.to_owned();
        let mut i: usize = 0;
        while i < self.listeners.len()
            invariant
                0 <= i <= self.listeners.len(),
                wanted@ == method@,
                forall|j: int| 0 <= j < i ==> !accepts(#[trigger] self.listeners@[j], method@, path@),
            decreases self.listeners.len() - i,
        {
            let listener = &self.listeners[i];
            if listener.method.to_string() == wanted {
                match parse_request_path(&listener.route, path) {
                    Some(found) => {
                        return Some((i, found));
                    },
                    None => {},
                }
            }
            i = i + 1;
        }
        None
    }

    /// Handles one decoded request: the first listener whose method and
    /// pattern accept it gets the request, enriched with what matching its
    /// path produced, and its response is returned; when none accepts, the
    /// response is "not found".
    pub fn handle(&self, request: Request) -> (r: Response) where H: Fn(Request) -> Response
        requires
            forall|i: int, req: Request|
                0 <= i < self.listeners.len() ==> #[trigger] self.listeners@[i].handler.requires(
                    (req,),
                ),
        ensures
            none_accepts(self.listeners@, request.method@, request.path@) ==> is_not_found(r),
            forall|i: int|
                is_first_accepting(self.listeners@, request.method@, request.path@, i) ==> exists|
                    req: Request,
                |
                    enriched(
                        req,
                        request,
                        pattern_match(self.listeners@[i].route@, request.path@)->0,
                    ) && #[trigger] self.listeners@[i].handler.ensures((req,), r),
    {
        match self.find_listener(request.method.as_str(), request.path.as_str()) {
            Some((i, found)) => {
                let req = Request {
                    method: request.method,
                    path: found.path,
                    version: request.version,
                    headers: request.headers,
                    body: request.body,
                    queries: found.queries,
                    params: found.params,
                    matches: found.matches,
                };
                let ghost m = found@;
                assert(enriched(req, request, m));
                let handler = &self.listeners[i].handler;
                let r = handler(req);
                proof {
                    assert forall|k: int|
                        is_first_accepting(
                            self.listeners@,
                            request.method@,
                            request.path@,
                            k,
                        ) implies exists|q: Request|
                        enriched(
                            q,
                            request,
                            pattern_match(self.listeners@[k].route@, request.path@)->0,
                        ) && #[trigger] self.listeners@[k].handler.ensures((q,), r) by {
                        if k < i {
                            assert(!accepts(self.listeners@[k], request.method@, request.path@));
                        }
                        if k > i {
                            assert(!accepts(self.listeners@[i as int], request.method@, request.path@));
                        }
                        assert(k == i);
                        assert(self.listeners@[k].handler.ensures((req,), r));
                    }
                }
                r
            },
            None => not_found(),
        }
    }
}

impl<H> Server<H> {
    pub fn new(conf: ServerConf) -> (r: Server<H>)
        ensures
            r.connection_limit() == conf.max_connections,
            r.listeners() == Seq::<Listener<H>>::empty(),
    {
        Server { max_connections: conf.max_connections, connection_handler: ConnectionHandler::new() }
    }

    /// The number of connections handled at the same time.
    pub closed spec fn connection_limit(&self) -> usize {
        self.max_connections
    }

    /// The routes, in the order they were registered.
    pub closed spec fn listeners(&self) -> Seq<Listener<H>> {
        self.connection_handler.listeners@
    }

    /// Registers `request_handler` for requests that `option` describes;
    /// routes are tried in the order they were registered.
    pub fn request(&mut self, request_handler: H, option: RequestOption)
        ensures
            final(self).connection_limit() == old(self).connection_limit(),
            final(self).listeners() == old(self).listeners().push(
                Listener { route: option.path, method: option.method, handler: request_handler },
            ),
    {
        self.connection_handler.listeners.push(
            Listener { route: option.path, method: option.method, handler: request_handler },
        );
    }

    /// Registers an exact route for `method` and the template `path`.
    fn route(&mut self, method: Method, path: &str, request_handler: H)
        ensures
            final(self).connection_limit() == old(self).connection_limit(),
            final(self).listeners().len() == old(self).listeners().len() + 1,
            final(self).listeners().drop_last() == old(self).listeners(),
            final(self).listeners().last().method == method,
            final(self).listeners().last().route@ == PatternView::Exact(path@),
            final(self).listeners().last().handler == request_handler,
    {
        let option = RequestOption { method, path: RequestPathPattern::Exact(path.to_owned()) };
        self.request(request_handler, option);
        assert(self.listeners().drop_last() =~= old(self).listeners());
    }

    /// Registers `request_handler` for `GET` requests whose path fits the
    /// template `path`.
    pub fn get(&mut self, path: &str, request_handler: H)
        ensures
            final(self).connection_limit() == old(self).connection_limit(),
            final(self).listeners().len() == old(self).listeners().len() + 1,
            final(self).listeners().drop_last() == old(self).listeners(),
            final(self).listeners().last().method == Method::Get,
            final(self).listeners().last().route@ == PatternView::Exact(path@),
            final(self).listeners().last().handler == request_handler,
    {
        self.route(Method::Get, path, request_handler);
    }

    /// Registers `request_handler` for `POST` requests whose path fits the
    /// template `path`.
    pub fn post(&mut self, path: &str, request_handler: H)
        ensures
            final(self).connection_limit() == old(self).connection_limit(),
            final(self).listeners().len() == old(self).listeners().len() + 1,
            final(self).listeners().drop_last() == old(self).listeners(),
            final(self).listeners().last().method == Method::Post,
            final(self).listeners().last().route@ == PatternView::Exact(path@),
            final(self).listeners().last().handler == request_handler,
    {
        self.route(Method::Post, path, request_handler);
    }

    /// Registers `request_handler` for `PUT` requests whose path fits the
    /// template `path`.
    pub fn put(&mut self, path: &str, request_handler: H)
        ensures
            final(self).connection_limit() == old(self).connection_limit(),
            final(self).listeners().len() == old(self).listeners().len() + 1,
            final(self).listeners().drop_last() == old(self).listeners(),
            final(self).listeners().last().method == Method::Put,
            final(self).listeners().last().route@ == PatternView::Exact(path@),
            final(self).listeners().last().handler == request_handler,
    {
        self.route(Method::Put, path, request_handler);
    }

    /// The number of connections handled at the same time.
    pub fn max_connections(&self) -> (r: usize)
        ensures
            r == self.connection_limit(),
    {
        self.max_connections
    }

    /// The route table.
    pub fn connection_handler(&self) -> (r: &ConnectionHandler<H>)
        ensures
            r.listeners@ == self.listeners(),
    {
        &self.connection_handler
    }
}

} // verus!
