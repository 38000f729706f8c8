//! The decisions of the project store and of the mock endpoint: where a
//! project's configuration lives, when saving it is refused, and which
//! recorded answer a mocked request gets. Reading and writing files is left
//! to the caller.
use vstd::prelude::*;

use crate::decode::upper_of;
use crate::response::nested_json;
use crate::text_map::TextMap;
use crate::types::{method_name, Method, Nested, NestedValueView, Request, Response};

verus! {

broadcast use vstd::string::group_string_axioms;

/// The path of the configuration file of project `name`.
pub open spec fn config_path(name: Seq<char>) -> Seq<char> {
    "database/projects/"@ + name + ".json"@
}

/// The JSON body `{ "key": "message" }`.
pub open spec fn message_json(key: Seq<char>, message: Seq<char>) -> Seq<char> {
    nested_json(seq![(key, NestedValueView::Str(message))])
}

/// Whether `r` is a JSON response with `status` and body `{ "key": "message" }`.
pub open spec fn is_message(r: Response, status: u16, key: Seq<char>, message: Seq<char>) -> bool {
    &&& r.status == status
    &&& r.body@ == message_json(key, message)
    &&& r.headers@ == Map::<Seq<char>, Seq<char>>::empty().insert(
        "Content-Type"@,
        "application/json"@,
    )
}

/// Returns the path to a project's config file.
pub fn get_project_config_file_path(project_name: &str) -> (r: String)
    ensures
        r@ == config_path(project_name@),
{
    let mut r = "database/projects/".to_owned();
    r.append(project_name);
    r.append(".json");
    r
}

/// Returns the path to a project's config file from a request whose path
/// bound the parameter `name`.
pub fn config_file_path_from_request(request: &Request) -> (r: String)
    requires
        request.params@.contains_key("name"@),
    ensures
        r@ == config_path(request.params@["name"@]),
{
    match request.params.get("name") {
        Some(name) => get_project_config_file_path(name.as_str()),
        None => {
            assert(false);
            String::new()
        },
    }
}

/// A JSON response with body `{ "key": "message" }`.
fn message_response(status: u16, key: &str, message: &str) -> (r: Response)
    ensures
        is_message(r, status, key@, message@),
{
    let mut body = Nested::new();
    body.insert_string(key.to_owned(), message.to_owned());
    assert(body@ == seq![(key@, NestedValueView::Str(message@))]);
    Response::json(status, body, None)
}

/// The answer when a project that should exist does not.
pub fn project_missing(status: u16) -> (r: Response)
    ensures
        is_message(r, status, "error"@, "Project does not exist."@),
{
    message_response(status, "error", "Project does not exist.")
}

/// Why saving a project's configuration is refused: creating (`POST`) one
/// that exists, or updating (`PUT`) one that does not. `None` when the save
/// may go ahead.
pub fn save_config_refusal(method: &str, exists: bool) -> (r: Option<Response>)
    ensures
        method@ == method_name(Method::Post) && exists ==> (r matches Some(resp) && is_message(
            resp,
            400,
            "error"@,
            "Project already exists."@,
        )),
        method@ == method_name(Method::Put) && !exists ==> (r matches Some(resp) && is_message(
            resp,
            400,
            "error"@,
            "Project does not exist."@,
        )),
        !(method@ == method_name(Method::Post) && exists) && !(method@ == method_name(Method::Put)
            && !exists) ==> r is None,
{
    let m = method.to_owned();
    if m == Method::Post.to_string() && exists {
        Some(message_response(400, "error", "Project already exists."))
    } else if m == Method::Put.to_string() && !exists {
        Some(project_missing(400))
    } else {
        None
    }
}

/// The answer once a project's configuration has been saved.
pub fn save_config_done() -> (r: Response)
    ensures
        is_message(r, 200, "result"@, "ok"@),
{
    message_response(200, "result", "ok")
}

/// One recorded answer of a mocked endpoint.
pub struct MockCondition {
    /// The method it answers, compared without regard to case.
    pub method: String,
    /// Milliseconds to wait before answering.
    pub delay: u64,
    pub status: u64,
    pub body: String,
    pub headers: TextMap,
}

/// A mocked endpoint: a path and its recorded answers, tried in order.
pub struct MockEndpoint {
    pub path: String,
    pub when: Vec<MockCondition>,
}

/// Whether condition `j` of endpoint `i` answers a request for `path` with
/// `method`.
pub open spec fn mock_fits(
    endpoints: Seq<MockEndpoint>,
    path: Seq<char>,
    method: Seq<char>,
    i: int,
    j: int,
) -> bool {
    &&& 0 <= i < endpoints.len()
    &&& 0 <= j < endpoints[i].when.len()
    &&& endpoints[i].path@ == path
    &&& upper_of(endpoints[i].when@[j].method@) == upper_of(method)
}

/// Whether `(i, j)` comes before `(k, l)`: endpoints in order, then their
/// conditions in order.
pub open spec fn mock_before(i: int, j: int, k: int, l: int) -> bool {
    i < k || (i == k && j < l)
}

/// The recorded answer for a request for `path` with `method`: the first
/// condition, endpoints and their conditions taken in order, whose endpoint
/// has that path and whose method is the request's, both upper-cased.
pub fn find_mock(endpoints: &Vec<MockEndpoint>, path: &str, method: &str) -> (r: Option<
    (usize, usize),
>)
    ensures
        r matches Some(found) ==> (mock_fits(endpoints@, path@, method@, found.0 as int, found.1 as int)
            && forall|k: int, l: int|
            #![trigger mock_fits(endpoints@, path@, method@, k, l)]
            mock_before(k, l, found.0 as int, found.1 as int) ==> !mock_fits(
                endpoints@,
                path@,
                method@,
                k,
                l,
            )),
        r is None ==> forall|k: int, l: int| !#[trigger] mock_fits(endpoints@, path@, method@, k, l),
{
    let wanted_path = path.to_owned();
    let wanted_method = crate::decode::to_upper(method);
    let mut i: usize = 0;
    while i < endpoints.len()
        invariant
            0 <= i <= endpoints.len(),
            wanted_path@ == path@,
            wanted_method@ == upper_of(method@),
            forall|k: int, l: int| 0 <= k < i ==> !#[trigger] mock_fits(endpoints@, path@, method@, k, l),
        decreases endpoints.len() - i,
    {
        let endpoint = &endpoints[i];
        if endpoint.path == wanted_path {
            let mut j: usize = 0;
            while j < endpoint.when.len()
                invariant
                    0 <= i < endpoints.len(),
                    0 <= j <= endpoint.when.len(),
                    endpoint == &endpoints@[i as int],
                    endpoint.path@ == path@,
                    wanted_method@ == upper_of(method@),
                    forall|k: int, l: int| 0 <= k < i ==> !#[trigger] mock_fits(endpoints@, path@, method@, k, l),
                    forall|l: int| 0 <= l < j ==> !#[trigger] mock_fits(endpoints@, path@, method@, i as int, l),
                decreases endpoint.when.len() - j,
            {
                if crate::decode::to_upper(endpoint.when[j].method.as_str()) == wanted_method {
                    return Some((i, j));
                }
                j = j + 1;
            }
        }
        i = i + 1;
    }
    None
}

/// The response that a recorded answer gives; its status is taken modulo
/// 2^16, as a `u16` cast takes it.
pub fn mock_response(condition: MockCondition) -> (r: Response)
    ensures
        r.status == condition.status % 0x10000,
        r.body@ == condition.body@,
        r.headers@ == condition.headers@,
        r.headers.pairs() == condition.headers.pairs(),
{
    Response {
        status: (condition.status % 0x10000) as u16,
        body: condition.body,
        headers: condition.headers,
    }
}

/// The answer when no recorded answer fits a mocked request.
pub fn mock_not_implemented() -> (r: Response)
    ensures
        r.status == 400,
        r.body@ == "Not implemented."@,
        r.headers.pairs() == Seq::<(Seq<char>, Seq<char>)>::empty(),
{
    Response { status: 400, body: "Not implemented.".to_owned(), headers: TextMap::new() }
}

} // verus!
