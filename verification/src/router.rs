use vstd::prelude::*;

use crate::corpus::Corpus;
use crate::request::request_from_query;
use crate::request::view_query;
use crate::request::SelectionRequest;
use crate::selector::select_post;
use crate::text::str_eq;

verus! {

/// What the service answers: a prompt with status 200, or 404 with an
/// empty body for any route it does not serve.
pub enum RouteResponse {
    Prompt(String),
    NotFound,
}

impl RouteResponse {
    /// The status code of the reply: 200 with a prompt, 404 otherwise.
    pub fn status(&self) -> (r: u16)
        ensures
            (*self is Prompt) ==> r == 200,
            (*self is NotFound) ==> r == 404,
    {
        match self {
            RouteResponse::Prompt(_) => 200,
            RouteResponse::NotFound => 404,
        }
    }

    /// The body of the reply: the prompt, or nothing at all.
    pub fn into_body(self) -> (r: String)
        ensures
            self matches RouteResponse::Prompt(b) ==> r == b,
            (self is NotFound) ==> r@.len() == 0,
    {
        match self {
            RouteResponse::Prompt(b) => b,
            RouteResponse::NotFound => String::new(),
        }
    }
}

/// Whether a request reaches the one served route.
pub open spec fn routes_to_prompt(method: Seq<char>, path: Seq<char>) -> bool {
    method == "GET"@ && path == "/prompt"@
}

/// Serves one request: `GET /prompt` draws a prompt as the query string
/// asks; every other method or path is not found.
pub fn handle_request(c: &Corpus, method: &str, path: &str, query: Option<&str>) -> (r:
    RouteResponse)
    requires
        c.wf(),
    ensures
        routes_to_prompt(method@, path@) ==> (r matches RouteResponse::Prompt(b) && {
            let req = request_from_query(view_query(query));
            select_post(*c, req.seed, req.step, req.allow_non_pg, b@)
        }),
        !routes_to_prompt(method@, path@) ==> r is NotFound,
{
    if str_eq(method, "GET") && str_eq(path, "/prompt") {
        let req = SelectionRequest::from_query(query);
        RouteResponse::Prompt(c.select(&req))
    } else {
        RouteResponse::NotFound
    }
}

} // verus!
