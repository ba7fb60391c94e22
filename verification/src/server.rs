//! What the accept loop decides for each connection.
//!
//! The loop itself, with its sockets and its worker threads, lives outside
//! this crate. For each connection it reads the request line and asks
//! `dispatch` what to do. The answer is one of three things: to abandon the
//! connection, to hand the request to the handler of a route, or to answer
//! that nothing was found.

use vstd::prelude::*;

use crate::app::route::Route;
use crate::app::{resolve, App};
use crate::http::request::{
    completed, outcome, regex_search, REQUEST_LINE_PATTERN, request_of_line, Request,
    RequestParsingError, RequestView,
};
use crate::http::response::{
    lemma_not_found_on_the_wire, plain, wire_text, HttpStatusCode, Response,
};

verus! {

/// What to do with a connection.
pub enum Dispatch<H> {
    /// The request line was not accepted: the connection is abandoned, and
    /// nothing is written to it.
    Abandon(RequestParsingError),
    /// A route answers the request: its handler is to be called with the
    /// request, and the handler's response written to the connection.
    Invoke { route: Route<H>, request: Request },
    /// No route answers the request: this response is to be written to the
    /// connection.
    NotFound(Response),
}

/// Whether `decision` is the right one for a connection whose request line
/// the first phase has made `parsed` of, with the registered `routes`.
///
/// A line that was not accepted is abandoned with its error. An accepted
/// request goes to the first registered route that answers its method and
/// its path without the query string, completed by the second phase with
/// that route's pattern. Where no route answers, the response is the one
/// for NOT FOUND, and the second phase is not run.
pub open spec fn decides<H: Clone>(
    routes: Seq<Route<H>>,
    parsed: Result<RequestView, RequestParsingError>,
    decision: Dispatch<H>,
) -> bool {
    match parsed {
        Err(e) => decision == Dispatch::<H>::Abandon(e),
        Ok(request) => match resolve(routes, request.method, request.base_path) {
            Some(first) => {
                &&& decision matches Dispatch::Invoke { route, request: handed }
                &&& route.method == first.method
                &&& route.path@ == first.path@
                &&& cloned(first.handler, route.handler)
                &&& handed@ == completed(request, first.path@)
            },
            None => {
                &&& decision matches Dispatch::NotFound(response)
                &&& response@ == plain(HttpStatusCode::NotFound, Seq::empty())
            },
        },
    }
}

/// Decides what to do with a connection whose request line is `line`.
///
/// Whether the line has the shape of a request line is for the regular
/// expression `REQUEST_LINE_PATTERN` to say.
pub fn dispatch<H: Clone>(app: &App<H>, line: &str) -> (decision: Dispatch<H>)
    ensures
        decides(
            app@,
            request_of_line(line@, regex_search(REQUEST_LINE_PATTERN@, line@) == Some(true)),
            decision,
        ),
{
    route_request(app, Request::initial_parse(line))
}

/// Decides what to do with a connection, given what the first phase made
/// of its request line.
pub fn route_request<H: Clone>(
    app: &App<H>,
    parsed: Result<Request, RequestParsingError>,
) -> (decision: Dispatch<H>)
    ensures
        decides(app@, outcome(parsed), decision),
{
    match parsed {
        Err(e) => Dispatch::Abandon(e),
        Ok(request) => {
            let mut request = request;
            match app.get_route(request.method, &request.base_path) {
                Some(route) => {
                    let _ = request.complete_parsing(&route);
                    Dispatch::Invoke { route, request }
                },
                None => Dispatch::NotFound(Response::not_found()),
            }
        },
    }
}

/// A request that no registered route answers gets a response that
/// starts, on the wire, with `HTTP/1.1 404`.
pub proof fn lemma_unanswered_request_is_not_found<H: Clone>(
    routes: Seq<Route<H>>,
    request: RequestView,
    decision: Dispatch<H>,
)
    requires
        decides(routes, Ok(request), decision),
        resolve(routes, request.method, request.base_path) is None,
    ensures
        decision is NotFound,
        wire_text(decision->NotFound_0@).take(12) == "HTTP/1.1 404"@,
{
    lemma_not_found_on_the_wire();
}

/// A request line that was not accepted leaves nothing to write: the
/// decision is to abandon the connection, and it carries no response.
pub proof fn lemma_rejected_line_is_abandoned<H: Clone>(
    routes: Seq<Route<H>>,
    e: RequestParsingError,
    decision: Dispatch<H>,
)
    requires
        decides(routes, Err(e), decision),
    ensures
        decision == Dispatch::<H>::Abandon(e),
{
}

} // verus!
