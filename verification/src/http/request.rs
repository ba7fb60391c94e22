//! Requests, and the two phases in which a request line becomes one.
//!
//! The first phase reads the request line: the method, the path and the
//! version. It knows nothing of routes. Once the route that answers the
//! request is known, the second phase reads the parameters: those of the
//! query string, and those that the path gives to the route's pattern.

use std::str::FromStr;
use vstd::prelude::*;

use crate::app::route::{
    is_param, is_param_segment, param_name, param_name_of, path_params, positions, segments, Route,
};
use crate::http::http_header::{headers_view, HttpHeader};
use crate::http::http_method::{method_of, HttpMethod};
use crate::http::request_param::{find_param, lookup, params_view, RequestParam};
use crate::text::{
    first_index, lemma_first_index, split, split_once, split_once_str, split_str,
    split_whitespace, tokens, views,
};

verus! {

/// Why a request line was not accepted.
#[derive(Debug, Clone, Copy, PartialEq, Eq, Structural)]
pub enum RequestParsingError {
    /// The line does not have the shape of a request line.
    NonHttpRequest,
    /// The line has the shape, but its method is none of the known ones.
    InvalidHttpMethod,
}

/// A request.
#[derive(Debug)]
pub struct Request {
    /// The request line, such as `GET /home HTTP/1.1`.
    pub line: String,
    pub method: HttpMethod,
    pub http_version: String,
    /// The path without its query string.
    pub base_path: String,
    /// The path with its query string.
    pub full_path: String,
    /// The parameters of the query string, in order.
    pub query_params: Vec<RequestParam>,
    /// The values that the path gives to the parameters of the route.
    pub route_params: Vec<RequestParam>,
    pub headers: Vec<HttpHeader>,
    pub body: Option<String>,
}

/// What a request holds.
pub struct RequestView {
    pub line: Seq<char>,
    pub method: HttpMethod,
    pub http_version: Seq<char>,
    pub base_path: Seq<char>,
    pub full_path: Seq<char>,
    pub query_params: Seq<(Seq<char>, Seq<char>)>,
    pub route_params: Seq<(Seq<char>, Seq<char>)>,
    pub headers: Seq<(Seq<char>, Seq<char>)>,
    pub body: Option<Seq<char>>,
}

impl View for Request {
    type V = RequestView;

    open spec fn view(&self) -> RequestView {
        RequestView {
            line: self.line@,
            method: self.method,
            http_version: self.http_version@,
            base_path: self.base_path@,
            full_path: self.full_path@,
            query_params: params_view(self.query_params@),
            route_params: params_view(self.route_params@),
            headers: headers_view(self.headers@),
            body: match self.body {
                Some(text) => Some(text@),
                None => None,
            },
        }
    }
}

/// The shape of a request line, as a regular expression: a word, a white
/// space, a path that starts with a slash, a white space, and `HTTP/`.
pub const REQUEST_LINE_PATTERN: &'static str = "^\\S+\\s\\/.*\\sHTTP\\/";

/// What a search with a regular expression gives: `None` where `pattern`
/// is not a regular expression that `regex::Regex::new` accepts, else
/// whether `Regex::is_match` finds a match of it anywhere in `haystack`.
pub uninterp spec fn regex_search(pattern: Seq<char>, haystack: Seq<char>) -> Option<bool>;

/// `regex::Regex::new` on `pattern`, then `Regex::is_match` on `haystack`:
/// the result is the one that `regex_search` names. Both are functions of
/// their arguments alone.
#[verifier::external_body]
fn search(pattern: &str, haystack: &str) -> (found: Option<bool>)
    ensures
        found == regex_search(pattern@, haystack@),
{
    match regex::Regex::new(pattern) {
        Ok(re) => Some(re.is_match(haystack)),
        Err(_) => None,
    }
}

/// The path without its query string: what stands before the first `?`.
pub open spec fn base_path_of(full_path: Seq<char>) -> Seq<char> {
    full_path.take(first_index(full_path, '?'))
}

/// The parameters of the query string of a path. The query string is what
/// follows the first `?`; it is cut at every `&`, and each piece at its first
/// `=` into key and value. A piece without `=` is left out.
pub open spec fn query_pairs(full_path: Seq<char>) -> Seq<(Seq<char>, Seq<char>)> {
    match split_once(full_path, '?') {
        Some((_, query)) => split(query, '&').filter_map(|piece: Seq<char>| split_once(piece, '=')),
        None => Seq::empty(),
    }
}

/// What the first phase makes of a request line, given whether the line has
/// the shape of one. A line without the shape, or with fewer than three
/// words, is no request. Else the first word is the method, the second the
/// path and the third the version; no parameter is read yet.
pub open spec fn request_of_line(line: Seq<char>, has_shape: bool) -> Result<
    RequestView,
    RequestParsingError,
> {
    let words = tokens(line);
    if !has_shape || words.len() < 3 {
        Err(RequestParsingError::NonHttpRequest)
    } else {
        match method_of(words[0]) {
            None => Err(RequestParsingError::InvalidHttpMethod),
            Some(method) => Ok(
                RequestView {
                    line,
                    method,
                    http_version: words[2],
                    base_path: base_path_of(words[1]),
                    full_path: words[1],
                    query_params: Seq::empty(),
                    route_params: Seq::empty(),
                    headers: Seq::empty(),
                    body: None,
                },
            ),
        }
    }
}

/// What the second phase makes of a request, given the pattern of the route
/// that answers it: the parameters of the query string and those of the
/// path are filled in, and nothing else changes.
pub open spec fn completed(request: RequestView, pattern: Seq<char>) -> RequestView {
    RequestView {
        query_params: query_pairs(request.full_path),
        route_params: path_params(pattern, request.base_path),
        ..request
    }
}

/// The outcome of the first phase, by its view.
pub open spec fn outcome(parsed: Result<Request, RequestParsingError>) -> Result<
    RequestView,
    RequestParsingError,
> {
    match parsed {
        Ok(request) => Ok(request@),
        Err(e) => Err(e),
    }
}

impl Request {
    /// The value of the first query parameter with the key `name`, read as
    /// a `T`. `None` where there is no such parameter, or where `T` does not
    /// accept its value.
    pub fn get_query_param<T: FromStr>(&self, name: &str) -> (value: Option<T>)
        ensures
            lookup(self@.query_params, name@) is None ==> value is None,
    {
        match find_param(&self.query_params, name) {
            Some(param) => {
                let parsed = param.parse::<T>();
                RequestParam::accepted(parsed)
            },
            None => None,
        }
    }

    /// The value of the first route parameter with the key `name`, read as
    /// a `T`. `None` where there is no such parameter, or where `T` does not
    /// accept its value.
    pub fn get_route_param<T: FromStr>(&self, name: &str) -> (value: Option<T>)
        ensures
            lookup(self@.route_params, name@) is None ==> value is None,
    {
        match find_param(&self.route_params, name) {
            Some(param) => {
                let parsed = param.parse::<T>();
                RequestParam::accepted(parsed)
            },
            None => None,
        }
    }

    /// The first phase: reads the request line `line`.
    ///
    /// Whether the line has the shape of a request line is for the regular
    /// expression `REQUEST_LINE_PATTERN` to say.
    pub fn initial_parse(line: &str) -> (parsed: Result<Self, RequestParsingError>)
        ensures
            outcome(parsed) == request_of_line(
                line@,
                regex_search(REQUEST_LINE_PATTERN@, line@) == Some(true),
            ),
    {
        let has_shape = match search(REQUEST_LINE_PATTERN, line) {
            Some(found) => found,
            None => false,
        };
        Self::from_line(line, has_shape)
    }

    /// The first phase, for a line of which it is known whether it has the
    /// shape of a request line.
    pub fn from_line(line: &str, has_shape: bool) -> (parsed: Result<Self, RequestParsingError>)
        ensures
            outcome(parsed) == request_of_line(line@, has_shape),
    {
        if !has_shape {
            return Err(RequestParsingError::NonHttpRequest);
        }
        let words = split_whitespace(line);
        if words.len() < 3 {
            return Err(RequestParsingError::NonHttpRequest);
        }
        let method = match HttpMethod::try_from(words[0]) {
            Ok(method) => method,
            Err(e) => {
                return Err(e);
            },
        };
        let request = Request {
            line: line.to_owned(),
            method,
            http_version: words[2].to_owned(),
            base_path: Self::parse_base_path(words[1]),
            full_path: words[1].to_owned(),
            query_params: Vec::new(),
            route_params: Vec::new(),
            headers: Vec::new(),
            body: None,
        };
        proof {
            assert(request@.query_params =~= Seq::empty());
            assert(request@.route_params =~= Seq::empty());
            assert(request@.headers =~= Seq::empty());
        }
        Ok(request)
    }

    /// The second phase: fills in the parameters of the query string and
    /// those that the path gives to the pattern of `matched_route`. It always
    /// succeeds.
    pub fn complete_parsing<H>(&mut self, matched_route: &Route<H>) -> (done: Result<
        (),
        RequestParsingError,
    >)
        ensures
            done is Ok,
            final(self)@ == completed(old(self)@, matched_route.path@),
    {
        let query_params = self.parse_query_params();
        let route_params = self.parse_route_params(matched_route);
        self.query_params = query_params;
        self.route_params = route_params;
        Ok(())
    }

    /// The values that the request's path gives to the parameters of the
    /// pattern of `matched_route`.
    pub fn parse_route_params<H>(&self, matched_route: &Route<H>) -> (params: Vec<RequestParam>)
        ensures
            params_view(params@) == path_params(matched_route.path@, self.base_path@),
    {
        let pattern_parts = split_str(matched_route.path.as_str(), '/');
        let path_parts = split_str(self.base_path.as_str(), '/');
        let ghost p = segments(matched_route.path@);
        let ghost r = segments(self.base_path@);
        let ghost f = |i: int|
            if is_param(p[i]) && i < r.len() {
                Some((param_name(p[i]), r[i]))
            } else {
                None
            };
        let ghost all = positions(p.len());
        let mut params: Vec<RequestParam> = Vec::new();
        let mut i: usize = 0;
        while i < pattern_parts.len()
            invariant
                0 <= i <= pattern_parts.len(),
                views(pattern_parts@) == p,
                views(path_parts@) == r,
                all == positions(p.len()),
                f == |i: int|
                    if is_param(p[i]) && i < r.len() {
                        Some((param_name(p[i]), r[i]))
                    } else {
                        None
                    },
                params_view(params@) == all.take(i as int).filter_map(f),
            decreases pattern_parts.len() - i,
        {
            proof {
                all.lemma_filter_map_take_succ(f, i as int);
            }
            if is_param_segment(pattern_parts[i]) && i < path_parts.len() {
                params.push(
                    RequestParam {
                        key: param_name_of(pattern_parts[i]).to_owned(),
                        value: path_parts[i].to_owned(),
                    },
                );
            }
            i += 1;
        }
        proof {
            assert(all.take(i as int) =~= all);
        }
        params
    }

    /// The parameters of the query string of the request's path.
    pub fn parse_query_params(&self) -> (params: Vec<RequestParam>)
        ensures
            params_view(params@) == query_pairs(self.full_path@),
    {
        let mut params: Vec<RequestParam> = Vec::new();
        match split_once_str(self.full_path.as_str(), '?') {
            None => {},
            Some((_, query)) => {
                let pieces = split_str(query, '&');
                let ghost all = split(query@, '&');
                let ghost f = |piece: Seq<char>| split_once(piece, '=');
                let mut i: usize = 0;
                while i < pieces.len()
                    invariant
                        0 <= i <= pieces.len(),
                        views(pieces@) == all,
                        f == |piece: Seq<char>| split_once(piece, '='),
                        params_view(params@) == all.take(i as int).filter_map(f),
                    decreases pieces.len() - i,
                {
                    proof {
                        all.lemma_filter_map_take_succ(f, i as int);
                    }
                    match split_once_str(pieces[i], '=') {
                        Some((key, value)) => {
                            params.push(
                                RequestParam { key: key.to_owned(), value: value.to_owned() },
                            );
                        },
                        None => {},
                    }
                    i += 1;
                }
                proof {
                    assert(all.take(i as int) =~= all);
                }
            },
        }
        params
    }

    /// The path without its query string.
    pub fn parse_base_path(path: &str) -> (base: String)
        ensures
            base@ == base_path_of(path@),
    {
        match split_once_str(path, '?') {
            Some((before, _)) => before.to_owned(),
            None => {
                proof {
                    lemma_first_index(path@, '?');
                }
                path.to_owned()
            },
        }
    }
}

} // verus!
