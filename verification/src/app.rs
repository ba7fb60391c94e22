//! The route table: the routes of an application in the order in which they
//! were registered, and the lookup of the route that answers a request.

use vstd::prelude::*;

use crate::app::route::{path_matches, segments, Route};
use crate::http::http_method::HttpMethod;
use crate::text::same_text;

pub mod route;

verus! {

/// Why a route was not registered.
#[derive(Debug, Clone, Copy, PartialEq, Eq, Structural)]
pub enum RouteError {
    /// The table already holds a route with this method and this pattern.
    DuplicateRouteRegistration,
}

/// Whether `routes` holds a route with this method and exactly this pattern.
pub open spec fn registered<H>(
    routes: Seq<Route<H>>,
    method: HttpMethod,
    pattern: Seq<char>,
) -> bool {
    exists|i: int|
        0 <= i < routes.len() && (#[trigger] routes[i]).method == method && routes[i].path@
            == pattern
}

/// Whether a route answers a request for `path` with `method`.
pub open spec fn answers<H>(route: Route<H>, method: HttpMethod, path: Seq<char>) -> bool {
    route.method == method && path_matches(route.path@, path)
}

/// The position of the first route that answers the request, or the number
/// of routes where none does.
pub open spec fn first_answer<H>(routes: Seq<Route<H>>, method: HttpMethod, path: Seq<char>) -> int
    decreases routes.len(),
{
    if routes.len() == 0 || answers(routes[0], method, path) {
        0
    } else {
        1 + first_answer(routes.drop_first(), method, path)
    }
}

/// The route that a request resolves to: the first registered route that
/// answers it, if there is one.
pub open spec fn resolve<H>(routes: Seq<Route<H>>, method: HttpMethod, path: Seq<char>) -> Option<
    Route<H>,
> {
    let i = first_answer(routes, method, path);
    if 0 <= i < routes.len() {
        Some(routes[i])
    } else {
        None
    }
}

/// Whether `after` is `before` with one more route at its end, made of
/// `method`, `pattern` and `handler`.
pub open spec fn appended<H>(
    before: Seq<Route<H>>,
    after: Seq<Route<H>>,
    method: HttpMethod,
    pattern: Seq<char>,
    handler: H,
) -> bool {
    &&& after.len() == before.len() + 1
    &&& after.drop_last() == before
    &&& after.last().method == method
    &&& after.last().path@ == pattern
    &&& after.last().handler == handler
}

/// No two routes have the same method and the same pattern.
pub open spec fn distinct<H>(routes: Seq<Route<H>>) -> bool {
    forall|i: int, j: int|
        0 <= i < j < routes.len() ==> !((#[trigger] routes[i]).method == (
        #[trigger] routes[j]).method && routes[i].path@ == routes[j].path@)
}

/// `first_answer` is within bounds, no route before it answers, and the
/// route at it answers unless it is the number of routes.
pub proof fn lemma_first_answer<H>(routes: Seq<Route<H>>, method: HttpMethod, path: Seq<char>)
    ensures
        0 <= first_answer(routes, method, path) <= routes.len(),
        forall|j: int|
            0 <= j < first_answer(routes, method, path) ==> !answers(
                #[trigger] routes[j],
                method,
                path,
            ),
        first_answer(routes, method, path) < routes.len() ==> answers(
            routes[first_answer(routes, method, path)],
            method,
            path,
        ),
    decreases routes.len(),
{
    if routes.len() == 0 || answers(routes[0], method, path) {
    } else {
        let rest = routes.drop_first();
        lemma_first_answer(rest, method, path);
        assert forall|j: int| 0 <= j < first_answer(routes, method, path) implies !answers(
            #[trigger] routes[j],
            method,
            path,
        ) by {
            if j > 0 {
                assert(routes[j] == rest[j - 1]);
            }
        }
    }
}

/// A position before which no route answers, and whose route answers unless
/// it is the number of routes, is the first answer.
pub proof fn lemma_first_answer_is<H>(
    routes: Seq<Route<H>>,
    method: HttpMethod,
    path: Seq<char>,
    i: int,
)
    requires
        0 <= i <= routes.len(),
        forall|j: int| 0 <= j < i ==> !answers(#[trigger] routes[j], method, path),
        i < routes.len() ==> answers(routes[i], method, path),
    ensures
        first_answer(routes, method, path) == i,
{
    lemma_first_answer(routes, method, path);
}

/// The route table of an application. It never holds two routes with the
/// same method and the same pattern.
pub struct App<H> {
    /// The registered routes, first registered first.
    routes: Vec<Route<H>>,
}

impl<H> View for App<H> {
    type V = Seq<Route<H>>;

    /// The registered routes, first registered first.
    closed spec fn view(&self) -> Seq<Route<H>> {
        self.routes@
    }
}

impl<H> App<H> {
    #[verifier::type_invariant]
    spec fn well_formed(&self) -> bool {
        distinct(self.routes@)
    }

    /// A table without routes.
    pub fn new() -> (app: Self)
        ensures
            app@ == Seq::<Route<H>>::empty(),
    {
        Self { routes: Vec::new() }
    }

    /// Whether the table holds a route with this method and exactly this
    /// pattern.
    pub fn is_registered(&self, method: HttpMethod, path: &str) -> (r: bool)
        ensures
            r == registered(self@, method, path@),
    {
        let mut i: usize = 0;
        while i < self.routes.len()
            invariant
                0 <= i <= self.routes.len(),
                forall|j: int|
                    0 <= j < i ==> !((#[trigger] self.routes@[j]).method == method
                        && self.routes@[j].path@ == path@),
            decreases self.routes.len() - i,
        {
            if self.routes[i].method == method && same_text(self.routes[i].path.as_str(), path) {
                return true;
            }
            i += 1;
        }
        false
    }

    /// Registers a route for `method` and the pattern `path`, after all
    /// routes registered so far. Fails, and leaves the table as it was, if
    /// the table already holds a route with this method and this pattern.
    pub fn register_route(&mut self, method: HttpMethod, path: &str, handler: H) -> (r: Result<
        (),
        RouteError,
    >)
        ensures
            registered(final(self)@, method, path@),
            registered(old(self)@, method, path@) ==> r == Err::<(), RouteError>(
                RouteError::DuplicateRouteRegistration,
            ) && final(self)@ == old(self)@,
            !registered(old(self)@, method, path@) ==> r is Ok && appended(
                old(self)@,
                final(self)@,
                method,
                path@,
                handler,
            ),
    {
        if self.is_registered(method, path) {
            return Err(RouteError::DuplicateRouteRegistration);
        }
        proof {
            use_type_invariant(&*self);
        }
        let mut routes: Vec<Route<H>> = Vec::new();
        std::mem::swap(&mut self.routes, &mut routes);
        let ghost before = routes@;
        routes.push(Route::new(method, path.to_owned(), handler));
        proof {
            assert(routes@.drop_last() =~= before);
        }
        self.routes = routes;
        proof {
            let last = self.routes@.len() - 1;
            assert(self.routes@[last].method == method && self.routes@[last].path@ == path@);
        }
        Ok(())
    }

    /// The table with one more route, for GET and the pattern `path`. The
    /// table must not hold that pattern for GET yet: `is_registered` tells,
    /// and `register_route` registers without asking for it.
    pub fn get(self, path: &str, handler: H) -> (app: Self)
        requires
            !registered(self@, HttpMethod::Get, path@),
        ensures
            appended(self@, app@, HttpMethod::Get, path@, handler),
    {
        self.with_route(HttpMethod::Get, path, handler)
    }

    /// The table with one more route, for POST and the pattern `path`. The
    /// table must not hold that pattern for POST yet: `is_registered` tells,
    /// and `register_route` registers without asking for it.
    pub fn post(self, path: &str, handler: H) -> (app: Self)
        requires
            !registered(self@, HttpMethod::Post, path@),
        ensures
            appended(self@, app@, HttpMethod::Post, path@, handler),
    {
        self.with_route(HttpMethod::Post, path, handler)
    }

    /// The table with one more route, for PUT and the pattern `path`. The
    /// table must not hold that pattern for PUT yet: `is_registered` tells,
    /// and `register_route` registers without asking for it.
    pub fn put(self, path: &str, handler: H) -> (app: Self)
        requires
            !registered(self@, HttpMethod::Put, path@),
        ensures
            appended(self@, app@, HttpMethod::Put, path@, handler),
    {
        self.with_route(HttpMethod::Put, path, handler)
    }

    /// The table with one more route, for DELETE and the pattern `path`. The
    /// table must not hold that pattern for DELETE yet: `is_registered` tells,
    /// and `register_route` registers without asking for it.
    pub fn delete(self, path: &str, handler: H) -> (app: Self)
        requires
            !registered(self@, HttpMethod::Delete, path@),
        ensures
            appended(self@, app@, HttpMethod::Delete, path@, handler),
    {
        self.with_route(HttpMethod::Delete, path, handler)
    }

    /// The first registered route for `method` whose pattern `path`
    /// matches, or `None` where no registered route answers.
    pub fn find_route(&self, method: HttpMethod, path: &str) -> (found: Option<&Route<H>>)
        ensures
            match found {
                Some(route) => resolve(self@, method, path@) == Some(*route),
                None => resolve(self@, method, path@) is None,
            },
    {
        let mut i: usize = 0;
        while i < self.routes.len()
            invariant
                0 <= i <= self.routes.len(),
                forall|j: int| 0 <= j < i ==> !answers(#[trigger] self.routes@[j], method, path@),
            decreases self.routes.len() - i,
        {
            if self.routes[i].method == method && self.routes[i].matches(path) {
                proof {
                    lemma_first_answer_is(self.routes@, method, path@, i as int);
                }
                return Some(&self.routes[i]);
            }
            i += 1;
        }
        proof {
            lemma_first_answer_is(self.routes@, method, path@, i as int);
        }
        None
    }

    fn with_route(self, method: HttpMethod, path: &str, handler: H) -> (app: Self)
        requires
            !registered(self@, method, path@),
        ensures
            appended(self@, app@, method, path@, handler),
    {
        let mut app = self;
        let _ = app.register_route(method, path, handler);
        app
    }
}

impl<H: Clone> App<H> {
    /// The route that answers a request for `path` with `method`: a copy of
    /// the first registered route for `method` whose pattern `path` matches,
    /// or `None` where no registered route answers.
    pub fn get_route(&self, method: HttpMethod, path: &String) -> (found: Option<Route<H>>)
        ensures
            match (found, resolve(self@, method, path@)) {
                (Some(route), Some(first)) => route.method == first.method && route.path@
                    == first.path@ && cloned(first.handler, route.handler),
                (None, None) => true,
                _ => false,
            },
    {
        match self.find_route(method, path.as_str()) {
            Some(route) => Some(route.clone()),
            None => None,
        }
    }
}

impl<H> Default for App<H> {
    /// A table without routes.
    fn default() -> (app: Self)
        ensures
            app@ == Seq::<Route<H>>::empty(),
    {
        Self::new()
    }
}

/// Registering a method and a pattern twice fails: once a route is
/// registered, the table holds its method and its pattern, and goes on
/// holding them whatever is registered after it, so that `register_route`
/// refuses them from then on.
pub proof fn lemma_registered_for_good<H>(
    before: Seq<Route<H>>,
    after: Seq<Route<H>>,
    i: int,
)
    requires
        0 <= i < before.len() <= after.len(),
        after.take(before.len() as int) == before,
    ensures
        registered(before, before[i].method, before[i].path@),
        registered(after, before[i].method, before[i].path@),
{
}

/// A request resolves only to a route whose pattern has as many segments as
/// the request path: where every route for the method differs from the path
/// in that number, the request resolves to none.
pub proof fn lemma_resolve_needs_equal_segment_count<H>(
    routes: Seq<Route<H>>,
    method: HttpMethod,
    path: Seq<char>,
)
    ensures
        resolve(routes, method, path) matches Some(route) ==> segments(route.path@).len()
            == segments(path).len(),
        (forall|i: int|
            0 <= i < routes.len() && (#[trigger] routes[i]).method == method ==> segments(
                routes[i].path@,
            ).len() != segments(path).len()) ==> resolve(routes, method, path) is None,
{
    lemma_first_answer(routes, method, path);
}

} // verus!
