//! The router: it owns the route tries, one for each method, and the
//! application state, and answers a request with what its handler says.

use vstd::prelude::*;
use vstd::string::StringExecFns;
use vstd::string::StringSliceAdditionalSpecFns;
use vstd::utf8::encode_utf8;
use std::sync::Arc;
use crate::error::HttpError;
use crate::method::Method;
use crate::request::request_of;
use crate::request::PeerAddr;
use crate::request::Request;
use crate::response::finalized;
use crate::response::status_response;
use crate::response::wire_text;
use crate::response::IntoResponse;
use crate::response::Response;
use crate::route_path::segments;
use crate::route_path::split_path;
use crate::route_path::Node;
use crate::status_code::StatusCode;

verus! {

/// What answers a request.
pub trait Handler<S>: Send + Sync {
    /// The requests that the handler can be called with.
    spec fn accepts(&self, request: Request<S>) -> bool;

    /// The responses that the handler may give to a request.
    spec fn answers(&self, request: Request<S>, response: Response) -> bool;

    /// Answers a request.
    fn invoke(&self, request: Request<S>) -> (response: Response)
        requires
            self.accepts(request),
        ensures
            self.answers(request, response),
    ;
}

/// Every function from a request to something that can be sent is a handler:
/// it answers with the response of what it returns.
impl<S, E: IntoResponse, F: Fn(Request<S>) -> E + Send + Sync> Handler<S> for F {
    open spec fn accepts(&self, request: Request<S>) -> bool {
        call_requires(*self, (request,))
    }

    open spec fn answers(&self, request: Request<S>, response: Response) -> bool {
        exists|value: E| call_ensures(*self, (request,), value) && response@ == value.response()
    }

    fn invoke(&self, request: Request<S>) -> (response: Response) {
        let value = self(request);
        value.into_response()
    }
}

/// A handler as the router keeps it: shared, and of any type that is a
/// handler.
#[verifier::reject_recursive_types(S)]
pub struct HandlerFn<S>(pub Arc<dyn Handler<S>>);

impl<S> HandlerFn<S> {
    /// The requests that the handler can be called with.
    pub open spec fn accepts(&self, request: Request<S>) -> bool {
        self.0.accepts(request)
    }

    /// The responses that the handler may give to a request.
    pub open spec fn answers(&self, request: Request<S>, response: Response) -> bool {
        self.0.answers(request, response)
    }

    /// The handler can be called with every request.
    pub open spec fn is_total(&self) -> bool {
        forall|request: Request<S>| self.accepts(request)
    }

    /// Answers a request.
    pub fn invoke(&self, request: Request<S>) -> (response: Response)
        requires
            self.accepts(request),
        ensures
            self.answers(request, response),
    {
        self.0.invoke(request)
    }
}

/// A registered route: a method and the segments of a path.
pub type RouteKey = (Method, Seq<Seq<u8>>);

/// A method and a path, as a handler is registered for them.
#[derive(PartialEq, Eq, Hash, Debug)]
pub struct Route {
    method: Method,
    uri: String,
}

impl Route {
    /// The method of the route.
    pub closed spec fn spec_method(&self) -> Method {
        self.method
    }

    /// The path of the route, as it was given.
    pub closed spec fn spec_uri(&self) -> Seq<char> {
        self.uri@
    }

    /// The method and the segments of the path.
    pub open spec fn key(&self) -> RouteKey {
        (self.spec_method(), segments(encode_utf8(self.spec_uri())))
    }

    /// The route for requests with `method` to `uri`.
    pub fn new(method: Method, uri: &str) -> (r: Route)
        ensures
            r.spec_method() == method,
            r.spec_uri() == uri@,
    {
        Route { method, uri: String::from_str(uri) }
    }

    /// The method of the route.
    #[verifier::when_used_as_spec(spec_method)]
    pub fn method(&self) -> (r: Method)
        ensures
            r == self.spec_method(),
    {
        self.method
    }

    /// The path of the route, as it was given.
    pub fn uri(&self) -> (r: &str)
        ensures
            r@ == self.spec_uri(),
    {
        self.uri.as_str()
    }
}

/// The router.
#[verifier::reject_recursive_types(S)]
pub struct Router<S> {
    routes: Vec<Node<HandlerFn<S>>>,
    state: S,
}

impl<S> View for Router<S> {
    type V = Map<RouteKey, HandlerFn<S>>;

    /// The registered handlers by method and path.
    closed spec fn view(&self) -> Map<RouteKey, HandlerFn<S>> {
        Map::new(
            |key: RouteKey| self.routes@[key.0.index() as int]@.contains_key(key.1),
            |key: RouteKey| self.routes@[key.0.index() as int]@[key.1],
        )
    }
}

/// The path that a request asks for, as its segments.
pub open spec fn path_of<S>(request: Request<S>) -> Seq<Seq<u8>> {
    segments(encode_utf8(request@.uri))
}

/// What the router answers to a request. The handler that is registered for
/// the method and the path of the request decides. Where there is none, the
/// answer is status 404, whether or not the path is registered for another
/// method.
pub open spec fn answer<S>(
    routes: Map<RouteKey, HandlerFn<S>>,
    request: Request<S>,
    response: Response,
) -> bool {
    let key = (request@.method, path_of(request));
    if routes.contains_key(key) {
        routes[key].answers(request, response)
    } else {
        response@ == status_response(StatusCode::NotFound)
    }
}

/// What the router answers to what was read from a connection: to a request
/// its answer, to a failure the response that carries its status.
pub open spec fn replies<S>(
    routes: Map<RouteKey, HandlerFn<S>>,
    request: Result<Request<S>, HttpError>,
    response: Response,
) -> bool {
    match request {
        Ok(req) => answer(routes, req, response),
        Err(e) => response@ == e.response(),
    }
}

/// `request` is what reading the bytes of a connection gives: the request
/// that they hold, with the application state, or the failure to read one.
pub open spec fn reads<S>(
    peer_addr: Option<PeerAddr>,
    wire: Seq<u8>,
    state: S,
    request: Result<Request<S>, HttpError>,
) -> bool {
    match request_of(peer_addr, wire) {
        Ok(view) => request matches Ok(req) && req@ == view && req.spec_state() == state,
        Err(e) => request matches Err(x) && x == e,
    }
}

impl Router<()> {
    /// A router without routes and without application state.
    pub fn new() -> (r: Router<()>)
        ensures
            r@ == Map::<RouteKey, HandlerFn<()>>::empty(),
    {
        Router::with_state(())
    }
}

impl<S> Router<S> {
    #[verifier::type_invariant]
    spec fn inv(&self) -> bool {
        &&& self.routes@.len() == Method::COUNT
        &&& forall|i: int| 0 <= i < self.routes@.len() ==> (#[trigger] self.routes@[i]).wf()
        &&& forall|i: int, path: Seq<Seq<u8>>|
            0 <= i < self.routes@.len() && (#[trigger] self.routes@[i]@.contains_key(path))
                ==> self.routes@[i]@[path].is_total()
    }

    /// The application state.
    pub closed spec fn spec_state(&self) -> S {
        self.state
    }

    /// A router without routes, with the application state `state`.
    pub fn with_state(state: S) -> (r: Router<S>)
        ensures
            r@ == Map::<RouteKey, HandlerFn<S>>::empty(),
            r.spec_state() == state,
    {
        let mut routes: Vec<Node<HandlerFn<S>>> = Vec::new();
        while routes.len() < Method::COUNT
            invariant
                routes@.len() <= Method::COUNT,
                forall|i: int|
                    0 <= i < routes@.len() ==> (#[trigger] routes@[i]).wf() && routes@[i]@
                        == Map::<Seq<Seq<u8>>, HandlerFn<S>>::empty(),
            decreases Method::COUNT - routes@.len(),
        {
            routes.push(Node::new("/"));
        }
        Router { routes, state }
    }

    /// Registers `handler` for `GET` requests to `uri`.
    pub fn get(self, uri: &str, handler: HandlerFn<S>) -> (r: Router<S>)
        requires
            handler.is_total(),
        ensures
            r@ == self@.insert((Method::Get, segments(uri.spec_bytes())), handler),
            r.spec_state() == self.spec_state(),
    {
        self.insert(Method::Get, uri, handler)
    }

    /// Registers `handler` for `POST` requests to `uri`.
    pub fn post(self, uri: &str, handler: HandlerFn<S>) -> (r: Router<S>)
        requires
            handler.is_total(),
        ensures
            r@ == self@.insert((Method::Post, segments(uri.spec_bytes())), handler),
            r.spec_state() == self.spec_state(),
    {
        self.insert(Method::Post, uri, handler)
    }

    /// Registers `handler` for `PUT` requests to `uri`.
    pub fn put(self, uri: &str, handler: HandlerFn<S>) -> (r: Router<S>)
        requires
            handler.is_total(),
        ensures
            r@ == self@.insert((Method::Put, segments(uri.spec_bytes())), handler),
            r.spec_state() == self.spec_state(),
    {
        self.insert(Method::Put, uri, handler)
    }

    /// Registers `handler` for `PATCH` requests to `uri`.
    pub fn patch(self, uri: &str, handler: HandlerFn<S>) -> (r: Router<S>)
        requires
            handler.is_total(),
        ensures
            r@ == self@.insert((Method::Patch, segments(uri.spec_bytes())), handler),
            r.spec_state() == self.spec_state(),
    {
        self.insert(Method::Patch, uri, handler)
    }

    /// Registers `handler` for `OPTIONS` requests to `uri`.
    pub fn options(self, uri: &str, handler: HandlerFn<S>) -> (r: Router<S>)
        requires
            handler.is_total(),
        ensures
            r@ == self@.insert((Method::Options, segments(uri.spec_bytes())), handler),
            r.spec_state() == self.spec_state(),
    {
        self.insert(Method::Options, uri, handler)
    }

    /// Registers `handler` for `DELETE` requests to `uri`.
    pub fn delete(self, uri: &str, handler: HandlerFn<S>) -> (r: Router<S>)
        requires
            handler.is_total(),
        ensures
            r@ == self@.insert((Method::Delete, segments(uri.spec_bytes())), handler),
            r.spec_state() == self.spec_state(),
    {
        self.insert(Method::Delete, uri, handler)
    }

    /// Registers `handler` for the requests of `route`.
    pub fn route(self, route: Route, handler: HandlerFn<S>) -> (r: Router<S>)
        requires
            handler.is_total(),
        ensures
            r@ == self@.insert(route.key(), handler),
            r.spec_state() == self.spec_state(),
    {
        self.insert(route.method, route.uri.as_str(), handler)
    }

    /// Registers `handler` for requests with `method` to `uri`, in place of
    /// a handler registered for them before.
    pub fn insert(self, method: Method, uri: &str, handler: HandlerFn<S>) -> (r: Router<S>)
        requires
            handler.is_total(),
        ensures
            r@ == self@.insert((method, segments(uri.spec_bytes())), handler),
            r.spec_state() == self.spec_state(),
    {
        proof {
            use_type_invariant(&self);
        }
        let Router { routes, state } = self;
        let mut routes = routes;
        let i = method.index();
        routes[i].insert(uri, handler);
        Router { routes, state }
    }

    /// Answers a request.
    pub fn handle(&self, req: Request<S>) -> (r: Response)
        ensures
            answer(self@, req, r),
    {
        proof {
            use_type_invariant(self);
        }
        let parts = split_path(req.uri().as_bytes());
        match self.routes[req.method().index()].get_parts(&parts) {
            Some(handler) => handler.invoke(req),
            None => StatusCode::NotFound.into_response(),
        }
    }

    /// Answers what was read from a connection: a request with what its
    /// handler says, a failure with its status.
    pub fn reply(&self, request: Result<Request<S>, HttpError>) -> (r: Response)
        ensures
            replies(self@, request, r),
    {
        match request {
            Ok(req) => self.handle(req),
            Err(e) => e.into_response(),
        }
    }

    /// Serves one connection: reads the request that `wire` holds, with a
    /// clone of the application state, answers it, and writes the answer out
    /// with its `Content-Length` set.
    pub fn respond(&self, peer_addr: Option<PeerAddr>, wire: &[u8]) -> (r: String) where S: Clone
        ensures
            exists|state: S, request: Result<Request<S>, HttpError>, response: Response|
                cloned(self.spec_state(), state) && reads(peer_addr, wire@, state, request)
                    && replies(self@, request, response) && r@ == wire_text(finalized(response@)),
    {
        let state = self.state.clone();
        let request = Request::parse(peer_addr, wire, state);
        let ghost read = request;
        let mut response = self.reply(request);
        let ghost replied = response;
        let text = response.finalize_and_encode();
        assert(cloned(self.spec_state(), state) && reads(peer_addr, wire@, state, read) && replies(
            self@,
            read,
            replied,
        ) && text@ == wire_text(finalized(replied@)));
        text
    }

    /// The application state.
    pub fn state(&self) -> (r: &S)
        ensures
            *r == self.spec_state(),
    {
        &self.state
    }
}

/// The order in which routes are registered does not matter: two routes
/// that differ in method or path can be registered in either order, and
/// both are found afterwards.
pub proof fn lemma_registration_order<S>(
    routes: Map<RouteKey, HandlerFn<S>>,
    first: RouteKey,
    first_handler: HandlerFn<S>,
    second: RouteKey,
    second_handler: HandlerFn<S>,
)
    requires
        first != second,
    ensures
        routes.insert(first, first_handler).insert(second, second_handler) == routes.insert(
            second,
            second_handler,
        ).insert(first, first_handler),
        routes.insert(first, first_handler).insert(second, second_handler)[first] == first_handler,
        routes.insert(first, first_handler).insert(second, second_handler)[second]
            == second_handler,
{
    assert(routes.insert(first, first_handler).insert(second, second_handler) =~= routes.insert(
        second,
        second_handler,
    ).insert(first, first_handler));
}

/// A request for which no handler is registered under its method and path
/// is answered with status 404 and no body, whatever is registered under
/// other methods and paths.
pub proof fn lemma_unknown_route<S>(
    routes: Map<RouteKey, HandlerFn<S>>,
    request: Request<S>,
    response: Response,
)
    requires
        answer(routes, request, response),
        !routes.contains_key((request@.method, path_of(request))),
    ensures
        response@ == status_response(StatusCode::NotFound),
        response@.status.code() == 404,
        response@.body is None,
{
}

/// A failure to read a request is answered with the status of the failure,
/// whatever routes are registered.
pub proof fn lemma_failure_status<S>(
    routes: Map<RouteKey, HandlerFn<S>>,
    e: HttpError,
    response: Response,
)
    requires
        replies(routes, Err::<Request<S>, _>(e), response),
    ensures
        response@.status == e.status_code(),
        response@.body is None,
{
}

} // verus!
