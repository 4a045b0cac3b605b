//! The route table and the way from what a connection received to the
//! reply that is sent back on it.

use crate::default_handlers::{bad_request, bad_request_response, not_found, not_found_response};
use crate::error::{PatternCompileError, ReasonPhraseLookupError};
use crate::grammar::parsed;
use crate::http_util::{parse_request, serialize_response};
use crate::matcher::{pattern_matches, regex_source, PathMatcher};
use crate::message::{Request, Response};
use crate::status::reason_of;
use crate::text::{reads_utf8_as_it_is, text_from_bytes, utf8_lossy};
use crate::wire::{header_lines, reply_text, response_text_with, written};
use regex::Regex;
use vstd::prelude::*;
use vstd::string::StrSliceExecFns;
use vstd::utf8::encode_utf8;

verus! {

/// The type of a handler that is a plain function.
pub type RequestHandler = fn(req: Request) -> Response;

/// Associates [`PathMatcher`] expressions with handlers, in the order in
/// which they were registered.
pub type HandlerList<H> = Vec<(PathMatcher, H)>;

/// The routes as contracts see them: the text of each pattern with its
/// handler, in registration order.
pub type Routes<H> = Seq<(Seq<char>, H)>;

/// A reply as contracts see it: the text to send, or the error that kept
/// it from being written.
pub type Reply = Result<Seq<char>, ReasonPhraseLookupError>;

/// The index of the first route at or after `from` whose pattern matches
/// `path`.
pub open spec fn first_match_from<H>(routes: Routes<H>, path: Seq<char>, from: int) -> Option<int>
    decreases routes.len() - from,
{
    if from < 0 || from >= routes.len() {
        None
    } else if pattern_matches(routes[from].0, path) {
        Some(from)
    } else {
        first_match_from(routes, path, from + 1)
    }
}

/// The index of the first route whose pattern matches `path`: the route
/// that a request for `path` goes to.
pub open spec fn first_match<H>(routes: Routes<H>, path: Seq<char>) -> Option<int> {
    first_match_from(routes, path, 0)
}

/// Whether `res` can be the answer of `routes` to `req`: what the handler
/// of the first matching route returns for it, or the 404 answer where no
/// route matches.
pub open spec fn is_answer<H: Fn(Request) -> Response>(
    routes: Routes<H>,
    req: Request,
    res: Response,
) -> bool {
    match first_match(routes, req@.path) {
        Some(i) => call_ensures(routes[i].1, (req,), res),
        None => res@ == not_found_response(),
    }
}

/// Whether `out` can be the reply of `routes` to the received text `raw`.
/// What is no request is answered with `400 Bad Request`, and a request
/// without a route with `404 Not Found`. Any other request is answered with
/// what the handler of its route returns for it, written out.
pub open spec fn is_reply<H: Fn(Request) -> Response>(
    routes: Routes<H>,
    raw: Seq<char>,
    out: Reply,
) -> bool {
    match parsed(raw) {
        None => out == Ok::<Seq<char>, ReasonPhraseLookupError>(bad_request_text()),
        Some(request) => match first_match(routes, request.path) {
            None => out == Ok::<Seq<char>, ReasonPhraseLookupError>(not_found_text()),
            Some(i) => exists|req: Request, res: Response|
                req@ == request && #[trigger] call_ensures(routes[i].1, (req,), res) && out
                    == written(res@),
        },
    }
}

/// Whether `out` is the reply `text` as it goes out: the UTF-8 encoding of
/// its text, or its error.
pub open spec fn is_encoded(text: Reply, out: Result<Vec<u8>, ReasonPhraseLookupError>) -> bool {
    match out {
        Ok(bytes) => text matches Ok(t) && bytes@ == encode_utf8(t),
        Err(e) => text == Err::<Seq<char>, ReasonPhraseLookupError>(e),
    }
}

/// The text of the answer to a request that no route matches.
pub open spec fn not_found_text() -> Seq<char> {
    "HTTP/1.1 404 Not Found\r\n\r\n"@
}

/// The text of the answer to what is no request.
pub open spec fn bad_request_text() -> Seq<char> {
    "HTTP/1.1 400 Bad Request\r\n\r\n"@
}

/// The route that a path goes to matches it, and no route before it does.
/// A path goes to no route only if none matches it.
pub proof fn lemma_first_match_is_first<H>(routes: Routes<H>, path: Seq<char>, from: int)
    requires
        0 <= from,
    ensures
        match first_match_from(routes, path, from) {
            Some(i) => from <= i < routes.len() && pattern_matches(routes[i].0, path)
                && forall|j: int| from <= j < i ==> !pattern_matches(#[trigger] routes[j].0, path),
            None => forall|j: int|
                from <= j < routes.len() ==> !pattern_matches(#[trigger] routes[j].0, path),
        },
    decreases routes.len() - from,
{
    if from < routes.len() && !pattern_matches(routes[from].0, path) {
        lemma_first_match_is_first(routes, path, from + 1);
    }
}

/// The first route that matches a path and has no matching route before it
/// is the route that the path goes to.
pub proof fn lemma_first_match_is<H>(routes: Routes<H>, path: Seq<char>, from: int, i: int)
    requires
        0 <= from <= i < routes.len(),
        pattern_matches(routes[i].0, path),
        forall|j: int| from <= j < i ==> !pattern_matches(#[trigger] routes[j].0, path),
    ensures
        first_match_from(routes, path, from) == Some(i),
    decreases i - from,
{
    if from < i {
        lemma_first_match_is(routes, path, from + 1, i);
    }
}

/// Of two routes whose patterns both match a path, the one that was
/// registered first gets the request, whichever of the two that is: the
/// answer is its handler's and never the other's.
pub proof fn lemma_registration_order_decides<H: Fn(Request) -> Response>(
    one: (Seq<char>, H),
    other: (Seq<char>, H),
    path: Seq<char>,
)
    requires
        pattern_matches(one.0, path),
        pattern_matches(other.0, path),
    ensures
        first_match(seq![one, other], path) == Some(0int),
        first_match(seq![other, one], path) == Some(0int),
        forall|req: Request, res: Response|
            req@.path == path ==> (is_answer(seq![one, other], req, res) <==> #[trigger] call_ensures(
                one.1,
                (req,),
                res,
            )),
        forall|req: Request, res: Response|
            req@.path == path ==> (is_answer(seq![other, one], req, res) <==> #[trigger] call_ensures(
                other.1,
                (req,),
                res,
            )),
{
}

/// A route that is added behind the others gets the paths that it matches
/// and that went to no route before. Every other path goes where it went.
pub proof fn lemma_added_route_comes_last<H>(
    routes: Routes<H>,
    added: (Seq<char>, H),
    path: Seq<char>,
)
    ensures
        first_match(routes.push(added), path) == match first_match(routes, path) {
            Some(i) => Some(i),
            None => if pattern_matches(added.0, path) {
                Some(routes.len() as int)
            } else {
                None
            },
        },
{
    let longer = routes.push(added);
    lemma_first_match_is_first(routes, path, 0);
    match first_match(routes, path) {
        Some(i) => {
            assert forall|j: int| 0 <= j < i implies !pattern_matches(
                #[trigger] longer[j].0,
                path,
            ) by {
                assert(longer[j] == routes[j]);
            }
            assert(longer[i] == routes[i]);
            lemma_first_match_is(longer, path, 0, i);
        },
        None => {
            assert forall|j: int| 0 <= j < routes.len() implies !pattern_matches(
                #[trigger] longer[j].0,
                path,
            ) by {
                assert(longer[j] == routes[j]);
            }
            if pattern_matches(added.0, path) {
                lemma_first_match_is(longer, path, 0, routes.len() as int);
            } else {
                lemma_first_match_is_first(longer, path, 0);
            }
        },
    }
}

/// With `Not Found` as the reason phrase of 404, the 404 answer is written
/// out as [`not_found_text`] says.
pub proof fn lemma_not_found_text()
    requires
        reason_of(404) == Some("Not Found"@),
    ensures
        written(not_found_response()) == Ok::<Seq<char>, ReasonPhraseLookupError>(
            not_found_text(),
        ),
{
    reveal_strlit("Not Found");
    reveal_strlit("HTTP/1.1 404 Not Found\r\n\r\n");
    assert(header_lines(Seq::empty()) =~= Seq::empty());
    assert(response_text_with(not_found_response(), "Not Found"@) =~= not_found_text());
}

/// With `Bad Request` as the reason phrase of 400, the 400 answer is
/// written out as [`bad_request_text`] says.
pub proof fn lemma_bad_request_text()
    requires
        reason_of(400) == Some("Bad Request"@),
    ensures
        written(bad_request_response()) == Ok::<Seq<char>, ReasonPhraseLookupError>(
            bad_request_text(),
        ),
{
    reveal_strlit("Bad Request");
    reveal_strlit("HTTP/1.1 400 Bad Request\r\n\r\n");
    assert(header_lines(Seq::empty()) =~= Seq::empty());
    assert(response_text_with(bad_request_response(), "Bad Request"@) =~= bad_request_text());
}

/// Manages the handlers of a web service and answers its requests.
pub struct App<H: Fn(Request) -> Response> {
    handlers: HandlerList<H>,
}

impl<H: Fn(Request) -> Response> View for App<H> {
    type V = Routes<H>;

    closed spec fn view(&self) -> Routes<H> {
        Seq::new(self.handlers@.len(), |i: int| (self.handlers@[i].0@, self.handlers@[i].1))
    }
}

impl<H: Fn(Request) -> Response> App<H> {
    /// Every handler of the table can be called on every request.
    #[verifier::type_invariant]
    spec fn handlers_total(self) -> bool {
        forall|i: int, req: Request|
            0 <= i < self.handlers@.len() ==> #[trigger] call_requires(
                self.handlers@[i].1,
                (req,),
            )
    }

    /// Creates an [`App`] without routes.
    pub fn new() -> (app: Self)
        ensures
            app@ == Routes::<H>::empty(),
    {
        let app = App { handlers: Vec::new() };
        proof {
            assert(app@ =~= Routes::<H>::empty());
        }
        app
    }

    /// Adds the route that compiling `path` gave: with a compiled
    /// expression the route is put behind all earlier ones, and with an
    /// error nothing changes and the error for `path` comes back.
    pub fn add_compiled(
        &mut self,
        path: &str,
        compiled: Result<Regex, regex::Error>,
        handler: H,
    ) -> (added: Result<(), PatternCompileError>)
        requires
            forall|req: Request| call_requires(handler, (req,)),
        ensures
            match compiled {
                Ok(expression) => added is Ok && final(self)@ == old(self)@.push(
                    (regex_source(expression), handler),
                ),
                Err(_) => added matches Err(e) && e.pattern@ == path@ && final(self)@ == old(
                    self,
                )@,
            },
    {
        match PathMatcher::from_compiled(path, compiled) {
            Ok(matcher) => {
                proof {
                    use_type_invariant(&*self);
                }
                let mut handlers: HandlerList<H> = Vec::new();
                std::mem::swap(&mut self.handlers, &mut handlers);
                handlers.push((matcher, handler));
                self.handlers = handlers;
                proof {
                    assert(self@ =~= old(self)@.push((matcher@, handler)));
                }
                Ok(())
            },
            Err(e) => Err(e),
        }
    }

    /// Adds a handler for requests to a path that matches `path`, a regular
    /// expression that is compiled here. Routes are tried in the order in
    /// which they were added, so a less specific pattern belongs behind the
    /// more specific ones. A pattern that does not compile changes nothing
    /// and is reported.
    pub fn add_handler(&mut self, path: &str, handler: H) -> (added: Result<
        (),
        PatternCompileError,
    >)
        requires
            forall|req: Request| call_requires(handler, (req,)),
        ensures
            match added {
                Ok(_) => final(self)@ == old(self)@.push((path@, handler)),
                Err(e) => e.pattern@ == path@ && final(self)@ == old(self)@,
            },
    {
        self.add_compiled(path, Regex::new(path), handler)
    }

    /// The number of routes.
    pub fn len(&self) -> (n: usize)
        ensures
            n == self@.len(),
    {
        self.handlers.len()
    }

    /// Finds the route for `path` and gives its place in the table: that of
    /// the first route, in registration order, whose pattern matches it.
    pub fn find_route(&self, path: &str) -> (route: Option<usize>)
        ensures
            match route {
                Some(i) => i < self@.len() && first_match(self@, path@) == Some(i as int),
                None => first_match(self@, path@) is None,
            },
    {
        let mut i: usize = 0;
        while i < self.handlers.len()
            invariant
                i <= self.handlers@.len(),
                first_match(self@, path@) == first_match_from(self@, path@, i as int),
            decreases self.handlers@.len() - i,
        {
            if self.handlers[i].0.is_match(path) {
                return Some(i);
            }
            i = i + 1;
        }
        None
    }

    /// Resolves `path` to a handler: that of the first route, in
    /// registration order, whose pattern matches it.
    pub fn resolve(&self, path: &str) -> (handler: Option<&H>)
        ensures
            match first_match(self@, path@) {
                Some(i) => handler == Some(&self@[i].1),
                None => handler is None,
            },
    {
        match self.find_route(path) {
            Some(i) => Some(&self.handlers[i].1),
            None => None,
        }
    }

    /// Answers a request: with what the handler of its route returns, or
    /// with the 404 answer where it has no route.
    pub fn dispatch(&self, req: Request) -> (res: Response)
        ensures
            is_answer(self@, req, res),
    {
        proof {
            use_type_invariant(self);
        }
        match self.find_route(req.path.as_str()) {
            Some(i) => (self.handlers[i].1)(req),
            None => not_found(req),
        }
    }

    /// Makes the reply to the text received on a connection: parses it,
    /// lets the route's handler answer, and writes the answer out. What is
    /// no request is answered with `400 Bad Request`, and no handler is
    /// asked. A request without a route is answered with `404 Not Found`.
    /// The error is that of a handler's answer whose status has no reason
    /// phrase.
    pub fn respond(&self, raw: &str) -> (out: Result<String, ReasonPhraseLookupError>)
        ensures
            is_reply(self@, raw@, reply_text(out)),
    {
        match parse_request(raw) {
            None => {
                let res = bad_request();
                let out = serialize_response(&res);
                proof {
                    lemma_bad_request_text();
                }
                out
            },
            Some(req) => {
                let ghost asked = req;
                let res = self.dispatch(req);
                let out = serialize_response(&res);
                proof {
                    match first_match(self@, asked@.path) {
                        Some(i) => {
                            assert(call_ensures(self@[i].1, (asked,), res));
                        },
                        None => {
                            lemma_not_found_text();
                        },
                    }
                }
                out
            },
        }
    }

    /// Makes the reply to the bytes received on a connection: reads them
    /// as text, with U+FFFD for what is no UTF-8, makes the reply to that
    /// text as [`App::respond`] does, and encodes it. Bytes that are UTF-8
    /// throughout are read as the text that they encode.
    pub fn respond_bytes(&self, raw: &[u8]) -> (out: Result<Vec<u8>, ReasonPhraseLookupError>)
        ensures
            exists|text: Reply| #[trigger]
                is_reply(self@, utf8_lossy(raw@), text) && is_encoded(text, out),
            reads_utf8_as_it_is(raw@),
    {
        let text = text_from_bytes(raw);
        match self.respond(text.as_str()) {
            Ok(reply) => {
                let bytes = reply.as_str().as_bytes_vec();
                proof {
                    assert(is_reply(self@, utf8_lossy(raw@), Ok(reply@)));
                }
                Ok(bytes)
            },
            Err(e) => {
                proof {
                    assert(is_reply(self@, utf8_lossy(raw@), Err(e)));
                }
                Err(e)
            },
        }
    }
}

} // verus!
