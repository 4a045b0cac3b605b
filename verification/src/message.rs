//! The structured request and response that handlers work with, and the
//! mathematical values that the contracts speak of.

use crate::status::{reason_of, reason_phrase};
use vstd::prelude::*;
use vstd::string::StringExecFns;

verus! {

/// A list of headers as contracts see it: `(name, value)` pairs in order.
pub type HeadersView = Seq<(Seq<char>, Seq<char>)>;

/// What a [`Request`] holds, as plain sequences of characters.
#[verifier::ext_equal]
pub struct RequestView {
    pub method: Seq<char>,
    pub path: Seq<char>,
    pub query: Option<Seq<char>>,
    pub headers: HeadersView,
    pub body: Seq<char>,
}

/// What a [`Response`] holds, as plain values.
#[verifier::ext_equal]
pub struct ResponseView {
    pub status: u16,
    pub headers: HeadersView,
    pub body: Seq<char>,
}

/// One parsed HTTP request.
#[derive(Clone, Debug, PartialEq, Eq)]
pub struct Request {
    /// The method token, such as `GET`.
    pub method: String,
    /// The path of the request target, percent-encoding left as it came.
    pub path: String,
    /// The raw query string of the target, if it has one.
    pub query: Option<String>,
    /// The headers in the order received, names as captured.
    pub headers: Vec<(String, String)>,
    /// All that follows the blank line; empty if nothing does.
    pub body: String,
}

/// What a handler answers with.
#[derive(Clone, Debug, PartialEq, Eq)]
pub struct Response {
    /// The numeric status code.
    pub status: u16,
    /// The headers in the order they were added.
    pub headers: Vec<(String, String)>,
    /// The body text.
    pub body: String,
}

impl View for Request {
    type V = RequestView;

    open spec fn view(&self) -> RequestView {
        RequestView {
            method: self.method@,
            path: self.path@,
            query: self.query.deep_view(),
            headers: self.headers.deep_view(),
            body: self.body@,
        }
    }
}

impl DeepView for Request {
    type V = RequestView;

    open spec fn deep_view(&self) -> RequestView {
        self@
    }
}

impl View for Response {
    type V = ResponseView;

    open spec fn view(&self) -> ResponseView {
        ResponseView {
            status: self.status,
            headers: self.headers.deep_view(),
            body: self.body@,
        }
    }
}

impl DeepView for Response {
    type V = ResponseView;

    open spec fn deep_view(&self) -> ResponseView {
        self@
    }
}

impl Response {
    /// Makes a response with the status `status`, no headers and the body
    /// `body`.
    pub fn new(status: u16, body: String) -> (res: Response)
        ensures
            res@ == (ResponseView { status, headers: Seq::empty(), body: body@ }),
    {
        let res = Response { status, headers: Vec::new(), body };
        proof {
            assert(res@.headers =~= Seq::empty());
        }
        res
    }

    /// Adds a header behind those that the response has.
    pub fn header(self, name: &str, value: &str) -> (res: Response)
        ensures
            res@ == (ResponseView { headers: self@.headers.push((name@, value@)), ..self@ }),
    {
        let mut headers = self.headers;
        headers.push((String::from_str(name), String::from_str(value)));
        let res = Response { status: self.status, headers, body: self.body };
        proof {
            assert(res@.headers =~= self@.headers.push((name@, value@)));
        }
        res
    }

    /// The canonical reason phrase of the status, if it has one.
    pub fn reason(&self) -> (phrase: Option<&'static str>)
        ensures
            phrase.deep_view() == reason_of(self.status),
    {
        reason_phrase(self.status)
    }
}

} // verus!
