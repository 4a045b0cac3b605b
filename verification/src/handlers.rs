//! Handlers that are ready to be registered: small ones for common needs
//! and for trying a server out.

use crate::default_handlers::{bad_request, bad_request_response};
use crate::http_util::{extract_header, parse_query, percent_decoded};
use crate::message::{Request, Response, ResponseView};
use crate::text::chars_of;
use crate::wire::{header_value, strip_quotes};
use vstd::prelude::*;
use vstd::string::StringExecFns;

verus! {

/// The answer with status 200, no headers and the body `body`.
pub open spec fn ok_response(body: Seq<char>) -> ResponseView {
    ResponseView { status: 200, headers: Seq::empty(), body }
}

/// A text with every `r` and every `l` turned into a `w`.
pub open spec fn uwuified(text: Seq<char>) -> Seq<char> {
    Seq::new(
        text.len(),
        |k: int|
            if text[k] == 'r' || text[k] == 'l' {
                'w'
            } else {
                text[k]
            },
    )
}

/// Makes the answer with status 200, no headers and the body `body`.
pub fn ok(body: String) -> (res: Response)
    ensures
        res@ == ok_response(body@),
{
    Response::new(200, body)
}

/// Answers with the value of the request's `Host` header as the body. A
/// request without that header is answered with `400 Bad Request`.
pub fn echo_handler(req: Request) -> (res: Response)
    ensures
        res@ == match header_value(req@.headers, "Host"@) {
            Some(host) => ok_response(strip_quotes(host)),
            None => bad_request_response(),
        },
{
    match extract_header(req, "Host") {
        Ok(host) => ok(host),
        Err(_) => bad_request(),
    }
}

/// Turns every `r` and every `l` of `text` into a `w`.
pub fn uwuify(text: &str) -> (out: String)
    ensures
        out@ == uwuified(text@),
{
    let v = chars_of(text);
    let mut out = String::new();
    let mut i: usize = 0;
    while i < v.len()
        invariant
            i <= v.len(),
            v@ == text@,
            out@ == uwuified(text@).take(i as int),
        decreases v.len() - i,
    {
        let c = v[i];
        if c == 'r' || c == 'l' {
            out.push('w');
        } else {
            out.push(c);
        }
        proof {
            assert(out@ =~= uwuified(text@).take(i + 1));
        }
        i = i + 1;
    }
    proof {
        assert(uwuified(text@).take(i as int) =~= uwuified(text@));
    }
    out
}

/// Answers with the decoded query of the request, every `r` and `l` of it
/// turned into a `w`, and with an apology where the request has no query.
pub fn uwu_handler(req: Request) -> (res: Response)
    ensures
        res@ == ok_response(
            match req@.query {
                Some(raw) => uwuified(percent_decoded(raw)),
                None => "Couwdn't pawse that input ÒwÓ"@,
            },
        ),
{
    match parse_query(req) {
        Some(text) => ok(uwuify(text.as_str())),
        None => ok(String::from_str("Couwdn't pawse that input ÒwÓ")),
    }
}

/// Answers every request alike, for the end of a route table.
pub fn catchall_handler(_req: Request) -> (res: Response)
    ensures
        res@ == ok_response("Purgatory..."@),
{
    ok(String::from_str("Purgatory..."))
}

/// Answers with the path of the request as the body.
pub fn path_handler(req: Request) -> (res: Response)
    ensures
        res@ == ok_response(req@.path),
{
    ok(req.path)
}

} // verus!
