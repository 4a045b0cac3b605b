//! The answers that the library gives by itself, where no handler of the
//! application is asked.

use crate::message::{Request, Response, ResponseView};
use vstd::prelude::*;

verus! {

/// The answer to a request that no route matches: status 404, no headers
/// and an empty body.
pub open spec fn not_found_response() -> ResponseView {
    ResponseView { status: 404, headers: Seq::empty(), body: Seq::empty() }
}

/// The answer to a text that is no request: status 400, no headers and an
/// empty body.
pub open spec fn bad_request_response() -> ResponseView {
    ResponseView { status: 400, headers: Seq::empty(), body: Seq::empty() }
}

/// Catch-all handler that answers `404 Not Found` when no path matches.
pub fn not_found(_req: Request) -> (res: Response)
    ensures
        res@ == not_found_response(),
{
    Response::new(404, String::new())
}

/// The answer `400 Bad Request` to what could not be parsed.
pub fn bad_request() -> (res: Response)
    ensures
        res@ == bad_request_response(),
{
    Response::new(400, String::new())
}

} // verus!
