//! The request grammar, as a function from the received text to what a
//! parse yields.
//!
//! ```text
//! METHOD SP TARGET SP "HTTP/1." DIGIT CRLF
//! ( NAME ": " VALUE CRLF )*
//! [ CRLF BODY ]
//! ```
//!
//! The request line may be preceded by other characters: the first place
//! at which one can be read is where the request starts. Once it is found,
//! every line up to the blank one has to be a header line, and a text
//! without a request line, or with a line among the headers that is none,
//! has no parse.

use crate::message::{HeadersView, RequestView};
use crate::text::{has_at, is_digit, run_end, CharClass};
use vstd::prelude::*;

verus! {

/// The end of a line: CR, then LF.
pub open spec fn crlf() -> Seq<char> {
    seq!['\r', '\n']
}

/// What stands between a header's name and its value.
pub open spec fn header_separator() -> Seq<char> {
    seq![':', ' ']
}

/// What follows the target in a request line, up to the version digit.
pub open spec fn version_marker() -> Seq<char> {
    seq![' ', 'H', 'T', 'T', 'P', '/', '1', '.']
}

/// Where the method of a request line that starts at `i` ends.
pub open spec fn method_end(s: Seq<char>, i: int) -> int {
    run_end(s, CharClass::Upper, i)
}

/// Where the target of a request line that starts at `i` ends.
pub open spec fn target_end(s: Seq<char>, i: int) -> int {
    run_end(s, CharClass::NonSpace, method_end(s, i) + 1)
}

/// The index after a request line that starts at `i`.
pub open spec fn request_line_end(s: Seq<char>, i: int) -> int {
    target_end(s, i) + 11
}

/// Whether a request line starts at index `i` of `s`: one or more upper
/// case letters, a space, one or more characters that are no space, then
/// ` HTTP/1.`, a digit and the end of the line.
pub open spec fn request_line_at(s: Seq<char>, i: int) -> bool {
    let m = method_end(s, i);
    let t = target_end(s, i);
    &&& 0 <= i < m < s.len()
    &&& s[m] == ' '
    &&& m + 1 < t
    &&& has_at(s, t, version_marker())
    &&& t + 8 < s.len()
    &&& is_digit(s[t + 8])
    &&& has_at(s, t + 9, crlf())
}

/// The first index at or after `from` at which a request line starts.
pub open spec fn find_request_line(s: Seq<char>, from: int) -> Option<int>
    decreases s.len() - from,
{
    if from < 0 || from >= s.len() {
        None
    } else if request_line_at(s, from) {
        Some(from)
    } else {
        find_request_line(s, from + 1)
    }
}

/// The path of a request target: what stands before its first `?`.
pub open spec fn target_path(target: Seq<char>) -> Seq<char> {
    target.subrange(0, run_end(target, CharClass::NonQuery, 0))
}

/// The query of a request target: what stands behind its first `?`, and
/// `None` where it holds no `?`.
pub open spec fn target_query(target: Seq<char>) -> Option<Seq<char>> {
    let q = run_end(target, CharClass::NonQuery, 0);
    if 0 <= q < target.len() {
        Some(target.subrange(q + 1, target.len() as int))
    } else {
        None
    }
}

/// Where the name of a header line that starts at `p` ends.
pub open spec fn header_name_end(s: Seq<char>, p: int) -> int {
    run_end(s, CharClass::HeaderName, p)
}

/// Where the value of a header line that starts at `p` ends.
pub open spec fn header_value_end(s: Seq<char>, p: int) -> int {
    run_end(s, CharClass::HeaderValue, header_name_end(s, p) + 2)
}

/// Whether a header line starts at index `p` of `s`: one or more letters
/// or `-`, then `: `, one or more characters other than CR and LF, and the
/// end of the line.
pub open spec fn header_line_at(s: Seq<char>, p: int) -> bool {
    let n = header_name_end(s, p);
    let v = header_value_end(s, p);
    &&& 0 <= p < n
    &&& has_at(s, n, header_separator())
    &&& n + 2 < v
    &&& has_at(s, v, crlf())
}

/// The name and the value of the header line that starts at `p`.
pub open spec fn header_at(s: Seq<char>, p: int) -> (Seq<char>, Seq<char>) {
    (
        s.subrange(p, header_name_end(s, p)),
        s.subrange(header_name_end(s, p) + 2, header_value_end(s, p)),
    )
}

/// Puts `first` in front of the headers of a parsed rest.
pub open spec fn with_headers_before(
    first: HeadersView,
    rest: Option<(HeadersView, Seq<char>)>,
) -> Option<(HeadersView, Seq<char>)> {
    match rest {
        Some((headers, body)) => Some((first + headers, body)),
        None => None,
    }
}

/// The headers and the body that stand in `s` from index `p` on. Where the
/// text ends, there are no more headers and no body. A blank line ends the
/// headers, and all that follows it is the body. Any other line has to be a
/// header line.
pub open spec fn headers_and_body_at(s: Seq<char>, p: int) -> Option<(HeadersView, Seq<char>)>
    decreases s.len() - p,
{
    if p < 0 || p >= s.len() {
        Some((Seq::empty(), Seq::empty()))
    } else if has_at(s, p, crlf()) {
        Some((Seq::empty(), s.subrange(p + 2, s.len() as int)))
    } else if header_line_at(s, p) {
        with_headers_before(
            seq![header_at(s, p)],
            headers_and_body_at(s, header_value_end(s, p) + 2),
        )
    } else {
        None
    }
}

/// Whether `header` is a name and a value as a header line holds them: a
/// name of one or more letters or `-`, and a value of one or more
/// characters other than CR and LF.
pub open spec fn is_header(header: (Seq<char>, Seq<char>)) -> bool {
    &&& header.0.len() > 0
    &&& CharClass::HeaderName.has_all(header.0)
    &&& header.1.len() > 0
    &&& CharClass::HeaderValue.has_all(header.1)
}

/// Whether every pair of `headers` is a header.
pub open spec fn are_headers(headers: HeadersView) -> bool {
    forall|k: int| 0 <= k < headers.len() ==> is_header(#[trigger] headers[k])
}

/// Whether `request` is one that a parse can yield: the method is one or
/// more upper case letters, the path holds no space and no `?`, the query
/// holds no space, a request without a query has a path, and every header
/// is one.
pub open spec fn is_well_formed(request: RequestView) -> bool {
    &&& request.method.len() > 0
    &&& CharClass::Upper.has_all(request.method)
    &&& CharClass::NonSpace.has_all(request.path)
    &&& CharClass::NonQuery.has_all(request.path)
    &&& match request.query {
        Some(query) => CharClass::NonSpace.has_all(query),
        None => request.path.len() > 0,
    }
    &&& are_headers(request.headers)
}

/// What the request line that starts at `i`, and the lines behind it, make.
pub open spec fn request_at(s: Seq<char>, i: int) -> Option<RequestView> {
    let target = s.subrange(method_end(s, i) + 1, target_end(s, i));
    match headers_and_body_at(s, request_line_end(s, i)) {
        Some((headers, body)) => Some(
            RequestView {
                method: s.subrange(i, method_end(s, i)),
                path: target_path(target),
                query: target_query(target),
                headers,
                body,
            },
        ),
        None => None,
    }
}

/// What parsing the received text `s` yields: the request that starts at
/// the first request line in it, or `None` where `s` holds no request line
/// or what follows the line is malformed.
pub open spec fn parsed(s: Seq<char>) -> Option<RequestView> {
    match find_request_line(s, 0) {
        Some(i) => request_at(s, i),
        None => None,
    }
}

} // verus!
