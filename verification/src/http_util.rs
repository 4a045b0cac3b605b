//! Operations on requests: parsing the received text, reading headers and
//! the query, and writing a request back out.

use crate::grammar::{
    crlf, find_request_line, header_at, header_line_at, header_name_end, header_separator,
    header_value_end, headers_and_body_at, is_well_formed, method_end, parsed, request_line_at,
    target_end, target_path, target_query, version_marker, with_headers_before,
};
use crate::error::{HeaderMissingError, ReasonPhraseLookupError};
use crate::message::{Request, Response};
use crate::round_trip::lemma_parsed_is_well_formed;
use crate::status::{push_status_digits, reason_of, reason_phrase};
use crate::text::{chars_of, found_at, run_end, scan_run, text_between, CharClass};
use crate::wire::{
    header_line, header_lines, header_value, header_value_from, reply_text, request_text,
    response_text_with, status_line_start, strip_quotes, written,
};
use vstd::prelude::*;
use vstd::string::StringExecFns;

verus! {

/// The characters of the end of a line.
fn crlf_chars() -> (lit: Vec<char>)
    ensures
        lit@ == crlf(),
{
    vec!['\r', '\n']
}

/// The characters between a header's name and its value.
fn header_separator_chars() -> (lit: Vec<char>)
    ensures
        lit@ == header_separator(),
{
    vec![':', ' ']
}

/// The characters between the target and the version digit.
fn version_marker_chars() -> (lit: Vec<char>)
    ensures
        lit@ == version_marker(),
{
    vec![' ', 'H', 'T', 'T', 'P', '/', '1', '.']
}

/// Reads the request line that starts at `i`, if one does, and gives the
/// ends of its method and of its target.
fn read_request_line(v: &Vec<char>, i: usize) -> (r: Option<(usize, usize)>)
    requires
        i < v.len(),
    ensures
        match r {
            Some((m, t)) => request_line_at(v@, i as int) && m == method_end(v@, i as int) && t
                == target_end(v@, i as int) && t + 11 <= v.len(),
            None => !request_line_at(v@, i as int),
        },
{
    let m = scan_run(v, CharClass::Upper, i);
    if m == i || m >= v.len() || v[m] != ' ' {
        return None;
    }
    let t = scan_run(v, CharClass::NonSpace, m + 1);
    if t == m + 1 || !found_at(v, t, &version_marker_chars()) {
        return None;
    }
    if t + 8 >= v.len() || !('0' <= v[t + 8] && v[t + 8] <= '9') {
        return None;
    }
    if !found_at(v, t + 9, &crlf_chars()) {
        return None;
    }
    Some((m, t))
}

/// Splits the target that `v` holds from `from` up to `to` into its path
/// and its query.
fn split_target(v: &Vec<char>, from: usize, to: usize) -> (r: (String, Option<String>))
    requires
        from <= to <= v.len(),
    ensures
        r.0@ == target_path(v@.subrange(from as int, to as int)),
        r.1.deep_view() == target_query(v@.subrange(from as int, to as int)),
{
    let ghost target = v@.subrange(from as int, to as int);
    let mut q: usize = from;
    while q < to && v[q] != '?'
        invariant
            from <= q <= to <= v.len(),
            target == v@.subrange(from as int, to as int),
            run_end(target, CharClass::NonQuery, 0) == run_end(
                target,
                CharClass::NonQuery,
                q - from,
            ),
        decreases to - q,
    {
        q = q + 1;
    }
    let path = text_between(v, from, q);
    proof {
        assert(target.subrange(0, q - from) =~= v@.subrange(from as int, q as int));
    }
    if q < to {
        let query = text_between(v, q + 1, to);
        proof {
            assert(target.subrange(q - from + 1, target.len() as int) =~= v@.subrange(
                q + 1,
                to as int,
            ));
        }
        (path, Some(query))
    } else {
        (path, None)
    }
}

/// Reads the header line that starts at `p`, if one does, and gives the
/// ends of its name and of its value.
fn read_header_line(v: &Vec<char>, p: usize) -> (r: Option<(usize, usize)>)
    requires
        p < v.len(),
    ensures
        match r {
            Some((n, e)) => header_line_at(v@, p as int) && n == header_name_end(v@, p as int)
                && e == header_value_end(v@, p as int) && p < n && n + 2 < e && e + 2 <= v.len(),
            None => !header_line_at(v@, p as int),
        },
{
    let n = scan_run(v, CharClass::HeaderName, p);
    if n == p || !found_at(v, n, &header_separator_chars()) {
        return None;
    }
    let e = scan_run(v, CharClass::HeaderValue, n + 2);
    if e == n + 2 || !found_at(v, e, &crlf_chars()) {
        return None;
    }
    Some((n, e))
}

/// Reads the headers and the body that stand in `v` from `start` on.
fn read_headers_and_body(v: &Vec<char>, start: usize) -> (r: Option<
    (Vec<(String, String)>, String),
>)
    requires
        start <= v.len(),
    ensures
        r.deep_view() == headers_and_body_at(v@, start as int),
{
    let mut headers: Vec<(String, String)> = Vec::new();
    let mut p: usize = start;
    loop
        invariant
            start <= p <= v.len(),
            headers_and_body_at(v@, start as int) == with_headers_before(
                headers.deep_view(),
                headers_and_body_at(v@, p as int),
            ),
        decreases v.len() - p,
    {
        if p >= v.len() {
            proof {
                assert(headers.deep_view() + Seq::empty() =~= headers.deep_view());
            }
            return Some((headers, String::new()));
        }
        if found_at(v, p, &crlf_chars()) {
            let body = text_between(v, p + 2, v.len());
            proof {
                assert(headers.deep_view() + Seq::empty() =~= headers.deep_view());
            }
            return Some((headers, body));
        }
        match read_header_line(v, p) {
            None => {
                return None;
            },
            Some((n, e)) => {
                let name = text_between(v, p, n);
                let value = text_between(v, n + 2, e);
                let ghost before = headers.deep_view();
                headers.push((name, value));
                proof {
                    let line = header_at(v@, p as int);
                    assert(headers.deep_view() =~= before + seq![line]);
                    let rest = headers_and_body_at(v@, e + 2);
                    match rest {
                        Some((more, body)) => {
                            assert(before + (seq![line] + more) =~= (before + seq![line]) + more);
                        },
                        None => {},
                    }
                }
                p = e + 2;
            },
        }
    }
}

/// Takes a raw HTTP request and creates a [`Request`] with the relevant
/// fields: the one that [`parsed`] describes, or `None` where the text has
/// no parse.
pub fn parse_request(req_str: &str) -> (r: Option<Request>)
    ensures
        r.deep_view() == parsed(req_str@),
        r matches Some(request) ==> is_well_formed(request@),
{
    let v = chars_of(req_str);
    let mut i: usize = 0;
    while i < v.len()
        invariant
            i <= v.len(),
            v@ == req_str@,
            find_request_line(v@, 0) == find_request_line(v@, i as int),
        decreases v.len() - i,
    {
        match read_request_line(&v, i) {
            Some((m, t)) => {
                let method = text_between(&v, i, m);
                let (path, query) = split_target(&v, m + 1, t);
                proof {
                    lemma_parsed_is_well_formed(req_str@);
                }
                return match read_headers_and_body(&v, t + 11) {
                    Some((headers, body)) => Some(Request { method, path, query, headers, body }),
                    None => None,
                };
            },
            None => {
                i = i + 1;
            },
        }
    }
    None
}

/// Extracts the text of a header value: the value without the double quote
/// that may stand at its start and the one that may stand at its end.
pub fn parse_header(header: &str) -> (text: String)
    ensures
        text@ == strip_quotes(header@),
{
    let v = chars_of(header);
    let from: usize = if v.len() > 0 && v[0] == '"' {
        1
    } else {
        0
    };
    let to: usize = if v.len() > from && v[v.len() - 1] == '"' {
        v.len() - 1
    } else {
        v.len()
    };
    text_between(&v, from, to)
}

/// Extracts the value of the header named `header` from a request: the
/// first one of exactly that name, without enclosing quotes. A request that
/// has no such header gives the error.
pub fn extract_header(src: Request, header: &str) -> (value: Result<String, HeaderMissingError>)
    ensures
        match value {
            Ok(text) => header_value(src@.headers, header@) matches Some(found) && text@
                == strip_quotes(found),
            Err(e) => header_value(src@.headers, header@) is None && e.name@ == header@,
        },
{
    let name = String::from_str(header);
    let mut i: usize = 0;
    while i < src.headers.len()
        invariant
            i <= src.headers.len(),
            name@ == header@,
            header_value(src@.headers, header@) == header_value_from(
                src@.headers,
                header@,
                i as int,
            ),
        decreases src.headers.len() - i,
    {
        if src.headers[i].0 == name {
            return Ok(parse_header(src.headers[i].1.as_str()));
        }
        i = i + 1;
    }
    Err(HeaderMissingError { name })
}

/// What `percent_encoding::percent_decode_str`, followed by
/// `decode_utf8_lossy` on its result, makes of a text: every `%` with two
/// hexadecimal digits behind it becomes the byte they spell, and the bytes
/// are then read as UTF-8, with U+FFFD in place of what is none.
pub uninterp spec fn percent_decoded(input: Seq<char>) -> Seq<char>;

/// Calls `percent_encoding::percent_decode_str` on `input` and
/// `PercentDecode::decode_utf8_lossy` on what it returns. The two take no
/// other input and do not fail; the text they give is named
/// [`percent_decoded`].
#[verifier::external_body]
fn percent_decode_lossy(input: &str) -> (decoded: String)
    ensures
        decoded@ == percent_decoded(input@),
{
    percent_encoding::percent_decode_str(input).decode_utf8_lossy().into_owned()
}

/// The decoded query of a request whose raw query is `query`.
pub open spec fn decoded_query(query: Option<Seq<char>>) -> Option<Seq<char>> {
    match query {
        Some(raw) => Some(percent_decoded(raw)),
        None => None,
    }
}

/// Removes the percent-encoding from the query of a request. A request
/// without a query gives `None`, which is not the empty text that an empty
/// query gives.
pub fn parse_query(req: Request) -> (query: Option<String>)
    ensures
        query.deep_view() == decoded_query(req@.query),
{
    match req.query {
        Some(raw) => Some(percent_decode_lossy(raw.as_str())),
        None => None,
    }
}

/// Appends the lines of `headers` to `out`.
fn push_header_lines(out: &mut String, headers: &Vec<(String, String)>)
    ensures
        final(out)@ == old(out)@ + header_lines(headers.deep_view()),
{
    let ghost all = headers.deep_view();
    let mut i: usize = 0;
    while i < headers.len()
        invariant
            i <= headers.len(),
            all == headers.deep_view(),
            out@ == old(out)@ + header_lines(all.take(i as int)),
        decreases headers.len() - i,
    {
        let ghost before = out@;
        out.append(headers[i].0.as_str());
        out.append(": ");
        let value = parse_header(headers[i].1.as_str());
        out.append(value.as_str());
        out.append("\r\n");
        proof {
            reveal_strlit(": ");
            reveal_strlit("\r\n");
            assert(": "@ =~= header_separator());
            assert("\r\n"@ =~= crlf());
            assert(all.take(i + 1).drop_last() =~= all.take(i as int));
            assert(all.take(i + 1).last() == all[i as int]);
            assert(out@ =~= before + header_line(all[i as int]));
        }
        i = i + 1;
    }
    proof {
        assert(all.take(i as int) =~= all);
    }
}

/// Writes a request back out as text: its request line, its headers in
/// their order and with their values as [`extract_header`] gives them, a
/// blank line and its body.
pub fn construct_request(req: Request) -> (text: String)
    ensures
        text@ == request_text(req@),
{
    let mut text = String::new();
    text.append(req.method.as_str());
    text.push(' ');
    text.append(req.path.as_str());
    match &req.query {
        Some(q) => {
            text.push('?');
            text.append(q.as_str());
        },
        None => {},
    }
    text.append(" HTTP/1.1\r\n");
    push_header_lines(&mut text, &req.headers);
    text.append("\r\n");
    text.append(req.body.as_str());
    proof {
        reveal_strlit(" HTTP/1.1\r\n");
        reveal_strlit("\r\n");
        assert(" HTTP/1.1\r\n"@ =~= version_marker() + seq!['1'] + crlf());
        assert("\r\n"@ =~= crlf());
        assert(text@ =~= request_text(req@));
    }
    text
}

/// Writes a response out as text: the status line with the canonical reason
/// phrase of its status, its headers in the order they were added and with
/// their values as [`extract_header`] gives them, a blank line and its
/// body. A status without a reason phrase gives the error.
pub fn serialize_response(res: &Response) -> (text: Result<String, ReasonPhraseLookupError>)
    ensures
        reply_text(text) == written(res@),
        res.status == 400 ==> reason_of(res.status) == Some("Bad Request"@),
        res.status == 404 ==> reason_of(res.status) == Some("Not Found"@),
{
    match reason_phrase(res.status) {
        None => Err(ReasonPhraseLookupError { status: res.status }),
        Some(reason) => {
            let mut text = String::from_str("HTTP/1.1 ");
            push_status_digits(&mut text, res.status);
            text.push(' ');
            text.append(reason);
            text.append("\r\n");
            push_header_lines(&mut text, &res.headers);
            text.append("\r\n");
            text.append(res.body.as_str());
            proof {
                reveal_strlit("HTTP/1.1 ");
                reveal_strlit("\r\n");
                assert("HTTP/1.1 "@ =~= status_line_start());
                assert("\r\n"@ =~= crlf());
                assert(text@ =~= response_text_with(res@, reason@));
            }
            Ok(text)
        },
    }
}

} // verus!

