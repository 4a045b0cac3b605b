//! What parsing and writing out have to do with each other: a request that
//! was parsed is well formed, and a well-formed request that is written out
//! parses to itself.

use crate::grammar::{
    are_headers, crlf, find_request_line, header_at, header_line_at, header_name_end,
    header_separator, header_value_end, headers_and_body_at, is_header, is_well_formed,
    method_end, parsed, request_line_at, request_line_end, target_end, target_path, target_query,
    version_marker,
};
use crate::message::{HeadersView, RequestView};
use crate::text::{
    has_at, lemma_has_at_first, lemma_has_at_split, lemma_has_at_whole, lemma_run_end,
    lemma_run_end_found, CharClass,
};
use crate::wire::{
    header_line, header_lines, keep_their_values, lemma_strip_quotes_keeps_interior, none_quoted,
    request_line_text, request_text, strip_quotes, target_text, unquoted,
};
use vstd::prelude::*;

verus! {

/// The lines of two lists of headers, one after the other, are the lines of
/// the two lists joined.
pub proof fn lemma_header_lines_join(first: HeadersView, second: HeadersView)
    ensures
        header_lines(first + second) == header_lines(first) + header_lines(second),
    decreases second.len(),
{
    if second.len() == 0 {
        assert(first + second =~= first);
        assert(header_lines(first) + header_lines(second) =~= header_lines(first));
    } else {
        lemma_header_lines_join(first, second.drop_last());
        assert((first + second).drop_last() =~= first + second.drop_last());
        assert((first + second).last() == second.last());
        assert(header_lines(first + second) =~= header_lines(first) + header_lines(second));
    }
}

/// The lines of a list of headers start with the line of its first one.
proof fn lemma_header_lines_first(headers: HeadersView)
    requires
        headers.len() > 0,
    ensures
        header_lines(headers) == header_line(headers[0]) + header_lines(headers.drop_first()),
{
    let first = seq![headers[0]];
    assert(first + headers.drop_first() =~= headers);
    lemma_header_lines_join(first, headers.drop_first());
    assert(first.drop_last() =~= Seq::empty());
    assert(header_lines(first.drop_last()) =~= Seq::empty());
    assert(first.last() == headers[0]);
    assert(header_lines(first) =~= header_line(headers[0]));
}

/// What holds of a list of headers holds of the list without its first
/// one.
proof fn lemma_headers_without_first(headers: HeadersView)
    requires
        headers.len() > 0,
        are_headers(headers),
        keep_their_values(headers),
    ensures
        are_headers(headers.drop_first()),
        keep_their_values(headers.drop_first()),
        is_header((headers[0].0, strip_quotes(headers[0].1))),
        unquoted(headers) == seq![(headers[0].0, strip_quotes(headers[0].1))] + unquoted(
            headers.drop_first(),
        ),
{
    let rest = headers.drop_first();
    assert forall|k: int| 0 <= k < rest.len() implies is_header(#[trigger] rest[k]) by {
        assert(rest[k] == headers[k + 1]);
    }
    assert forall|k: int| 0 <= k < rest.len() implies strip_quotes(#[trigger] rest[k].1).len()
        > 0 by {
        assert(rest[k] == headers[k + 1]);
    }
    assert(is_header(headers[0]));
    lemma_strip_quotes_keeps_interior(headers[0].1);
    assert(unquoted(headers) =~= seq![(headers[0].0, strip_quotes(headers[0].1))] + unquoted(
        rest,
    ));
}

/// A header line that is found at `p` is read there.
proof fn lemma_header_line_read_back(s: Seq<char>, p: int, name: Seq<char>, value: Seq<char>)
    requires
        is_header((name, value)),
        has_at(s, p, name + header_separator() + value + crlf()),
    ensures
        p < s.len(),
        !has_at(s, p, crlf()),
        header_line_at(s, p),
        header_at(s, p) == (name, value),
        header_value_end(s, p) + 2 == p + name.len() + value.len() + 4,
{
    let n = p + name.len();
    let e = n + 2 + value.len();
    lemma_has_at_split(s, p, name + header_separator() + value, crlf());
    lemma_has_at_split(s, p, name + header_separator(), value);
    lemma_has_at_split(s, p, name, header_separator());
    lemma_has_at_first(s, p, name);
    lemma_has_at_first(s, n, header_separator());
    lemma_has_at_first(s, e, crlf());
    assert(!has_at(s, p, crlf())) by {
        if has_at(s, p, crlf()) {
            lemma_has_at_first(s, p, crlf());
        }
    }
    lemma_run_end_found(s, CharClass::HeaderName, p, name);
    lemma_run_end_found(s, CharClass::HeaderValue, n + 2, value);
}

/// The headers that were written out at `p`, with the blank line behind
/// them, are read back there, and all behind the blank line is the body.
proof fn lemma_headers_read_back(s: Seq<char>, p: int, headers: HeadersView)
    requires
        are_headers(headers),
        keep_their_values(headers),
        has_at(s, p, header_lines(headers) + crlf()),
    ensures
        headers_and_body_at(s, p) == Some(
            (unquoted(headers), s.subrange(p + header_lines(headers).len() + 2, s.len() as int)),
        ),
    decreases headers.len(),
{
    if headers.len() == 0 {
        assert(header_lines(headers) + crlf() =~= crlf());
        assert(unquoted(headers) =~= HeadersView::empty());
        lemma_has_at_first(s, p, crlf());
    } else {
        let name = headers[0].0;
        let value = strip_quotes(headers[0].1);
        let rest = headers.drop_first();
        let line = name + header_separator() + value + crlf();
        lemma_header_lines_first(headers);
        lemma_headers_without_first(headers);
        assert(header_lines(headers) + crlf() =~= line + (header_lines(rest) + crlf()));
        lemma_has_at_split(s, p, line, header_lines(rest) + crlf());
        lemma_header_line_read_back(s, p, name, value);
        lemma_headers_read_back(s, p + line.len(), rest);
    }
}

/// A target put together from a path without `?` and a query is taken
/// apart again into the two.
proof fn lemma_target_read_back(path: Seq<char>, query: Option<Seq<char>>)
    requires
        CharClass::NonQuery.has_all(path),
    ensures
        target_path(target_text(path, query)) == path,
        target_query(target_text(path, query)) == query,
{
    let target = target_text(path, query);
    lemma_has_at_whole(target);
    match query {
        Some(q) => {
            lemma_has_at_split(target, 0, path + seq!['?'], q);
            lemma_has_at_split(target, 0, path, seq!['?']);
            lemma_has_at_first(target, path.len() as int, seq!['?']);
            lemma_run_end_found(target, CharClass::NonQuery, 0, path);
        },
        None => {
            lemma_run_end_found(target, CharClass::NonQuery, 0, path);
        },
    }
}

/// The target of a well-formed request holds no space and is not empty.
proof fn lemma_target_has_no_space(path: Seq<char>, query: Option<Seq<char>>)
    requires
        CharClass::NonSpace.has_all(path),
        query matches Some(q) ==> CharClass::NonSpace.has_all(q),
        path.len() > 0 || query is Some,
    ensures
        CharClass::NonSpace.has_all(target_text(path, query)),
        target_text(path, query).len() > 0,
{
    let target = target_text(path, query);
    assert forall|k: int| 0 <= k < target.len() implies CharClass::NonSpace.has(
        #[trigger] target[k],
    ) by {
        match query {
            Some(q) => {
                if k < path.len() {
                    assert(target[k] == path[k]);
                } else if k == path.len() {
                    assert(target[k] == '?');
                } else {
                    assert(target[k] == q[k - path.len() - 1]);
                }
            },
            None => {},
        }
    }
}

/// A request line that is found at the start of a text is read there.
proof fn lemma_request_line_read_back(s: Seq<char>, method: Seq<char>, target: Seq<char>)
    requires
        method.len() > 0,
        CharClass::Upper.has_all(method),
        target.len() > 0,
        CharClass::NonSpace.has_all(target),
        has_at(s, 0, method + seq![' '] + target + version_marker() + seq!['1'] + crlf()),
    ensures
        find_request_line(s, 0) == Some(0int),
        s.subrange(0, method_end(s, 0)) == method,
        s.subrange(method_end(s, 0) + 1, target_end(s, 0)) == target,
        request_line_end(s, 0) == method.len() + target.len() + 12,
{
    let m = method.len() as int;
    let t = m + 1 + target.len();
    lemma_has_at_split(s, 0, method + seq![' '] + target + version_marker() + seq!['1'], crlf());
    lemma_has_at_split(s, 0, method + seq![' '] + target + version_marker(), seq!['1']);
    lemma_has_at_split(s, 0, method + seq![' '] + target, version_marker());
    lemma_has_at_split(s, 0, method + seq![' '], target);
    lemma_has_at_split(s, 0, method, seq![' ']);
    lemma_has_at_first(s, m, seq![' ']);
    lemma_has_at_first(s, t, version_marker());
    lemma_has_at_first(s, t + 8, seq!['1']);
    lemma_run_end_found(s, CharClass::Upper, 0, method);
    lemma_run_end_found(s, CharClass::NonSpace, m + 1, target);
    assert(request_line_at(s, 0));
}

/// Where the parts of a request that was written out stand in its text.
proof fn lemma_request_text_layout(request: RequestView)
    ensures
        ({
            let s = request_text(request);
            let line = request_line_text(request);
            let lines = header_lines(request.headers);
            &&& has_at(s, 0, line)
            &&& has_at(s, line.len() as int, lines + crlf())
            &&& s.subrange(line.len() as int + lines.len() + 2, s.len() as int) == request.body
        }),
{
    let s = request_text(request);
    let line = request_line_text(request);
    let lines = header_lines(request.headers);
    lemma_has_at_whole(s);
    lemma_has_at_split(s, 0, line + lines + crlf(), request.body);
    assert(line + lines + crlf() =~= line + (lines + crlf()));
    lemma_has_at_split(s, 0, line, lines + crlf());
}

/// A text in which the parts of a well-formed request stand as they are
/// written out parses to that request.
proof fn lemma_laid_out_request_parses(s: Seq<char>, request: RequestView)
    requires
        is_well_formed(request),
        keep_their_values(request.headers),
        has_at(s, 0, request_line_text(request)),
        has_at(
            s,
            request_line_text(request).len() as int,
            header_lines(request.headers) + crlf(),
        ),
        s.subrange(
            request_line_text(request).len() as int + header_lines(request.headers).len() + 2,
            s.len() as int,
        ) == request.body,
    ensures
        parsed(s) == Some(RequestView { headers: unquoted(request.headers), ..request }),
{
    let target = target_text(request.path, request.query);
    let line = request_line_text(request);
    lemma_target_has_no_space(request.path, request.query);
    lemma_target_read_back(request.path, request.query);
    lemma_request_line_read_back(s, request.method, target);
    lemma_headers_read_back(s, line.len() as int, request.headers);
}

/// A well-formed request that is written out parses to itself, with each
/// header value as it was written: without enclosing quotes. The values
/// that the quotes are all of are left out, as a header line needs a value.
pub proof fn lemma_written_request_parses(request: RequestView)
    requires
        is_well_formed(request),
        keep_their_values(request.headers),
    ensures
        parsed(request_text(request)) == Some(
            RequestView { headers: unquoted(request.headers), ..request },
        ),
{
    lemma_request_text_layout(request);
    lemma_laid_out_request_parses(request_text(request), request);
}

/// The headers that are read from a text are headers.
proof fn lemma_headers_read_are_headers(s: Seq<char>, p: int)
    requires
        0 <= p <= s.len(),
    ensures
        headers_and_body_at(s, p) matches Some((headers, _)) ==> are_headers(headers),
    decreases s.len() - p,
{
    if p < s.len() && !has_at(s, p, crlf()) && header_line_at(s, p) {
        let n = header_name_end(s, p);
        let e = header_value_end(s, p);
        lemma_run_end(s, CharClass::HeaderName, p);
        lemma_run_end(s, CharClass::HeaderValue, n + 2);
        lemma_headers_read_are_headers(s, e + 2);
        let first = header_at(s, p);
        assert(is_header(first));
        match headers_and_body_at(s, e + 2) {
            Some((more, _)) => {
                let headers = seq![first] + more;
                assert forall|k: int| 0 <= k < headers.len() implies is_header(
                    #[trigger] headers[k],
                ) by {
                    if k > 0 {
                        assert(headers[k] == more[k - 1]);
                    }
                }
            },
            None => {},
        }
    }
}

/// Where a request line is found, there is one, and none before it.
pub proof fn lemma_found_line_is_first(s: Seq<char>, from: int)
    requires
        0 <= from,
    ensures
        match find_request_line(s, from) {
            Some(i) => from <= i < s.len() && request_line_at(s, i) && forall|j: int|
                from <= j < i ==> !request_line_at(s, j),
            None => forall|j: int| from <= j < s.len() ==> !request_line_at(s, j),
        },
    decreases s.len() - from,
{
    if from < s.len() && !request_line_at(s, from) {
        lemma_found_line_is_first(s, from + 1);
    }
}

/// What a parse yields is well formed.
pub proof fn lemma_parsed_is_well_formed(s: Seq<char>)
    ensures
        parsed(s) matches Some(request) ==> is_well_formed(request),
{
    lemma_found_line_is_first(s, 0);
    match find_request_line(s, 0) {
        Some(i) => {
            let m = method_end(s, i);
            let t = target_end(s, i);
            lemma_run_end(s, CharClass::Upper, i);
            lemma_run_end(s, CharClass::NonSpace, m + 1);
            let target = s.subrange(m + 1, t);
            lemma_run_end(target, CharClass::NonQuery, 0);
            lemma_headers_read_are_headers(s, t + 11);
        },
        None => {},
    }
}

/// Parsing a request and writing it out again gives a text that parses to
/// the same request: the same method, path and query, the same headers in
/// the same order, and the same body. This holds of every request whose
/// header values have no quote at their start or end; the others are
/// written out without those quotes.
pub proof fn lemma_parse_round_trip(raw: Seq<char>)
    requires
        parsed(raw) matches Some(request) && none_quoted(request.headers),
    ensures
        parsed(request_text(parsed(raw).unwrap())) == parsed(raw),
{
    let request = parsed(raw).unwrap();
    lemma_parsed_is_well_formed(raw);
    assert forall|k: int| 0 <= k < request.headers.len() implies strip_quotes(
        #[trigger] request.headers[k].1,
    ) == request.headers[k].1 by {
        lemma_strip_quotes_keeps_interior(request.headers[k].1);
    }
    assert(keep_their_values(request.headers)) by {
        assert forall|k: int| 0 <= k < request.headers.len() implies strip_quotes(
            #[trigger] request.headers[k].1,
        ).len() > 0 by {
            assert(is_header(request.headers[k]));
        }
    }
    assert(unquoted(request.headers) =~= request.headers);
    lemma_written_request_parses(request);
}

} // verus!
