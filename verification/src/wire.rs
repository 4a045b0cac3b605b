//! The text that goes over the wire: header lines, requests written back
//! out, and responses.

use crate::error::ReasonPhraseLookupError;
use crate::grammar::{crlf, header_separator, version_marker};
use crate::message::{HeadersView, RequestView, ResponseView};
use crate::status::{reason_of, status_digits};
use crate::text::CharClass;
use vstd::prelude::*;

verus! {

/// A header value without the double quote that may enclose it on either
/// side: one at the very start and one at the very end are dropped, and all
/// that lies between stays as it is.
pub open spec fn strip_quotes(value: Seq<char>) -> Seq<char> {
    let from: int = if value.len() > 0 && value[0] == '"' {
        1
    } else {
        0
    };
    let to: int = if value.len() > from && value.last() == '"' {
        value.len() - 1
    } else {
        value.len() as int
    };
    value.subrange(from, to)
}

/// Whether `value` has a double quote at its start or at its end.
pub open spec fn is_quoted(value: Seq<char>) -> bool {
    value.len() > 0 && (value[0] == '"' || value.last() == '"')
}

/// The value of the first header named exactly `name` at or after index
/// `from`, if there is one.
pub open spec fn header_value_from(headers: HeadersView, name: Seq<char>, from: int) -> Option<
    Seq<char>,
>
    decreases headers.len() - from,
{
    if from < 0 || from >= headers.len() {
        None
    } else if headers[from].0 == name {
        Some(headers[from].1)
    } else {
        header_value_from(headers, name, from + 1)
    }
}

/// The value of the first header named exactly `name`, if there is one.
pub open spec fn header_value(headers: HeadersView, name: Seq<char>) -> Option<Seq<char>> {
    header_value_from(headers, name, 0)
}

/// One header as a line of text: the name, `: `, the value without
/// enclosing quotes, and the end of the line.
pub open spec fn header_line(header: (Seq<char>, Seq<char>)) -> Seq<char> {
    header.0 + header_separator() + strip_quotes(header.1) + crlf()
}

/// The lines of all headers, in their order.
pub open spec fn header_lines(headers: HeadersView) -> Seq<char>
    decreases headers.len(),
{
    if headers.len() == 0 {
        Seq::empty()
    } else {
        header_lines(headers.drop_last()) + header_line(headers.last())
    }
}

/// The headers with every value as it is written out: without enclosing
/// quotes.
pub open spec fn unquoted(headers: HeadersView) -> HeadersView {
    Seq::new(headers.len(), |k: int| (headers[k].0, strip_quotes(headers[k].1)))
}

/// Whether no value of `headers` would be left empty by taking its
/// enclosing quotes away.
pub open spec fn keep_their_values(headers: HeadersView) -> bool {
    forall|k: int| 0 <= k < headers.len() ==> strip_quotes(#[trigger] headers[k].1).len() > 0
}

/// Whether no value of `headers` has a quote at its start or its end.
pub open spec fn none_quoted(headers: HeadersView) -> bool {
    forall|k: int| 0 <= k < headers.len() ==> !is_quoted(#[trigger] headers[k].1)
}

/// A request target put together again from its path and its query.
pub open spec fn target_text(path: Seq<char>, query: Option<Seq<char>>) -> Seq<char> {
    match query {
        Some(q) => path + seq!['?'] + q,
        None => path,
    }
}

/// The request line of a request as it is written out: the method, the
/// target and the version `HTTP/1.1`.
pub open spec fn request_line_text(request: RequestView) -> Seq<char> {
    request.method + seq![' '] + target_text(request.path, request.query) + version_marker()
        + seq!['1'] + crlf()
}

/// A request as text: the request line, the header lines, a blank line and
/// the body.
pub open spec fn request_text(request: RequestView) -> Seq<char> {
    request_line_text(request) + header_lines(request.headers) + crlf() + request.body
}

/// The version that every status line starts with, and the space behind it.
pub open spec fn status_line_start() -> Seq<char> {
    seq!['H', 'T', 'T', 'P', '/', '1', '.', '1', ' ']
}

/// A response as text, given the reason phrase of its status: the status
/// line, the header lines, a blank line and the body.
pub open spec fn response_text_with(response: ResponseView, reason: Seq<char>) -> Seq<char> {
    status_line_start() + status_digits(response.status) + seq![' '] + reason + crlf()
        + header_lines(response.headers) + crlf() + response.body
}

/// What writing a response out gives: its text with the reason phrase of
/// its status, or the error for a status that has none.
pub open spec fn written(response: ResponseView) -> Result<Seq<char>, ReasonPhraseLookupError> {
    match reason_of(response.status) {
        Some(reason) => Ok(response_text_with(response, reason)),
        None => Err(ReasonPhraseLookupError { status: response.status }),
    }
}

/// A reply as contracts see it: the characters of its text.
pub open spec fn reply_text(out: Result<String, ReasonPhraseLookupError>) -> Result<
    Seq<char>,
    ReasonPhraseLookupError,
> {
    match out {
        Ok(text) => Ok(text@),
        Err(e) => Err(e),
    }
}

/// Taking the enclosing quotes of a value away leaves characters of the
/// value, in their order: none is added and none between them is lost. A
/// value without such quotes stays as it is.
pub proof fn lemma_strip_quotes_keeps_interior(value: Seq<char>)
    ensures
        exists|from: int, to: int|
            0 <= from <= 1 && value.len() - 1 <= to <= value.len() && from <= to
                && #[trigger] value.subrange(from, to) == strip_quotes(value),
        !is_quoted(value) ==> strip_quotes(value) == value,
        CharClass::HeaderValue.has_all(value) ==> CharClass::HeaderValue.has_all(
            strip_quotes(value),
        ),
{
    let from: int = if value.len() > 0 && value[0] == '"' {
        1
    } else {
        0
    };
    let to: int = if value.len() > from && value.last() == '"' {
        value.len() - 1
    } else {
        value.len() as int
    };
    assert(value.subrange(from, to) == strip_quotes(value));
    if !is_quoted(value) {
        assert(value.subrange(0, value.len() as int) =~= value);
    }
}

/// A value between one pair of quotes comes back as it was when the quotes
/// are taken away, whatever it holds.
pub proof fn lemma_strip_quotes_undoes_quoting(value: Seq<char>)
    ensures
        strip_quotes(seq!['"'] + value + seq!['"']) == value,
{
    let quoted = seq!['"'] + value + seq!['"'];
    assert(quoted.subrange(1, quoted.len() - 1) =~= value);
}

/// A value without a quote at its start or its end is extracted as it is
/// and written as it is: what a handler reads of a header and what goes out
/// when the header is written again are the same text, with nothing added
/// and nothing taken away.
pub proof fn lemma_plain_value_is_kept(name: Seq<char>, value: Seq<char>)
    requires
        !is_quoted(value),
    ensures
        strip_quotes(value) == value,
        header_line((name, value)) == name + header_separator() + value + crlf(),
{
    lemma_strip_quotes_keeps_interior(value);
}

/// The value that is found for a name is that of a header of this name
/// with no header of the name before it. None is found only if no header
/// has the name.
pub proof fn lemma_header_value_is_first(headers: HeadersView, name: Seq<char>, from: int)
    requires
        0 <= from,
    ensures
        match header_value_from(headers, name, from) {
            Some(value) => exists|i: int|
                from <= i < headers.len() && #[trigger] headers[i] == (name, value) && forall|
                    j: int,
                | from <= j < i ==> (#[trigger] headers[j]).0 != name,
            None => forall|j: int| from <= j < headers.len() ==> (#[trigger] headers[j]).0 != name,
        },
    decreases headers.len() - from,
{
    if from < headers.len() {
        if headers[from].0 == name {
            assert(headers[from] == (name, headers[from].1));
        } else {
            lemma_header_value_is_first(headers, name, from + 1);
            match header_value_from(headers, name, from + 1) {
                Some(value) => {
                    let i = choose|i: int|
                        from + 1 <= i < headers.len() && #[trigger] headers[i] == (name, value)
                            && forall|j: int|
                            from + 1 <= j < i ==> (#[trigger] headers[j]).0 != name;
                    assert(forall|j: int| from <= j < i ==> (#[trigger] headers[j]).0 != name);
                },
                None => {},
            }
        }
    }
}

} // verus!
