//! Status codes: their digits and their canonical reason phrases.

use vstd::prelude::*;

verus! {

/// What `http::StatusCode::canonical_reason` returns for the status code
/// `code`: the standard reason phrase, or `None` where the `http` crate
/// knows none for it.
pub uninterp spec fn canonical_reason(code: u16) -> Option<Seq<char>>;

/// Calls `http::StatusCode::from_u16` and, on the status code it makes,
/// `http::StatusCode::canonical_reason`. The first accepts every number
/// from 100 to 999. The second looks the number up in the crate's table of
/// registered codes; the result is named [`canonical_reason`]. Of that
/// table two rows are stated, those of the statuses that this library
/// answers with by itself: 400 is `Bad Request` and 404 is `Not Found`.
#[verifier::external_body]
fn lookup_reason(code: u16) -> (phrase: Option<&'static str>)
    requires
        100 <= code <= 999,
    ensures
        phrase.deep_view() == canonical_reason(code),
        code == 400 ==> phrase.deep_view() == Some("Bad Request"@),
        code == 404 ==> phrase.deep_view() == Some("Not Found"@),
{
    match http::StatusCode::from_u16(code) {
        Ok(status) => status.canonical_reason(),
        Err(_) => None,
    }
}

/// Whether `code` can be a status code at all: a number of three digits.
pub open spec fn is_status_code(code: u16) -> bool {
    100 <= code <= 999
}

/// The reason phrase that a status line for `code` carries: the canonical
/// one of a status code, and none for any other number.
pub open spec fn reason_of(code: u16) -> Option<Seq<char>> {
    if is_status_code(code) {
        canonical_reason(code)
    } else {
        None
    }
}

/// The decimal digit `d` as a character.
pub open spec fn digit_char(d: int) -> char {
    if d == 0 {
        '0'
    } else if d == 1 {
        '1'
    } else if d == 2 {
        '2'
    } else if d == 3 {
        '3'
    } else if d == 4 {
        '4'
    } else if d == 5 {
        '5'
    } else if d == 6 {
        '6'
    } else if d == 7 {
        '7'
    } else if d == 8 {
        '8'
    } else {
        '9'
    }
}

/// The three decimal digits of a status code.
pub open spec fn status_digits(code: u16) -> Seq<char> {
    seq![digit_char(code as int / 100), digit_char((code as int / 10) % 10), digit_char(code as int % 10)]
}

/// Looks up the reason phrase for `code`. Whoever asks for 400 or 404
/// learns that the phrase exists and how it reads.
pub fn reason_phrase(code: u16) -> (phrase: Option<&'static str>)
    ensures
        phrase.deep_view() == reason_of(code),
        code == 400 ==> reason_of(code) == Some("Bad Request"@),
        code == 404 ==> reason_of(code) == Some("Not Found"@),
{
    if 100 <= code && code <= 999 {
        lookup_reason(code)
    } else {
        None
    }
}

/// The character for the decimal digit `d`.
pub fn digit(d: u16) -> (c: char)
    requires
        d < 10,
    ensures
        c == digit_char(d as int),
{
    if d == 0 {
        '0'
    } else if d == 1 {
        '1'
    } else if d == 2 {
        '2'
    } else if d == 3 {
        '3'
    } else if d == 4 {
        '4'
    } else if d == 5 {
        '5'
    } else if d == 6 {
        '6'
    } else if d == 7 {
        '7'
    } else if d == 8 {
        '8'
    } else {
        '9'
    }
}

/// Appends the three digits of the status code `code` to `out`.
pub fn push_status_digits(out: &mut String, code: u16)
    requires
        is_status_code(code),
    ensures
        final(out)@ == old(out)@ + status_digits(code),
{
    out.push(digit(code / 100));
    out.push(digit((code / 10) % 10));
    out.push(digit(code % 10));
    proof {
        assert(out@ =~= old(out)@ + status_digits(code));
    }
}

} // verus!
