use simple_http::default_handlers::{bad_request, not_found};
use simple_http::error::ReasonPhraseLookupError;
use simple_http::http_util::serialize_response;
use simple_http::message::{Request, Response};
use simple_http::status::{digit, push_status_digits, reason_phrase};

fn any_request() -> Request {
    Request {
        method: "GET".to_string(),
        path: "/nowhere".to_string(),
        query: None,
        headers: Vec::new(),
        body: String::new(),
    }
}

fn response(status: u16, headers: Vec<(&str, &str)>, body: &str) -> Response {
    Response {
        status,
        headers: headers.into_iter().map(|(n, v)| (n.to_string(), v.to_string())).collect(),
        body: body.to_string(),
    }
}

#[test]
fn not_found_is_404_and_empty() {
    let res = not_found(any_request());
    assert_eq!(res, response(404, vec![], ""));
    assert_eq!(serialize_response(&res), Ok("HTTP/1.1 404 Not Found\r\n\r\n".to_string()));
}

#[test]
fn bad_request_is_400_and_empty() {
    let res = bad_request();
    assert_eq!(res, response(400, vec![], ""));
    assert_eq!(serialize_response(&res), Ok("HTTP/1.1 400 Bad Request\r\n\r\n".to_string()));
}

#[test]
fn a_response_is_written_as_status_line_headers_blank_line_body() {
    let res = response(200, vec![("Content-Type", "text/plain"), ("X-A", "1")], "hello");
    assert_eq!(
        serialize_response(&res),
        Ok("HTTP/1.1 200 OK\r\nContent-Type: text/plain\r\nX-A: 1\r\n\r\nhello".to_string())
    );
}

#[test]
fn headers_are_written_in_the_order_they_were_added() {
    let res = response(200, vec![("Z", "1"), ("A", "2"), ("M", "3"), ("A", "4")], "");
    assert_eq!(
        serialize_response(&res),
        Ok("HTTP/1.1 200 OK\r\nZ: 1\r\nA: 2\r\nM: 3\r\nA: 4\r\n\r\n".to_string())
    );
}

#[test]
fn header_names_are_written_as_given() {
    let res = response(204, vec![("X-MiXed-Case", "v")], "");
    assert_eq!(
        serialize_response(&res),
        Ok("HTTP/1.1 204 No Content\r\nX-MiXed-Case: v\r\n\r\n".to_string())
    );
}

#[test]
fn header_values_are_written_without_enclosing_quotes() {
    let res = response(200, vec![("Host", "\"bar.com\""), ("Plain", "bar.com")], "");
    assert_eq!(
        serialize_response(&res),
        Ok("HTTP/1.1 200 OK\r\nHost: bar.com\r\nPlain: bar.com\r\n\r\n".to_string())
    );
}

#[test]
fn quotes_inside_a_written_value_are_kept() {
    let res = response(200, vec![("Note", "say \"hi\" now")], "");
    assert_eq!(
        serialize_response(&res),
        Ok("HTTP/1.1 200 OK\r\nNote: say \"hi\" now\r\n\r\n".to_string())
    );
}

#[test]
fn the_body_is_written_as_it_is() {
    let res = response(500, vec![], "a\r\n\r\nb \u{e9}");
    assert_eq!(
        serialize_response(&res),
        Ok("HTTP/1.1 500 Internal Server Error\r\n\r\na\r\n\r\nb \u{e9}".to_string())
    );
}

#[test]
fn a_status_without_reason_phrase_is_an_error() {
    for status in [0u16, 42, 99, 299, 600, 999, 1000, u16::MAX] {
        assert_eq!(
            serialize_response(&response(status, vec![("A", "b")], "x")),
            Err(ReasonPhraseLookupError { status })
        );
    }
}

#[test]
fn the_reason_phrase_error_has_a_message() {
    let error = serialize_response(&response(299, vec![], "")).unwrap_err();
    assert_eq!(error.status, 299);
    assert_eq!(error.message(), "no canonical reason phrase for the status code");
}

#[test]
fn reason_phrases_are_the_canonical_ones() {
    assert_eq!(reason_phrase(200), Some("OK"));
    assert_eq!(reason_phrase(400), Some("Bad Request"));
    assert_eq!(reason_phrase(404), Some("Not Found"));
    assert_eq!(reason_phrase(418), Some("I'm a teapot"));
    assert_eq!(reason_phrase(100), Some("Continue"));
    assert_eq!(reason_phrase(511), Some("Network Authentication Required"));
}

#[test]
fn numbers_that_are_no_registered_status_have_no_reason_phrase() {
    assert_eq!(reason_phrase(0), None);
    assert_eq!(reason_phrase(99), None);
    assert_eq!(reason_phrase(209), None);
    assert_eq!(reason_phrase(999), None);
    assert_eq!(reason_phrase(1000), None);
    assert_eq!(reason_phrase(40400), None);
}

#[test]
fn digits_are_the_decimal_characters() {
    let all: String = (0..10).map(digit).collect();
    assert_eq!(all, "0123456789");
}

#[test]
fn status_digits_are_appended() {
    let mut out = String::from("s=");
    push_status_digits(&mut out, 404);
    push_status_digits(&mut out, 100);
    push_status_digits(&mut out, 999);
    push_status_digits(&mut out, 520);
    assert_eq!(out, "s=404100999520");
}

#[test]
fn a_response_is_built_step_by_step() {
    let res = Response::new(201, "made".to_string()).header("Location", "/items/1").header("X-B", "2");
    assert_eq!(res, response(201, vec![("Location", "/items/1"), ("X-B", "2")], "made"));
    assert_eq!(res.reason(), Some("Created"));
    assert_eq!(Response::new(299, String::new()).reason(), None);
    assert_eq!(
        serialize_response(&res),
        Ok("HTTP/1.1 201 Created\r\nLocation: /items/1\r\nX-B: 2\r\n\r\nmade".to_string())
    );
}

#[test]
fn a_header_value_survives_extraction_and_writing() {
    let req = simple_http::http_util::parse_request("GET /foo HTTP/1.1\r\nHost: bar.com\r\n\r\n").unwrap();
    let host = simple_http::http_util::extract_header(req, "Host").unwrap();
    assert_eq!(host, "bar.com");
    let res = Response::new(200, String::new()).header("Host", &host);
    assert_eq!(serialize_response(&res), Ok("HTTP/1.1 200 OK\r\nHost: bar.com\r\n\r\n".to_string()));
    assert_eq!(simple_http::http_util::parse_header(&host), host);
}
