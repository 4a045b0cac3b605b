use simple_http::http_util::{construct_request, parse_request};
use simple_http::message::Request;

fn header(name: &str, value: &str) -> (String, String) {
    (name.to_string(), value.to_string())
}

#[test]
fn parses_a_get_with_one_header() {
    let req = parse_request("GET /echo HTTP/1.1\r\nHost: example.com\r\n\r\n").unwrap();
    assert_eq!(
        req,
        Request {
            method: "GET".to_string(),
            path: "/echo".to_string(),
            query: None,
            headers: vec![header("Host", "example.com")],
            body: String::new(),
        }
    );
}

#[test]
fn parses_query_headers_and_body() {
    let raw = "POST /submit?a=1&b=two HTTP/1.0\r\nContent-Type: text/plain\r\nX-Id: 7\r\n\r\nhello";
    let req = parse_request(raw).unwrap();
    assert_eq!(req.method, "POST");
    assert_eq!(req.path, "/submit");
    assert_eq!(req.query, Some("a=1&b=two".to_string()));
    assert_eq!(req.headers, vec![header("Content-Type", "text/plain"), header("X-Id", "7")]);
    assert_eq!(req.body, "hello");
}

#[test]
fn the_path_keeps_its_percent_encoding() {
    let req = parse_request("GET /a%20b?c%20d HTTP/1.1\r\n\r\n").unwrap();
    assert_eq!(req.path, "/a%20b");
    assert_eq!(req.query, Some("c%20d".to_string()));
}

#[test]
fn an_empty_query_is_not_a_missing_one() {
    let with = parse_request("GET /foo? HTTP/1.1\r\n\r\n").unwrap();
    let without = parse_request("GET /foo HTTP/1.1\r\n\r\n").unwrap();
    assert_eq!(with.path, "/foo");
    assert_eq!(with.query, Some(String::new()));
    assert_eq!(without.query, None);
}

#[test]
fn only_the_first_question_mark_splits_the_target() {
    let req = parse_request("GET /a?b?c HTTP/1.1\r\n\r\n").unwrap();
    assert_eq!(req.path, "/a");
    assert_eq!(req.query, Some("b?c".to_string()));
}

#[test]
fn a_target_may_start_with_its_query() {
    let req = parse_request("GET ?x HTTP/1.1\r\n\r\n").unwrap();
    assert_eq!(req.path, "");
    assert_eq!(req.query, Some("x".to_string()));
}

#[test]
fn a_request_line_alone_is_a_request() {
    let req = parse_request("GET / HTTP/1.1\r\n").unwrap();
    assert_eq!(req.method, "GET");
    assert_eq!(req.path, "/");
    assert!(req.headers.is_empty());
    assert_eq!(req.body, "");
}

#[test]
fn headers_without_a_blank_line_are_read() {
    let req = parse_request("GET / HTTP/1.1\r\nHost: h\r\n").unwrap();
    assert_eq!(req.headers, vec![header("Host", "h")]);
    assert_eq!(req.body, "");
}

#[test]
fn the_body_is_all_that_follows_the_blank_line() {
    let req = parse_request("PUT /x HTTP/1.1\r\nA: b\r\n\r\nline one\r\nline two\r\n\r\nmore").unwrap();
    assert_eq!(req.body, "line one\r\nline two\r\n\r\nmore");
}

#[test]
fn a_body_may_follow_the_request_line_directly() {
    let req = parse_request("GET / HTTP/1.1\r\n\r\nNot: a header\r\n").unwrap();
    assert!(req.headers.is_empty());
    assert_eq!(req.body, "Not: a header\r\n");
}

#[test]
fn duplicate_headers_stay_in_order() {
    let req = parse_request("GET / HTTP/1.1\r\nA: 1\r\nB: 2\r\nA: 3\r\n\r\n").unwrap();
    assert_eq!(req.headers, vec![header("A", "1"), header("B", "2"), header("A", "3")]);
}

#[test]
fn header_names_keep_their_case() {
    let req = parse_request("GET / HTTP/1.1\r\nhOsT: x\r\nHOST: y\r\n\r\n").unwrap();
    assert_eq!(req.headers, vec![header("hOsT", "x"), header("HOST", "y")]);
}

#[test]
fn a_header_value_may_hold_the_separator() {
    let req = parse_request("GET / HTTP/1.1\r\nA: b: c\r\n\r\n").unwrap();
    assert_eq!(req.headers, vec![header("A", "b: c")]);
}

#[test]
fn header_values_keep_their_quotes() {
    let req = parse_request("GET / HTTP/1.1\r\nETag: \"abc\"\r\n\r\n").unwrap();
    assert_eq!(req.headers, vec![header("ETag", "\"abc\"")]);
}

#[test]
fn any_version_digit_is_accepted() {
    for digit in ["0", "1", "9"] {
        let raw = format!("GET / HTTP/1.{}\r\n\r\n", digit);
        assert!(parse_request(&raw).is_some());
    }
}

#[test]
fn other_versions_are_no_request_line() {
    assert_eq!(parse_request("GET / HTTP/2.0\r\n\r\n"), None);
    assert_eq!(parse_request("GET / HTTP/1.x\r\n\r\n"), None);
    assert_eq!(parse_request("GET / HTTP/1.\r\n\r\n"), None);
    assert_eq!(parse_request("GET / HTTP/1.11\r\n\r\n"), None);
}

#[test]
fn the_request_line_may_come_after_other_text() {
    let req = parse_request("junk\r\nGET /late HTTP/1.1\r\nHost: h\r\n\r\n").unwrap();
    assert_eq!(req.method, "GET");
    assert_eq!(req.path, "/late");
    assert_eq!(req.headers, vec![header("Host", "h")]);
}

#[test]
fn the_first_request_line_is_the_one() {
    let req = parse_request("GET /one HTTP/1.1\r\n\r\nPOST /two HTTP/1.1\r\n\r\n").unwrap();
    assert_eq!(req.method, "GET");
    assert_eq!(req.path, "/one");
    assert_eq!(req.body, "POST /two HTTP/1.1\r\n\r\n");
}

#[test]
fn a_method_starts_where_upper_case_starts() {
    let req = parse_request("xyGET / HTTP/1.1\r\n\r\n").unwrap();
    assert_eq!(req.method, "GET");
}

#[test]
fn text_without_a_request_line_has_no_parse() {
    assert_eq!(parse_request(""), None);
    assert_eq!(parse_request("\u{0}\u{1}\u{2}garbage\u{fffd}"), None);
    assert_eq!(parse_request("get / HTTP/1.1\r\n\r\n"), None);
    assert_eq!(parse_request("GET  HTTP/1.1\r\n\r\n"), None);
    assert_eq!(parse_request("GET / HTTP/1.1\n\n"), None);
    assert_eq!(parse_request("GET /a b HTTP/1.1\r\n\r\n"), None);
    assert_eq!(parse_request("GET / HTTP/1.1"), None);
}

#[test]
fn a_header_line_without_separator_has_no_parse() {
    assert_eq!(parse_request("GET / HTTP/1.1\r\nHost example.com\r\n\r\n"), None);
    assert_eq!(parse_request("GET / HTTP/1.1\r\nHost:example.com\r\n\r\n"), None);
    assert_eq!(parse_request("GET / HTTP/1.1\r\nA: 1\r\nbroken\r\n\r\n"), None);
}

#[test]
fn a_malformed_header_line_has_no_parse() {
    assert_eq!(parse_request("GET / HTTP/1.1\r\n: value\r\n\r\n"), None);
    assert_eq!(parse_request("GET / HTTP/1.1\r\nName: \r\n\r\n"), None);
    assert_eq!(parse_request("GET / HTTP/1.1\r\nX_Y: 1\r\n\r\n"), None);
    assert_eq!(parse_request("GET / HTTP/1.1\r\nA: 1\n\r\n"), None);
    assert_eq!(parse_request("GET / HTTP/1.1\r\nA: cut off"), None);
}

#[test]
fn a_written_request_reads_as_on_the_wire() {
    let req = Request {
        method: "POST".to_string(),
        path: "/p".to_string(),
        query: Some("q=1".to_string()),
        headers: vec![header("Host", "example.com"), header("Accept", "*/*")],
        body: "payload".to_string(),
    };
    assert_eq!(
        construct_request(req),
        "POST /p?q=1 HTTP/1.1\r\nHost: example.com\r\nAccept: */*\r\n\r\npayload"
    );
}

#[test]
fn a_written_request_without_headers_has_its_blank_line() {
    let req = Request {
        method: "GET".to_string(),
        path: "/".to_string(),
        query: None,
        headers: Vec::new(),
        body: String::new(),
    };
    assert_eq!(construct_request(req), "GET / HTTP/1.1\r\n\r\n");
}

#[test]
fn parsing_then_writing_gives_the_text_back() {
    let raw = "GET /a/b?x=1 HTTP/1.1\r\nHost: example.com\r\nB: 2\r\nA: 1\r\n\r\nbody text";
    let req = parse_request(raw).unwrap();
    assert_eq!(construct_request(req), raw);
}

#[test]
fn writing_then_parsing_gives_the_request_back() {
    let raw = "DELETE /items/7 HTTP/1.0\r\nZ: last\r\nA: first\r\nZ: again\r\n";
    let req = parse_request(raw).unwrap();
    let again = parse_request(&construct_request(req.clone())).unwrap();
    assert_eq!(again, req);
}

#[test]
fn writing_drops_the_quotes_around_a_value() {
    let req = parse_request("GET / HTTP/1.1\r\nETag: \"abc\"\r\n\r\n").unwrap();
    let text = construct_request(req);
    assert_eq!(text, "GET / HTTP/1.1\r\nETag: abc\r\n\r\n");
    assert_eq!(parse_request(&text).unwrap().headers, vec![header("ETag", "abc")]);
}

#[test]
fn characters_beyond_ascii_are_kept() {
    let req = parse_request("GET /caf\u{e9}?q=\u{fc} HTTP/1.1\r\nX-Name: J\u{fc}rgen\r\n\r\n\u{2603}").unwrap();
    assert_eq!(req.path, "/caf\u{e9}");
    assert_eq!(req.query, Some("q=\u{fc}".to_string()));
    assert_eq!(req.headers, vec![header("X-Name", "J\u{fc}rgen")]);
    assert_eq!(req.body, "\u{2603}");
    assert_eq!(parse_request("G\u{c9}T / HTTP/1.1\r\n\r\n").unwrap().method, "T");
    assert_eq!(parse_request("GET / HTTP/1.\u{663}\r\n\r\n"), None);
}
