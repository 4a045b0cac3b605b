use simple_http::error::HeaderMissingError;
use simple_http::http_util::{extract_header, parse_header, parse_query, parse_request};
use simple_http::message::Request;

fn request_with(headers: Vec<(&str, &str)>, query: Option<&str>) -> Request {
    Request {
        method: "GET".to_string(),
        path: "/".to_string(),
        query: query.map(|q| q.to_string()),
        headers: headers.into_iter().map(|(n, v)| (n.to_string(), v.to_string())).collect(),
        body: String::new(),
    }
}

#[test]
fn a_plain_value_stays_as_it_is() {
    assert_eq!(parse_header("bar.com"), "bar.com");
    assert_eq!(parse_header(""), "");
    assert_eq!(parse_header("a b  c"), "a b  c");
}

#[test]
fn enclosing_quotes_are_dropped() {
    assert_eq!(parse_header("\"bar.com\""), "bar.com");
    assert_eq!(parse_header("\"\""), "");
}

#[test]
fn a_quote_on_one_side_is_dropped() {
    assert_eq!(parse_header("\"bar.com"), "bar.com");
    assert_eq!(parse_header("bar.com\""), "bar.com");
    assert_eq!(parse_header("\""), "");
}

#[test]
fn quotes_inside_a_value_are_kept() {
    assert_eq!(parse_header("a\"b"), "a\"b");
    assert_eq!(parse_header("\"a\"b\""), "a\"b");
    assert_eq!(parse_header("say \"hi\" twice"), "say \"hi\" twice");
}

#[test]
fn only_one_quote_is_dropped_on_each_side() {
    assert_eq!(parse_header("\"\"bar\"\""), "\"bar\"");
    assert_eq!(parse_header("\"\"\""), "\"");
}

#[test]
fn a_header_is_found_by_its_name() {
    let req = request_with(vec![("Accept", "*/*"), ("Host", "bar.com")], None);
    assert_eq!(extract_header(req, "Host"), Ok("bar.com".to_string()));
}

#[test]
fn a_found_value_comes_without_enclosing_quotes() {
    let req = request_with(vec![("ETag", "\"v1\"")], None);
    assert_eq!(extract_header(req, "ETag"), Ok("v1".to_string()));
}

#[test]
fn the_first_header_of_a_name_is_the_one() {
    let req = request_with(vec![("A", "1"), ("B", "2"), ("A", "3")], None);
    assert_eq!(extract_header(req, "A"), Ok("1".to_string()));
}

#[test]
fn header_names_are_matched_exactly() {
    let req = request_with(vec![("host", "lower"), ("Host", "upper")], None);
    assert_eq!(extract_header(req.clone(), "Host"), Ok("upper".to_string()));
    assert_eq!(extract_header(req.clone(), "host"), Ok("lower".to_string()));
    assert_eq!(
        extract_header(req, "HOST"),
        Err(HeaderMissingError { name: "HOST".to_string() })
    );
}

#[test]
fn a_missing_header_is_reported_by_name() {
    let req = request_with(vec![("Accept", "*/*")], None);
    let error = extract_header(req, "Host").unwrap_err();
    assert_eq!(error.name, "Host");
    assert_eq!(error.message(), "missing header: Host");
    assert!(extract_header(request_with(vec![], None), "Host").is_err());
}

#[test]
fn a_header_read_from_the_wire_is_extracted() {
    let req = parse_request("GET /foo HTTP/1.1\r\nHost: bar.com\r\n\r\n").unwrap();
    assert_eq!(extract_header(req, "Host"), Ok("bar.com".to_string()));
}

#[test]
fn a_query_is_percent_decoded() {
    assert_eq!(parse_query(request_with(vec![], Some("a%20b"))), Some("a b".to_string()));
    assert_eq!(
        parse_query(request_with(vec![], Some("name=J%C3%BCrgen&x=%3F"))),
        Some("name=J\u{fc}rgen&x=?".to_string())
    );
}

#[test]
fn a_missing_query_is_not_an_empty_one() {
    assert_eq!(parse_query(request_with(vec![], None)), None);
    assert_eq!(parse_query(request_with(vec![], Some(""))), Some(String::new()));
}

#[test]
fn what_is_no_escape_stays_in_the_query() {
    assert_eq!(parse_query(request_with(vec![], Some("100%"))), Some("100%".to_string()));
    assert_eq!(parse_query(request_with(vec![], Some("%zz%4"))), Some("%zz%4".to_string()));
    assert_eq!(parse_query(request_with(vec![], Some("a+b"))), Some("a+b".to_string()));
}

#[test]
fn bytes_that_are_no_utf8_are_replaced_in_the_query() {
    assert_eq!(parse_query(request_with(vec![], Some("a%FFb"))), Some("a\u{fffd}b".to_string()));
}

#[test]
fn the_query_of_a_parsed_request_is_decoded() {
    let req = parse_request("GET /uwu?hello%20world HTTP/1.1\r\n\r\n").unwrap();
    assert_eq!(parse_query(req), Some("hello world".to_string()));
}
