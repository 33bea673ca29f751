//! Tests of the HTTP codec: start lines, headers, full requests and
//! response serialization.

use mdserve::http::{mime_type, Request, Response};

fn req_bytes(s: &str) -> Vec<u8> {
    s.as_bytes().to_vec()
}

#[test]
fn start_line_round_trips_tokens() {
    let r = Request::parse_start_line("GET /index.html HTTP/1.1").unwrap();
    assert_eq!(r.0, "GET");
    assert_eq!(r.1, "/index.html");
    assert_eq!(r.2, "HTTP/1.1");
}

#[test]
fn start_line_upper_cases_method() {
    let r = Request::parse_start_line("get / http/1.1").unwrap();
    assert_eq!(r.0, "GET");
    assert_eq!(r.1, "/");
    assert_eq!(r.2, "http/1.1");
}

#[test]
fn start_line_with_too_few_tokens_is_malformed() {
    assert!(Request::parse_start_line("GET /").is_err());
    assert!(Request::parse_start_line("").is_err());
}

#[test]
fn parse_whole_request() {
    let data = req_bytes("GET /page.html HTTP/1.1\r\nHost: localhost\r\n\r\nhello");
    let req = Request::parse(&data).unwrap();
    assert_eq!(req.method, "GET");
    assert_eq!(req.path, "/page.html");
    assert_eq!(req.version, "HTTP/1.1");
    assert_eq!(req.body, "hello");
    assert_eq!(req.header_value("host").unwrap(), "localhost");
}

#[test]
fn header_names_are_trimmed_and_lower_cased() {
    let data = req_bytes("GET / HTTP/1.1\r\n  X-Thing  :  a value \r\n\r\n");
    let req = Request::parse(&data).unwrap();
    assert_eq!(req.header_value("x-thing").unwrap(), "a value");
}

#[test]
fn duplicate_header_last_occurrence_wins() {
    let data = req_bytes("GET / HTTP/1.1\r\nX-A: first\r\nX-A: second\r\n\r\n");
    let req = Request::parse(&data).unwrap();
    assert_eq!(req.header_value("x-a").unwrap(), "second");
}

#[test]
fn missing_blank_line_is_malformed() {
    let data = req_bytes("GET / HTTP/1.1\r\nHost: a\r\n");
    assert!(Request::parse(&data).is_err());
}

#[test]
fn header_without_colon_is_malformed() {
    let data = req_bytes("GET / HTTP/1.1\r\nNoColonHere\r\n\r\n");
    assert!(Request::parse(&data).is_err());
}

#[test]
fn invalid_utf8_is_malformed() {
    let data = vec![0x47, 0x45, 0x54, 0xff, 0xfe, 0x20];
    assert!(Request::parse(&data).is_err());
}

#[test]
fn mime_type_table() {
    assert_eq!(mime_type("md"), "text/html");
    assert_eq!(mime_type("html"), "text/html");
    assert_eq!(mime_type("css"), "text/css");
    assert_eq!(mime_type("js"), "text/javascript");
    assert_eq!(mime_type("mjs"), "application/javascript");
    assert_eq!(mime_type("png"), "image/png");
    assert_eq!(mime_type("jpg"), "image/jpeg");
    assert_eq!(mime_type("jpeg"), "image/jpeg");
    assert_eq!(mime_type("ico"), "image/x-icon");
}

#[test]
fn mime_type_unknown_extensions_are_plain_text() {
    assert_eq!(mime_type("xyz"), "text/plain");
    assert_eq!(mime_type(""), "text/plain");
    assert_eq!(mime_type("MD"), "text/plain");
    assert_eq!(mime_type("tar.gz"), "text/plain");
}

#[test]
fn response_defaults() {
    let res = Response::new();
    assert_eq!(res.status, 200);
    assert!(res.headers.is_empty());
    assert!(res.body.is_empty());
}

#[test]
fn response_serializes_once() {
    let mut res = Response::new();
    res.set_status(200);
    res.write_header("Content-Type", "text/css");
    res.append_body(b"body { color: red }");
    let out = res.send();
    let expected = b"HTTP/1.1 200 Ok\r\nContent-Type: text/css\r\n\r\nbody { color: red }";
    assert_eq!(out, expected.to_vec());
}

#[test]
fn response_status_without_reason_phrase() {
    let mut res = Response::new();
    res.set_status(418);
    let out = res.send();
    assert_eq!(out, b"HTTP/1.1 418 \r\n\r\n".to_vec());
}

#[test]
fn response_error_statuses_have_reasons() {
    let mut res = Response::new();
    res.set_status(404);
    assert_eq!(Response::status_message(404), "Not Found");
    assert_eq!(Response::status_message(500), "Internal Server Error");
    let out = res.send();
    assert_eq!(out, b"HTTP/1.1 404 Not Found\r\n\r\n".to_vec());
}

#[test]
fn write_header_overwrites_same_name_in_place() {
    let mut res = Response::new();
    res.write_header("Content-Type", "text/plain");
    res.write_header("X-Extra", "1");
    res.write_header("Content-Type", "text/html");
    let out = res.send();
    let expected = b"HTTP/1.1 200 Ok\r\nContent-Type: text/html\r\nX-Extra: 1\r\n\r\n";
    assert_eq!(out, expected.to_vec());
}

#[test]
fn request_body_keeps_everything_after_blank_line() {
    let data = req_bytes("POST /x.css HTTP/1.1\r\n\r\nline1\r\nline2");
    let req = Request::parse(&data).unwrap();
    assert_eq!(req.body, "line1\r\nline2");
    assert!(req.headers.is_empty());
}
