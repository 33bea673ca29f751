//! Tests of the Markdown pipeline and the server's response rules:
//! metadata extraction, document assembly, path resolution, and the
//! end-to-end request scenarios.

use mdserve::metadata::{extract, Metadata};
use mdserve::parser::parse;
use mdserve::server::{respond, resolve_request_path, FileOutcome};

#[test]
fn metadata_defaults() {
    let m = Metadata::default();
    assert_eq!(m.language, "en");
    assert_eq!(m.charset, "UTF-8");
    assert_eq!(m.title, "");
    assert!(m.author.is_none());
    assert!(m.stylesheets.is_empty());
    assert!(m.other.is_empty());
}

#[test]
fn extract_takes_metadata_lines_out() {
    let (m, rest) = extract("$[title(Hello)]\n# Heading\ntext");
    assert_eq!(m.title, "Hello");
    assert_eq!(rest, "# Heading\ntext");
}

#[test]
fn extract_trims_quotes_and_whitespace_from_values() {
    let (m, rest) = extract("$[author( \"Bob\" )]\nbody");
    assert_eq!(m.author.unwrap(), "Bob");
    assert_eq!(rest, "body");
}

#[test]
fn extract_collects_repeatable_keys_in_order() {
    let (m, _) = extract("$[style(a.css)]\n$[stylesheet(b.css)]\n$[template(t)]");
    assert_eq!(m.stylesheets, vec!["a.css".to_owned(), "b.css".to_owned()]);
    assert_eq!(m.templates, vec!["t".to_owned()]);
}

#[test]
fn extract_keeps_unknown_keys_as_other() {
    let (m, _) = extract("$[keywords(web, markdown)]");
    assert_eq!(m.other.len(), 1);
    assert_eq!(m.other[0].0, "keywords");
    assert_eq!(m.other[0].1, "web, markdown");
}

#[test]
fn extract_scalar_keys_overwrite() {
    let (m, _) = extract("$[title(one)]\n$[title(two)]\n$[lang(de)]");
    assert_eq!(m.title, "two");
    assert_eq!(m.language, "de");
}

#[test]
fn extract_leaves_lookalike_lines_in_the_body() {
    let (_, rest) = extract("$[no closing paren]\nreal text");
    assert_eq!(rest, "$[no closing paren]\nreal text");
}

#[test]
fn parse_renders_markdown_into_a_document() {
    let html = parse("# Hi");
    assert!(html.contains("<h1>Hi</h1>"));
    assert!(html.starts_with("<!DOCTYPE html>"));
    assert!(html.contains("<html lang=\"en\">"));
    assert!(html.contains("<meta charset=\"UTF-8\">"));
    assert!(html.contains("<title></title>"));
    assert!(html.ends_with("</html>"));
}

#[test]
fn parse_puts_metadata_into_the_head() {
    let html = parse("$[title(My Page)]\n$[style(main.css)]\n# Hi");
    assert!(html.contains("<title>My Page</title>"));
    assert!(html.contains("<link rel=\"stylesheet\" href=\"main.css\">"));
    assert!(html.contains("<h1>Hi</h1>"));
}

#[test]
fn resolve_root_path_serves_the_default_document() {
    let r = resolve_request_path("/");
    assert_eq!(r.rel, "index.md");
    assert!(r.render);
}

#[test]
fn resolve_html_path_rewrites_to_markdown() {
    let r = resolve_request_path("/guide/intro.html");
    assert_eq!(r.rel, "guide/intro.md");
    assert!(r.render);
}

#[test]
fn resolve_extensionless_path_appends_default_document() {
    let r = resolve_request_path("/guide");
    assert_eq!(r.rel, "guide/index.md");
    assert!(r.render);
}

#[test]
fn resolve_other_extensions_serve_verbatim() {
    let r = resolve_request_path("/style.css");
    assert_eq!(r.rel, "style.css");
    assert!(!r.render);
}

#[test]
fn resolve_empty_path_is_handled() {
    let r = resolve_request_path("");
    assert_eq!(r.rel, "index.md");
    assert!(r.render);
}

#[test]
fn request_for_root_renders_index_markdown() {
    let r = resolve_request_path("/");
    let res = respond(&r, &FileOutcome::Data(b"# Hi".to_vec()));
    assert_eq!(res.status, 200);
    assert_eq!(res.headers.len(), 1);
    assert_eq!(res.headers[0].0, "Content-Type");
    assert_eq!(res.headers[0].1, "text/html");
    let body = String::from_utf8(res.body.clone()).unwrap();
    assert!(body.contains("<h1>Hi</h1>"));
}

#[test]
fn request_for_missing_page_is_404() {
    let r = resolve_request_path("/missing.html");
    assert_eq!(r.rel, "missing.md");
    let res = respond(&r, &FileOutcome::NotFound);
    assert_eq!(res.status, 404);
    assert_eq!(res.headers[0].0, "Content-Type");
    assert_eq!(res.headers[0].1, "text/plain");
    assert_eq!(res.body, b"404 Not Found".to_vec());
}

#[test]
fn request_for_static_file_serves_raw_bytes() {
    let raw = b"body { color: #123456 }\n".to_vec();
    let r = resolve_request_path("/style.css");
    let res = respond(&r, &FileOutcome::Data(raw.clone()));
    assert_eq!(res.status, 200);
    assert_eq!(res.headers[0].0, "Content-Type");
    assert_eq!(res.headers[0].1, "text/css");
    assert_eq!(res.body, raw);
}

#[test]
fn read_failure_is_500() {
    let r = resolve_request_path("/anything.html");
    let res = respond(&r, &FileOutcome::OtherError);
    assert_eq!(res.status, 500);
    assert_eq!(res.body, b"500 Internal Server Error".to_vec());
}

#[test]
fn markdown_that_is_not_utf8_is_500() {
    let r = resolve_request_path("/page.html");
    let res = respond(&r, &FileOutcome::Data(vec![0xff, 0xfe, 0x23]));
    assert_eq!(res.status, 500);
    assert_eq!(res.headers[0].1, "text/plain");
    assert_eq!(res.body, b"500 Internal Server Error".to_vec());
}

#[test]
fn plan_request_resolves_the_requested_path() {
    let data = b"GET /style.css HTTP/1.1\r\n\r\n".to_vec();
    let plan = mdserve::server::plan_request(&data).unwrap();
    assert_eq!(plan.rel, "style.css");
    assert!(!plan.render);
    let bad = b"GET\r\n\r\n".to_vec();
    assert!(mdserve::server::plan_request(&bad).is_err());
}
