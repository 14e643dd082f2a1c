use cyclo::http::mime_label;
use cyclo::http::resolve_filename;
use cyclo::http::route;
use cyclo::http::HttpRequest;
use cyclo::http::RouteOutcome;

#[test]
fn request_line_is_split_into_method_and_uri() {
    let req = HttpRequest::new("GET /index.html HTTP/1.1\r\nHost: localhost\r\n\r\n".to_string());
    assert_eq!(req.method, "GET");
    assert_eq!(req.uri, "/index.html");
}

#[test]
fn bare_root_request() {
    let req = HttpRequest::new("GET / HTTP/1.1\r\n".to_string());
    assert_eq!(req.method, "GET");
    assert_eq!(req.uri, "/");
}

#[test]
fn request_without_line_break_still_parses() {
    let req = HttpRequest::new("POST /x".to_string());
    assert_eq!(req.method, "POST");
    assert_eq!(req.uri, "/x");
}

#[test]
fn uri_ends_at_the_line_end_when_no_version_follows() {
    let req = HttpRequest::new("GET /cyclo.js\r\nrest".to_string());
    assert_eq!(req.method, "GET");
    assert_eq!(req.uri, "/cyclo.js");
}

#[test]
fn root_uri_resolves_to_the_index_page() {
    assert_eq!(resolve_filename("/"), "index.html");
    assert_eq!(resolve_filename("/scripts/cyclo.js"), "/scripts/cyclo.js");
}

#[test]
fn scripts_are_served_as_javascript() {
    assert_eq!(mime_label("js"), "javascript");
    assert_eq!(mime_label("html"), "html");
    assert_eq!(mime_label("css"), "css");
}

#[test]
fn only_get_requests_for_existing_files_are_served() {
    assert_eq!(route("GET", true), RouteOutcome::Serve);
    assert_eq!(route("GET", false), RouteOutcome::NotFound);
    assert_eq!(route("POST", true), RouteOutcome::NotImplemented);
    assert_eq!(route("PUT", false), RouteOutcome::NotImplemented);
}
