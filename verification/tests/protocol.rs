use url_shortener::protocol::{
    created_response, extract_long_url, handle_get, handle_shorten, method_not_allowed_response,
    not_found_response, ok_response, parse_request_line, redirect_response, route,
    strip_leading_slashes, Request,
};
use url_shortener::store::UrlShortener;

#[test]
fn parse_request_line_splits_method_and_path() {
    let (method, path) = parse_request_line("GET / HTTP/1.1");
    assert_eq!(method, "GET");
    assert_eq!(path, "/");
    let (method, path) = parse_request_line("POST /shorten HTTP/1.1");
    assert_eq!(method, "POST");
    assert_eq!(path, "/shorten");
}

#[test]
fn parse_request_line_missing_tokens_are_empty() {
    let (method, path) = parse_request_line("");
    assert_eq!(method, "");
    assert_eq!(path, "");
    let (method, path) = parse_request_line("GET");
    assert_eq!(method, "GET");
    assert_eq!(path, "");
}

#[test]
fn parse_request_line_tolerates_extra_whitespace() {
    let (method, path) = parse_request_line("  GET \t /abc  HTTP/1.1");
    assert_eq!(method, "GET");
    assert_eq!(path, "/abc");
}

#[test]
fn strip_leading_slashes_leaves_the_code() {
    assert_eq!(strip_leading_slashes("/abc123"), "abc123");
    assert_eq!(strip_leading_slashes("/"), "");
    assert_eq!(strip_leading_slashes("//x"), "x");
    assert_eq!(strip_leading_slashes("plain"), "plain");
}

#[test]
fn extract_long_url_takes_text_after_first_equals() {
    assert_eq!(extract_long_url("url=http://example.com"), "http://example.com");
    assert_eq!(extract_long_url("no delimiter here"), "");
    assert_eq!(extract_long_url("a=b=c"), "b");
    assert_eq!(extract_long_url("="), "");
}

#[test]
fn route_dispatches_as_the_server_does() {
    assert!(matches!(route("GET", "/abc"), Request::Get { code } if code == "abc"));
    assert!(matches!(route("GET", "/"), Request::Get { code } if code.is_empty()));
    assert!(matches!(route("POST", "/shorten"), Request::Shorten));
    assert!(matches!(route("POST", "/other"), Request::Other));
    assert!(matches!(route("PUT", "/anything"), Request::Other));
}

#[test]
fn response_wire_formats_are_exact() {
    assert_eq!(
        ok_response("hello"),
        "HTTP/1.1 200 OK\r\nContent-Length: 5\r\n\r\nhello"
    );
    assert_eq!(
        redirect_response("http://example.com"),
        "HTTP/1.1 302 Found\r\nLocation: http://example.com\r\n\r\n"
    );
    assert_eq!(
        not_found_response(),
        "HTTP/1.1 404 Not Found\r\nContent-Length: 0\r\n\r\n"
    );
    assert_eq!(
        created_response("abc123"),
        "HTTP/1.1 201 Created\r\nContent-Length: 6\r\n\r\nabc123"
    );
    assert_eq!(
        method_not_allowed_response(),
        "HTTP/1.1 405 Method Not Allowed\r\nContent-Length: 0\r\n\r\n"
    );
}

#[test]
fn post_shorten_then_get_redirects() {
    let mut store = UrlShortener::new();
    let (method, path) = parse_request_line("POST /shorten HTTP/1.1");
    assert!(matches!(route(&method, &path), Request::Shorten));
    let (resp, code) = handle_shorten(&mut store, "url=http://example.com");
    assert_eq!(code.chars().count(), 6);
    assert_eq!(
        resp,
        format!("HTTP/1.1 201 Created\r\nContent-Length: 6\r\n\r\n{}", code)
    );

    let (method, path) = parse_request_line(&format!("GET /{} HTTP/1.1", code));
    let looked_up = match route(&method, &path) {
        Request::Get { code } => code,
        _ => panic!("a GET must route to a lookup"),
    };
    assert_eq!(looked_up, code);
    let resp = handle_get(&store, &looked_up, "<html></html>");
    assert_eq!(
        resp,
        "HTTP/1.1 302 Found\r\nLocation: http://example.com\r\n\r\n"
    );
}

#[test]
fn get_unknown_code_is_404_with_empty_body() {
    let store = UrlShortener::new();
    let resp = handle_get(&store, "doesnotexist", "<html></html>");
    assert_eq!(resp, "HTTP/1.1 404 Not Found\r\nContent-Length: 0\r\n\r\n");
}

#[test]
fn get_root_serves_the_static_document() {
    let store = UrlShortener::new();
    let contents = "<html><body>hi</body></html>";
    let resp = handle_get(&store, "", contents);
    assert_eq!(
        resp,
        format!(
            "HTTP/1.1 200 OK\r\nContent-Length: {}\r\n\r\n{}",
            contents.len(),
            contents
        )
    );
}

#[test]
fn put_anything_is_405() {
    let (method, path) = parse_request_line("PUT /anything HTTP/1.1");
    assert!(matches!(route(&method, &path), Request::Other));
    let resp = method_not_allowed_response();
    assert_eq!(resp, "HTTP/1.1 405 Method Not Allowed\r\nContent-Length: 0\r\n\r\n");
}

#[test]
fn shorten_body_without_equals_stores_empty_url() {
    let mut store = UrlShortener::new();
    let (_, code) = handle_shorten(&mut store, "malformed body");
    assert_eq!(store.resolve(&code), Some(&String::new()));
}
