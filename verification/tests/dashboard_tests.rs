use polymarket_mm_bot::dashboard::{decimal, http_response, is_whitespace, request_path, Route};

#[test]
fn path_of_plain_get() {
    assert_eq!(request_path("GET /state HTTP/1.1\r\nHost: x\r\n\r\n"), "/state");
}

#[test]
fn path_drops_query() {
    assert_eq!(request_path("GET /app.js?v=3 HTTP/1.1"), "/app.js");
    assert_eq!(request_path("GET ?x=1 HTTP/1.1"), "");
}

#[test]
fn path_defaults_to_root() {
    assert_eq!(request_path(""), "/");
    assert_eq!(request_path("GET"), "/");
    assert_eq!(request_path("   GET   "), "/");
}

#[test]
fn path_skips_runs_of_whitespace() {
    assert_eq!(request_path("  GET \t\r\n /style.css  HTTP/1.1"), "/style.css");
    assert_eq!(request_path("GET\u{3000}/index.html\u{a0}HTTP/1.1"), "/index.html");
}

#[test]
fn whitespace_matches_std() {
    for u in 0u32..0x3100 {
        if let Some(c) = char::from_u32(u) {
            assert_eq!(is_whitespace(c), c.is_whitespace(), "code point {u:#x}");
        }
    }
    assert!(!is_whitespace('\u{FFFD}'));
}

#[test]
fn routes_of_served_pages() {
    assert_eq!(Route::from_path("/"), Route::Index);
    assert_eq!(Route::from_path("/index.html"), Route::Index);
    assert_eq!(Route::from_path("/style.css"), Route::Stylesheet);
    assert_eq!(Route::from_path("/app.js"), Route::Script);
    assert_eq!(Route::from_path("/state"), Route::State);
    assert_eq!(Route::from_path("/State"), Route::NotFound);
    assert_eq!(Route::from_path(""), Route::NotFound);
    assert_eq!(Route::from_path("/favicon.ico"), Route::NotFound);
}

#[test]
fn content_types_and_status() {
    assert_eq!(Route::Index.content_type(), "text/html; charset=utf-8");
    assert_eq!(Route::Stylesheet.content_type(), "text/css; charset=utf-8");
    assert_eq!(Route::Script.content_type(), "application/javascript; charset=utf-8");
    assert_eq!(Route::State.content_type(), "application/json");
    assert_eq!(Route::NotFound.content_type(), "text/plain");
    assert_eq!(Route::State.status(), "200 OK");
    assert_eq!(Route::NotFound.status(), "404 Not Found");
}

#[test]
fn decimal_matches_to_string() {
    for n in [0usize, 7, 10, 42, 100, 1024, 99999, usize::MAX] {
        assert_eq!(decimal(n), n.to_string());
    }
}

#[test]
fn response_matches_format() {
    let body = "not found";
    let expected = format!(
        "HTTP/1.1 404 Not Found\r\nContent-Type: text/plain\r\nContent-Length: {}\r\nAccess-Control-Allow-Origin: *\r\nConnection: close\r\n\r\n{body}",
        body.len()
    );
    assert_eq!(http_response(Route::NotFound, body), expected);
}

#[test]
fn response_length_counts_bytes() {
    let body = "{\"sigma\":\"σ\"}";
    let resp = http_response(Route::State, body);
    assert!(resp.starts_with("HTTP/1.1 200 OK\r\nContent-Type: application/json\r\nContent-Length: 14\r\n"));
    assert!(resp.ends_with("\r\n\r\n{\"sigma\":\"σ\"}"));
}

#[test]
fn not_found_has_fixed_body() {
    assert_eq!(Route::NotFound.fixed_body(), Some("not found"));
    for r in [Route::Index, Route::Stylesheet, Route::Script, Route::State] {
        assert_eq!(r.fixed_body(), None);
    }
    let route = Route::from_path(request_path("GET /missing HTTP/1.1"));
    let body = route.fixed_body().unwrap();
    assert_eq!(
        http_response(route, body),
        "HTTP/1.1 404 Not Found\r\nContent-Type: text/plain\r\nContent-Length: 9\r\nAccess-Control-Allow-Origin: *\r\nConnection: close\r\n\r\nnot found"
    );
}
