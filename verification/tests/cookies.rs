use axum::http::header::SET_COOKIE;
use rescope::cookies::build_auth_cookies;
use rescope::headers::{content_type, is_header_safe};

#[test]
fn builds_ds_and_dsr_cookies() {
    let headers = build_auth_cookies("session.tok", "refresh.tok", 3600);
    let cookies: Vec<&str> =
        headers.get_all(SET_COOKIE).into_iter().map(|v| v.to_str().unwrap()).collect();
    assert_eq!(cookies.len(), 2);
    assert!(cookies.iter().any(|c| c.starts_with("DS=")));
    assert!(cookies.iter().any(|c| c.starts_with("DSR=")));
}

#[test]
fn ds_cookie_is_js_readable_and_cross_origin() {
    let headers = build_auth_cookies("s", "r", 3600);
    let ds = headers
        .get_all(SET_COOKIE)
        .into_iter()
        .map(|v| v.to_str().unwrap().to_string())
        .find(|c| c.starts_with("DS="))
        .unwrap();
    // DS must NOT be HttpOnly: the web SDK reads the session token from
    // document.cookie (getSessionToken), exactly as it does against cloud.
    assert!(!ds.contains("HttpOnly"));
    assert!(ds.contains("SameSite=None"));
    assert!(ds.contains("Secure"));
    assert!(ds.contains("Path=/"));
}

#[test]
fn dsr_cookie_is_cross_origin_capable() {
    let headers = build_auth_cookies("s", "r", 3600);
    let dsr = headers
        .get_all(SET_COOKIE)
        .into_iter()
        .map(|v| v.to_str().unwrap().to_string())
        .find(|c| c.starts_with("DSR="))
        .unwrap();
    assert!(dsr.contains("HttpOnly"));
    assert!(dsr.contains("SameSite=None"));
    assert!(dsr.contains("Secure"));
}

#[test]
fn cookies_are_exactly_these() {
    let headers = build_auth_cookies("a.b.c", "d.e.f", 3600);
    let cookies: Vec<&str> =
        headers.get_all(SET_COOKIE).into_iter().map(|v| v.to_str().unwrap()).collect();
    assert_eq!(
        cookies,
        vec![
            "DS=a.b.c; SameSite=None; Secure; Path=/; Max-Age=3600",
            "DSR=d.e.f; HttpOnly; SameSite=None; Secure; Path=/",
        ]
    );
    assert_eq!(headers.len(), 2);
}

#[test]
fn header_values_are_told_from_other_texts() {
    assert!(is_header_safe("aaa.bbb-ccc_ddd"));
    assert!(is_header_safe("tab\tand space"));
    assert!(is_header_safe("\u{e9}"));
    assert!(!is_header_safe("line\nbreak"));
    assert!(!is_header_safe("\u{7f}"));
    for text in ["plain", "tab\t", "nul\u{0}", "\u{e9}", "\u{7f}", "\r"] {
        assert_eq!(is_header_safe(text), axum::http::HeaderValue::from_str(text).is_ok());
    }
}

#[test]
fn content_type_is_read_from_the_headers() {
    let mut headers = axum::http::HeaderMap::new();
    assert_eq!(content_type(&headers), None);
    headers.insert("Content-Type", "text/plain".parse().unwrap());
    assert_eq!(content_type(&headers), Some("text/plain".to_string()));
    headers.insert("content-type", axum::http::HeaderValue::from_bytes(b"\xff").unwrap());
    assert_eq!(content_type(&headers), None);
}
