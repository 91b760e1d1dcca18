use rescope::request_log::{
    buffer_prefix, build_line, classify, format_body, format_text, is_textual, log_request,
    logs_at_debug, BodyLogConfig, BodyPrefix, Capture, Captured, Category, LogSeen, LogStep,
    ReadOutcome, Replay, RequestHead, ResponseHead,
};

// ── Classification ───────────────────────────────────────────────

#[test]
fn classify_api_prefixes() {
    assert_eq!(classify("/v1/auth/password/signin"), Category::Api);
    assert_eq!(classify("/v1/mgmt/user/create"), Category::Api);
    assert_eq!(classify("/v2/keys/emulator-project"), Category::Api);
    assert_eq!(classify("/.well-known/jwks.json"), Category::Api);
    assert_eq!(classify("/oauth/authorize"), Category::Api);
}

#[test]
fn classify_emulator_and_health() {
    assert_eq!(classify("/emulator/reset"), Category::Emu);
    assert_eq!(classify("/emulator/otp/user@example.com"), Category::Emu);
    assert_eq!(classify("/health"), Category::Emu);
}

#[test]
fn classify_docs() {
    assert_eq!(classify("/docs"), Category::Docs);
    assert_eq!(classify("/openapi.json"), Category::Docs);
}

#[test]
fn classify_everything_else_is_ui() {
    assert_eq!(classify("/"), Category::Ui);
    assert_eq!(classify("/assets/index-Bx2.js"), Category::Ui);
    assert_eq!(classify("/users"), Category::Ui);
    // No trailing slash: served by the SPA fallback, so UI is correct.
    assert_eq!(classify("/v1"), Category::Ui);
}

#[test]
fn debug_level_for_ui_docs_and_health() {
    assert!(logs_at_debug(Category::Ui, "/assets/app.js"));
    assert!(logs_at_debug(Category::Docs, "/docs"));
    assert!(logs_at_debug(Category::Emu, "/health"));
    assert!(!logs_at_debug(Category::Emu, "/emulator/reset"));
    assert!(!logs_at_debug(Category::Api, "/v1/auth/otp/verify/email"));
}

// ── Content-type gate ────────────────────────────────────────────

#[test]
fn textual_content_types_pass_gate() {
    assert!(is_textual(Some("application/json")));
    assert!(is_textual(Some("application/json; charset=utf-8")));
    assert!(is_textual(Some("application/x-www-form-urlencoded")));
    assert!(is_textual(Some("text/plain")));
    assert!(is_textual(Some("text/html; charset=utf-8")));
    assert!(is_textual(Some("application/problem+json")));
}

#[test]
fn binary_and_missing_content_types_fail_gate() {
    assert!(!is_textual(Some("application/octet-stream")));
    assert!(!is_textual(Some("multipart/form-data; boundary=x")));
    assert!(!is_textual(Some("image/png")));
    assert!(!is_textual(None));
}

#[test]
fn gate_ignores_case_and_space() {
    assert!(is_textual(Some(" Application/JSON ;x=y")));
    assert!(is_textual(Some("TEXT/")));
    assert!(!is_textual(Some("")));
    assert!(!is_textual(Some("application/json2")));
}

// ── Body formatting ──────────────────────────────────────────────

#[test]
fn multiline_body_collapses_to_one_line() {
    let pretty = "{\n  \"a\": 1,\n  \"b\": 2\n}\n";
    let line = format_body(pretty.as_bytes(), 256, false);
    assert!(!line.contains('\n'));
    assert_eq!(line, "{ \"a\": 1, \"b\": 2 }");
}

#[test]
fn long_body_truncates_with_marker() {
    let body = "x".repeat(1000);
    let line = format_body(body.as_bytes(), 256, false);
    assert!(line.ends_with('…'));
    assert_eq!(line.trim_end_matches('…').len(), 256);
}

#[test]
fn exact_cap_body_is_not_marked_truncated() {
    let body = "x".repeat(256);
    let line = format_body(body.as_bytes(), 256, false);
    assert!(!line.ends_with('…'));
    assert_eq!(line.len(), 256);
}

#[test]
fn source_truncation_forces_marker() {
    let line = format_body(b"short", 256, true);
    assert_eq!(line, "short…");
}

#[test]
fn truncation_respects_char_boundaries() {
    // 'é' is 2 bytes; a cap landing mid-char must back off, not panic.
    let body = "é".repeat(200);
    let line = format_body(body.as_bytes(), 255, false);
    assert!(line.ends_with('…'));
    assert!(line.trim_end_matches('…').len() <= 255);
}

#[test]
fn malformed_bytes_are_replaced() {
    assert_eq!(format_body(b"a\xffb", 256, false), "a\u{fffd}b");
    // A character that the source cut in two is replaced, and then cut again.
    assert_eq!(format_body(b"ab\xc3", 3, true), "ab…");
}

#[test]
fn unicode_white_space_is_squashed_and_trimmed() {
    assert_eq!(format_text("\u{3000}a \t\r\n\u{2028}b\u{a0}", 256, false), "a b");
    assert_eq!(format_text(" \n ", 256, false), "");
    assert_eq!(format_text("abc", 2, false), "ab…");
    assert_eq!(format_text("a\u{20ac}", 3, false), "a…");
    assert_eq!(format_text("a\u{20ac}", 4, false), "a\u{20ac}");
}

#[test]
fn line_is_the_words_with_single_spaces() {
    for body in ["", " a", "a b", "\t a\n\nb  c\u{2003}\u{e9} ", "{\n  \"a\": 1\n}", "\u{85}\u{85}"] {
        let words = body.split_whitespace().collect::<Vec<_>>().join(" ");
        let line = format_text(body, 3 * body.len(), false);
        assert_eq!(line, words);
        assert_eq!(format_text(&line, 3 * body.len(), false), line);
    }
}

#[test]
fn any_cap_cuts_the_full_line() {
    for body in ["", "abc", " a\n\u{20ac} \u{e9}\u{1f600}x "] {
        let full = format_text(body, usize::MAX, false);
        for cap in 0..20 {
            for source_truncated in [false, true] {
                let mut end = cap.min(full.len());
                while !full.is_char_boundary(end) {
                    end -= 1;
                }
                let marked = source_truncated || full.len() > cap;
                let expected = format!("{}{}", &full[..end], if marked { "…" } else { "" });
                assert_eq!(format_text(body, cap, source_truncated), expected);
            }
        }
    }
}

#[test]
fn line_is_assembled_in_order() {
    assert_eq!(
        build_line(Category::Api, "POST", "/v1/x?y=z", 401, 2, Some("{}"), Some("no")),
        "[API] POST /v1/x?y=z 401 2ms body={} resp=no"
    );
    assert_eq!(
        build_line(Category::Ui, "GET", "/assets/index-Bx2.js", 200, 0, None, None),
        "[UI] GET /assets/index-Bx2.js 200 0ms"
    );
    assert_eq!(
        build_line(Category::Docs, "GET", "/docs", 200, 1234567890123, None, Some("r")),
        "[DOCS] GET /docs 200 1234567890123ms resp=r"
    );
}

// ── Config ───────────────────────────────────────────────────────

#[test]
fn config_defaults() {
    let cfg = BodyLogConfig::from_vars(None, None);
    assert_eq!(
        cfg,
        BodyLogConfig {
            enabled: true,
            max: 256
        }
    );
}

#[test]
fn config_disable_and_custom_cap() {
    let cfg = BodyLogConfig::from_vars(Some("0"), Some("1024"));
    assert_eq!(
        cfg,
        BodyLogConfig {
            enabled: false,
            max: 1024
        }
    );
    let cfg = BodyLogConfig::from_vars(Some("1"), Some("garbage"));
    assert_eq!(
        cfg,
        BodyLogConfig {
            enabled: true,
            max: 256
        }
    );
    let cfg = BodyLogConfig::from_vars(None, Some("0"));
    assert_eq!(cfg.max, 256);
}

#[test]
fn config_reads_numbers_as_rust_does() {
    for setting in ["+7", "007", "", "+", "-1", " 5", "5 ", "1_000", "18446744073709551615", "99999999999999999999"] {
        let expected = setting.parse::<usize>().ok().filter(|&n| n > 0).unwrap_or(256);
        assert_eq!(BodyLogConfig::from_vars(None, Some(setting)).max, expected, "{setting}");
    }
    assert_eq!(BodyLogConfig::default(), BodyLogConfig::from_vars(None, None));
}

// ── Bounded body capture ─────────────────────────────────────────

fn capture(chunks: &[Vec<u8>], cap: usize) -> (Captured, usize) {
    let mut capture = Capture::new(cap);
    let mut read = 0;
    let outcome = loop {
        if !capture.wants_more() {
            break ReadOutcome::HasMore;
        }
        if read == chunks.len() {
            break ReadOutcome::Complete;
        }
        capture.push(chunks[read].clone());
        read += 1;
    };
    (buffer_prefix(capture, outcome), read)
}

fn replayed(captured: &Captured, rest: &[Vec<u8>]) -> Vec<u8> {
    match &captured.replay {
        Replay::Whole(bytes) => bytes.clone(),
        Replay::ThenRest(chunks) => [chunks.concat(), rest.concat()].concat(),
        Replay::ThenError(chunks) => chunks.concat(),
    }
}

#[test]
fn small_body_roundtrips_completely() {
    let original = b"{\"loginId\":\"x@y.com\"}".to_vec();
    let (captured, read) = capture(&[original.clone()], 256);
    assert!(!captured.truncated);
    assert_eq!(&captured.prefix[..], &original[..]);
    assert_eq!(read, 1);
    assert_eq!(replayed(&captured, &[]), original);
}

#[test]
fn oversized_multichunk_body_is_replayed_byte_identical() {
    let chunks: Vec<Vec<u8>> = vec![
        "a".repeat(200).into_bytes(),
        "b".repeat(200).into_bytes(),
        "c".repeat(200).into_bytes(),
    ];
    let original: Vec<u8> = chunks.concat();
    let (captured, read) = capture(&chunks, 256);
    assert!(captured.truncated);
    assert_eq!(captured.prefix.len(), 256);
    assert_eq!(read, 2);
    assert_eq!(replayed(&captured, &chunks[read..]), original);
    assert_eq!(&captured.prefix[..], &original[..256]);
}

#[test]
fn body_of_exactly_the_cap_is_not_truncated() {
    let (captured, read) = capture(&[b"abcd".to_vec(), b"".to_vec()], 4);
    assert!(!captured.truncated);
    assert_eq!(captured.prefix, b"abcd".to_vec());
    assert_eq!(read, 2);
    assert!(matches!(captured.replay, Replay::Whole(_)));
}

#[test]
fn a_failed_read_is_replayed_up_to_the_error() {
    let mut failing = Capture::new(8);
    failing.push(b"abc".to_vec());
    let captured = buffer_prefix(failing, ReadOutcome::Errored);
    assert!(!captured.truncated);
    assert_eq!(captured.prefix, b"abc".to_vec());
    match captured.replay {
        Replay::ThenError(chunks) => assert_eq!(chunks, vec![b"abc".to_vec()]),
        other => panic!("{other:?}"),
    }
}

// ── Behavior of the whole ────────────────────────────────────────

fn head(method: &str, path: &str, query: &str, content_type: Option<&str>) -> RequestHead {
    RequestHead {
        method: method.to_string(),
        path: path.to_string(),
        path_and_query: Some(format!("{path}{query}")),
        content_type: content_type.map(|t| t.to_string()),
    }
}

struct Exchange<'a> {
    request: &'a [u8],
    status: u16,
    content_type: Option<&'a str>,
    response: &'a [u8],
}

/// Drives the logging of one exchange: the lines that came out, what the handler was given, and
/// which bodies were read.
fn drive(cfg: BodyLogConfig, req: &RequestHead, x: &Exchange) -> (Vec<(bool, String)>, Vec<u8>, Vec<u8>) {
    let mut seen = LogSeen { request_body: None, response: None, response_body: None, logged: false };
    let mut given = x.request.to_vec();
    let mut sent = x.response.to_vec();
    let mut lines = Vec::new();
    loop {
        match log_request(cfg, req, &seen) {
            LogStep::CaptureRequest { cap } => {
                let chunks: Vec<Vec<u8>> = x.request.chunks(100).map(|c| c.to_vec()).collect();
                let (captured, read) = capture(&chunks, cap);
                given = replayed(&captured, &chunks[read..]);
                seen.request_body =
                    Some(BodyPrefix { prefix: captured.prefix, truncated: captured.truncated });
            }
            LogStep::RunInner => {
                seen.response = Some(ResponseHead {
                    status: x.status,
                    content_type: x.content_type.map(|t| t.to_string()),
                    latency_ms: 5,
                });
            }
            LogStep::CaptureResponse { cap } => {
                let chunks: Vec<Vec<u8>> = x.response.chunks(100).map(|c| c.to_vec()).collect();
                let (captured, read) = capture(&chunks, cap);
                sent = replayed(&captured, &chunks[read..]);
                seen.response_body =
                    Some(BodyPrefix { prefix: captured.prefix, truncated: captured.truncated });
            }
            LogStep::Emit { target, debug, line } => {
                assert_eq!(target, "rescope::http");
                assert!(seen.response.is_some());
                lines.push((debug, line));
                seen.logged = true;
            }
            LogStep::Finish => return (lines, given, sent),
        }
    }
}

#[test]
fn json_request_reaches_handler_intact() {
    let payload = b"{\"code\":\"123456\",\"loginId\":\"x@y.com\"}";
    let req = head("POST", "/v1/echo", "", Some("application/json"));
    let x = Exchange { request: payload, status: 200, content_type: Some("text/plain"), response: payload };
    let (_, given, sent) = drive(BodyLogConfig::default(), &req, &x);
    assert_eq!(given, payload.to_vec());
    assert_eq!(sent, payload.to_vec());
}

#[test]
fn over_cap_request_matches_no_logging_baseline() {
    let big = "x".repeat(10_000).into_bytes();
    let req = head("POST", "/v1/echo", "", Some("text/plain"));
    let x = Exchange { request: &big, status: 200, content_type: Some("text/plain"), response: &big };
    let (lines, given, sent) = drive(BodyLogConfig::default(), &req, &x);
    assert_eq!(given, big);
    assert_eq!(sent, big);
    assert_eq!(lines[0].1, format!("[API] POST /v1/echo 200 5ms body={}…", "x".repeat(256)));
}

#[test]
fn response_body_logged_only_for_errors() {
    let fail = head("POST", "/v1/fail", "", None);
    let x = Exchange {
        request: b"",
        status: 400,
        content_type: Some("application/json"),
        response: b"{\"errorCode\":\"E000001\"}",
    };
    let (lines, _, sent) = drive(BodyLogConfig::default(), &fail, &x);
    assert_eq!(lines.len(), 1);
    assert!(lines[0].1.contains("[API] POST /v1/fail 400"));
    assert!(lines[0].1.contains("resp={\"errorCode\":\"E000001\"}"));
    assert_eq!(sent, x.response.to_vec());

    let ok = head("POST", "/v1/ok", "", None);
    let x = Exchange {
        request: b"",
        status: 200,
        content_type: Some("application/json"),
        response: b"{\"ok\":true}",
    };
    let (lines, _, _) = drive(BodyLogConfig::default(), &ok, &x);
    assert!(!lines[0].1.contains("resp="));
}

#[test]
fn disabled_body_logging_omits_body_and_resp() {
    let cfg = BodyLogConfig { enabled: false, max: 256 };
    let req = head("POST", "/v1/fail", "", Some("application/json"));
    let x = Exchange {
        request: b"{\"loginId\":\"x@y.com\"}",
        status: 400,
        content_type: Some("application/json"),
        response: b"{\"errorCode\":\"E000001\"}",
    };
    let (lines, _, _) = drive(cfg, &req, &x);
    assert!(lines[0].1.contains("[API] POST /v1/fail 400"));
    assert!(!lines[0].1.contains("body="));
    assert!(!lines[0].1.contains("resp="));
}

#[test]
fn query_string_appears_in_log_line() {
    let req = head("GET", "/emulator/otp/user@example.com", "?channel=sms", None);
    let x = Exchange { request: b"", status: 200, content_type: Some("text/plain"), response: b"ok" };
    let (lines, _, _) = drive(BodyLogConfig::default(), &req, &x);
    assert!(lines[0].1.contains("[EMU] GET /emulator/otp/user@example.com?channel=sms 200"));
    assert!(!lines[0].0);
}

#[test]
fn authorization_header_never_appears_in_logs() {
    let mut headers = axum::http::HeaderMap::new();
    headers.insert("Authorization", "Bearer emulator-project:emulator-key".parse().unwrap());
    headers.insert("Content-Type", "application/json".parse().unwrap());
    let req = RequestHead {
        method: "POST".to_string(),
        path: "/v1/echo".to_string(),
        path_and_query: Some("/v1/echo".to_string()),
        content_type: rescope::headers::content_type(&headers),
    };
    let body = b"{\"loginId\":\"x@y.com\"}";
    let x = Exchange { request: body, status: 200, content_type: Some("text/plain"), response: body };
    let (lines, _, _) = drive(BodyLogConfig::default(), &req, &x);
    assert_eq!(lines.len(), 1);
    assert!(lines[0].1.contains("[API] POST /v1/echo 200"));
    assert!(lines[0].1.contains("body={\"loginId\":\"x@y.com\"}"));
    assert!(!lines[0].1.contains("emulator-key"));
    assert!(!lines[0].1.contains("Authorization"));
}

#[test]
fn ui_bodies_and_binary_bodies_are_not_read() {
    let ui = head("POST", "/upload", "", Some("text/plain"));
    let x = Exchange { request: b"abc", status: 200, content_type: None, response: b"" };
    assert_eq!(
        drive(BodyLogConfig::default(), &ui, &x).0,
        vec![(true, "[UI] POST /upload 200 5ms".to_string())]
    );
    let binary = head("POST", "/v1/upload", "", Some("application/octet-stream"));
    let x = Exchange { request: b"abc", status: 500, content_type: Some("image/png"), response: b"x" };
    assert_eq!(
        drive(BodyLogConfig::default(), &binary, &x).0,
        vec![(false, "[API] POST /v1/upload 500 5ms".to_string())]
    );
}

#[test]
fn empty_bodies_and_missing_queries_are_left_out() {
    let req = RequestHead {
        method: "OPTIONS".to_string(),
        path: "/health".to_string(),
        path_and_query: None,
        content_type: Some("application/json".to_string()),
    };
    let x = Exchange { request: b"", status: 404, content_type: Some("text/plain"), response: b"" };
    assert_eq!(
        drive(BodyLogConfig::default(), &req, &x).0,
        vec![(true, "[EMU] OPTIONS /health 404 5ms".to_string())]
    );
}

#[test]
fn custom_cap_is_honored() {
    let cfg = BodyLogConfig::from_vars(None, Some("1024"));
    let body = "y".repeat(600).into_bytes();
    let req = head("POST", "/v1/echo", "", Some("application/json"));
    let x = Exchange { request: &body, status: 200, content_type: None, response: b"" };
    let (lines, _, _) = drive(cfg, &req, &x);
    assert_eq!(lines[0].1, format!("[API] POST /v1/echo 200 5ms body={}", "y".repeat(600)));
}
