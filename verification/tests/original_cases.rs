use browsertools::console::{format_console_message, format_console_messages};
use browsertools::issue::{categorize_issue, format_issue, ContrastText};
use browsertools::json::{JsonNumber, JsonValue};
use browsertools::keyboard::parse_key_combination;
use browsertools::network::{
    format_network_request, format_network_request_detail, format_network_requests, RequestFigures,
};
use browsertools::pagination::paginate;

fn s(x: &str) -> JsonValue {
    JsonValue::String(x.to_string())
}

fn n(x: u64) -> JsonValue {
    JsonValue::Number(JsonNumber::PosInt(x))
}

fn f(text: &str) -> JsonValue {
    JsonValue::Number(JsonNumber::Float(text.to_string()))
}

fn obj(members: Vec<(&str, JsonValue)>) -> JsonValue {
    JsonValue::Object(members.into_iter().map(|(k, v)| (k.to_string(), v)).collect())
}

fn no_contrast() -> ContrastText {
    ContrastText { ratio: "0.00".to_string(), threshold: "0.00".to_string() }
}

fn figures(size: Option<&str>, duration: Option<&str>) -> RequestFigures {
    RequestFigures {
        size: size.map(|x| x.to_string()),
        duration: duration.map(|x| x.to_string()),
        timing_lines: Vec::new(),
    }
}

#[test]
fn test_simple_key() {
    let (key, mods) = parse_key_combination("Enter");
    assert_eq!(key, "Enter");
    assert_eq!(mods, 0);
}

#[test]
fn test_ctrl_key() {
    let (key, mods) = parse_key_combination("Control+a");
    assert_eq!(key, "a");
    assert_eq!(mods, 2);
}

#[test]
fn test_multi_modifier() {
    let (key, mods) = parse_key_combination("Control+Shift+Delete");
    assert_eq!(key, "Delete");
    assert_eq!(mods, 10);
}

#[test]
fn test_pagination() {
    let items: Vec<i32> = (1..=25).collect();
    let (page, info) = paginate(&items, 1, 10);
    assert_eq!(page, &[1, 2, 3, 4, 5, 6, 7, 8, 9, 10]);
    assert!(info.has_next);
    assert!(!info.has_previous);
    assert_eq!(info.total_pages, 3);
}

#[test]
fn test_last_page() {
    let items: Vec<i32> = (1..=25).collect();
    let (page, info) = paginate(&items, 3, 10);
    assert_eq!(page, &[21, 22, 23, 24, 25]);
    assert!(!info.has_next);
    assert!(info.has_previous);
}

#[test]
fn test_categorize() {
    assert_eq!(categorize_issue("MixedContentBlocked"), "Security");
    assert_eq!(categorize_issue("SameSiteCookieWarning"), "Cookie");
    assert_eq!(categorize_issue("BlockedByResponseCORP"), "CORS");
    assert_eq!(categorize_issue("LowTextContrast"), "Accessibility");
    assert_eq!(categorize_issue("DeprecationIssue"), "Deprecation");
}

#[test]
fn test_format_mixed_content_issue() {
    let issue = obj(vec![
        ("code", s("MixedContentIssue")),
        ("severity", s("Warning")),
        (
            "details",
            obj(vec![(
                "mixedContentIssueDetails",
                obj(vec![
                    ("resolutionStatus", s("MixedContentBlocked")),
                    ("resourceType", s("image")),
                    ("insecureURL", s("http://example.com/image.png")),
                ]),
            )]),
        ),
    ]);
    let out = format_issue(&issue, &no_contrast());
    assert!(out.contains("[Warning]"));
    assert!(out.contains("Mixed Content"));
    assert!(out.contains("http://example.com/image.png"));
    assert!(out.contains("Category: Security"));
}

#[test]
fn test_format_unknown_issue() {
    let issue = obj(vec![("code", s("SomeNewIssue")), ("severity", s("Info"))]);
    let out = format_issue(&issue, &no_contrast());
    assert!(out.contains("[Info]"));
    assert!(out.contains("Some New Issue"));
}

#[test]
fn test_format_simple_log() {
    let msg = obj(vec![
        ("type", s("log")),
        ("args", JsonValue::Array(vec![obj(vec![("type", s("string")), ("value", s("Hello world"))])])),
    ]);
    let out = format_console_message(&msg, 0);
    assert!(out.contains("[log]"));
    assert!(out.contains("Hello world"));
}

#[test]
fn test_format_error_with_stack() {
    let frame = |func: &str, line: u64, col: u64| {
        obj(vec![
            ("functionName", s(func)),
            ("url", s("https://example.com/app.js")),
            ("lineNumber", n(line)),
            ("columnNumber", n(col)),
        ])
    };
    let msg = obj(vec![
        ("type", s("error")),
        ("args", JsonValue::Array(vec![obj(vec![("type", s("string")), ("value", s("Uncaught TypeError"))])])),
        (
            "stackTrace",
            obj(vec![("callFrames", JsonValue::Array(vec![frame("foo", 12, 5), frame("bar", 24, 10)]))]),
        ),
    ]);
    let out = format_console_message(&msg, 3);
    assert!(out.contains("[3] [error] Uncaught TypeError"));
    assert!(out.contains("at foo (app.js:12:5)"));
    assert!(out.contains("at bar (app.js:24:10)"));
}

#[test]
fn test_format_multiple_args() {
    let msg = obj(vec![
        ("type", s("log")),
        (
            "args",
            JsonValue::Array(vec![
                obj(vec![("type", s("string")), ("value", s("count:"))]),
                obj(vec![("type", s("number")), ("value", n(42))]),
            ]),
        ),
    ]);
    let out = format_console_message(&msg, 0);
    assert!(out.contains("count: 42"));
}

#[test]
fn test_format_pagination() {
    let messages: Vec<JsonValue> = (0..5)
        .map(|i| {
            obj(vec![
                ("type", s("log")),
                ("args", JsonValue::Array(vec![obj(vec![("type", s("string")), ("value", s(&format!("msg {i}")))])])),
            ])
        })
        .collect();
    let out = format_console_messages(&messages, 1, 3);
    assert!(out.contains("Page 1/2"));
    assert!(out.contains("msg 0"));
    assert!(out.contains("msg 2"));
    assert!(!out.contains("msg 3"));
}

#[test]
fn test_format_request_summary() {
    let req = obj(vec![
        ("duration", f("150.0")),
        ("encodedDataLength", f("1234.0")),
        ("method", s("GET")),
        ("mimeType", s("application/json")),
        ("status", n(200)),
        ("url", s("https://example.com/api/data")),
    ]);
    // Sizes and durations are rendered by the caller: 1234 bytes and 150 ms.
    let out = format_network_request(&req, 1, &figures(Some("1.2KB"), Some("150ms")));
    assert!(out.contains("[1] GET https://example.com/api/data -> 200"));
    assert!(out.contains("application/json"));
    assert!(out.contains("1.2KB"));
    assert!(out.contains("150ms"));
}

#[test]
fn test_format_pending_request() {
    let req = obj(vec![("method", s("POST")), ("url", s("https://example.com/submit"))]);
    let out = format_network_request(&req, 0, &figures(None, None));
    assert!(out.contains("POST"));
    assert!(out.contains("pending"));
}

#[test]
fn test_filter_by_url() {
    let requests = vec![
        obj(vec![("method", s("GET")), ("status", n(200)), ("url", s("https://example.com/api"))]),
        obj(vec![("method", s("GET")), ("status", n(200)), ("url", s("https://example.com/style.css"))]),
        obj(vec![("method", s("GET")), ("status", n(200)), ("url", s("https://cdn.example.com/api/v2"))]),
    ];
    let figs: Vec<RequestFigures> = (0..3).map(|_| figures(None, None)).collect();
    let out = format_network_requests(&requests, Some("api"), None, 1, 25, &figs);
    assert!(out.contains("example.com/api"));
    assert!(!out.contains("style.css"));
}

#[test]
fn test_format_detail() {
    let req = obj(vec![
        ("body", s("{\"key\": \"value\"}")),
        ("encodedDataLength", f("2048.0")),
        ("method", s("GET")),
        ("mimeType", s("application/json")),
        ("requestHeaders", obj(vec![("Accept", s("application/json"))])),
        ("resourceType", s("Fetch")),
        ("responseHeaders", obj(vec![("Content-Type", s("application/json"))])),
        ("status", n(200)),
        ("statusText", s("OK")),
        ("url", s("https://example.com/api")),
    ]);
    let out = format_network_request_detail(&req, &figures(Some("2.0KB"), None));
    assert!(out.contains("## GET https://example.com/api"));
    assert!(out.contains("**Status:** 200 OK"));
    assert!(out.contains("Request Headers"));
    assert!(out.contains("Response Headers"));
    assert!(out.contains("Body Preview"));
}
