use browsertools::console::{extract_message_text, format_console_message, format_console_messages, shorten_url};
use browsertools::issue::{
    contrast_figures, describe_issue, extract_issue_details, extract_severity, format_issues,
    get_details_object, humanize_code, ContrastText, IssueSeverity,
};
use browsertools::json::{JsonNumber, JsonValue};
use browsertools::json_write::to_json_text;
use browsertools::network::{
    format_network_request, format_network_request_detail, format_network_requests, request_passes,
    RequestFigures,
};
use browsertools::pagination::paginate;

fn s(x: &str) -> JsonValue {
    JsonValue::String(x.to_string())
}

fn n(x: u64) -> JsonValue {
    JsonValue::Number(JsonNumber::PosInt(x))
}

fn obj(members: Vec<(&str, JsonValue)>) -> JsonValue {
    JsonValue::Object(members.into_iter().map(|(k, v)| (k.to_string(), v)).collect())
}

fn contrast(r: &str, t: &str) -> ContrastText {
    ContrastText { ratio: r.to_string(), threshold: t.to_string() }
}

fn no_figures() -> RequestFigures {
    RequestFigures { size: None, duration: None, timing_lines: Vec::new() }
}

#[test]
fn json_text_is_compact_and_escaped() {
    let v = obj(vec![
        ("a", JsonValue::Array(vec![n(1), JsonValue::Number(JsonNumber::NegInt(-2)), s("x\"y\n\u{1}\\")])),
        ("b", JsonValue::Null),
        ("c", JsonValue::Bool(true)),
        ("d", JsonValue::Number(JsonNumber::Float("1.5".to_string()))),
        ("e", obj(vec![])),
    ]);
    assert_eq!(
        to_json_text(&v),
        "{\"a\":[1,-2,\"x\\\"y\\n\\u0001\\\\\"],\"b\":null,\"c\":true,\"d\":1.5,\"e\":{}}"
    );
    assert_eq!(to_json_text(&s("\u{8}\u{c}\t\r\u{1f}é")), "\"\\b\\f\\t\\r\\u001fé\"");
}

#[test]
fn shorten_url_keeps_last_segment() {
    assert_eq!(shorten_url("https://example.com/js/app.js"), "app.js");
    assert_eq!(shorten_url("app.js"), "app.js");
    assert_eq!(shorten_url("https://example.com/"), "");
    assert_eq!(shorten_url(""), "");
}

#[test]
fn message_text_prefers_value_then_description() {
    let msg = obj(vec![(
        "args",
        JsonValue::Array(vec![
            obj(vec![("type", s("object")), ("description", s("Object"))]),
            obj(vec![("type", s("number")), ("unserializableValue", s("NaN"))]),
            obj(vec![("type", s("undefined"))]),
            obj(vec![]),
            obj(vec![("value", obj(vec![("k", JsonValue::Bool(false))]))]),
        ]),
    )]);
    assert_eq!(extract_message_text(&msg), "Object NaN undefined undefined {\"k\":false}");
}

#[test]
fn message_text_falls_back_to_text_field() {
    let msg = obj(vec![("args", JsonValue::Array(vec![])), ("text", s("plain"))]);
    assert_eq!(extract_message_text(&msg), "plain");
    assert_eq!(extract_message_text(&obj(vec![])), "");
}

#[test]
fn console_message_with_location_and_unknown_frames() {
    let msg = obj(vec![
        ("text", s("boom")),
        ("url", s("https://x.test/a.js")),
        ("lineNumber", n(7)),
        (
            "stackTrace",
            obj(vec![("callFrames", JsonValue::Array(vec![obj(vec![("lineNumber", n(1))])]))]),
        ),
    ]);
    assert_eq!(
        format_console_message(&msg, 2),
        "[2] [log] boom\n  at (https://x.test/a.js:7:0)\n  at <anonymous> (<unknown>:1:0)"
    );
}

#[test]
fn console_pages_number_messages_from_page_start() {
    let messages: Vec<JsonValue> = (0..5).map(|i| obj(vec![("text", s(&format!("m{i}")))])).collect();
    let out = format_console_messages(&messages, 2, 2);
    assert_eq!(out, "Page 2/3 (5 items total)\n\n[2] [log] m2\n[3] [log] m3\n");
    assert_eq!(format_console_messages(&[], 1, 25), "No console messages.");
}

#[test]
fn pagination_edges() {
    let empty: Vec<u8> = Vec::new();
    let (page, info) = paginate(&empty, 1, 10);
    assert!(page.is_empty());
    assert_eq!(info.total_pages, 1);
    assert!(!info.has_next);
    let items: Vec<u8> = (0..7).collect();
    let (page, info) = paginate(&items, 0, 3);
    assert_eq!(page, &[0, 1, 2]);
    assert!(!info.has_previous);
    let (page, info) = paginate(&items, 9, 3);
    assert!(page.is_empty());
    assert_eq!(info.text(), "Page 9/3 (7 items total)");
    let mut all = Vec::new();
    for p in 1..=info.total_pages {
        all.extend_from_slice(paginate(&items, p, 3).0);
    }
    assert_eq!(all, items);
}

#[test]
fn humanize_splits_words() {
    assert_eq!(humanize_code("SomeNewIssue"), "Some New Issue");
    assert_eq!(humanize_code("already spaced"), "already spaced");
    assert_eq!(humanize_code("ÉtéÀ"), "Été À");
    assert_eq!(humanize_code(""), "");
}

#[test]
fn severity_from_field_or_code() {
    assert_eq!(extract_severity(&obj(vec![("severity", s("Error"))])), IssueSeverity::Error);
    assert_eq!(extract_severity(&obj(vec![("severity", s("Information"))])), IssueSeverity::Info);
    assert_eq!(extract_severity(&obj(vec![("code", s("HeavyAdBlocked"))])), IssueSeverity::Error);
    assert_eq!(extract_severity(&obj(vec![("code", s("SomeError"))])), IssueSeverity::Error);
    assert_eq!(extract_severity(&obj(vec![("code", s("Quirks"))])), IssueSeverity::Warning);
}

#[test]
fn descriptions_per_detail_kind() {
    let cookie = obj(vec![(
        "details",
        obj(vec![(
            "cookieIssueDetails",
            obj(vec![("cookieWarningReasons", JsonValue::Array(vec![s("A"), n(3), s("B")]))]),
        )]),
    )]);
    assert_eq!(describe_issue("X", &cookie, &contrast("", "")), "Cookie Issue: A, B");
    let direct = obj(vec![("blockedByResponseIssueDetails", obj(vec![]))]);
    assert!(get_details_object(&direct).is_some());
    assert_eq!(describe_issue("X", &direct, &contrast("", "")), "Blocked by Response: unknown");
    let low = obj(vec![("details", obj(vec![("lowTextContrastIssueDetails", obj(vec![]))]))]);
    assert_eq!(
        describe_issue("LowTextContrast", &low, &contrast("3.10", "4.50")),
        "Low Text Contrast: ratio 3.10 is below threshold 4.50 (WCAG AA)"
    );
    let other = obj(vec![("details", obj(vec![]))]);
    assert_eq!(describe_issue("CodeOnly", &other, &contrast("", "")), "Code Only");
}

#[test]
fn contrast_figures_are_found() {
    let event = obj(vec![(
        "issue",
        obj(vec![(
            "details",
            obj(vec![(
                "lowTextContrastIssueDetails",
                obj(vec![("contrastRatio", JsonValue::Number(JsonNumber::Float("3.1".to_string())))]),
            )]),
        )]),
    )]);
    let (ratio, threshold) = contrast_figures(&event);
    assert!(matches!(ratio, Some(JsonNumber::Float(ref t)) if t == "3.1"));
    assert!(threshold.is_none());
}

#[test]
fn issue_details_list() {
    let issue = obj(vec![(
        "details",
        obj(vec![
            ("contentSecurityPolicyIssueDetails", obj(vec![("blockedURL", s("https://b"))])),
            ("request", obj(vec![("url", s("https://r"))])),
            ("sourceCodeLocation", obj(vec![("url", s("a.js")), ("lineNumber", n(3)), ("columnNumber", n(4))])),
        ]),
    )]);
    let ds = extract_issue_details(&issue).unwrap();
    let pairs: Vec<(&str, &str)> = ds.iter().map(|(k, v)| (k.as_str(), v.as_str())).collect();
    assert_eq!(pairs, vec![("URL", "https://b"), ("Request URL", "https://r"), ("Source", "a.js:3:4")]);
    assert!(extract_issue_details(&obj(vec![("details", obj(vec![]))])).is_none());
}

#[test]
fn issues_summary_numbers_entries() {
    let issues = vec![
        obj(vec![("code", s("QuirksModeIssue")), ("severity", s("Warning"))]),
        obj(vec![("issue", obj(vec![("code", s("NavigatorUserAgentIssue"))]))]),
    ];
    let c = vec![contrast("", ""), contrast("", "")];
    let out = format_issues(&issues, &c);
    assert_eq!(
        out,
        "2 issue(s) detected:\n\n1. [Warning] Quirks Mode Issue\n  Category: Quirks Mode\n  Code: QuirksModeIssue\n\n2. [Warning] Navigator User Agent Issue\n  Category: Privacy\n  Code: NavigatorUserAgentIssue\n\n"
    );
    assert_eq!(format_issues(&[], &[]), "No browser issues detected.");
}

#[test]
fn network_line_and_filters() {
    let req = obj(vec![
        ("contentType", s("text/css")),
        ("method", s("GET")),
        ("resourceType", s("Stylesheet")),
        ("status", JsonValue::Number(JsonNumber::NegInt(-1))),
        ("url", s("https://x/style.css")),
    ]);
    let figs = RequestFigures { size: Some("1.0KB".to_string()), duration: None, timing_lines: Vec::new() };
    assert_eq!(format_network_request(&req, 4, &figs), "[4] GET https://x/style.css -> -1 (text/css, 1.0KB)");
    assert!(request_passes(&req, None, Some("stylesheet")));
    assert!(!request_passes(&req, Some("api"), None));
    let out = format_network_requests(&[req], None, Some("script"), 1, 25, &[no_figures()]);
    assert_eq!(out, "No matching network requests.");
}

#[test]
fn network_detail_sections() {
    let long_body: String = "é".repeat(600);
    let req = obj(vec![
        ("body", s(&long_body)),
        ("requestHeaders", obj(vec![("X-Num", n(5))])),
        ("timing", obj(vec![])),
        ("url", s("u")),
    ]);
    let figs = RequestFigures {
        size: None,
        duration: Some("2.00s".to_string()),
        timing_lines: vec!["  DNS Lookup: 1.0ms\n".to_string()],
    };
    let out = format_network_request_detail(&req, &figs);
    let expected = format!(
        "## GET u\n\n**Status:** pending\n**Duration:** 2.00s\n\n### Request Headers\n  X-Num: 5\n\n### Timing Breakdown\n  DNS Lookup: 1.0ms\n\n### Body Preview\n{}\n... (truncated)\n",
        long_body
    );
    assert_eq!(out, expected);
}
