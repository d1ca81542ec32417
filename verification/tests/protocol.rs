use std::io::Write;

use browsertools::cdp::{
    attached_session_id, classify_incoming, command_message, command_outcome, content_quad,
    devtools_url_in_line, history_entry_id, navigation_outcome, page_evaluation_outcome,
    response_body, runtime_outcome, screenshot_data, version_url, ws_url_from_version, CdpError,
    HistoryStep, Incoming, TargetInfo, TargetManager,
};
use browsertools::commands::{
    call_arguments, dialog_params, file_input_params, key_press_commands, media_features_params,
    screenshot_params, typing_commands,
};
use browsertools::config::{parse_u32_chars, Config};
use browsertools::events::{event_action, is_top_frame, request_from_event, response_from_event, EventAction};
use browsertools::handlers::{
    console_message_at, dialog_outcome, emulation_summary, format_extension_list, lighthouse_args,
    missing_request, navigation_action, network_multiplier, network_preset, screenshot_format,
    screenshot_mime, wait_expression, NavAction,
};
use browsertools::extensions::InstalledExtension;
use browsertools::json::{JsonNumber, JsonValue};
use browsertools::json_write::to_json_text;
use browsertools::launch::{
    build_chrome_args, choose_chrome, chrome_beta_candidates, chrome_canary_candidates, chrome_dev_candidates,
    chrome_stable_candidates, find_chrome, Channel, LaunchConfig, Platform,
};
use browsertools::params::{default_format, default_page_num, default_page_size, default_timeout};
use browsertools::trace::{
    counts_section, insights_section, render_blocking_insight, trace_events_value, trace_text,
    InsightSeverity, TraceInsight,
};

fn s(x: &str) -> JsonValue {
    JsonValue::String(x.to_string())
}

fn n(x: u64) -> JsonValue {
    JsonValue::Number(JsonNumber::PosInt(x))
}

fn i(x: i64) -> JsonValue {
    JsonValue::Number(JsonNumber::NegInt(x))
}

fn obj(members: Vec<(&str, JsonValue)>) -> JsonValue {
    JsonValue::Object(members.into_iter().map(|(k, v)| (k.to_string(), v)).collect())
}

fn config() -> Config {
    Config {
        headless: true,
        executable_path: None,
        channel: "stable".to_string(),
        isolated: false,
        user_data_dir: None,
        viewport: None,
        proxy_server: None,
        accept_insecure_certs: false,
        chrome_args: Vec::new(),
        ignore_default_chrome_args: Vec::new(),
        browser_url: None,
        ws_endpoint: None,
        ws_headers: None,
        auto_connect: false,
        slim: false,
        experimental_vision: false,
        experimental_screencast: false,
        experimental_page_id_routing: false,
        experimental_devtools: false,
        category_emulation: true,
        category_performance: true,
        category_network: true,
        category_extensions: false,
        category_in_page_tools: false,
        performance_crux: false,
        lighthouse_path: None,
        log_file: None,
    }
}

#[test]
fn error_messages() {
    assert_eq!(
        CdpError::Timeout { method: "Page.navigate".to_string(), timeout_ms: 30000 }.message(),
        "CDP command timed out after 30000ms: Page.navigate"
    );
    assert_eq!(
        CdpError::ProtocolError { code: -32000, message: "Not allowed".to_string() }.message(),
        "CDP protocol error (code -32000): Not allowed"
    );
    assert_eq!(CdpError::Other("x".to_string()).message(), "x");
    assert_eq!(
        CdpError::ChromeNotFound.message(),
        "Chrome executable not found. Provide --executable-path or install Chrome"
    );
}

#[test]
fn command_framing_and_routing() {
    let m = command_message(7, "Page.navigate", obj(vec![("url", s("https://a"))]), Some("S1"));
    assert_eq!(
        to_json_text(&m),
        "{\"id\":7,\"method\":\"Page.navigate\",\"params\":{\"url\":\"https://a\"},\"sessionId\":\"S1\"}"
    );
    let m = command_message(1, "Target.getTargets", obj(vec![]), None);
    assert_eq!(to_json_text(&m), "{\"id\":1,\"method\":\"Target.getTargets\",\"params\":{}}");
    assert!(matches!(classify_incoming(&obj(vec![("id", n(4)), ("result", obj(vec![]))])), Incoming::Response(4)));
    assert!(matches!(classify_incoming(&obj(vec![("method", s("Page.loadEventFired"))])), Incoming::Event(ref m) if m == "Page.loadEventFired"));
    assert!(matches!(classify_incoming(&obj(vec![("id", s("x"))])), Incoming::Other));
}

#[test]
fn command_outcomes() {
    let err = obj(vec![("error", obj(vec![("code", i(-32601)), ("message", s("Method not found"))]))]);
    assert!(matches!(command_outcome(&err), Err(CdpError::ProtocolError { code: -32601, ref message }) if message == "Method not found"));
    let err2 = obj(vec![("error", obj(vec![]))]);
    assert!(matches!(command_outcome(&err2), Err(CdpError::ProtocolError { code: -1, ref message }) if message == "Unknown error"));
    let ok = obj(vec![("id", n(1)), ("result", obj(vec![("frameId", s("F"))]))]);
    assert_eq!(to_json_text(&command_outcome(&ok).ok().unwrap()), "{\"frameId\":\"F\"}");
    assert!(matches!(command_outcome(&obj(vec![])), Ok(JsonValue::Null)));
    assert_eq!(attached_session_id(&obj(vec![("sessionId", s("SID"))])).ok().unwrap(), "SID");
    assert!(matches!(attached_session_id(&obj(vec![])), Err(CdpError::SessionNotFound(_))));
    assert_eq!(TargetManager::created_target_id(&obj(vec![("targetId", s("T"))])).ok().unwrap(), "T");
    assert!(matches!(TargetManager::created_target_id(&obj(vec![])), Err(CdpError::TargetNotFound(_))));
    assert_eq!(to_json_text(&TargetManager::target_infos(&obj(vec![]))), "[]");
    assert!(matches!(navigation_outcome(&obj(vec![("errorText", s("net::ERR"))])), Err(CdpError::NavigationFailed(ref t)) if t == "net::ERR"));
    assert!(navigation_outcome(&obj(vec![("errorText", s(""))])).is_ok());
    assert!(matches!(screenshot_data(&obj(vec![])), Err(CdpError::ScreenshotFailed(_))));
    assert_eq!(screenshot_data(&obj(vec![("data", s("QUJD"))])).ok().unwrap(), "QUJD");
    let (body, b64) = response_body(&obj(vec![("body", s("hi")), ("base64Encoded", JsonValue::Bool(true))]));
    assert_eq!((body.as_str(), b64), ("hi", true));
    let target = TargetInfo {
        target_id: "T".to_string(),
        target_type: "page".to_string(),
        title: String::new(),
        url: String::new(),
        attached: false,
        browser_context_id: None,
    };
    assert!(target.is_page());
}

#[test]
fn evaluation_outcomes() {
    let ex = obj(vec![("exceptionDetails", obj(vec![("text", s("Uncaught"))]))]);
    assert!(matches!(page_evaluation_outcome(&ex), Err(CdpError::EvaluationFailed(ref t)) if t == "Uncaught"));
    let ex2 = obj(vec![("exceptionDetails", obj(vec![]))]);
    assert!(matches!(runtime_outcome(&ex2, "Call failed"), Err(CdpError::EvaluationFailed(ref t)) if t == "Call failed"));
    let ok = obj(vec![("result", obj(vec![("type", s("number")), ("value", n(3))]))]);
    assert_eq!(to_json_text(&page_evaluation_outcome(&ok).ok().unwrap()), "3");
    assert_eq!(to_json_text(&runtime_outcome(&ok, "x").ok().unwrap()), "{\"type\":\"number\",\"value\":3}");
}

#[test]
fn history_navigation_targets() {
    let entries = JsonValue::Array(vec![obj(vec![("id", n(10))]), obj(vec![("id", n(11))]), obj(vec![("id", n(12))])]);
    let h = obj(vec![("currentIndex", n(1)), ("entries", entries)]);
    assert_eq!(history_entry_id(&h, HistoryStep::Back), Some(10));
    assert_eq!(history_entry_id(&h, HistoryStep::Forward), Some(12));
    let first = obj(vec![("entries", JsonValue::Array(vec![obj(vec![("id", n(5))])]))]);
    assert_eq!(history_entry_id(&first, HistoryStep::Back), None);
    assert_eq!(history_entry_id(&first, HistoryStep::Forward), None);
}

#[test]
fn box_model_quad() {
    let quad: Vec<JsonValue> = (0..8).map(n).collect();
    let ok = obj(vec![("model", obj(vec![("content", JsonValue::Array(quad))]))]);
    assert_eq!(content_quad(&ok).ok().unwrap().len(), 8);
    let short = obj(vec![("model", obj(vec![("content", JsonValue::Array(vec![n(1)]))]))]);
    assert!(matches!(content_quad(&short), Err(CdpError::ElementNotFound(ref t)) if t == "Invalid box model coordinates"));
    assert!(matches!(content_quad(&obj(vec![])), Err(CdpError::ElementNotFound(ref t)) if t == "No box model for element"));
}

#[test]
fn browser_endpoints() {
    assert_eq!(
        devtools_url_in_line("DevTools listening on  ws://127.0.0.1:9222/devtools/browser/x \r").as_deref(),
        Some("ws://127.0.0.1:9222/devtools/browser/x")
    );
    assert_eq!(devtools_url_in_line("other line"), None);
    assert_eq!(
        devtools_url_in_line("DevTools listening on \u{a0}\u{3000}ws://x\t\u{2029}").as_deref(),
        Some("ws://x")
    );
    assert_eq!(version_url("http://localhost:9222//"), "http://localhost:9222/json/version");
    assert_eq!(ws_url_from_version(&obj(vec![("webSocketDebuggerUrl", s("ws://x"))])).ok().unwrap(), "ws://x");
    assert!(matches!(ws_url_from_version(&obj(vec![])), Err(CdpError::ConnectionFailed(_))));
}

#[test]
fn chrome_command_line() {
    let mut c = LaunchConfig::default();
    let args = build_chrome_args(&c, None);
    assert_eq!(args[0], "--headless=new");
    assert_eq!(args[1], "--disable-extensions");
    assert_eq!(args.len(), 22);
    c.headless = false;
    c.viewport = Some((1280, 720));
    c.proxy_server = Some("http://p:1".to_string());
    c.accept_insecure_certs = true;
    c.enable_extensions = true;
    c.ignore_default_chrome_args = vec!["--enable-features".to_string(), "--no-first-run".to_string()];
    c.chrome_args = vec!["--foo".to_string()];
    let args = build_chrome_args(&c, Some("/tmp/prof"));
    assert_eq!(&args[..4], &["--user-data-dir=/tmp/prof", "--window-size=1280,720", "--ignore-certificate-errors", "--proxy-server=http://p:1"]);
    assert!(!args.iter().any(|a| a.starts_with("--enable-features") || a == "--no-first-run"));
    assert_eq!(args.len(), 4 + 18 + 1);
    assert_eq!(args.last().unwrap(), "--foo");
}

#[test]
fn chrome_candidates_per_platform() {
    assert_eq!(chrome_stable_candidates(Platform::Other).len(), 5);
    assert_eq!(chrome_stable_candidates(Platform::MacOs)[1], "google-chrome");
    assert_eq!(chrome_canary_candidates(Platform::Other), vec!["google-chrome-unstable"]);
    assert_eq!(chrome_beta_candidates(Platform::Windows), vec!["google-chrome-beta"]);
    assert_eq!(chrome_dev_candidates(Platform::Other), vec!["google-chrome-dev", "google-chrome-unstable"]);
    let mut c = LaunchConfig::default();
    c.executable_path = Some("/opt/chrome".to_string());
    assert_eq!(find_chrome(&c, Platform::Other).ok().unwrap(), "/opt/chrome");
    c.executable_path = None;
    c.channel = Channel::Canary;
    match find_chrome(&c, Platform::Other) {
        Ok(_) => {}
        Err(e) => assert!(matches!(e, CdpError::ChromeNotFound)),
    }
}

#[test]
fn chrome_choice_prefers_search_path_then_files() {
    let cands = vec!["a", "b", "c"];
    let on_path = vec![None, Some("/usr/bin/b".to_string()), Some("/usr/bin/c".to_string())];
    assert_eq!(choose_chrome(&cands, &on_path, &vec![true, false, true]).as_deref(), Some("/usr/bin/b"));
    let nothing = vec![None, None, None];
    assert_eq!(choose_chrome(&cands, &nothing, &vec![false, true, true]).as_deref(), Some("b"));
    assert_eq!(choose_chrome(&cands, &nothing, &vec![false, false, false]), None);
}

#[test]
fn config_parsing() {
    let mut c = config();
    assert_eq!(c.viewport_size(), None);
    c.viewport = Some("1280x720".to_string());
    assert_eq!(c.viewport_size(), Some((1280, 720)));
    c.viewport = Some("+5x07".to_string());
    assert_eq!(c.viewport_size(), Some((5, 7)));
    for bad in ["1280", "axb", "1x2x3", "4294967296x1", "x1", "-1x2", "+x1"] {
        c.viewport = Some(bad.to_string());
        assert_eq!(c.viewport_size(), None, "{bad}");
    }
    let digits: Vec<char> = "4294967295".chars().collect();
    assert_eq!(parse_u32_chars(&digits), Some(u32::MAX));
    c.channel = "CANARY".to_string();
    assert_eq!(c.chrome_channel(), Channel::Canary);
    c.channel = "Beta".to_string();
    assert_eq!(c.chrome_channel(), Channel::Beta);
    c.channel = "nightly".to_string();
    assert_eq!(c.chrome_channel(), Channel::Stable);
    assert!(!c.connects_to_running());
    c.auto_connect = true;
    assert!(c.connects_to_running());
    let cc = c.connect_config(None);
    assert_eq!(cc.channel, Some(Channel::Stable));
    let lc = c.launch_config();
    assert_eq!(lc.channel, Channel::Stable);
    assert_eq!(lc.viewport, None);
    c.performance_crux = true;
    let lines = c.disclaimers("1.0");
    assert_eq!(lines.len(), 2);
    assert!(lines[0].starts_with("browsertools-mcp v1.0 exposes"));
}

#[test]
fn event_records() {
    let sent = obj(vec![(
        "params",
        obj(vec![
            ("request", obj(vec![("url", s("https://a")), ("method", s("POST")), ("headers", obj(vec![]))])),
            ("requestId", s("R")),
            ("type", s("XHR")),
            ("timestamp", n(5)),
        ]),
    )]);
    assert_eq!(
        to_json_text(&request_from_event(&sent)),
        "{\"method\":\"POST\",\"requestHeaders\":{},\"requestId\":\"R\",\"resourceType\":\"XHR\",\"startTime\":5,\"url\":\"https://a\"}"
    );
    let recv = obj(vec![("requestId", s("R")), ("response", obj(vec![("status", n(404)), ("url", s("u"))]))]);
    assert_eq!(
        to_json_text(&response_from_event(&recv)),
        "{\"_isResponse\":true,\"requestId\":\"R\",\"status\":404,\"url\":\"u\"}"
    );
    let top = obj(vec![("params", obj(vec![("frame", obj(vec![("id", s("F"))]))]))]);
    let sub = obj(vec![("params", obj(vec![("frame", obj(vec![("parentId", s("F"))]))]))]);
    assert!(is_top_frame(&top));
    assert!(!is_top_frame(&sub));
    assert!(matches!(event_action("Page.frameNavigated", &top), EventAction::Navigated));
    assert!(matches!(event_action("Page.frameNavigated", &sub), EventAction::Ignore));
    assert!(matches!(event_action("Runtime.consoleAPICalled", &sent), EventAction::AddMessage(_)));
    assert!(matches!(event_action("Network.responseReceived", &recv), EventAction::AddRequest(_)));
    assert!(matches!(event_action("Other.event", &recv), EventAction::Ignore));
}

#[test]
fn handler_decisions() {
    assert_eq!(screenshot_format(""), "png");
    assert_eq!(screenshot_mime(screenshot_format("jpg")), "image/jpeg");
    assert_eq!(screenshot_mime("webp"), "image/webp");
    assert_eq!(screenshot_mime("gif"), "image/png");
    assert_eq!(navigation_action("back"), NavAction::Back);
    assert_eq!(navigation_action("https://back"), NavAction::Url);
    let p = network_preset("Fast 3G");
    assert_eq!((p.offline, p.latency, p.download, p.upload), (false, 563, 180000, 84375));
    assert_eq!(network_preset("5G").download, -1);
    assert!(network_preset("Offline").offline);
    assert_eq!(network_multiplier(Some("Slow 3G")), 5);
    assert_eq!(network_multiplier(None), 1);
    assert_eq!(emulation_summary(&Vec::new()), "No emulation parameters provided.");
    assert_eq!(
        emulation_summary(&vec!["Network: Offline".to_string(), "Viewport: 1x2".to_string()]),
        "Applied emulation:\nNetwork: Offline\nViewport: 1x2"
    );
    let e = InstalledExtension { id: "i".to_string(), name: "N".to_string(), version: "1".to_string(), path: "p".to_string() };
    assert_eq!(format_extension_list(&vec![&e]), "- N (v1) [i]\n");
    assert_eq!(format_extension_list(&Vec::new()), "No extensions installed.");
    assert_eq!(console_message_at(&[], 3), "Message at index 3 not found");
    assert_eq!(console_message_at(&[obj(vec![("text", s("t"))])], 0), "[0] [log] t");
    assert_eq!(missing_request(2), "Request at index 2 not found");
    assert_eq!(dialog_outcome(false), "Dialog dismissed.");
    assert_eq!(
        lighthouse_args("https://a", &vec!["performance".to_string(), "seo".to_string()]),
        vec!["https://a", "--output=json", "--quiet", "--chrome-flags=--headless", "--only-categories=performance,seo"]
    );
    assert_eq!(lighthouse_args("u", &Vec::new()).len(), 4);
    assert_eq!(
        wait_expression(&vec!["a\"b".to_string(), "c".to_string()]),
        "document.body && document.body.innerText.includes(\"a\\\"b\") || document.body && document.body.innerText.includes(\"c\")"
    );
    assert_eq!(default_timeout(), 30000);
    assert_eq!(default_format(), "png");
    assert_eq!((default_page_num(), default_page_size()), (1, 25));
}

#[test]
fn command_parameters() {
    let keys = key_press_commands("a", 2);
    assert_eq!(to_json_text(&keys[0]), "{\"key\":\"a\",\"modifiers\":2,\"type\":\"keyDown\"}");
    assert_eq!(to_json_text(&keys[1]), "{\"key\":\"a\",\"modifiers\":2,\"type\":\"keyUp\"}");
    let typed = typing_commands("hé");
    assert_eq!(typed.len(), 6);
    assert_eq!(typed[1].0, "Input.insertText");
    assert_eq!(to_json_text(&typed[3].1), "{\"text\":\"é\",\"type\":\"keyDown\"}");
    assert_eq!(
        to_json_text(&media_features_params(&vec![("prefers-color-scheme".to_string(), "dark".to_string())])),
        "{\"features\":[{\"name\":\"prefers-color-scheme\",\"value\":\"dark\"}]}"
    );
    assert_eq!(
        to_json_text(&file_input_params(-3, &vec!["/a".to_string()])),
        "{\"backendNodeId\":-3,\"files\":[\"/a\"]}"
    );
    assert_eq!(
        to_json_text(&screenshot_params("jpeg", Some(80), Some(obj(vec![("scale", n(1))])), true)),
        "{\"captureBeyondViewport\":true,\"clip\":{\"scale\":1},\"format\":\"jpeg\",\"quality\":80}"
    );
    assert_eq!(to_json_text(&screenshot_params("png", None, None, false)), "{\"captureBeyondViewport\":false,\"format\":\"png\"}");
    let args = call_arguments(&[n(1), s("x")]);
    assert_eq!(to_json_text(&args[1]), "{\"value\":\"x\"}");
    assert_eq!(to_json_text(&dialog_params(true, Some("yes"))), "{\"accept\":true,\"promptText\":\"yes\"}");
    assert_eq!(to_json_text(&dialog_params(false, None)), "{\"accept\":false}");
}

#[test]
fn trace_text_and_events() {
    let mut enc = flate2::write::GzEncoder::new(Vec::new(), flate2::Compression::default());
    enc.write_all(b"[1,2]").unwrap();
    let gz = enc.finish().unwrap();
    assert_eq!(trace_text(&gz).unwrap(), "[1,2]");
    assert_eq!(trace_text(b"ab\xffc").unwrap(), "ab\u{fffd}c");
    assert!(trace_text(&[0x1f, 0x8b, 0]).is_err());
    let arr = JsonValue::Array(vec![n(1)]);
    assert_eq!(to_json_text(&trace_events_value(&arr).unwrap()), "[1]");
    let wrapped = obj(vec![("traceEvents", JsonValue::Array(vec![]))]);
    assert_eq!(to_json_text(&trace_events_value(&wrapped).unwrap()), "[]");
    assert_eq!(
        trace_events_value(&obj(vec![])).err().unwrap(),
        "Invalid trace format: expected array or object with traceEvents"
    );
}

#[test]
fn trace_send_request_records() {
    let args = obj(vec![(
        "data",
        obj(vec![("url", s("https://a/app.css")), ("renderBlocking", s("blocking")), ("resourceType", s("Stylesheet"))]),
    )]);
    let r = browsertools::trace::send_request_record(&args).unwrap();
    assert_eq!((r.url.as_str(), r.method.as_str(), r.resource_type.as_deref(), r.render_blocking), ("https://a/app.css", "GET", Some("Stylesheet"), true));
    let plain = obj(vec![("data", obj(vec![("renderBlocking", s("non_blocking"))]))]);
    let r = browsertools::trace::send_request_record(&plain).unwrap();
    assert_eq!((r.url.as_str(), r.resource_type.is_none(), r.render_blocking), ("", true, false));
    assert!(browsertools::trace::send_request_record(&obj(vec![])).is_none());
}

#[test]
fn trace_insights() {
    let reqs = vec![("a.css".to_string(), true), ("b.png".to_string(), false), ("c.js".to_string(), true)];
    let ins = render_blocking_insight(&reqs).unwrap();
    assert_eq!(ins.description, "2 render-blocking resources found");
    assert_eq!(ins.details, "These resources block rendering:\na.css\nc.js");
    assert!(render_blocking_insight(&vec![("x".to_string(), false)]).is_none());
    let list = vec![TraceInsight {
        name: "LCP".to_string(),
        description: "Largest Contentful Paint: 100ms".to_string(),
        details: "LCP is good (<2.5s).".to_string(),
        severity: InsightSeverity::Info,
    }];
    assert_eq!(
        insights_section(&list),
        "### Insights\n[i] **LCP**: Largest Contentful Paint: 100ms\n  LCP is good (<2.5s).\n\n"
    );
    assert_eq!(insights_section(&[]), "");
    assert_eq!(counts_section(2, 0), "### Main Thread\n- 2 long tasks (>50ms)\n\n");
    assert_eq!(counts_section(0, 3), "### Network\n- 3 requests\n\n");
}
