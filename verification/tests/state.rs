use browsertools::accessibility::{build_accessibility_tree, tree_is_finite, AXNode, AXProperty, AXValue, AccessibilityNode};
use browsertools::collector::{ConsoleCollector, NetworkCollector};
use browsertools::context::{format_page_list, McpContext};
use browsertools::extensions::ExtensionRegistry;
use browsertools::json::{JsonNumber, JsonValue};
use browsertools::snapshot::{format_node, format_snapshot, resolve_snapshot_uid, tree_height, tree_size, TextSnapshot};
use browsertools::tools::{McpResponse, ToolAnnotations, ToolCategory, ToolContent, ToolResult};

fn s(x: &str) -> JsonValue {
    JsonValue::String(x.to_string())
}

fn obj(members: Vec<(&str, JsonValue)>) -> JsonValue {
    JsonValue::Object(members.into_iter().map(|(k, v)| (k.to_string(), v)).collect())
}

fn text_of(v: &JsonValue) -> String {
    browsertools::json_write::to_json_text(v)
}

fn ax(role: &str, name: &str) -> Option<AXValue> {
    let _ = role;
    Some(AXValue { value_type: "string".to_string(), value: Some(s(name)) })
}

fn node(id: &str, role: &str, name: &str, children: &[&str], ignored: bool, backend: Option<i64>) -> AXNode {
    AXNode {
        node_id: id.to_string(),
        ignored,
        role: ax("role", role),
        name: if name.is_empty() { None } else { ax("name", name) },
        description: None,
        value: None,
        properties: vec![AXProperty {
            name: "focusable".to_string(),
            value: AXValue { value_type: "booleanOrUndefined".to_string(), value: Some(JsonValue::Bool(true)) },
        }],
        child_ids: children.iter().map(|c| c.to_string()).collect(),
        backend_dom_node_id: backend,
        frame_id: None,
    }
}

fn leaf(role: &str, name: &str, backend: Option<i64>) -> AccessibilityNode {
    AccessibilityNode {
        role: role.to_string(),
        name: name.to_string(),
        value: String::new(),
        description: String::new(),
        backend_node_id: backend,
        properties: vec![("level".to_string(), "1".to_string())],
        children: Vec::new(),
    }
}

#[test]
fn network_collector_keeps_current_navigation() {
    let mut c = NetworkCollector::new();
    c.add_page("t1");
    c.add_request("t1", obj(vec![("requestId", s("r1")), ("url", s("a"))]));
    c.add_request("t2", obj(vec![("url", s("ignored"))]));
    assert_eq!(c.get_requests("t1").len(), 1);
    assert!(c.get_requests("t2").is_empty());
    assert_eq!(c.get_request_id("r1"), Some(0));
    assert_eq!(c.get_request_id("r2"), None);
    c.on_navigation("t1");
    assert!(c.get_requests("t1").is_empty());
    c.add_request("t1", obj(vec![("requestId", s("r2"))]));
    assert_eq!(c.get_request_id("r2"), Some(1));
}

#[test]
fn console_collector_preserves_three_navigations() {
    let mut c = ConsoleCollector::new();
    c.add_page("p");
    for i in 0..4 {
        c.add_message("p", s(&format!("m{i}")));
        c.on_navigation("p");
    }
    c.add_message("p", s("now"));
    let current: Vec<String> = c.get_messages("p", false).iter().map(text_of).collect();
    assert_eq!(current, vec!["\"now\""]);
    let all: Vec<String> = c.get_messages("p", true).iter().map(text_of).collect();
    assert_eq!(all, vec!["\"m2\"", "\"m3\"", "\"now\""]);
}

#[test]
fn extension_registry_register_get_remove() {
    let mut r = ExtensionRegistry::new();
    r.register("abc".to_string(), "/ext".to_string(), &obj(vec![("name", s("Ext")), ("version", s("1.2"))]));
    r.register("def".to_string(), "/other".to_string(), &obj(vec![]));
    let e = r.get("abc").unwrap();
    assert_eq!((e.name.as_str(), e.version.as_str(), e.path.as_str()), ("Ext", "1.2", "/ext"));
    let d = r.get("def").unwrap();
    assert_eq!((d.name.as_str(), d.version.as_str()), ("Unknown", "0.0.0"));
    assert_eq!(r.list().len(), 2);
    for e in r.list() {
        assert_eq!(r.get(&e.id).unwrap().id, e.id);
    }
    r.register("abc".to_string(), "/ext2".to_string(), &obj(vec![]));
    assert_eq!(r.list().len(), 2);
    assert_eq!(r.get("abc").unwrap().path, "/ext2");
    r.remove("abc");
    assert!(r.get("abc").is_none());
    assert_eq!(r.list().len(), 1);
}

#[test]
fn context_pages_and_selection() {
    let mut ctx: McpContext<&'static str> = McpContext::new();
    assert!(ctx.selected_page().is_none());
    let a = ctx.register_page("ta".to_string(), "page A");
    let b = ctx.register_page("tb".to_string(), "page B");
    assert_eq!((a, b), (1, 2));
    assert_eq!(*ctx.selected_page().unwrap().cdp_page(), "page A");
    assert!(ctx.knows_target("tb"));
    assert!(ctx.select_page(2).is_ok());
    assert_eq!(ctx.selected_page().unwrap().id(), 2);
    assert_eq!(ctx.select_page(9).unwrap_err(), "No page found with id 9");
    assert_eq!(*ctx.get_page(1).unwrap().cdp_page(), "page A");
    ctx.remove_page("tb");
    assert_eq!(ctx.selected_page().unwrap().id(), 1);
    ctx.remove_page("ta");
    assert!(ctx.selected_page().is_none());
    assert_eq!(ctx.list_pages().len(), 0);
    assert_eq!(ctx.next_snapshot_id(), 1);
    assert_eq!(ctx.next_snapshot_id(), 2);
    assert_eq!(ctx.trace_stop_refusal(), Some("No trace is running."));
    assert_eq!(ctx.trace_start_refusal(), None);
    ctx.set_running_trace(true);
    assert!(ctx.is_running_trace());
    assert_eq!(ctx.trace_start_refusal(), Some("A trace is already running. Stop it first."));
    assert_eq!(ctx.trace_stop_refusal(), None);
    ctx.store_trace_result(s("x"));
    ctx.store_trace_result(s("y"));
    assert_eq!(ctx.trace_results().len(), 1);
}

#[test]
fn page_list_marks_selected() {
    let pages = vec![(1u32, "https://a".to_string()), (2u32, "about:blank".to_string())];
    assert_eq!(format_page_list(&pages, Some(2)), "Page 1: https://a\nPage 2: about:blank (selected)\n");
    assert_eq!(format_page_list(&Vec::new(), None), "No pages open.");
}

#[test]
fn accessibility_tree_skips_ignored_nodes() {
    let nodes = vec![
        node("1", "RootWebArea", "Doc", &["2", "9"], false, Some(10)),
        node("2", "generic", "", &["3", "4"], true, Some(11)),
        node("3", "button", "OK", &[], false, Some(12)),
        node("4", "link", "Home", &[], false, None),
    ];
    assert!(tree_is_finite(&nodes));
    let tree = build_accessibility_tree(&nodes).unwrap();
    assert_eq!(tree.role, "RootWebArea");
    let names: Vec<&str> = tree.children.iter().map(|c| c.name.as_str()).collect();
    assert_eq!(names, vec!["OK", "Home"]);
    assert!(build_accessibility_tree(&Vec::new()).is_none());
    let cyclic = vec![node("1", "a", "", &["2"], false, None), node("2", "b", "", &["1"], false, None)];
    assert!(!tree_is_finite(&cyclic));
}

#[test]
fn snapshot_text_and_uids() {
    let mut root = leaf("RootWebArea", "Doc", Some(1));
    let mut filler = leaf("generic", "", None);
    filler.children.push(leaf("button", "OK", Some(7)));
    root.children.push(filler);
    root.children.push(leaf("link", "", None));
    assert_eq!(
        format_snapshot(&root, false),
        "- uid=e0 RootWebArea \"Doc\"\n  - uid=e2 button \"OK\"\n  - uid=e3 link\n"
    );
    assert_eq!(
        format_snapshot(&root, true),
        "- uid=e0 RootWebArea \"Doc\" level=1\n  - uid=e1 generic level=1\n    - uid=e2 button \"OK\" level=1\n  - uid=e3 link level=1\n"
    );
    let mut out = String::from(">");
    let mut next: u32 = 5;
    format_node(&leaf("button", "OK", None), &mut out, 2, false, &mut next);
    assert_eq!(out, ">    - uid=e5 button \"OK\"\n");
    assert_eq!(next, 6);
    assert_eq!(tree_height(&root), Some(2));
    assert_eq!(tree_size(&root), Some(4));
    let snap = TextSnapshot::take(3, &root, false);
    assert_eq!(snap.snapshot_id, "3");
    assert_eq!(resolve_snapshot_uid(Some(&snap), "e2"), Ok(7));
    assert_eq!(resolve_snapshot_uid(Some(&snap), "e0"), Ok(1));
    assert_eq!(resolve_snapshot_uid(Some(&snap), "e3").unwrap_err(), "Element 'e3' has no backendNodeId");
    assert_eq!(resolve_snapshot_uid(Some(&snap), "e9").unwrap_err(), "Element with UID 'e9' not found in snapshot");
    assert_eq!(
        resolve_snapshot_uid(None, "e0").unwrap_err(),
        "No snapshot taken yet. Call take_snapshot first."
    );
    assert_eq!(snap.root.children.len(), 2);
    assert_eq!(snap.root.id, "e0");
    assert_eq!(snap.root.children[0].id, "e1");
    assert_eq!(snap.root.children[0].children[0].id, "e2");
    assert_eq!(snap.root.children[1].id, "e3");
}

#[test]
fn response_builder() {
    let r = McpResponse::new().build();
    assert!(matches!(&r.content[..], [ToolContent::Text { text }] if text == "OK"));
    let mut m = McpResponse::default();
    m.add_text("a".to_string());
    m.add_text("b".to_string());
    m.add_image("DATA".to_string(), "image/png".to_string());
    m.set_include_console(false);
    let r = m.build();
    assert!(!r.is_error);
    assert!(matches!(&r.content[0], ToolContent::Text { text } if text == "a\nb"));
    assert!(matches!(&r.content[1], ToolContent::Image { data, mime_type } if data == "DATA" && mime_type == "image/png"));
    let e = ToolResult::error("bad".to_string()).with_image("D".to_string(), "image/jpeg".to_string());
    assert!(e.is_error);
    assert_eq!(e.content.len(), 2);
    let t = ToolResult::text("fine".to_string());
    assert!(!t.is_error);
}

#[test]
fn categories_and_annotations() {
    assert_eq!(ToolCategory::InPage.name(), "in_page");
    assert_eq!(ToolCategory::Debugging.to_string(), "debugging");
    let a = ToolAnnotations::default();
    assert_eq!(a.category, ToolCategory::Debugging);
    assert!(a.read_only_hint && !a.destructive_hint && a.conditions.is_empty());
    let _ = JsonNumber::PosInt(0);
}
