//! The DevTools protocol as the client speaks it: errors, command framing,
//! the routing of incoming messages, and how command results are read.

use vstd::prelude::*;

use crate::json::{
    int_model, members_model, model_as_str, model_get, opt_get, opt_i64, opt_str, str_or,
    JsonModel, JsonValue,
};
use crate::text::{decimal, owned, push_i64, push_str, push_u64, signed_decimal};

verus! {

// ---------------------------------------------------------------------------
// Errors
// ---------------------------------------------------------------------------

/// Errors that can occur in the CDP client.
pub enum CdpError {
    ConnectionFailed(String),
    ConnectionClosed,
    SendFailed(String),
    Timeout { method: String, timeout_ms: u64 },
    ProtocolError { code: i64, message: String },
    ParseError(String),
    SessionNotFound(String),
    PageNotFound(String),
    BrowserLaunchFailed(String),
    ChromeNotFound,
    TargetNotFound(String),
    NavigationFailed(String),
    EvaluationFailed(String),
    ScreenshotFailed(String),
    ElementNotFound(String),
    Other(String),
}

/// The message shown for an error.
pub open spec fn error_text(e: CdpError) -> Seq<char> {
    match e {
        CdpError::ConnectionFailed(s) => "WebSocket connection failed: "@ + s@,
        CdpError::ConnectionClosed => "WebSocket connection closed unexpectedly"@,
        CdpError::SendFailed(s) => "Failed to send CDP command: "@ + s@,
        CdpError::Timeout { method, timeout_ms } => "CDP command timed out after "@ + decimal(
            timeout_ms as nat,
        ) + "ms: "@ + method@,
        CdpError::ProtocolError { code, message } => "CDP protocol error (code "@ + signed_decimal(
            code as int,
        ) + "): "@ + message@,
        CdpError::ParseError(s) => "Failed to parse CDP response: "@ + s@,
        CdpError::SessionNotFound(s) => "Session not found: "@ + s@,
        CdpError::PageNotFound(s) => "Page not found: "@ + s@,
        CdpError::BrowserLaunchFailed(s) => "Browser launch failed: "@ + s@,
        CdpError::ChromeNotFound => "Chrome executable not found. Provide --executable-path or install Chrome"@,
        CdpError::TargetNotFound(s) => "Target not found: "@ + s@,
        CdpError::NavigationFailed(s) => "Navigation failed: "@ + s@,
        CdpError::EvaluationFailed(s) => "JavaScript evaluation failed: "@ + s@,
        CdpError::ScreenshotFailed(s) => "Screenshot failed: "@ + s@,
        CdpError::ElementNotFound(s) => "Element not found for uid: "@ + s@,
        CdpError::Other(s) => s@,
    }
}

fn prefixed(prefix: &str, s: &String) -> (r: String)
    ensures
        r@ == prefix@ + s@,
{
    let mut r = owned(prefix);
    push_str(&mut r, s.as_str());
    r
}

impl CdpError {
    /// The error's message.
    pub fn message(&self) -> (r: String)
        ensures
            r@ == error_text(*self),
    {
        match self {
            CdpError::ConnectionFailed(s) => prefixed("WebSocket connection failed: ", s),
            CdpError::ConnectionClosed => owned("WebSocket connection closed unexpectedly"),
            CdpError::SendFailed(s) => prefixed("Failed to send CDP command: ", s),
            CdpError::Timeout { method, timeout_ms } => {
                let mut r = owned("CDP command timed out after ");
                push_u64(&mut r, *timeout_ms);
                push_str(&mut r, "ms: ");
                push_str(&mut r, method.as_str());
                r
            },
            CdpError::ProtocolError { code, message } => {
                let mut r = owned("CDP protocol error (code ");
                push_i64(&mut r, *code);
                push_str(&mut r, "): ");
                push_str(&mut r, message.as_str());
                r
            },
            CdpError::ParseError(s) => prefixed("Failed to parse CDP response: ", s),
            CdpError::SessionNotFound(s) => prefixed("Session not found: ", s),
            CdpError::PageNotFound(s) => prefixed("Page not found: ", s),
            CdpError::BrowserLaunchFailed(s) => prefixed("Browser launch failed: ", s),
            CdpError::ChromeNotFound => owned(
                "Chrome executable not found. Provide --executable-path or install Chrome",
            ),
            CdpError::TargetNotFound(s) => prefixed("Target not found: ", s),
            CdpError::NavigationFailed(s) => prefixed("Navigation failed: ", s),
            CdpError::EvaluationFailed(s) => prefixed("JavaScript evaluation failed: ", s),
            CdpError::ScreenshotFailed(s) => prefixed("Screenshot failed: ", s),
            CdpError::ElementNotFound(s) => prefixed("Element not found for uid: ", s),
            CdpError::Other(s) => s.clone(),
        }
    }
}

// ---------------------------------------------------------------------------
// Command framing and message routing
// ---------------------------------------------------------------------------

/// The message that sends command `id`: `{"id", "method", "params"}` and,
/// for a target session, `"sessionId"` (members in key order).
pub open spec fn command_model(
    id: i64,
    method: Seq<char>,
    params: JsonModel,
    session_id: Option<Seq<char>>,
) -> JsonModel {
    let base = seq![
        ("id"@, int_model(id)),
        ("method"@, JsonModel::String(method)),
        ("params"@, params),
    ];
    JsonModel::Object(
        match session_id {
            Some(sid) => base.push(("sessionId"@, JsonModel::String(sid))),
            None => base,
        },
    )
}

/// Frames a CDP command as the JSON message sent over the connection.
pub fn command_message(id: i64, method: &str, params: JsonValue, session_id: Option<&str>) -> (r:
    JsonValue)
    ensures
        r.model() == command_model(
            id,
            method@,
            params.model(),
            match session_id {
                Some(s) => Some(s@),
                None => None,
            },
        ),
{
    let ghost pm = params.model();
    let mut members: Vec<(String, JsonValue)> = Vec::new();
    members.push((owned("id"), JsonValue::from_i64(id)));
    members.push((owned("method"), JsonValue::from_str(method)));
    members.push((owned("params"), params));
    if let Some(sid) = session_id {
        members.push((owned("sessionId"), JsonValue::from_str(sid)));
    }
    let r = JsonValue::object(members);
    assert(r.model()->Object_0 =~= command_model(
        id,
        method@,
        pm,
        match session_id {
            Some(s) => Some(s@),
            None => None,
        },
    )->Object_0);
    r
}

/// What an incoming message is.
pub enum Incoming {
    /// The response to the command with this id.
    Response(i64),
    /// An event with this method name.
    Event(String),
    /// Neither.
    Other,
}

/// Classifies an incoming message: a response carries an integer `id`; an
/// event, failing that, a string `method`.
pub fn classify_incoming(msg: &JsonValue) -> (r: Incoming)
    ensures
        match opt_i64(model_get(msg.model(), "id"@)) {
            Some(id) => r == Incoming::Response(id),
            None => match opt_str(model_get(msg.model(), "method"@)) {
                Some(m) => r matches Incoming::Event(x) && x@ == m,
                None => r is Other,
            },
        },
{
    if let Some(idv) = msg.get("id") {
        if let Some(id) = idv.as_i64() {
            return Incoming::Response(id);
        }
    }
    if let Some(mv) = msg.get("method") {
        if let Some(m) = mv.as_str() {
            return Incoming::Event(owned(m));
        }
    }
    Incoming::Other
}

/// The outcome of a command, read from its response: the `result` member
/// (or `null`), or the protocol error the response carries.
pub fn command_outcome(response: &JsonValue) -> (r: Result<JsonValue, CdpError>)
    ensures
        match model_get(response.model(), "error"@) {
            Some(err) => r matches Err(CdpError::ProtocolError { code, message }) && code == (
                match opt_i64(model_get(err, "code"@)) {
                    Some(c) => c,
                    None => -1i64,
                }) && message@ == str_or(model_get(err, "message"@), "Unknown error"@),
            None => r matches Ok(v) && v.model() == match model_get(response.model(), "result"@) {
                Some(x) => x,
                None => JsonModel::Null,
            },
        },
{
    if let Some(err) = response.get("error") {
        let code = match err.get("code") {
            Some(c) => match c.as_i64() {
                Some(n) => n,
                None => -1,
            },
            None => -1,
        };
        let message = err.get_str_or("message", "Unknown error");
        return Err(CdpError::ProtocolError { code, message });
    }
    Ok(response.get_or_null("result"))
}

// ---------------------------------------------------------------------------
// Reading command results
// ---------------------------------------------------------------------------

/// The `sessionId` of an `attachToTarget` result.
pub fn attached_session_id(result: &JsonValue) -> (r: Result<String, CdpError>)
    ensures
        match opt_str(model_get(result.model(), "sessionId"@)) {
            Some(s) => r matches Ok(x) && x@ == s,
            None => r matches Err(CdpError::SessionNotFound(m)) && m@
                == "No sessionId in attachToTarget response"@,
        },
{
    if let Some(v) = result.get("sessionId") {
        if let Some(s) = v.as_str() {
            return Ok(owned(s));
        }
    }
    Err(CdpError::SessionNotFound(owned("No sessionId in attachToTarget response")))
}

/// The outcome of `Page.navigate`: a failure where the result carries a
/// non-empty `errorText`.
pub fn navigation_outcome(result: &JsonValue) -> (r: Result<(), CdpError>)
    ensures
        match opt_str(model_get(result.model(), "errorText"@)) {
            Some(t) if t.len() > 0 => r matches Err(CdpError::NavigationFailed(m)) && m@ == t,
            _ => r is Ok,
        },
{
    if let Some(v) = result.get("errorText") {
        if let Some(t) = v.as_str() {
            if t.unicode_len() > 0 {
                return Err(CdpError::NavigationFailed(owned(t)));
            }
        }
    }
    Ok(())
}

/// A step through the navigation history.
#[derive(Clone, Copy, Debug, PartialEq, Eq, Structural)]
pub enum HistoryStep {
    Back,
    Forward,
}

/// The id of the history entry a step leads to: the entry just before
/// (back, only from a positive current index) or just after (forward) the
/// current one, where it exists and has an integer `id`.
pub open spec fn history_target(history: JsonModel, step: HistoryStep) -> Option<i64> {
    let current: int = match opt_i64(model_get(history, "currentIndex"@)) {
        Some(c) => c as int,
        None => 0,
    };
    let entries = match model_get(history, "entries"@) {
        Some(JsonModel::Array(es)) => es,
        _ => Seq::empty(),
    };
    let target = match step {
        HistoryStep::Back => current - 1,
        HistoryStep::Forward => current + 1,
    };
    if (step == HistoryStep::Back && current <= 0) || target < 0 || target >= entries.len() {
        None
    } else {
        opt_i64(model_get(entries[target], "id"@))
    }
}

/// Picks the history entry to navigate to for `Page.navigateToHistoryEntry`.
pub fn history_entry_id(history: &JsonValue, step: HistoryStep) -> (r: Option<i64>)
    requires
        opt_i64(model_get(history.model(), "currentIndex"@)) != Some(i64::MAX),
    ensures
        r == history_target(history.model(), step),
{
    let current: i64 = match history.get("currentIndex") {
        Some(c) => match c.as_i64() {
            Some(n) => n,
            None => 0,
        },
        None => 0,
    };
    if step == HistoryStep::Back && current <= 0 {
        return None;
    }
    let target: i64 = match step {
        HistoryStep::Back => current - 1,
        HistoryStep::Forward => current + 1,
    };
    let entries = match history.get("entries") {
        Some(e) => e.as_array(),
        None => None,
    };
    match entries {
        Some(es) => {
            if target < 0 || target as u64 >= es.len() as u64 {
                return None;
            }
            let t: usize = target as usize;
            match es[t].get("id") {
                Some(idv) => idv.as_i64(),
                None => None,
            }
        },
        None => None,
    }
}

/// The outcome of `Runtime.evaluate` on a page: the evaluated `result.value`
/// (or `null`), or a failure with the exception's text.
pub fn page_evaluation_outcome(result: &JsonValue) -> (r: Result<JsonValue, CdpError>)
    ensures
        match model_get(result.model(), "exceptionDetails"@) {
            Some(ex) => r matches Err(CdpError::EvaluationFailed(m)) && m@ == str_or(
                model_get(ex, "text"@),
                "Unknown error"@,
            ),
            None => r matches Ok(v) && v.model() == match opt_get(
                model_get(result.model(), "result"@),
                "value"@,
            ) {
                Some(x) => x,
                None => JsonModel::Null,
            },
        },
{
    if let Some(ex) = result.get("exceptionDetails") {
        return Err(CdpError::EvaluationFailed(ex.get_str_or("text", "Unknown error")));
    }
    match result.get("result") {
        Some(inner) => Ok(inner.get_or_null("value")),
        None => Ok(JsonValue::Null),
    }
}

/// The outcome of a runtime call: the `result` remote object (or `null`),
/// or a failure with the exception's text, `fallback` where it has none.
pub fn runtime_outcome(result: &JsonValue, fallback: &str) -> (r: Result<JsonValue, CdpError>)
    ensures
        match model_get(result.model(), "exceptionDetails"@) {
            Some(ex) => r matches Err(CdpError::EvaluationFailed(m)) && m@ == str_or(
                model_get(ex, "text"@),
                fallback@,
            ),
            None => r matches Ok(v) && v.model() == match model_get(result.model(), "result"@) {
                Some(x) => x,
                None => JsonModel::Null,
            },
        },
{
    if let Some(ex) = result.get("exceptionDetails") {
        return Err(CdpError::EvaluationFailed(ex.get_str_or("text", fallback)));
    }
    Ok(result.get_or_null("result"))
}

/// The base64 image `data` of a `captureScreenshot` result.
pub fn screenshot_data(result: &JsonValue) -> (r: Result<String, CdpError>)
    ensures
        match opt_str(model_get(result.model(), "data"@)) {
            Some(s) => r matches Ok(x) && x@ == s,
            None => r matches Err(CdpError::ScreenshotFailed(m)) && m@ == "No data in response"@,
        },
{
    if let Some(v) = result.get("data") {
        if let Some(s) = v.as_str() {
            return Ok(owned(s));
        }
    }
    Err(CdpError::ScreenshotFailed(owned("No data in response")))
}

/// The body of a `getResponseBody` result and whether it is base64-encoded.
pub fn response_body(result: &JsonValue) -> (r: (String, bool))
    ensures
        r.0@ == str_or(model_get(result.model(), "body"@), ""@),
        r.1 == match model_get(result.model(), "base64Encoded"@) {
            Some(JsonModel::Bool(b)) => b,
            _ => false,
        },
{
    let body = result.get_str_or("body", "");
    let encoded = match result.get("base64Encoded") {
        Some(v) => match v.as_bool() {
            Some(b) => b,
            None => false,
        },
        None => false,
    };
    (body, encoded)
}

/// The id of an extension loaded by `Extensions.loadUnpacked` (empty where
/// the result names none).
pub fn loaded_extension_id(result: &JsonValue) -> (r: String)
    ensures
        r@ == str_or(model_get(result.model(), "id"@), ""@),
{
    result.get_str_or("id", "")
}

fn node_message(prefix: &str, backend_node_id: i64) -> (r: String)
    ensures
        r@ == prefix@ + signed_decimal(backend_node_id as int),
{
    let mut m = owned(prefix);
    push_i64(&mut m, backend_node_id);
    m
}

/// The remote `object` of a `DOM.resolveNode` result.
pub fn resolved_object(result: &JsonValue, backend_node_id: i64) -> (r: Result<JsonValue, CdpError>)
    ensures
        match model_get(result.model(), "object"@) {
            Some(o) => r matches Ok(v) && v.model() == o,
            None => r matches Err(CdpError::ElementNotFound(m)) && m@ == "Cannot resolve node "@
                + signed_decimal(backend_node_id as int),
        },
{
    match result.get("object") {
        Some(o) => Ok(o.duplicate()),
        None => Err(CdpError::ElementNotFound(node_message("Cannot resolve node ", backend_node_id))),
    }
}

/// The box `model` of a `DOM.getBoxModel` result.
pub fn box_model(result: &JsonValue, backend_node_id: i64) -> (r: Result<JsonValue, CdpError>)
    ensures
        match model_get(result.model(), "model"@) {
            Some(o) => r matches Ok(v) && v.model() == o,
            None => r matches Err(CdpError::ElementNotFound(m)) && m@ == "No box model for node "@
                + signed_decimal(backend_node_id as int),
        },
{
    match result.get("model") {
        Some(o) => Ok(o.duplicate()),
        None => Err(CdpError::ElementNotFound(node_message("No box model for node ", backend_node_id))),
    }
}

/// The `object.objectId` of a `DOM.resolveNode` result, used to locate an
/// element on screen.
pub fn resolved_object_id(result: &JsonValue, backend_node_id: i64) -> (r: Result<String, CdpError>)
    ensures
        match opt_str(opt_get(model_get(result.model(), "object"@), "objectId"@)) {
            Some(s) => r matches Ok(x) && x@ == s,
            None => r matches Err(CdpError::ElementNotFound(m)) && m@ == "Could not resolve node "@
                + signed_decimal(backend_node_id as int),
        },
{
    if let Some(o) = result.get("object") {
        if let Some(v) = o.get("objectId") {
            if let Some(s) = v.as_str() {
                return Ok(owned(s));
            }
        }
    }
    Err(CdpError::ElementNotFound(node_message("Could not resolve node ", backend_node_id)))
}

/// The content quad (`model.content`) of a box model result, which must
/// hold the eight coordinates of its four corners.
pub fn content_quad(result: &JsonValue) -> (r: Result<Vec<JsonValue>, CdpError>)
    ensures
        match opt_get(model_get(result.model(), "model"@), "content"@) {
            Some(JsonModel::Array(q)) => if q.len() >= 8 {
                r matches Ok(v) && v@.len() == q.len() && forall|i: int|
                    0 <= i < q.len() ==> #[trigger] v@[i].model() == q[i]
            } else {
                r matches Err(CdpError::ElementNotFound(m)) && m@
                    == "Invalid box model coordinates"@
            },
            _ => r matches Err(CdpError::ElementNotFound(m)) && m@ == "No box model for element"@,
        },
{
    let content = match result.get("model") {
        Some(m) => match m.get("content") {
            Some(c) => c.as_array(),
            None => None,
        },
        None => None,
    };
    match content {
        Some(q) => {
            if q.len() >= 8 {
                let mut out: Vec<JsonValue> = Vec::new();
                let mut i: usize = 0;
                while i < q.len()
                    invariant
                        i <= q@.len(),
                        out@.len() == i,
                        forall|k: int| 0 <= k < i ==> #[trigger] out@[k].model() == q@[k].model(),
                    decreases q@.len() - i,
                {
                    out.push(q[i].duplicate());
                    i = i + 1;
                }
                Ok(out)
            } else {
                Err(CdpError::ElementNotFound(owned("Invalid box model coordinates")))
            }
        },
        None => Err(CdpError::ElementNotFound(owned("No box model for element"))),
    }
}

// ---------------------------------------------------------------------------
// Targets
// ---------------------------------------------------------------------------

/// Information about a browser target (page, iframe, service worker, ...).
pub struct TargetInfo {
    pub target_id: String,
    pub target_type: String,
    pub title: String,
    pub url: String,
    pub attached: bool,
    pub browser_context_id: Option<String>,
}

impl TargetInfo {
    /// Whether the target is a page.
    pub fn is_page(&self) -> (r: bool)
        ensures
            r == (self.target_type@ == "page"@),
    {
        crate::text::str_eq(self.target_type.as_str(), "page")
    }
}

/// Target discovery and lifecycle, as read from command results.
pub struct TargetManager;

impl TargetManager {
    /// The target list of a `Target.getTargets` result: its `targetInfos`
    /// member, or an empty array.
    pub fn target_infos(result: &JsonValue) -> (r: JsonValue)
        ensures
            r.model() == match model_get(result.model(), "targetInfos"@) {
                Some(v) => v,
                None => JsonModel::Array(Seq::empty()),
            },
    {
        match result.get("targetInfos") {
            Some(v) => v.duplicate(),
            None => {
                let empty: Vec<JsonValue> = Vec::new();
                let r = JsonValue::Array(empty);
                assert(r.model()->Array_0 =~= Seq::<JsonModel>::empty());
                r
            },
        }
    }

    /// The `targetId` of a `Target.createTarget` result.
    pub fn created_target_id(result: &JsonValue) -> (r: Result<String, CdpError>)
        ensures
            match opt_str(model_get(result.model(), "targetId"@)) {
                Some(s) => r matches Ok(x) && x@ == s,
                None => r matches Err(CdpError::TargetNotFound(m)) && m@
                    == "No targetId in createTarget response"@,
            },
    {
        if let Some(v) = result.get("targetId") {
            if let Some(s) = v.as_str() {
                return Ok(owned(s));
            }
        }
        Err(CdpError::TargetNotFound(owned("No targetId in createTarget response")))
    }
}

/// The WebSocket URL announced on a line of the browser's error output:
/// what follows `DevTools listening on `, without surrounding whitespace.
pub fn devtools_url_in_line(line: &str) -> (r: Option<String>)
    ensures
        match r {
            Some(u) => crate::text::starts_with_seq(line@, "DevTools listening on "@) && u@
                == crate::text::trim_seq(line@.subrange(22, line@.len() as int)),
            None => !crate::text::starts_with_seq(line@, "DevTools listening on "@),
        },
{
    proof {
        reveal_strlit("DevTools listening on ");
    }
    let cs = crate::text::chars_of(line);
    if !crate::text::starts_with_str(&cs, "DevTools listening on ") {
        return None;
    }
    let mut rest = String::new();
    crate::text::push_chars_range(&mut rest, &cs, 22, cs.len());
    Some(crate::text::trim(rest.as_str()))
}

/// The address of the version endpoint of a browser's debugging URL
/// (trailing slashes dropped).
pub open spec fn version_url_of(browser_url: Seq<char>) -> Seq<char> {
    crate::text::trim_end_slashes(browser_url) + "/json/version"@
}

/// Builds the address of the version endpoint.
pub fn version_url(browser_url: &str) -> (r: String)
    ensures
        r@ == version_url_of(browser_url@),
{
    let cs = crate::text::chars_of(browser_url);
    let mut end: usize = cs.len();
    assert(cs@.take(end as int) =~= cs@);
    while end > 0 && cs[end - 1] == '/'
        invariant
            end <= cs@.len(),
            crate::text::trim_end_slashes(cs@) == crate::text::trim_end_slashes(cs@.take(end as int)),
        decreases end,
    {
        assert(cs@.take(end as int).drop_last() =~= cs@.take(end - 1));
        end = end - 1;
    }
    assert(crate::text::trim_end_slashes(cs@.take(end as int)) == cs@.take(end as int));
    let mut r = String::new();
    crate::text::push_chars_range(&mut r, &cs, 0, end);
    push_str(&mut r, "/json/version");
    assert(cs@.subrange(0, end as int) =~= cs@.take(end as int));
    r
}

/// The WebSocket URL of a `/json/version` answer.
pub fn ws_url_from_version(json: &JsonValue) -> (r: Result<String, CdpError>)
    ensures
        match opt_str(model_get(json.model(), "webSocketDebuggerUrl"@)) {
            Some(s) => r matches Ok(x) && x@ == s,
            None => r matches Err(CdpError::ConnectionFailed(m)) && m@
                == "No webSocketDebuggerUrl in /json/version response"@,
        },
{
    if let Some(v) = json.get("webSocketDebuggerUrl") {
        if let Some(s) = v.as_str() {
            return Ok(owned(s));
        }
    }
    Err(CdpError::ConnectionFailed(owned("No webSocketDebuggerUrl in /json/version response")))
}

} // verus!
