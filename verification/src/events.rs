//! What the page event listeners record: the request and response records
//! kept for the network tools, the console messages, and which navigations
//! start a new page load.

use vstd::prelude::*;

use crate::json::{model_get, opt_get, JsonModel, JsonValue};
use crate::text::owned;

verus! {

/// The parameters of an event: its `params` member, or the event itself.
pub open spec fn params_of(event: JsonModel) -> JsonModel {
    match model_get(event, "params"@) {
        Some(p) => p,
        None => event,
    }
}

/// A member `(key, value)` where the value is present.
pub open spec fn member_if(key: Seq<char>, v: Option<JsonModel>) -> Seq<(Seq<char>, JsonModel)> {
    match v {
        Some(x) => seq![(key, x)],
        None => Seq::empty(),
    }
}

/// The request record made from a `Network.requestWillBeSent` event (its
/// members in key order).
pub open spec fn request_record(event: JsonModel) -> JsonModel {
    let p = params_of(event);
    let req = model_get(p, "request"@);
    JsonModel::Object(
        member_if("method"@, opt_get(req, "method"@)) + member_if(
            "requestHeaders"@,
            opt_get(req, "headers"@),
        ) + member_if("requestId"@, model_get(p, "requestId"@)) + member_if(
            "resourceType"@,
            model_get(p, "type"@),
        ) + member_if("startTime"@, model_get(p, "timestamp"@)) + member_if(
            "url"@,
            opt_get(req, "url"@),
        ),
    )
}

/// The response record made from a `Network.responseReceived` event (its
/// members in key order), marked with `_isResponse`.
pub open spec fn response_record(event: JsonModel) -> JsonModel {
    let p = params_of(event);
    let resp = model_get(p, "response"@);
    JsonModel::Object(
        seq![("_isResponse"@, JsonModel::Bool(true))] + member_if(
            "encodedDataLength"@,
            opt_get(resp, "encodedDataLength"@),
        ) + member_if("mimeType"@, opt_get(resp, "mimeType"@)) + member_if(
            "requestId"@,
            model_get(p, "requestId"@),
        ) + member_if("resourceType"@, model_get(p, "type"@)) + member_if(
            "responseHeaders"@,
            opt_get(resp, "headers"@),
        ) + member_if("status"@, opt_get(resp, "status"@)) + member_if(
            "statusText"@,
            opt_get(resp, "statusText"@),
        ) + member_if("timing"@, opt_get(resp, "timing"@)) + member_if(
            "url"@,
            opt_get(resp, "url"@),
        ),
    )
}

/// Whether a `Page.frameNavigated` event is about the top-level frame (its
/// frame has no parent).
pub open spec fn top_frame_navigation(event: JsonModel) -> bool {
    opt_get(model_get(params_of(event), "frame"@), "parentId"@) is None
}

/// The parameters of an event, copied out.
pub fn event_params(event: &JsonValue) -> (r: JsonValue)
    ensures
        r.model() == params_of(event.model()),
{
    match event.get("params") {
        Some(p) => p.duplicate(),
        None => event.duplicate(),
    }
}

fn push_member(members: &mut Vec<(String, JsonValue)>, key: &str, v: Option<&JsonValue>)
    ensures
        crate::json::members_model(final(members)@) == crate::json::members_model(old(members)@)
            + member_if(
            key@,
            match v {
                Some(x) => Some(x.model()),
                None => None,
            },
        ),
{
    let ghost before = crate::json::members_model(members@);
    match v {
        Some(x) => {
            members.push((owned(key), x.duplicate()));
            assert(crate::json::members_model(members@) =~= before + seq![(key@, x.model())]);
        },
        None => {
            assert(crate::json::members_model(members@) =~= before + Seq::empty());
        },
    }
}

fn member_of<'a>(v: Option<&'a JsonValue>, key: &str) -> (r: Option<&'a JsonValue>)
    ensures
        match r {
            Some(x) => opt_get(
                match v {
                    Some(y) => Some(y.model()),
                    None => None,
                },
                key@,
            ) == Some(x.model()),
            None => opt_get(
                match v {
                    Some(y) => Some(y.model()),
                    None => None,
                },
                key@,
            ) is None,
        },
{
    match v {
        Some(y) => y.get(key),
        None => None,
    }
}

/// The request record kept for a `Network.requestWillBeSent` event.
pub fn request_from_event(event: &JsonValue) -> (r: JsonValue)
    ensures
        r.model() == request_record(event.model()),
{
    let p = event_params(event);
    let req = p.get("request");
    let mut m: Vec<(String, JsonValue)> = Vec::new();
    assert(crate::json::members_model(m@) =~= Seq::empty());
    push_member(&mut m, "method", member_of(req, "method"));
    push_member(&mut m, "requestHeaders", member_of(req, "headers"));
    push_member(&mut m, "requestId", p.get("requestId"));
    push_member(&mut m, "resourceType", p.get("type"));
    push_member(&mut m, "startTime", p.get("timestamp"));
    push_member(&mut m, "url", member_of(req, "url"));
    let r = JsonValue::object(m);
    assert(r.model()->Object_0 =~= request_record(event.model())->Object_0);
    r
}

/// The response record kept for a `Network.responseReceived` event.
pub fn response_from_event(event: &JsonValue) -> (r: JsonValue)
    ensures
        r.model() == response_record(event.model()),
{
    let p = event_params(event);
    let resp = p.get("response");
    let mut m: Vec<(String, JsonValue)> = Vec::new();
    m.push((owned("_isResponse"), JsonValue::Bool(true)));
    assert(crate::json::members_model(m@) =~= seq![("_isResponse"@, JsonModel::Bool(true))]);
    push_member(&mut m, "encodedDataLength", member_of(resp, "encodedDataLength"));
    push_member(&mut m, "mimeType", member_of(resp, "mimeType"));
    push_member(&mut m, "requestId", p.get("requestId"));
    push_member(&mut m, "resourceType", p.get("type"));
    push_member(&mut m, "responseHeaders", member_of(resp, "headers"));
    push_member(&mut m, "status", member_of(resp, "status"));
    push_member(&mut m, "statusText", member_of(resp, "statusText"));
    push_member(&mut m, "timing", member_of(resp, "timing"));
    push_member(&mut m, "url", member_of(resp, "url"));
    let r = JsonValue::object(m);
    assert(r.model()->Object_0 =~= response_record(event.model())->Object_0);
    r
}

/// Whether a `Page.frameNavigated` event navigated the top-level frame.
pub fn is_top_frame(event: &JsonValue) -> (r: bool)
    ensures
        r == top_frame_navigation(event.model()),
{
    let p = event_params(event);
    member_of(p.get("frame"), "parentId").is_none()
}

/// What a page event asks of the collectors.
pub enum EventAction {
    /// Record this network request or response for the page.
    AddRequest(JsonValue),
    /// Record this console message for the page.
    AddMessage(JsonValue),
    /// The page navigated: start a new load in both collectors.
    Navigated,
    /// Nothing.
    Ignore,
}

/// The action for an event of kind `method` on a page.
pub fn event_action(method: &str, event: &JsonValue) -> (r: EventAction)
    ensures
        method@ == "Network.requestWillBeSent"@ ==> (r matches EventAction::AddRequest(x)
            && x.model() == request_record(event.model())),
        method@ == "Network.responseReceived"@ ==> (r matches EventAction::AddRequest(x)
            && x.model() == response_record(event.model())),
        method@ == "Runtime.consoleAPICalled"@ ==> (r matches EventAction::AddMessage(x)
            && x.model() == params_of(event.model())),
        method@ == "Page.frameNavigated"@ ==> (r is Navigated <==> top_frame_navigation(
            event.model(),
        )) && (r is Navigated || r is Ignore),
        method@ != "Network.requestWillBeSent"@ && method@ != "Network.responseReceived"@
            && method@ != "Runtime.consoleAPICalled"@ && method@ != "Page.frameNavigated"@
            ==> r is Ignore,
{
    proof {
        reveal_strlit("Network.requestWillBeSent");
        reveal_strlit("Network.responseReceived");
        reveal_strlit("Runtime.consoleAPICalled");
        reveal_strlit("Page.frameNavigated");
        assert("Network.requestWillBeSent"@.len() != "Network.responseReceived"@.len());
        assert("Network.requestWillBeSent"@.len() != "Runtime.consoleAPICalled"@.len());
        assert("Network.requestWillBeSent"@.len() != "Page.frameNavigated"@.len());
        assert("Network.responseReceived"@[0] != "Runtime.consoleAPICalled"@[0]);
        assert("Network.responseReceived"@.len() != "Page.frameNavigated"@.len());
        assert("Runtime.consoleAPICalled"@.len() != "Page.frameNavigated"@.len());
    }
    if crate::text::str_eq(method, "Network.requestWillBeSent") {
        EventAction::AddRequest(request_from_event(event))
    } else if crate::text::str_eq(method, "Network.responseReceived") {
        EventAction::AddRequest(response_from_event(event))
    } else if crate::text::str_eq(method, "Runtime.consoleAPICalled") {
        EventAction::AddMessage(event_params(event))
    } else if crate::text::str_eq(method, "Page.frameNavigated") {
        if is_top_frame(event) {
            EventAction::Navigated
        } else {
            EventAction::Ignore
        }
    } else {
        EventAction::Ignore
    }
}

} // verus!
