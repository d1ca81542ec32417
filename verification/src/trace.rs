//! Performance traces: reading the trace file's text, picking out its
//! events, and the insight records and summary sections built from the
//! metrics.

use vstd::prelude::*;

use crate::json::{model_get, str_or, JsonModel, JsonValue};
use crate::text::{decimal, join_seq, join_strings, owned, push_str, push_u64, views_of};

verus! {

// ---------------------------------------------------------------------------
// Trace file text
// ---------------------------------------------------------------------------

/// The text that gzip-compressed bytes decompress to, where they are a
/// valid gzip stream of UTF-8 text.
pub uninterp spec fn gunzip_text(data: Seq<u8>) -> Option<Seq<char>>;

/// The text of bytes read as UTF-8, invalid sequences replaced by U+FFFD.
pub uninterp spec fn lossy_text(data: Seq<u8>) -> Seq<char>;

/// `flate2::read::GzDecoder` read to the end into a `String`.
///
/// Trusted: flate2 decodes a gzip stream; reading it into a `String`
/// fails where the stream is invalid or its contents are not UTF-8. The
/// contract names the decoded text; the error's message is not stated.
#[verifier::external_body]
fn gunzip(data: &[u8]) -> (r: Result<String, String>)
    ensures
        match r {
            Ok(s) => gunzip_text(data@) == Some(s@),
            Err(_) => gunzip_text(data@) is None,
        },
{
    let mut decoder = flate2::read::GzDecoder::new(data);
    let mut text = String::new();
    match std::io::Read::read_to_string(&mut decoder, &mut text) {
        Ok(_) => Ok(text),
        Err(e) => Err(e.to_string()),
    }
}

/// `String::from_utf8_lossy`.
///
/// Trusted: std documents it as the UTF-8 reading of the bytes with each
/// invalid sequence replaced by U+FFFD; the contract names that result.
#[verifier::external_body]
fn utf8_lossy(data: &[u8]) -> (r: String)
    ensures
        r@ == lossy_text(data@),
{
    String::from_utf8_lossy(data).into_owned()
}

/// Whether bytes start with the gzip magic number.
pub open spec fn is_gzip(data: Seq<u8>) -> bool {
    data.len() >= 2 && data[0] == 0x1f && data[1] == 0x8b
}

/// The JSON text of a trace file: decompressed where it is gzipped, else
/// read as UTF-8. Fails where gzipped data cannot be decoded.
pub fn trace_text(data: &[u8]) -> (r: Result<String, String>)
    ensures
        is_gzip(data@) ==> match r {
            Ok(s) => gunzip_text(data@) == Some(s@),
            Err(_) => gunzip_text(data@) is None,
        },
        !is_gzip(data@) ==> (r matches Ok(s) && s@ == lossy_text(data@)),
{
    if data.len() >= 2 && data[0] == 0x1f && data[1] == 0x8b {
        gunzip(data)
    } else {
        Ok(utf8_lossy(data))
    }
}

/// The events of a parsed trace: its `traceEvents` member, or the value
/// itself where it is an array.
pub fn trace_events_value(value: &JsonValue) -> (r: Result<JsonValue, String>)
    ensures
        match model_get(value.model(), "traceEvents"@) {
            Some(ev) => r matches Ok(v) && v.model() == ev,
            None => if value.model() is Array {
                r matches Ok(v) && v.model() == value.model()
            } else {
                r matches Err(e) && e@
                    == "Invalid trace format: expected array or object with traceEvents"@
            },
        },
{
    if let Some(ev) = value.get("traceEvents") {
        return Ok(ev.duplicate());
    }
    match value {
        JsonValue::Array(_) => Ok(value.duplicate()),
        _ => Err(owned("Invalid trace format: expected array or object with traceEvents")),
    }
}

// ---------------------------------------------------------------------------
// Requests found in a trace
// ---------------------------------------------------------------------------

/// The request a `ResourceSendRequest` trace event describes (its times
/// are read by the caller).
pub struct SendRequestRecord {
    pub url: String,
    pub method: String,
    pub resource_type: Option<String>,
    pub render_blocking: bool,
}

/// Reads the request of a `ResourceSendRequest` event from the event's
/// `args`: from `args.data`, the URL (empty where missing), the method
/// (`GET` where missing), the resource type, and whether its
/// `renderBlocking` is anything but `non_blocking`. Nothing where the event
/// has no `data`.
pub fn send_request_record(args: &JsonValue) -> (r: Option<SendRequestRecord>)
    ensures
        match model_get(args.model(), "data"@) {
            Some(d) => r matches Some(x) && x.url@ == str_or(model_get(d, "url"@), ""@) && x.method@
                == str_or(model_get(d, "requestMethod"@), "GET"@) && x.resource_type.is_some()
                == crate::json::opt_str(model_get(d, "resourceType"@)).is_some() && (
            x.resource_type matches Some(t) ==> Some(t@) == crate::json::opt_str(
                model_get(d, "resourceType"@),
            )) && x.render_blocking == (str_or(model_get(d, "renderBlocking"@), "non_blocking"@)
                != "non_blocking"@),
            None => r is None,
        },
{
    match args.get("data") {
        Some(d) => {
            let url = d.get_str_or("url", "");
            let method = d.get_str_or("requestMethod", "GET");
            let resource_type = match d.get("resourceType") {
                Some(v) => match v.as_str() {
                    Some(t) => Some(owned(t)),
                    None => None,
                },
                None => None,
            };
            let blocking = d.get_str_or("renderBlocking", "non_blocking");
            let render_blocking = !crate::text::str_eq(blocking.as_str(), "non_blocking");
            Some(SendRequestRecord { url, method, resource_type, render_blocking })
        },
        None => None,
    }
}

// ---------------------------------------------------------------------------
// Insights
// ---------------------------------------------------------------------------

/// How serious an insight is.
#[derive(Clone, Copy, Debug, PartialEq, Eq, Structural)]
pub enum InsightSeverity {
    Info,
    Warning,
    Error,
}

/// A performance insight derived from trace analysis.
pub struct TraceInsight {
    pub name: String,
    pub description: String,
    pub details: String,
    pub severity: InsightSeverity,
}

/// The advice given for a Largest Contentful Paint of a severity.
pub open spec fn lcp_advice(s: InsightSeverity) -> Seq<char> {
    match s {
        InsightSeverity::Error => "LCP is poor (>4s). Consider optimizing images, reducing server response time, and eliminating render-blocking resources."@,
        InsightSeverity::Warning => "LCP needs improvement (>2.5s). Review resource loading priorities and critical rendering path."@,
        InsightSeverity::Info => "LCP is good (<2.5s)."@,
    }
}

/// The advice given for a Cumulative Layout Shift of a severity.
pub open spec fn cls_advice(s: InsightSeverity) -> Seq<char> {
    match s {
        InsightSeverity::Error => "CLS is poor (>0.25). Set explicit dimensions on images/ads, avoid dynamically injected content."@,
        InsightSeverity::Warning => "CLS needs improvement (>0.1). Review elements that shift during page load."@,
        InsightSeverity::Info => "CLS is good (<0.1)."@,
    }
}

/// The advice for a Largest Contentful Paint of a severity.
pub fn lcp_details(s: InsightSeverity) -> (r: String)
    ensures
        r@ == lcp_advice(s),
{
    match s {
        InsightSeverity::Error => owned(
            "LCP is poor (>4s). Consider optimizing images, reducing server response time, and eliminating render-blocking resources.",
        ),
        InsightSeverity::Warning => owned(
            "LCP needs improvement (>2.5s). Review resource loading priorities and critical rendering path.",
        ),
        InsightSeverity::Info => owned("LCP is good (<2.5s)."),
    }
}

/// The advice for a Cumulative Layout Shift of a severity.
pub fn cls_details(s: InsightSeverity) -> (r: String)
    ensures
        r@ == cls_advice(s),
{
    match s {
        InsightSeverity::Error => owned(
            "CLS is poor (>0.25). Set explicit dimensions on images/ads, avoid dynamically injected content.",
        ),
        InsightSeverity::Warning => owned(
            "CLS needs improvement (>0.1). Review elements that shift during page load.",
        ),
        InsightSeverity::Info => owned("CLS is good (<0.1)."),
    }
}

/// The advice given with the long task insight.
pub fn long_task_details() -> (r: String)
    ensures
        r@ == "Long tasks (>50ms) block the main thread. Consider code splitting, deferring non-critical work, or moving computation to web workers."@,
{
    owned(
        "Long tasks (>50ms) block the main thread. Consider code splitting, deferring non-critical work, or moving computation to web workers.",
    )
}

/// The URLs of the render-blocking requests among (URL, render-blocking)
/// pairs, in order.
pub open spec fn blocking_urls(reqs: Seq<(Seq<char>, bool)>) -> Seq<Seq<char>>
    decreases reqs.len(),
{
    if reqs.len() == 0 {
        Seq::empty()
    } else if reqs.last().1 {
        blocking_urls(reqs.drop_last()).push(reqs.last().0)
    } else {
        blocking_urls(reqs.drop_last())
    }
}

/// The insight about render-blocking requests, where there are any: their
/// number, and their URLs one per line.
pub fn render_blocking_insight(requests: &Vec<(String, bool)>) -> (r: Option<TraceInsight>)
    ensures
        ({
            let urls = blocking_urls(requests@.map_values(|p: (String, bool)| (p.0@, p.1)));
            match r {
                None => urls.len() == 0,
                Some(ins) => urls.len() > 0 && ins.name@ == "Render Blocking Resources"@
                    && ins.description@ == decimal(urls.len()) + " render-blocking resources found"@
                    && ins.details@ == "These resources block rendering:\n"@ + join_seq(urls, "\n"@)
                    && ins.severity == InsightSeverity::Warning,
            }
        }),
{
    let ghost all = requests@.map_values(|p: (String, bool)| (p.0@, p.1));
    let mut urls: Vec<String> = Vec::new();
    let mut i: usize = 0;
    while i < requests.len()
        invariant
            i <= requests@.len(),
            all == requests@.map_values(|p: (String, bool)| (p.0@, p.1)),
            views_of(urls@) == blocking_urls(all.take(i as int)),
        decreases requests@.len() - i,
    {
        assert(all.take(i + 1).drop_last() =~= all.take(i as int));
        assert(all.take(i + 1).last() == (requests@[i as int].0@, requests@[i as int].1));
        if requests[i].1 {
            let ghost before = views_of(urls@);
            urls.push(requests[i].0.clone());
            assert(views_of(urls@) =~= before.push(requests@[i as int].0@));
        }
        i = i + 1;
    }
    assert(all.take(requests@.len() as int) =~= all);
    if urls.len() == 0 {
        return None;
    }
    let mut description = String::new();
    push_u64(&mut description, urls.len() as u64);
    push_str(&mut description, " render-blocking resources found");
    let mut details = owned("These resources block rendering:\n");
    push_str(&mut details, join_strings(&urls, "\n").as_str());
    Some(
        TraceInsight {
            name: owned("Render Blocking Resources"),
            description,
            details,
            severity: InsightSeverity::Warning,
        },
    )
}

// ---------------------------------------------------------------------------
// Summary sections
// ---------------------------------------------------------------------------

/// The marker shown before an insight of a severity.
pub open spec fn icon_of(s: InsightSeverity) -> Seq<char> {
    match s {
        InsightSeverity::Error => "[!]"@,
        InsightSeverity::Warning => "[~]"@,
        InsightSeverity::Info => "[i]"@,
    }
}

/// The marker shown before an insight.
pub fn insight_icon(s: InsightSeverity) -> (r: &'static str)
    ensures
        r@ == icon_of(s),
{
    match s {
        InsightSeverity::Error => "[!]",
        InsightSeverity::Warning => "[~]",
        InsightSeverity::Info => "[i]",
    }
}

/// The entries of the insights section.
pub open spec fn insight_entries(ins: Seq<TraceInsight>) -> Seq<char>
    decreases ins.len(),
{
    if ins.len() == 0 {
        Seq::empty()
    } else {
        let x = ins.last();
        insight_entries(ins.drop_last()) + icon_of(x.severity) + " **"@ + x.name@ + "**: "@
            + x.description@ + "\n  "@ + x.details@ + "\n\n"@
    }
}

/// The insights section of a trace summary (nothing where there are no
/// insights).
pub open spec fn insights_section_text(ins: Seq<TraceInsight>) -> Seq<char> {
    if ins.len() == 0 {
        Seq::empty()
    } else {
        "### Insights\n"@ + insight_entries(ins)
    }
}

/// Renders the insights section of a trace summary.
pub fn insights_section(insights: &[TraceInsight]) -> (r: String)
    ensures
        r@ == insights_section_text(insights@),
{
    if insights.len() == 0 {
        return String::new();
    }
    let mut out = owned("### Insights\n");
    let ghost head = out@;
    let mut i: usize = 0;
    while i < insights.len()
        invariant
            i <= insights@.len(),
            out@ == head + insight_entries(insights@.take(i as int)),
        decreases insights@.len() - i,
    {
        assert(insights@.take(i + 1).drop_last() =~= insights@.take(i as int));
        let x = &insights[i];
        push_str(&mut out, insight_icon(x.severity));
        push_str(&mut out, " **");
        push_str(&mut out, x.name.as_str());
        push_str(&mut out, "**: ");
        push_str(&mut out, x.description.as_str());
        push_str(&mut out, "\n  ");
        push_str(&mut out, x.details.as_str());
        push_str(&mut out, "\n\n");
        i = i + 1;
        assert(out@ =~= head + insight_entries(insights@.take(i as int)));
    }
    assert(insights@.take(insights@.len() as int) =~= insights@);
    out
}

/// The main-thread and network sections of a trace summary: shown where
/// there are long tasks, and where there are requests.
pub open spec fn counts_section_text(long_tasks: nat, requests: nat) -> Seq<char> {
    (if long_tasks > 0 {
        "### Main Thread\n- "@ + decimal(long_tasks) + " long tasks (>50ms)\n\n"@
    } else {
        Seq::empty()
    }) + (if requests > 0 {
        "### Network\n- "@ + decimal(requests) + " requests\n\n"@
    } else {
        Seq::empty()
    })
}

/// Renders the main-thread and network sections of a trace summary.
pub fn counts_section(long_task_count: usize, request_count: usize) -> (r: String)
    ensures
        r@ == counts_section_text(long_task_count as nat, request_count as nat),
{
    let mut out = String::new();
    if long_task_count > 0 {
        push_str(&mut out, "### Main Thread\n- ");
        push_u64(&mut out, long_task_count as u64);
        push_str(&mut out, " long tasks (>50ms)\n\n");
    }
    let ghost mid = out@;
    if request_count > 0 {
        push_str(&mut out, "### Network\n- ");
        push_u64(&mut out, request_count as u64);
        push_str(&mut out, " requests\n\n");
    }
    assert(out@ =~= counts_section_text(long_task_count as nat, request_count as nat));
    out
}

// ---------------------------------------------------------------------------
// Collected events and stored results
// ---------------------------------------------------------------------------

/// The trace events a `Tracing.dataCollected` event delivers: the array
/// under `params.value` (or `value` where the event has no `params`).
pub open spec fn chunk_events(event: JsonModel) -> Seq<JsonModel> {
    match model_get(crate::events::params_of(event), "value"@) {
        Some(JsonModel::Array(vs)) => vs,
        _ => Seq::empty(),
    }
}

/// Appends the trace events of a `Tracing.dataCollected` event to `all`.
pub fn collect_chunk(all: &mut Vec<JsonValue>, event: &JsonValue)
    ensures
        final(all)@.len() == old(all)@.len() + chunk_events(event.model()).len(),
        forall|i: int| 0 <= i < old(all)@.len() ==> #[trigger] final(all)@[i] == old(all)@[i],
        forall|i: int|
            0 <= i < chunk_events(event.model()).len() ==> #[trigger] final(all)@[old(all)@.len()
                + i].model() == chunk_events(event.model())[i],
{
    let params = crate::events::event_params(event);
    if let Some(v) = params.get("value") {
        if let JsonValue::Array(vs) = v {
            let ghost start = all@;
            let ghost vm = v.model()->Array_0;
            let mut i: usize = 0;
            while i < vs.len()
                invariant
                    i <= vs@.len(),
                    vm.len() == vs@.len(),
                    forall|k: int| 0 <= k < vs@.len() ==> #[trigger] vm[k] == vs@[k].model(),
                    all@.len() == start.len() + i,
                    forall|k: int| 0 <= k < start.len() ==> #[trigger] all@[k] == start[k],
                    forall|k: int| 0 <= k < i ==> #[trigger] all@[start.len() + k].model() == vm[k],
                decreases vs@.len() - i,
            {
                all.push(vs[i].duplicate());
                i = i + 1;
            }
        }
    }
}

/// The insight at `index` among those of the stored trace result, or why
/// there is none.
pub open spec fn insight_lookup_model(results: Seq<JsonModel>, index: nat) -> Result<JsonModel, Seq<char>> {
    if results.len() == 0 {
        Err("No trace results available. Run a performance trace first."@)
    } else {
        let insights = match model_get(results[0], "insights"@) {
            Some(JsonModel::Array(xs)) => xs,
            _ => Seq::empty(),
        };
        if index < insights.len() {
            Ok(insights[index as int])
        } else {
            Err("Insight at index "@ + decimal(index) + " not found ("@ + decimal(insights.len())
                + " available)"@)
        }
    }
}

/// Looks up an insight of the stored trace result.
pub fn insight_lookup(results: &[JsonValue], index: usize) -> (r: Result<JsonValue, String>)
    ensures
        match insight_lookup_model(results@.map_values(|v: JsonValue| v.model()), index as nat) {
            Ok(m) => r matches Ok(v) && v.model() == m,
            Err(e) => r matches Err(x) && x@ == e,
        },
{
    let ghost rm = results@.map_values(|v: JsonValue| v.model());
    if results.len() == 0 {
        return Err(owned("No trace results available. Run a performance trace first."));
    }
    assert(rm[0] == results@[0].model());
    let insights = match results[0].get("insights") {
        Some(v) => v.as_array(),
        None => None,
    };
    let count: usize = match insights {
        Some(xs) => xs.len(),
        None => 0,
    };
    match insights {
        Some(xs) => {
            if index < xs.len() {
                return Ok(xs[index].duplicate());
            }
        },
        None => {},
    }
    let mut e = owned("Insight at index ");
    push_u64(&mut e, index as u64);
    push_str(&mut e, " not found (");
    push_u64(&mut e, count as u64);
    push_str(&mut e, " available)");
    Err(e)
}

} // verus!
