//! Network request formatter: renders the recorded requests and responses
//! as summary lines, filtered pages of them, and a detailed view.
//!
//! Sizes, durations and timing figures are floating-point renderings; they
//! come in already rendered, as `RequestFigures`.

use vstd::prelude::*;

use crate::issue::first_present;
use crate::json::{model_get, opt_i64, opt_str, str_or, JsonModel, JsonValue};
use crate::json_write::{json_text, to_json_text};
use crate::pagination::{info_text, page_count, page_items, page_start, paginate, can_paginate};
use crate::text::{
    chars_of, contains_seq, contains_str, decimal, eq_ignore_ascii_case, eq_ignore_case,
    join_seq, join_strings, owned, push_char, push_str, push_u64, push_i64, signed_decimal,
    views_of,
};

verus! {

/// The rendered figures of one request.
pub struct RequestFigures {
    /// The transfer size, where the request gives one.
    pub size: Option<String>,
    /// The duration, where it can be worked out.
    pub duration: Option<String>,
    /// The lines of the timing breakdown, each ending in a newline.
    pub timing_lines: Vec<String>,
}

/// The view of `RequestFigures`.
pub struct FiguresModel {
    pub size: Option<Seq<char>>,
    pub duration: Option<Seq<char>>,
    pub timing_lines: Seq<Seq<char>>,
}

impl RequestFigures {
    pub open spec fn model(self) -> FiguresModel {
        FiguresModel {
            size: match self.size {
                Some(s) => Some(s@),
                None => None,
            },
            duration: match self.duration {
                Some(s) => Some(s@),
                None => None,
            },
            timing_lines: views_of(self.timing_lines@),
        }
    }
}

// ---------------------------------------------------------------------------
// Specification
// ---------------------------------------------------------------------------

/// The status shown for a request: its integer status, or `pending`.
pub open spec fn status_text(req: JsonModel) -> Seq<char> {
    match opt_i64(model_get(req, "status"@)) {
        Some(s) => signed_decimal(s as int),
        None => "pending"@,
    }
}

/// The content type of a request: `mimeType`, else `contentType`.
pub open spec fn content_type(req: JsonModel) -> Option<Seq<char>> {
    opt_str(first_present(model_get(req, "mimeType"@), model_get(req, "contentType"@)))
}

/// An optional item as a list of at most one.
pub open spec fn opt_item(o: Option<Seq<char>>) -> Seq<Seq<char>> {
    match o {
        Some(x) => seq![x],
        None => Seq::empty(),
    }
}

/// The metadata shown after a request's summary: a non-empty content type,
/// the size and the duration.
pub open spec fn request_meta(req: JsonModel, f: FiguresModel) -> Seq<Seq<char>> {
    (match content_type(req) {
        Some(c) if c.len() > 0 => seq![c],
        _ => Seq::empty(),
    }) + opt_item(f.size) + opt_item(f.duration)
}

/// The summary line of a request shown at position `index`.
pub open spec fn request_line(req: JsonModel, index: nat, f: FiguresModel) -> Seq<char> {
    let meta = request_meta(req, f);
    "["@ + decimal(index) + "] "@ + str_or(model_get(req, "method"@), "GET"@) + " "@ + str_or(
        model_get(req, "url"@),
        "?"@,
    ) + " -> "@ + status_text(req) + (if meta.len() == 0 {
        Seq::empty()
    } else {
        " ("@ + join_seq(meta, ", "@) + ")"@
    })
}

/// Whether a request passes the URL filter (a substring of its URL) and the
/// resource type filter (equal up to ASCII case).
pub open spec fn request_matches(
    req: JsonModel,
    url_filter: Option<Seq<char>>,
    type_filter: Option<Seq<char>>,
) -> bool {
    (match url_filter {
        Some(uf) => contains_seq(str_or(model_get(req, "url"@), ""@), uf),
        None => true,
    }) && (match type_filter {
        Some(tf) => eq_ignore_ascii_case(str_or(model_get(req, "resourceType"@), ""@), tf),
        None => true,
    })
}

/// The requests (with their figures) that pass the filters, in order.
pub open spec fn filtered(
    reqs: Seq<(JsonModel, FiguresModel)>,
    url_filter: Option<Seq<char>>,
    type_filter: Option<Seq<char>>,
) -> Seq<(JsonModel, FiguresModel)>
    decreases reqs.len(),
{
    if reqs.len() == 0 {
        Seq::empty()
    } else {
        let rest = filtered(reqs.drop_last(), url_filter, type_filter);
        if request_matches(reqs.last().0, url_filter, type_filter) {
            rest.push(reqs.last())
        } else {
            rest
        }
    }
}

/// The summary lines of a page of requests, numbered from `first`.
pub open spec fn request_lines(reqs: Seq<(JsonModel, FiguresModel)>, first: nat) -> Seq<char>
    decreases reqs.len(),
{
    if reqs.len() == 0 {
        Seq::empty()
    } else {
        request_lines(reqs.drop_last(), first) + request_line(
            reqs.last().0,
            (first + reqs.len() - 1) as nat,
            reqs.last().1,
        ) + "\n"@
    }
}

/// A filtered page of requests under its pagination header.
pub open spec fn requests_page_text(
    reqs: Seq<(JsonModel, FiguresModel)>,
    url_filter: Option<Seq<char>>,
    type_filter: Option<Seq<char>>,
    page: nat,
    page_size: nat,
) -> Seq<char> {
    let f = filtered(reqs, url_filter, type_filter);
    if f.len() == 0 {
        "No matching network requests."@
    } else {
        info_text(page, page_count(f.len(), page_size), f.len()) + "\n\n"@ + request_lines(
            page_items(f, page, page_size),
            page_start(page, page_size),
        )
    }
}

/// The number of bytes of the UTF-8 encoding of a character.
pub open spec fn utf8_width(c: char) -> nat {
    if (c as u32) < 0x80 {
        1
    } else if (c as u32) < 0x800 {
        2
    } else if (c as u32) < 0x10000 {
        3
    } else {
        4
    }
}

/// The number of bytes of the UTF-8 encoding of a string.
pub open spec fn utf8_len(s: Seq<char>) -> nat
    decreases s.len(),
{
    if s.len() == 0 {
        0
    } else {
        utf8_len(s.drop_last()) + utf8_width(s.last())
    }
}

/// The header lines of a header object: `  name: value`, string values as
/// they are and others as JSON text.
pub open spec fn header_lines(hs: Seq<(Seq<char>, JsonModel)>) -> Seq<char>
    decreases hs.len(),
{
    if hs.len() == 0 {
        Seq::empty()
    } else {
        let (k, v) = hs.last();
        header_lines(hs.drop_last()) + "  "@ + k + ": "@ + (match v {
            JsonModel::String(s) => s,
            _ => json_text(v),
        }) + "\n"@
    }
}

/// A headers section, shown where the member is an object.
pub open spec fn headers_section(req: JsonModel, key: Seq<char>, title: Seq<char>) -> Seq<char> {
    match model_get(req, key) {
        Some(JsonModel::Object(hs)) => title + header_lines(hs),
        _ => Seq::empty(),
    }
}

/// A line shown where its value is present.
pub open spec fn line_if(label: Seq<char>, v: Option<Seq<char>>) -> Seq<char> {
    match v {
        Some(x) => label + x + "\n"@,
        None => Seq::empty(),
    }
}

/// The body preview: the first 1000 characters, with a truncation note
/// where the body is longer than 1000 bytes.
pub open spec fn body_section(req: JsonModel) -> Seq<char> {
    match opt_str(model_get(req, "body"@)) {
        Some(b) => "\n### Body Preview\n"@ + (if b.len() > 1000 {
            b.take(1000)
        } else {
            b
        }) + (if utf8_len(b) > 1000 {
            "\n... (truncated)"@
        } else {
            Seq::empty()
        }) + "\n"@,
        None => Seq::empty(),
    }
}

/// The detailed view of one request.
pub open spec fn request_detail(req: JsonModel, f: FiguresModel) -> Seq<char> {
    detail_head(req, f) + headers_section(req, "requestHeaders"@, "\n### Request Headers\n"@)
        + headers_section(req, "responseHeaders"@, "\n### Response Headers\n"@) + timing_section(
        req,
        f,
    ) + body_section(req)
}

// ---------------------------------------------------------------------------
// Implementation
// ---------------------------------------------------------------------------

fn push_status(out: &mut String, req: &JsonValue)
    ensures
        final(out)@ == old(out)@ + status_text(req.model()),
{
    let status = match req.get("status") {
        Some(v) => v.as_i64(),
        None => None,
    };
    match status {
        Some(s) => push_i64(out, s),
        None => push_str(out, "pending"),
    }
}

fn clone_opt_string(o: &Option<String>) -> (r: Option<String>)
    ensures
        match r {
            Some(x) => o matches Some(y) && x@ == y@,
            None => o is None,
        },
{
    match o {
        Some(s) => Some(s.clone()),
        None => None,
    }
}

/// Format a single network request summary line:
/// `[index] METHOD URL -> STATUS (content type, size, duration)`.
pub fn format_network_request(req: &JsonValue, index: usize, figures: &RequestFigures) -> (r:
    String)
    ensures
        r@ == request_line(req.model(), index as nat, figures.model()),
{
    let mut meta: Vec<String> = Vec::new();
    let ct = match req.get("mimeType") {
        Some(v) => Some(v),
        None => req.get("contentType"),
    };
    if let Some(v) = ct {
        if let Some(c) = v.as_str() {
            if c.unicode_len() > 0 {
                meta.push(owned(c));
            }
        }
    }
    let ghost m1 = views_of(meta@);
    if let Some(s) = clone_opt_string(&figures.size) {
        meta.push(s);
    }
    let ghost m2 = views_of(meta@);
    assert(m2 =~= m1 + opt_item(figures.model().size));
    if let Some(d) = clone_opt_string(&figures.duration) {
        meta.push(d);
    }
    assert(views_of(meta@) =~= request_meta(req.model(), figures.model()));
    let mut out = owned("[");
    push_u64(&mut out, index as u64);
    push_str(&mut out, "] ");
    push_str(&mut out, req.get_str_or("method", "GET").as_str());
    push_str(&mut out, " ");
    push_str(&mut out, req.get_str_or("url", "?").as_str());
    push_str(&mut out, " -> ");
    push_status(&mut out, req);
    let ghost head = out@;
    if meta.len() > 0 {
        push_str(&mut out, " (");
        push_str(&mut out, join_strings(&meta, ", ").as_str());
        push_str(&mut out, ")");
    }
    assert(out@ =~= request_line(req.model(), index as nat, figures.model()));
    out
}

/// Whether a request passes the URL and resource type filters.
pub fn request_passes(req: &JsonValue, url_filter: Option<&str>, type_filter: Option<&str>) -> (r:
    bool)
    ensures
        r == request_matches(
            req.model(),
            match url_filter {
                Some(u) => Some(u@),
                None => None,
            },
            match type_filter {
                Some(t) => Some(t@),
                None => None,
            },
        ),
{
    if let Some(uf) = url_filter {
        let url = chars_of(req.get_str_or("url", "").as_str());
        if !contains_str(&url, uf) {
            return false;
        }
    }
    if let Some(tf) = type_filter {
        let rtype = chars_of(req.get_str_or("resourceType", "").as_str());
        let t = chars_of(tf);
        if !eq_ignore_case(&rtype, &t) {
            return false;
        }
    }
    true
}

/// The requests paired with their figures.
pub open spec fn with_figures(reqs: Seq<JsonValue>, figures: Seq<RequestFigures>) -> Seq<
    (JsonModel, FiguresModel),
> {
    Seq::new(reqs.len(), |i: int| (reqs[i].model(), figures[i].model()))
}

/// `kept` lists, in order, the positions in `all` of the items of `f`.
pub open spec fn picks(
    kept: Seq<usize>,
    all: Seq<(JsonModel, FiguresModel)>,
    f: Seq<(JsonModel, FiguresModel)>,
) -> bool {
    &&& kept.len() == f.len()
    &&& forall|k: int| 0 <= k < kept.len() ==> #[trigger] kept[k] < all.len()
    &&& forall|k: int| 0 <= k < kept.len() ==> all[kept[k] as int] == #[trigger] f[k]
}

/// The indices of the requests that pass the filters, in order.
#[verifier::loop_isolation(false)]
fn matching_indices(
    requests: &[JsonValue],
    url_filter: Option<&str>,
    type_filter: Option<&str>,
    figures: &[RequestFigures],
) -> (kept: Vec<usize>)
    requires
        figures@.len() == requests@.len(),
    ensures
        picks(
            kept@,
            with_figures(requests@, figures@),
            filtered(
                with_figures(requests@, figures@),
                match url_filter {
                    Some(u) => Some(u@),
                    None => None,
                },
                match type_filter {
                    Some(t) => Some(t@),
                    None => None,
                },
            ),
        ),
{
    let ghost uf = match url_filter {
        Some(u) => Some(u@),
        None => None,
    };
    let ghost tf = match type_filter {
        Some(t) => Some(t@),
        None => None,
    };
    let ghost all = with_figures(requests@, figures@);
    let mut kept: Vec<usize> = Vec::new();
    let mut i: usize = 0;
    while i < requests.len()
        invariant
            i <= requests@.len(),
            figures@.len() == requests@.len(),
            all == with_figures(requests@, figures@),
            kept@.len() == filtered(all.take(i as int), uf, tf).len(),
            forall|k: int| 0 <= k < kept@.len() ==> #[trigger] kept@[k] < i,
            forall|k: int|
                0 <= k < kept@.len() ==> all[kept@[k] as int] == #[trigger] filtered(
                    all.take(i as int),
                    uf,
                    tf,
                )[k],
        decreases requests@.len() - i,
    {
        let ghost prevf = filtered(all.take(i as int), uf, tf);
        assert(all.take(i + 1).drop_last() =~= all.take(i as int));
        assert(all.take(i + 1).last() == all[i as int]);
        assert(all[i as int].0 == requests@[i as int].model());
        let pass = request_passes(&requests[i], url_filter, type_filter);
        assert(pass == request_matches(all[i as int].0, uf, tf));
        let ghost t1 = all.take(i + 1);
        assert(t1.len() > 0);
        assert(filtered(t1, uf, tf) == (if request_matches(t1.last().0, uf, tf) {
            filtered(t1.drop_last(), uf, tf).push(t1.last())
        } else {
            filtered(t1.drop_last(), uf, tf)
        }));
        if pass {
            kept.push(i);
            assert(filtered(all.take(i + 1), uf, tf) == prevf.push(all[i as int]));
        } else {
            assert(filtered(all.take(i + 1), uf, tf) == prevf);
        }
        i = i + 1;
    }
    assert(all.take(requests@.len() as int) =~= all);
    assert(picks(kept@, all, filtered(all, uf, tf)));
    kept
}

/// Format a paginated, filtered list of network requests; `figures[i]`
/// holds the rendered figures of `requests[i]`.
pub fn format_network_requests(
    requests: &[JsonValue],
    url_filter: Option<&str>,
    type_filter: Option<&str>,
    page: usize,
    page_size: usize,
    figures: &[RequestFigures],
) -> (r: String)
    requires
        figures@.len() == requests@.len(),
        can_paginate(
            filtered(
                with_figures(requests@, figures@),
                match url_filter {
                    Some(u) => Some(u@),
                    None => None,
                },
                match type_filter {
                    Some(t) => Some(t@),
                    None => None,
                },
            ).len(),
            page as nat,
            page_size as nat,
        ),
    ensures
        r@ == requests_page_text(
            with_figures(requests@, figures@),
            match url_filter {
                Some(u) => Some(u@),
                None => None,
            },
            match type_filter {
                Some(t) => Some(t@),
                None => None,
            },
            page as nat,
            page_size as nat,
        ),
{
    let ghost uf = match url_filter {
        Some(u) => Some(u@),
        None => None,
    };
    let ghost tf = match type_filter {
        Some(t) => Some(t@),
        None => None,
    };
    let ghost all = with_figures(requests@, figures@);
    let kept = matching_indices(requests, url_filter, type_filter, figures);
    let ghost f = filtered(all, uf, tf);
    assert(picks(kept@, all, f));
    if kept.len() == 0 {
        return owned("No matching network requests.");
    }
    let (shown, info) = paginate(kept.as_slice(), page, page_size);
    let ghost first = page_start(page as nat, page_size as nat);
    let ghost fshown = page_items(f, page as nat, page_size as nat);
    proof {
        let n = kept@.len();
        if first < n {
            let end: int = if first + page_size < n {
                (first + page_size) as int
            } else {
                n as int
            };
            assert(shown@ == kept@.subrange(first as int, end));
            assert(fshown == f.subrange(first as int, end));
            assert forall|k: int| 0 <= k < shown@.len() implies all[shown@[k] as int]
                == #[trigger] fshown[k] by {
                assert(shown@[k] == kept@[first + k]);
                assert(fshown[k] == f[first + k]);
                assert(0 <= first + k < kept@.len());
            }
        } else {
            assert(shown@.len() == 0);
            assert(fshown.len() == 0);
        }
    }
    let mut out = info.text();
    push_str(&mut out, "\n\n");
    let base = info.page.saturating_sub(1) * info.page_size;
    assert(base == first);
    push_request_lines(&mut out, requests, figures, shown, base, Ghost(fshown));
    out
}

fn push_request_lines(
    out: &mut String,
    requests: &[JsonValue],
    figures: &[RequestFigures],
    shown: &[usize],
    base: usize,
    fshown: Ghost<Seq<(JsonModel, FiguresModel)>>,
)
    requires
        figures@.len() == requests@.len(),
        base + shown@.len() <= usize::MAX,
        fshown@.len() == shown@.len(),
        forall|k: int| 0 <= k < shown@.len() ==> #[trigger] shown@[k] < requests@.len(),
        forall|k: int|
            0 <= k < shown@.len() ==> with_figures(requests@, figures@)[shown@[k] as int]
                == #[trigger] fshown@[k],
    ensures
        final(out)@ == old(out)@ + request_lines(fshown@, base as nat),
{
    let ghost all = with_figures(requests@, figures@);
    let ghost fs = fshown@;
    let ghost head = out@;
    let mut j: usize = 0;
    while j < shown.len()
        invariant
            j <= shown@.len(),
            base + shown@.len() <= usize::MAX,
            figures@.len() == requests@.len(),
            fs.len() == shown@.len(),
            forall|k: int| 0 <= k < shown@.len() ==> #[trigger] shown@[k] < requests@.len(),
            forall|k: int| 0 <= k < shown@.len() ==> all[shown@[k] as int] == #[trigger] fs[k],
            all == with_figures(requests@, figures@),
            out@ == head + request_lines(fs.take(j as int), base as nat),
        decreases shown@.len() - j,
    {
        assert(fs.take(j + 1).drop_last() =~= fs.take(j as int));
        assert(fs.take(j + 1).last() == fs[j as int]);
        let at = shown[j];
        assert(all[at as int] == (requests@[at as int].model(), figures@[at as int].model()));
        let line = format_network_request(&requests[at], base + j, &figures[at]);
        push_str(out, line.as_str());
        push_str(out, "\n");
        j = j + 1;
        assert(out@ =~= head + request_lines(fs.take(j as int), base as nat));
    }
    assert(fs.take(shown@.len() as int) =~= fs);
}

fn push_headers(out: &mut String, req: &JsonValue, key: &str, title: &str)
    ensures
        final(out)@ == old(out)@ + headers_section(req.model(), key@, title@),
{
    let ghost start = out@;
    if let Some(h) = req.get(key) {
        if let JsonValue::Object(hs) = h {
            let ghost hm = h.model()->Object_0;
            push_str(out, title);
            let ghost head = out@;
            let mut i: usize = 0;
            while i < hs.len()
                invariant
                    i <= hs@.len(),
                    hm.len() == hs@.len(),
                    forall|k: int| 0 <= k < hs@.len() ==> #[trigger] hm[k] == (hs@[k].0@, hs@[k].1.model()),
                    out@ == head + header_lines(hm.take(i as int)),
                decreases hs@.len() - i,
            {
                assert(hm.take(i + 1).drop_last() =~= hm.take(i as int));
                assert(hm.take(i + 1).last() == hm[i as int]);
                push_str(out, "  ");
                push_str(out, hs[i].0.as_str());
                push_str(out, ": ");
                match &hs[i].1 {
                    JsonValue::String(s) => push_str(out, s.as_str()),
                    other => push_str(out, to_json_text(other).as_str()),
                }
                push_str(out, "\n");
                i = i + 1;
                assert(out@ =~= head + header_lines(hm.take(i as int)));
            }
            assert(hm.take(hs@.len() as int) =~= hm);
            return;
        }
    }
    assert(out@ =~= start + headers_section(req.model(), key@, title@));
}

fn push_line_if(out: &mut String, label: &str, v: &Option<String>)
    ensures
        final(out)@ == old(out)@ + line_if(
            label@,
            match v {
                Some(x) => Some(x@),
                None => None,
            },
        ),
{
    let ghost start = out@;
    if let Some(x) = v {
        push_str(out, label);
        push_str(out, x.as_str());
        push_str(out, "\n");
    }
    assert(out@ =~= start + line_if(
        label@,
        match v {
            Some(x) => Some(x@),
            None => None,
        },
    ));
}

fn str_member(req: &JsonValue, key: &str) -> (r: Option<String>)
    ensures
        match r {
            Some(x) => opt_str(model_get(req.model(), key@)) == Some(x@),
            None => opt_str(model_get(req.model(), key@)) is None,
        },
{
    match req.get(key) {
        Some(v) => match v.as_str() {
            Some(s) => Some(owned(s)),
            None => None,
        },
        None => None,
    }
}

fn utf8_length_exceeds(s: &Vec<char>, limit: u64) -> (r: bool)
    requires
        limit <= 1000000,
    ensures
        r == (utf8_len(s@) > limit),
{
    let mut total: u64 = 0;
    let mut i: usize = 0;
    while i < s.len()
        invariant
            i <= s@.len(),
            total == utf8_len(s@.take(i as int)),
            total <= limit,
            limit <= 1000000,
        decreases s@.len() - i,
    {
        assert(s@.take(i + 1).drop_last() =~= s@.take(i as int));
        let c = s[i];
        let w: u64 = if (c as u32) < 0x80 {
            1
        } else if (c as u32) < 0x800 {
            2
        } else if (c as u32) < 0x10000 {
            3
        } else {
            4
        };
        total = total + w;
        i = i + 1;
        if total > limit {
            proof {
                lemma_utf8_len_prefix(s@, i as int);
            }
            return true;
        }
    }
    assert(s@.take(s@.len() as int) =~= s@);
    false
}

proof fn lemma_utf8_len_prefix(s: Seq<char>, n: int)
    requires
        0 <= n <= s.len(),
    ensures
        utf8_len(s.take(n)) <= utf8_len(s),
    decreases s.len(),
{
    if n < s.len() {
        assert(s.drop_last().take(n) =~= s.take(n));
        lemma_utf8_len_prefix(s.drop_last(), n);
    } else {
        assert(s.take(n) =~= s);
    }
}

fn push_body(out: &mut String, req: &JsonValue)
    ensures
        final(out)@ == old(out)@ + body_section(req.model()),
{
    let ghost start = out@;
    if let Some(b) = str_member(req, "body") {
        let cs = chars_of(b.as_str());
        push_str(out, "\n### Body Preview\n");
        let n: usize = if cs.len() > 1000 {
            1000
        } else {
            cs.len()
        };
        crate::text::push_chars_range(out, &cs, 0, n);
        assert(cs@.subrange(0, n as int) =~= (if cs@.len() > 1000 {
            cs@.take(1000)
        } else {
            cs@
        }));
        if utf8_length_exceeds(&cs, 1000) {
            push_str(out, "\n... (truncated)");
        }
        push_str(out, "\n");
        assert(out@ =~= start + body_section(req.model()));
    } else {
        assert(out@ =~= start + body_section(req.model()));
    }
}

/// The head of the detailed view: request line, status and the single
/// valued fields.
pub open spec fn detail_head(req: JsonModel, f: FiguresModel) -> Seq<char> {
    let st = str_or(model_get(req, "statusText"@), ""@);
    "## "@ + str_or(model_get(req, "method"@), "GET"@) + " "@ + str_or(model_get(req, "url"@), "?"@)
        + "\n\n"@ + "**Status:** "@ + status_text(req) + (if st.len() == 0 {
        Seq::empty()
    } else {
        " "@ + st
    }) + "\n"@ + detail_fields(req, f)
}

/// The timing section, shown where the request has a timing object.
pub open spec fn timing_section(req: JsonModel, f: FiguresModel) -> Seq<char> {
    match model_get(req, "timing"@) {
        Some(JsonModel::Object(_)) => "\n### Timing Breakdown\n"@ + join_seq(f.timing_lines, ""@),
        _ => Seq::empty(),
    }
}

fn push_detail_head(out: &mut String, req: &JsonValue, figures: &RequestFigures)
    ensures
        final(out)@ == old(out)@ + detail_head(req.model(), figures.model()),
{
    let ghost start = out@;
    push_str(out, "## ");
    push_str(out, req.get_str_or("method", "GET").as_str());
    push_str(out, " ");
    push_str(out, req.get_str_or("url", "?").as_str());
    push_str(out, "\n\n");
    push_str(out, "**Status:** ");
    push_status(out, req);
    let st = req.get_str_or("statusText", "");
    if st.unicode_len() > 0 {
        push_str(out, " ");
        push_str(out, st.as_str());
    }
    push_str(out, "\n");
    let ghost a = out@;
    push_detail_fields(out, req, figures);
    assert(out@ =~= start + detail_head(req.model(), figures.model()));
}

/// The single valued fields of the detailed view.
pub open spec fn detail_fields(req: JsonModel, f: FiguresModel) -> Seq<char> {
    line_if("**Resource Type:** "@, opt_str(model_get(req, "resourceType"@))) + line_if(
        "**MIME Type:** "@,
        opt_str(model_get(req, "mimeType"@)),
    ) + line_if("**Size:** "@, f.size) + line_if("**Duration:** "@, f.duration)
}

fn push_detail_fields(out: &mut String, req: &JsonValue, figures: &RequestFigures)
    ensures
        final(out)@ == old(out)@ + detail_fields(req.model(), figures.model()),
{
    let ghost start = out@;
    push_line_if(out, "**Resource Type:** ", &str_member(req, "resourceType"));
    push_line_if(out, "**MIME Type:** ", &str_member(req, "mimeType"));
    push_line_if(out, "**Size:** ", &figures.size);
    push_line_if(out, "**Duration:** ", &figures.duration);
    assert(out@ =~= start + detail_fields(req.model(), figures.model()));
}

fn push_timing(out: &mut String, req: &JsonValue, figures: &RequestFigures)
    ensures
        final(out)@ == old(out)@ + timing_section(req.model(), figures.model()),
{
    let ghost start = out@;
    let timing_is_object = match req.get("timing") {
        Some(t) => t.is_object(),
        None => false,
    };
    if timing_is_object {
        push_str(out, "\n### Timing Breakdown\n");
        push_str(out, join_strings(&figures.timing_lines, "").as_str());
    }
    assert(out@ =~= start + timing_section(req.model(), figures.model()));
}

/// Format full details of a single network request.
pub fn format_network_request_detail(req: &JsonValue, figures: &RequestFigures) -> (r: String)
    ensures
        r@ == request_detail(req.model(), figures.model()),
{
    let mut out = String::new();
    push_detail_head(&mut out, req, figures);
    push_headers(&mut out, req, "requestHeaders", "\n### Request Headers\n");
    push_headers(&mut out, req, "responseHeaders", "\n### Response Headers\n");
    push_timing(&mut out, req, figures);
    push_body(&mut out, req);
    assert(out@ =~= request_detail(req.model(), figures.model()));
    out
}

/// A request passes the filters exactly when its URL contains the URL
/// filter (where one is given) and its resource type equals the type
/// filter up to ASCII case (where one is given); each filter excludes on
/// its own, whatever the other is. Filtering keeps exactly the passing
/// requests, in order.
pub proof fn law_filters(
    req: JsonModel,
    url_filter: Option<Seq<char>>,
    type_filter: Option<Seq<char>>,
    reqs: Seq<(JsonModel, FiguresModel)>,
)
    ensures
        (url_filter matches Some(uf) && !contains_seq(str_or(model_get(req, "url"@), ""@), uf))
            ==> !request_matches(req, url_filter, type_filter),
        (type_filter matches Some(tf) && !eq_ignore_ascii_case(
            str_or(model_get(req, "resourceType"@), ""@),
            tf,
        )) ==> !request_matches(req, url_filter, type_filter),
        (url_filter matches Some(uf) ==> contains_seq(str_or(model_get(req, "url"@), ""@), uf)) && (
        type_filter matches Some(tf) ==> eq_ignore_ascii_case(
            str_or(model_get(req, "resourceType"@), ""@),
            tf,
        )) ==> request_matches(req, url_filter, type_filter),
        forall|k: int|
            0 <= k < filtered(reqs, url_filter, type_filter).len() ==> request_matches(
                #[trigger] filtered(reqs, url_filter, type_filter)[k].0,
                url_filter,
                type_filter,
            ),
        (forall|k: int| 0 <= k < reqs.len() ==> request_matches(#[trigger] reqs[k].0, url_filter, type_filter))
            ==> filtered(reqs, url_filter, type_filter) == reqs,
        (forall|k: int| 0 <= k < reqs.len() ==> !request_matches(#[trigger] reqs[k].0, url_filter, type_filter))
            ==> filtered(reqs, url_filter, type_filter).len() == 0,
    decreases reqs.len(),
{
    if reqs.len() > 0 {
        let init = reqs.drop_last();
        law_filters(req, url_filter, type_filter, init);
        assert forall|k: int| 0 <= k < init.len() implies #[trigger] init[k] == reqs[k] by {}
        if forall|k: int| 0 <= k < reqs.len() ==> request_matches(#[trigger] reqs[k].0, url_filter, type_filter) {
            assert(forall|k: int| 0 <= k < init.len() ==> request_matches(#[trigger] init[k].0, url_filter, type_filter)) by {
                assert forall|k: int| 0 <= k < init.len() implies request_matches(#[trigger] init[k].0, url_filter, type_filter) by {
                    assert(init[k] == reqs[k]);
                }
            }
            assert(request_matches(reqs[reqs.len() - 1].0, url_filter, type_filter));
            assert(init.push(reqs.last()) =~= reqs);
        }
        if forall|k: int| 0 <= k < reqs.len() ==> !request_matches(#[trigger] reqs[k].0, url_filter, type_filter) {
            assert(forall|k: int| 0 <= k < init.len() ==> !request_matches(#[trigger] init[k].0, url_filter, type_filter)) by {
                assert forall|k: int| 0 <= k < init.len() implies !request_matches(#[trigger] init[k].0, url_filter, type_filter) by {
                    assert(init[k] == reqs[k]);
                }
            }
            assert(!request_matches(reqs[reqs.len() - 1].0, url_filter, type_filter));
        }
        let f = filtered(reqs, url_filter, type_filter);
        let f0 = filtered(init, url_filter, type_filter);
        if request_matches(reqs.last().0, url_filter, type_filter) {
            assert forall|k: int| 0 <= k < f.len() implies request_matches(#[trigger] f[k].0, url_filter, type_filter) by {
                if k < f0.len() {
                    assert(f[k] == f0[k]);
                }
            }
        }
    }
}

} // verus!
