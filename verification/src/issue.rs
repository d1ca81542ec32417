//! Browser issue formatter: renders `Audits.issueAdded` events as readable
//! descriptions with their category, code and affected locations.

use vstd::prelude::*;

use crate::json::{
    model_as_str, model_get, opt_array, opt_get, opt_str, str_or, u64_or_zero, JsonModel,
    JsonNumber, JsonValue,
};
use crate::text::{
    chars_of, contains_seq, contains_str, decimal, join_seq, join_strings, owned, push_char,
    push_str, push_u64, starts_with_seq, starts_with_str, str_eq, views_of,
};

verus! {

// ---------------------------------------------------------------------------
// Trusted: Unicode case property
// ---------------------------------------------------------------------------

/// Whether a character has the Unicode `Uppercase` property.
pub uninterp spec fn char_is_uppercase(c: char) -> bool;

/// Whether a character is upper case: `A`..=`Z` among ASCII characters,
/// the Unicode `Uppercase` property beyond them.
pub open spec fn is_upper_char(c: char) -> bool {
    if (c as u32) < 128 {
        'A' <= c && c <= 'Z'
    } else {
        char_is_uppercase(c)
    }
}

/// `char::is_uppercase`.
///
/// Trusted: std documents it as true exactly for characters with the
/// Unicode `Uppercase` property, which among ASCII characters are `A`..=`Z`.
/// The contract names the result and states that ASCII fact; the Unicode
/// tables themselves are not restated.
#[verifier::external_body]
fn is_uppercase(c: char) -> (r: bool)
    ensures
        r == char_is_uppercase(c),
        (c as u32) < 128 ==> (r <==> ('A' <= c && c <= 'Z')),
{
    c.is_uppercase()
}

// ---------------------------------------------------------------------------
// Specification
// ---------------------------------------------------------------------------

/// How serious an issue is.
#[derive(Clone, Copy, Debug, PartialEq, Eq, Structural)]
pub enum IssueSeverity {
    Error,
    Warning,
    Info,
}

/// The two-decimal renderings of the contrast figures of a low text
/// contrast issue, as the caller renders floating-point numbers.
pub struct ContrastText {
    pub ratio: String,
    pub threshold: String,
}

/// The severity of an issue: its `severity` field, or, where that is not a
/// known level, inferred from its code.
pub open spec fn severity_of(issue: JsonModel) -> IssueSeverity {
    let s = str_or(model_get(issue, "severity"@), ""@);
    if s == "Error"@ {
        IssueSeverity::Error
    } else if s == "Warning"@ {
        IssueSeverity::Warning
    } else if s == "Information"@ || s == "Info"@ {
        IssueSeverity::Info
    } else {
        let code = str_or(model_get(issue, "code"@), ""@);
        if contains_seq(code, "Block"@) || contains_seq(code, "Error"@) {
            IssueSeverity::Error
        } else {
            IssueSeverity::Warning
        }
    }
}

/// The label shown for a severity.
pub open spec fn severity_label(s: IssueSeverity) -> Seq<char> {
    match s {
        IssueSeverity::Error => "Error"@,
        IssueSeverity::Warning => "Warning"@,
        IssueSeverity::Info => "Info"@,
    }
}

/// The category of an issue code; the first matching rule wins.
pub open spec fn issue_category(c: Seq<char>) -> Seq<char> {
    if starts_with_seq(c, "MixedContent"@) {
        "Security"@
    } else if starts_with_seq(c, "SameSiteCookie"@) || contains_seq(c, "Cookie"@) {
        "Cookie"@
    } else if starts_with_seq(c, "BlockedByResponse"@) || contains_seq(c, "CORS"@) {
        "CORS"@
    } else if starts_with_seq(c, "ContentSecurityPolicy"@) || contains_seq(c, "CSP"@) {
        "Security"@
    } else if starts_with_seq(c, "Heavy"@) || contains_seq(c, "Performance"@) {
        "Performance"@
    } else if starts_with_seq(c, "Deprecation"@) || contains_seq(c, "Deprecated"@) {
        "Deprecation"@
    } else if contains_seq(c, "SharedArray"@) || contains_seq(c, "CrossOriginIsolation"@) {
        "Security"@
    } else if starts_with_seq(c, "LowTextContrast"@) || contains_seq(c, "Accessibility"@) {
        "Accessibility"@
    } else if starts_with_seq(c, "Attribution"@) {
        "Attribution Reporting"@
    } else if starts_with_seq(c, "Quirks"@) {
        "Quirks Mode"@
    } else if starts_with_seq(c, "Navigator"@) {
        "Privacy"@
    } else if contains_seq(c, "Federated"@) || contains_seq(c, "FedCM"@) {
        "Privacy"@
    } else {
        "Other"@
    }
}

/// A PascalCase code with a space put before every upper-case character
/// but the first.
pub open spec fn humanized(s: Seq<char>) -> Seq<char>
    decreases s.len(),
{
    if s.len() == 0 {
        Seq::empty()
    } else if s.len() > 1 && is_upper_char(s.last()) {
        humanized(s.drop_last()) + seq![' ', s.last()]
    } else {
        humanized(s.drop_last()).push(s.last())
    }
}

/// The details object of an issue: its `details` member, or the issue
/// itself where it carries one of the detail kinds directly.
pub open spec fn details_of(issue: JsonModel) -> Option<JsonModel> {
    match model_get(issue, "details"@) {
        Some(d) => Some(d),
        None => if model_get(issue, "mixedContentIssueDetails"@) is Some || model_get(
            issue,
            "cookieIssueDetails"@,
        ) is Some || model_get(issue, "blockedByResponseIssueDetails"@) is Some {
            Some(issue)
        } else {
            None
        },
    }
}

/// The first of two optional values that is present.
pub open spec fn first_present(a: Option<JsonModel>, b: Option<JsonModel>) -> Option<JsonModel> {
    match a {
        Some(x) => Some(x),
        None => b,
    }
}

/// The strings among a list of values, in order.
pub open spec fn strings_among(vs: Seq<JsonModel>) -> Seq<Seq<char>>
    decreases vs.len(),
{
    if vs.len() == 0 {
        Seq::empty()
    } else {
        match model_as_str(vs.last()) {
            Some(s) => strings_among(vs.drop_last()).push(s),
            None => strings_among(vs.drop_last()),
        }
    }
}

/// The reasons named by cookie issue details.
pub open spec fn cookie_reason(cookie: JsonModel) -> Seq<char> {
    match opt_array(
        first_present(
            model_get(cookie, "cookieWarningReasons"@),
            model_get(cookie, "cookieExclusionReasons"@),
        ),
    ) {
        Some(rs) => join_seq(strings_among(rs), ", "@),
        None => "unspecified reason"@,
    }
}

/// The description drawn from a details object: from the first kind of
/// details it carries, else the humanized code.
pub open spec fn details_description(
    code: Seq<char>,
    d: JsonModel,
    ratio: Seq<char>,
    threshold: Seq<char>,
) -> Seq<char> {
    if let Some(mixed) = model_get(d, "mixedContentIssueDetails"@) {
        "Mixed Content ("@ + str_or(model_get(mixed, "resolutionStatus"@), ""@)
            + "): The page loaded over HTTPS but requested an insecure "@ + str_or(
            model_get(mixed, "resourceType"@),
            "resource"@,
        ) + " '"@ + str_or(model_get(mixed, "insecureURL"@), ""@) + "'"@
    } else if let Some(cookie) = model_get(d, "cookieIssueDetails"@) {
        "Cookie Issue: "@ + cookie_reason(cookie)
    } else if let Some(blocked) = model_get(d, "blockedByResponseIssueDetails"@) {
        "Blocked by Response: "@ + str_or(model_get(blocked, "reason"@), "unknown"@)
    } else if let Some(csp) = model_get(d, "contentSecurityPolicyIssueDetails"@) {
        "Content Security Policy violation: directive '"@ + str_or(
            model_get(csp, "violatedDirective"@),
            ""@,
        ) + "'"@
    } else if let Some(heavy) = model_get(d, "heavyAdIssueDetails"@) {
        "Heavy Ad: "@ + str_or(model_get(heavy, "reason"@), "resource limits exceeded"@)
    } else if let Some(dep) = model_get(d, "deprecationIssueDetails"@) {
        "Deprecated: "@ + str_or(model_get(dep, "type"@), "feature"@)
    } else if model_get(d, "lowTextContrastIssueDetails"@) is Some {
        "Low Text Contrast: ratio "@ + ratio + " is below threshold "@ + threshold + " (WCAG AA)"@
    } else {
        humanized(code)
    }
}

/// The description of an issue: from its details object where it has one,
/// else its humanized code.
pub open spec fn issue_description(
    code: Seq<char>,
    issue: JsonModel,
    ratio: Seq<char>,
    threshold: Seq<char>,
) -> Seq<char> {
    match details_of(issue) {
        Some(d) => details_description(code, d, ratio, threshold),
        None => humanized(code),
    }
}

/// A `URL` entry for the sub-object `key` of the details, where it names an
/// affected URL.
pub open spec fn url_entry(data: JsonModel, key: Seq<char>) -> Seq<(Seq<char>, Seq<char>)> {
    match model_get(data, key) {
        Some(sub) => match opt_str(
            first_present(
                first_present(model_get(sub, "insecureURL"@), model_get(sub, "blockedURL"@)),
                model_get(sub, "blockedUrl"@),
            ),
        ) {
            Some(u) => seq![("URL"@, u)],
            None => Seq::empty(),
        },
        None => Seq::empty(),
    }
}

/// A `Request URL` entry for the affected request.
pub open spec fn request_entry(data: JsonModel) -> Seq<(Seq<char>, Seq<char>)> {
    match model_get(data, "request"@) {
        Some(JsonModel::Object(_)) => match opt_str(opt_get(model_get(data, "request"@), "url"@)) {
            Some(u) => seq![("Request URL"@, u)],
            None => Seq::empty(),
        },
        _ => Seq::empty(),
    }
}

/// A `Source` entry for the source code location.
pub open spec fn source_entry(data: JsonModel) -> Seq<(Seq<char>, Seq<char>)> {
    match model_get(data, "sourceCodeLocation"@) {
        Some(JsonModel::Object(e)) => {
            let loc = JsonModel::Object(e);
            let url = str_or(model_get(loc, "url"@), ""@);
            if url.len() > 0 {
                seq![
                    ("Source"@, url + ":"@ + decimal(u64_or_zero(model_get(loc, "lineNumber"@)) as nat)
                        + ":"@ + decimal(u64_or_zero(model_get(loc, "columnNumber"@)) as nat)),
                ]
            } else {
                Seq::empty()
            }
        },
        _ => Seq::empty(),
    }
}

/// The key/value details shown for an issue, in order.
pub open spec fn detail_entries(issue: JsonModel) -> Seq<(Seq<char>, Seq<char>)> {
    match details_of(issue) {
        Some(d) => url_entry(d, "mixedContentIssueDetails"@) + url_entry(
            d,
            "blockedByResponseIssueDetails"@,
        ) + url_entry(d, "contentSecurityPolicyIssueDetails"@) + request_entry(d) + source_entry(
            d,
        ),
        None => Seq::empty(),
    }
}

/// The detail lines of an issue.
pub open spec fn details_text(ds: Seq<(Seq<char>, Seq<char>)>) -> Seq<char>
    decreases ds.len(),
{
    if ds.len() == 0 {
        Seq::empty()
    } else {
        details_text(ds.drop_last()) + "\n  "@ + ds.last().0 + ": "@ + ds.last().1
    }
}

/// The issue data of an event: its `issue` member, or the event itself.
pub open spec fn issue_data(event: JsonModel) -> JsonModel {
    match model_get(event, "issue"@) {
        Some(d) => d,
        None => event,
    }
}

/// The rendering of one issue event.
pub open spec fn issue_text(event: JsonModel, ratio: Seq<char>, threshold: Seq<char>) -> Seq<char> {
    let data = issue_data(event);
    let code = str_or(model_get(data, "code"@), "UnknownIssue"@);
    "["@ + severity_label(severity_of(data)) + "] "@ + issue_description(code, data, ratio, threshold)
        + "\n  Category: "@ + issue_category(code) + "\n  Code: "@ + code + details_text(
        detail_entries(data),
    )
}

// ---------------------------------------------------------------------------
// Implementation
// ---------------------------------------------------------------------------

/// Extract severity from the issue data.
pub fn extract_severity(issue: &JsonValue) -> (r: IssueSeverity)
    ensures
        r == severity_of(issue.model()),
{
    let s = issue.get_str_or("severity", "");
    if str_eq(s.as_str(), "Error") {
        IssueSeverity::Error
    } else if str_eq(s.as_str(), "Warning") {
        IssueSeverity::Warning
    } else if str_eq(s.as_str(), "Information") || str_eq(s.as_str(), "Info") {
        IssueSeverity::Info
    } else {
        let code = chars_of(issue.get_str_or("code", "").as_str());
        if contains_str(&code, "Block") || contains_str(&code, "Error") {
            IssueSeverity::Error
        } else {
            IssueSeverity::Warning
        }
    }
}

/// Categorize an issue by its code.
pub fn categorize_issue(code: &str) -> (r: &'static str)
    ensures
        r@ == issue_category(code@),
{
    let c = chars_of(code);
    if starts_with_str(&c, "MixedContent") {
        "Security"
    } else if starts_with_str(&c, "SameSiteCookie") || contains_str(&c, "Cookie") {
        "Cookie"
    } else if starts_with_str(&c, "BlockedByResponse") || contains_str(&c, "CORS") {
        "CORS"
    } else if starts_with_str(&c, "ContentSecurityPolicy") || contains_str(&c, "CSP") {
        "Security"
    } else if starts_with_str(&c, "Heavy") || contains_str(&c, "Performance") {
        "Performance"
    } else if starts_with_str(&c, "Deprecation") || contains_str(&c, "Deprecated") {
        "Deprecation"
    } else if contains_str(&c, "SharedArray") || contains_str(&c, "CrossOriginIsolation") {
        "Security"
    } else if starts_with_str(&c, "LowTextContrast") || contains_str(&c, "Accessibility") {
        "Accessibility"
    } else if starts_with_str(&c, "Attribution") {
        "Attribution Reporting"
    } else if starts_with_str(&c, "Quirks") {
        "Quirks Mode"
    } else if starts_with_str(&c, "Navigator") {
        "Privacy"
    } else if contains_str(&c, "Federated") || contains_str(&c, "FedCM") {
        "Privacy"
    } else {
        "Other"
    }
}

/// Convert a PascalCase code to a human-readable string.
pub fn humanize_code(code: &str) -> (r: String)
    ensures
        r@ == humanized(code@),
{
    let cs = chars_of(code);
    let mut result = String::new();
    let mut i: usize = 0;
    while i < cs.len()
        invariant
            i <= cs@.len(),
            cs@ == code@,
            result@ == humanized(cs@.take(i as int)),
        decreases cs@.len() - i,
    {
        assert(cs@.take(i + 1).drop_last() =~= cs@.take(i as int));
        let ch = cs[i];
        let up = is_uppercase(ch);
        if up && i > 0 {
            push_char(&mut result, ' ');
        }
        push_char(&mut result, ch);
        i = i + 1;
        assert(result@ =~= humanized(cs@.take(i as int)));
    }
    assert(cs@.take(cs@.len() as int) =~= cs@);
    result
}

/// Try to get the details object from various issue shapes.
pub fn get_details_object(issue: &JsonValue) -> (r: Option<&JsonValue>)
    ensures
        match r {
            Some(d) => details_of(issue.model()) == Some(d.model()),
            None => details_of(issue.model()) is None,
        },
{
    match issue.get("details") {
        Some(d) => Some(d),
        None => {
            if issue.get("mixedContentIssueDetails").is_some() || issue.get(
                "cookieIssueDetails",
            ).is_some() || issue.get("blockedByResponseIssueDetails").is_some() {
                Some(issue)
            } else {
                None
            }
        },
    }
}

fn string_elements(rs: &Vec<JsonValue>) -> (r: Vec<String>)
    ensures
        views_of(r@) == strings_among(Seq::new(rs@.len(), |i: int| rs@[i].model())),
{
    let ghost m = Seq::new(rs@.len(), |i: int| rs@[i].model());
    let mut out: Vec<String> = Vec::new();
    let mut i: usize = 0;
    while i < rs.len()
        invariant
            i <= rs@.len(),
            m == Seq::new(rs@.len(), |i: int| rs@[i].model()),
            views_of(out@) == strings_among(m.take(i as int)),
        decreases rs@.len() - i,
    {
        assert(m.take(i + 1).drop_last() =~= m.take(i as int));
        assert(m.take(i + 1).last() == rs@[i as int].model());
        if let Some(s) = rs[i].as_str() {
            out.push(owned(s));
            assert(views_of(out@) =~= strings_among(m.take(i as int)).push(s@));
        }
        i = i + 1;
    }
    assert(m.take(rs@.len() as int) =~= m);
    out
}

fn describe_cookie(cookie: &JsonValue) -> (r: String)
    ensures
        r@ == cookie_reason(cookie.model()),
{
    let listed = match cookie.get("cookieWarningReasons") {
        Some(w) => Some(w),
        None => cookie.get("cookieExclusionReasons"),
    };
    if let Some(l) = listed {
        if let Some(rs) = l.as_array() {
            let parts = string_elements(rs);
            return join_strings(&parts, ", ");
        }
    }
    owned("unspecified reason")
}

fn describe_details(code: &str, d: &JsonValue, contrast: &ContrastText) -> (r: String)
    ensures
        r@ == details_description(code@, d.model(), contrast.ratio@, contrast.threshold@),
{
    if let Some(mixed) = d.get("mixedContentIssueDetails") {
        let mut out = owned("Mixed Content (");
        push_str(&mut out, mixed.get_str_or("resolutionStatus", "").as_str());
        push_str(&mut out, "): The page loaded over HTTPS but requested an insecure ");
        push_str(&mut out, mixed.get_str_or("resourceType", "resource").as_str());
        push_str(&mut out, " '");
        push_str(&mut out, mixed.get_str_or("insecureURL", "").as_str());
        push_str(&mut out, "'");
        return out;
    }
    if let Some(cookie) = d.get("cookieIssueDetails") {
        let mut out = owned("Cookie Issue: ");
        push_str(&mut out, describe_cookie(cookie).as_str());
        return out;
    }
    if let Some(blocked) = d.get("blockedByResponseIssueDetails") {
        let mut out = owned("Blocked by Response: ");
        push_str(&mut out, blocked.get_str_or("reason", "unknown").as_str());
        return out;
    }
    if let Some(csp) = d.get("contentSecurityPolicyIssueDetails") {
        let mut out = owned("Content Security Policy violation: directive '");
        push_str(&mut out, csp.get_str_or("violatedDirective", "").as_str());
        push_str(&mut out, "'");
        return out;
    }
    if let Some(heavy) = d.get("heavyAdIssueDetails") {
        let mut out = owned("Heavy Ad: ");
        push_str(&mut out, heavy.get_str_or("reason", "resource limits exceeded").as_str());
        return out;
    }
    if let Some(dep) = d.get("deprecationIssueDetails") {
        let mut out = owned("Deprecated: ");
        push_str(&mut out, dep.get_str_or("type", "feature").as_str());
        return out;
    }
    if d.get("lowTextContrastIssueDetails").is_some() {
        let mut out = owned("Low Text Contrast: ratio ");
        push_str(&mut out, contrast.ratio.as_str());
        push_str(&mut out, " is below threshold ");
        push_str(&mut out, contrast.threshold.as_str());
        push_str(&mut out, " (WCAG AA)");
        return out;
    }
    humanize_code(code)
}

/// Generate a human-readable description for an issue. The figures of a
/// low text contrast issue come already rendered in `contrast`.
pub fn describe_issue(code: &str, issue: &JsonValue, contrast: &ContrastText) -> (r: String)
    ensures
        r@ == issue_description(code@, issue.model(), contrast.ratio@, contrast.threshold@),
{
    match get_details_object(issue) {
        Some(d) => {
            let r = describe_details(code, d, contrast);
            r
        },
        None => humanize_code(code),
    }
}

fn push_url_entry(details: &mut Vec<(String, String)>, data: &JsonValue, key: &str)
    ensures
        pairs_of(final(details)@) == pairs_of(old(details)@) + url_entry(data.model(), key@),
{
    if let Some(sub) = data.get(key) {
        let found = match sub.get("insecureURL") {
            Some(u) => Some(u),
            None => match sub.get("blockedURL") {
                Some(u) => Some(u),
                None => sub.get("blockedUrl"),
            },
        };
        if let Some(u) = found {
            if let Some(url) = u.as_str() {
                details.push((owned("URL"), owned(url)));
                assert(pairs_of(details@) =~= pairs_of(old(details)@) + url_entry(data.model(), key@));
                return;
            }
        }
    }
    assert(pairs_of(details@) =~= pairs_of(old(details)@) + url_entry(data.model(), key@));
}

/// The views of a list of string pairs.
pub open spec fn pairs_of(v: Seq<(String, String)>) -> Seq<(Seq<char>, Seq<char>)> {
    v.map_values(|p: (String, String)| (p.0@, p.1@))
}

/// Extract key-value details from an issue for display; `None` where there
/// are none.
pub fn extract_issue_details(issue: &JsonValue) -> (r: Option<Vec<(String, String)>>)
    ensures
        match r {
            Some(ds) => pairs_of(ds@) == detail_entries(issue.model()) && ds@.len() > 0,
            None => detail_entries(issue.model()).len() == 0,
        },
{
    let mut details: Vec<(String, String)> = Vec::new();
    let data = match get_details_object(issue) {
        Some(d) => d,
        None => {
            return None;
        },
    };
    assert(pairs_of(details@) =~= Seq::empty());
    push_url_entry(&mut details, data, "mixedContentIssueDetails");
    push_url_entry(&mut details, data, "blockedByResponseIssueDetails");
    push_url_entry(&mut details, data, "contentSecurityPolicyIssueDetails");
    let ghost before_request = pairs_of(details@);
    if let Some(request) = data.get("request") {
        if request.is_object() {
            if let Some(u) = request.get("url") {
                if let Some(url) = u.as_str() {
                    details.push((owned("Request URL"), owned(url)));
                }
            }
        }
    }
    assert(pairs_of(details@) =~= before_request + request_entry(data.model()));
    let ghost before_source = pairs_of(details@);
    if let Some(location) = data.get("sourceCodeLocation") {
        if location.is_object() {
            let url = location.get_str_or("url", "");
            let line = location.get_u64_or_zero("lineNumber");
            let col = location.get_u64_or_zero("columnNumber");
            if url.unicode_len() > 0 {
                let mut text = url.clone();
                push_str(&mut text, ":");
                push_u64(&mut text, line);
                push_str(&mut text, ":");
                push_u64(&mut text, col);
                details.push((owned("Source"), text));
            }
        }
    }
    assert(pairs_of(details@) =~= before_source + source_entry(data.model()));
    assert(pairs_of(details@) =~= detail_entries(issue.model()));
    if details.len() == 0 {
        None
    } else {
        Some(details)
    }
}

/// The figures of a low text contrast issue event that its description
/// shows: the `contrastRatio` and `thresholdAA` numbers, where present.
pub fn contrast_figures(event: &JsonValue) -> (r: (Option<JsonNumber>, Option<JsonNumber>))
    ensures
        ({
            let fig = opt_get(details_of(issue_data(event.model())), "lowTextContrastIssueDetails"@);
            &&& number_model(r.0) == number_of(opt_get(fig, "contrastRatio"@))
            &&& number_model(r.1) == number_of(opt_get(fig, "thresholdAA"@))
        }),
{
    let data = match event.get("issue") {
        Some(d) => d,
        None => event,
    };
    if let Some(d) = get_details_object(data) {
        if let Some(c) = d.get("lowTextContrastIssueDetails") {
            return (number_in(c.get("contrastRatio")), number_in(c.get("thresholdAA")));
        }
    }
    (None, None)
}

/// The number held by an optional value.
pub open spec fn number_of(m: Option<JsonModel>) -> Option<crate::json::NumberModel> {
    match m {
        Some(JsonModel::Number(n)) => Some(n),
        _ => None,
    }
}

/// The model of an optional number.
pub open spec fn number_model(n: Option<JsonNumber>) -> Option<crate::json::NumberModel> {
    match n {
        Some(x) => Some(x.model()),
        None => None,
    }
}

fn number_in(v: Option<&JsonValue>) -> (r: Option<JsonNumber>)
    ensures
        number_model(r) == number_of(
            match v {
                Some(x) => Some(x.model()),
                None => None,
            },
        ),
{
    match v {
        Some(JsonValue::Number(n)) => Some(n.duplicate()),
        _ => None,
    }
}

/// Format a browser issue from a CDP `Audits.issueAdded` event: severity,
/// description, category, code, then the affected locations, one per line.
pub fn format_issue(issue: &JsonValue, contrast: &ContrastText) -> (r: String)
    ensures
        r@ == issue_text(issue.model(), contrast.ratio@, contrast.threshold@),
{
    let data = match issue.get("issue") {
        Some(d) => d,
        None => issue,
    };
    let code = data.get_str_or("code", "UnknownIssue");
    let label = match extract_severity(data) {
        IssueSeverity::Error => "Error",
        IssueSeverity::Warning => "Warning",
        IssueSeverity::Info => "Info",
    };
    let category = categorize_issue(code.as_str());
    let description = describe_issue(code.as_str(), data, contrast);
    let mut out = owned("[");
    push_str(&mut out, label);
    push_str(&mut out, "] ");
    push_str(&mut out, description.as_str());
    push_str(&mut out, "\n  Category: ");
    push_str(&mut out, category);
    push_str(&mut out, "\n  Code: ");
    push_str(&mut out, code.as_str());
    let ghost head = out@;
    if let Some(details) = extract_issue_details(data) {
        let ghost ds = pairs_of(details@);
        let mut i: usize = 0;
        while i < details.len()
            invariant
                i <= details@.len(),
                ds == pairs_of(details@),
                out@ == head + details_text(ds.take(i as int)),
            decreases details@.len() - i,
        {
            assert(ds.take(i + 1).drop_last() =~= ds.take(i as int));
            push_str(&mut out, "\n  ");
            push_str(&mut out, details[i].0.as_str());
            push_str(&mut out, ": ");
            push_str(&mut out, details[i].1.as_str());
            i = i + 1;
            assert(out@ =~= head + details_text(ds.take(i as int)));
        }
        assert(ds.take(details@.len() as int) =~= ds);
    } else {
        assert(out@ =~= head + details_text(Seq::empty()));
    }
    out
}

/// The numbered list of issues, each followed by a blank line.
pub open spec fn issues_lines(
    events: Seq<JsonModel>,
    contrast: Seq<(Seq<char>, Seq<char>)>,
) -> Seq<char>
    decreases events.len(),
{
    if events.len() == 0 {
        Seq::empty()
    } else {
        let k = (events.len() - 1) as int;
        issues_lines(events.drop_last(), contrast) + decimal((k + 1) as nat) + ". "@ + issue_text(
            events[k],
            contrast[k].0,
            contrast[k].1,
        ) + "\n\n"@
    }
}

/// The summary of a list of issues.
pub open spec fn issues_text(events: Seq<JsonModel>, contrast: Seq<(Seq<char>, Seq<char>)>) -> Seq<
    char,
> {
    if events.len() == 0 {
        "No browser issues detected."@
    } else {
        decimal(events.len()) + " issue(s) detected:\n\n"@ + issues_lines(events, contrast)
    }
}

/// The views of the contrast texts of a list of issues.
pub open spec fn contrast_views(c: Seq<ContrastText>) -> Seq<(Seq<char>, Seq<char>)> {
    c.map_values(|t: ContrastText| (t.ratio@, t.threshold@))
}

/// Format multiple issues into a summary; `contrast[i]` holds the rendered
/// contrast figures of `issues[i]`.
pub fn format_issues(issues: &[JsonValue], contrast: &[ContrastText]) -> (r: String)
    requires
        contrast@.len() == issues@.len(),
    ensures
        r@ == issues_text(crate::console::models(issues@), contrast_views(contrast@)),
{
    if issues.len() == 0 {
        return owned("No browser issues detected.");
    }
    let ghost ms = crate::console::models(issues@);
    let ghost cs = contrast_views(contrast@);
    let mut out = String::new();
    push_u64(&mut out, issues.len() as u64);
    push_str(&mut out, " issue(s) detected:\n\n");
    let ghost head = out@;
    let mut i: usize = 0;
    while i < issues.len()
        invariant
            i <= issues@.len(),
            contrast@.len() == issues@.len(),
            ms == crate::console::models(issues@),
            cs == contrast_views(contrast@),
            out@ == head + issues_lines(ms.take(i as int), cs),
        decreases issues@.len() - i,
    {
        assert(ms.take(i + 1).drop_last() =~= ms.take(i as int));
        assert(ms.take(i + 1)[i as int] == issues@[i as int].model());
        let text = format_issue(&issues[i], &contrast[i]);
        push_u64(&mut out, (i + 1) as u64);
        push_str(&mut out, ". ");
        push_str(&mut out, text.as_str());
        push_str(&mut out, "\n\n");
        i = i + 1;
        assert(out@ =~= head + issues_lines(ms.take(i as int), cs));
    }
    assert(ms.take(issues@.len() as int) =~= ms);
    out
}

} // verus!
